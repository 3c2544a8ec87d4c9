//! Laws on stopping, healing and showing what runs.

use crate::commands::lifecycle;
use crate::commands::lifecycle::{ActionText, StaleText};
use crate::ordered_map;
use crate::output;
use crate::state::{ExternalRunEntry, ProcessEntry, State};
use crate::text;
use vstd::prelude::*;

verus! {

proof fn project_stops_at(s: Seq<(Seq<char>, ProcessEntry)>, i: int)
    requires
        0 <= i < s.len(),
    ensures
        lifecycle::project_stops(s).len() == 2 * s.len(),
        lifecycle::project_stops(s)[2 * i] == (ActionText::RemoveRoute { name: s[i].0 }),
        lifecycle::project_stops(s)[2 * i + 1] == (ActionText::StopProject {
            name: s[i].0,
            pid: s[i].1.pid,
        }),
    decreases s.len(),
{
    let front = s.drop_last();
    if front.len() == 0 {
        assert(lifecycle::project_stops(front).len() == 0);
    } else if i < front.len() {
        project_stops_at(front, i);
    } else {
        project_stops_at(front, 0);
    }
}

proof fn run_stops_at(s: Seq<(Seq<char>, ExternalRunEntry)>, i: int)
    requires
        0 <= i < s.len(),
    ensures
        lifecycle::run_stops(s).len() == 2 * s.len(),
        lifecycle::run_stops(s)[2 * i] == (ActionText::RemoveRoute { name: s[i].0 }),
        lifecycle::run_stops(s)[2 * i + 1] == (ActionText::ForgetRun {
            name: s[i].0,
            port: s[i].1.port,
        }),
    decreases s.len(),
{
    let front = s.drop_last();
    if front.len() == 0 {
        assert(lifecycle::run_stops(front).len() == 0);
    } else if i < front.len() {
        run_stops_at(front, i);
    } else {
        run_stops_at(front, 0);
    }
}

/// Where everything is stopped, every project's route is taken out and its process stopped, every
/// service's process is stopped, every external run's route is taken out and the run forgotten,
/// and the Caddy that stack started is stopped. Nothing else is done, and nothing is tracked any
/// more.
pub proof fn stopping_all_unroutes_and_stops_everything(
    before: State,
    after: State,
    actions: Seq<ActionText>,
)
    requires
        lifecycle::stopped_all(before, after, actions),
    ensures
        forall|i: int|
            #![trigger before.projects.pairs()[i]]
            0 <= i < before.projects.pairs().len() ==> {
                let (name, entry) = before.projects.pairs()[i];
                &&& actions.contains(ActionText::RemoveRoute { name })
                &&& actions.contains(ActionText::StopProject { name, pid: entry.pid })
            },
        forall|i: int|
            #![trigger before.services.pairs()[i]]
            0 <= i < before.services.pairs().len() ==> {
                let (key, entry) = before.services.pairs()[i];
                actions.contains(ActionText::StopService { key, pid: entry.pid })
            },
        forall|i: int|
            #![trigger before.external_runs.pairs()[i]]
            0 <= i < before.external_runs.pairs().len() ==> {
                let (name, entry) = before.external_runs.pairs()[i];
                &&& actions.contains(ActionText::RemoveRoute { name })
                &&& actions.contains(ActionText::ForgetRun { name, port: entry.port })
            },
        before.caddy_pid matches Some(pid) ==> actions.contains(ActionText::StopCaddy { pid }),
        actions.len() == 2 * before.projects.pairs().len() + before.services.pairs().len() + 2
            * before.external_runs.pairs().len() + (if before.caddy_pid is Some {
            1int
        } else {
            0int
        }),
        forall|key: Seq<char>| !#[trigger] after.projects@.contains_key(key),
        forall|key: Seq<char>| !#[trigger] after.services@.contains_key(key),
        forall|key: Seq<char>| !#[trigger] after.external_runs@.contains_key(key),
        after.caddy_pid is None,
{
    let projects = before.projects.pairs();
    let services = before.services.pairs();
    let runs = before.external_runs.pairs();
    let first = lifecycle::project_stops(projects);
    let second = lifecycle::service_stops(services);
    let third = lifecycle::run_stops(runs);
    if projects.len() > 0 {
        project_stops_at(projects, 0);
    }
    if runs.len() > 0 {
        run_stops_at(runs, 0);
    }
    assert(first.len() == 2 * projects.len());
    assert(third.len() == 2 * runs.len());
    assert forall|i: int|
        #![trigger projects[i]]
        0 <= i < projects.len() implies {
        let (name, entry) = projects[i];
        &&& actions.contains(ActionText::RemoveRoute { name })
        &&& actions.contains(ActionText::StopProject { name, pid: entry.pid })
    } by {
        project_stops_at(projects, i);
        assert(actions[2 * i] == first[2 * i]);
        assert(actions[2 * i + 1] == first[2 * i + 1]);
    }
    assert forall|i: int|
        #![trigger services[i]]
        0 <= i < services.len() implies {
        let (key, entry) = services[i];
        actions.contains(ActionText::StopService { key, pid: entry.pid })
    } by {
        assert(actions[first.len() + i] == second[i]);
    }
    assert forall|i: int|
        #![trigger runs[i]]
        0 <= i < runs.len() implies {
        let (name, entry) = runs[i];
        &&& actions.contains(ActionText::RemoveRoute { name })
        &&& actions.contains(ActionText::ForgetRun { name, port: entry.port })
    } by {
        run_stops_at(runs, i);
        let at = first.len() + second.len();
        assert(actions[at + 2 * i] == third[2 * i]);
        assert(actions[at + 2 * i + 1] == third[2 * i + 1]);
    }
    if let Some(pid) = before.caddy_pid {
        assert(actions[actions.len() - 1] == ActionText::StopCaddy { pid });
    }
}

/// Stopping one by name takes out its route first. A project's process is then stopped; an external
/// run, which has none, is forgotten with its port; a name that nothing goes by is reported, and
/// nothing changes. A project comes before an external run of the same name.
pub proof fn stopping_one_unroutes_and_stops_it(
    before: State,
    name: Seq<char>,
    after: State,
    actions: Seq<ActionText>,
)
    requires
        lifecycle::stopped_one(before, name, after, actions),
    ensures
        after.caddy_pid == before.caddy_pid,
        before.projects@.contains_key(name) ==> {
            &&& actions.len() >= 2
            &&& actions[0] == (ActionText::RemoveRoute { name })
            &&& actions[1] == (ActionText::StopProject { name, pid: before.projects@[name].pid })
            &&& !after.projects@.contains_key(name)
            &&& after.external_runs@ == before.external_runs@
        },
        !before.projects@.contains_key(name) && before.external_runs@.contains_key(name) ==> {
            &&& actions.len() == 2
            &&& actions[0] == (ActionText::RemoveRoute { name })
            &&& actions[1] == (ActionText::ForgetRun {
                name,
                port: before.external_runs@[name].port,
            })
            &&& !after.external_runs@.contains_key(name)
            &&& after.services@ == before.services@
        },
        !before.projects@.contains_key(name) && !before.external_runs@.contains_key(name) ==> {
            &&& actions.len() == 1
            &&& actions[0] == (ActionText::NothingNamed { name })
            &&& after.services@ == before.services@
            &&& after.projects@ == before.projects@
            &&& after.external_runs@ == before.external_runs@
        },
{
    if !before.projects@.contains_key(name) {
        assert(before.projects@.remove(name) =~= before.projects@);
        assert(before.external_runs@.contains_key(name)
            || before.external_runs@.remove(name) =~= before.external_runs@);
    }
}

proof fn first_user_uses(pairs: Seq<(Seq<char>, ProcessEntry)>, service: Seq<char>)
    ensures
        lifecycle::first_user(pairs, service) matches Some(user) ==> exists|i: int|
            #![trigger pairs[i]]
            0 <= i < pairs.len() && pairs[i].0 == user && text::texts(
                pairs[i].1.services@,
            ).contains(service) && forall|j: int|
                #![trigger pairs[j]]
                0 <= j < i ==> !text::texts(pairs[j].1.services@).contains(service),
        lifecycle::first_user(pairs, service) is None ==> forall|i: int|
            #![trigger pairs[i]]
            0 <= i < pairs.len() ==> !text::texts(pairs[i].1.services@).contains(service),
    decreases pairs.len(),
{
    if pairs.len() > 0 {
        let front = pairs.drop_last();
        first_user_uses(front, service);
        if let Some(user) = lifecycle::first_user(front, service) {
            let i = choose|i: int|
                #![trigger front[i]]
                0 <= i < front.len() && front[i].0 == user && text::texts(
                    front[i].1.services@,
                ).contains(service) && forall|j: int|
                    #![trigger front[j]]
                    0 <= j < i ==> !text::texts(front[j].1.services@).contains(service);
            assert(pairs[i] == front[i]);
            assert forall|j: int|
                #![trigger pairs[j]]
                0 <= j < i implies !text::texts(pairs[j].1.services@).contains(service) by {
                assert(front[j] == pairs[j]);
            }
        } else {
            let n = front.len() as int;
            assert forall|j: int|
                #![trigger pairs[j]]
                0 <= j < n implies !text::texts(pairs[j].1.services@).contains(service) by {
                assert(front[j] == pairs[j]);
            }
            assert(pairs[n] == pairs.last());
        }
    }
}

/// Whoever holds a service back is the first project, in key order, that runs with it; nobody does
/// where no project runs with it.
pub proof fn the_first_project_that_runs_with_it(
    pairs: Seq<(Seq<char>, ProcessEntry)>,
    service: Seq<char>,
)
    ensures
        lifecycle::first_user(pairs, service) matches Some(user) ==> exists|i: int|
            #![trigger pairs[i]]
            0 <= i < pairs.len() && pairs[i].0 == user && text::texts(
                pairs[i].1.services@,
            ).contains(service) && forall|j: int|
                #![trigger pairs[j]]
                0 <= j < i ==> !text::texts(pairs[j].1.services@).contains(service),
        lifecycle::first_user(pairs, service) is None <==> forall|i: int|
            #![trigger pairs[i]]
            0 <= i < pairs.len() ==> !text::texts(pairs[i].1.services@).contains(service),
{
    first_user_uses(pairs, service);
}

/// Of the services that a stopped project ran with, each that another project runs with is kept and
/// said to be, and nothing is done about any service that it did not run with.
pub proof fn shared_services_are_said_to_stay(
    used: Seq<Seq<char>>,
    others: Seq<(Seq<char>, ProcessEntry)>,
    services: Map<Seq<char>, ProcessEntry>,
)
    ensures
        forall|k: int|
            #![trigger used[k]]
            0 <= k < used.len() ==> (lifecycle::first_user(others, used[k]) matches Some(user)
                ==> lifecycle::service_actions(used, others, services).contains(
                ActionText::KeepService { key: used[k], user },
            )),
        forall|i: int|
            #![trigger lifecycle::service_actions(used, others, services)[i]]
            0 <= i < lifecycle::service_actions(used, others, services).len() ==> {
                match lifecycle::service_actions(used, others, services)[i] {
                    ActionText::KeepService { key, user } => used.contains(key)
                        && lifecycle::first_user(others, key) == Some(user),
                    ActionText::StopService { key, pid } => used.contains(key)
                        && services.contains_key(key) && pid == services[key].pid
                        && lifecycle::first_user(others, key) is None,
                    _ => false,
                }
            },
    decreases used.len(),
{
    if used.len() > 0 {
        let front = used.drop_last();
        shared_services_are_said_to_stay(front, others, services);
        let part = lifecycle::service_actions(front, others, services);
        let whole = lifecycle::service_actions(used, others, services);
        let last = used.last();
        assert(used[used.len() - 1] == last);
        assert forall|k: int| #![trigger used[k]] 0 <= k < used.len() implies (
        lifecycle::first_user(others, used[k]) matches Some(user) ==> whole.contains(
            ActionText::KeepService { key: used[k], user },
        )) by {
            if let Some(user) = lifecycle::first_user(others, used[k]) {
                let keep = ActionText::KeepService { key: used[k], user };
                if k < front.len() {
                    assert(front[k] == used[k]);
                    let i = choose|i: int| 0 <= i < part.len() && part[i] == keep;
                    assert(whole[i] == keep);
                } else {
                    assert(whole[whole.len() - 1] == keep);
                }
            }
        }
        assert forall|i: int| #![trigger whole[i]] 0 <= i < whole.len() implies {
            match whole[i] {
                ActionText::KeepService { key, user } => used.contains(key)
                    && lifecycle::first_user(others, key) == Some(user),
                ActionText::StopService { key, pid } => used.contains(key)
                    && services.contains_key(key) && pid == services[key].pid
                    && lifecycle::first_user(others, key) is None,
                _ => false,
            }
        } by {
            if i < part.len() {
                assert(whole[i] == part[i]);
                let key = match part[i] {
                    ActionText::KeepService { key, .. } => key,
                    ActionText::StopService { key, .. } => key,
                    _ => last,
                };
                if front.contains(key) {
                    let k = choose|k: int| 0 <= k < front.len() && front[k] == key;
                    assert(used[k] == key);
                }
            }
        }
    }
}

/// What healing drops is exactly what is gone, each with its process or its port.
pub proof fn healing_reports_exactly_the_dead(
    projects: Seq<(Seq<char>, ProcessEntry)>,
    services: Seq<(Seq<char>, ProcessEntry)>,
    runs: Seq<(Seq<char>, ExternalRunEntry)>,
    alive: Seq<bool>,
)
    ensures
        forall|i: int|
            #![trigger projects[i]]
            0 <= i < projects.len() && !alive[i] ==> lifecycle::stale_projects(
                ordered_map::unflagged(projects, alive),
            ).contains(StaleText::Project { name: projects[i].0, pid: projects[i].1.pid }),
        forall|i: int|
            #![trigger services[i]]
            0 <= i < services.len() && !alive[i] ==> lifecycle::stale_services(
                ordered_map::unflagged(services, alive),
            ).contains(StaleText::Service { name: services[i].0, pid: services[i].1.pid }),
        forall|i: int|
            #![trigger runs[i]]
            0 <= i < runs.len() && !alive[i] ==> lifecycle::stale_runs(
                ordered_map::unflagged(runs, alive),
            ).contains(StaleText::ExternalRun { name: runs[i].0, port: runs[i].1.port }),
        ordered_map::flagged(projects, alive).len() + ordered_map::unflagged(projects, alive).len()
            == projects.len(),
        ordered_map::flagged(services, alive).len() + ordered_map::unflagged(services, alive).len()
            == services.len(),
        ordered_map::flagged(runs, alive).len() + ordered_map::unflagged(runs, alive).len()
            == runs.len(),
{
    assert forall|i: int| #![trigger projects[i]] 0 <= i < projects.len() && !alive[i] implies
        lifecycle::stale_projects(ordered_map::unflagged(projects, alive)).contains(
        StaleText::Project { name: projects[i].0, pid: projects[i].1.pid },
    ) by {
        unflagged_holds(projects, alive, i);
        let gone = ordered_map::unflagged(projects, alive);
        let k = choose|k: int| 0 <= k < gone.len() && gone[k] == projects[i];
        assert(lifecycle::stale_projects(gone)[k] == (StaleText::Project {
            name: projects[i].0,
            pid: projects[i].1.pid,
        }));
    }
    assert forall|i: int| #![trigger services[i]] 0 <= i < services.len() && !alive[i] implies
        lifecycle::stale_services(ordered_map::unflagged(services, alive)).contains(
        StaleText::Service { name: services[i].0, pid: services[i].1.pid },
    ) by {
        unflagged_holds(services, alive, i);
        let gone = ordered_map::unflagged(services, alive);
        let k = choose|k: int| 0 <= k < gone.len() && gone[k] == services[i];
        assert(lifecycle::stale_services(gone)[k] == (StaleText::Service {
            name: services[i].0,
            pid: services[i].1.pid,
        }));
    }
    assert forall|i: int| #![trigger runs[i]] 0 <= i < runs.len() && !alive[i] implies
        lifecycle::stale_runs(ordered_map::unflagged(runs, alive)).contains(
        StaleText::ExternalRun { name: runs[i].0, port: runs[i].1.port },
    ) by {
        unflagged_holds(runs, alive, i);
        let gone = ordered_map::unflagged(runs, alive);
        let k = choose|k: int| 0 <= k < gone.len() && gone[k] == runs[i];
        assert(lifecycle::stale_runs(gone)[k] == (StaleText::ExternalRun {
            name: runs[i].0,
            port: runs[i].1.port,
        }));
    }
    split_in_two(projects, alive);
    split_in_two(services, alive);
    split_in_two(runs, alive);
}

proof fn unflagged_holds<A>(s: Seq<A>, flags: Seq<bool>, i: int)
    requires
        0 <= i < s.len(),
        !flags[i],
    ensures
        ordered_map::unflagged(s, flags).contains(s[i]),
    decreases s.len(),
{
    let front = s.drop_last();
    let part = ordered_map::unflagged(front, flags);
    let whole = ordered_map::unflagged(s, flags);
    if i < front.len() {
        unflagged_holds(front, flags, i);
        let k = choose|k: int| 0 <= k < part.len() && part[k] == front[i];
        assert(whole[k] == s[i]);
    } else {
        assert(whole[whole.len() - 1] == s[i]);
    }
}

proof fn split_in_two<A>(s: Seq<A>, flags: Seq<bool>)
    ensures
        ordered_map::flagged(s, flags).len() + ordered_map::unflagged(s, flags).len() == s.len(),
    decreases s.len(),
{
    if s.len() > 0 {
        split_in_two(s.drop_last(), flags);
    }
}

/// Without a number, all lines of a log are shown; with one, that many or all where there are
/// fewer, and they are the last ones, in order.
pub proof fn the_tail_is_the_last_lines(contents: Seq<char>, tail: Option<usize>)
    ensures
        ({
            let all = text::lines_of(contents);
            let shown = all.skip(lifecycle::tail_start(all.len(), tail));
            &&& tail is None ==> shown == all
            &&& tail matches Some(n) ==> shown.len() == (if n < all.len() {
                n as nat
            } else {
                all.len()
            })
            &&& forall|i: int|
                0 <= i < shown.len() ==> #[trigger] shown[i] == all[all.len() - shown.len() + i]
        }),
{
    let all = text::lines_of(contents);
    if tail is None {
        assert(all.skip(0) =~= all);
    }
}

/// Everything that is tracked is shown: a line for each project, each service and each external
/// run, with its name and port, and the number of each.
pub proof fn status_shows_everything(state: State, routes: Option<usize>, i: int)
    ensures
        ({
            let shown = lifecycle::status_text(state, routes);
            let p = state.projects.pairs();
            let s = state.services.pairs();
            let r = state.external_runs.pairs();
            &&& shown.len() == p.len() + s.len() + r.len() + 4
            &&& shown[0] == "projects running: "@ + text::decimal(p.len())
            &&& shown[1 + p.len() as int] == "services running: "@ + text::decimal(s.len())
            &&& shown[2int + p.len() + s.len()] == "external runs: "@ + text::decimal(r.len())
            &&& 0 <= i < p.len() ==> shown[1 + i] == "  "@ + p[i].0 + ": pid="@ + text::decimal(
                p[i].1.pid as nat,
            ) + " port="@ + lifecycle::port_text(p[i].1.port)
            &&& 0 <= i < s.len() ==> shown[2 + p.len() + i] == "  "@ + s[i].0 + ": pid="@
                + text::decimal(s[i].1.pid as nat) + " port="@ + lifecycle::port_text(s[i].1.port)
            &&& 0 <= i < r.len() ==> text::has_prefix(
                shown[3 + p.len() + s.len() + i],
                "  "@ + r[i].0 + ": port="@ + text::decimal(r[i].1.port as nat),
            )
            &&& 0 <= i < r.len() && r[i].1.domain is Some ==> text::occurs_in(
                shown[3 + p.len() + s.len() + i],
                r[i].1.domain->0@,
            )
            &&& routes is None ==> shown.last() == "caddy: not running"@
            &&& routes matches Some(n) ==> shown.last() == "caddy: running ("@ + text::decimal(
                n as nat,
            ) + " route(s))"@
        }),
{
    let shown = lifecycle::status_text(state, routes);
    let p = state.projects.pairs();
    let s = state.services.pairs();
    let r = state.external_runs.pairs();
    if 0 <= i < r.len() {
        let line = shown[3 + p.len() + s.len() + i];
        assert(line == lifecycle::run_line(r[i]));
        let start = "  "@ + r[i].0 + ": port="@ + text::decimal(r[i].1.port as nat);
        match r[i].1.domain {
            Some(d) => {
                let between = " (external — no process tracked, routes to http://"@;
                assert(line =~= start + (between + d@ + ")"@));
                crate::laws::strings::prefixes_are_beginnings(start, between + d@ + ")"@, line);
                assert(line =~= start + between + d@ + ")"@);
                crate::laws::strings::occurrences_have_a_before_and_a_behind(
                    start + between,
                    d@,
                    ")"@,
                    line,
                );
            },
            None => {
                let rest = " (external — no process tracked)"@;
                assert(line =~= start + rest);
                crate::laws::strings::prefixes_are_beginnings(start, rest, line);
            },
        }
    }
}

/// A port is shown as the number it is; ports that differ are shown differently.
pub proof fn ports_are_shown_as_numbers(a: Option<u16>, b: Option<u16>)
    ensures
        a matches Some(p) ==> text::occurs_in(lifecycle::port_text(a), text::decimal(p as nat)),
        lifecycle::port_text(a) == lifecycle::port_text(b) ==> a == b,
{
    reveal_strlit("Some(");
    reveal_strlit(")");
    reveal_strlit("None");
    if let Some(p) = a {
        crate::laws::strings::occurrences_have_a_before_and_a_behind(
            "Some("@,
            text::decimal(p as nat),
            ")"@,
            lifecycle::port_text(a),
        );
    }
    if lifecycle::port_text(a) == lifecycle::port_text(b) {
        match (a, b) {
            (Some(p), Some(q)) => {
                let m = text::decimal(p as nat);
                let n = text::decimal(q as nat);
                let s = lifecycle::port_text(a);
                assert(s.subrange(5, s.len() - 1) =~= m);
                assert(lifecycle::port_text(b).subrange(5, s.len() - 1) =~= n);
                text::decimal_is_digits(p as nat);
                text::decimal_is_digits(q as nat);
            },
            (Some(_), None) => {
                assert(lifecycle::port_text(a)[0] == 'S');
            },
            (None, Some(_)) => {
                assert(lifecycle::port_text(b)[0] == 'S');
            },
            (None, None) => {},
        }
    }
}

/// Every tracked process is among those watched, projects first.
pub proof fn every_process_is_watched(state: State, i: int)
    ensures
        ({
            let p = state.projects.pairs();
            let s = state.services.pairs();
            let all = lifecycle::pids(p) + lifecycle::pids(s);
            &&& all.len() == p.len() + s.len()
            &&& 0 <= i < p.len() ==> all[i] == p[i].1.pid
            &&& 0 <= i < s.len() ==> all[p.len() + i] == s[i].1.pid
        }),
{
}

/// What failed is told as an alert that ends in why; what succeeded never is.
pub proof fn failures_are_told_as_alerts(action: ActionText, all: bool, why: Seq<char>)
    ensures
        action is RemoveRoute || action is StopProject || action is StopService
            || action is StopCaddy ==> {
            &&& action.report(all, Some(why)) matches Some(output::LineText::Alert(line))
            &&& text::has_suffix(line, why)
        },
        action is RemoveRoute ==> action.report(all, None) is None,
        action is StopProject || action is StopService || action is StopCaddy || action
            is KeepService || action is ForgetRun ==> action.report(all, None) matches Some(
            output::LineText::Out(_),
        ),
        action is NothingNamed ==> action.report(all, None) matches Some(
            output::LineText::Alert(_),
        ),
{
    if action is RemoveRoute || action is StopProject || action is StopService || action
        is StopCaddy {
        match action.report(all, Some(why)) {
            Some(output::LineText::Alert(line)) => {
                assert(line.skip(line.len() - why.len()) =~= why);
            },
            _ => {},
        }
    }
}

} // verus!

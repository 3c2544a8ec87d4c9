//! Stopping what runs, forgetting what has died, and showing what there is.

use crate::ordered_map;
use crate::ordered_map::OrderedMap;
use crate::output;
use crate::output::Line;
use crate::state::{ExternalRunEntry, ProcessEntry, State};
use crate::text;
use vstd::prelude::*;

verus! {

/// An entry that was dropped because what it tracks is gone.
#[derive(Debug)]
pub enum Stale {
    Project { name: String, pid: u32 },
    Service { name: String, pid: u32 },
    ExternalRun { name: String, port: u16 },
}

/// What a `Stale` says.
pub enum StaleText {
    Project { name: Seq<char>, pid: u32 },
    Service { name: Seq<char>, pid: u32 },
    ExternalRun { name: Seq<char>, port: u16 },
}

impl View for Stale {
    type V = StaleText;

    open spec fn view(&self) -> StaleText {
        match *self {
            Stale::Project { name, pid } => StaleText::Project { name: name@, pid },
            Stale::Service { name, pid } => StaleText::Service { name: name@, pid },
            Stale::ExternalRun { name, port } => StaleText::ExternalRun { name: name@, port },
        }
    }
}

impl StaleText {
    /// What is shown to the user.
    pub open spec fn report(self) -> Seq<char> {
        match self {
            StaleText::Project { name, pid } => "  (dropping stale entry: project "@ + name
                + ", pid "@ + text::decimal(pid as nat) + " no longer alive)"@,
            StaleText::Service { name, pid } => "  (dropping stale entry: service "@ + name
                + ", pid "@ + text::decimal(pid as nat) + " no longer alive)"@,
            StaleText::ExternalRun { name, port } => "  (dropping stale entry: external run "@
                + name + ", port "@ + text::decimal(port as nat) + " no longer listening)"@,
        }
    }
}

impl Stale {
    /// What is shown to the user.
    pub fn message(&self) -> (r: String)
        ensures
            r@ == self@.report(),
    {
        match self {
            Stale::Project { name, pid } => {
                let mut r = "  (dropping stale entry: project ".to_owned();
                r.append(name.as_str());
                r.append(", pid ");
                r.append(text::decimal_text(*pid as u64).as_str());
                r.append(" no longer alive)");
                r
            },
            Stale::Service { name, pid } => {
                let mut r = "  (dropping stale entry: service ".to_owned();
                r.append(name.as_str());
                r.append(", pid ");
                r.append(text::decimal_text(*pid as u64).as_str());
                r.append(" no longer alive)");
                r
            },
            Stale::ExternalRun { name, port } => {
                let mut r = "  (dropping stale entry: external run ".to_owned();
                r.append(name.as_str());
                r.append(", port ");
                r.append(text::decimal_text(*port as u64).as_str());
                r.append(" no longer listening)");
                r
            },
        }
    }
}

/// What a list of dropped entries says.
pub open spec fn stale_texts(v: Seq<Stale>) -> Seq<StaleText> {
    v.map_values(|s: Stale| s@)
}

/// The dropped projects of a list of pairs.
pub open spec fn stale_projects(s: Seq<(Seq<char>, ProcessEntry)>) -> Seq<StaleText> {
    s.map_values(|p: (Seq<char>, ProcessEntry)| StaleText::Project { name: p.0, pid: p.1.pid })
}

/// The dropped services of a list of pairs.
pub open spec fn stale_services(s: Seq<(Seq<char>, ProcessEntry)>) -> Seq<StaleText> {
    s.map_values(|p: (Seq<char>, ProcessEntry)| StaleText::Service { name: p.0, pid: p.1.pid })
}

/// The dropped external runs of a list of pairs.
pub open spec fn stale_runs(s: Seq<(Seq<char>, ExternalRunEntry)>) -> Seq<StaleText> {
    s.map_values(
        |p: (Seq<char>, ExternalRunEntry)|
            StaleText::ExternalRun { name: p.0, port: p.1.port },
    )
}

/// Drops every entry whose process has died or whose port nobody listens on, and hands back what
/// was dropped. The flags say, for each entry in key order, whether it is still there.
pub fn heal(
    state: &mut State,
    projects_alive: &Vec<bool>,
    services_alive: &Vec<bool>,
    runs_listening: &Vec<bool>,
) -> (r: Vec<Stale>)
    requires
        projects_alive@.len() == old(state).projects.pairs().len(),
        services_alive@.len() == old(state).services.pairs().len(),
        runs_listening@.len() == old(state).external_runs.pairs().len(),
    ensures
        final(state).projects.pairs() == ordered_map::flagged(
            old(state).projects.pairs(),
            projects_alive@,
        ),
        final(state).services.pairs() == ordered_map::flagged(
            old(state).services.pairs(),
            services_alive@,
        ),
        final(state).external_runs.pairs() == ordered_map::flagged(
            old(state).external_runs.pairs(),
            runs_listening@,
        ),
        final(state).caddy_pid == old(state).caddy_pid,
        stale_texts(r@) == stale_projects(
            ordered_map::unflagged(old(state).projects.pairs(), projects_alive@),
        ) + stale_services(ordered_map::unflagged(old(state).services.pairs(), services_alive@))
            + stale_runs(
            ordered_map::unflagged(old(state).external_runs.pairs(), runs_listening@),
        ),
{
    let mut r: Vec<Stale> = Vec::new();
    let dropped = state.projects.retain_flagged(projects_alive);
    let ghost gone = ordered_map::unflagged(old(state).projects.pairs(), projects_alive@);
    let ghost f = |e: (String, ProcessEntry)| (e.0@, e.1);
    assert(gone == dropped@.map_values(f));
    assert(stale_texts(r@) =~= stale_projects(gone.take(0)));
    let mut i: usize = 0;
    while i < dropped.len()
        invariant
            i <= dropped@.len(),
            f == (|e: (String, ProcessEntry)| (e.0@, e.1)),
            gone == dropped@.map_values(f),
            stale_texts(r@) == stale_projects(gone.take(i as int)),
        decreases dropped@.len() - i,
    {
        let ghost before = r@;
        r.push(Stale::Project { name: dropped[i].0.clone(), pid: dropped[i].1.pid });
        assert(stale_texts(r@) =~= stale_texts(before).push(r@.last()@));
        assert(gone[i as int] == f(dropped@[i as int]));
        assert(stale_projects(gone.take(i + 1)) =~= stale_projects(gone.take(i as int)).push(
            r@.last()@,
        ));
        i += 1;
    }
    let ghost first = stale_projects(gone);
    assert(gone.take(i as int) =~= gone);
    let dropped = state.services.retain_flagged(services_alive);
    let ghost gone = ordered_map::unflagged(old(state).services.pairs(), services_alive@);
    assert(gone == dropped@.map_values(f));
    assert(stale_texts(r@) =~= first + stale_services(gone.take(0)));
    let mut i: usize = 0;
    while i < dropped.len()
        invariant
            i <= dropped@.len(),
            f == (|e: (String, ProcessEntry)| (e.0@, e.1)),
            gone == dropped@.map_values(f),
            stale_texts(r@) == first + stale_services(gone.take(i as int)),
        decreases dropped@.len() - i,
    {
        let ghost before = r@;
        r.push(Stale::Service { name: dropped[i].0.clone(), pid: dropped[i].1.pid });
        assert(stale_texts(r@) =~= stale_texts(before).push(r@.last()@));
        assert(gone[i as int] == f(dropped@[i as int]));
        assert(first + stale_services(gone.take(i + 1)) =~= (first + stale_services(
            gone.take(i as int),
        )).push(r@.last()@));
        i += 1;
    }
    let ghost second = first + stale_services(gone);
    assert(gone.take(i as int) =~= gone);
    let dropped = state.external_runs.retain_flagged(runs_listening);
    let ghost gone = ordered_map::unflagged(old(state).external_runs.pairs(), runs_listening@);
    let ghost g = |e: (String, ExternalRunEntry)| (e.0@, e.1);
    assert(gone == dropped@.map_values(g));
    assert(stale_texts(r@) =~= second + stale_runs(gone.take(0)));
    let mut i: usize = 0;
    while i < dropped.len()
        invariant
            i <= dropped@.len(),
            g == (|e: (String, ExternalRunEntry)| (e.0@, e.1)),
            gone == dropped@.map_values(g),
            stale_texts(r@) == second + stale_runs(gone.take(i as int)),
        decreases dropped@.len() - i,
    {
        let ghost before = r@;
        r.push(Stale::ExternalRun { name: dropped[i].0.clone(), port: dropped[i].1.port });
        assert(stale_texts(r@) =~= stale_texts(before).push(r@.last()@));
        assert(gone[i as int] == g(dropped@[i as int]));
        assert(second + stale_runs(gone.take(i + 1)) =~= (second + stale_runs(
            gone.take(i as int),
        )).push(r@.last()@));
        i += 1;
    }
    assert(gone.take(i as int) =~= gone);
    r
}

/// Of the tracked entries, exactly those that are still there survive healing, unchanged.
pub proof fn healing_keeps_exactly_the_live<V>(
    before: OrderedMap<V>,
    after: OrderedMap<V>,
    alive: Seq<bool>,
    i: int,
)
    requires
        before.in_order(),
        alive.len() == before.pairs().len(),
        after.pairs() == ordered_map::flagged(before.pairs(), alive),
        0 <= i < before.pairs().len(),
    ensures
        after@.contains_key(before.pairs()[i].0) == alive[i],
        alive[i] ==> after@[before.pairs()[i].0] == before.pairs()[i].1,
{
    before.pairs_ascend();
    ordered_map::flagged_pairs_stay(before.pairs(), alive, i);
}

/// Where everything is still there, healing changes nothing and drops nothing.
pub proof fn healing_the_healthy_changes_nothing<V>(pairs: Seq<(Seq<char>, V)>, alive: Seq<bool>)
    requires
        alive.len() == pairs.len(),
        forall|i: int| 0 <= i < pairs.len() ==> #[trigger] alive[i],
    ensures
        ordered_map::flagged(pairs, alive) == pairs,
        ordered_map::unflagged(pairs, alive) == Seq::<(Seq<char>, V)>::empty(),
{
    ordered_map::all_flagged(pairs, alive);
}

/// The project runs with the service.
pub open spec fn uses(project: ProcessEntry, service: Seq<char>) -> bool {
    text::texts(project.services@).contains(service)
}

/// Some running project runs with the service.
pub open spec fn in_use(projects: Map<Seq<char>, ProcessEntry>, service: Seq<char>) -> bool {
    exists|p: Seq<char>| #[trigger] projects.contains_key(p) && uses(projects[p], service)
}

/// The first project, in key order, that runs with the service.
pub open spec fn first_user(pairs: Seq<(Seq<char>, ProcessEntry)>, service: Seq<char>) -> Option<
    Seq<char>,
>
    decreases pairs.len(),
{
    if pairs.len() == 0 {
        None
    } else {
        match first_user(pairs.drop_last(), service) {
            Some(p) => Some(p),
            None => if uses(pairs.last().1, service) {
                Some(pairs.last().0)
            } else {
                None
            },
        }
    }
}

/// There is a first user exactly where the service is in use.
proof fn first_user_if_in_use(pairs: Seq<(Seq<char>, ProcessEntry)>, service: Seq<char>)
    requires
        ordered_map::ascending(pairs),
    ensures
        first_user(pairs, service) is Some == in_use(ordered_map::map_of(pairs), service),
{
    let m = ordered_map::map_of(pairs);
    user_at(pairs, service);
    if first_user(pairs, service) is Some {
        let i = choose|i: int|
            #![trigger pairs[i]]
            0 <= i < pairs.len() && uses(pairs[i].1, service);
        ordered_map::map_of_at(pairs, i);
        assert(m.contains_key(pairs[i].0));
    }
    if in_use(m, service) {
        let p = choose|p: Seq<char>| #[trigger] m.contains_key(p) && uses(m[p], service);
        let i = choose|i: int| ordered_map::key_is_at(pairs, p, i);
        ordered_map::map_of_at(pairs, i);
        assert(uses(pairs[i].1, service));
    }
}

proof fn user_at(pairs: Seq<(Seq<char>, ProcessEntry)>, service: Seq<char>)
    ensures
        first_user(pairs, service) is Some == exists|i: int|
            #![trigger pairs[i]]
            0 <= i < pairs.len() && uses(pairs[i].1, service),
    decreases pairs.len(),
{
    if pairs.len() > 0 {
        let front = pairs.drop_last();
        user_at(front, service);
        if first_user(front, service) is Some {
            let i = choose|i: int|
                #![trigger front[i]]
                0 <= i < front.len() && uses(front[i].1, service);
            assert(uses(pairs[i].1, service));
        }
        if exists|i: int| #![trigger pairs[i]] 0 <= i < pairs.len() && uses(pairs[i].1, service) {
            let i = choose|i: int|
                #![trigger pairs[i]]
                0 <= i < pairs.len() && uses(pairs[i].1, service);
            if i < front.len() {
                assert(uses(front[i].1, service));
            }
        }
    }
}

/// The first of the projects, in key order, that runs with the service.
pub fn find_dependent_project<'a>(
    projects: &'a OrderedMap<ProcessEntry>,
    service_key: &str,
) -> (r: Option<&'a str>)
    ensures
        text::opt_str(r) == first_user(projects.pairs(), service_key@),
        r is Some == in_use(projects@, service_key@),
{
    let n: usize = projects.len();
    let ghost pairs = projects.pairs();
    proof {
        use_type_invariant(projects);
        projects.pairs_ascend();
        first_user_if_in_use(pairs, service_key@);
    }
    let mut i: usize = 0;
    while i < n
        invariant
            i <= n,
            n == pairs.len(),
            pairs == projects.pairs(),
            first_user(pairs.take(i as int), service_key@) is None,
            first_user(pairs, service_key@) is Some == in_use(projects@, service_key@),
        decreases n - i,
    {
        proof {
            assert(pairs.take(i + 1).drop_last() =~= pairs.take(i as int));
        }
        if text::is_among(&projects.value_at(i).services, service_key) {
            let name = projects.key_at(i).as_str();
            proof {
                first_user_of_prefix(pairs, service_key@, i + 1);
            }
            return Some(name);
        }
        i += 1;
    }
    assert(pairs.take(i as int) =~= pairs);
    None
}

proof fn first_user_of_prefix(pairs: Seq<(Seq<char>, ProcessEntry)>, service: Seq<char>, n: int)
    requires
        0 <= n <= pairs.len(),
        first_user(pairs.take(n), service) is Some,
    ensures
        first_user(pairs, service) == first_user(pairs.take(n), service),
    decreases pairs.len() - n,
{
    if n == pairs.len() {
        assert(pairs.take(n) =~= pairs);
    } else {
        assert(pairs.take(n + 1).drop_last() =~= pairs.take(n));
        first_user_of_prefix(pairs, service, n + 1);
    }
}

/// After healing, a service is in use exactly where a project that is still there runs with it: one
/// whose process has died holds no service back.
pub proof fn the_dead_hold_no_service(
    before: OrderedMap<ProcessEntry>,
    after: OrderedMap<ProcessEntry>,
    alive: Seq<bool>,
    service: Seq<char>,
)
    requires
        before.in_order(),
        after.in_order(),
        alive.len() == before.pairs().len(),
        after.pairs() == ordered_map::flagged(before.pairs(), alive),
    ensures
        in_use(after@, service) == exists|i: int|
            #![trigger before.pairs()[i]]
            0 <= i < before.pairs().len() && alive[i] && uses(before.pairs()[i].1, service),
{
    let all = before.pairs();
    let left = after.pairs();
    before.pairs_ascend();
    after.pairs_ascend();
    if in_use(after@, service) {
        let p = choose|p: Seq<char>| #[trigger] after@.contains_key(p) && uses(after@[p], service);
        let k = choose|k: int| ordered_map::key_is_at(left, p, k);
        ordered_map::map_of_at(left, k);
        assert(left.contains(left[k]));
        ordered_map::flagged_members(all, alive, left[k]);
        let i = choose|i: int|
            #![trigger all[i]]
            0 <= i < all.len() && alive[i] && all[i] == left[k];
        assert(uses(all[i].1, service));
    }
    if exists|i: int|
        #![trigger all[i]]
        0 <= i < all.len() && alive[i] && uses(all[i].1, service) {
        let i = choose|i: int|
            #![trigger all[i]]
            0 <= i < all.len() && alive[i] && uses(all[i].1, service);
        ordered_map::flagged_pairs_stay(all, alive, i);
        assert(after@.contains_key(all[i].0));
    }
}

/// One thing that `down` has to do.
#[derive(Debug)]
pub enum Action {
    RemoveRoute { name: String },
    StopProject { name: String, pid: u32 },
    StopService { key: String, pid: u32 },
    /// A service that another project runs with is left alone.
    KeepService { key: String, user: String },
    ForgetRun { name: String, port: u16 },
    StopCaddy { pid: u32 },
    /// Nothing goes by the name.
    NothingNamed { name: String },
}

/// What an `Action` says.
pub enum ActionText {
    RemoveRoute { name: Seq<char> },
    StopProject { name: Seq<char>, pid: u32 },
    StopService { key: Seq<char>, pid: u32 },
    KeepService { key: Seq<char>, user: Seq<char> },
    ForgetRun { name: Seq<char>, port: u16 },
    StopCaddy { pid: u32 },
    NothingNamed { name: Seq<char> },
}

impl View for Action {
    type V = ActionText;

    open spec fn view(&self) -> ActionText {
        match *self {
            Action::RemoveRoute { name } => ActionText::RemoveRoute { name: name@ },
            Action::StopProject { name, pid } => ActionText::StopProject { name: name@, pid },
            Action::StopService { key, pid } => ActionText::StopService { key: key@, pid },
            Action::KeepService { key, user } => ActionText::KeepService {
                key: key@,
                user: user@,
            },
            Action::ForgetRun { name, port } => ActionText::ForgetRun { name: name@, port },
            Action::StopCaddy { pid } => ActionText::StopCaddy { pid },
            Action::NothingNamed { name } => ActionText::NothingNamed { name: name@ },
        }
    }
}

/// What a list of actions says.
pub open spec fn action_texts(v: Seq<Action>) -> Seq<ActionText> {
    v.map_values(|a: Action| a@)
}

/// Each project's route goes, then its process.
pub open spec fn project_stops(s: Seq<(Seq<char>, ProcessEntry)>) -> Seq<ActionText>
    decreases s.len(),
{
    if s.len() == 0 {
        Seq::empty()
    } else {
        project_stops(s.drop_last()).push(ActionText::RemoveRoute { name: s.last().0 }).push(
            ActionText::StopProject { name: s.last().0, pid: s.last().1.pid },
        )
    }
}

/// Each service's process is stopped.
pub open spec fn service_stops(s: Seq<(Seq<char>, ProcessEntry)>) -> Seq<ActionText> {
    s.map_values(|p: (Seq<char>, ProcessEntry)| ActionText::StopService { key: p.0, pid: p.1.pid })
}

/// Each external run's route goes, then its entry.
pub open spec fn run_stops(s: Seq<(Seq<char>, ExternalRunEntry)>) -> Seq<ActionText>
    decreases s.len(),
{
    if s.len() == 0 {
        Seq::empty()
    } else {
        run_stops(s.drop_last()).push(ActionText::RemoveRoute { name: s.last().0 }).push(
            ActionText::ForgetRun { name: s.last().0, port: s.last().1.port },
        )
    }
}

/// Caddy is stopped where stack started it.
pub open spec fn caddy_stop(pid: Option<u32>) -> Seq<ActionText> {
    match pid {
        Some(pid) => seq![ActionText::StopCaddy { pid }],
        None => Seq::empty(),
    }
}

/// Everything is stopped and nothing is kept track of any more.
fn down_all(state: &mut State) -> (r: Vec<Action>)
    ensures
        final(state).is_empty(),
        action_texts(r@) == project_stops(old(state).projects.pairs()) + service_stops(
            old(state).services.pairs(),
        ) + run_stops(old(state).external_runs.pairs()) + caddy_stop(old(state).caddy_pid),
{
    let mut r: Vec<Action> = Vec::new();
    let ghost projects = state.projects.pairs();
    let n: usize = state.projects.len();
    let mut i: usize = 0;
    assert(action_texts(r@) =~= project_stops(projects.take(0)));
    while i < n
        invariant
            i <= n,
            n == projects.len(),
            projects == state.projects.pairs(),
            action_texts(r@) == project_stops(projects.take(i as int)),
        decreases n - i,
    {
        let name = state.projects.key_at(i);
        let pid = state.projects.value_at(i).pid;
        let ghost before = r@;
        r.push(Action::RemoveRoute { name: name.clone() });
        r.push(Action::StopProject { name: name.clone(), pid });
        assert(projects.take(i + 1).drop_last() =~= projects.take(i as int));
        assert(action_texts(r@) =~= action_texts(before).push(
            ActionText::RemoveRoute { name: name@ },
        ).push(ActionText::StopProject { name: name@, pid }));
        i += 1;
    }
    assert(projects.take(i as int) =~= projects);
    let ghost first = project_stops(projects);
    let ghost services = state.services.pairs();
    let n: usize = state.services.len();
    let mut i: usize = 0;
    assert(action_texts(r@) =~= first + service_stops(services.take(0)));
    while i < n
        invariant
            i <= n,
            n == services.len(),
            services == state.services.pairs(),
            action_texts(r@) == first + service_stops(services.take(i as int)),
        decreases n - i,
    {
        let key = state.services.key_at(i);
        let pid = state.services.value_at(i).pid;
        let ghost before = r@;
        r.push(Action::StopService { key: key.clone(), pid });
        assert(action_texts(r@) =~= action_texts(before).push(
            ActionText::StopService { key: key@, pid },
        ));
        assert(first + service_stops(services.take(i + 1)) =~= (first + service_stops(
            services.take(i as int),
        )).push(ActionText::StopService { key: key@, pid }));
        i += 1;
    }
    assert(services.take(i as int) =~= services);
    let ghost second = first + service_stops(services);
    let ghost runs = state.external_runs.pairs();
    let n: usize = state.external_runs.len();
    let mut i: usize = 0;
    assert(action_texts(r@) =~= second + run_stops(runs.take(0)));
    while i < n
        invariant
            i <= n,
            n == runs.len(),
            runs == state.external_runs.pairs(),
            action_texts(r@) == second + run_stops(runs.take(i as int)),
        decreases n - i,
    {
        let name = state.external_runs.key_at(i);
        let port = state.external_runs.value_at(i).port;
        let ghost before = r@;
        r.push(Action::RemoveRoute { name: name.clone() });
        r.push(Action::ForgetRun { name: name.clone(), port });
        assert(runs.take(i + 1).drop_last() =~= runs.take(i as int));
        assert(action_texts(r@) =~= action_texts(before).push(
            ActionText::RemoveRoute { name: name@ },
        ).push(ActionText::ForgetRun { name: name@, port }));
        assert(action_texts(r@) =~= second + run_stops(runs.take(i + 1)));
        i += 1;
    }
    assert(runs.take(i as int) =~= runs);
    let ghost third = second + run_stops(runs);
    match state.caddy_pid {
        Some(pid) => {
            let ghost before = r@;
            r.push(Action::StopCaddy { pid });
            assert(action_texts(r@) =~= action_texts(before).push(ActionText::StopCaddy { pid }));
            assert(action_texts(r@) =~= third + caddy_stop(state.caddy_pid));
        },
        None => {
            assert(action_texts(r@) =~= third + caddy_stop(state.caddy_pid));
        },
    }
    *state = State::default();
    r
}

/// The services that a stopped project leaves behind: a service that it ran with goes unless
/// another running project runs with it too, and every other service stays.
pub open spec fn services_after(
    services: Map<Seq<char>, ProcessEntry>,
    used: Seq<Seq<char>>,
    others: Map<Seq<char>, ProcessEntry>,
) -> Map<Seq<char>, ProcessEntry> {
    Map::new(
        |k: Seq<char>| services.contains_key(k) && !(used.contains(k) && !in_use(others, k)),
        |k: Seq<char>| services[k],
    )
}

/// What is done about the services of a stopped project, one after the other.
pub open spec fn service_actions(
    used: Seq<Seq<char>>,
    others: Seq<(Seq<char>, ProcessEntry)>,
    services: Map<Seq<char>, ProcessEntry>,
) -> Seq<ActionText>
    decreases used.len(),
{
    if used.len() == 0 {
        Seq::empty()
    } else {
        let before = service_actions(used.drop_last(), others, services);
        let key = used.last();
        match first_user(others, key) {
            Some(user) => before.push(ActionText::KeepService { key, user }),
            None => if services.contains_key(key) && !used.drop_last().contains(key) {
                before.push(ActionText::StopService { key, pid: services[key].pid })
            } else {
                before
            },
        }
    }
}

/// The services are gone through one by one: dropping the next one that nobody else runs with.
proof fn services_after_one_more(
    services: Map<Seq<char>, ProcessEntry>,
    used: Seq<Seq<char>>,
    others: Map<Seq<char>, ProcessEntry>,
)
    requires
        used.len() > 0,
    ensures
        in_use(others, used.last()) ==> services_after(services, used, others) == services_after(
            services,
            used.drop_last(),
            others,
        ),
        !in_use(others, used.last()) ==> services_after(services, used, others)
            == services_after(services, used.drop_last(), others).remove(used.last()),
{
    let front = used.drop_last();
    let whole = services_after(services, used, others);
    let part = services_after(services, front, others);
    assert forall|k: Seq<char>| #[trigger]
        used.contains(k) == (front.contains(k) || k == used.last()) by {
        if used.contains(k) {
            let i = choose|i: int| 0 <= i < used.len() && used[i] == k;
            if i < front.len() {
                assert(front[i] == k);
            }
        }
        if front.contains(k) {
            let i = choose|i: int| 0 <= i < front.len() && front[i] == k;
            assert(used[i] == k);
        }
        assert(used[used.len() - 1] == used.last());
    }
    if in_use(others, used.last()) {
        assert forall|k: Seq<char>| ordered_map::agree_at(whole, part, k) by {
            assert(used.contains(k) == (front.contains(k) || k == used.last()));
        }
        ordered_map::agreeing_maps_equal(whole, part);
    } else {
        assert forall|k: Seq<char>| ordered_map::agree_at(whole, part.remove(used.last()), k) by {
            assert(used.contains(k) == (front.contains(k) || k == used.last()));
        }
        ordered_map::agreeing_maps_equal(whole, part.remove(used.last()));
    }
}

/// Stops the services that only a stopped project ran with.
fn release_services(state: &mut State, used: &Vec<String>) -> (r: Vec<Action>)
    ensures
        final(state).projects == old(state).projects,
        final(state).external_runs == old(state).external_runs,
        final(state).caddy_pid == old(state).caddy_pid,
        final(state).services@ == services_after(
            old(state).services@,
            text::texts(used@),
            old(state).projects@,
        ),
        action_texts(r@) == service_actions(
            text::texts(used@),
            old(state).projects.pairs(),
            old(state).services@,
        ),
{
    let ghost keys = text::texts(used@);
    let ghost services = state.services@;
    let ghost others = state.projects@;
    let mut r: Vec<Action> = Vec::new();
    let mut i: usize = 0;
    proof {
        assert(action_texts(r@) =~= Seq::empty());
        let start = services_after(services, keys.take(0), others);
        assert forall|k: Seq<char>| ordered_map::agree_at(services, start, k) by {}
        ordered_map::agreeing_maps_equal(services, start);
    }
    while i < used.len()
        invariant
            i <= used@.len(),
            keys == text::texts(used@),
            state.projects == old(state).projects,
            state.external_runs == old(state).external_runs,
            state.caddy_pid == old(state).caddy_pid,
            services == old(state).services@,
            others == old(state).projects@,
            state.services@ == services_after(services, keys.take(i as int), others),
            action_texts(r@) == service_actions(
                keys.take(i as int),
                old(state).projects.pairs(),
                services,
            ),
        decreases used@.len() - i,
    {
        let key = &used[i];
        let ghost before = r@;
        let ghost next = keys.take(i + 1);
        proof {
            assert(next.drop_last() =~= keys.take(i as int));
            assert(next.last() == key@);
            services_after_one_more(services, next, others);
        }
        match find_dependent_project(&state.projects, key.as_str()) {
            Some(user) => {
                r.push(Action::KeepService { key: key.clone(), user: user.to_owned() });
                assert(action_texts(r@) =~= action_texts(before).push(
                    ActionText::KeepService { key: key@, user: user@ },
                ));
            },
            None => {
                match state.services.remove(key.as_str()) {
                    Some(entry) => {
                        r.push(Action::StopService { key: key.clone(), pid: entry.pid });
                        assert(action_texts(r@) =~= action_texts(before).push(
                            ActionText::StopService { key: key@, pid: entry.pid },
                        ));
                    },
                    None => {},
                }
            },
        }
        i += 1;
    }
    assert(keys.take(i as int) =~= keys);
    r
}

/// Stops one project or forgets one external run, by name.
fn down_one(state: &mut State, name: &str) -> (r: Vec<Action>)
    ensures
        stopped_one(*old(state), name@, *final(state), action_texts(r@)),
{
    let mut r: Vec<Action> = Vec::new();
    match state.projects.remove(name) {
        Some(entry) => {
            r.push(Action::RemoveRoute { name: name.to_owned() });
            r.push(Action::StopProject { name: name.to_owned(), pid: entry.pid });
            let ghost before = r@;
            let ghost removed = *state;
            let mut released = release_services(state, &entry.services);
            let ghost rest = released@;
            r.append(&mut released);
            proof {
                assert(action_texts(r@) =~= action_texts(before) + action_texts(rest));
                assert(action_texts(before) =~= seq![
                    ActionText::RemoveRoute { name: name@ },
                    ActionText::StopProject { name: name@, pid: entry.pid },
                ]);
                use_type_invariant(&state.projects);
                state.projects.pairs_ascend();
                ordered_map::ascending_list_is_key_order(state.projects.pairs());
            }
        },
        None => match state.external_runs.remove(name) {
            Some(entry) => {
                r.push(Action::RemoveRoute { name: name.to_owned() });
                r.push(Action::ForgetRun { name: name.to_owned(), port: entry.port });
                assert(action_texts(r@) =~= seq![
                    ActionText::RemoveRoute { name: name@ },
                    ActionText::ForgetRun { name: name@, port: entry.port },
                ]);
                assert(old(state).projects@.remove(name@) =~= old(state).projects@);
            },
            None => {
                r.push(Action::NothingNamed { name: name.to_owned() });
                assert(action_texts(r@) =~= seq![ActionText::NothingNamed { name: name@ }]);
                assert(old(state).projects@.remove(name@) =~= old(state).projects@);
                assert(old(state).external_runs@.remove(name@) =~= old(state).external_runs@);
            },
        },
    }
    r
}

/// What stopping `name` makes of the tracked state, and what it has to do.
pub open spec fn stopped_one(
    before: State,
    name: Seq<char>,
    after: State,
    actions: Seq<ActionText>,
) -> bool {
    &&& after.caddy_pid == before.caddy_pid
    &&& after.projects@ == before.projects@.remove(name)
    &&& if before.projects@.contains_key(name) {
        let entry = before.projects@[name];
        let used = text::texts(entry.services@);
        let others = before.projects@.remove(name);
        &&& after.external_runs@ == before.external_runs@
        &&& after.services@ == services_after(before.services@, used, others)
        &&& actions == seq![
            ActionText::RemoveRoute { name },
            ActionText::StopProject { name, pid: entry.pid },
        ] + service_actions(used, ordered_map::in_key_order(others), before.services@)
    } else {
        &&& after.services@ == before.services@
        &&& after.external_runs@ == before.external_runs@.remove(name)
        &&& if before.external_runs@.contains_key(name) {
            actions == seq![
                ActionText::RemoveRoute { name },
                ActionText::ForgetRun { name, port: before.external_runs@[name].port },
            ]
        } else {
            actions == seq![ActionText::NothingNamed { name }]
        }
    }
}

/// What stopping everything makes of the tracked state, and what it has to do.
pub open spec fn stopped_all(before: State, after: State, actions: Seq<ActionText>) -> bool {
    &&& after.is_empty()
    &&& actions == project_stops(before.projects.pairs()) + service_stops(
        before.services.pairs(),
    ) + run_stops(before.external_runs.pairs()) + caddy_stop(before.caddy_pid)
}

/// Takes the project or the external run of a name, or everything where none is given, out of the
/// tracked state, and hands back what has to be done about it, in order.
pub fn down(state: &mut State, project: Option<&str>) -> (r: Vec<Action>)
    ensures
        match project {
            Some(name) => stopped_one(*old(state), name@, *final(state), action_texts(r@)),
            None => stopped_all(*old(state), *final(state), action_texts(r@)),
        },
{
    match project {
        Some(name) => down_one(state, name),
        None => down_all(state),
    }
}

/// Stopping a project never takes away a service that another running project runs with.
pub proof fn shared_services_survive(
    before: State,
    name: Seq<char>,
    after: State,
    actions: Seq<ActionText>,
    other: Seq<char>,
    service: Seq<char>,
)
    requires
        stopped_one(before, name, after, actions),
        after.projects.in_order(),
        other != name,
        before.projects@.contains_key(other),
        uses(before.projects@[other], service),
        before.services@.contains_key(service),
    ensures
        after.services@.contains_key(service),
        after.services@[service] == before.services@[service],
        forall|pid: u32| !actions.contains(ActionText::StopService { key: service, pid }),
{
    if before.projects@.contains_key(name) {
        let used = text::texts(before.projects@[name].services@);
        let others = before.projects@.remove(name);
        assert(others.contains_key(other));
        assert(in_use(others, service));
        after.projects.pairs_ascend();
        ordered_map::ascending_list_is_key_order(after.projects.pairs());
        assert forall|pid: u32|
            !actions.contains(ActionText::StopService { key: service, pid }) by {
            let stop = ActionText::StopService { key: service, pid };
            let tail = service_actions(used, ordered_map::in_key_order(others), before.services@);
            if actions.contains(stop) {
                let i = choose|i: int| 0 <= i < actions.len() && actions[i] == stop;
                assert(tail[i - 2] == stop);
                only_unused_are_stopped(used, after.projects.pairs(), before.services@, i - 2);
                first_user_if_in_use(after.projects.pairs(), service);
            }
        }
    }
}

/// Only a service without a user is ever stopped.
proof fn only_unused_are_stopped(
    used: Seq<Seq<char>>,
    others: Seq<(Seq<char>, ProcessEntry)>,
    services: Map<Seq<char>, ProcessEntry>,
    i: int,
)
    requires
        0 <= i < service_actions(used, others, services).len(),
    ensures
        service_actions(used, others, services)[i] matches ActionText::StopService { key, .. }
            ==> first_user(others, key) is None,
    decreases used.len(),
{
    if used.len() > 0 {
        let before = service_actions(used.drop_last(), others, services);
        if i < before.len() {
            only_unused_are_stopped(used.drop_last(), others, services, i);
        }
    }
}

/// A service that only the stopped project ran with is stopped and forgotten.
pub proof fn unshared_services_go(
    before: State,
    name: Seq<char>,
    after: State,
    actions: Seq<ActionText>,
    service: Seq<char>,
)
    requires
        stopped_one(before, name, after, actions),
        after.projects.in_order(),
        before.projects@.contains_key(name),
        uses(before.projects@[name], service),
        before.services@.contains_key(service),
        forall|p: Seq<char>| #[trigger]
            before.projects@.contains_key(p) && p != name ==> !uses(before.projects@[p], service),
    ensures
        !after.services@.contains_key(service),
        actions.contains(
            ActionText::StopService { key: service, pid: before.services@[service].pid },
        ),
{
    let used = text::texts(before.projects@[name].services@);
    let others = before.projects@.remove(name);
    let pairs = after.projects.pairs();
    assert(!in_use(others, service)) by {
        if in_use(others, service) {
            let p = choose|p: Seq<char>| #[trigger]
                others.contains_key(p) && uses(others[p], service);
            assert(before.projects@.contains_key(p));
        }
    }
    after.projects.pairs_ascend();
    ordered_map::ascending_list_is_key_order(pairs);
    first_user_if_in_use(pairs, service);
    unused_is_stopped(used, pairs, before.services@, service);
    let tail = service_actions(used, pairs, before.services@);
    let stop = ActionText::StopService { key: service, pid: before.services@[service].pid };
    let i = choose|i: int| 0 <= i < tail.len() && tail[i] == stop;
    assert(actions[i + 2] == stop);
}

/// Of the services gone through, one without another user is stopped.
proof fn unused_is_stopped(
    used: Seq<Seq<char>>,
    others: Seq<(Seq<char>, ProcessEntry)>,
    services: Map<Seq<char>, ProcessEntry>,
    service: Seq<char>,
)
    requires
        used.contains(service),
        services.contains_key(service),
        first_user(others, service) is None,
    ensures
        service_actions(used, others, services).contains(
            ActionText::StopService { key: service, pid: services[service].pid },
        ),
    decreases used.len(),
{
    let front = used.drop_last();
    let part = service_actions(front, others, services);
    let whole = service_actions(used, others, services);
    let stop = ActionText::StopService { key: service, pid: services[service].pid };
    if front.contains(service) {
        unused_is_stopped(front, others, services, service);
        let i = choose|i: int| 0 <= i < part.len() && part[i] == stop;
        assert(whole[i] == stop);
    } else {
        let i = choose|i: int| 0 <= i < used.len() && used[i] == service;
        if i < front.len() {
            assert(front[i] == service);
        }
        assert(whole[whole.len() - 1] == stop);
    }
}

/// Stopping a project or a run by name leaves every other project, every other run and every
/// service that the project did not run with as they are.
pub proof fn stopping_one_leaves_the_rest(
    before: State,
    name: Seq<char>,
    after: State,
    actions: Seq<ActionText>,
    other: Seq<char>,
)
    requires
        stopped_one(before, name, after, actions),
    ensures
        other != name ==> {
            &&& after.projects@.contains_key(other) == before.projects@.contains_key(other)
            &&& before.projects@.contains_key(other) ==> after.projects@[other]
                == before.projects@[other]
            &&& after.external_runs@.contains_key(other) == before.external_runs@.contains_key(
                other,
            )
            &&& before.external_runs@.contains_key(other) ==> after.external_runs@[other]
                == before.external_runs@[other]
        },
        !(before.projects@.contains_key(name) && uses(before.projects@[name], other)) ==> {
            &&& after.services@.contains_key(other) == before.services@.contains_key(other)
            &&& before.services@.contains_key(other) ==> after.services@[other]
                == before.services@[other]
        },
        !after.projects@.contains_key(name),
{
}

/// Stopping everything stops every process that was tracked.
pub proof fn stopping_all_stops_everything(
    before: State,
    after: State,
    actions: Seq<ActionText>,
    i: int,
)
    requires
        stopped_all(before, after, actions),
    ensures
        0 <= i < before.projects.pairs().len() ==> actions.contains(
            ActionText::StopProject {
                name: before.projects.pairs()[i].0,
                pid: before.projects.pairs()[i].1.pid,
            },
        ),
        0 <= i < before.services.pairs().len() ==> actions.contains(
            ActionText::StopService {
                key: before.services.pairs()[i].0,
                pid: before.services.pairs()[i].1.pid,
            },
        ),
        before.caddy_pid matches Some(pid) ==> actions.contains(ActionText::StopCaddy { pid }),
{
    let projects = before.projects.pairs();
    let services = before.services.pairs();
    let runs = before.external_runs.pairs();
    let first = project_stops(projects);
    let second = service_stops(services);
    let third = run_stops(runs);
    if 0 <= i < projects.len() {
        project_stop_at(projects, i);
        assert(actions[2 * i + 1] == first[2 * i + 1]);
    }
    if 0 <= i < services.len() {
        assert(actions[first.len() + i] == second[i]);
    }
    if let Some(pid) = before.caddy_pid {
        assert(actions[actions.len() - 1] == ActionText::StopCaddy { pid });
    }
}

/// Where in the list a project's process is stopped.
proof fn project_stop_at(s: Seq<(Seq<char>, ProcessEntry)>, i: int)
    requires
        0 <= i < s.len(),
    ensures
        project_stops(s).len() == 2 * s.len(),
        project_stops(s)[2 * i + 1] == (ActionText::StopProject { name: s[i].0, pid: s[i].1.pid }),
    decreases s.len(),
{
    let front = s.drop_last();
    if i < front.len() {
        project_stop_at(front, i);
    } else if front.len() > 0 {
        project_stop_at(front, 0);
    } else {
        assert(project_stops(front).len() == 0);
    }
}

impl ActionText {
    /// What is shown of an action of `down`, with why it failed where it did. `all` says that
    /// everything is being stopped.
    pub open spec fn report(self, all: bool, failure: Option<Seq<char>>) -> Option<
        output::LineText,
    > {
        match self {
            ActionText::RemoveRoute { name } => match failure {
                None => None,
                Some(e) => if all {
                    Some(
                        output::LineText::Alert(
                            "  "@ + name + ": warning: failed to remove route: "@ + e,
                        ),
                    )
                } else {
                    Some(output::LineText::Alert("  warning: failed to remove route: "@ + e))
                },
            },
            ActionText::StopProject { name, pid } => match failure {
                None => if all {
                    Some(
                        output::LineText::Out(
                            "  stopped project "@ + name + " (pid "@ + text::decimal(pid as nat)
                                + ")"@,
                        ),
                    )
                } else {
                    Some(
                        output::LineText::Out(
                            "stopped "@ + name + " (pid "@ + text::decimal(pid as nat) + ")"@,
                        ),
                    )
                },
                Some(e) => if all {
                    Some(output::LineText::Alert("  "@ + name + ": "@ + e))
                } else {
                    Some(output::LineText::Alert(name + ": "@ + e))
                },
            },
            ActionText::StopService { key, pid } => match failure {
                None => Some(
                    output::LineText::Out(
                        "  stopped service "@ + key + " (pid "@ + text::decimal(pid as nat) + ")"@,
                    ),
                ),
                Some(e) => Some(output::LineText::Alert("  "@ + key + ": "@ + e)),
            },
            ActionText::KeepService { key, user } => Some(
                output::LineText::Out(
                    "  "@ + key + " also in use by '"@ + user + "' — leaving it running"@,
                ),
            ),
            ActionText::ForgetRun { name, port } => if all {
                Some(
                    output::LineText::Out(
                        "  un-registered external run "@ + name + " (port "@ + text::decimal(
                            port as nat,
                        ) + ")"@,
                    ),
                )
            } else {
                Some(
                    output::LineText::Out(
                        "un-registered external run "@ + name + " (port "@ + text::decimal(
                            port as nat,
                        ) + ")"@,
                    ),
                )
            },
            ActionText::StopCaddy { pid } => match failure {
                None => Some(
                    output::LineText::Out(
                        "  stopped caddy (pid "@ + text::decimal(pid as nat) + ")"@,
                    ),
                ),
                Some(e) => Some(output::LineText::Alert("  caddy: "@ + e)),
            },
            ActionText::NothingNamed { name } => Some(
                output::LineText::Alert(
                    "stack down: no running project or external run named '"@ + name + "'"@,
                ),
            ),
        }
    }
}

/// `before`, a name, `between`, a number and a closing bracket.
fn numbered(before: &str, name: &str, between: &str, number: u64) -> (r: String)
    ensures
        r@ == before@ + name@ + between@ + text::decimal(number as nat) + ")"@,
{
    let mut r = before.to_owned();
    r.append(name);
    r.append(between);
    r.append(text::decimal_text(number).as_str());
    r.append(")");
    r
}

/// Three texts, one after the other.
fn three(a: &str, b: &str, c: &str) -> (r: String)
    ensures
        r@ == a@ + b@ + c@,
{
    let mut r = a.to_owned();
    r.append(b);
    r.append(c);
    r
}

impl Action {
    /// What is shown of an action of `down`, with why it failed where it did. `all` says that
    /// everything is being stopped.
    pub fn report(&self, all: bool, failure: Option<&str>) -> (r: Option<Line>)
        ensures
            output::opt_line(r) == self@.report(all, text::opt_str(failure)),
    {
        match self {
            Action::RemoveRoute { name } => match failure {
                None => None,
                Some(e) => if all {
                    let mut line = "  ".to_owned();
                    line.append(name.as_str());
                    line.append(": warning: failed to remove route: ");
                    line.append(e);
                    Some(Line::Alert(line))
                } else {
                    let mut line = "  warning: failed to remove route: ".to_owned();
                    line.append(e);
                    Some(Line::Alert(line))
                },
            },
            Action::StopProject { name, pid } => match failure {
                None => if all {
                    Some(
                        Line::Out(
                            numbered("  stopped project ", name.as_str(), " (pid ", *pid as u64),
                        ),
                    )
                } else {
                    Some(Line::Out(numbered("stopped ", name.as_str(), " (pid ", *pid as u64)))
                },
                Some(e) => if all {
                    let mut line = "  ".to_owned();
                    line.append(name.as_str());
                    line.append(": ");
                    line.append(e);
                    Some(Line::Alert(line))
                } else {
                    Some(Line::Alert(three(name.as_str(), ": ", e)))
                },
            },
            Action::StopService { key, pid } => match failure {
                None => Some(
                    Line::Out(numbered("  stopped service ", key.as_str(), " (pid ", *pid as u64)),
                ),
                Some(e) => {
                    let mut line = "  ".to_owned();
                    line.append(key.as_str());
                    line.append(": ");
                    line.append(e);
                    Some(Line::Alert(line))
                },
            },
            Action::KeepService { key, user } => {
                let mut line = "  ".to_owned();
                line.append(key.as_str());
                line.append(" also in use by '");
                line.append(user.as_str());
                line.append("' — leaving it running");
                Some(Line::Out(line))
            },
            Action::ForgetRun { name, port } => if all {
                Some(
                    Line::Out(
                        numbered(
                            "  un-registered external run ",
                            name.as_str(),
                            " (port ",
                            *port as u64,
                        ),
                    ),
                )
            } else {
                Some(
                    Line::Out(
                        numbered(
                            "un-registered external run ",
                            name.as_str(),
                            " (port ",
                            *port as u64,
                        ),
                    ),
                )
            },
            Action::StopCaddy { pid } => match failure {
                None => {
                    let mut line = "  stopped caddy (pid ".to_owned();
                    line.append(text::decimal_text(*pid as u64).as_str());
                    line.append(")");
                    Some(Line::Out(line))
                },
                Some(e) => {
                    let mut line = "  caddy: ".to_owned();
                    line.append(e);
                    Some(Line::Alert(line))
                },
            },
            Action::NothingNamed { name } => Some(
                Line::Alert(
                    three(
                        "stack down: no running project or external run named '",
                        name.as_str(),
                        "'",
                    ),
                ),
            ),
        }
    }
}

/// No project was named, and none could be found.
#[derive(Debug)]
pub struct NoProject;

impl NoProject {
    /// What is reported to the user.
    pub fn message(&self) -> (r: String)
        ensures
            r@
                == "no project name given, and no stack.toml found in this directory or any parent"@,
    {
        "no project name given, and no stack.toml found in this directory or any parent".to_owned()
    }

    /// What `down` reports to the user.
    pub fn down_message(&self) -> (r: String)
        ensures
            r@
                == "no project name given, and no stack.toml found in this directory or any parent"@
                + " (or pass --all)"@,
    {
        let mut r = self.message();
        r.append(" (or pass --all)");
        r
    }
}

/// The project that a command is about: the one named, else the one whose manifest is nearest.
pub fn resolve_project_name(explicit: Option<String>, nearest: Option<String>) -> (r: Result<
    String,
    NoProject,
>)
    ensures
        match r {
            Ok(name) => explicit == Some(name) || (explicit is None && nearest == Some(name)),
            Err(_) => explicit is None && nearest is None,
        },
{
    match explicit {
        Some(name) => Ok(name),
        None => match nearest {
            Some(name) => Ok(name),
            None => Err(NoProject),
        },
    }
}

/// How an optional port is shown.
pub open spec fn port_text(port: Option<u16>) -> Seq<char> {
    match port {
        Some(p) => "Some("@ + text::decimal(p as nat) + ")"@,
        None => "None"@,
    }
}

/// The line of a tracked process.
pub open spec fn process_line(p: (Seq<char>, ProcessEntry)) -> Seq<char> {
    "  "@ + p.0 + ": pid="@ + text::decimal(p.1.pid as nat) + " port="@ + port_text(p.1.port)
}

/// The line of an external run.
pub open spec fn run_line(p: (Seq<char>, ExternalRunEntry)) -> Seq<char> {
    match p.1.domain {
        Some(domain) => "  "@ + p.0 + ": port="@ + text::decimal(p.1.port as nat)
            + " (external — no process tracked, routes to http://"@ + domain@ + ")"@,
        None => "  "@ + p.0 + ": port="@ + text::decimal(p.1.port as nat)
            + " (external — no process tracked)"@,
    }
}

/// The line on caddy, with the number of its routes where it runs.
pub open spec fn caddy_line(routes: Option<usize>) -> Seq<char> {
    match routes {
        Some(n) => "caddy: running ("@ + text::decimal(n as nat) + " route(s))"@,
        None => "caddy: not running"@,
    }
}

/// Everything that `status` shows.
pub open spec fn status_text(state: State, routes: Option<usize>) -> Seq<Seq<char>> {
    seq!["projects running: "@ + text::decimal(state.projects.pairs().len())]
        + state.projects.pairs().map_values(|p: (Seq<char>, ProcessEntry)| process_line(p))
        + seq!["services running: "@ + text::decimal(state.services.pairs().len())]
        + state.services.pairs().map_values(|p: (Seq<char>, ProcessEntry)| process_line(p))
        + seq!["external runs: "@ + text::decimal(state.external_runs.pairs().len())]
        + state.external_runs.pairs().map_values(|p: (Seq<char>, ExternalRunEntry)| run_line(p))
        + seq![caddy_line(routes)]
}

/// A text and a number behind it.
fn counted(label: &str, n: usize) -> (r: String)
    ensures
        r@ == label@ + text::decimal(n as nat),
{
    let mut r = label.to_owned();
    r.append(text::decimal_text(n as u64).as_str());
    r
}

/// The lines of the tracked processes of a map.
fn process_lines(m: &OrderedMap<ProcessEntry>) -> (r: Vec<String>)
    ensures
        text::texts(r@) == m.pairs().map_values(|p: (Seq<char>, ProcessEntry)| process_line(p)),
{
    let ghost f = |p: (Seq<char>, ProcessEntry)| process_line(p);
    let mut r: Vec<String> = Vec::new();
    let n: usize = m.len();
    let mut i: usize = 0;
    while i < n
        invariant
            i <= n,
            n == m.pairs().len(),
            f == (|p: (Seq<char>, ProcessEntry)| process_line(p)),
            text::texts(r@) == m.pairs().map_values(f).take(i as int),
        decreases n - i,
    {
        let entry = m.value_at(i);
        let mut line = "  ".to_owned();
        line.append(m.key_at(i).as_str());
        line.append(": pid=");
        line.append(text::decimal_text(entry.pid as u64).as_str());
        line.append(" port=");
        match entry.port {
            Some(p) => {
                line.append(three("Some(", text::decimal_text(p as u64).as_str(), ")").as_str());
            },
            None => {
                line.append("None");
            },
        }
        let ghost before = r@;
        let ghost added = line@;
        r.push(line);
        assert(text::texts(r@) =~= text::texts(before).push(added));
        assert(m.pairs().map_values(f).take(i + 1) =~= m.pairs().map_values(f).take(i as int).push(
            added,
        ));
        i += 1;
    }
    assert(m.pairs().map_values(f).take(i as int) =~= m.pairs().map_values(f));
    r
}

/// The lines of the external runs of a map.
fn run_lines(m: &OrderedMap<ExternalRunEntry>) -> (r: Vec<String>)
    ensures
        text::texts(r@) == m.pairs().map_values(|p: (Seq<char>, ExternalRunEntry)| run_line(p)),
{
    let ghost f = |p: (Seq<char>, ExternalRunEntry)| run_line(p);
    let mut r: Vec<String> = Vec::new();
    let n: usize = m.len();
    let mut i: usize = 0;
    while i < n
        invariant
            i <= n,
            n == m.pairs().len(),
            f == (|p: (Seq<char>, ExternalRunEntry)| run_line(p)),
            text::texts(r@) == m.pairs().map_values(f).take(i as int),
        decreases n - i,
    {
        let entry = m.value_at(i);
        let mut line = "  ".to_owned();
        line.append(m.key_at(i).as_str());
        line.append(": port=");
        line.append(text::decimal_text(entry.port as u64).as_str());
        match &entry.domain {
            Some(domain) => {
                line.append(" (external — no process tracked, routes to http://");
                line.append(domain.as_str());
                line.append(")");
            },
            None => {
                line.append(" (external — no process tracked)");
            },
        }
        let ghost before = r@;
        let ghost added = line@;
        r.push(line);
        assert(text::texts(r@) =~= text::texts(before).push(added));
        assert(m.pairs().map_values(f).take(i + 1) =~= m.pairs().map_values(f).take(i as int).push(
            added,
        ));
        i += 1;
    }
    assert(m.pairs().map_values(f).take(i as int) =~= m.pairs().map_values(f));
    r
}

/// Everything that is tracked, and whether caddy runs.
pub fn status(state: &State, caddy_routes: Option<usize>) -> (r: Vec<String>)
    ensures
        text::texts(r@) == status_text(*state, caddy_routes),
{
    let mut r: Vec<String> = Vec::new();
    r.push(counted("projects running: ", state.projects.len()));
    let mut projects = process_lines(&state.projects);
    let ghost shown_projects = projects@;
    r.append(&mut projects);
    r.push(counted("services running: ", state.services.len()));
    let mut services = process_lines(&state.services);
    let ghost shown_services = services@;
    r.append(&mut services);
    r.push(counted("external runs: ", state.external_runs.len()));
    let mut runs = run_lines(&state.external_runs);
    let ghost shown_runs = runs@;
    r.append(&mut runs);
    let last = match caddy_routes {
        Some(n) => three("caddy: running (", text::decimal_text(n as u64).as_str(), " route(s))"),
        None => "caddy: not running".to_owned(),
    };
    let ghost before = r@;
    r.push(last);
    proof {
        let a = state.projects.pairs().map_values(|p: (Seq<char>, ProcessEntry)| process_line(p));
        let b = state.services.pairs().map_values(|p: (Seq<char>, ProcessEntry)| process_line(p));
        let c = state.external_runs.pairs().map_values(
            |p: (Seq<char>, ExternalRunEntry)| run_line(p),
        );
        assert(text::texts(shown_projects).len() == shown_projects.len());
        assert(text::texts(shown_services).len() == shown_services.len());
        assert(text::texts(shown_runs).len() == shown_runs.len());
        assert forall|i: int| 0 <= i < r@.len() implies text::texts(r@)[i] == status_text(
            *state,
            caddy_routes,
        )[i] by {
            let at_services = 1 + a.len() as int;
            let at_runs = at_services + 1 + b.len() as int;
            if 1 <= i < at_services {
                assert(r@[i] == shown_projects[i - 1]);
                assert(text::texts(shown_projects)[i - 1] == a[i - 1]);
            } else if at_services < i < at_runs {
                assert(r@[i] == shown_services[i - at_services - 1]);
                assert(text::texts(shown_services)[i - at_services - 1] == b[i - at_services - 1]);
            } else if at_runs < i < at_runs + 1 + c.len() {
                assert(r@[i] == shown_runs[i - at_runs - 1]);
                assert(text::texts(shown_runs)[i - at_runs - 1] == c[i - at_runs - 1]);
            }
        }
        assert(text::texts(r@) =~= status_text(*state, caddy_routes));
    }
    r
}

/// The process ids of a list of pairs.
pub open spec fn pids(s: Seq<(Seq<char>, ProcessEntry)>) -> Seq<u32> {
    s.map_values(|p: (Seq<char>, ProcessEntry)| p.1.pid)
}

/// The process ids of the projects, then those of the services.
pub fn tracked_pids(state: &State) -> (r: Vec<u32>)
    ensures
        r@ == pids(state.projects.pairs()) + pids(state.services.pairs()),
{
    let mut r: Vec<u32> = Vec::new();
    let n: usize = state.projects.len();
    let mut i: usize = 0;
    while i < n
        invariant
            i <= n,
            n == state.projects.pairs().len(),
            r@ == pids(state.projects.pairs()).take(i as int),
        decreases n - i,
    {
        r.push(state.projects.value_at(i).pid);
        assert(r@ =~= pids(state.projects.pairs()).take(i + 1));
        i += 1;
    }
    let ghost first = pids(state.projects.pairs());
    assert(r@ =~= first + pids(state.services.pairs()).take(0));
    let n: usize = state.services.len();
    let mut i: usize = 0;
    while i < n
        invariant
            i <= n,
            n == state.services.pairs().len(),
            r@ == first + pids(state.services.pairs()).take(i as int),
        decreases n - i,
    {
        r.push(state.services.value_at(i).pid);
        assert(r@ =~= first + pids(state.services.pairs()).take(i + 1));
        i += 1;
    }
    assert(pids(state.services.pairs()).take(i as int) =~= pids(state.services.pairs()));
    r
}

/// Where the last `tail` of `count` lines begin, or all of them where no number is given.
pub open spec fn tail_start(count: nat, tail: Option<usize>) -> int {
    match tail {
        Some(n) => if n <= count {
            count - n
        } else {
            0
        },
        None => 0,
    }
}

/// The lines of a log that are shown: the last `tail` of them, or all.
pub fn log_lines(contents: &str, tail: Option<usize>) -> (r: Vec<String>)
    ensures
        text::texts(r@) == text::lines_of(contents@).skip(
            tail_start(text::lines_of(contents@).len(), tail),
        ),
{
    let mut lines = text::lines(contents);
    let ghost all = text::texts(lines@);
    let count: usize = lines.len();
    let start: usize = match tail {
        Some(n) => if n <= count {
            count - n
        } else {
            0
        },
        None => 0,
    };
    let r = lines.split_off(start);
    assert(text::texts(r@) =~= all.skip(start as int));
    r
}

/// No log file of the name exists.
pub fn no_log_message(name: &str, path: &str) -> (r: String)
    ensures
        r@ == "no log file for '"@ + name@ + "' (looked for "@ + path@ + ")"@,
{
    let mut r = "no log file for '".to_owned();
    r.append(name);
    r.append("' (looked for ");
    r.append(path);
    r.append(")");
    r
}

/// What following a log does next.
#[derive(Debug, PartialEq, Eq, Structural)]
pub enum Follow {
    /// Show what was added from this place on.
    Show(u64),
    /// Nothing was added.
    Wait,
}

/// A log was read up to `pos` and is `len` long now: what to show, and up to where it will have
/// been read. A log that became shorter is read again from the start, the next time.
pub fn follow_step(pos: u64, len: u64) -> (r: (Follow, u64))
    ensures
        len > pos ==> r == (Follow::Show(pos), len),
        len == pos ==> r == (Follow::Wait, pos),
        len < pos ==> r == (Follow::Wait, 0u64),
{
    if len > pos {
        (Follow::Show(pos), len)
    } else if len < pos {
        (Follow::Wait, 0)
    } else {
        (Follow::Wait, pos)
    }
}

} // verus!

//! Laws on manifests: names, domains, ports, runs, clones and what has to be trusted.

use crate::commands::running;
use crate::commands::running::NoPort;
use crate::laws::strings;
use crate::laws::strings::all_of;
use crate::manifest;
use crate::manifest::{CloneEntry, Manifest, PortFault, Run, RunError, Service};
use crate::placeholder::Sources;
use crate::text;
use crate::text::Class;
use crate::trust;
use vstd::prelude::*;

verus! {

proof fn segment_behind(before: Seq<char>, name: Seq<char>)
    requires
        !name.contains('/'),
        !name.contains(':'),
        before.len() > 0 ==> before.last() == '/' || before.last() == ':',
    ensures
        manifest::last_segment(before + name) == name,
    decreases name.len(),
{
    let s = before + name;
    if name.len() == 0 {
        assert(s =~= before);
        assert(manifest::last_segment(s) =~= name);
    } else {
        let front = name.drop_last();
        assert(name.contains(name[name.len() - 1]));
        assert(!front.contains('/')) by {
            if front.contains('/') {
                let i = choose|i: int| 0 <= i < front.len() && front[i] == '/';
                assert(name[i] == '/');
            }
        }
        assert(!front.contains(':')) by {
            if front.contains(':') {
                let i = choose|i: int| 0 <= i < front.len() && front[i] == ':';
                assert(name[i] == ':');
            }
        }
        assert(s.drop_last() =~= before + front);
        segment_behind(before, front);
        assert(front.push(name.last()) =~= name);
    }
}

/// A repository is cloned into a folder of its own name: what stands behind the last slash or
/// colon of its address, without slashes at the end and without `.git`. An address that ends in a
/// colon, or that is slashes alone, has none.
pub proof fn clones_go_by_the_name_of_the_repository(
    entry: CloneEntry,
    before: Seq<char>,
    name: Seq<char>,
    slashes: Seq<char>,
)
    requires
        before.len() > 0 ==> before.last() == '/' || before.last() == ':',
        name.len() > 0,
        !name.contains('/'),
        !name.contains(':'),
        all_of(slashes, Class::Slash),
    ensures
        entry.repo@ == before + name + ".git"@ + slashes ==> entry.folder() == Some(name),
        entry.repo@ == before + name + slashes && !text::has_suffix(name, ".git"@)
            ==> entry.folder() == Some(name),
        entry.repo@ == slashes ==> entry.folder() is None,
        before.len() > 0 && before.last() == ':' && entry.repo@ == before + slashes
            ==> entry.folder() is None,
{
    reveal_strlit(".git");
    let full = name + ".git"@;
    assert(name.contains(name[name.len() - 1]));
    assert(!full.contains('/')) by {
        if full.contains('/') {
            let i = choose|i: int| 0 <= i < full.len() && full[i] == '/';
            if i < name.len() {
                assert(name[i] == '/');
            } else {
                let k = i - name.len();
                assert(".git"@[k] == '/');
                assert(k == 0 || k == 1 || k == 2 || k == 3);
            }
        }
    }
    assert(!full.contains(':')) by {
        if full.contains(':') {
            let i = choose|i: int| 0 <= i < full.len() && full[i] == ':';
            if i < name.len() {
                assert(name[i] == ':');
            } else {
                let k = i - name.len();
                assert(".git"@[k] == ':');
                assert(k == 0 || k == 1 || k == 2 || k == 3);
            }
        }
    }
    assert(full.last() == 't');
    if entry.repo@ == before + name + ".git"@ + slashes {
        assert(entry.repo@ =~= (before + full) + slashes);
        strings::trailing_runs_begin_behind_the_last_other(before + full, slashes, Class::Slash);
        segment_behind(before, full);
        strings::suffixes_are_endings(name, ".git"@, full);
    }
    if entry.repo@ == before + name + slashes {
        strings::trailing_runs_begin_behind_the_last_other(before + name, slashes, Class::Slash);
        segment_behind(before, name);
    }
    if entry.repo@ == slashes {
        strings::trailing_runs_begin_behind_the_last_other(Seq::empty(), slashes, Class::Slash);
        assert(Seq::empty() + slashes =~= slashes);
    }
    if before.len() > 0 && before.last() == ':' && entry.repo@ == before + slashes {
        strings::trailing_runs_begin_behind_the_last_other(before, slashes, Class::Slash);
        segment_behind(before, Seq::empty());
        assert(before + Seq::empty() =~= before);
    }
}

/// A project has the name and the domain that its manifest gives; without a name it is called like
/// its folder, and without a domain it is reached under its name and `.localhost`. Nothing else of
/// the manifest changes.
pub proof fn manifests_are_completed_with_names_only(
    parsed: Manifest,
    folder: Option<Seq<char>>,
    loaded: Manifest,
)
    requires
        parsed.completed(folder, loaded),
    ensures
        parsed.project.name@.len() > 0 ==> loaded.project.name@ == parsed.project.name@,
        parsed.project.name@.len() == 0 && folder is Some ==> loaded.project.name@ == folder->0,
        parsed.project.name@.len() == 0 && folder is None ==> loaded.project.name@ == "project"@,
        parsed.project.domain is Some ==> loaded.project.domain is Some
            && loaded.project.domain->0@ == parsed.project.domain->0@,
        parsed.project.domain is None ==> loaded.project.domain is Some
            && loaded.project.domain->0@ == loaded.project.name@ + ".localhost"@,
        loaded.language == parsed.language,
        loaded.service == parsed.service,
        loaded.tool == parsed.tool,
        loaded.run == parsed.run,
        loaded.clones == parsed.clones,
{
}

/// A run is sound exactly where it is external with a port and without a command, or is started by
/// a command or by PHP.
pub proof fn runs_are_external_or_started(run: Run, has_php: bool)
    ensures
        run.fault(has_php) is None <==> if run.external {
            run.command is None && run.port is Some
        } else {
            run.command is Some || has_php
        },
        run.fault(has_php) == Some(RunError::CommandIgnored) <==> run.external && run.command
            is Some,
        run.fault(has_php) == Some(RunError::PortRequired) <==> run.external && run.command is None
            && run.port is None,
        run.fault(has_php) == Some(RunError::CommandRequired) <==> !run.external && run.command
            is None && !has_php,
{
}

/// A run has the port that its manifest declares, or none; a service has the declared one, or the
/// one that is conventional for its engine.
pub proof fn declared_ports_come_first(
    run: Run,
    svc: Service,
    engine: Seq<char>,
    sources: Sources,
    port: u16,
)
    ensures
        run.port is None ==> run.port_outcome(sources) == Ok::<_, PortFault>(None::<nat>),
        run.port matches Some(p) ==> (run.port_outcome(sources) is Ok <==> p.outcome(sources) is Ok),
        (run.port matches Some(p) && p.outcome(sources) == Ok::<_, PortFault>(port as nat))
            ==> run.port_outcome(sources) == Ok::<_, PortFault>(Some(port as nat)),
        (svc.port matches Some(p) && p.outcome(sources) == Ok::<_, PortFault>(port as nat))
            ==> svc.port_outcome(engine, sources) == Ok::<_, PortFault>(Some(port as nat)),
        svc.port matches Some(p) ==> (svc.port_outcome(engine, sources) is Ok <==> p.outcome(
            sources,
        ) is Ok),
        svc.port is None && manifest::usual_port(engine) == Some(port) ==> svc.port_outcome(
            engine,
            sources,
        ) == Ok::<_, PortFault>(Some(port as nat)),
        svc.port is None && manifest::usual_port(engine) is None ==> svc.port_outcome(
            engine,
            sources,
        ) == Ok::<_, PortFault>(None::<nat>),
{
}

/// A project runs on its declared port, unless something listens there; without one it runs on a
/// fresh port, if one could be had. A fresh port never takes the place of a declared one.
pub proof fn declared_ports_are_never_replaced(
    declared: Option<u16>,
    taken: bool,
    fresh: Option<u16>,
    port: u16,
)
    ensures
        declared == Some(port) && !taken ==> running::settled(declared, taken, fresh) == Ok::<
            _,
            NoPort,
        >(port),
        declared == Some(port) && taken ==> running::settled(declared, taken, fresh) == Err::<
            u16,
            _,
        >(NoPort::Taken(port)),
        declared is None && fresh == Some(port) ==> running::settled(declared, taken, fresh)
            == Ok::<_, NoPort>(port),
        declared is None && fresh is None ==> running::settled(declared, taken, fresh) == Err::<
            u16,
            _,
        >(NoPort::NoneFree),
{
}

proof fn commands_of_services(s: Seq<(Seq<char>, Service)>, i: int)
    requires
        0 <= i < s.len(),
    ensures
        s[i].1.command matches Some(c) ==> trust::service_commands(s).contains(
            "[service."@ + s[i].0 + "] "@ + c@,
        ),
    decreases s.len(),
{
    let front = s.drop_last();
    let part = trust::service_commands(front);
    let whole = trust::service_commands(s);
    if let Some(c) = s[i].1.command {
        let line = "[service."@ + s[i].0 + "] "@ + c@;
        if i < front.len() {
            commands_of_services(front, i);
            let k = choose|k: int| 0 <= k < part.len() && part[k] == line;
            assert(whole[k] == line);
        } else {
            assert(whole[whole.len() - 1] == line);
        }
    }
}

proof fn no_commands_no_lines(s: Seq<(Seq<char>, Service)>)
    ensures
        (forall|i: int| 0 <= i < s.len() ==> (#[trigger] s[i]).1.command is None)
            ==> trust::service_commands(s).len() == 0,
    decreases s.len(),
{
    if s.len() > 0 {
        let front = s.drop_last();
        no_commands_no_lines(front);
        if forall|i: int| 0 <= i < s.len() ==> (#[trigger] s[i]).1.command is None {
            assert forall|i: int| 0 <= i < front.len() implies (#[trigger] front[i]).1.command
                is None by {
                assert(front[i] == s[i]);
            }
            assert(s[s.len() - 1].1.command is None);
        }
    }
}

/// What has to be trusted holds the command of the run and that of every service, each with where
/// it stands; it is empty where there is none.
pub proof fn every_command_has_to_be_trusted(m: Manifest, i: int)
    ensures
        (m.run matches Some(run) && run.command is Some) ==> text::occurs_in(
            trust::risky_text(m),
            "[run] "@ + m.run->0.command->0@,
        ),
        0 <= i < m.service.pairs().len() && m.service.pairs()[i].1.command is Some
            ==> text::occurs_in(
            trust::risky_text(m),
            "[service."@ + m.service.pairs()[i].0 + "] "@ + m.service.pairs()[i].1.command->0@,
        ),
        (m.run is None || m.run->0.command is None) && (forall|k: int|
            0 <= k < m.service.pairs().len() ==> (#[trigger] m.service.pairs()[k]).1.command
                is None) ==> trust::risky_text(m).len() == 0,
        (m.run matches Some(run) && run.command is Some) ==> trust::risky_text(m).len() > 0,
        0 <= i < m.service.pairs().len() && m.service.pairs()[i].1.command is Some
            ==> trust::risky_text(m).len() > 0,
{
    reveal_strlit("[run] ");
    reveal_strlit("[service.");
    let s = m.service.pairs();
    let lines = trust::risky_lines(m);
    if m.run is Some && m.run->0.command is Some {
        assert(lines[0] == "[run] "@ + m.run->0.command->0@);
        strings::joined_texts_hold_their_parts(lines, "\n"@, 0);
    }
    if 0 <= i < s.len() && s[i].1.command is Some {
        commands_of_services(s, i);
        let own = trust::service_commands(s);
        let line = "[service."@ + s[i].0 + "] "@ + s[i].1.command->0@;
        let k = choose|k: int| 0 <= k < own.len() && own[k] == line;
        let at = lines.len() - own.len() + k;
        assert(lines[at] == line);
        strings::joined_texts_hold_their_parts(lines, "\n"@, at);
        assert(line.len() > 0);
    }
    if m.run is None || m.run->0.command is None {
        no_commands_no_lines(s);
    }
}

/// Consent is needed exactly where there is something to trust and it is not what was approved for
/// the directory.
pub proof fn consent_is_for_these_commands_in_this_directory(
    approved: Map<Seq<char>, String>,
    dir: Seq<char>,
    risky: Seq<char>,
)
    ensures
        risky.len() == 0 ==> !trust::needs_consent(approved, dir, risky),
        risky.len() > 0 && !approved.contains_key(dir) ==> trust::needs_consent(
            approved,
            dir,
            risky,
        ),
        risky.len() > 0 && approved.contains_key(dir) ==> (trust::needs_consent(
            approved,
            dir,
            risky,
        ) <==> approved[dir]@ != risky),
{
}

/// What is asked consent for shows every line that will be run, and, where it replaces what was
/// approved, every line of that.
pub proof fn consent_shows_every_line(previous: Option<Seq<char>>, risky: Seq<char>, i: int)
    ensures
        ({
            let shown = trust::consent_text(previous, risky);
            let lines = text::lines_of(risky);
            let mark = if previous is Some {
                "  + "@
            } else {
                "  "@
            };
            &&& 0 <= i < lines.len() ==> shown.contains(mark + lines[i])
            &&& previous is Some && 0 <= i < text::lines_of(previous->0).len() ==> shown.contains(
                "  - "@ + text::lines_of(previous->0)[i],
            )
            &&& shown.len() == 1 + lines.len() + (if previous is Some {
                text::lines_of(previous->0).len()
            } else {
                0
            })
        }),
{
    let shown = trust::consent_text(previous, risky);
    let lines = text::lines_of(risky);
    let before = match previous {
        Some(p) => text::lines_of(p).len() as int,
        None => 0,
    };
    if 0 <= i < lines.len() {
        assert(shown[1 + before + i] == (if previous is Some {
            "  + "@
        } else {
            "  "@
        }) + lines[i]);
    }
    if previous is Some && 0 <= i < before {
        assert(shown[1 + i] == "  - "@ + text::lines_of(previous->0)[i]);
    }
}

} // verus!

//! Laws on diagnosing an environment: what passes, what does not, and what is said of it.

use crate::commands::services;
use crate::commands::shell_integration as doctor;
use crate::laws::strings;
use crate::laws::strings::all_of;
use crate::manifest;
use crate::manifest::{Language, PortFault, Run, Service};
use crate::pinned;
use crate::placeholder;
use crate::placeholder::Sources;
use crate::registry::Registry;
use crate::text;
use crate::text::Class;
use vstd::prelude::*;

verus! {

/// A service of the machine is known by how its name begins: it is one of three engines, on its
/// conventional port.
pub proof fn machine_services_are_known_by_their_beginning(rest: Seq<char>, name: Seq<char>)
    ensures
        doctor::known_service("mysql"@ + rest) == Some(("mysql"@, 3306u16)),
        doctor::known_service("mongodb"@ + rest) == Some(("mongo"@, 27017u16)),
        doctor::known_service("postgresql"@ + rest) == Some(("postgres"@, 5432u16)),
        !text::has_prefix(name, "mysql"@) && !text::has_prefix(name, "mongodb"@)
            && !text::has_prefix(name, "postgresql"@) ==> doctor::known_service(name) is None,
{
    reveal_strlit("mysql");
    reveal_strlit("mongodb");
    reveal_strlit("postgresql");
    strings::prefixes_are_beginnings("mysql"@, rest, "mysql"@ + rest);
    strings::prefixes_are_beginnings("mongodb"@, rest, "mongodb"@ + rest);
    strings::prefixes_are_beginnings("postgresql"@, rest, "postgresql"@ + rest);
    let mongo = "mongodb"@ + rest;
    let postgres = "postgresql"@ + rest;
    assert(mongo[1] == 'o' && "mysql"@[1] == 'y');
    assert(postgres[0] == 'p' && "mysql"@[0] == 'm' && "mongodb"@[0] == 'm');
    strings::prefixes_are_beginnings("mysql"@, rest, mongo);
    strings::prefixes_are_beginnings("mysql"@, rest, postgres);
    strings::prefixes_are_beginnings("mongodb"@, rest, postgres);
}

/// A tool's version is the first line that it prints, without the white space around it; where that
/// is empty, the first line that it complains with.
pub proof fn versions_are_the_first_line_printed(
    space: Seq<char>,
    line: Seq<char>,
    end: Seq<char>,
    rest: Seq<char>,
    stderr: Seq<char>,
)
    requires
        all_of(space, Class::White),
        all_of(end, Class::White),
        !space.contains('\n'),
        !line.contains('\n'),
        !end.contains('\n'),
        !end.contains('\r'),
        !space.contains('\r'),
        line.len() > 0,
        !Class::White.has(line[0]),
        !Class::White.has(line.last()),
    ensures
        doctor::version_said(space + line + end + seq!['\n'] + rest, stderr) == line,
        doctor::version_said(Seq::empty(), space + line + end + seq!['\n'] + rest) == line,
        doctor::version_said(Seq::empty(), Seq::empty()) == text::trimmed("(no version output)"@),
{
    let first = space + line + end;
    assert(!first.contains('\n')) by {
        if first.contains('\n') {
            let i = choose|i: int| 0 <= i < first.len() && first[i] == '\n';
            if i < space.len() {
                assert(space[i] == '\n');
            } else if i < space.len() + line.len() {
                assert(line[i - space.len()] == '\n');
            } else {
                assert(end[i - space.len() - line.len()] == '\n');
            }
        }
    }
    assert(first.last() != '\r') by {
        if end.len() > 0 {
            assert(first.last() == end[end.len() - 1]);
            assert(end.contains(end[end.len() - 1]));
        } else {
            assert(first.last() == line.last());
            assert(Class::White.has('\r'));
        }
    }
    strings::lines_end_at_line_feeds(first, rest);
    let out = first + seq!['\n'] + rest;
    assert(text::lines_of(out)[0] == first);
    strings::trimming_gives_the_text_within(space, line, end);
    strings::lines_end_at_line_feeds(Seq::empty(), Seq::empty());
    reveal_strlit("");
    strings::trimming_gives_the_text_within(Seq::empty(), Seq::empty(), Seq::empty());
    assert(Seq::<char>::empty() + Seq::<char>::empty() + Seq::<char>::empty() =~= Seq::empty());
    assert(""@ =~= Seq::empty());
}

/// A tool that runs passes with its version, and is warned of exactly where the version that stack
/// is tested against is not in it; one that does not run is missing.
pub proof fn tools_pass_where_they_run(tool: Seq<char>, version: Seq<char>, why: Seq<char>)
    ensures
        doctor::tool_lines(tool, Ok(version))[0] == "  "@ + tool + ": OK ("@ + version + ")"@,
        doctor::tool_lines(tool, Ok(version)).len() == (if pinned::pinned(tool) is Some
            && !text::occurs_in(version, pinned::pinned(tool)->0) {
            2int
        } else {
            1
        }),
        pinned::pinned(tool) is Some && !text::occurs_in(version, pinned::pinned(tool)->0)
            ==> text::occurs_in(
            doctor::tool_lines(tool, Ok(version))[1],
            tool + " "@ + pinned::pinned(tool)->0,
        ),
        doctor::tool_lines(tool, Err(why)) == seq!["  "@ + tool + ": MISSING ("@ + why + ")"@],
{
    if pinned::pinned(tool) is Some {
        let p = pinned::pinned(tool)->0;
        let line = "    warning: stack was tested against "@ + tool + " "@ + p
            + "; installed version may behave differently"@;
        let a = "    warning: stack was tested against "@;
        let b = "; installed version may behave differently"@;
        assert(line =~= a + (tool + " "@ + p) + b);
        strings::occurrences_have_a_before_and_a_behind(a, tool + " "@ + p, b, line);
    }
}

/// The languages with a path of their own are just those whose entry gives one.
pub proof fn own_languages_are_those_with_a_path(
    s: Seq<(Seq<char>, Language)>,
    name: Seq<char>,
    path: Seq<char>,
)
    ensures
        doctor::own_paths(s).contains((name, path)) <==> exists|i: int|
            #![trigger s[i]]
            0 <= i < s.len() && s[i].0 == name && s[i].1.path_text() == Some(path),
    decreases s.len(),
{
    if s.len() > 0 {
        let front = s.drop_last();
        own_languages_are_those_with_a_path(front, name, path);
        let part = doctor::own_paths(front);
        let whole = doctor::own_paths(s);
        if whole.contains((name, path)) {
            let k = choose|k: int| 0 <= k < whole.len() && whole[k] == (name, path);
            if k < part.len() {
                assert(part[k] == (name, path));
                let i = choose|i: int|
                    #![trigger front[i]]
                    0 <= i < front.len() && front[i].0 == name && front[i].1.path_text() == Some(
                        path,
                    );
                assert(s[i] == front[i]);
            } else {
                assert(s[s.len() - 1] == s.last());
            }
        }
        if exists|i: int|
            #![trigger s[i]]
            0 <= i < s.len() && s[i].0 == name && s[i].1.path_text() == Some(path) {
            let i = choose|i: int|
                #![trigger s[i]]
                0 <= i < s.len() && s[i].0 == name && s[i].1.path_text() == Some(path);
            if i < front.len() {
                assert(front[i] == s[i]);
                let k = choose|k: int| 0 <= k < part.len() && part[k] == (name, path);
                assert(whole[k] == (name, path));
            } else {
                assert(whole[whole.len() - 1] == (name, path));
            }
        }
    }
}

/// An external service is looked for on the port that its manifest declares, whatever is registered
/// or conventional; on the registered one only where neither is declared nor conventional.
pub proof fn external_services_are_looked_for_on_their_port(
    engine: Seq<char>,
    svc: Service,
    registry: Registry,
    sources: Sources,
    port: u16,
)
    ensures
        ({
            let looked = doctor::external_service_port(engine, svc, registry, sources);
            &&& (svc.port matches Some(p) && p.outcome(sources) == Ok::<nat, PortFault>(
                port as nat,
            )) ==> looked == Some(port)
            &&& svc.port is None && manifest::usual_port(engine) == Some(port) ==> looked == Some(
                port,
            )
            &&& svc.port is None && manifest::usual_port(engine) is None ==> looked
                == services::registered_external_port(engine, svc, registry)
            &&& svc.external && svc.port is None && manifest::usual_port(engine) is None ==> looked
                is None
        }),
        doctor::service_port_to_try(engine, svc, registry, sources) == if services::is_external(
            engine,
            svc,
            registry,
        ) && !(svc.external && (svc.path is Some || svc.command is Some)) {
            doctor::external_service_port(engine, svc, registry, sources)
        } else {
            None
        },
{
}

/// A service passes exactly where it is sound, and, if it is external, somebody listens on its
/// port; if stack runs it, its path is known and its port resolves. Something is always said.
pub proof fn services_pass_where_they_could_be_brought_up(
    engine: Seq<char>,
    svc: Service,
    registry: Registry,
    sources: Sources,
    listening: bool,
)
    ensures
        ({
            let (lines, ok) = doctor::service_verdict(engine, svc, registry, sources, listening);
            let sound = !(svc.external && (svc.path is Some || svc.command is Some));
            let external = services::is_external(engine, svc, registry);
            let port = doctor::external_service_port(engine, svc, registry, sources);
            &&& ok <==> sound && (if external {
                port is Some && listening
            } else {
                services::install_path(engine, svc, registry) is Some && svc.port_outcome(
                    engine,
                    sources,
                ) is Ok
            })
            &&& lines.len() >= 1
            &&& sound && external && port is Some ==> text::occurs_in(
                lines[0],
                text::decimal(port->0 as nat),
            )
            &&& sound && !external && svc.port_outcome(engine, sources) is Err ==> lines.len() == 2
            &&& forall|i: int|
                0 <= i < lines.len() ==> text::has_prefix(#[trigger] lines[i], "  service."@ + engine)
        }),
{
    let (lines, ok) = doctor::service_verdict(engine, svc, registry, sources, listening);
    let head = "  service."@ + engine;
    if let Some(port) = doctor::external_service_port(engine, svc, registry, sources) {
        let m = text::decimal(port as nat);
        let a = head + ": OK (external, listening on "@;
        strings::occurrences_have_a_before_and_a_behind(a, m, ")"@, a + m + ")"@);
        let b = head + ": nothing listening on "@;
        let c = " (marked external)"@;
        strings::occurrences_have_a_before_and_a_behind(b, m, c, b + m + c);
    }
    assert forall|i: int| 0 <= i < lines.len() implies text::has_prefix(#[trigger] lines[i], head) by {
        strings::prefixes_are_beginnings(head, Seq::empty(), lines[i]);
        assert(i == 0 || i == 1);
        assert forall|k: int| 0 <= k < head.len() implies lines[i][k] == #[trigger] head[k] by {}
    }
}

/// The names of a run's command that have no value, apart from the port, are complained of, unless
/// the user can be asked.
pub proof fn unresolved_names_are_complained_of(run: Run, sources: Sources, command: String)
    requires
        run.command == Some(command),
    ensures
        sources.answers is Some ==> doctor::command_complaint(run, sources) is None,
        sources.answers is None ==> (doctor::command_complaint(run, sources) is None <==> forall|
            n: Seq<char>,
        |
            placeholder::names_in(command@).contains(n) && n != "port"@
                ==> #[trigger] sources.env@.contains_key(n)),
        forall|n: Seq<char>|
            sources.answers is None && placeholder::names_in(command@).contains(n) && n != "port"@
                && !#[trigger] sources.env@.contains_key(n) ==> (doctor::command_complaint(
                run,
                sources,
            ) matches Some(c) && text::occurs_in(c, n)),
{
    let all = placeholder::names(command@);
    let others = doctor::without(all, "port"@);
    let not_port = |n: Seq<char>| n != "port"@;
    let reserved = Map::<Seq<char>, String>::empty();
    let unknown = |n: Seq<char>| placeholder::known_value(n, reserved, sources.env@) is None;
    let missing = placeholder::open_names(others, reserved, sources.env@);
    assert(others == all.filter(not_port));
    assert(missing == others.filter(unknown));
    assert forall|n: Seq<char>| placeholder::names_in(command@).contains(n) && n != "port"@
        && !#[trigger] sources.env@.contains_key(n) implies missing.contains(n) by {
        placeholder::distinct_keeps_members(placeholder::names_in(command@), n);
        let i = choose|i: int| 0 <= i < all.len() && all[i] == n;
        all.lemma_filter_contains(not_port, i);
        let k = choose|k: int| 0 <= k < others.len() && others[k] == n;
        others.lemma_filter_contains(unknown, k);
    }
    if missing.len() > 0 {
        let n = missing[0];
        others.lemma_filter_pred(unknown, 0);
        others.lemma_filter_contains_rev(unknown, n);
        let k = choose|k: int| 0 <= k < others.len() && others[k] == n;
        all.lemma_filter_pred(not_port, k);
        all.lemma_filter_contains_rev(not_port, n);
        placeholder::distinct_keeps_members(placeholder::names_in(command@), n);
        assert(!sources.env@.contains_key(n));
    }
    assert forall|n: Seq<char>|
        sources.answers is None && placeholder::names_in(command@).contains(n) && n != "port"@
            && !#[trigger] sources.env@.contains_key(n) implies (doctor::command_complaint(
        run,
        sources,
    ) matches Some(c) && text::occurs_in(c, n)) by {
        assert(missing.contains(n));
        let i = choose|i: int| 0 <= i < missing.len() && missing[i] == n;
        strings::joined_texts_hold_their_parts(missing, ", "@, i);
        let list = text::joined(missing, ", "@);
        strings::occurrences_have_a_before_and_a_behind(Seq::empty(), n, Seq::empty(), list);
        let k = choose|k: int|
            0 <= k <= list.len() - n.len() && list == #[trigger] list.take(k) + n + list.skip(
                k + n.len(),
            );
        let head = "  [run]: command has unresolved placeholder(s): "@;
        assert(head + list =~= (head + list.take(k)) + n + list.skip(k + n.len()));
        strings::occurrences_have_a_before_and_a_behind(
            head + list.take(k),
            n,
            list.skip(k + n.len()),
            head + list,
        );
    }
}

/// A run passes exactly where it is sound and, if it is external, somebody listens on its port; if
/// it is started, its port resolves and is free, and its command has all it needs.
pub proof fn runs_pass_where_they_could_be_started(
    run: Run,
    has_php: bool,
    sources: Sources,
    listening: bool,
    port: u16,
)
    ensures
        ({
            let (lines, ok) = doctor::run_verdict(run, has_php, sources, listening);
            let sound = run.fault(has_php) is None;
            let outcome = run.port_outcome(sources);
            &&& !sound ==> !ok && lines.len() == 1
            &&& sound && run.external ==> (ok <==> outcome is Ok && listening)
            &&& sound && !run.external ==> (ok <==> outcome is Ok && !(listening && outcome
                != Ok::<_, PortFault>(None::<nat>)) && doctor::command_complaint(run, sources)
                is None)
            &&& !ok ==> lines.len() >= 1
            &&& outcome == Ok::<_, PortFault>(Some(port as nat)) && sound && (run.external
                || listening) ==> text::occurs_in(lines[0], text::decimal(port as nat))
            &&& sound && outcome == Ok::<_, PortFault>(Some(port as nat))
                ==> doctor::run_port_to_try(run, has_php, sources) == Some(port)
            &&& !sound || outcome is Err || outcome == Ok::<_, PortFault>(None::<nat>)
                ==> doctor::run_port_to_try(run, has_php, sources) is None
        }),
{
    let m = text::decimal(port as nat);
    let a = "  [run]: OK (external, listening on "@;
    strings::occurrences_have_a_before_and_a_behind(a, m, ")"@, a + m + ")"@);
    let b = "  [run]: nothing listening on "@;
    let c = " (marked external)"@;
    strings::occurrences_have_a_before_and_a_behind(b, m, c, b + m + c);
    let d = "  [run]: port "@;
    let e = " already in use"@;
    strings::occurrences_have_a_before_and_a_behind(d, m, e, d + m + e);
}

} // verus!

//! Laws on single calls: what holds of whatever a function hands back.

use crate::caddy;
use crate::caddy::{CaddyError, Readiness, Removal};
use crate::commands::lifecycle;
use crate::commands::lifecycle::{Follow, NoProject};
use crate::commands::profile;
use crate::commands::profile::{ExecPlan, PathChange};
use crate::commands::registry_commands;
use crate::commands::running;
use crate::commands::running::{NoPort, RunPort, Serving};
use crate::commands::scaffold;
use crate::commands::scaffold::DetectedLanguage;
use crate::commands::services;
use crate::commands::services::{Launch, ServiceError, ServiceFault, Step, StepText};
use crate::commands::shared;
use crate::commands::shared::{ToolAction, ToolError};
use crate::commands::shell_integration as shell_lines;
use crate::commands::shell_integration::{Shadow, ToolCheck};
use crate::commands::startup;
use crate::commands::startup::{CloneStep, PlanError, RunPlan};
use crate::data;
use crate::data::Node;
use crate::laws::scaffolds;
use crate::laws::strings;
use crate::laws::strings::all_of;
use crate::location::JoinedPath;
use crate::manifest::{CloneEntry, Manifest, PortValue, RunError, Service, Tool};
use crate::output::{Line, LineText};
use crate::placeholder::Sources;
use crate::platform;
use crate::platform::{Call, Extract, Os};
use crate::registry::Registry;
use crate::shell;
use crate::shell::ShellError;
use crate::state::State;
use crate::text;
use crate::text::Class;
use crate::toolchain;
use crate::toolchain::{Answer, AnswerText, Nested, Next, Ran, Wanted};
use vstd::prelude::*;

verus! {

/// Following a log shows what was added since, once: from where it was read up to, when it grew,
/// and nothing otherwise. A log that became shorter is read from its start the next time.
pub proof fn logs_are_followed_from_where_they_were_read(pos: u64, len: u64, r: (Follow, u64))
    requires
        call_ensures(lifecycle::follow_step, (pos, len), r),
    ensures
        len > pos ==> r.0 == Follow::Show(pos),
        len <= pos ==> r.0 == Follow::Wait,
        len >= pos ==> r.1 == len,
        len < pos ==> r.1 == 0,
{
}

/// The lines that are shown of a log are its last ones, as many as were asked for or all.
pub proof fn logs_are_shown_from_the_end(contents: &str, tail: Option<usize>, r: Vec<String>)
    requires
        call_ensures(lifecycle::log_lines, (contents, tail), r),
    ensures
        ({
            let all = text::lines_of(contents@);
            &&& tail is None ==> text::texts(r@) == all
            &&& tail matches Some(n) ==> r@.len() == (if n < all.len() {
                n as nat
            } else {
                all.len()
            })
            &&& forall|i: int|
                0 <= i < r@.len() ==> (#[trigger] r@[i])@ == all[all.len() - r@.len() + i]
        }),
{
    let all = text::lines_of(contents@);
    assert(text::texts(r@).len() == r@.len());
    if tail is None {
        assert(all.skip(0) =~= all);
    }
    assert forall|i: int| 0 <= i < r@.len() implies (#[trigger] r@[i])@ == all[all.len() - r@.len()
        + i] by {
        assert(text::texts(r@)[i] == r@[i]@);
    }
}

/// The project that is named counts; without one, the nearest does; without either, there is none.
pub proof fn named_projects_come_before_the_nearest(
    explicit: Option<String>,
    nearest: Option<String>,
    r: Result<String, NoProject>,
)
    requires
        call_ensures(lifecycle::resolve_project_name, (explicit, nearest), r),
    ensures
        explicit matches Some(n) ==> r == Ok::<_, NoProject>(n),
        explicit is None && nearest is Some ==> r == Ok::<_, NoProject>(nearest->0),
        explicit is None && nearest is None ==> r is Err,
{
}

/// Bringing up an external service begins with asking for the port that its manifest declares.
pub proof fn external_services_begin_with_their_declared_port(
    engine: &str,
    svc: Service,
    registry: Registry,
    state: State,
    sources: Sources,
    port: u16,
    r: Step,
)
    requires
        call_ensures(services::begin, (engine, &svc, &registry, &state, &sources), r),
        svc.external,
        svc.path is None,
        svc.command is None,
        svc.port == Some(PortValue::Literal(port)),
    ensures
        r@ == (StepText::AskListening { port }),
{
}

/// An external service is connected to exactly where somebody listens on its port.
pub proof fn external_services_are_connected_where_somebody_listens(
    engine: &str,
    port: u16,
    listening: bool,
    r: Result<Line, ServiceError>,
)
    requires
        call_ensures(services::after_listening, (engine, port, listening), r),
    ensures
        listening ==> (r matches Ok(l) && (l@ matches LineText::Out(t) && text::has_suffix(
            t,
            text::decimal(port as nat),
        ))),
        !listening ==> (r matches Err(e) && e@ == ServiceFault::NotListening(port)),
{
    let head = "  service."@ + engine@ + ": external — connected on port "@;
    strings::suffixes_are_endings(head, text::decimal(port as nat), head);
}

/// A process that still runs is shared, under its own id and on its own port; otherwise the service
/// is never shared.
pub proof fn live_services_are_shared(
    engine: &str,
    svc: Service,
    sources: Sources,
    pid: u32,
    port: u16,
    alive: bool,
    r: Step,
)
    requires
        call_ensures(services::after_alive, (engine, &svc, &sources, pid, port, alive), r),
    ensures
        alive ==> (r@ matches StepText::Shared { pid: p, port: q, .. } && p == pid && q == port),
        !alive ==> !(r@ is Shared),
        !alive && svc.port == Some(PortValue::Literal(port)) ==> r@ == (StepText::AskFree { port }),
{
}

/// A service is launched on the port that was found free, from its own path, with its own command,
/// and tracked under its engine and version.
pub proof fn services_are_launched_as_declared(
    engine: &str,
    svc: Service,
    registry: Registry,
    home: Option<&str>,
    port: u16,
    taken: bool,
    r: Result<Launch, ServiceError>,
)
    requires
        call_ensures(services::after_free, (engine, &svc, &registry, home, port, taken), r),
    ensures
        taken ==> (r matches Err(e) && e@ == ServiceFault::PortTaken(port)),
        r matches Ok(l) ==> {
            &&& !taken && l.port == port
            &&& l.key@ == engine@ + "@"@ + svc.version@
            &&& svc.path matches Some(p) ==> l.path@ == p@
            &&& svc.command matches Some(c) ==> l.command@ == c@
            &&& home is Some && l.data_dir@.base == home->0@
            &&& l.data_dir@.segments == seq![".stack"@, "data"@, engine@, svc.version@]
        },
        !taken && svc.path is Some && svc.command is Some && home is Some ==> r is Ok,
{
    if let Ok(l) = r {
        assert(l.data_dir@.segments =~= seq![".stack"@, "data"@, engine@, svc.version@]);
    }
}

/// A manifest without a run starts nothing; an external run is routed to its port; any other is
/// started in its directory, on its declared port where it has one. A run that is not sound is
/// refused.
pub proof fn runs_are_planned_as_declared(
    manifest: Manifest,
    dir: &str,
    sources: Sources,
    port: u16,
    r: Result<RunPlan, PlanError>,
)
    requires
        call_ensures(startup::plan_run, (&manifest, dir, &sources), r),
    ensures
        manifest.run is None ==> r == Ok::<_, PlanError>(RunPlan::Nothing),
        manifest.run matches Some(run) ==> {
            &&& run.external && run.command is None && run.port == Some(PortValue::Literal(port))
                ==> r == Ok::<_, PlanError>(RunPlan::External { port })
            &&& run.external && run.command is Some ==> r == Err::<RunPlan, _>(
                PlanError::Invalid(RunError::CommandIgnored),
            )
            &&& !run.external && run.command is Some && run.port == Some(PortValue::Literal(port))
                ==> (r matches Ok(RunPlan::Start { cwd, declared }) && declared == Some(port)
                && cwd@.base == dir@ && cwd@.segments == seq![run.cwd@])
            &&& !run.external && run.command is Some && run.port is None ==> (r matches Ok(
                RunPlan::Start { cwd, declared },
            ) && declared is None)
            &&& !run.external && run.command is None && !manifest.language@.contains_key("php"@)
                ==> r == Err::<RunPlan, _>(PlanError::Invalid(RunError::CommandRequired))
        },
{
    if let Some(run) = manifest.run {
        match r {
            Ok(RunPlan::Start { cwd, .. }) => {
                assert(cwd@.segments =~= seq![run.cwd@]);
            },
            _ => {},
        }
    }
}

/// What serves a project is its own command, or PHP where it has none and declares it.
pub proof fn commands_come_before_php(manifest: Manifest, r: Option<Serving>)
    requires
        call_ensures(running::serving, (&manifest,), r),
    ensures
        manifest.run matches Some(run) ==> {
            &&& run.command matches Some(c) ==> (r matches Some(Serving::Command(d)) && d@ == c@)
            &&& run.command is None && manifest.language@.contains_key("php"@) ==> (
            r matches Some(Serving::Php { .. }))
            &&& run.command is None && !manifest.language@.contains_key("php"@) ==> r is None
        },
        manifest.run is None ==> r is None,
{
}

/// A project runs on the port it declares, unless it is taken, or on a fresh one.
pub proof fn ports_are_settled_as_declared(
    declared: Option<u16>,
    taken: bool,
    fresh: Option<u16>,
    r: Result<RunPort, NoPort>,
)
    requires
        call_ensures(running::settle_port, (declared, taken, fresh), r),
    ensures
        declared is Some && !taken ==> (r matches Ok(p) && Some(p.value()) == declared),
        declared is Some && taken ==> r == Err::<RunPort, _>(NoPort::Taken(declared->0)),
        declared is None && fresh is Some ==> (r matches Ok(p) && Some(p.value()) == fresh),
        declared is None && fresh is None ==> r is Err,
{
}

/// What is there already is never cloned over; what is not is cloned into its own directory, and
/// the wanted state is checked out there.
pub proof fn clones_never_touch_what_is_there(
    entry: CloneEntry,
    target: &str,
    present: bool,
    r: CloneStep,
)
    requires
        call_ensures(startup::clone_step, (&entry, target, present), r),
    ensures
        present ==> r is Keep,
        !present ==> {
            &&& r matches CloneStep::Clone { clone, checkout }
            &&& text::texts(clone@) == seq!["clone"@, entry.repo@, target@]
            &&& checkout is Some == entry.git_ref is Some
            &&& checkout is Some ==> text::texts(checkout->0@) == seq![
                "-C"@,
                target@,
                "checkout"@,
                entry.git_ref->0@,
            ]
        },
{
}

/// What is found is used, what is missing is installed once, and what cannot be asked for fails.
pub proof fn missing_sdks_are_installed_once(
    wanted: Wanted,
    answer: Answer,
    installed: bool,
    r: Next,
)
    requires
        call_ensures(toolchain::next_step, (&wanted, answer, installed), r),
    ensures
        answer@ matches AnswerText::At(p) ==> (r matches Next::Use(q) && q@ == p),
        answer@ is NotInstalled && !installed ==> r is Install,
        answer@ is NotInstalled && installed ==> r is Fail,
        answer@ matches AnswerText::NotRunnable(m) ==> (r matches Next::Fail(w) && w@ == m),
{
}

/// A directory that vfox tells counts only where it is one.
pub proof fn told_directories_must_be_there(answer: Answer, is_dir: bool, r: Answer)
    requires
        call_ensures(toolchain::confirmed, (answer, is_dir), r),
    ensures
        answer@ is At && !is_dir ==> r@ is NotInstalled,
        answer@ is At && is_dir ==> r@ == answer@,
        !(answer@ is At) ==> r@ == answer@,
{
}

/// A binary is looked for in the directory itself, and then in those right below it, in order.
pub proof fn binaries_are_found_directly_or_one_below(
    dir: &str,
    binary: &str,
    direct: bool,
    nested: &Vec<Nested>,
    i: int,
    r: Option<JoinedPath>,
)
    requires
        call_ensures(toolchain::find_binary, (dir, binary, direct, nested), r),
    ensures
        direct ==> (r matches Some(p) && p@.base == dir@ && p@.segments == seq![binary@]),
        !direct && r is Some && 0 <= i < nested@.len() && nested@[i].has_binary && (forall|j: int|
            0 <= j < i ==> !(#[trigger] nested@[j]).has_binary) ==> r->0@.base == nested@[i].dir@
            && r->0@.segments == seq![binary@],
        !direct && (forall|j: int| 0 <= j < nested@.len() ==> !(#[trigger] nested@[j]).has_binary)
            ==> r is None,
{
    if let Some(p) = r {
        assert(p@.segments =~= seq![binary@]);
        if !direct {
            let k = choose|k: int| #[trigger]
                toolchain::first_with_binary(nested@, k) && p@ == crate::location::plain(
                    nested@[k].dir@,
                ).join(binary@);
            if 0 <= i < nested@.len() && nested@[i].has_binary && (forall|j: int|
                0 <= j < i ==> !(#[trigger] nested@[j]).has_binary) {
                if k < i {
                    assert(!nested@[k].has_binary);
                }
                if i < k {
                    assert(!nested@[i].has_binary);
                }
            }
        }
    }
}

/// A path of one's own is used exactly where it is a file.
pub proof fn paths_must_be_files(
    name: &str,
    path: String,
    registered: bool,
    is_file: bool,
    r: Result<String, String>,
)
    requires
        call_ensures(toolchain::existing_file, (name, path, registered, is_file), r),
    ensures
        is_file ==> r == Ok::<_, String>(path),
        !is_file ==> (r matches Err(why) && text::has_suffix(why@, path@)),
{
    crate::laws::reports::source_faults_name_the_language(
        name@,
        Seq::empty(),
        Seq::empty(),
        path@,
        registered,
    );
}

/// A tool's own path, or a registered one, is used where it is a file and refused where it is not;
/// Composer is fetched where that is allowed and it is not there.
pub proof fn tools_are_used_or_fetched(
    name: &str,
    tool: Tool,
    allow: bool,
    registry: Registry,
    home: Option<&str>,
    is_file: bool,
    r: Result<ToolAction, ToolError>,
)
    requires
        call_ensures(shared::resolve_tool, (name, &tool, allow, &registry, home, is_file), r),
    ensures
        tool.path is Some && tool.version is None ==> {
            &&& is_file ==> (r matches Ok(ToolAction::Use(p)) && p@.base == tool.path->0@
                && p@.segments.len() == 0)
            &&& !is_file ==> r is Err
        },
        tool.path is Some && tool.version is Some ==> r is Err,
        tool.path is None && tool.version is None ==> r is Err,
        tool.path is None && tool.version is Some && name@ == "composer"@ && home is Some ==> {
            &&& is_file ==> (r matches Ok(ToolAction::Use(p)) && p@ == shared::composer_phar(
                home->0@,
                tool.version->0@,
            ))
            &&& !is_file && allow ==> (r matches Ok(ToolAction::Fetch { url, dest }) && dest@
                == shared::composer_phar(home->0@, tool.version->0@) && text::occurs_in(
                url@,
                tool.version->0@,
            ))
            &&& !is_file && !allow ==> r is Err
        },
{
    if tool.version is Some {
        strings::occurrences_have_a_before_and_a_behind(
            "https://getcomposer.org/download/"@,
            tool.version->0@,
            "/composer.phar"@,
            Seq::empty(),
        );
    }
}

/// The Caddy on the search path comes first, then the one that stack keeps, where it is there.
pub proof fn caddy_on_the_path_comes_first(
    on_path: bool,
    home: Option<&str>,
    exe: &str,
    is_file: bool,
    r: Result<JoinedPath, CaddyError>,
)
    requires
        call_ensures(caddy::resolve_caddy_binary, (on_path, home, exe, is_file), r),
    ensures
        on_path ==> (r matches Ok(p) && p@.base == "caddy"@ && p@.segments.len() == 0),
        !on_path && home is Some && is_file ==> (r matches Ok(p) && p@ == caddy::pinned_caddy(
            home->0@,
            exe@,
        )),
        !on_path && home is Some && !is_file ==> r == Err::<JoinedPath, _>(CaddyError::NotFound),
        !on_path && home is None ==> r == Err::<JoinedPath, _>(CaddyError::NoHome),
{
}

/// Caddy is waited for until it answers, but not for ever.
pub proof fn caddy_is_waited_for(attempt: u32, alive: bool, r: Readiness)
    requires
        call_ensures(caddy::after_attempt, (attempt, alive), r),
    ensures
        attempt < 30 && alive ==> r is Ready,
        attempt < 30 && !alive ==> r is AskAgain,
        attempt >= 30 ==> r is GiveUp,
{
}

/// A route that is not there counts as removed; any other failure is one.
pub proof fn missing_routes_count_as_removed(removal: Removal, r: Result<(), String>)
    requires
        call_ensures(caddy::remove_route, (&removal,), r),
    ensures
        removal is Done ==> r is Ok,
        removal matches Removal::Status(code, _) ==> (r is Ok <==> code == 404),
        removal is Failed ==> r is Err,
{
}

/// A process is stopped with all that it started, by its own id.
pub proof fn process_trees_are_stopped_by_id(os: Os, pid: u32, r: Call)
    requires
        call_ensures(platform::kill_tree, (os, pid), r),
    ensures
        os == Os::Windows ==> r.program@ == "taskkill"@ && r.args@.len() == 4 && r.args@[0]@ == "/T"@
            && r.args@[3]@ == text::decimal(pid as nat),
        os != Os::Windows ==> r.program@ == "kill"@ && r.args@.len() == 2 && r.args@[1]@ == "-"@
            + text::decimal(pid as nat),
{
    let t = text::texts(r.args@);
    assert(t.len() == r.args@.len());
    if os == Os::Windows {
        assert(t[0] == r.args@[0]@ && t[3] == r.args@[3]@);
    } else {
        assert(t[1] == r.args@[1]@);
    }
}

/// A process runs where the system lists it, on Windows, or where asking for it succeeds.
pub proof fn running_processes_are_listed(
    os: Os,
    pid: u32,
    success: bool,
    stdout: &str,
    r: bool,
)
    requires
        call_ensures(platform::is_alive, (os, pid, success, stdout), r),
    ensures
        os == Os::Windows ==> r == text::occurs_in(stdout@, text::decimal(pid as nat)),
        os != Os::Windows ==> r == success,
{
}

/// What would land outside the target is never unpacked.
pub proof fn archives_stay_within_their_target(enclosed: bool, name: &str, r: Extract)
    requires
        call_ensures(platform::extract_step, (enclosed, name), r),
    ensures
        !enclosed ==> r == Extract::Skip,
        enclosed && text::has_suffix(name@, "/"@) ==> r == Extract::MakeDir,
        enclosed && !text::has_suffix(name@, "/"@) ==> r == Extract::WriteFile,
{
}

/// A tool that is missing is installed where that was asked for, in its pinned version; one that is
/// there never is.
pub proof fn missing_tools_are_installed_on_request(
    tool: &str,
    check: Result<String, String>,
    fix: bool,
    r: ToolCheck,
)
    requires
        call_ensures(shell_lines::doctor_tool, (tool, &check, fix), r),
    ensures
        r.ok == check is Ok,
        check is Ok || !fix ==> r.install is None,
        check is Err && fix && tool@ == "uv"@ ==> (r.install matches Some(v) && v@ == "0.11.7"@),
        check is Err && fix && tool@ == "vfox"@ ==> (r.install matches Some(v) && v@ == "1.0.11"@),
        check is Err && fix && tool@ == "caddy"@ ==> (r.install matches Some(v) && v@
            == "2.11.4"@),
{
    crate::laws::routes::pinned_caddy_lies_below_home(Seq::empty(), Seq::empty());
}

/// A tool that ran has a version; one that could not be run has none.
pub proof fn only_what_runs_has_a_version(ran: Ran, r: Result<String, String>)
    requires
        call_ensures(shell_lines::check_on_path, (&ran,), r),
    ensures
        r is Ok <==> ran is Ended,
{
}

/// The directories of a project come in front of the search path, as each shell writes it.
pub proof fn project_directories_come_in_front(
    name: &str,
    joined: &str,
    current: &str,
    r: Option<String>,
)
    requires
        call_ensures(shell_lines::path_line, (name, joined, current), r),
    ensures
        name@ == "cmd"@ ==> (r matches Some(l) && l@ == "SET PATH="@ + joined@ + ";"@ + current@),
        name@ == "pwsh"@ || name@ == "powershell"@ ==> (r matches Some(l) && l@
            == "$env:PATH = \""@ + joined@ + ";\" + $env:PATH"@),
        name@ != "cmd"@ && name@ != "pwsh"@ && name@ != "powershell"@ ==> r is None,
{
    reveal_strlit("cmd");
    reveal_strlit("pwsh");
    reveal_strlit("powershell");
    assert("cmd"@.len() == 3 && "pwsh"@.len() == 4 && "powershell"@.len() == 10);
}

/// Composer runs with the project's own PHP, where both are there; where they are not, cmd's batch
/// file goes.
pub proof fn composer_runs_with_the_projects_php(
    name: &str,
    found: Option<(&str, &str)>,
    r: Shadow,
)
    requires
        call_ensures(shell_lines::composer_shadow, (name, found), r),
    ensures
        name@ == "cmd"@ && found is Some ==> (r matches Shadow::BatchFile(s) && text::occurs_in(
            s@,
            "\""@ + (found->0).0@ + "\" \""@ + (found->0).1@ + "\" %*"@,
        )),
        name@ == "cmd"@ && found is None ==> r is Clear,
        (name@ == "pwsh"@ || name@ == "powershell"@) && found is Some ==> r is Line,
        name@ != "cmd"@ && found is None ==> r is Leave,
{
    reveal_strlit("cmd");
    reveal_strlit("pwsh");
    reveal_strlit("powershell");
    assert("cmd"@.len() == 3 && "pwsh"@.len() == 4 && "powershell"@.len() == 10);
    if let Some((php, phar)) = found {
        if let Shadow::BatchFile(s) = r {
            reveal_strlit("@echo off\r\n\"");
            reveal_strlit("@echo off\r\n");
            reveal_strlit("\"");
            reveal_strlit("\" %*\r\n");
            reveal_strlit("\" %*");
            reveal_strlit("\r\n");
            let x = "\""@ + php@ + "\" \""@ + phar@ + "\" %*"@;
            assert("@echo off\r\n\""@ =~= "@echo off\r\n"@ + "\""@);
            assert("\" %*\r\n"@ =~= "\" %*"@ + "\r\n"@);
            assert(s@ =~= "@echo off\r\n"@ + x + "\r\n"@);
            strings::occurrences_have_a_before_and_a_behind(
                "@echo off\r\n"@,
                x,
                "\r\n"@,
                s@,
            );
        }
    }
}

/// The environment file is the one that is named, or `.env`.
pub proof fn environment_files_are_named_or_usual(path: Option<String>, r: String)
    requires
        call_ensures(shell_lines::env_file, (path,), r),
    ensures
        path matches Some(p) ==> r@ == p@,
        path is None ==> r@ == ".env"@,
{
}

/// A PowerShell's profile is what it says it is, without the white space around it.
pub proof fn shell_profiles_are_what_the_shell_says(
    name: &str,
    answer: Option<&str>,
    before: Seq<char>,
    path: Seq<char>,
    after: Seq<char>,
    r: Result<String, ShellError>,
)
    requires
        call_ensures(shell::profile_path, (name, answer), r),
        all_of(before, Class::White),
        all_of(after, Class::White),
        path.len() > 0 ==> !Class::White.has(path[0]) && !Class::White.has(path.last()),
        answer matches Some(a) ==> a@ == before + path + after,
    ensures
        (name@ == "pwsh"@ || name@ == "powershell"@) && answer is Some && path.len() > 0 ==> (
        r matches Ok(p) && p@ == path),
        (name@ == "pwsh"@ || name@ == "powershell"@) && answer is Some && path.len() == 0 ==> r
            is Err,
        answer is None ==> r is Err,
        name@ != "pwsh"@ && name@ != "powershell"@ ==> r is Err,
{
    strings::trimming_gives_the_text_within(before, path, after);
}

/// The editor of the user's choice comes first, VISUAL before EDITOR.
pub proof fn the_users_editor_comes_first(
    visual: Option<String>,
    editor: Option<String>,
    windows: bool,
    r: String,
)
    requires
        call_ensures(profile::choose_editor, (visual, editor, windows), r),
    ensures
        visual matches Some(v) ==> r@ == v@,
        visual is None && editor is Some ==> r@ == editor->0@,
        visual is None && editor is None && windows ==> r@ == "notepad.exe"@,
        visual is None && editor is None && !windows ==> r@ == "vi"@,
{
}

/// The profile that is active counts, or the one called `default` where there is one.
pub proof fn active_profiles_come_before_the_default(
    active: Option<String>,
    default_exists: bool,
    r: Option<String>,
)
    requires
        call_ensures(profile::effective_profile_context, (active, default_exists), r),
    ensures
        active matches Some(a) ==> (r matches Some(p) && p@ == a@),
        active is None && default_exists ==> (r matches Some(p) && p@ == "default"@),
        active is None && !default_exists ==> r is None,
{
}

/// A profile is left only where one is active, and both of its variables are then cleared.
pub proof fn profiles_are_left_whole(
    name: &str,
    had_profile: bool,
    had_paths: bool,
    r: Option<Vec<String>>,
)
    requires
        call_ensures(profile::deactivate, (name, had_profile, had_paths), r),
    ensures
        r is Some <==> had_profile || had_paths,
        r is Some && name@ == "cmd"@ ==> text::texts(r->0@) == seq![
            "SET STACK_ACTIVE_PROFILE="@,
            "SET STACK_ACTIVE_PROFILE_PATHS="@,
        ],
        r is Some ==> r->0@.len() == 2,
{
    if let Some(lines) = r {
        assert(text::texts(lines@).len() == lines@.len());
    }
}

/// A listed profile is marked as active, as default, or as both, exactly where it is.
pub proof fn listed_profiles_are_marked(
    name: &str,
    active: Option<&str>,
    default: Option<&str>,
    r: String,
)
    requires
        call_ensures(profile::list_line, (name, active, default), r),
    ensures
        ({
            let a = active is Some && active->0@ == name@;
            let d = default is Some && default->0@ == name@;
            let head = "  "@ + name@;
            &&& a && d ==> r@ == head + " (active, default)"@
            &&& a && !d ==> r@ == head + " (active)"@
            &&& !a && d ==> r@ == head + " (default)"@
            &&& !a && !d ==> r@ == head
        }),
{
    reveal_strlit("");
    assert("  "@ + name@ + ""@ =~= "  "@ + name@);
}

/// A command is run with the pins that are given, in order; without a command it is refused.
pub proof fn commands_are_run_with_their_pins(
    with: &str,
    command: Vec<String>,
    r: Result<ExecPlan, String>,
    i: int,
)
    requires
        call_ensures(profile::exec_with, (with, &command), r),
    ensures
        r is Err <==> command@.len() == 0,
        r matches Ok(plan) ==> {
            &&& plan.program@ == command@[0]@
            &&& plan.args@.len() == command@.len() - 1
            &&& 0 <= i < plan.args@.len() ==> plan.args@[i]@ == command@[i + 1]@
        },
{
    if let Ok(plan) = r {
        let all = text::texts(command@);
        let own = seq![plan.program@] + text::texts(plan.args@);
        assert(all.len() == command@.len());
        assert(own.len() == plan.args@.len() + 1);
        assert(own[0] == all[0]);
        if 0 <= i < plan.args@.len() {
            assert(own[i + 1] == text::texts(plan.args@)[i]);
            assert(own[i + 1] == all[i + 1]);
        }
    }
}

/// The changed search path has the new directories in front and the user's own behind.
pub proof fn changed_paths_keep_the_users_own(
    path: Vec<String>,
    change: PathChange,
    r: Vec<String>,
    i: int,
)
    requires
        call_ensures(profile::changed_path, (&path, &change), r),
    ensures
        0 <= i < change.add@.len() ==> r@.len() > i && r@[i]@ == change.add@[i]@,
        0 <= i < path@.len() && !text::texts(change.remove@).contains(path@[i]@) ==> text::texts(
            r@,
        ).contains(path@[i]@),
{
    let p = text::texts(path@);
    let gone = text::texts(change.remove@);
    let new = text::texts(change.add@);
    let after = text::texts(r@);
    assert(after.len() == r@.len());
    if 0 <= i < change.add@.len() {
        crate::laws::profiles::the_users_own_directories_stay(p, gone, new, Seq::empty(), i);
        assert(new[i] == change.add@[i]@);
        assert(after[i] == r@[i]@);
    }
    if 0 <= i < path@.len() {
        assert(p[i] == path@[i]@);
        assert(p.contains(path@[i]@));
        crate::laws::profiles::the_users_own_directories_stay(p, gone, new, path@[i]@, 0);
    }
}

/// Data is only ever purged together with what it belongs to.
pub proof fn purging_needs_pruning(yes: bool, purge: bool, r: Option<&'static str>)
    requires
        call_ensures(registry_commands::purge_refused, (yes, purge), r),
    ensures
        r is Some <==> purge && !yes,
{
}

/// A Node constraint is read from a package file past its operators and the space behind them.
pub proof fn node_is_detected_past_operators(
    package: &str,
    r: Option<DetectedLanguage>,
    inner: Map<Seq<char>, Node>,
    outer: Map<Seq<char>, Node>,
    operators: Seq<char>,
    gap: Seq<char>,
    version: Seq<char>,
    rest: Seq<char>,
)
    requires
        call_ensures(scaffold::detect_node, (package,), r),
        all_of(operators, Class::Operator),
        all_of(gap, Class::White),
        all_of(version, Class::Version),
        version.len() > 0,
        version.last() != '.',
        rest.len() > 0 ==> !Class::Version.has(rest[0]),
        data::json_parsed(package@) == Some(
            scaffolds::holding(
                "engines"@,
                scaffolds::holding("node"@, Node::Text(operators + gap + version + rest), inner),
                outer,
            ),
        ),
    ensures
        r is Some,
        r->0.name@ == "node"@,
        r->0.version@ == version,
        r->0.source@ == "package.json"@,
{
    let none = Seq::<char>::empty();
    let c = operators + gap + version + rest;
    assert(c =~= none + operators + gap + version + none + rest);
    scaffolds::constraints_are_read_past_their_operators(
        none,
        operators,
        gap,
        version,
        none,
        rest,
    );
    scaffolds::constraints_stand_in_their_places(
        c,
        inner,
        outer,
        Map::empty(),
        Map::empty(),
        Map::empty(),
    );
}

} // verus!

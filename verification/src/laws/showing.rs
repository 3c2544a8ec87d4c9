//! Laws on where things lie, on what is shown, and on what is asked of whom.

use crate::commands::profile;
use crate::commands::profile::NameError;
use crate::commands::registry_commands;
use crate::commands::registry_commands::OrphanService;
use crate::commands::scaffold;
use crate::commands::services;
use crate::commands::shell_integration as shell_lines;
use crate::commands::startup;
use crate::laws::strings;
use crate::laws::strings::all_of;
use crate::location::JoinedPath;
use crate::manifest::{CloneEntry, Manifest, NoFolderName, Service};
use crate::ordered_map;
use crate::output::{Line, LineText};
use crate::platform;
use crate::platform::{Call, Os};
use crate::process;
use crate::process::Invocation;
use crate::projects;
use crate::projects::KnownProject;
use crate::registry::Registry;
use crate::shell;
use crate::state::State;
use crate::text;
use crate::text::Class;
use crate::words;
use vstd::prelude::*;

verus! {

/// PHP serves the public directory of a project where that has an index, and the project's own
/// directory otherwise.
pub proof fn php_serves_the_public_directory(dir: &str, has_index: bool, r: JoinedPath)
    requires
        call_ensures(startup::detect_php_docroot, (dir, has_index), r),
    ensures
        r@.base == dir@,
        has_index ==> r@.segments == seq!["public"@],
        !has_index ==> r@.segments.len() == 0,
{
    if has_index {
        assert(r@.segments =~= seq!["public"@]);
    }
}

/// The FastCGI binary lies next to PHP's own.
pub proof fn fastcgi_lies_next_to_php(dir: &str, exe: &str, r: JoinedPath)
    requires
        call_ensures(startup::php_cgi_binary, (dir, exe), r),
    ensures
        r@.base == dir@,
        r@.segments == seq!["php-cgi"@ + exe@],
{
    assert(r@.segments =~= seq!["php-cgi"@ + exe@]);
}

/// A clone goes where its entry says, or into a folder of the repository's name, below the project.
pub proof fn clones_go_below_the_project(
    entry: CloneEntry,
    dir: &str,
    r: Result<JoinedPath, NoFolderName>,
)
    requires
        call_ensures(CloneEntry::target_dir, (&entry, dir), r),
    ensures
        entry.path matches Some(p) ==> (r matches Ok(d) && d@.base == dir@ && d@.segments == seq![p@]),
        entry.path is None && entry.folder() is Some ==> (r matches Ok(d) && d@.base == dir@
            && d@.segments == seq![entry.folder()->0]),
        entry.path is None && entry.folder() is None ==> r is Err,
{
    if let Ok(d) = r {
        match entry.path {
            Some(p) => {
                assert(d@.segments =~= seq![p@]);
            },
            None => {
                assert(d@.segments =~= seq![entry.folder()->0]);
            },
        }
    }
}

/// What stack keeps lies below its own directory: the log of each process, the tracked state, the
/// registry, the known projects, each profile and each unpacked tool.
pub proof fn what_stack_keeps_lies_below_its_directory(
    home: &str,
    name: &str,
    version: &str,
    log: JoinedPath,
    state: JoinedPath,
    registry: JoinedPath,
    saved: JoinedPath,
    tool: JoinedPath,
)
    requires
        call_ensures(process::log_path, (home, name), log),
        call_ensures(State::state_path, (home,), state),
        call_ensures(Registry::registry_path, (home,), registry),
        call_ensures(profile::profile_file_path, (home, name), saved),
        call_ensures(platform::install_dir, (home, name, version), tool),
    ensures
        log@.base == home@ && log@.segments == seq![".stack"@, "logs"@, name@ + ".log"@],
        state@.base == home@ && state@.segments == seq![".stack"@, "state.json"@],
        registry@.base == home@ && registry@.segments == seq![".stack"@, "registry.json"@],
        saved@.base == home@ && saved@.segments == seq![".stack"@, "profiles"@, name@ + ".toml"@],
        tool@.base == home@ && tool@.segments == seq![".stack"@, "tools"@, name@, version@],
{
    assert(log@.segments =~= seq![".stack"@, "logs"@, name@ + ".log"@]);
    assert(state@.segments =~= seq![".stack"@, "state.json"@]);
    assert(registry@.segments =~= seq![".stack"@, "registry.json"@]);
    assert(saved@.segments =~= seq![".stack"@, "profiles"@, name@ + ".toml"@]);
    assert(tool@.segments =~= seq![".stack"@, "tools"@, name@, version@]);
}

/// The data of an orphaned service is what was kept for that engine and version, and nothing else.
pub proof fn only_the_orphans_own_data_is_purged(
    home: &str,
    orphan: OrphanService,
    r: JoinedPath,
)
    requires
        call_ensures(registry_commands::orphan_data_dir, (home, &orphan), r),
    ensures
        r@.base == home@,
        r@.segments == seq![".stack"@, "data"@, orphan.name@, orphan.version@],
{
    assert(r@.segments =~= seq![".stack"@, "data"@, orphan.name@, orphan.version@]);
}

/// What was loaded is shown: where from, the project, its domain, its languages and its services.
pub proof fn what_was_loaded_is_shown(
    manifest: Manifest,
    path: &str,
    r: Vec<String>,
)
    requires
        call_ensures(startup::loaded_lines, (&manifest, path), r),
        manifest.project.domain is Some,
    ensures
        r@.len() == 5,
        r@[0]@ == "Loaded "@ + path@,
        r@[1]@ == "  project: "@ + manifest.project.name@,
        r@[2]@ == "  domain: "@ + manifest.project.domain->0@,
        r@[3]@ == "  languages: "@ + startup::shown_names(
            ordered_map::keys(manifest.language.pairs()),
        ),
        r@[4]@ == "  services: "@ + startup::shown_names(
            ordered_map::keys(manifest.service.pairs()),
        ),
{
    let t = text::texts(r@);
    assert(t.len() == r@.len());
    assert(t[0] == r@[0]@ && t[1] == r@[1]@ && t[2] == r@[2]@ && t[3] == r@[3]@ && t[4] == r@[4]@);
}

/// A binary is shown with the first line that it prints; one that does not run is an alert.
pub proof fn binaries_are_shown_with_their_version(
    label: &str,
    binary: &str,
    output: Result<&str, &str>,
    r: Line,
)
    requires
        call_ensures(startup::version_line, (label, binary, output), r),
    ensures
        output matches Ok(s) ==> r@ == LineText::Out(
            "  "@ + label@ + ": "@ + binary@ + " -> "@ + startup::first_line(s@),
        ),
        output matches Err(e) ==> (r@ matches LineText::Alert(l) && text::has_suffix(l, e@)),
{
    if let Err(e) = output {
        let head = "  "@ + label@ + ": failed to run "@ + binary@ + ": "@;
        strings::suffixes_are_endings(head, e@, head);
    }
}

/// A service that was started is shown with its process and port, and with the schema that the
/// project uses in it.
pub proof fn started_services_are_shown(
    engine: &str,
    svc: Service,
    project: &str,
    pid: u32,
    port: u16,
    r: Vec<String>,
)
    requires
        call_ensures(services::started_lines, (engine, &svc, project, pid, port), r),
    ensures
        r@.len() == 2,
        r@[0]@ == "  service."@ + engine@ + ": started (pid "@ + text::decimal(pid as nat)
            + ", port "@ + text::decimal(port as nat) + ")"@,
        svc.schema matches Some(s) ==> text::occurs_in(r@[1]@, "'"@ + s@ + "'"@),
        svc.schema is None ==> text::occurs_in(r@[1]@, "'"@ + project@ + "'"@),
{
    let t = text::texts(r@);
    assert(t.len() == r@.len());
    assert(t[0] == r@[0]@ && t[1] == r@[1]@);
    let name = match svc.schema {
        Some(s) => s@,
        None => project@,
    };
    reveal_strlit("    schema '");
    reveal_strlit("    schema ");
    reveal_strlit("'");
    reveal_strlit(
        "' — automatic creation not yet implemented; create it manually if needed",
    );
    reveal_strlit(
        " — automatic creation not yet implemented; create it manually if needed",
    );
    let tail = " — automatic creation not yet implemented; create it manually if needed"@;
    assert("    schema '"@ =~= "    schema "@ + "'"@);
    assert("' — automatic creation not yet implemented; create it manually if needed"@ =~= "'"@
        + tail);
    assert(r@[1]@ =~= "    schema "@ + ("'"@ + name + "'"@) + tail);
    strings::occurrences_have_a_before_and_a_behind(
        "    schema "@,
        "'"@ + name + "'"@,
        tail,
        r@[1]@,
    );
}

/// A shared service is shown with its process and its port.
pub proof fn shared_services_are_shown(engine: &str, pid: u32, port: u16, r: String)
    requires
        call_ensures(services::shared_line, (engine, pid, port), r),
    ensures
        text::has_prefix(r@, "  service."@ + engine@ + ": already running"@),
        text::has_suffix(
            r@,
            "(pid "@ + text::decimal(pid as nat) + ", port "@ + text::decimal(port as nat) + ")"@,
        ),
{
    reveal_strlit(": already running, shared with other projects (pid ");
    reveal_strlit(": already running");
    reveal_strlit(", shared with other projects ");
    reveal_strlit("(pid ");
    let b = ", shared with other projects "@;
    assert(": already running, shared with other projects (pid "@ =~= ": already running"@ + b
        + "(pid "@);
    let head = "  service."@ + engine@ + ": already running"@;
    let tail = "(pid "@ + text::decimal(pid as nat) + ", port "@ + text::decimal(port as nat)
        + ")"@;
    assert(r@ =~= head + (b + tail));
    strings::prefixes_are_beginnings(head, b + tail, r@);
    assert(r@ =~= (head + b) + tail);
    strings::suffixes_are_endings(head + b, tail, r@);
}

/// A process is asked for by its own id.
pub proof fn processes_are_asked_for_by_id(os: Os, pid: u32, r: Call)
    requires
        call_ensures(platform::alive_query, (os, pid), r),
    ensures
        os == Os::Windows ==> r.program@ == "tasklist"@ && r.args@.len() == 3 && r.args@[1]@
            == "PID eq "@ + text::decimal(pid as nat),
        os != Os::Windows ==> r.program@ == "kill"@ && r.args@.len() == 2 && r.args@[0]@ == "-0"@
            && r.args@[1]@ == text::decimal(pid as nat),
{
    let t = text::texts(r.args@);
    assert(t.len() == r.args@.len());
    if os == Os::Windows {
        assert(t[1] == r.args@[1]@);
    } else {
        assert(t[0] == r.args@[0]@ && t[1] == r.args@[1]@);
    }
}

/// A name that is typed ends the list exactly where it is nothing but white space.
pub proof fn blank_names_end_the_list(
    name: &str,
    before: Seq<char>,
    middle: Seq<char>,
    after: Seq<char>,
    r: bool,
)
    requires
        call_ensures(scaffold::ends_list, (name,), r),
        name@ == before + middle + after,
        all_of(before, Class::White),
        all_of(after, Class::White),
        middle.len() > 0 ==> !Class::White.has(middle[0]) && !Class::White.has(middle.last()),
    ensures
        r == (middle.len() == 0),
{
    strings::trimming_gives_the_text_within(before, middle, after);
}

/// A profile holds languages and tools, and nothing else.
pub proof fn profiles_hold_languages_and_tools(kind: &str, r: bool)
    requires
        call_ensures(profile::profile_kind, (kind,), r),
    ensures
        r <==> kind@ == "language"@ || kind@ == "tool"@,
{
}

/// A command is run by its words; one without words, or that cannot be told apart, is refused.
pub proof fn commands_are_run_by_their_words(command: &str, r: Result<Invocation, String>)
    requires
        call_ensures(profile::exec_words, (command,), r),
    ensures
        (words::split_words(command@) matches Some(ws) && ws.len() > 0) ==> (r matches Ok(i)
            && i.words() == words::split_words(command@)->0),
        words::split_words(command@) is None ==> r is Err,
        (words::split_words(command@) matches Some(ws) && ws.len() == 0) ==> r is Err,
{
}

/// A path of one's own is OK where it is a file, and missing where it is not.
pub proof fn own_paths_are_ok_where_they_are_files(name: &str, path: &str, is_file: bool, r: String)
    requires
        call_ensures(shell_lines::byo_language_line, (name, path, is_file), r),
    ensures
        is_file ==> r@ == "  language."@ + name@ + ": OK ("@ + path@ + ")"@,
        !is_file ==> r@ == "  language."@ + name@ + ": MISSING ("@ + path@ + ")"@,
{
}

/// cmd's hook is written exactly where it is not there as it should be.
pub proof fn the_cmd_hook_is_written_once(existing: Option<&str>, r: Option<String>)
    requires
        call_ensures(shell::ensure_cmd_hook_installed, (existing,), r),
    ensures
        existing is None ==> (r matches Some(s) && s@ == shell::CMD_HOOK@),
        existing matches Some(e) ==> (r is None <==> text::trimmed(e@) == text::trimmed(
            shell::CMD_HOOK@,
        )),
        r matches Some(s) ==> s@ == shell::CMD_HOOK@,
{
}

/// A project that is named is started where it is known to be; a directory is taken as it is.
pub proof fn directories_are_taken_as_they_are(
    target: &str,
    known: Vec<KnownProject>,
    r: String,
)
    requires
        call_ensures(projects::start_directory, (target, true, &known), r),
    ensures
        r@ == target@,
{
}

/// A profile's name is accepted exactly where nothing is wrong with it.
pub proof fn good_names_are_accepted(name: &str, r: Result<(), NameError>)
    requires
        call_ensures(profile::validate_profile_name, (name,), r),
    ensures
        r is Ok <==> profile::name_fault(name@) is None,
        name@ == "list"@ || name@ == "rm"@ || name@ == "add"@ || name@ == "edit"@ || name@
            == "remove"@ || name@ == "describe"@ ==> r is Err,
        name@.contains('/') || name@.contains('\\') ==> r is Err,
{
    if name@.contains('/') {
        let i = choose|i: int| 0 <= i < name@.len() && name@[i] == '/';
        assert(!profile::is_name_char(name@[i]));
    }
    if name@.contains('\\') {
        let i = choose|i: int| 0 <= i < name@.len() && name@[i] == '\\';
        assert(!profile::is_name_char(name@[i]));
    }
}

/// A manifest that is loaded keeps what it declares and has a name and a domain.
pub proof fn loaded_manifests_have_a_name_and_a_domain(
    parsed: Manifest,
    folder: Option<&str>,
    r: Manifest,
)
    requires
        call_ensures(Manifest::load, (parsed, folder), r),
    ensures
        parsed.project.name@.len() > 0 ==> r.project.name@ == parsed.project.name@,
        parsed.project.name@.len() == 0 && folder is Some ==> r.project.name@ == folder->0@,
        r.project.domain is Some,
        parsed.project.domain is None ==> r.project.domain->0@ == r.project.name@ + ".localhost"@,
        parsed.project.domain is Some ==> r.project.domain->0@ == parsed.project.domain->0@,
        r.language == parsed.language && r.service == parsed.service && r.run == parsed.run
            && r.tool == parsed.tool && r.clones == parsed.clones,
{
}

} // verus!

//! Starting a project: cloning what it needs, planning its run, and recording what it declares.

use crate::location;
use crate::location::JoinedPath;
use crate::manifest;
use crate::manifest::{CloneEntry, Language, Manifest, PortError, Run, RunError, Service};
use crate::commands::services;
use crate::ordered_map;
use crate::ordered_map::OrderedMap;
use crate::output;
use crate::output::Line;
use crate::placeholder;
use crate::placeholder::Sources;
use crate::projects;
use crate::projects::ProjectRecord;
use crate::text;
use crate::words;
use vstd::prelude::*;

verus! {

/// Names as they are shown: each in double quotes, in square brackets, or a word for none.
pub open spec fn shown_names(names: Seq<Seq<char>>) -> Seq<char> {
    if names.len() == 0 {
        "(none)"@
    } else {
        "[\""@ + text::joined(names, "\", \""@) + "\"]"@
    }
}

/// A list of names as it is shown.
pub fn join_names(names: &Vec<String>) -> (r: String)
    ensures
        r@ == shown_names(text::texts(names@)),
{
    if names.len() == 0 {
        assert(text::texts(names@).len() == 0);
        "(none)".to_owned()
    } else {
        assert(text::texts(names@).len() == names@.len());
        let mut r = "[\"".to_owned();
        r.append(text::join(names, "\", \"").as_str());
        r.append("\"]");
        r
    }
}

/// What is shown when a manifest was loaded.
pub fn loaded_lines(manifest: &Manifest, path: &str) -> (r: Vec<String>)
    ensures
        text::texts(r@) == seq!["Loaded "@ + path@, "  project: "@ + manifest.project.name@] + (
        match manifest.project.domain {
            Some(d) => seq!["  domain: "@ + d@],
            None => Seq::empty(),
        }) + seq![
            "  languages: "@ + shown_names(
                ordered_map::keys(manifest.language.pairs()),
            ),
            "  services: "@ + shown_names(ordered_map::keys(manifest.service.pairs())),
        ],
{
    let mut r: Vec<String> = Vec::new();
    let mut line = "Loaded ".to_owned();
    line.append(path);
    let ghost a = line@;
    r.push(line);
    let mut line = "  project: ".to_owned();
    line.append(manifest.project.name.as_str());
    let ghost b = line@;
    r.push(line);
    let ghost mut c: Seq<Seq<char>> = Seq::empty();
    match &manifest.project.domain {
        Some(d) => {
            let mut line = "  domain: ".to_owned();
            line.append(d.as_str());
            proof {
                c = seq![line@];
            }
            r.push(line);
        },
        None => {},
    }
    let mut line = "  languages: ".to_owned();
    line.append(join_names(&manifest.language.key_list()).as_str());
    let ghost d = line@;
    r.push(line);
    let mut line = "  services: ".to_owned();
    line.append(join_names(&manifest.service.key_list()).as_str());
    let ghost e = line@;
    r.push(line);
    assert(text::texts(r@) =~= seq![a, b] + c + seq![d, e]);
    r
}

/// The first line of a text, or nothing.
pub open spec fn first_line(s: Seq<char>) -> Seq<char> {
    if text::lines_of(s).len() > 0 {
        text::lines_of(s)[0]
    } else {
        Seq::empty()
    }
}

/// What is shown of a language's binary: what it says of its version, or why it cannot be run.
pub fn version_line(label: &str, binary: &str, output: Result<&str, &str>) -> (r: Line)
    ensures
        r@ == match output {
            Ok(stdout) => output::LineText::Out(
                "  "@ + label@ + ": "@ + binary@ + " -> "@ + first_line(stdout@),
            ),
            Err(e) => output::LineText::Alert(
                "  "@ + label@ + ": failed to run "@ + binary@ + ": "@ + e@,
            ),
        },
{
    let mut r = "  ".to_owned();
    r.append(label);
    match output {
        Ok(stdout) => {
            r.append(": ");
            r.append(binary);
            r.append(" -> ");
            let lines = text::lines(stdout);
            if lines.len() > 0 {
                assert(text::texts(lines@)[0] == lines@[0]@);
                r.append(lines[0].as_str());
            } else {
                assert(text::texts(lines@).len() == 0);
                assert(r@ + first_line(stdout@) =~= r@);
            }
            Line::Out(r)
        },
        Err(e) => {
            r.append(": failed to run ");
            r.append(binary);
            r.append(": ");
            r.append(e);
            Line::Alert(r)
        },
    }
}

/// The languages of a manifest that name a version, with it.
pub open spec fn language_versions(s: Seq<(Seq<char>, Language)>) -> Seq<(Seq<char>, Seq<char>)>
    decreases s.len(),
{
    if s.len() == 0 {
        Seq::empty()
    } else {
        let front = language_versions(s.drop_last());
        match s.last().1.version_text() {
            Some(v) => front.push((s.last().0, v)),
            None => front,
        }
    }
}

/// The services of a manifest, with their versions.
pub open spec fn service_versions(s: Seq<(Seq<char>, Service)>) -> Seq<(Seq<char>, Seq<char>)> {
    s.map_values(|p: (Seq<char>, Service)| (p.0, p.1.version@))
}

/// What is recorded of a project when it is started: the languages that name a version, and the
/// services.
pub fn project_record(manifest: &Manifest) -> (r: ProjectRecord)
    ensures
        projects::pair_texts(r.languages@) == language_versions(manifest.language.pairs()),
        projects::pair_texts(r.services@) == service_versions(manifest.service.pairs()),
{
    let mut languages: Vec<(String, String)> = Vec::new();
    let ghost declared = manifest.language.pairs();
    let n: usize = manifest.language.len();
    let mut i: usize = 0;
    assert(projects::pair_texts(languages@) =~= language_versions(declared.take(0)));
    while i < n
        invariant
            i <= n,
            n == declared.len(),
            declared == manifest.language.pairs(),
            projects::pair_texts(languages@) == language_versions(declared.take(i as int)),
        decreases n - i,
    {
        assert(declared.take(i + 1).drop_last() =~= declared.take(i as int));
        match manifest.language.value_at(i).version() {
            Some(v) => {
                let ghost before = languages@;
                let name = manifest.language.key_at(i);
                languages.push((name.clone(), v.to_owned()));
                assert(projects::pair_texts(languages@) =~= projects::pair_texts(before).push(
                    (name@, v@),
                ));
            },
            None => {},
        }
        i += 1;
    }
    assert(declared.take(i as int) =~= declared);
    let mut services: Vec<(String, String)> = Vec::new();
    let ghost declared = manifest.service.pairs();
    let n: usize = manifest.service.len();
    let mut i: usize = 0;
    assert(projects::pair_texts(services@) =~= service_versions(declared.take(0)));
    while i < n
        invariant
            i <= n,
            n == declared.len(),
            declared == manifest.service.pairs(),
            projects::pair_texts(services@) == service_versions(declared.take(i as int)),
        decreases n - i,
    {
        let ghost before = services@;
        let name = manifest.service.key_at(i);
        let svc = manifest.service.value_at(i);
        services.push((name.clone(), svc.version.clone()));
        assert(projects::pair_texts(services@) =~= projects::pair_texts(before).push(
            (name@, svc.version@),
        ));
        assert(service_versions(declared.take(i + 1)) =~= service_versions(
            declared.take(i as int),
        ).push((name@, svc.version@)));
        i += 1;
    }
    assert(declared.take(i as int) =~= declared);
    ProjectRecord { languages, services }
}

/// What is done about a `[[clone]]` entry.
#[derive(Debug)]
pub enum CloneStep {
    /// The target exists already and is left untouched.
    Keep,
    /// Git is run with `clone`, and then, where there is one, with `checkout`.
    Clone { clone: Vec<String>, checkout: Option<Vec<String>> },
}

/// A list of four arguments.
fn four(a: &str, b: &str, c: &str, d: &str) -> (r: Vec<String>)
    ensures
        text::texts(r@) == seq![a@, b@, c@, d@],
{
    let mut r: Vec<String> = Vec::new();
    r.push(a.to_owned());
    r.push(b.to_owned());
    r.push(c.to_owned());
    r.push(d.to_owned());
    assert(text::texts(r@) =~= seq![a@, b@, c@, d@]);
    r
}

/// A list of three arguments.
fn three(a: &str, b: &str, c: &str) -> (r: Vec<String>)
    ensures
        text::texts(r@) == seq![a@, b@, c@],
{
    let mut r: Vec<String> = Vec::new();
    r.push(a.to_owned());
    r.push(b.to_owned());
    r.push(c.to_owned());
    assert(text::texts(r@) =~= seq![a@, b@, c@]);
    r
}

/// What is done about a `[[clone]]` entry whose target is `target`: what exists is never touched.
pub fn clone_step(entry: &CloneEntry, target: &str, present: bool) -> (r: CloneStep)
    ensures
        match r {
            CloneStep::Keep => present,
            CloneStep::Clone { clone, checkout } => {
                &&& !present
                &&& text::texts(clone@) == seq!["clone"@, entry.repo@, target@]
                &&& match (entry.git_ref, checkout) {
                    (Some(git_ref), Some(args)) => text::texts(args@) == seq![
                        "-C"@,
                        target@,
                        "checkout"@,
                        git_ref@,
                    ],
                    (None, None) => true,
                    _ => false,
                }
            },
        },
{
    if present {
        return CloneStep::Keep;
    }
    let clone = three("clone", entry.repo.as_str(), target);
    let checkout = match &entry.git_ref {
        Some(git_ref) => Some(four("-C", target, "checkout", git_ref.as_str())),
        None => None,
    };
    CloneStep::Clone { clone, checkout }
}

/// What is shown of a `[[clone]]` entry.
pub fn clone_line(entry: &CloneEntry, target: &str, present: bool) -> (r: String)
    ensures
        r@ == if present {
            "  clone: "@ + target@ + " already exists, leaving untouched"@
        } else {
            "  clone: "@ + entry.repo@ + " -> "@ + target@
        },
{
    let mut r = "  clone: ".to_owned();
    if present {
        r.append(target);
        r.append(" already exists, leaving untouched");
    } else {
        r.append(entry.repo.as_str());
        r.append(" -> ");
        r.append(target);
    }
    r
}

/// What is reported where git could not clone, or could not check out.
pub fn clone_failed(entry: &CloneEntry, checkout: Option<&str>) -> (r: String)
    ensures
        r@ == match checkout {
            Some(git_ref) => "git checkout "@ + git_ref@ + " failed for "@ + entry.repo@,
            None => "git clone failed for "@ + entry.repo@,
        },
{
    match checkout {
        Some(git_ref) => {
            let mut r = "git checkout ".to_owned();
            r.append(git_ref);
            r.append(" failed for ");
            r.append(entry.repo.as_str());
            r
        },
        None => {
            let mut r = "git clone failed for ".to_owned();
            r.append(entry.repo.as_str());
            r
        },
    }
}

/// How a project is run.
#[derive(Debug)]
pub enum RunPlan {
    /// There is no `[run]`: nothing is spawned or routed.
    Nothing,
    /// Something else runs it, and stack only routes to the port.
    External { port: u16 },
    /// It is started in `cwd`, on the declared port or, where none is, on a free one.
    Start { cwd: JoinedPath, declared: Option<u16> },
}

/// Why a project cannot be run.
#[derive(Debug)]
pub enum PlanError {
    /// Its `[run]` contradicts itself.
    Invalid(RunError),
    /// Its port does not resolve.
    Port(PortError),
}

impl PlanError {
    /// What is reported to the user.
    pub fn message(&self) -> (r: String)
        ensures
            r@ == match *self {
                PlanError::Invalid(e) => e.report(),
                PlanError::Port(e) => e@.full_report(),
            },
    {
        match self {
            PlanError::Invalid(e) => e.message(),
            PlanError::Port(e) => e.full_message(),
        }
    }
}

/// How a project in `project_dir` is run.
pub fn plan_run(manifest: &Manifest, project_dir: &str, sources: &Sources) -> (r: Result<
    RunPlan,
    PlanError,
>)
    ensures
        match manifest.run {
            None => r == Ok::<RunPlan, PlanError>(RunPlan::Nothing),
            Some(run) => {
                let has_php = manifest.language@.contains_key("php"@);
                match run.fault(has_php) {
                    Some(e) => r == Err::<RunPlan, PlanError>(PlanError::Invalid(e)),
                    None => match (run.port_outcome(*sources), r) {
                        (Err(e), Err(PlanError::Port(f))) => f@ == e,
                        (Ok(p), Ok(RunPlan::External { port })) => run.external && p == Some(
                            port as nat,
                        ),
                        (Ok(p), Ok(RunPlan::Start { cwd, declared })) => {
                            &&& !run.external
                            &&& cwd@ == location::plain(project_dir@).join(run.cwd@)
                            &&& p == match declared {
                                Some(n) => Some(n as nat),
                                None => None,
                            }
                        },
                        _ => false,
                    },
                }
            },
        },
{
    let run = match &manifest.run {
        None => {
            return Ok(RunPlan::Nothing);
        },
        Some(run) => run,
    };
    let has_php = manifest.language.contains_key("php");
    match run.validate(has_php) {
        Ok(_) => {},
        Err(e) => {
            return Err(PlanError::Invalid(e));
        },
    }
    match run.resolve_port(sources) {
        Err(e) => Err(PlanError::Port(e)),
        Ok(port) => if run.external {
            match port {
                Some(port) => Ok(RunPlan::External { port }),
                None => {
                    assert(false);
                    Ok(RunPlan::Nothing)
                },
            }
        } else {
            Ok(
                RunPlan::Start {
                    cwd: JoinedPath::new(project_dir).join(run.cwd.as_str()),
                    declared: port,
                },
            )
        },
    }
}

/// The port that a run declares is taken.
pub fn port_taken_message(port: u16) -> (r: String)
    ensures
        r@ == "port "@ + text::decimal(port as nat) + " is already in use"@,
{
    let mut r = "port ".to_owned();
    r.append(text::decimal_text(port as u64).as_str());
    r.append(" is already in use");
    r
}

/// What is shown of an external run.
pub fn external_run_line(port: u16, listening: bool) -> (r: String)
    ensures
        r@ == if listening {
            "  run: external — something is already listening on port "@ + text::decimal(
                port as nat,
            )
        } else {
            "  run: external — nothing listening on port "@ + text::decimal(port as nat)
                + " yet; start your dev server whenever you're ready"@
        },
{
    if listening {
        let mut r = "  run: external — something is already listening on port ".to_owned();
        r.append(text::decimal_text(port as u64).as_str());
        r
    } else {
        let mut r = "  run: external — nothing listening on port ".to_owned();
        r.append(text::decimal_text(port as u64).as_str());
        r.append(" yet; start your dev server whenever you're ready");
        r
    }
}

/// The one reserved placeholder of `[run].command`.
pub open spec fn is_reserved_for_run(reserved: Map<Seq<char>, String>, port: u16) -> bool {
    &&& placeholder::text_at(reserved, "port"@) == Some(text::decimal(port as nat))
    &&& forall|k: Seq<char>| #[trigger] reserved.contains_key(k) ==> k == "port"@
}

/// What comes of `[run].command` on a port: the command with its placeholders filled in, where
/// `{port}` is that port, or what is reported to the user, every name without a value.
pub open spec fn is_filled_in(
    command: Seq<char>,
    port: u16,
    sources: Sources,
    r: Result<Seq<char>, Seq<char>>,
) -> bool {
    exists|reserved: Map<Seq<char>, String>|
        {
            &&& #[trigger] is_reserved_for_run(reserved, port)
            &&& match (placeholder::resolution(command, reserved, sources), r) {
                (Ok(filled), Ok(text)) => text == filled,
                (Err(missing), Err(why)) => why == "missing required value(s): "@
                    + text::joined(missing, ", "@)
                    + "\n        pass --prompt to be asked interactively, or set them in your environment (see `stack load-env`)"@,
                _ => false,
            }
        }
}

/// The characters of a result.
pub open spec fn result_text(r: Result<String, String>) -> Result<Seq<char>, Seq<char>> {
    match r {
        Ok(s) => Ok(s@),
        Err(e) => Err(e@),
    }
}

/// The command that runs a project, with its placeholders filled in.
pub fn run_command(command: &str, port: u16, sources: &Sources) -> (r: Result<String, String>)
    ensures
        is_filled_in(command@, port, *sources, result_text(r)),
{
    let mut reserved: OrderedMap<String> = OrderedMap::new();
    reserved.insert("port".to_owned(), text::decimal_text(port as u64));
    assert(is_reserved_for_run(reserved@, port));
    match placeholder::resolve(command, &reserved, sources) {
        Ok(filled) => Ok(filled),
        Err(missing) => {
            let mut why = "missing required value(s): ".to_owned();
            why.append(text::join(&missing, ", ").as_str());
            why.append(
                "\n        pass --prompt to be asked interactively, or set them in your environment (see `stack load-env`)",
            );
            Err(why)
        },
    }
}

/// The arguments of the default PHP execution: FastCGI on the port, with OPcache switched on,
/// which the official builds leave off.
pub open spec fn php_args(port: u16) -> Seq<Seq<char>> {
    seq![
        "-b"@,
        "127.0.0.1:"@ + text::decimal(port as nat),
        "-d"@,
        "zend_extension=opcache"@,
        "-d"@,
        "opcache.enable=1"@,
        "-d"@,
        "opcache.enable_cli=1"@,
    ]
}

/// The arguments of the default PHP execution are read as they stand.
proof fn php_args_are_plain(port: u16)
    ensures
        words::all_plain(php_args(port)),
{
    reveal_strlit("-b");
    reveal_strlit("127.0.0.1:");
    reveal_strlit("-d");
    reveal_strlit("zend_extension=opcache");
    reveal_strlit("opcache.enable=1");
    reveal_strlit("opcache.enable_cli=1");
    text::decimal_is_digits(port as nat);
    let args = php_args(port);
    assert(words::is_plain(args[0]));
    assert(words::is_plain(args[1])) by {
        let a = args[1];
        let head = "127.0.0.1:"@;
        assert forall|i: int| 0 <= i < a.len() implies !words::is_special(#[trigger] a[i]) by {
            if i < head.len() {
                assert(a[i] == head[i]);
            } else {
                assert(a[i] == text::decimal(port as nat)[i - head.len()]);
            }
        }
    }
    assert(words::is_plain(args[2]));
    assert(words::is_plain(args[3]));
    assert(words::is_plain(args[4]));
    assert(words::is_plain(args[5]));
    assert(words::is_plain(args[6]));
    assert(words::is_plain(args[7]));
}

/// The command of the default PHP execution.
pub open spec fn php_text(php_cgi: Seq<char>, port: u16) -> Seq<char> {
    words::quoted(services::with_slashes(php_cgi)) + " -b 127.0.0.1:"@ + text::decimal(
        port as nat,
    ) + " -d zend_extension=opcache -d opcache.enable=1 -d opcache.enable_cli=1"@
}

/// The command of the default PHP execution. Split into words, it is the FastCGI binary, with
/// slashes, and its arguments, whatever characters the binary's path holds.
pub fn php_command(php_cgi: &str, port: u16) -> (r: String)
    ensures
        r@ == php_text(php_cgi@, port),
        words::is_quoted_list(r@, services::with_slashes(php_cgi@), php_args(port)),
{
    let mut r = words::quote(services::shell_safe_path(php_cgi).as_str());
    let ghost head = r@;
    r.append(" -b 127.0.0.1:");
    r.append(text::decimal_text(port as u64).as_str());
    r.append(" -d zend_extension=opcache -d opcache.enable=1 -d opcache.enable_cli=1");
    proof {
        php_args_are_plain(port);
        reveal_strlit(" -b 127.0.0.1:");
        reveal_strlit(" -d zend_extension=opcache -d opcache.enable=1 -d opcache.enable_cli=1");
        reveal_strlit("-b");
        reveal_strlit("127.0.0.1:");
        reveal_strlit("-d");
        reveal_strlit("zend_extension=opcache");
        reveal_strlit("opcache.enable=1");
        reveal_strlit("opcache.enable_cli=1");
        reveal_strlit(" ");
        let args = php_args(port);
        reveal_with_fuel(text::joined, 9);
        assert(r@ =~= head + " "@ + text::joined(args, " "@));
    }
    r
}

/// The environment that a project's process gets on top of its own: the port, the search path,
/// and, for the default PHP execution, the number of workers and how many requests each serves.
pub open spec fn is_run_environment(
    env: Map<Seq<char>, String>,
    port: u16,
    search_path: Seq<char>,
    php_workers: Option<Option<u32>>,
) -> bool {
    &&& placeholder::text_at(env, "PORT"@) == Some(text::decimal(port as nat))
    &&& placeholder::text_at(env, "PATH"@) == Some(search_path)
    &&& placeholder::text_at(env, "PHP_FCGI_CHILDREN"@) == match php_workers {
        Some(Some(n)) => Some(text::decimal(n as nat)),
        Some(None) => Some(text::decimal(4)),
        None => None,
    }
    &&& placeholder::text_at(env, "PHP_FCGI_MAX_REQUESTS"@) == match php_workers {
        Some(_) => Some("500"@),
        None => None,
    }
    &&& forall|k: Seq<char>| #[trigger]
        env.contains_key(k) ==> k == "PORT"@ || k == "PATH"@ || k == "PHP_FCGI_CHILDREN"@ || k
            == "PHP_FCGI_MAX_REQUESTS"@
}

/// The environment that a project's process gets on top of its own.
pub fn run_environment(port: u16, search_path: &str, php_workers: Option<Option<u32>>) -> (r:
    OrderedMap<String>)
    ensures
        is_run_environment(r@, port, search_path@, php_workers),
{
    proof {
        reveal_strlit("PORT");
        reveal_strlit("PATH");
        reveal_strlit("PHP_FCGI_CHILDREN");
        reveal_strlit("PHP_FCGI_MAX_REQUESTS");
        assert("PORT"@[1] != "PATH"@[1]);
        assert("PHP_FCGI_CHILDREN"@.len() == 17);
        assert("PHP_FCGI_MAX_REQUESTS"@.len() == 21);
    }
    let mut env: OrderedMap<String> = OrderedMap::new();
    env.insert("PORT".to_owned(), text::decimal_text(port as u64));
    env.insert("PATH".to_owned(), search_path.to_owned());
    match php_workers {
        Some(workers) => {
            let count: u32 = match workers {
                Some(n) => n,
                None => 4,
            };
            env.insert("PHP_FCGI_CHILDREN".to_owned(), text::decimal_text(count as u64));
            env.insert("PHP_FCGI_MAX_REQUESTS".to_owned(), "500".to_owned());
        },
        None => {},
    }
    env
}

/// The FastCGI binary next to a PHP binary whose directory is `php_dir`.
pub fn php_cgi_binary(php_dir: &str, exe_suffix: &str) -> (r: JoinedPath)
    ensures
        r@ == location::plain(php_dir@).join("php-cgi"@ + exe_suffix@),
{
    let mut name = "php-cgi".to_owned();
    name.append(exe_suffix);
    JoinedPath::new(php_dir).join(name.as_str())
}

/// What is reported where there is no FastCGI binary next to a PHP binary.
pub open spec fn no_php_cgi_report(exe_suffix: Seq<char>, php_binary: Seq<char>) -> Seq<char> {
    "php-cgi"@ + exe_suffix + " not found next to "@ + php_binary
        + " — expected in every official PHP build; set [run].command explicitly if this PHP install is non-standard"@
}

/// What is reported where there is no FastCGI binary next to a PHP binary.
pub fn no_php_cgi_message(exe_suffix: &str, php_binary: &str) -> (r: String)
    ensures
        r@ == no_php_cgi_report(exe_suffix@, php_binary@),
{
    let mut r = "php-cgi".to_owned();
    r.append(exe_suffix);
    r.append(" not found next to ");
    r.append(php_binary);
    r.append(
        " — expected in every official PHP build; set [run].command explicitly if this PHP install is non-standard",
    );
    r
}

/// Where a PHP project keeps its `index.php`: in `public/` where one is there, else where it is
/// run. The manifest never has to say which kind of project it is.
pub fn detect_php_docroot(run_cwd: &str, public_has_index: bool) -> (r: JoinedPath)
    ensures
        r@ == if public_has_index {
            location::plain(run_cwd@).join("public"@)
        } else {
            location::plain(run_cwd@)
        },
{
    if public_has_index {
        JoinedPath::new(run_cwd).join("public")
    } else {
        JoinedPath::new(run_cwd)
    }
}

/// What came of routing a project's domain to its port.
#[derive(Debug)]
pub enum Routing {
    Routed,
    /// Caddy refused the route.
    Refused(String),
    /// Caddy could not be started or reached.
    Unreachable(String),
}

/// What is shown of a project's route. A PHP project is routed with its document root.
pub open spec fn route_report(
    domain: Seq<char>,
    port: u16,
    docroot: Option<Seq<char>>,
    routing: Routing,
) -> output::LineText {
    match routing {
        Routing::Routed => output::LineText::Out(
            "  routed: http://"@ + domain + " -> 127.0.0.1:"@ + text::decimal(port as nat) + (
            match docroot {
                Some(root) => " (fastcgi, root "@ + root + ")"@,
                None => Seq::empty(),
            }),
        ),
        Routing::Refused(e) => output::LineText::Alert("  warning: failed to push route: "@ + e@),
        Routing::Unreachable(e) => output::LineText::Alert(
            "  warning: could not start/reach caddy for routing: "@ + e@,
        ),
    }
}

/// What is shown of a project's route.
pub fn route_line(domain: &str, port: u16, docroot: Option<&str>, routing: &Routing) -> (r: Line)
    ensures
        r@ == route_report(domain@, port, text::opt_str(docroot), *routing),
{
    match routing {
        Routing::Routed => {
            let mut r = "  routed: http://".to_owned();
            r.append(domain);
            r.append(" -> 127.0.0.1:");
            r.append(text::decimal_text(port as u64).as_str());
            match docroot {
                Some(root) => {
                    let mut shown = " (fastcgi, root ".to_owned();
                    shown.append(root);
                    shown.append(")");
                    r.append(shown.as_str());
                },
                None => {
                    assert(r@ + Seq::<char>::empty() =~= r@);
                },
            }
            Line::Out(r)
        },
        Routing::Refused(e) => {
            let mut r = "  warning: failed to push route: ".to_owned();
            r.append(e.as_str());
            Line::Alert(r)
        },
        Routing::Unreachable(e) => {
            let mut r = "  warning: could not start/reach caddy for routing: ".to_owned();
            r.append(e.as_str());
            Line::Alert(r)
        },
    }
}

/// What is shown of a project that was just started.
pub open spec fn started_texts(
    command: Seq<char>,
    pid: u32,
    port: u16,
    log: Seq<char>,
) -> Seq<Seq<char>> {
    seq![
        "  run: "@ + command + "  (pid "@ + text::decimal(pid as nat) + ", port "@ + text::decimal(
            port as nat,
        ) + ")"@,
        "  log: "@ + log,
    ]
}

/// What is shown of a project that was just started.
pub fn started_lines(command: &str, pid: u32, port: u16, log: &str) -> (r: Vec<String>)
    ensures
        text::texts(r@) == started_texts(command@, pid, port, log@),
{
    let mut first = "  run: ".to_owned();
    first.append(command);
    first.append("  (pid ");
    first.append(text::decimal_text(pid as u64).as_str());
    first.append(", port ");
    first.append(text::decimal_text(port as u64).as_str());
    first.append(")");
    let mut second = "  log: ".to_owned();
    second.append(log);
    let ghost shown = seq![first@, second@];
    let mut r: Vec<String> = Vec::new();
    r.push(first);
    r.push(second);
    assert(text::texts(r@) =~= shown);
    r
}

/// A run that is started rather than only routed to always has something to start: its own
/// command, or the PHP that the manifest declares.
pub proof fn started_runs_have_a_command(run: Run, has_php: bool)
    requires
        run.fault(has_php) is None,
        !run.external,
    ensures
        run.command is Some || has_php,
{
}

} // verus!

//! Checking the machine and the project, and carrying a project's environment into the shell.

use crate::commands::services;
use crate::manifest;
use crate::manifest::{Manifest, Run, Service};
use crate::ordered_map::OrderedMap;
use crate::pinned;
use crate::placeholder;
use crate::placeholder::Sources;
use crate::registry::Registry;
use crate::shell;
use crate::shell::Rgb;
use crate::text;
use crate::toolchain::Ran;
use vstd::prelude::*;

verus! {

// ------------------------------------------------------------------------------------------
// Checking the machine

/// The first line of a text, if it has one.
pub open spec fn first_line(s: Seq<char>) -> Option<Seq<char>> {
    if text::lines_of(s).len() > 0 {
        Some(text::lines_of(s)[0])
    } else {
        None
    }
}

/// The first line of a text, without space around it, or of another text where there is none.
fn first_line_or(s: &str, otherwise: &str) -> (r: String)
    ensures
        r@ == text::trimmed(
            match first_line(s@) {
                Some(l) => l,
                None => otherwise@,
            },
        ),
{
    let lines = text::lines(s);
    if lines.len() > 0 {
        assert(text::texts(lines@)[0] == lines@[0]@);
        text::trim(lines[0].as_str())
    } else {
        assert(text::texts(lines@).len() == 0);
        text::trim(otherwise)
    }
}

/// What a program says of its version: the first line that it prints, else the first line that it
/// complains with.
pub open spec fn version_said(stdout: Seq<char>, stderr: Seq<char>) -> Seq<char> {
    let out = text::trimmed(
        match first_line(stdout) {
            Some(l) => l,
            None => ""@,
        },
    );
    if out.len() > 0 {
        out
    } else {
        text::trimmed(
            match first_line(stderr) {
                Some(l) => l,
                None => "(no version output)"@,
            },
        )
    }
}

/// The version of a program, or why it cannot be told.
pub fn check_on_path(ran: &Ran) -> (r: Result<String, String>)
    ensures
        match (*ran, r) {
            (Ran::Ended { stdout, stderr, .. }, Ok(v)) => v@ == version_said(stdout@, stderr@),
            (Ran::NotFound, Err(e)) => e@ == "not found on PATH"@,
            (Ran::Failed(why), Err(e)) => e@ == "failed to run: "@ + why@,
            _ => false,
        },
{
    match ran {
        Ran::Ended { stdout, stderr, .. } => {
            let out = first_line_or(stdout.as_str(), "");
            proof {
                reveal_strlit("");
                if out@.len() == 0 {
                    assert(out@ =~= ""@);
                }
            }
            if text::same(out.as_str(), "") {
                Ok(first_line_or(stderr.as_str(), "(no version output)"))
            } else {
                Ok(out)
            }
        },
        Ran::NotFound => Err("not found on PATH".to_owned()),
        Ran::Failed(why) => {
            let mut e = "failed to run: ".to_owned();
            e.append(why.as_str());
            Err(e)
        },
    }
}

/// The engine and the conventional port that the name of a running Windows service, in lower case,
/// tells of.
pub open spec fn known_service(lower: Seq<char>) -> Option<(Seq<char>, u16)> {
    if text::has_prefix(lower, "mysql"@) {
        Some(("mysql"@, 3306))
    } else if text::has_prefix(lower, "mongodb"@) {
        Some(("mongo"@, 27017))
    } else if text::has_prefix(lower, "postgresql"@) {
        Some(("postgres"@, 5432))
    } else {
        None
    }
}

/// An engine and its conventional port, as text and number.
pub open spec fn engine_port(o: Option<(&str, u16)>) -> Option<(Seq<char>, u16)> {
    match o {
        Some((engine, port)) => Some((engine@, port)),
        None => None,
    }
}

/// The engine and the conventional port that a name in lower case tells of.
pub fn match_lower_service(lower: &str) -> (r: Option<(&'static str, u16)>)
    ensures
        engine_port(r) == known_service(lower@),
{
    if text::starts_with(lower, "mysql") {
        Some(("mysql", 3306))
    } else if text::starts_with(lower, "mongodb") {
        Some(("mongo", 27017))
    } else if text::starts_with(lower, "postgresql") {
        Some(("postgres", 5432))
    } else {
        None
    }
}

/// The engine and the conventional port that the name of a running Windows service tells of,
/// whatever its case.
pub fn match_known_service(name: &str) -> (r: Option<(&'static str, u16)>)
    ensures
        engine_port(r) == known_service(text::lowercased(name@)),
        text::is_ascii(name@) ==> engine_port(r) == known_service(
            name@.map_values(|c: char| text::ascii_lower(c)),
        ),
{
    match_lower_service(text::lowercase(name).as_str())
}

/// The PowerShell query for running services of the known engines.
pub fn service_query() -> (r: String)
    ensures
        r@
            == "Get-Service -Name 'MySQL*','MongoDB*','postgresql*' -ErrorAction SilentlyContinue | Where-Object { $_.Status -eq 'Running' } | Select-Object -ExpandProperty Name"@,
{
    "Get-Service -Name 'MySQL*','MongoDB*','postgresql*' -ErrorAction SilentlyContinue | Where-Object { $_.Status -eq 'Running' } | Select-Object -ExpandProperty Name".to_owned()
}

/// What is suggested for a running service of a known engine.
pub fn service_hint(name: &str) -> (r: Option<String>)
    ensures
        text::opt_text(r) == match known_service(text::lowercased(name@)) {
            Some((engine, port)) => Some(
                "  '"@ + name@ + "' — if this is the "@ + engine
                    + " instance you want stack to use, add `external = true` to [service."@
                    + engine + "] in stack.toml (conventionally port "@ + text::decimal(
                    port as nat,
                ) + ", adjust if yours differs)"@,
            ),
            None => None,
        },
{
    match match_known_service(name) {
        Some((engine, port)) => {
            let mut r = "  '".to_owned();
            r.append(name);
            r.append("' — if this is the ");
            r.append(engine);
            r.append(" instance you want stack to use, add `external = true` to [service.");
            r.append(engine);
            r.append("] in stack.toml (conventionally port ");
            r.append(text::decimal_text(port as u64).as_str());
            r.append(", adjust if yours differs)");
            Some(r)
        },
        None => None,
    }
}

/// What the check of one of stack's own tools comes to.
#[derive(Debug)]
pub struct ToolCheck {
    pub lines: Vec<String>,
    pub ok: bool,
    /// The version to install, where the tool is missing and to be fixed.
    pub install: Option<&'static str>,
}

/// What is shown of one of stack's own tools: its version, with a warning where it is not the
/// pinned one, or why it is missing.
pub open spec fn tool_lines(tool: Seq<char>, check: Result<Seq<char>, Seq<char>>) -> Seq<
    Seq<char>,
> {
    match check {
        Ok(version) => {
            let first = seq!["  "@ + tool + ": OK ("@ + version + ")"@];
            match pinned::pinned(tool) {
                Some(p) => if !text::occurs_in(version, p) {
                    first.push(
                        "    warning: stack was tested against "@ + tool + " "@ + p
                            + "; installed version may behave differently"@,
                    )
                } else {
                    first
                },
                None => first,
            }
        },
        Err(e) => seq!["  "@ + tool + ": MISSING ("@ + e + ")"@],
    }
}

/// The characters of a check's outcome.
pub open spec fn check_text(check: Result<String, String>) -> Result<Seq<char>, Seq<char>> {
    match check {
        Ok(v) => Ok(v@),
        Err(e) => Err(e@),
    }
}

/// The check of one of stack's own tools. Where it is missing and `fix` is set, the pinned version
/// is to be installed.
pub fn doctor_tool(tool: &str, check: &Result<String, String>, fix: bool) -> (r: ToolCheck)
    ensures
        text::texts(r.lines@) == tool_lines(tool@, check_text(*check)),
        r.ok == (check is Ok),
        text::opt_str(r.install) == (if check is Err && fix {
            pinned::pinned(tool@)
        } else {
            None
        }),
{
    let mut lines: Vec<String> = Vec::new();
    match check {
        Ok(version) => {
            let mut line = "  ".to_owned();
            line.append(tool);
            line.append(": OK (");
            line.append(version.as_str());
            line.append(")");
            let ghost first = line@;
            lines.push(line);
            assert(text::texts(lines@) =~= seq![first]);
            match pinned::pinned_version(tool) {
                Some(p) => {
                    if !text::contains(version.as_str(), p) {
                        let mut line = "    warning: stack was tested against ".to_owned();
                        line.append(tool);
                        line.append(" ");
                        line.append(p);
                        line.append("; installed version may behave differently");
                        let ghost second = line@;
                        lines.push(line);
                        assert(text::texts(lines@) =~= seq![first].push(second));
                    }
                },
                None => {},
            }
            ToolCheck { lines, ok: true, install: None }
        },
        Err(e) => {
            let mut line = "  ".to_owned();
            line.append(tool);
            line.append(": MISSING (");
            line.append(e.as_str());
            line.append(")");
            let ghost first = line@;
            lines.push(line);
            assert(text::texts(lines@) =~= seq![first]);
            let install = if fix {
                pinned::pinned_version(tool)
            } else {
                None
            };
            ToolCheck { lines, ok: false, install }
        },
    }
}

/// What is shown of an installation: that it begins, and how it ended.
pub fn install_line(tool: &str, version: &str, outcome: Option<Result<(), &str>>) -> (r: String)
    ensures
        r@ == match outcome {
            None => "  installing "@ + tool@ + "@"@ + version@ + "..."@,
            Some(Ok(_)) => "  "@ + tool@ + ": installed"@,
            Some(Err(e)) => "  "@ + tool@ + ": install failed: "@ + e@,
        },
{
    match outcome {
        None => {
            let mut r = "  installing ".to_owned();
            r.append(tool);
            r.append("@");
            r.append(version);
            r.append("...");
            r
        },
        Some(Ok(_)) => {
            let mut r = "  ".to_owned();
            r.append(tool);
            r.append(": installed");
            r
        },
        Some(Err(e)) => {
            let mut r = "  ".to_owned();
            r.append(tool);
            r.append(": install failed: ");
            r.append(e);
            r
        },
    }
}

/// What is shown of a declared tool.
pub fn declared_tool_line(name: &str, outcome: Result<&str, &str>) -> (r: String)
    ensures
        r@ == match outcome {
            Ok(path) => "  tool."@ + name@ + ": OK ("@ + path@ + ")"@,
            Err(e) => "  tool."@ + name@ + ": MISSING ("@ + e@ + ")"@,
        },
{
    let mut r = "  tool.".to_owned();
    r.append(name);
    match outcome {
        Ok(path) => {
            r.append(": OK (");
            r.append(path);
        },
        Err(e) => {
            r.append(": MISSING (");
            r.append(e);
        },
    }
    r.append(")");
    r
}

/// The languages that are declared with a path of the user's own, and the paths.
pub open spec fn own_paths(s: Seq<(Seq<char>, manifest::Language)>) -> Seq<(Seq<char>, Seq<char>)>
    decreases s.len(),
{
    if s.len() == 0 {
        Seq::empty()
    } else {
        let front = own_paths(s.drop_last());
        match s.last().1.path_text() {
            Some(p) => front.push((s.last().0, p)),
            None => front,
        }
    }
}

/// The languages that are declared with a path of the user's own, and the paths.
pub fn byo_languages(manifest: &Manifest) -> (r: Vec<(String, String)>)
    ensures
        crate::projects::pair_texts(r@) == own_paths(manifest.language.pairs()),
{
    let mut r: Vec<(String, String)> = Vec::new();
    let ghost declared = manifest.language.pairs();
    let n: usize = manifest.language.len();
    let mut i: usize = 0;
    assert(crate::projects::pair_texts(r@) =~= own_paths(declared.take(0)));
    while i < n
        invariant
            i <= n,
            n == declared.len(),
            declared == manifest.language.pairs(),
            crate::projects::pair_texts(r@) == own_paths(declared.take(i as int)),
        decreases n - i,
    {
        assert(declared.take(i + 1).drop_last() =~= declared.take(i as int));
        match manifest.language.value_at(i).path() {
            Some(p) => {
                let ghost before = r@;
                let name = manifest.language.key_at(i);
                r.push((name.clone(), p.to_owned()));
                assert(crate::projects::pair_texts(r@) =~= crate::projects::pair_texts(
                    before,
                ).push((name@, p@)));
            },
            None => {},
        }
        i += 1;
    }
    assert(declared.take(i as int) =~= declared);
    r
}

/// What is shown of a language with a path of the user's own.
pub fn byo_language_line(name: &str, path: &str, is_file: bool) -> (r: String)
    ensures
        r@ == "  language."@ + name@ + (if is_file {
            ": OK ("@
        } else {
            ": MISSING ("@
        }) + path@ + ")"@,
{
    let mut r = "  language.".to_owned();
    r.append(name);
    if is_file {
        r.append(": OK (");
    } else {
        r.append(": MISSING (");
    }
    r.append(path);
    r.append(")");
    r
}

/// What is shown of a project's language.
pub fn project_language_line(name: &str, binary: Option<&str>) -> (r: String)
    ensures
        r@ == match binary {
            Some(b) => "  language."@ + name@ + ": OK ("@ + b@ + ")"@,
            None => "  language."@ + name@
                + ": not installed yet (will be installed on `stack up`)"@,
        },
{
    let mut r = "  language.".to_owned();
    r.append(name);
    match binary {
        Some(b) => {
            r.append(": OK (");
            r.append(b);
            r.append(")");
        },
        None => {
            r.append(": not installed yet (will be installed on `stack up`)");
        },
    }
    r
}

// ------------------------------------------------------------------------------------------
// Checking a project

/// What a check shows, and whether it passes.
#[derive(Debug)]
pub struct Verdict {
    pub lines: Vec<String>,
    pub ok: bool,
}

impl Verdict {
    /// The verdict is this.
    pub open spec fn is(self, v: (Seq<Seq<char>>, bool)) -> bool {
        text::texts(self.lines@) == v.0 && self.ok == v.1
    }
}

/// A verdict of one line.
fn verdict(line: String, ok: bool) -> (r: Verdict)
    ensures
        r.is((seq![line@], ok)),
{
    let ghost shown = line@;
    let mut lines: Vec<String> = Vec::new();
    lines.push(line);
    assert(text::texts(lines@) =~= seq![shown]);
    Verdict { lines, ok }
}

/// The port on which somebody has to listen for an external service: the declared or conventional
/// one, else the registered one.
pub open spec fn external_service_port(
    engine: Seq<char>,
    svc: Service,
    registry: Registry,
    sources: Sources,
) -> Option<u16> {
    match svc.port_outcome(engine, sources) {
        Ok(Some(p)) => Some(p as u16),
        _ => match services::registered_external_port(engine, svc, registry) {
            Some(p) => Some(p),
            None => manifest::usual_port(engine),
        },
    }
}

/// The port that has to be tried before a service can be judged.
pub open spec fn service_port_to_try(
    engine: Seq<char>,
    svc: Service,
    registry: Registry,
    sources: Sources,
) -> Option<u16> {
    if svc.is_valid() && services::is_external(engine, svc, registry) {
        external_service_port(engine, svc, registry, sources)
    } else {
        None
    }
}

/// The port that has to be tried before a service can be judged.
pub fn doctor_service_port(
    engine: &str,
    svc: &Service,
    registry: &Registry,
    sources: &Sources,
) -> (r: Option<u16>)
    ensures
        r == service_port_to_try(engine@, *svc, *registry, *sources),
{
    if svc.validate(engine).is_err() {
        return None;
    }
    let registered = services::external_port(engine, svc, registry);
    if !(svc.external || registered.is_some()) {
        return None;
    }
    match svc.resolve_port(engine, sources) {
        Ok(Some(p)) => Some(p),
        _ => match registered {
            Some(p) => Some(p),
            None => manifest::conventional_port(engine),
        },
    }
}

/// What is shown of a service, and whether it passes. Nothing is started: an external service
/// needs somebody who listens, and any other needs a path and a port that resolves.
pub open spec fn service_verdict(
    engine: Seq<char>,
    svc: Service,
    registry: Registry,
    sources: Sources,
    listening: bool,
) -> (Seq<Seq<char>>, bool) {
    let head = "  service."@ + engine;
    if !svc.is_valid() {
        (
            seq![
                head + ": INVALID ("@ + (services::ServiceFault::ExternalStarted).report(
                    engine,
                    svc.version@,
                ) + ")"@,
            ],
            false,
        )
    } else if services::is_external(engine, svc, registry) {
        match external_service_port(engine, svc, registry, sources) {
            Some(port) => if listening {
                (
                    seq![
                        head + ": OK (external, listening on "@ + text::decimal(port as nat)
                            + ")"@,
                    ],
                    true,
                )
            } else {
                (
                    seq![
                        head + ": nothing listening on "@ + text::decimal(port as nat)
                            + " (marked external)"@,
                    ],
                    false,
                )
            },
            None => (
                seq![
                    head + ": external, but no port resolvable — set [service."@ + engine
                        + "].port"@,
                ],
                false,
            ),
        }
    } else {
        let has_path = services::install_path(engine, svc, registry) is Some;
        let first = if has_path {
            head + ": OK (managed)"@
        } else {
            head + ": no path registered — run `stack register service "@ + engine + " "@
                + svc.version@ + " <path>`"@
        };
        match svc.port_outcome(engine, sources) {
            Ok(_) => (seq![first], has_path),
            Err(e) => (
                seq![first, head + ": port placeholder unresolved ("@ + e.full_report() + ")"@],
                false,
            ),
        }
    }
}

/// The check of a service, when it is known whether somebody listens on the port that
/// `doctor_service_port` gives.
pub fn doctor_service(
    engine: &str,
    svc: &Service,
    registry: &Registry,
    sources: &Sources,
    listening: bool,
) -> (r: Verdict)
    ensures
        r.is(service_verdict(engine@, *svc, *registry, *sources, listening)),
{
    let mut head = "  service.".to_owned();
    head.append(engine);
    match svc.validate(engine) {
        Err(_) => {
            let mut line = head;
            line.append(": INVALID (");
            line.append(
                services::ServiceError::ExternalStarted.message(
                    engine,
                    svc.version.as_str(),
                ).as_str(),
            );
            line.append(")");
            return verdict(line, false);
        },
        Ok(_) => {},
    }
    let registered = services::external_port(engine, svc, registry);
    if svc.external || registered.is_some() {
        return match doctor_service_port(engine, svc, registry, sources) {
            Some(port) => if listening {
                let mut line = head;
                line.append(": OK (external, listening on ");
                line.append(text::decimal_text(port as u64).as_str());
                line.append(")");
                verdict(line, true)
            } else {
                let mut line = head;
                line.append(": nothing listening on ");
                line.append(text::decimal_text(port as u64).as_str());
                line.append(" (marked external)");
                verdict(line, false)
            },
            None => {
                let mut line = head;
                line.append(": external, but no port resolvable — set [service.");
                line.append(engine);
                line.append("].port");
                verdict(line, false)
            },
        };
    }
    let has_path = svc.path.is_some() || registry.lookup_path(
        "service",
        engine,
        svc.version.as_str(),
    ).is_some();
    let mut line = head.clone();
    if has_path {
        line.append(": OK (managed)");
    } else {
        line.append(": no path registered — run `stack register service ");
        line.append(engine);
        line.append(" ");
        line.append(svc.version.as_str());
        line.append(" <path>`");
    }
    let ghost first = line@;
    let mut r = verdict(line, has_path);
    match svc.resolve_port(engine, sources) {
        Ok(_) => {},
        Err(e) => {
            let mut line = head;
            line.append(": port placeholder unresolved (");
            line.append(e.full_message().as_str());
            line.append(")");
            let ghost second = line@;
            let ghost before = r.lines@;
            r.lines.push(line);
            assert(text::texts(r.lines@) =~= text::texts(before).push(second));
            assert(text::texts(r.lines@) =~= seq![first, second]);
            r.ok = false;
        },
    }
    r
}

/// The port that has to be tried before a run can be judged.
pub open spec fn run_port_to_try(run: Run, has_php: bool, sources: Sources) -> Option<u16> {
    if run.fault(has_php) is Some {
        None
    } else {
        match run.port_outcome(sources) {
            Ok(Some(p)) => Some(p as u16),
            _ => None,
        }
    }
}

/// The port that has to be tried before a run can be judged.
pub fn doctor_run_port(run: &Run, has_php: bool, sources: &Sources) -> (r: Option<u16>)
    ensures
        r == run_port_to_try(*run, has_php, *sources),
{
    match run.validate(has_php) {
        Err(_) => None,
        Ok(_) => match run.resolve_port(sources) {
            Ok(p) => p,
            Err(_) => None,
        },
    }
}

/// A list of names without one of them.
pub open spec fn without(names: Seq<Seq<char>>, name: Seq<char>) -> Seq<Seq<char>> {
    names.filter(|n: Seq<char>| n != name)
}

/// What is said of a run's command, where names in it have no value. The port counts as known.
pub open spec fn command_complaint(run: Run, sources: Sources) -> Option<Seq<char>> {
    match run.command {
        Some(c) => {
            let missing = placeholder::open_names(
                without(placeholder::names(c@), "port"@),
                Map::empty(),
                sources.env@,
            );
            if missing.len() > 0 && sources.answers is None {
                Some(
                    "  [run]: command has unresolved placeholder(s): "@ + text::joined(
                        missing,
                        ", "@,
                    ),
                )
            } else {
                None
            }
        },
        None => None,
    }
}

/// What is shown of a run, and whether it passes. Nothing is started: an external run needs
/// somebody who listens, and any other needs a free port and a command that can be filled in.
pub open spec fn run_verdict(run: Run, has_php: bool, sources: Sources, listening: bool) -> (
    Seq<Seq<char>>,
    bool,
) {
    match run.fault(has_php) {
        Some(e) => (seq!["  [run]: INVALID ("@ + e.report() + ")"@], false),
        None => if run.external {
            match run.port_outcome(sources) {
                Ok(Some(port)) => if listening {
                    (
                        seq![
                            "  [run]: OK (external, listening on "@ + text::decimal(port) + ")"@,
                        ],
                        true,
                    )
                } else {
                    (
                        seq![
                            "  [run]: nothing listening on "@ + text::decimal(port)
                                + " (marked external)"@,
                        ],
                        false,
                    )
                },
                Ok(None) => (Seq::empty(), true),
                Err(e) => (
                    seq!["  [run]: port unresolved ("@ + e.full_report() + ")"@],
                    false,
                ),
            }
        } else {
            let port_lines = match run.port_outcome(sources) {
                Ok(Some(port)) => if listening {
                    seq!["  [run]: port "@ + text::decimal(port) + " already in use"@]
                } else {
                    Seq::empty()
                },
                Ok(None) => Seq::empty(),
                Err(e) => seq!["  [run]: port unresolved ("@ + e.full_report() + ")"@],
            };
            let command_lines = match command_complaint(run, sources) {
                Some(c) => seq![c],
                None => Seq::empty(),
            };
            (port_lines + command_lines, port_lines.len() == 0 && command_lines.len() == 0)
        },
    }
}

/// Leaving out the reserved name first, or counting it as known: both leave the same names open.
proof fn reserved_name_is_known(
    names: Seq<Seq<char>>,
    reserved: Map<Seq<char>, String>,
    env: Map<Seq<char>, String>,
    name: Seq<char>,
)
    requires
        forall|k: Seq<char>| #[trigger] reserved.contains_key(k) == (k == name),
    ensures
        placeholder::open_names(names, reserved, env) == placeholder::open_names(
            without(names, name),
            Map::empty(),
            env,
        ),
    decreases names.len(),
{
    reveal(Seq::filter);
    if names.len() > 0 {
        let front = names.drop_last();
        let last = names.last();
        let rest = without(front, name);
        reserved_name_is_known(front, reserved, env, name);
        assert(reserved.contains_key(last) == (last == name));
        if last != name {
            assert(without(names, name) == rest.push(last));
            assert(rest.push(last).drop_last() =~= rest);
        }
    }
}

/// What is said of a run's command, where names in it have no value.
fn doctor_command(run: &Run, sources: &Sources) -> (r: Option<String>)
    ensures
        text::opt_text(r) == command_complaint(*run, *sources),
{
    match &run.command {
        None => None,
        Some(command) => {
            let mut reserved: OrderedMap<String> = OrderedMap::new();
            reserved.insert("port".to_owned(), "0".to_owned());
            proof {
                reserved_name_is_known(
                    placeholder::names(command@),
                    reserved@,
                    sources.env@,
                    "port"@,
                );
            }
            match placeholder::resolve(command.as_str(), &reserved, sources) {
                Ok(_) => None,
                Err(missing) => {
                    let mut line =
                        "  [run]: command has unresolved placeholder(s): ".to_owned();
                    line.append(text::join(&missing, ", ").as_str());
                    Some(line)
                },
            }
        },
    }
}

/// The check of a run, when it is known whether somebody listens on the port that
/// `doctor_run_port` gives.
pub fn doctor_run(run: &Run, has_php: bool, sources: &Sources, listening: bool) -> (r: Verdict)
    ensures
        r.is(run_verdict(*run, has_php, *sources, listening)),
{
    match run.validate(has_php) {
        Err(e) => {
            let mut line = "  [run]: INVALID (".to_owned();
            line.append(e.message().as_str());
            line.append(")");
            return verdict(line, false);
        },
        Ok(_) => {},
    }
    let mut lines: Vec<String> = Vec::new();
    assert(text::texts(lines@) =~= Seq::empty());
    if run.external {
        return match run.resolve_port(sources) {
            Ok(Some(port)) => if listening {
                let mut line = "  [run]: OK (external, listening on ".to_owned();
                line.append(text::decimal_text(port as u64).as_str());
                line.append(")");
                verdict(line, true)
            } else {
                let mut line = "  [run]: nothing listening on ".to_owned();
                line.append(text::decimal_text(port as u64).as_str());
                line.append(" (marked external)");
                verdict(line, false)
            },
            Ok(None) => Verdict { lines, ok: true },
            Err(e) => {
                let mut line = "  [run]: port unresolved (".to_owned();
                line.append(e.full_message().as_str());
                line.append(")");
                verdict(line, false)
            },
        };
    }
    let mut ok = true;
    let ghost mut port_lines: Seq<Seq<char>> = Seq::empty();
    match run.resolve_port(sources) {
        Ok(Some(port)) => {
            if listening {
                let mut line = "  [run]: port ".to_owned();
                line.append(text::decimal_text(port as u64).as_str());
                line.append(" already in use");
                proof {
                    port_lines = seq![line@];
                }
                lines.push(line);
                ok = false;
            }
        },
        Ok(None) => {},
        Err(e) => {
            let mut line = "  [run]: port unresolved (".to_owned();
            line.append(e.full_message().as_str());
            line.append(")");
            proof {
                port_lines = seq![line@];
            }
            lines.push(line);
            ok = false;
        },
    }
    assert(text::texts(lines@) =~= port_lines);
    match doctor_command(run, sources) {
        Some(line) => {
            let ghost before = lines@;
            let ghost added = line@;
            lines.push(line);
            assert(text::texts(lines@) =~= text::texts(before).push(added));
            assert(text::texts(lines@) =~= port_lines + seq![added]);
            ok = false;
        },
        None => {
            assert(text::texts(lines@) =~= port_lines + Seq::<Seq<char>>::empty());
        },
    }
    Verdict { lines, ok }
}

/// A round of checks passes exactly where every check does.
pub fn all_passed(checks: &Vec<bool>) -> (r: bool)
    ensures
        r == (forall|i: int| 0 <= i < checks@.len() ==> #[trigger] checks@[i]),
{
    let mut i: usize = 0;
    while i < checks.len()
        invariant
            i <= checks@.len(),
            forall|j: int| 0 <= j < i ==> #[trigger] checks@[j],
        decreases checks@.len() - i,
    {
        if !checks[i] {
            assert(!checks@[i as int]);
            return false;
        }
        i += 1;
    }
    true
}

// ------------------------------------------------------------------------------------------
// Activating a project in the shell

/// The mark that the command prompt shows in an active project.
pub open spec fn prompt_mark(accent: Rgb) -> Seq<char> {
    "\x1b[38;2;"@ + shell::rgb_text(accent) + "m[stack]\x1b[0m "@
}

/// The line that shows in the prompt that a project is active. The command prompt's own text stays
/// behind the mark, and the mark is never put twice.
pub open spec fn indicator(shell: Seq<char>, accent: Rgb, prompt: Option<Seq<char>>) -> Option<
    Seq<char>,
> {
    if shell::is_pwsh(shell) {
        Some("$global:__StackActive = $true"@)
    } else if shell == "cmd"@ {
        let current = match prompt {
            Some(p) => p,
            None => "$P$G"@,
        };
        Some(
            "SET PROMPT="@ + prompt_mark(accent) + text::without_prefix(
                current,
                prompt_mark(accent),
            ),
        )
    } else {
        None
    }
}

/// The line that shows in the prompt that a project is active, where `prompt` is the current one.
pub fn active_indicator(shell_name: &str, accent: Rgb, prompt: Option<&str>) -> (r: Option<String>)
    ensures
        text::opt_text(r) == indicator(shell_name@, accent, text::opt_str(prompt)),
{
    if shell::pwsh(shell_name) {
        return Some("$global:__StackActive = $true".to_owned());
    }
    if !text::same(shell_name, "cmd") {
        return None;
    }
    let mut mark = "\x1b[38;2;".to_owned();
    mark.append(shell::rgb(accent).as_str());
    mark.append("m[stack]\x1b[0m ");
    let current = match prompt {
        Some(p) => p,
        None => "$P$G",
    };
    let base = text::strip_prefix(current, mark.as_str());
    let mut r = "SET PROMPT=".to_owned();
    r.append(mark.as_str());
    r.append(base.as_str());
    Some(r)
}

/// Activating again leaves the command prompt as it is: the mark is not put a second time.
pub proof fn marking_the_prompt_twice(accent: Rgb, prompt: Option<Seq<char>>)
    ensures
        ({
            let current = match prompt {
                Some(p) => p,
                None => "$P$G"@,
            };
            let base = text::without_prefix(current, prompt_mark(accent));
            let marked = prompt_mark(accent) + base;
            text::without_prefix(marked, prompt_mark(accent)) == base
        }),
{
    let current = match prompt {
        Some(p) => p,
        None => "$P$G"@,
    };
    let mark = prompt_mark(accent);
    let base = text::without_prefix(current, mark);
    let marked = mark + base;
    assert(marked.take(mark.len() as int) =~= mark);
    assert(marked.skip(mark.len() as int) =~= base);
}

/// The line that puts directories in front of the search path. The command prompt gets the current
/// path spelled out, because it would not expand it where the line is run.
pub fn path_line(shell_name: &str, joined: &str, current_path: &str) -> (r: Option<String>)
    ensures
        text::opt_text(r) == (if shell::is_pwsh(shell_name@) {
            Some("$env:PATH = \""@ + joined@ + ";\" + $env:PATH"@)
        } else if shell_name@ == "cmd"@ {
            Some("SET PATH="@ + joined@ + ";"@ + current_path@)
        } else {
            None
        }),
{
    if shell::pwsh(shell_name) {
        let mut r = "$env:PATH = \"".to_owned();
        r.append(joined);
        r.append(";\" + $env:PATH");
        Some(r)
    } else if text::same(shell_name, "cmd") {
        let mut r = "SET PATH=".to_owned();
        r.append(joined);
        r.append(";");
        r.append(current_path);
        Some(r)
    } else {
        None
    }
}

/// What stands in for composer in an active project.
#[derive(Debug)]
pub enum Shadow {
    /// A line for the shell.
    Line(String),
    /// What `composer.bat` is to hold.
    BatchFile(String),
    /// `composer.bat` is to go.
    Clear,
    /// Nothing is done.
    Leave,
}

/// A path between single quotes of PowerShell, where a quote is written twice.
pub open spec fn single_quoted(path: Seq<char>) -> Seq<char> {
    text::replaced(path, "'"@, "''"@)
}

/// What stands in for composer in an active project: its own version, run by its own PHP, where it
/// has both. `found` is the PHP binary and composer's archive.
pub fn composer_shadow(shell_name: &str, found: Option<(&str, &str)>) -> (r: Shadow)
    ensures
        match (found, r) {
            (Some((php, phar)), Shadow::Line(s)) => shell::is_pwsh(shell_name@) && s@
                == "function global:composer { & '"@ + single_quoted(php@) + "' '"@
                + single_quoted(phar@) + "' @args }"@,
            (Some((php, phar)), Shadow::BatchFile(s)) => shell_name@ == "cmd"@ && s@
                == "@echo off\r\n\""@ + php@ + "\" \""@ + phar@ + "\" %*\r\n"@,
            (Some(_), Shadow::Leave) => !shell::is_pwsh(shell_name@) && shell_name@ != "cmd"@,
            (None, Shadow::Clear) => shell_name@ == "cmd"@,
            (None, Shadow::Leave) => shell_name@ != "cmd"@,
            _ => false,
        },
{
    proof {
        reveal_strlit("pwsh");
        reveal_strlit("powershell");
        reveal_strlit("cmd");
        reveal_strlit("'");
        assert("pwsh"@.len() == 4 && "powershell"@.len() == 10 && "cmd"@.len() == 3);
    }
    match found {
        Some((php, phar)) => if shell::pwsh(shell_name) {
            let mut s = "function global:composer { & '".to_owned();
            s.append(text::replace(php, "'", "''").as_str());
            s.append("' '");
            s.append(text::replace(phar, "'", "''").as_str());
            s.append("' @args }");
            Shadow::Line(s)
        } else if text::same(shell_name, "cmd") {
            let mut s = "@echo off\r\n\"".to_owned();
            s.append(php);
            s.append("\" \"");
            s.append(phar);
            s.append("\" %*\r\n");
            Shadow::BatchFile(s)
        } else {
            Shadow::Leave
        },
        None => if text::same(shell_name, "cmd") {
            Shadow::Clear
        } else {
            Shadow::Leave
        },
    }
}

// ------------------------------------------------------------------------------------------
// Variables of an environment file

/// A character as it is written between double quotes of PowerShell.
pub open spec fn escaped_char(c: char) -> Seq<char> {
    if c == '`' || c == '$' || c == '"' {
        seq!['`', c]
    } else {
        seq![c]
    }
}

/// A text as it is written between double quotes of PowerShell: a backtick goes in front of every
/// backtick, dollar sign and quote.
pub open spec fn escaped(s: Seq<char>) -> Seq<char>
    decreases s.len(),
{
    if s.len() == 0 {
        Seq::empty()
    } else {
        escaped_char(s[0]) + escaped(s.skip(1))
    }
}

/// What PowerShell reads between double quotes: a backtick stands for the character behind it.
pub open spec fn unescaped(s: Seq<char>) -> Seq<char>
    decreases s.len(),
{
    if s.len() == 0 {
        Seq::empty()
    } else if s[0] == '`' && s.len() > 1 {
        seq![s[1]] + unescaped(s.skip(2))
    } else {
        seq![s[0]] + unescaped(s.skip(1))
    }
}

/// A text as it is written between double quotes of PowerShell.
pub fn escape_pwsh_double_quoted(value: &str) -> (r: String)
    ensures
        r@ == escaped(value@),
{
    let v = text::chars_of(value);
    let mut r = String::new();
    let mut i: usize = 0;
    assert(v@.skip(0) =~= v@);
    assert(r@ + escaped(v@) =~= escaped(v@));
    while i < v.len()
        invariant
            i <= v@.len(),
            r@ + escaped(v@.skip(i as int)) == escaped(v@),
        decreases v@.len() - i,
    {
        let c = v[i];
        let ghost before = r@;
        let ghost rest = v@.skip(i as int);
        if c == '`' || c == '$' || c == '"' {
            r.push('`');
        }
        r.push(c);
        proof {
            assert(rest.skip(1) =~= v@.skip(i + 1));
            assert(rest[0] == c);
            assert(r@ =~= before + escaped_char(c));
            assert(before + (escaped_char(c) + escaped(v@.skip(i + 1))) =~= (before + escaped_char(
                c,
            )) + escaped(v@.skip(i + 1)));
        }
        i += 1;
    }
    assert(v@.skip(i as int) =~= Seq::empty());
    assert(r@ + escaped(v@.skip(i as int)) =~= r@);
    r
}

/// What is read of an escaped text is the text itself, so that no value can end its quotes early or
/// be expanded.
pub proof fn escaping_is_undone_by_reading(s: Seq<char>)
    ensures
        unescaped(escaped(s)) == s,
    decreases s.len(),
{
    if s.len() > 0 {
        let rest = s.skip(1);
        let tail = escaped(rest);
        let whole = escaped(s);
        escaping_is_undone_by_reading(rest);
        if escaped_char(s[0]).len() == 2 {
            assert(whole[0] == '`' && whole[1] == s[0]);
            assert(whole.skip(2) =~= tail);
        } else {
            assert(whole[0] == s[0]);
            assert(whole.skip(1) =~= tail);
        }
        assert(s =~= seq![s[0]] + rest);
    }
}

/// The line that sets a variable in PowerShell.
pub open spec fn env_line(key: Seq<char>, value: Seq<char>) -> Seq<char> {
    "$env:"@ + key + " = \""@ + escaped(value) + "\""@
}

/// What `dotenvy::from_read_iter`, read to its end, makes of an environment file where the process
/// has no variables: for each declaration, in order, the variable and its value, or why it cannot
/// be read.
pub uninterp spec fn env_read(contents: Seq<u8>) -> Seq<
    Result<(Seq<char>, Seq<char>), Seq<char>>,
>;

/// The characters of a list of declarations.
pub open spec fn item_texts(items: Seq<Result<(String, String), String>>) -> Seq<
    Result<(Seq<char>, Seq<char>), Seq<char>>,
> {
    items.map_values(
        |item: Result<(String, String), String>|
            match item {
                Ok(pair) => Ok((pair.0@, pair.1@)),
                Err(why) => Err(why@),
            },
    )
}

/// Which variables are declared, and which declarations cannot be read, and why.
pub open spec fn declared(items: Seq<Result<(Seq<char>, Seq<char>), Seq<char>>>) -> Seq<
    Result<Seq<char>, Seq<char>>,
> {
    items.map_values(
        |item: Result<(Seq<char>, Seq<char>), Seq<char>>|
            match item {
                Ok(pair) => Ok(pair.0),
                Err(why) => Err(why),
            },
    )
}

/// These are the declarations of an environment file. A value that holds no "$" is the file's own;
/// another may be filled in from the variables of the process.
pub open spec fn is_read(contents: Seq<u8>, items: Seq<Result<(String, String), String>>) -> bool {
    &&& declared(item_texts(items)) == declared(env_read(contents))
    &&& !contents.contains(36u8) ==> item_texts(items) == env_read(contents)
}

/// `dotenvy::from_read_iter`, read to its end: which variables a file declares, which declarations
/// cannot be read and why depends on its contents alone. So do the values where the contents hold
/// no "$", which is what a reference to another variable begins with; of other values nothing is
/// stated.
#[verifier::external_body]
fn read_env(contents: &Vec<u8>) -> (r: Vec<Result<(String, String), String>>)
    ensures
        declared(item_texts(r@)) == declared(env_read(contents@)),
        !contents@.contains(36u8) ==> item_texts(r@) == env_read(contents@),
{
    dotenvy::from_read_iter(contents.as_slice()).map(|item| item.map_err(|e| e.to_string())).collect()
}

/// What came of an environment file: the lines that set its variables in PowerShell, and what is
/// said of them, or why the rest could not be read.
#[derive(Debug)]
pub struct LoadedEnv {
    pub lines: Vec<String>,
    pub end: Result<String, String>,
}

/// The names of the variables that are declared, as far as they can be read.
pub open spec fn env_names(items: Seq<Result<(String, String), String>>) -> Seq<Seq<char>> {
    items.map_values(|item: Result<(String, String), String>| item->Ok_0.0@)
}

/// What is said of the variables of an environment file.
pub open spec fn env_summary(path: Seq<char>, names: Seq<Seq<char>>) -> Seq<char> {
    if names.len() == 0 {
        "loaded: (no variables found in "@ + path + ")"@
    } else {
        "loaded: "@ + text::joined(names, ", "@)
    }
}

/// `r` is what comes of an environment file with these declarations: every variable up to the
/// first declaration that cannot be read is set.
pub open spec fn is_loaded(
    path: Seq<char>,
    items: Seq<Result<(String, String), String>>,
    r: LoadedEnv,
) -> bool {
    let n = r.lines@.len();
    &&& n <= items.len()
    &&& forall|i: int| 0 <= i < n ==> #[trigger] items[i] is Ok
    &&& forall|i: int|
        0 <= i < n ==> (#[trigger] r.lines@[i])@ == env_line(
            items[i]->Ok_0.0@,
            items[i]->Ok_0.1@,
        )
    &&& if n == items.len() {
        r.end matches Ok(summary) && summary@ == env_summary(path, env_names(items))
    } else {
        &&& items[n as int] matches Err(why)
        &&& r.end matches Err(e) && e@ == "failed to parse "@ + path + ": "@ + why@
    }
}

/// What comes of an environment file with these declarations.
pub fn load_items(path: &str, items: &Vec<Result<(String, String), String>>) -> (r: LoadedEnv)
    ensures
        is_loaded(path@, items@, r),
{
    let mut lines: Vec<String> = Vec::new();
    let mut names: Vec<String> = Vec::new();
    let mut i: usize = 0;
    while i < items.len()
        invariant
            i <= items@.len(),
            lines@.len() == i,
            forall|j: int| 0 <= j < i ==> #[trigger] items@[j] is Ok,
            forall|j: int|
                0 <= j < i ==> (#[trigger] lines@[j])@ == env_line(
                    items@[j]->Ok_0.0@,
                    items@[j]->Ok_0.1@,
                ),
            text::texts(names@) == env_names(items@.take(i as int)),
        decreases items@.len() - i,
    {
        match &items[i] {
            Err(why) => {
                let mut e = env_file_failed(path, true);
                e.append(": ");
                e.append(why.as_str());
                return LoadedEnv { lines, end: Err(e) };
            },
            Ok(pair) => {
                let mut line = "$env:".to_owned();
                line.append(pair.0.as_str());
                line.append(" = \"");
                line.append(escape_pwsh_double_quoted(pair.1.as_str()).as_str());
                line.append("\"");
                let ghost named = names@;
                lines.push(line);
                names.push(pair.0.clone());
                assert(text::texts(names@) =~= text::texts(named).push(pair.0@));
                assert(env_names(items@.take(i + 1)) =~= env_names(items@.take(i as int)).push(
                    pair.0@,
                ));
            },
        }
        i += 1;
    }
    assert(items@.take(i as int) =~= items@);
    assert(text::texts(names@).len() == names@.len());
    let summary = if names.len() == 0 {
        let mut s = "loaded: (no variables found in ".to_owned();
        s.append(path);
        s.append(")");
        s
    } else {
        let mut s = "loaded: ".to_owned();
        s.append(text::join(&names, ", ").as_str());
        s
    };
    LoadedEnv { lines, end: Ok(summary) }
}

/// What comes of an environment file with these contents.
pub fn load_env(path: &str, contents: &Vec<u8>) -> (r: LoadedEnv)
    ensures
        exists|items: Seq<Result<(String, String), String>>| #[trigger]
            is_loaded(path@, items, r) && is_read(contents@, items),
{
    let items = read_env(contents);
    let r = load_items(path, &items);
    assert(is_loaded(path@, items@, r));
    r
}

/// The environment file that is read where none is named.
pub fn env_file(path: Option<String>) -> (r: String)
    ensures
        r@ == match path {
            Some(p) => p@,
            None => ".env"@,
        },
{
    match path {
        Some(p) => p,
        None => ".env".to_owned(),
    }
}

/// What is reported where an environment file cannot be opened, or not be parsed.
pub fn env_file_failed(path: &str, opened: bool) -> (r: String)
    ensures
        r@ == (if opened {
            "failed to parse "@
        } else {
            "failed to open "@
        }) + path@,
{
    let mut r = if opened {
        "failed to parse ".to_owned()
    } else {
        "failed to open ".to_owned()
    };
    r.append(path);
    r
}

} // verus!

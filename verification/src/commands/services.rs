//! Bringing up the services of a project: connecting to external ones, sharing those that run
//! already, and starting the others.

use crate::location;
use crate::location::JoinedPath;
use crate::manifest;
use crate::manifest::{PortError, Service};
use crate::ordered_map::OrderedMap;
use crate::output;
use crate::output::Line;
use crate::placeholder;
use crate::placeholder::Sources;
use crate::process;
use crate::registry::Registry;
use crate::state::State;
use crate::text;
use crate::words;
use vstd::prelude::*;

verus! {

/// The key that a service is tracked by.
pub open spec fn service_key(engine: Seq<char>, version: Seq<char>) -> Seq<char> {
    engine + "@"@ + version
}

/// The key that a service is tracked by: "engine@version".
pub fn state_key(engine: &str, version: &str) -> (r: String)
    ensures
        r@ == service_key(engine@, version@),
{
    let mut r = engine.to_owned();
    r.append("@");
    r.append(version);
    r
}

/// A path with every backslash turned into a slash.
pub open spec fn with_slashes(path: Seq<char>) -> Seq<char> {
    path.map_values(
        |c: char|
            if c == '\\' {
                '/'
            } else {
                c
            },
    )
}

/// A path that survives being split into words: the split takes a backslash for an escape, and
/// Windows accepts a slash in its place.
pub fn shell_safe_path(path: &str) -> (r: String)
    ensures
        r@ == with_slashes(path@),
{
    let v = text::chars_of(path);
    let mut r = String::new();
    let mut i: usize = 0;
    assert(r@ =~= with_slashes(v@.take(0)));
    while i < v.len()
        invariant
            i <= v@.len(),
            r@ == with_slashes(v@.take(i as int)),
        decreases v@.len() - i,
    {
        if v[i] == '\\' {
            r.push('/');
        } else {
            r.push(v[i]);
        }
        assert(r@ =~= with_slashes(v@.take(i + 1)));
        i += 1;
    }
    assert(v@.take(i as int) =~= v@);
    r
}

/// What is wrong with bringing up a service.
#[derive(Debug)]
pub enum ServiceError {
    /// It is external and says how to start it.
    ExternalStarted,
    /// Its port does not resolve.
    Port(PortError),
    /// It is external, and no port is known.
    NoExternalPort,
    /// It is external, and nobody listens on its port.
    NotListening(u16),
    /// It is to be started, and no port is known.
    PortRequired,
    /// It is to be started, and something else listens on its port.
    PortTaken(u16),
    /// Nothing says where it is installed.
    NoPath,
    /// Nothing says how to start it.
    CommandRequired,
    /// The home directory is not known.
    NoHome,
    /// Names in its command have no value.
    Missing(Vec<String>),
}

/// What a `ServiceError` says.
pub enum ServiceFault {
    ExternalStarted,
    Port(manifest::PortFault),
    NoExternalPort,
    NotListening(u16),
    PortRequired,
    PortTaken(u16),
    NoPath,
    CommandRequired,
    NoHome,
    Missing(Seq<Seq<char>>),
}

impl View for ServiceError {
    type V = ServiceFault;

    open spec fn view(&self) -> ServiceFault {
        match *self {
            ServiceError::ExternalStarted => ServiceFault::ExternalStarted,
            ServiceError::Port(e) => ServiceFault::Port(e@),
            ServiceError::NoExternalPort => ServiceFault::NoExternalPort,
            ServiceError::NotListening(p) => ServiceFault::NotListening(p),
            ServiceError::PortRequired => ServiceFault::PortRequired,
            ServiceError::PortTaken(p) => ServiceFault::PortTaken(p),
            ServiceError::NoPath => ServiceFault::NoPath,
            ServiceError::CommandRequired => ServiceFault::CommandRequired,
            ServiceError::NoHome => ServiceFault::NoHome,
            ServiceError::Missing(names) => ServiceFault::Missing(text::texts(names@)),
        }
    }
}

impl ServiceFault {
    /// What is said of the service.
    pub open spec fn report(self, engine: Seq<char>, version: Seq<char>) -> Seq<char> {
        match self {
            ServiceFault::ExternalStarted => "[service."@ + engine
                + "] can't set path/command when external = true — stack only connects to it, never starts it"@,
            ServiceFault::Port(e) => e.full_report(),
            ServiceFault::NoExternalPort => "external, but no port available — set [service."@
                + engine + "].port, or register one via `stack register service "@ + engine + " "@
                + version + " --external --port <port>`"@,
            ServiceFault::NotListening(port) => "[service."@ + engine
                + "] is marked external but nothing is listening on port "@ + text::decimal(
                port as nat,
            ),
            ServiceFault::PortRequired => "[service."@ + engine
                + "].port is required (no built-in default for this engine)"@,
            ServiceFault::PortTaken(port) => "port "@ + text::decimal(port as nat)
                + " is already in use by something else — if that's an existing "@ + engine
                + " you want to reuse, add `external = true` to [service."@ + engine
                + "] instead of starting a new one"@,
            ServiceFault::NoPath => "[service."@ + engine
                + "] has no inline `path` and nothing registered for "@ + engine + "@"@ + version
                + " — run `stack register service "@ + engine + " "@ + version
                + " <path>` first"@,
            ServiceFault::CommandRequired => "[service."@ + engine
                + "].command is required (no built-in default for this engine)"@,
            ServiceFault::NoHome => "could not resolve home directory"@,
            ServiceFault::Missing(names) => "missing required value(s): "@ + text::joined(
                names,
                ", "@,
            ),
        }
    }
}

impl ServiceError {
    /// What is said of the service.
    pub fn message(&self, engine: &str, version: &str) -> (r: String)
        ensures
            r@ == self@.report(engine@, version@),
    {
        match self {
            ServiceError::ExternalStarted => {
                let mut r = "[service.".to_owned();
                r.append(engine);
                r.append(
                    "] can't set path/command when external = true — stack only connects to it, never starts it",
                );
                r
            },
            ServiceError::Port(e) => e.full_message(),
            ServiceError::NoExternalPort => {
                let mut r = "external, but no port available — set [service.".to_owned();
                r.append(engine);
                r.append("].port, or register one via `stack register service ");
                r.append(engine);
                r.append(" ");
                r.append(version);
                r.append(" --external --port <port>`");
                r
            },
            ServiceError::NotListening(port) => {
                let mut r = "[service.".to_owned();
                r.append(engine);
                r.append("] is marked external but nothing is listening on port ");
                r.append(text::decimal_text(*port as u64).as_str());
                r
            },
            ServiceError::PortRequired => {
                let mut r = "[service.".to_owned();
                r.append(engine);
                r.append("].port is required (no built-in default for this engine)");
                r
            },
            ServiceError::PortTaken(port) => {
                let mut r = "port ".to_owned();
                r.append(text::decimal_text(*port as u64).as_str());
                r.append(" is already in use by something else — if that's an existing ");
                r.append(engine);
                r.append(" you want to reuse, add `external = true` to [service.");
                r.append(engine);
                r.append("] instead of starting a new one");
                r
            },
            ServiceError::NoPath => {
                let mut r = "[service.".to_owned();
                r.append(engine);
                r.append("] has no inline `path` and nothing registered for ");
                r.append(engine);
                r.append("@");
                r.append(version);
                r.append(" — run `stack register service ");
                r.append(engine);
                r.append(" ");
                r.append(version);
                r.append(" <path>` first");
                r
            },
            ServiceError::CommandRequired => {
                let mut r = "[service.".to_owned();
                r.append(engine);
                r.append("].command is required (no built-in default for this engine)");
                r
            },
            ServiceError::NoHome => "could not resolve home directory".to_owned(),
            ServiceError::Missing(names) => {
                let mut r = "missing required value(s): ".to_owned();
                r.append(text::join(names, ", ").as_str());
                r
            },
        }
    }

    /// The line that is shown in place of the service.
    pub fn line(&self, engine: &str, version: &str) -> (r: Line)
        ensures
            r@ == output::LineText::Alert(
                "  service."@ + engine@ + ": "@ + self@.report(engine@, version@),
            ),
    {
        let mut r = "  service.".to_owned();
        r.append(engine);
        r.append(": ");
        r.append(self.message(engine, version).as_str());
        Line::Alert(r)
    }
}

/// What bringing up a service needs to know or do next.
#[derive(Debug)]
pub enum Step {
    /// It cannot be brought up.
    Fail(ServiceError),
    /// It is external: does anybody listen on the port?
    AskListening { port: u16 },
    /// It was started before: does the process still run?
    AskAlive { pid: u32, port: u16 },
    /// It is to be started: is the port free?
    AskFree { port: u16 },
    /// It runs already and is shared. The declared port may differ or not resolve.
    Shared { pid: u32, port: u16, warning: Option<String> },
}

/// What a `Step` says.
pub enum StepText {
    Fail(ServiceFault),
    AskListening { port: u16 },
    AskAlive { pid: u32, port: u16 },
    AskFree { port: u16 },
    Shared { pid: u32, port: u16, warning: Option<Seq<char>> },
}

impl View for Step {
    type V = StepText;

    open spec fn view(&self) -> StepText {
        match *self {
            Step::Fail(e) => StepText::Fail(e@),
            Step::AskListening { port } => StepText::AskListening { port },
            Step::AskAlive { pid, port } => StepText::AskAlive { pid, port },
            Step::AskFree { port } => StepText::AskFree { port },
            Step::Shared { pid, port, warning } => StepText::Shared {
                pid,
                port,
                warning: text::opt_text(warning),
            },
        }
    }
}

/// The port under which the service is registered as external, where the manifest does not say
/// itself how it is reached.
pub open spec fn registered_external_port(
    engine: Seq<char>,
    svc: Service,
    registry: Registry,
) -> Option<u16> {
    if svc.path is None && !svc.external {
        match registry.entry("service"@, engine, svc.version@) {
            Some(e) => if e.external {
                e.port
            } else {
                None
            },
            None => None,
        }
    } else {
        None
    }
}

/// Stack only connects to the service and never starts it.
pub open spec fn is_external(engine: Seq<char>, svc: Service, registry: Registry) -> bool {
    svc.external || registered_external_port(engine, svc, registry) is Some
}

/// Whether a service is external, and the port it is registered under.
pub(crate) fn external_port(engine: &str, svc: &Service, registry: &Registry) -> (r: Option<u16>)
    ensures
        r == registered_external_port(engine@, *svc, *registry),
{
    if svc.path.is_none() && !svc.external {
        match registry.lookup("service", engine, svc.version.as_str()) {
            Some(e) => if e.external {
                e.port
            } else {
                None
            },
            None => None,
        }
    } else {
        None
    }
}

/// What starting a service begins with: its port has to be known.
pub open spec fn port_step(engine: Seq<char>, svc: Service, sources: Sources) -> StepText {
    match svc.port_outcome(engine, sources) {
        Err(e) => StepText::Fail(ServiceFault::Port(e)),
        Ok(None) => StepText::Fail(ServiceFault::PortRequired),
        Ok(Some(p)) => StepText::AskFree { port: p as u16 },
    }
}

/// What connecting to an external service begins with: the declared port, else the registered
/// one, else the conventional one.
pub open spec fn external_step(
    engine: Seq<char>,
    svc: Service,
    registry: Registry,
    sources: Sources,
) -> StepText {
    let declared = match svc.port {
        Some(p) => match p.outcome(sources) {
            Ok(n) => Ok(Some(n as u16)),
            Err(e) => Err(e),
        },
        None => Ok(None),
    };
    match declared {
        Err(e) => StepText::Fail(ServiceFault::Port(e)),
        Ok(declared) => {
            let known = match declared {
                Some(p) => Some(p),
                None => match registered_external_port(engine, svc, registry) {
                    Some(p) => Some(p),
                    None => manifest::usual_port(engine),
                },
            };
            match known {
                None => StepText::Fail(ServiceFault::NoExternalPort),
                Some(port) => if svc.is_valid() {
                    StepText::AskListening { port }
                } else {
                    StepText::Fail(ServiceFault::ExternalStarted)
                },
            }
        },
    }
}

/// What bringing up a service begins with.
pub open spec fn first_step(
    engine: Seq<char>,
    svc: Service,
    registry: Registry,
    state: State,
    sources: Sources,
) -> StepText {
    let key = service_key(engine, svc.version@);
    if is_external(engine, svc, registry) {
        external_step(engine, svc, registry, sources)
    } else if state.services@.contains_key(key) && state.services@[key].port is Some {
        StepText::AskAlive { pid: state.services@[key].pid, port: state.services@[key].port->0 }
    } else {
        port_step(engine, svc, sources)
    }
}

/// What starting a service begins with.
fn begin_start(engine: &str, svc: &Service, sources: &Sources) -> (r: Step)
    ensures
        r@ == port_step(engine@, *svc, *sources),
{
    match svc.resolve_port(engine, sources) {
        Err(e) => Step::Fail(ServiceError::Port(e)),
        Ok(None) => Step::Fail(ServiceError::PortRequired),
        Ok(Some(port)) => Step::AskFree { port },
    }
}

/// What connecting to an external service begins with.
fn begin_external(engine: &str, svc: &Service, registry: &Registry, sources: &Sources) -> (r: Step)
    ensures
        r@ == external_step(engine@, *svc, *registry, *sources),
{
    let declared = match &svc.port {
        Some(p) => match p.resolve(sources) {
            Ok(n) => Some(n),
            Err(e) => {
                return Step::Fail(ServiceError::Port(e));
            },
        },
        None => None,
    };
    let known = match declared {
        Some(p) => Some(p),
        None => match external_port(engine, svc, registry) {
            Some(p) => Some(p),
            None => manifest::conventional_port(engine),
        },
    };
    match known {
        None => Step::Fail(ServiceError::NoExternalPort),
        Some(port) => match svc.validate(engine) {
            Ok(_) => Step::AskListening { port },
            Err(_) => Step::Fail(ServiceError::ExternalStarted),
        },
    }
}

/// What bringing up a service begins with: an external one is connected to, one that was started
/// before is looked after, and any other is started.
pub fn begin(
    engine: &str,
    svc: &Service,
    registry: &Registry,
    state: &State,
    sources: &Sources,
) -> (r: Step)
    ensures
        r@ == first_step(engine@, *svc, *registry, *state, *sources),
{
    if svc.external || external_port(engine, svc, registry).is_some() {
        return begin_external(engine, svc, registry, sources);
    }
    let key = state_key(engine, svc.version.as_str());
    match state.services.get(key.as_str()) {
        Some(entry) => match entry.port {
            Some(port) => Step::AskAlive { pid: entry.pid, port },
            None => begin_start(engine, svc, sources),
        },
        None => begin_start(engine, svc, sources),
    }
}

/// What is said where a running service's declared port is another, or does not resolve.
pub open spec fn port_warning(
    engine: Seq<char>,
    svc: Service,
    sources: Sources,
    running: u16,
) -> Option<Seq<char>> {
    match svc.port_outcome(engine, sources) {
        Ok(Some(declared)) => if declared != running {
            Some(
                "  service."@ + engine + ": warning — stack.toml declares port "@ + text::decimal(
                    declared,
                ) + " but the running instance is on "@ + text::decimal(running as nat)
                    + " (run `stack down --all` then `stack up` to pick up the new value)"@,
            )
        } else {
            None
        },
        Ok(None) => None,
        Err(e) => Some(
            "  service."@ + engine + ": warning — could not resolve declared port: "@
                + e.full_report(),
        ),
    }
}

/// What follows when it is known whether the recorded process still runs: it is shared if so, and
/// the service is started anew otherwise.
pub fn after_alive(
    engine: &str,
    svc: &Service,
    sources: &Sources,
    pid: u32,
    port: u16,
    alive: bool,
) -> (r: Step)
    ensures
        r@ == (if alive {
            StepText::Shared { pid, port, warning: port_warning(engine@, *svc, *sources, port) }
        } else {
            port_step(engine@, *svc, *sources)
        }),
{
    if !alive {
        return begin_start(engine, svc, sources);
    }
    let warning = match svc.resolve_port(engine, sources) {
        Ok(Some(declared)) => if declared != port {
            let mut w = "  service.".to_owned();
            w.append(engine);
            w.append(": warning — stack.toml declares port ");
            w.append(text::decimal_text(declared as u64).as_str());
            w.append(" but the running instance is on ");
            w.append(text::decimal_text(port as u64).as_str());
            w.append(" (run `stack down --all` then `stack up` to pick up the new value)");
            Some(w)
        } else {
            None
        },
        Ok(None) => None,
        Err(e) => {
            let mut w = "  service.".to_owned();
            w.append(engine);
            w.append(": warning — could not resolve declared port: ");
            w.append(e.full_message().as_str());
            Some(w)
        },
    };
    Step::Shared { pid, port, warning }
}

/// The line of an external service, when it is known whether anybody listens on its port.
pub fn after_listening(engine: &str, port: u16, listening: bool) -> (r: Result<Line, ServiceError>)
    ensures
        match r {
            Ok(line) => listening && line@ == output::LineText::Out(
                "  service."@ + engine@ + ": external — connected on port "@ + text::decimal(
                    port as nat,
                ),
            ),
            Err(e) => !listening && e@ == ServiceFault::NotListening(port),
        },
{
    if !listening {
        return Err(ServiceError::NotListening(port));
    }
    let mut line = "  service.".to_owned();
    line.append(engine);
    line.append(": external — connected on port ");
    line.append(text::decimal_text(port as u64).as_str());
    Ok(Line::Out(line))
}

/// Where the data of a service goes.
pub open spec fn data_path(home: Seq<char>, engine: Seq<char>, version: Seq<char>) -> location::PathText {
    location::stack_dir(home).join("data"@).join(engine).join(version)
}

/// Where the data of a service goes: below `~/.stack/data`.
pub fn data_directory(home: &str, engine: &str, version: &str) -> (r: JoinedPath)
    ensures
        r@ == data_path(home@, engine@, version@),
{
    location::stack_directory(home).join("data").join(engine).join(version)
}

/// How a service is started.
#[derive(Debug)]
pub struct Launch {
    /// The key it is tracked by.
    pub key: String,
    pub port: u16,
    /// Where it is installed.
    pub path: String,
    /// The command, with its placeholders.
    pub command: String,
    /// Where its data goes, and where it is started.
    pub data_dir: JoinedPath,
}

/// Where a service is installed: where the manifest says, else where it is registered.
pub open spec fn install_path(engine: Seq<char>, svc: Service, registry: Registry) -> Option<
    Seq<char>,
> {
    match svc.path {
        Some(p) => Some(p@),
        None => registry.path_of("service"@, engine, svc.version@),
    }
}

/// What stands in the way of starting a service on `port`.
pub open spec fn launch_fault(
    engine: Seq<char>,
    svc: Service,
    registry: Registry,
    home: Option<Seq<char>>,
    port: u16,
    taken: bool,
) -> Option<ServiceFault> {
    if taken {
        Some(ServiceFault::PortTaken(port))
    } else if install_path(engine, svc, registry) is None {
        Some(ServiceFault::NoPath)
    } else if svc.command_text(engine) is None {
        Some(ServiceFault::CommandRequired)
    } else if home is None {
        Some(ServiceFault::NoHome)
    } else {
        None
    }
}

/// How a service is started on `port`, when it is known whether something else listens there.
pub fn after_free(
    engine: &str,
    svc: &Service,
    registry: &Registry,
    home: Option<&str>,
    port: u16,
    taken: bool,
) -> (r: Result<Launch, ServiceError>)
    ensures
        match r {
            Ok(l) => {
                &&& launch_fault(
                    engine@,
                    *svc,
                    *registry,
                    text::opt_str(home),
                    port,
                    taken,
                ) is None
                &&& l.key@ == service_key(engine@, svc.version@)
                &&& l.port == port
                &&& Some(l.path@) == install_path(engine@, *svc, *registry)
                &&& Some(l.command@) == svc.command_text(engine@)
                &&& l.data_dir@ == data_path(text::opt_str(home)->0, engine@, svc.version@)
            },
            Err(e) => launch_fault(engine@, *svc, *registry, text::opt_str(home), port, taken)
                == Some(e@),
        },
{
    if taken {
        return Err(ServiceError::PortTaken(port));
    }
    let path = match &svc.path {
        Some(p) => p.clone(),
        None => match registry.lookup_path("service", engine, svc.version.as_str()) {
            Some(p) => p,
            None => {
                return Err(ServiceError::NoPath);
            },
        },
    };
    let command = match svc.resolve_command(engine) {
        Some(c) => c,
        None => {
            return Err(ServiceError::CommandRequired);
        },
    };
    match home {
        None => Err(ServiceError::NoHome),
        Some(home) => {
            let data_dir = data_directory(home, engine, svc.version.as_str());
            Ok(
                Launch {
                    key: state_key(engine, svc.version.as_str()),
                    port,
                    path,
                    command,
                    data_dir,
                },
            )
        },
    }
}

/// The reserved placeholders of a service's command.
pub open spec fn is_reserved_for_launch(
    reserved: Map<Seq<char>, String>,
    path: Seq<char>,
    data_dir: Seq<char>,
    port: u16,
) -> bool {
    &&& placeholder::text_at(reserved, "path"@) == Some(with_slashes(path))
    &&& placeholder::text_at(reserved, "data_dir"@) == Some(with_slashes(data_dir))
    &&& placeholder::text_at(reserved, "port"@) == Some(text::decimal(port as nat))
    &&& forall|k: Seq<char>| #[trigger]
        reserved.contains_key(k) ==> k == "path"@ || k == "data_dir"@ || k == "port"@
}

/// The reserved placeholders of a service's command, when its data directory is spelled out.
fn launch_values(launch: &Launch, data_dir: &str) -> (r: OrderedMap<String>)
    ensures
        is_reserved_for_launch(r@, launch.path@, data_dir@, launch.port),
{
    let mut reserved: OrderedMap<String> = OrderedMap::new();
    proof {
        reveal_strlit("path");
        reveal_strlit("data_dir");
        reveal_strlit("port");
        assert("path"@[1] != "port"@[1]);
        assert("path"@.len() != "data_dir"@.len());
    }
    reserved.insert("path".to_owned(), shell_safe_path(launch.path.as_str()));
    reserved.insert("data_dir".to_owned(), shell_safe_path(data_dir));
    reserved.insert("port".to_owned(), text::decimal_text(launch.port as u64));
    reserved
}

/// The command that starts a service, when its data directory is spelled out: `{path}`,
/// `{data_dir}` and `{port}` are stack's own, and other names come from the environment or the
/// user.
pub fn launch_command(launch: &Launch, data_dir: &str, sources: &Sources) -> (r: Result<
    String,
    ServiceError,
>)
    ensures
        exists|reserved: Map<Seq<char>, String>|
            {
                &&& #[trigger] is_reserved_for_launch(
                    reserved,
                    launch.path@,
                    data_dir@,
                    launch.port,
                )
                &&& match r {
                    Ok(command) => placeholder::resolution(launch.command@, reserved, *sources)
                        == Ok::<_, Seq<Seq<char>>>(command@),
                    Err(e) => e@ matches ServiceFault::Missing(names) && placeholder::resolution(
                        launch.command@,
                        reserved,
                        *sources,
                    ) == Err::<Seq<char>, _>(names),
                }
            },
{
    let reserved = launch_values(launch, data_dir);
    assert(is_reserved_for_launch(reserved@, launch.path@, data_dir@, launch.port));
    match placeholder::resolve(launch.command.as_str(), &reserved, sources) {
        Ok(command) => Ok(command),
        Err(missing) => Err(ServiceError::Missing(missing)),
    }
}

/// What is shown of a service that was just started.
pub fn started_lines(engine: &str, svc: &Service, project_name: &str, pid: u32, port: u16) -> (r:
    Vec<String>)
    ensures
        text::texts(r@) == seq![
            "  service."@ + engine@ + ": started (pid "@ + text::decimal(pid as nat) + ", port "@
                + text::decimal(port as nat) + ")"@,
            "    schema '"@ + svc.schema_name(project_name@)
                + "' — automatic creation not yet implemented; create it manually if needed"@,
        ],
{
    let mut first = "  service.".to_owned();
    first.append(engine);
    first.append(": started (pid ");
    first.append(text::decimal_text(pid as u64).as_str());
    first.append(", port ");
    first.append(text::decimal_text(port as u64).as_str());
    first.append(")");
    let mut second = "    schema '".to_owned();
    second.append(svc.resolve_schema(project_name).as_str());
    second.append("' — automatic creation not yet implemented; create it manually if needed");
    let ghost shown = seq![first@, second@];
    let mut r: Vec<String> = Vec::new();
    r.push(first);
    r.push(second);
    assert(text::texts(r@) =~= shown);
    r
}

/// What is shown of a service that runs already.
pub fn shared_line(engine: &str, pid: u32, port: u16) -> (r: String)
    ensures
        r@ == "  service."@ + engine@ + ": already running, shared with other projects (pid "@
            + text::decimal(pid as nat) + ", port "@ + text::decimal(port as nat) + ")"@,
{
    let mut r = "  service.".to_owned();
    r.append(engine);
    r.append(": already running, shared with other projects (pid ");
    r.append(text::decimal_text(pid as u64).as_str());
    r.append(", port ");
    r.append(text::decimal_text(port as u64).as_str());
    r.append(")");
    r
}

/// An external service is never looked after and never started: all that is ever asked of it is
/// whether somebody listens on its port.
pub proof fn external_services_are_never_started(
    engine: Seq<char>,
    svc: Service,
    registry: Registry,
    state: State,
    sources: Sources,
)
    requires
        is_external(engine, svc, registry),
    ensures
        match first_step(engine, svc, registry, state, sources) {
            StepText::Fail(_) | StepText::AskListening { .. } => true,
            _ => false,
        },
{
}

/// A service that is tracked with its port is never started a second time while its process runs.
pub proof fn running_services_are_shared(
    engine: Seq<char>,
    svc: Service,
    registry: Registry,
    state: State,
    sources: Sources,
    key: Seq<char>,
)
    requires
        !is_external(engine, svc, registry),
        key == service_key(engine, svc.version@),
        state.services@.contains_key(key),
        state.services@[key].port is Some,
    ensures
        first_step(engine, svc, registry, state, sources) == (StepText::AskAlive {
            pid: state.services@[key].pid,
            port: state.services@[key].port->0,
        }),
{
}

/// A path made safe holds no backslash, and making it safe again changes nothing.
pub proof fn safe_paths_hold_no_backslash(path: Seq<char>)
    ensures
        !with_slashes(path).contains('\\'),
        with_slashes(with_slashes(path)) == with_slashes(path),
        !path.contains('\\') ==> with_slashes(path) == path,
{
    let safe = with_slashes(path);
    assert forall|i: int| 0 <= i < safe.len() implies safe[i] != '\\' by {}
    assert(with_slashes(safe) =~= safe);
    if !path.contains('\\') {
        assert forall|i: int| 0 <= i < path.len() implies safe[i] == path[i] by {
            assert(path.contains(path[i]));
        }
        assert(safe =~= path);
    }
}

/// A path made safe is read back as one word, where a backslash was all that stood in the way:
/// with plain words behind it, the command is a plain list that begins with the safe path.
pub proof fn safe_paths_survive_splitting(path: Seq<char>, rest: Seq<Seq<char>>)
    requires
        path.len() > 0,
        forall|i: int| 0 <= i < path.len() ==> path[i] == '\\' || !words::is_special(
            #[trigger] path[i],
        ),
        words::all_plain(rest),
    ensures
        words::is_plain(with_slashes(path)),
        words::is_plain_list(
            text::joined(seq![with_slashes(path)] + rest, " "@),
            seq![with_slashes(path)] + rest,
        ),
{
    let safe = with_slashes(path);
    assert forall|i: int| 0 <= i < safe.len() implies !words::is_special(#[trigger] safe[i]) by {
        assert(safe[i] == if path[i] == '\\' {
            '/'
        } else {
            path[i]
        });
    }
    let list = seq![safe] + rest;
    assert forall|i: int| 0 <= i < list.len() implies words::is_plain(#[trigger] list[i]) by {
        if i > 0 {
            assert(list[i] == rest[i - 1]);
        }
    }
}

/// Two projects that pin the same version of an engine mean the same running instance: it is tracked
/// under one key, and what one of them started the other finds.
pub proof fn same_pin_shares_one_instance(
    engine: Seq<char>,
    one: Service,
    other: Service,
    registry: Registry,
    state: State,
    one_sources: Sources,
    other_sources: Sources,
)
    requires
        one.version@ == other.version@,
        !is_external(engine, one, registry),
        !is_external(engine, other, registry),
        state.services@.contains_key(service_key(engine, one.version@)),
        state.services@[service_key(engine, one.version@)].port is Some,
    ensures
        first_step(engine, one, registry, state, one_sources) == first_step(
            engine,
            other,
            registry,
            state,
            other_sources,
        ),
{
}

/// Projects that share an instance are isolated by schema: two projects of different names that
/// set none have different ones.
pub proof fn projects_have_schemas_of_their_own(
    one: Service,
    other: Service,
    one_project: Seq<char>,
    other_project: Seq<char>,
)
    requires
        one.schema is None,
        other.schema is None,
        one_project != other_project,
    ensures
        one.schema_name(one_project) != other.schema_name(other_project),
{
}

/// The services of a project as they are brought up: what is tracked by now, and the keys of the
/// services that the project runs with, all of which are tracked.
#[derive(Debug)]
pub struct Round {
    state: State,
    used: Vec<String>,
}

impl Round {
    /// What is tracked.
    pub closed spec fn known(self) -> State {
        self.state
    }

    /// The keys of the services that the project runs with, in the order in which they were
    /// brought up.
    pub closed spec fn in_use(self) -> Seq<Seq<char>> {
        text::texts(self.used@)
    }

    /// Every service that the project runs with is tracked.
    #[verifier::type_invariant]
    pub closed spec fn all_tracked(self) -> bool {
        forall|i: int|
            0 <= i < self.used@.len() ==> self.state.services@.contains_key(
                (#[trigger] self.used@[i])@,
            )
    }

    /// Before the first service.
    pub fn new(state: State) -> (r: Round)
        ensures
            r.known() == state,
            r.in_use() == Seq::<Seq<char>>::empty(),
    {
        let r = Round { state, used: Vec::new() };
        assert(r.in_use() =~= Seq::empty());
        r
    }

    /// What is tracked.
    pub fn state(&self) -> (r: &State)
        ensures
            *r == self.known(),
    {
        &self.state
    }

    /// The project runs with a service that is tracked already. A service that is not is left out.
    pub fn share(&mut self, engine: &str, version: &str)
        ensures
            final(self).known() == old(self).known(),
            final(self).in_use() == (if old(self).known().services@.contains_key(
                service_key(engine@, version@),
            ) {
                old(self).in_use().push(service_key(engine@, version@))
            } else {
                old(self).in_use()
            }),
    {
        proof {
            use_type_invariant(&*self);
        }
        let key = state_key(engine, version);
        if self.state.services.contains_key(key.as_str()) {
            let ghost before = self.used@;
            let ghost added = key@;
            let mut used: Vec<String> = Vec::new();
            std::mem::swap(&mut used, &mut self.used);
            used.push(key);
            proof {
                assert forall|i: int| 0 <= i < used@.len() implies self.state.services@.contains_key(
                    (#[trigger] used@[i])@,
                ) by {
                    if i < before.len() {
                        assert(used@[i] == before[i]);
                    }
                }
                assert(text::texts(used@) =~= text::texts(before).push(added));
            }
            self.used = used;
        }
    }

    /// The project runs with a service that was just started.
    pub fn started(&mut self, launch: &Launch, pid: u32, data_dir: String, started_at: String)
        ensures
            final(self).in_use() == old(self).in_use().push(launch.key@),
            final(self).known().services@.remove(launch.key@) == old(
                self,
            ).known().services@.remove(launch.key@),
            final(self).known().services@.contains_key(launch.key@),
            final(self).known().services@[launch.key@].holds(
                pid,
                Some(launch.port),
                started_at@,
                Some(data_dir@),
                Seq::empty(),
            ),
            final(self).known().projects == old(self).known().projects,
            final(self).known().external_runs == old(self).known().external_runs,
            final(self).known().caddy_pid == old(self).known().caddy_pid,
    {
        proof {
            use_type_invariant(&*self);
        }
        let ghost before = self.used@;
        let ghost tracked_before = self.state.services@;
        let mut used: Vec<String> = Vec::new();
        std::mem::swap(&mut used, &mut self.used);
        let mut state = State::default();
        std::mem::swap(&mut state, &mut self.state);
        process::record_service(
            &mut state,
            launch.key.as_str(),
            pid,
            Some(launch.port),
            Some(data_dir),
            started_at,
        );
        used.push(launch.key.clone());
        proof {
            let after = state.services@;
            assert forall|i: int| 0 <= i < used@.len() implies after.contains_key(
                (#[trigger] used@[i])@,
            ) by {
                if i < before.len() {
                    assert(used@[i] == before[i]);
                    assert(tracked_before.contains_key(before[i]@));
                    if before[i]@ != launch.key@ {
                        assert(tracked_before.remove(launch.key@).contains_key(before[i]@));
                        assert(after.remove(launch.key@).contains_key(before[i]@));
                    }
                }
            }
            assert(text::texts(used@) =~= text::texts(before).push(launch.key@));
        }
        self.state = state;
        self.used = used;
    }

    /// The tracked state when no process of the project's own is started.
    pub fn finish(self) -> (r: State)
        ensures
            r == self.known(),
    {
        self.state
    }

    /// The tracked state when the project itself was started: it is recorded with the services that
    /// it runs with, every one of which is tracked.
    pub fn finish_with_project(self, name: &str, pid: u32, port: u16, started_at: String) -> (r:
        State)
        ensures
            r.projects@.remove(name@) == self.known().projects@.remove(name@),
            r.projects@.contains_key(name@),
            r.projects@[name@].holds(pid, Some(port), started_at@, None, self.in_use()),
            r.services == self.known().services,
            r.external_runs == self.known().external_runs,
            r.caddy_pid == self.known().caddy_pid,
            forall|k: Seq<char>| #[trigger]
                self.in_use().contains(k) ==> r.services@.contains_key(k),
    {
        proof {
            use_type_invariant(&self);
            assert forall|k: Seq<char>| #[trigger]
                self.in_use().contains(k) implies self.state.services@.contains_key(k) by {
                let i = choose|i: int| 0 <= i < self.in_use().len() && self.in_use()[i] == k;
                assert(self.used@[i]@ == k);
            }
        }
        let mut state = self.state;
        process::record_project(&mut state, name, pid, Some(port), self.used, started_at);
        state
    }
}

} // verus!

//! Running a project: one port is settled on, and the command, its environment, the route and the
//! record are all made for it.

use crate::caddy;
use crate::caddy::Push;
use crate::commands::services::Round;
use crate::commands::startup;
use crate::commands::startup::Routing;
use crate::manifest;
use crate::manifest::Manifest;
use crate::ordered_map::OrderedMap;
use crate::output::Line;
use crate::placeholder;
use crate::placeholder::Sources;
use crate::state::State;
use crate::text;
use vstd::prelude::*;

verus! {

/// Why there is no port to run on.
#[derive(Debug, PartialEq, Eq, Structural)]
pub enum NoPort {
    /// Something listens on the declared port.
    Taken(u16),
    /// None is declared, and none could be had.
    NoneFree,
}

impl NoPort {
    /// What is reported to the user.
    pub fn message(&self) -> (r: String)
        ensures
            r@ == match *self {
                NoPort::Taken(port) => "port "@ + text::decimal(port as nat)
                    + " is already in use"@,
                NoPort::NoneFree => "failed to allocate a port"@,
            },
    {
        match self {
            NoPort::Taken(port) => startup::port_taken_message(*port),
            NoPort::NoneFree => "failed to allocate a port".to_owned(),
        }
    }
}

/// The port that a project runs on: the declared one, unless something listens there, or a fresh
/// one where none is declared.
pub open spec fn settled(declared: Option<u16>, taken: bool, fresh: Option<u16>) -> Result<
    u16,
    NoPort,
> {
    match (declared, fresh) {
        (Some(port), _) => if taken {
            Err(NoPort::Taken(port))
        } else {
            Ok(port)
        },
        (None, Some(port)) => Ok(port),
        (None, None) => Err(NoPort::NoneFree),
    }
}

/// A port that was settled on.
#[derive(Debug)]
pub struct RunPort {
    number: u16,
}

impl RunPort {
    /// Its number.
    pub closed spec fn value(self) -> u16 {
        self.number
    }

    /// Its number.
    pub fn number(&self) -> (r: u16)
        ensures
            r == self.value(),
    {
        self.number
    }
}

/// The port that a project runs on. `taken` says whether something listens on the declared one.
pub fn settle_port(declared: Option<u16>, taken: bool, fresh: Option<u16>) -> (r: Result<
    RunPort,
    NoPort,
>)
    ensures
        match r {
            Ok(port) => settled(declared, taken, fresh) == Ok::<_, NoPort>(port.value()),
            Err(e) => settled(declared, taken, fresh) == Err::<u16, _>(e),
        },
{
    match declared {
        Some(port) => if taken {
            Err(NoPort::Taken(port))
        } else {
            Ok(RunPort { number: port })
        },
        None => match fresh {
            Some(port) => Ok(RunPort { number: port }),
            None => Err(NoPort::NoneFree),
        },
    }
}

/// What serves a project.
#[derive(Debug)]
pub enum Serving {
    /// Its own command, with placeholders.
    Command(String),
    /// PHP, by default, with this many workers where the manifest says.
    Php { workers: Option<u32> },
}

/// What serves a project: the command that its manifest gives, else the PHP that it declares. A
/// project that is run has one of them.
pub fn serving(manifest: &Manifest) -> (r: Option<Serving>)
    ensures
        match manifest.run {
            None => r is None,
            Some(run) => match run.command {
                Some(c) => r matches Some(Serving::Command(d)) && d@ == c@,
                None => if manifest.language@.contains_key("php"@) {
                    r == Some(
                        Serving::Php { workers: manifest.language@["php"@].worker_count() },
                    )
                } else {
                    r is None
                },
            },
        },
{
    match &manifest.run {
        None => None,
        Some(run) => match &run.command {
            Some(c) => Some(Serving::Command(c.clone())),
            None => match manifest.language.get("php") {
                Some(entry) => Some(Serving::Php { workers: entry.workers() }),
                None => None,
            },
        },
    }
}

/// A PHP binary, the FastCGI binary next to it, and the directory that is served.
#[derive(Debug)]
pub struct PhpFiles {
    pub binary: String,
    pub cgi: String,
    pub docroot: String,
}

/// A project that is about to be started on its port.
#[derive(Debug)]
pub struct RunStart {
    port: u16,
    command: String,
    env: OrderedMap<String>,
    docroot: Option<String>,
}

impl RunStart {
    /// The port.
    pub closed spec fn port_number(self) -> u16 {
        self.port
    }

    /// The command that is spawned.
    pub closed spec fn command_text(self) -> Seq<char> {
        self.command@
    }

    /// What its process gets on top of the environment.
    pub closed spec fn environment(self) -> Map<Seq<char>, String> {
        self.env@
    }

    /// The directory that PHP serves, where PHP serves it.
    pub closed spec fn root(self) -> Option<Seq<char>> {
        text::opt_text(self.docroot)
    }

    /// The process is told the port that the project is started on.
    #[verifier::type_invariant]
    pub closed spec fn tells_its_port(self) -> bool {
        placeholder::text_at(self.env@, "PORT"@) == Some(text::decimal(self.port as nat))
    }

    /// Starts the project's own command, or says what is missing.
    pub fn with_command(command: &str, port: &RunPort, search_path: &str, sources: &Sources) -> (r:
        Result<RunStart, String>)
        ensures
            match r {
                Ok(s) => {
                    &&& s.port_number() == port.value()
                    &&& startup::is_filled_in(
                        command@,
                        port.value(),
                        *sources,
                        Ok(s.command_text()),
                    )
                    &&& startup::is_run_environment(
                        s.environment(),
                        port.value(),
                        search_path@,
                        None,
                    )
                    &&& s.root() is None
                },
                Err(why) => startup::is_filled_in(command@, port.value(), *sources, Err(why@)),
            },
    {
        match startup::run_command(command, port.number, sources) {
            Err(why) => Err(why),
            Ok(command) => Ok(
                RunStart {
                    port: port.number,
                    command,
                    env: startup::run_environment(port.number, search_path, None),
                    docroot: None,
                },
            ),
        }
    }

    /// Starts PHP, where its FastCGI binary is a file, or says that it is not.
    pub fn with_php(
        php: &PhpFiles,
        cgi_is_file: bool,
        exe_suffix: &str,
        workers: Option<u32>,
        port: &RunPort,
        search_path: &str,
    ) -> (r: Result<RunStart, String>)
        ensures
            match r {
                Ok(s) => {
                    &&& cgi_is_file
                    &&& s.port_number() == port.value()
                    &&& s.command_text() == startup::php_text(php.cgi@, port.value())
                    &&& startup::is_run_environment(
                        s.environment(),
                        port.value(),
                        search_path@,
                        Some(workers),
                    )
                    &&& s.root() == Some(php.docroot@)
                },
                Err(why) => !cgi_is_file && why@ == startup::no_php_cgi_report(
                    exe_suffix@,
                    php.binary@,
                ),
            },
    {
        if !cgi_is_file {
            return Err(startup::no_php_cgi_message(exe_suffix, php.binary.as_str()));
        }
        Ok(
            RunStart {
                port: port.number,
                command: startup::php_command(php.cgi.as_str(), port.number),
                env: startup::run_environment(port.number, search_path, Some(workers)),
                docroot: Some(php.docroot.clone()),
            },
        )
    }

    /// The command that is spawned.
    pub fn command(&self) -> (r: &str)
        ensures
            r@ == self.command_text(),
    {
        self.command.as_str()
    }

    /// What the process gets on top of the environment: the project's port among it.
    pub fn env(&self) -> (r: &OrderedMap<String>)
        ensures
            r@ == self.environment(),
            placeholder::text_at(r@, "PORT"@) == Some(text::decimal(self.port_number() as nat)),
    {
        proof {
            use_type_invariant(self);
        }
        &self.env
    }

    /// The route from a domain to the project's port.
    pub open spec fn is_route(self, name: Seq<char>, domain: Seq<char>, push: Push) -> bool {
        push.sends(
            name,
            match self.root() {
                Some(root) => caddy::fastcgi_route_node(name, domain, self.port_number(), root),
                None => caddy::route_node(name, domain, self.port_number()),
            },
        )
    }

    /// The route from a domain to the project's port.
    pub fn route(&self, name: &str, domain: &str) -> (r: Push)
        ensures
            self.is_route(name@, domain@, r),
    {
        match &self.docroot {
            Some(root) => caddy::push_fastcgi_route(name, domain, self.port, root.as_str()),
            None => caddy::push_route(name, domain, self.port),
        }
    }

    /// What is said of a route that could not be put in place.
    pub fn route_complaint(&self) -> (r: &'static str)
        ensures
            r@ == if self.root() is Some {
                "failed to push fastcgi route"@
            } else {
                "failed to push route"@
            },
    {
        match &self.docroot {
            Some(_) => "failed to push fastcgi route",
            None => "failed to push route",
        }
    }

    /// What is shown of the route.
    pub fn route_line(&self, domain: &str, routing: &Routing) -> (r: Line)
        ensures
            r@ == startup::route_report(domain@, self.port_number(), self.root(), *routing),
    {
        startup::route_line(domain, self.port, manifest::borrowed(&self.docroot), routing)
    }

    /// What is shown of the project once it was started.
    pub fn started_lines(&self, pid: u32, log: &str) -> (r: Vec<String>)
        ensures
            text::texts(r@) == startup::started_texts(
                self.command_text(),
                pid,
                self.port_number(),
                log@,
            ),
    {
        startup::started_lines(self.command.as_str(), pid, self.port, log)
    }

    /// `after` records the project on its port, with the services of `round`, and nothing else
    /// is different.
    pub open spec fn is_record(
        self,
        round: Round,
        name: Seq<char>,
        pid: u32,
        started_at: Seq<char>,
        after: State,
    ) -> bool {
        &&& after.projects@.remove(name) == round.known().projects@.remove(name)
        &&& after.projects@.contains_key(name)
        &&& after.projects@[name].holds(
            pid,
            Some(self.port_number()),
            started_at,
            None,
            round.in_use(),
        )
        &&& after.services == round.known().services
        &&& after.external_runs == round.known().external_runs
        &&& after.caddy_pid == round.known().caddy_pid
    }

    /// What is tracked once the project was started.
    pub fn record(&self, round: Round, name: &str, pid: u32, started_at: String) -> (r: State)
        ensures
            self.is_record(round, name@, pid, started_at@, r),
            forall|k: Seq<char>| #[trigger]
                round.in_use().contains(k) ==> r.services@.contains_key(k),
    {
        round.finish_with_project(name, pid, self.port, started_at)
    }
}

/// A project is started on one port throughout: the declared one, on which nothing listened, or a
/// fresh one where none is declared. It is what `{port}` stands for in the command, what the
/// process finds in PORT, what is recorded, and where the route goes.
pub proof fn one_port_throughout(
    declared: Option<u16>,
    taken: bool,
    fresh: Option<u16>,
    command: Seq<char>,
    sources: Sources,
    search_path: Seq<char>,
    start: RunStart,
    round: Round,
    name: Seq<char>,
    pid: u32,
    started_at: Seq<char>,
    after: State,
    domain: Seq<char>,
    push: Push,
    q: u16,
)
    requires
        settled(declared, taken, fresh) == Ok::<_, NoPort>(q),
        start.port_number() == q,
        startup::is_filled_in(command, q, sources, Ok(start.command_text())),
        startup::is_run_environment(start.environment(), q, search_path, None),
        start.root() is None,
        start.is_record(round, name, pid, started_at, after),
        start.is_route(name, domain, push),
    ensures
        declared is Some ==> declared == Some(q) && !taken,
        declared is None ==> fresh == Some(q),
        exists|reserved: Map<Seq<char>, String>|
            startup::is_reserved_for_run(reserved, q) && #[trigger] placeholder::resolution(
                command,
                reserved,
                sources,
            ) == Ok::<_, Seq<Seq<char>>>(start.command_text()),
        placeholder::text_at(start.environment(), "PORT"@) == Some(text::decimal(q as nat)),
        after.projects@[name].port == Some(q),
        push.sends(name, caddy::route_node(name, domain, q)),
{
}

/// PHP is started on one port throughout, as a command is: it is where FastCGI listens, what the
/// process finds in PORT, what is recorded, and where the route goes.
pub proof fn one_port_for_php(
    declared: Option<u16>,
    taken: bool,
    fresh: Option<u16>,
    php: PhpFiles,
    workers: Option<u32>,
    search_path: Seq<char>,
    start: RunStart,
    round: Round,
    name: Seq<char>,
    pid: u32,
    started_at: Seq<char>,
    after: State,
    domain: Seq<char>,
    push: Push,
    q: u16,
)
    requires
        settled(declared, taken, fresh) == Ok::<_, NoPort>(q),
        start.port_number() == q,
        start.command_text() == startup::php_text(php.cgi@, q),
        startup::is_run_environment(start.environment(), q, search_path, Some(workers)),
        start.root() == Some(php.docroot@),
        start.is_record(round, name, pid, started_at, after),
        start.is_route(name, domain, push),
    ensures
        declared is Some ==> declared == Some(q) && !taken,
        declared is None ==> fresh == Some(q),
        start.command_text() == startup::php_text(php.cgi@, q),
        placeholder::text_at(start.environment(), "PORT"@) == Some(text::decimal(q as nat)),
        after.projects@[name].port == Some(q),
        push.sends(name, caddy::fastcgi_route_node(name, domain, q, php.docroot@)),
{
}

} // verus!

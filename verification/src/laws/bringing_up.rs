//! Laws on bringing up services: which port each is reached or started on, and what stands in the
//! way.

use crate::commands::services;
use crate::commands::services::{ServiceFault, StepText};
use crate::laws::strings;
use crate::manifest;
use crate::manifest::{PortFault, PortValue, Service};
use crate::placeholder;
use crate::placeholder::Sources;
use crate::registry::{Installation, Registry};
use crate::state::State;
use crate::text;
use vstd::prelude::*;

verus! {

/// The engines with a conventional port, and it.
pub open spec fn known_engines() -> Seq<(Seq<char>, u16)> {
    seq![
        ("mysql"@, 3306u16),
        ("postgres"@, 5432u16),
        ("postgresql"@, 5432u16),
        ("mongo"@, 27017u16),
        ("mongodb"@, 27017u16),
    ]
}

/// An engine has a conventional port exactly where it is one of the known ones, and no engine has
/// two.
pub proof fn conventional_ports_are_those_of_the_known_engines(engine: Seq<char>, port: u16)
    ensures
        manifest::usual_port(engine) == Some(port) <==> known_engines().contains((engine, port)),
        manifest::usual_port(engine) is None <==> forall|p: u16|
            !#[trigger] known_engines().contains((engine, p)),
{
    let known = known_engines();
    reveal_strlit("mysql");
    reveal_strlit("postgres");
    reveal_strlit("postgresql");
    reveal_strlit("mongo");
    reveal_strlit("mongodb");
    assert("mysql"@.len() == 5 && "mongo"@.len() == 5 && "mysql"@[1] != "mongo"@[1]);
    assert("postgres"@.len() == 8 && "postgresql"@.len() == 10 && "mongodb"@.len() == 7);
    assert(known[0] == ("mysql"@, 3306u16));
    assert(known[1] == ("postgres"@, 5432u16));
    assert(known[2] == ("postgresql"@, 5432u16));
    assert(known[3] == ("mongo"@, 27017u16));
    assert(known[4] == ("mongodb"@, 27017u16));
    assert forall|p: u16| #[trigger] known.contains((engine, p)) implies manifest::usual_port(engine)
        == Some(p) by {
        let i = choose|i: int| 0 <= i < known.len() && known[i] == (engine, p);
        assert(i == 0 || i == 1 || i == 2 || i == 3 || i == 4);
    }
    if let Some(p) = manifest::usual_port(engine) {
        assert(known.contains((engine, p)));
    }
}

/// A port that is written as a number is that number; one that is written as a text is the number
/// that the text, with its placeholders filled in, denotes.
pub proof fn declared_ports_are_what_is_written(port: u16, template: String, sources: Sources)
    ensures
        (PortValue::Literal(port)).outcome(sources) == Ok::<nat, PortFault>(port as nat),
        placeholder::resolution(template@, Map::empty(), sources) == Ok::<_, Seq<Seq<char>>>(
            text::decimal(port as nat),
        ) ==> (PortValue::Template(template)).outcome(sources) == Ok::<nat, PortFault>(
            port as nat,
        ),
        placeholder::resolution(template@, Map::empty(), sources) is Err ==> (
        PortValue::Template(template)).outcome(sources) is Err,
{
    text::written_number_reads_back(port as nat);
}

/// An external service is connected to on the port that its manifest declares, whatever the
/// registry holds and whatever is conventional. Where it declares none, the conventional port
/// counts, and without one nothing can be done. One that says how to start it is refused.
pub proof fn external_services_are_reached_on_their_own_port(
    engine: Seq<char>,
    svc: Service,
    registry: Registry,
    state: State,
    sources: Sources,
    port: u16,
)
    requires
        svc.external,
    ensures
        ({
            let step = services::first_step(engine, svc, registry, state, sources);
            let startable = svc.path is Some || svc.command is Some;
            &&& !startable && (svc.port matches Some(p) && p.outcome(sources) == Ok::<
                nat,
                PortFault,
            >(port as nat)) ==> step == (StepText::AskListening { port })
            &&& !startable && svc.port == Some(PortValue::Literal(port)) ==> step == (
            StepText::AskListening { port })
            &&& !startable && svc.port is None && manifest::usual_port(engine) == Some(port) ==> step
                == (StepText::AskListening { port })
            &&& svc.port is None && manifest::usual_port(engine) is None ==> step == StepText::Fail(
                ServiceFault::NoExternalPort,
            )
            &&& forall|e: PortFault|
                svc.port is Some && #[trigger] svc.port->0.outcome(sources) == Err::<nat, _>(e)
                    ==> step == StepText::Fail(ServiceFault::Port(e))
            &&& startable && (svc.port matches Some(p) && p.outcome(sources) is Ok) ==> step
                == StepText::Fail(ServiceFault::ExternalStarted)
            &&& startable && svc.port is None && manifest::usual_port(engine) is Some ==> step
                == StepText::Fail(ServiceFault::ExternalStarted)
        }),
{
}

/// A service that is registered as external, and that the manifest gives no path, is connected to:
/// on the port that the manifest declares, or on the registered one where it declares none. It
/// never matters what is conventional.
pub proof fn registered_services_are_reached_where_they_are_registered(
    engine: Seq<char>,
    svc: Service,
    registry: Registry,
    state: State,
    sources: Sources,
    entry: Installation,
    registered: u16,
    declared: u16,
)
    requires
        !svc.external,
        svc.path is None,
        registry.entry("service"@, engine, svc.version@) == Some(entry),
        entry.external,
        entry.port == Some(registered),
    ensures
        services::is_external(engine, svc, registry),
        svc.port is None ==> services::first_step(engine, svc, registry, state, sources) == (
        StepText::AskListening { port: registered }),
        (svc.port matches Some(p) && p.outcome(sources) == Ok::<nat, PortFault>(declared as nat))
            ==> services::first_step(engine, svc, registry, state, sources) == (
        StepText::AskListening { port: declared }),
{
}

/// A service is external exactly where its manifest says so, or where it is registered as external
/// with a port and the manifest gives no path of its own.
pub proof fn external_is_what_is_declared_or_registered_so(
    engine: Seq<char>,
    svc: Service,
    registry: Registry,
)
    ensures
        services::is_external(engine, svc, registry) <==> (svc.external || (svc.path is None && (
        registry.entry("service"@, engine, svc.version@) matches Some(e) && e.external && e.port
            is Some))),
{
}

/// A service that stack runs itself and that is not tracked is started on its declared port, on the
/// conventional one where it declares none, and not at all where there is neither.
pub proof fn managed_services_start_on_their_own_port(
    engine: Seq<char>,
    svc: Service,
    registry: Registry,
    state: State,
    sources: Sources,
    port: u16,
)
    requires
        !services::is_external(engine, svc, registry),
        !state.services@.contains_key(engine + "@"@ + svc.version@),
    ensures
        ({
            let step = services::first_step(engine, svc, registry, state, sources);
            &&& (svc.port matches Some(p) && p.outcome(sources) == Ok::<nat, PortFault>(
                port as nat,
            )) ==> step == (StepText::AskFree { port })
            &&& svc.port is None && manifest::usual_port(engine) == Some(port) ==> step == (
            StepText::AskFree { port })
            &&& svc.port is None && manifest::usual_port(engine) is None ==> step == StepText::Fail(
                ServiceFault::PortRequired,
            )
            &&& forall|e: PortFault|
                svc.port is Some && #[trigger] svc.port->0.outcome(sources) == Err::<nat, _>(e)
                    ==> step == StepText::Fail(ServiceFault::Port(e))
        }),
{
}

/// A service whose recorded process has died is started as one that was never tracked.
pub proof fn dead_services_start_anew(
    engine: Seq<char>,
    svc: Service,
    registry: Registry,
    untracked: State,
    sources: Sources,
)
    requires
        !services::is_external(engine, svc, registry),
        !untracked.services@.contains_key(engine + "@"@ + svc.version@),
    ensures
        services::port_step(engine, svc, sources) == services::first_step(
            engine,
            svc,
            registry,
            untracked,
            sources,
        ),
{
}

/// Versions of one engine are tracked apart, and so are engines whose names hold no `@`.
pub proof fn services_are_tracked_apart(
    engine: Seq<char>,
    version: Seq<char>,
    other: Seq<char>,
    other_version: Seq<char>,
)
    requires
        services::service_key(engine, version) == services::service_key(other, other_version),
    ensures
        engine == other ==> version == other_version,
        !engine.contains('@') && !other.contains('@') ==> engine == other && version
            == other_version,
{
    reveal_strlit("@");
    let key = engine + "@"@ + version;
    let key2 = other + "@"@ + other_version;
    if engine == other {
        assert(key.skip(engine.len() + 1int) =~= version);
        assert(key2.skip(engine.len() + 1int) =~= other_version);
    }
    if !engine.contains('@') && !other.contains('@') {
        if engine.len() < other.len() {
            assert(key[engine.len() as int] == '@');
            assert(key2[engine.len() as int] == other[engine.len() as int]);
            assert(other.contains('@'));
        }
        if other.len() < engine.len() {
            assert(key2[other.len() as int] == '@');
            assert(key[other.len() as int] == engine[other.len() as int]);
            assert(engine.contains('@'));
        }
        assert(key.take(engine.len() as int) =~= engine);
        assert(key2.take(other.len() as int) =~= other);
        assert(key.skip(engine.len() + 1int) =~= version);
        assert(key2.skip(engine.len() + 1int) =~= other_version);
    }
}

/// A running service that is shared is warned of exactly where the manifest asks for another port
/// or for one that cannot be told.
pub proof fn other_ports_are_warned_of(
    engine: Seq<char>,
    svc: Service,
    sources: Sources,
    running: u16,
    declared: u16,
)
    ensures
        svc.port == Some(PortValue::Literal(running)) ==> services::port_warning(
            engine,
            svc,
            sources,
            running,
        ) is None,
        svc.port is None && manifest::usual_port(engine) == Some(running)
            ==> services::port_warning(engine, svc, sources, running) is None,
        svc.port is None && manifest::usual_port(engine) is None ==> services::port_warning(
            engine,
            svc,
            sources,
            running,
        ) is None,
        declared != running && svc.port == Some(PortValue::Literal(declared)) ==> {
            &&& services::port_warning(engine, svc, sources, running) matches Some(w)
            &&& text::occurs_in(w, text::decimal(declared as nat))
            &&& text::occurs_in(w, text::decimal(running as nat))
            &&& text::occurs_in(w, engine)
        },
        (svc.port matches Some(p) && p.outcome(sources) is Err) ==> services::port_warning(
            engine,
            svc,
            sources,
            running,
        ) is Some,
{
    if declared != running && svc.port == Some(PortValue::Literal(declared)) {
        let a = "  service."@;
        let b = ": warning — stack.toml declares port "@;
        let c = " but the running instance is on "@;
        let d = " (run `stack down --all` then `stack up` to pick up the new value)"@;
        let m = text::decimal(declared as nat);
        let n = text::decimal(running as nat);
        let w = a + engine + b + m + c + n + d;
        strings::occurrences_have_a_before_and_a_behind(a, engine, b + m + c + n + d, w);
        assert(a + engine + (b + m + c + n + d) =~= w);
        strings::occurrences_have_a_before_and_a_behind(a + engine + b, m, c + n + d, w);
        assert(a + engine + b + m + (c + n + d) =~= w);
        strings::occurrences_have_a_before_and_a_behind(a + engine + b + m + c, n, d, w);
    }
}

/// A service is started from the path in its manifest, or, where that gives none, from the one it
/// is registered under; with the command in its manifest, or the engine's own.
pub proof fn services_start_from_the_manifest_first(
    engine: Seq<char>,
    svc: Service,
    registry: Registry,
    entry: Installation,
)
    ensures
        svc.path matches Some(p) ==> services::install_path(engine, svc, registry) == Some(p@),
        svc.path is None && registry.entry("service"@, engine, svc.version@) == Some(entry)
            ==> services::install_path(engine, svc, registry) == entry.path,
        svc.path is None && registry.entry("service"@, engine, svc.version@) is None
            ==> services::install_path(engine, svc, registry) is None,
        svc.command matches Some(c) ==> svc.command_text(engine) == Some(c@),
        svc.command is None ==> (svc.command_text(engine) is Some <==> exists|p: u16|
            #[trigger] known_engines().contains((engine, p))),
{
    if svc.command is None {
        manifest::default_commands_need_reserved_names_only(engine);
        conventional_ports_are_those_of_the_known_engines(engine, 0);
    }
}

/// A service is started exactly where its port is free, a path and a command are known, and there
/// is a home directory; the first of these that is wanting is what is reported.
pub proof fn the_first_thing_wanting_is_reported(
    engine: Seq<char>,
    svc: Service,
    registry: Registry,
    home: Option<Seq<char>>,
    port: u16,
    taken: bool,
)
    ensures
        ({
            let fault = services::launch_fault(engine, svc, registry, home, port, taken);
            let path = services::install_path(engine, svc, registry) is Some;
            let command = svc.command_text(engine) is Some;
            &&& fault is None <==> !taken && path && command && home is Some
            &&& taken ==> fault == Some(ServiceFault::PortTaken(port))
            &&& fault == Some(ServiceFault::NoPath) <==> !taken && !path
            &&& fault == Some(ServiceFault::CommandRequired) <==> !taken && path && !command
            &&& fault == Some(ServiceFault::NoHome) <==> !taken && path && command && home is None
        }),
{
}

/// The data of a service lies below the home directory, apart from that of every other engine and
/// version.
pub proof fn data_lies_apart(
    home: Seq<char>,
    engine: Seq<char>,
    version: Seq<char>,
    other: Seq<char>,
    other_version: Seq<char>,
)
    ensures
        services::data_path(home, engine, version).base == home,
        services::data_path(home, engine, version).segments == seq![
            ".stack"@,
            "data"@,
            engine,
            version,
        ],
        services::data_path(home, engine, version) == services::data_path(
            home,
            other,
            other_version,
        ) ==> engine == other && version == other_version,
{
    let a = services::data_path(home, engine, version);
    let b = services::data_path(home, other, other_version);
    assert(a.segments =~= seq![".stack"@, "data"@, engine, version]);
    assert(b.segments =~= seq![".stack"@, "data"@, other, other_version]);
    assert(a.segments[2] == engine && a.segments[3] == version);
    assert(b.segments[2] == other && b.segments[3] == other_version);
}

/// A schema that is given is used; otherwise the project's name is.
pub proof fn schemas_go_by_the_project(svc: Service, project: Seq<char>)
    ensures
        svc.schema matches Some(s) ==> svc.schema_name(project) == s@,
        svc.schema is None ==> svc.schema_name(project) == project,
{
}

/// An external service is sound exactly where it says nothing of how to start it; one that stack
/// runs always is.
pub proof fn only_external_services_must_not_be_startable(svc: Service)
    ensures
        !svc.external ==> svc.is_valid(),
        svc.external && (svc.path is Some || svc.command is Some) ==> !svc.is_valid(),
        svc.external && svc.path is None && svc.command is None ==> svc.is_valid(),
{
}

/// The engines with a command of their own, and it.
pub open spec fn known_commands() -> Seq<(Seq<char>, Seq<char>)> {
    seq![
        ("mysql"@, "{path} --datadir={data_dir} --port={port}"@),
        ("postgres"@, "{path} -D {data_dir} -o \"-p {port}\""@),
        ("postgresql"@, "{path} -D {data_dir} -o \"-p {port}\""@),
        ("mongo"@, "{path} --dbpath {data_dir} --port {port}"@),
        ("mongodb"@, "{path} --dbpath {data_dir} --port {port}"@),
    ]
}

/// An engine is started by its own command exactly where it is one of the known ones.
pub proof fn default_commands_are_those_of_the_known_engines(engine: Seq<char>, command: Seq<char>)
    ensures
        manifest::usual_command(engine) == Some(command) <==> known_commands().contains(
            (engine, command),
        ),
{
    let known = known_commands();
    reveal_strlit("mysql");
    reveal_strlit("postgres");
    reveal_strlit("postgresql");
    reveal_strlit("mongo");
    reveal_strlit("mongodb");
    assert("mysql"@.len() == 5 && "mongo"@.len() == 5 && "mysql"@[1] != "mongo"@[1]);
    assert("postgres"@.len() == 8 && "postgresql"@.len() == 10 && "mongodb"@.len() == 7);
    assert(known[0].0 == "mysql"@ && known[1].0 == "postgres"@ && known[2].0 == "postgresql"@
        && known[3].0 == "mongo"@ && known[4].0 == "mongodb"@);
    if known.contains((engine, command)) {
        let i = choose|i: int| 0 <= i < known.len() && known[i] == (engine, command);
        assert(i == 0 || i == 1 || i == 2 || i == 3 || i == 4);
    }
    if manifest::usual_command(engine) == Some(command) {
        if engine == "mysql"@ {
            assert(known[0] == (engine, command));
        } else if engine == "postgres"@ {
            assert(known[1] == (engine, command));
        } else if engine == "postgresql"@ {
            assert(known[2] == (engine, command));
        } else if engine == "mongo"@ {
            assert(known[3] == (engine, command));
        } else {
            assert(known[4] == (engine, command));
        }
    }
}

} // verus!

//! Starting, stopping and showing what runs.

use stackenv::commands::lifecycle::{
    down, find_dependent_project, follow_step, heal, log_lines, no_log_message, resolve_project_name,
    status, tracked_pids, Action, Follow, NoProject,
};
use stackenv::commands::running::{settle_port, serving, NoPort, PhpFiles, RunStart, Serving};
use stackenv::commands::services::{
    after_alive, after_free, after_listening, begin, launch_command, shell_safe_path, started_lines,
    state_key, Round, ServiceError, Step,
};
use stackenv::commands::startup;
use stackenv::commands::startup::{
    clone_line, clone_step, detect_php_docroot, join_names, loaded_lines, php_cgi_binary, php_command,
    plan_run, project_record, route_line, run_command, run_environment, version_line, CloneStep,
    PlanError, Routing, RunPlan,
};
use stackenv::location::JoinedPath;
use stackenv::manifest::{
    CloneEntry, Language, Manifest, PortValue, Project, Run, RunError, Service,
};
use stackenv::ordered_map::OrderedMap;
use stackenv::output::Line;
use stackenv::placeholder::Sources;
use stackenv::projects::{start_directory, KnownProject};
use stackenv::process::{command_words, record_external_run, record_service};
use stackenv::registry::Registry;
use stackenv::state::{ProcessEntry, State};
use std::path::PathBuf;

fn on_disk(path: &JoinedPath) -> PathBuf {
    path.segments.iter().fold(PathBuf::from(&path.base), |p, s| p.join(s))
}

fn fake_project_entry(services: &[&str]) -> ProcessEntry {
    ProcessEntry {
        pid: 1,
        port: None,
        started_at: String::new(),
        data_dir: None,
        services: services.iter().map(|s| s.to_string()).collect(),
    }
}

fn entry(pid: u32, port: u16, services: &[&str]) -> ProcessEntry {
    ProcessEntry { pid, port: Some(port), ..fake_project_entry(services) }
}

fn env(pairs: &[(&str, &str)]) -> Sources {
    let mut map = OrderedMap::new();
    for (k, v) in pairs {
        map.insert(k.to_string(), v.to_string());
    }
    Sources { env: map, answers: None }
}

fn service(version: &str) -> Service {
    Service {
        version: version.to_string(),
        schema: None,
        port: None,
        command: None,
        path: None,
        external: false,
    }
}

fn manifest() -> Manifest {
    Manifest {
        project: Project { name: "demo".to_string(), domain: Some("demo.localhost".to_string()) },
        clones: Vec::new(),
        language: OrderedMap::new(),
        service: OrderedMap::new(),
        run: None,
        tool: OrderedMap::new(),
    }
}

fn text(line: &Line) -> (bool, &str) {
    match line {
        Line::Out(s) => (true, s),
        Line::Alert(s) => (false, s),
    }
}

fn running() -> State {
    let mut state = State::default();
    state.projects.insert("a".to_string(), entry(11, 8001, &["mysql@8.0", "redis@7"]));
    state.projects.insert("b".to_string(), entry(12, 8002, &["mysql@8.0"]));
    state.services.insert("mysql@8.0".to_string(), entry(21, 3306, &[]));
    state.services.insert("redis@7".to_string(), entry(22, 6379, &[]));
    state.services.insert("mongo@7".to_string(), entry(23, 27017, &[]));
    record_external_run(&mut state, "ext", 5173, None, "t".to_string());
    state.caddy_pid = Some(31);
    state
}

#[test]
fn lifecycle_shell_safe_path_converts_backslashes_so_shell_words_does_not_mangle_them() {
    let raw = r"C:\Scripts\meilisearch\meilisearch.exe";
    let safe = shell_safe_path(raw);
    assert_eq!(safe, "C:/Scripts/meilisearch/meilisearch.exe");
    let parts = shell_words::split(&format!("{safe} --flag")).unwrap();
    assert_eq!(parts[0], "C:/Scripts/meilisearch/meilisearch.exe");
    assert_eq!(command_words(&format!("{safe} --flag")).unwrap().program, safe);
}

#[test]
fn orchestrate_shell_safe_path_converts_backslashes_so_shell_words_does_not_mangle_them() {
    let raw = r"C:\Scripts\meilisearch\meilisearch.exe";
    let safe = shell_safe_path(raw);
    assert_eq!(safe, "C:/Scripts/meilisearch/meilisearch.exe");
    let parts = shell_words::split(&format!("{safe} --flag")).unwrap();
    assert_eq!(parts[0], "C:/Scripts/meilisearch/meilisearch.exe");
}

#[test]
fn lifecycle_shell_safe_path_is_noop_for_already_forward_slashed_paths() {
    assert_eq!(shell_safe_path("C:/tools/mysqld.exe"), "C:/tools/mysqld.exe");
}

#[test]
fn orchestrate_shell_safe_path_is_noop_for_already_forward_slashed_paths() {
    assert_eq!(shell_safe_path("C:/tools/mysqld.exe"), "C:/tools/mysqld.exe");
}

#[test]
fn php_cgi_binary_swaps_filename_next_to_php_exe() {
    let cgi = php_cgi_binary(r"C:\Users\test\.vfox\cache\php\v-8.4.23\php-8.4.23", ".exe");
    assert_eq!(cgi.base, r"C:\Users\test\.vfox\cache\php\v-8.4.23\php-8.4.23");
    assert_eq!(cgi.segments, vec!["php-cgi.exe"]);
}

#[test]
fn detect_php_docroot_prefers_public_when_it_has_an_index() {
    assert_eq!(on_disk(&detect_php_docroot("/srv/app", true)), PathBuf::from("/srv/app/public"));
}

#[test]
fn detect_php_docroot_falls_back_to_project_root_without_a_public_index() {
    assert_eq!(on_disk(&detect_php_docroot("/srv/app", false)), PathBuf::from("/srv/app"));
}

#[test]
fn find_dependent_project_finds_another_project_still_using_the_service() {
    let mut projects = OrderedMap::new();
    projects.insert("project-a".to_string(), fake_project_entry(&["mysql@8.0"]));
    projects.insert("project-b".to_string(), fake_project_entry(&["mysql@8.0", "redis@7.0"]));

    assert_eq!(find_dependent_project(&projects, "mysql@8.0"), Some("project-a"));
}

#[test]
fn find_dependent_project_returns_none_when_nobody_else_uses_it() {
    let mut projects = OrderedMap::new();
    projects.insert("project-b".to_string(), fake_project_entry(&["redis@7.0"]));

    assert_eq!(find_dependent_project(&projects, "mysql@8.0"), None);
}

#[test]
fn find_dependent_project_returns_none_for_empty_projects() {
    let projects = OrderedMap::new();
    assert_eq!(find_dependent_project(&projects, "mysql@8.0"), None);
}

#[test]
fn stopping_one_project_keeps_shared_services_and_stops_its_own() {
    let mut state = running();
    let actions = down(&mut state, Some("a"));
    let shown: Vec<String> = actions
        .iter()
        .filter_map(|a| a.report(false, None))
        .map(|l| text(&l).1.to_string())
        .collect();
    assert!(matches!(&actions[0], Action::RemoveRoute { name } if name == "a"));
    assert_eq!(
        shown,
        vec![
            "stopped a (pid 11)",
            "  mysql@8.0 also in use by 'b' — leaving it running",
            "  stopped service redis@7 (pid 22)",
        ]
    );
    assert_eq!(state.projects.key_list(), vec!["b"]);
    assert_eq!(state.services.key_list(), vec!["mongo@7", "mysql@8.0"]);
    assert_eq!(state.external_runs.key_list(), vec!["ext"]);
    assert_eq!(state.caddy_pid, Some(31));

    let actions = down(&mut state, Some("b"));
    assert!(matches!(&actions[2], Action::StopService { key, pid: 21 } if key == "mysql@8.0"));
    assert_eq!(state.services.key_list(), vec!["mongo@7"]);
}

#[test]
fn stopping_an_external_run_forgets_it_and_unknown_names_are_reported() {
    let mut state = running();
    let actions = down(&mut state, Some("ext"));
    assert_eq!(actions.len(), 2);
    assert_eq!(text(&actions[1].report(false, None).unwrap()), (true, "un-registered external run ext (port 5173)"));
    assert!(state.external_runs.is_empty());

    let actions = down(&mut state, Some("nope"));
    assert_eq!(
        text(&actions[0].report(false, None).unwrap()),
        (false, "stack down: no running project or external run named 'nope'")
    );
    assert_eq!(state.projects.len(), 2);
}

#[test]
fn stopping_everything_leaves_nothing_behind() {
    let mut state = running();
    let actions = down(&mut state, None);
    let shown: Vec<String> = actions
        .iter()
        .filter_map(|a| a.report(true, None))
        .map(|l| text(&l).1.to_string())
        .collect();
    assert_eq!(
        shown,
        vec![
            "  stopped project a (pid 11)",
            "  stopped project b (pid 12)",
            "  stopped service mongo@7 (pid 23)",
            "  stopped service mysql@8.0 (pid 21)",
            "  stopped service redis@7 (pid 22)",
            "  un-registered external run ext (port 5173)",
            "  stopped caddy (pid 31)",
        ]
    );
    assert!(state.projects.is_empty() && state.services.is_empty() && state.external_runs.is_empty());
    assert_eq!(state.caddy_pid, None);
    assert!(down(&mut state, None).is_empty());
}

#[test]
fn failures_of_stopping_are_reported() {
    let route = Action::RemoveRoute { name: "a".to_string() };
    assert!(route.report(true, None).is_none());
    assert_eq!(
        text(&route.report(true, Some("boom")).unwrap()),
        (false, "  a: warning: failed to remove route: boom")
    );
    assert_eq!(text(&route.report(false, Some("boom")).unwrap()), (false, "  warning: failed to remove route: boom"));
    let stop = Action::StopProject { name: "a".to_string(), pid: 1 };
    assert_eq!(text(&stop.report(true, Some("boom")).unwrap()), (false, "  a: boom"));
    assert_eq!(text(&stop.report(false, Some("boom")).unwrap()), (false, "a: boom"));
    let caddy = Action::StopCaddy { pid: 1 };
    assert_eq!(text(&caddy.report(true, Some("boom")).unwrap()), (false, "  caddy: boom"));
}

#[test]
fn healing_drops_exactly_what_is_gone() {
    let mut state = running();
    let stale = heal(&mut state, &vec![true, false], &vec![true, true, false], &vec![false]);
    let shown: Vec<String> = stale.iter().map(|s| s.message()).collect();
    assert_eq!(
        shown,
        vec![
            "  (dropping stale entry: project b, pid 12 no longer alive)",
            "  (dropping stale entry: service redis@7, pid 22 no longer alive)",
            "  (dropping stale entry: external run ext, port 5173 no longer listening)",
        ]
    );
    assert_eq!(state.projects.key_list(), vec!["a"]);
    assert_eq!(state.services.key_list(), vec!["mongo@7", "mysql@8.0"]);
    assert!(state.external_runs.is_empty());
    assert!(heal(&mut state, &vec![true], &vec![true, true], &Vec::new()).is_empty());
}

#[test]
fn a_dead_project_holds_no_service_back() {
    let mut state = State::default();
    state.projects.insert("a".to_string(), entry(11, 8001, &["mysql@8.0"]));
    state.projects.insert("b".to_string(), entry(12, 8002, &["mysql@8.0"]));
    state.services.insert("mysql@8.0".to_string(), entry(21, 3306, &[]));
    heal(&mut state, &vec![true, false], &vec![true], &Vec::new());
    assert_eq!(find_dependent_project(&state.projects, "mysql@8.0"), Some("a"));
    let actions = down(&mut state, Some("a"));
    assert!(matches!(&actions[2], Action::StopService { key, pid: 21 } if key == "mysql@8.0"));
    assert!(state.services.is_empty());
}

#[test]
fn status_lists_everything_with_its_port() {
    let mut state = State::default();
    assert_eq!(
        status(&state, None),
        vec!["projects running: 0", "services running: 0", "external runs: 0", "caddy: not running"]
    );
    state.projects.insert("a".to_string(), entry(11, 8001, &[]));
    state.projects.insert("b".to_string(), fake_project_entry(&[]));
    record_external_run(&mut state, "x", 1, Some("x.localhost".to_string()), "t".to_string());
    record_external_run(&mut state, "y", 2, None, "t".to_string());
    assert_eq!(
        status(&state, Some(2)),
        vec![
            "projects running: 2",
            "  a: pid=11 port=Some(8001)",
            "  b: pid=1 port=None",
            "services running: 0",
            "external runs: 2",
            "  x: port=1 (external — no process tracked, routes to http://x.localhost)",
            "  y: port=2 (external — no process tracked)",
            "caddy: running (2 route(s))",
        ]
    );
    assert_eq!(tracked_pids(&running()), vec![11, 12, 23, 21, 22]);
}

#[test]
fn logs_show_the_last_lines_and_follow_what_is_added() {
    assert_eq!(log_lines("a\nb\nc\n", Some(2)), vec!["b", "c"]);
    assert_eq!(log_lines("a\nb\nc\n", Some(9)), vec!["a", "b", "c"]);
    assert_eq!(log_lines("a\r\nb", None), vec!["a", "b"]);
    assert_eq!(follow_step(10, 15), (Follow::Show(10), 15));
    assert_eq!(follow_step(10, 10), (Follow::Wait, 10));
    assert_eq!(follow_step(10, 3), (Follow::Wait, 0));
    assert_eq!(no_log_message("a", "/x/a.log"), "no log file for 'a' (looked for /x/a.log)");
}

#[test]
fn the_named_project_comes_before_the_nearest() {
    assert_eq!(resolve_project_name(Some("x".to_string()), Some("y".to_string())).unwrap(), "x");
    assert_eq!(resolve_project_name(None, Some("y".to_string())).unwrap(), "y");
    assert!(resolve_project_name(None, None).is_err());
    assert!(NoProject.down_message().ends_with("any parent (or pass --all)"));
}

#[test]
fn services_are_connected_to_shared_or_started() {
    let mut registry = Registry::default();
    let state = running();
    let none = env(&[]);

    let mut external = service("7");
    external.external = true;
    external.port = Some(PortValue::Literal(6379));
    assert!(matches!(begin("redis", &external, &registry, &state, &none), Step::AskListening { port: 6379 }));
    assert_eq!(
        text(&after_listening("redis", 6379, true).unwrap()),
        (true, "  service.redis: external — connected on port 6379")
    );
    let e = after_listening("redis", 6379, false).unwrap_err();
    assert_eq!(
        text(&e.line("redis", "7")),
        (false, "  service.redis: [service.redis] is marked external but nothing is listening on port 6379")
    );

    external.command = Some("x".to_string());
    assert!(matches!(
        begin("redis", &external, &registry, &state, &none),
        Step::Fail(ServiceError::ExternalStarted)
    ));

    assert!(matches!(
        begin("mysql", &service("8.0"), &registry, &state, &none),
        Step::AskAlive { pid: 21, port: 3306 }
    ));
    assert!(matches!(begin("mysql", &service("8.4"), &registry, &state, &none), Step::AskFree { port: 3306 }));
    assert!(matches!(
        begin("meilisearch", &service("1"), &registry, &state, &none),
        Step::Fail(ServiceError::PortRequired)
    ));

    registry.register_external("mysql", "8.4", 3307);
    assert!(matches!(
        begin("mysql", &service("8.4"), &registry, &state, &none),
        Step::AskListening { port: 3307 }
    ));
    let mut unreachable = service("1");
    unreachable.external = true;
    assert!(matches!(
        begin("meilisearch", &unreachable, &registry, &state, &none),
        Step::Fail(ServiceError::NoExternalPort)
    ));
}

#[test]
fn a_running_service_is_shared_with_a_warning_where_the_port_differs() {
    let mut svc = service("8.0");
    match after_alive("mysql", &svc, &env(&[]), 21, 3306, true) {
        Step::Shared { pid: 21, port: 3306, warning: None } => {}
        other => panic!("{other:?}"),
    }
    svc.port = Some(PortValue::Literal(3307));
    match after_alive("mysql", &svc, &env(&[]), 21, 3306, true) {
        Step::Shared { warning: Some(w), .. } => assert!(w.contains("declares port 3307 but the running instance is on 3306")),
        other => panic!("{other:?}"),
    }
    svc.port = Some(PortValue::Template("{NOPE}".to_string()));
    match after_alive("mysql", &svc, &env(&[]), 21, 3306, true) {
        Step::Shared { warning: Some(w), .. } => {
            assert_eq!(w, "  service.mysql: warning — could not resolve declared port: missing required value(s): NOPE")
        }
        other => panic!("{other:?}"),
    }
    assert!(matches!(after_alive("mysql", &service("8.0"), &env(&[]), 21, 3306, false), Step::AskFree { port: 3306 }));
}

#[test]
fn a_service_is_started_from_its_path_on_a_free_port() {
    let mut registry = Registry::default();
    let svc = service("8.0");
    assert!(matches!(
        after_free("mysql", &svc, &registry, Some("/home/u"), 3306, true),
        Err(ServiceError::PortTaken(3306))
    ));
    let missing = after_free("mysql", &svc, &registry, Some("/home/u"), 3306, false).unwrap_err();
    assert_eq!(
        missing.message("mysql", "8.0"),
        "[service.mysql] has no inline `path` and nothing registered for mysql@8.0 — run `stack register service mysql 8.0 <path>` first"
    );
    registry.register_path("service", "mysql", "8.0", r"C:\mysql\mysqld.exe");
    assert!(matches!(after_free("mysql", &svc, &registry, None, 3306, false), Err(ServiceError::NoHome)));
    let mut redis = service("7");
    redis.path = Some("/r".to_string());
    assert!(matches!(
        after_free("redis", &redis, &registry, Some("/h"), 6379, false),
        Err(ServiceError::CommandRequired)
    ));

    let launch = after_free("mysql", &svc, &registry, Some("/home/u"), 3306, false).unwrap();
    assert_eq!(launch.key, "mysql@8.0");
    assert_eq!(launch.data_dir.segments, vec![".stack", "data", "mysql", "8.0"]);
    let command = launch_command(&launch, r"C:\data\mysql", &env(&[("path", "/env/ignored")])).unwrap();
    assert_eq!(command, "C:/mysql/mysqld.exe --datadir=C:/data/mysql --port=3306");
    assert_eq!(command_words(&command).unwrap().program, "C:/mysql/mysqld.exe");

    redis.command = Some("{path} --requirepass {REDIS_PASSWORD}".to_string());
    let launch = after_free("redis", &redis, &registry, Some("/h"), 6379, false).unwrap();
    let e = launch_command(&launch, "/d", &env(&[])).unwrap_err();
    assert_eq!(e.message("redis", "7"), "missing required value(s): REDIS_PASSWORD");
    assert_eq!(
        started_lines("mysql", &svc, "demo", 5, 3306),
        vec![
            "  service.mysql: started (pid 5, port 3306)",
            "    schema 'demo' — automatic creation not yet implemented; create it manually if needed"
        ]
    );
}

#[test]
fn a_project_is_recorded_with_the_services_it_runs_with() {
    let mut state = State::default();
    record_service(&mut state, "mysql@8.0", 21, Some(3306), None, "t".to_string());
    let mut round = Round::new(state);
    round.share("mysql", "8.0");
    round.share("mysql", "not-there");
    let mut registry = Registry::default();
    registry.register_path("service", "mongo", "7", "/m");
    let launch = after_free("mongo", &service("7"), &registry, Some("/h"), 27017, false).unwrap();
    round.started(&launch, 40, "/h/.stack/data/mongo/7".to_string(), "t1".to_string());
    assert_eq!(round.state().services.len(), 2);
    let state = round.finish_with_project("demo", 50, 8000, "t2".to_string());
    assert_eq!(state.projects.get("demo").unwrap().services, vec!["mysql@8.0", "mongo@7"]);
    assert_eq!(state.services.get("mongo@7").unwrap().port, Some(27017));
    assert_eq!(state_key("mongo", "7"), "mongo@7");
}

#[test]
fn clones_never_touch_what_is_there() {
    let entry = CloneEntry {
        repo: "git@github.com:acme/x.git".to_string(),
        path: None,
        git_ref: Some("v1".to_string()),
    };
    assert!(matches!(clone_step(&entry, "/p/x", true), CloneStep::Keep));
    assert_eq!(clone_line(&entry, "/p/x", true), "  clone: /p/x already exists, leaving untouched");
    match clone_step(&entry, "/p/x", false) {
        CloneStep::Clone { clone, checkout } => {
            assert_eq!(clone, vec!["clone", "git@github.com:acme/x.git", "/p/x"]);
            assert_eq!(checkout.unwrap(), vec!["-C", "/p/x", "checkout", "v1"]);
        }
        CloneStep::Keep => panic!("nothing was there"),
    }
    assert_eq!(startup::clone_failed(&entry, Some("v1")), "git checkout v1 failed for git@github.com:acme/x.git");
}

#[test]
fn loading_shows_what_is_declared() {
    let mut m = manifest();
    assert_eq!(
        loaded_lines(&m, "/p/stack.toml"),
        vec![
            "Loaded /p/stack.toml",
            "  project: demo",
            "  domain: demo.localhost",
            "  languages: (none)",
            "  services: (none)"
        ]
    );
    m.language.insert("php".to_string(), Language::Simple("8.3.1".to_string()));
    m.language.insert("node".to_string(), Language::Simple("20".to_string()));
    m.project.domain = None;
    assert_eq!(loaded_lines(&m, "x")[2], "  languages: [\"node\", \"php\"]");
    assert_eq!(join_names(&vec!["a".to_string()]), "[\"a\"]");
    assert_eq!(join_names(&Vec::new()), "(none)");
    assert_eq!(
        text(&version_line("php", "/b/php", Ok("PHP 8.3.1 (cli)\nmore"))),
        (true, "  php: /b/php -> PHP 8.3.1 (cli)")
    );
    assert_eq!(text(&version_line("php", "/b/php", Err("no"))), (false, "  php: failed to run /b/php: no"));
}

#[test]
fn projects_are_remembered_with_their_versions() {
    let mut m = manifest();
    m.language.insert("php".to_string(), Language::Simple("8.3.1".to_string()));
    m.language.insert(
        "own".to_string(),
        Language::Detailed {
            version: None,
            manager: None,
            plugin: None,
            binary: None,
            path: Some("/own".to_string()),
            workers: None,
        },
    );
    m.service.insert("mysql".to_string(), service("8.0"));
    let record = project_record(&m);
    assert_eq!(record.languages, vec![("php".to_string(), "8.3.1".to_string())]);
    assert_eq!(record.services, vec![("mysql".to_string(), "8.0".to_string())]);
}

#[test]
fn projects_are_started_by_directory_or_by_name() {
    let known = vec![
        KnownProject { dir: "/broken".to_string(), name: None },
        KnownProject { dir: "/srv/shop".to_string(), name: Some("shop".to_string()) },
        KnownProject { dir: "/srv/other".to_string(), name: Some("shop".to_string()) },
    ];
    assert_eq!(start_directory("shop", false, &known), "/srv/shop");
    assert_eq!(start_directory("shop", true, &known), "shop");
    assert_eq!(start_directory("blog", false, &known), "blog");
    assert_eq!(start_directory(".", true, &Vec::new()), ".");
}

#[test]
fn projects_share_an_instance_but_no_schema() {
    let svc = service("8.0");
    assert_eq!(state_key("mysql", "8.0"), "mysql@8.0");
    assert_eq!(svc.resolve_schema("shop"), "shop");
    assert_eq!(svc.resolve_schema("blog"), "blog");
    let named = Service { schema: Some("common".to_string()), ..service("8.0") };
    assert_eq!(named.resolve_schema("shop"), "common");
}

#[test]
fn runs_are_planned_from_the_manifest() {
    let none = env(&[]);
    let mut m = manifest();
    assert!(matches!(plan_run(&m, "/p", &none), Ok(RunPlan::Nothing)));
    m.run = Some(Run { command: None, port: None, cwd: ".".to_string(), external: false });
    assert!(matches!(plan_run(&m, "/p", &none), Err(PlanError::Invalid(RunError::CommandRequired))));
    m.language.insert("php".to_string(), Language::Simple("8.3".to_string()));
    match plan_run(&m, "/p", &none).unwrap() {
        RunPlan::Start { cwd, declared: None } => assert_eq!(cwd.segments, vec!["."]),
        other => panic!("{other:?}"),
    }
    m.run = Some(Run { command: None, port: Some(PortValue::Literal(8000)), cwd: ".".to_string(), external: true });
    assert!(matches!(plan_run(&m, "/p", &none), Ok(RunPlan::External { port: 8000 })));
    m.run = Some(Run {
        command: Some("x".to_string()),
        port: Some(PortValue::Template("{NOPE}".to_string())),
        cwd: "web".to_string(),
        external: false,
    });
    let e = plan_run(&m, "/p", &none).unwrap_err();
    assert_eq!(e.message(), "missing required value(s): NOPE");
    let e = plan_run(&m, "/p", &env(&[("NOPE", "99999")])).unwrap_err();
    assert_eq!(
        e.message(),
        "'{NOPE}' resolved to '99999', which isn't a valid port number: number too large to fit in target type"
    );
}

#[test]
fn run_commands_get_their_port_and_environment() {
    assert_eq!(run_command("serve {port} {HOST}", 8000, &env(&[("HOST", "h")])).unwrap(), "serve 8000 h");
    let why = run_command("serve {A} {B}", 8000, &env(&[])).unwrap_err();
    assert!(why.starts_with("missing required value(s): A, B\n        pass --prompt"));

    let plain = run_environment(8000, "/bin", None);
    assert_eq!(plain.key_list(), vec!["PATH", "PORT"]);
    let php = run_environment(8000, "/bin", Some(None));
    assert_eq!(php.get("PHP_FCGI_CHILDREN").unwrap(), "4");
    assert_eq!(php.get("PHP_FCGI_MAX_REQUESTS").unwrap(), "500");
    assert_eq!(run_environment(1, "", Some(Some(9))).get("PHP_FCGI_CHILDREN").unwrap(), "9");
}

#[test]
fn php_runs_from_any_path_with_opcache_on() {
    let command = php_command(r"C:\Program Files\it's php\php-cgi.exe", 9000);
    let i = command_words(&command).unwrap();
    assert_eq!(i.program, "C:/Program Files/it's php/php-cgi.exe");
    assert_eq!(
        i.args,
        vec!["-b", "127.0.0.1:9000", "-d", "zend_extension=opcache", "-d", "opcache.enable=1", "-d", "opcache.enable_cli=1"]
    );
    assert_eq!(
        php_command("/usr/bin/php-cgi", 9000),
        "/usr/bin/php-cgi -b 127.0.0.1:9000 -d zend_extension=opcache -d opcache.enable=1 -d opcache.enable_cli=1"
    );
}

#[test]
fn routes_are_shown_as_they_turned_out() {
    assert_eq!(
        text(&route_line("demo.localhost", 8000, None, &Routing::Routed)),
        (true, "  routed: http://demo.localhost -> 127.0.0.1:8000")
    );
    assert_eq!(
        text(&route_line("demo.localhost", 8000, Some("/p/public"), &Routing::Routed)).1,
        "  routed: http://demo.localhost -> 127.0.0.1:8000 (fastcgi, root /p/public)"
    );
    assert_eq!(
        text(&route_line("d", 1, None, &Routing::Refused("no".to_string()))),
        (false, "  warning: failed to push route: no")
    );
    assert_eq!(
        text(&route_line("d", 1, None, &Routing::Unreachable("no".to_string()))).1,
        "  warning: could not start/reach caddy for routing: no"
    );
    assert_eq!(
        startup::external_run_line(5173, false),
        "  run: external — nothing listening on port 5173 yet; start your dev server whenever you're ready"
    );
}

#[test]
fn a_run_settles_on_the_declared_port_or_a_fresh_one() {
    assert_eq!(settle_port(Some(8000), false, None).unwrap().number(), 8000);
    assert_eq!(settle_port(Some(8000), false, Some(9000)).unwrap().number(), 8000);
    assert_eq!(settle_port(None, false, Some(9000)).unwrap().number(), 9000);
    let taken = settle_port(Some(8000), true, Some(9000)).unwrap_err();
    assert_eq!(taken, NoPort::Taken(8000));
    assert_eq!(taken.message(), "port 8000 is already in use");
    let none = settle_port(None, false, None).unwrap_err();
    assert_eq!(none, NoPort::NoneFree);
    assert_eq!(none.message(), "failed to allocate a port");
}

#[test]
fn a_command_comes_before_php() {
    let mut m = manifest();
    assert!(serving(&m).is_none());
    let run = |command: Option<&str>| {
        Some(Run { command: command.map(str::to_string), port: None, cwd: ".".to_string(), external: false })
    };
    m.run = run(None);
    assert!(serving(&m).is_none());
    m.language.insert("php".to_string(), Language::Simple("8.3".to_string()));
    assert!(matches!(serving(&m), Some(Serving::Php { workers: None })));
    m.language.insert(
        "php".to_string(),
        Language::Detailed {
            version: Some("8.3".to_string()),
            manager: None,
            plugin: None,
            binary: None,
            path: None,
            workers: Some(9),
        },
    );
    assert!(matches!(serving(&m), Some(Serving::Php { workers: Some(9) })));
    m.run = run(Some("serve {port}"));
    assert!(matches!(serving(&m), Some(Serving::Command(c)) if c == "serve {port}"));
}

#[test]
fn a_project_is_run_on_one_port_throughout() {
    let port = settle_port(None, false, Some(8123)).unwrap();
    let start = RunStart::with_command("serve {port} {HOST}", &port, "/bin", &env(&[("HOST", "h")])).unwrap();
    assert_eq!(start.command(), "serve 8123 h");
    assert_eq!(start.env().get("PORT").unwrap(), "8123");
    assert_eq!(start.env().get("PATH").unwrap(), "/bin");
    assert!(start.env().get("PHP_FCGI_CHILDREN").is_none());
    let push = start.route("demo", "demo.localhost");
    assert_eq!(push.delete_url, "http://127.0.0.1:2019/id/stack-demo");
    assert!(push.route.to_string().contains("127.0.0.1:8123"));
    assert_eq!(start.route_complaint(), "failed to push route");
    assert_eq!(
        text(&start.route_line("demo.localhost", &Routing::Routed)).1,
        "  routed: http://demo.localhost -> 127.0.0.1:8123"
    );
    assert_eq!(
        start.started_lines(7, "/l"),
        startup::started_lines("serve 8123 h", 7, 8123, "/l")
    );
    let state = start.record(Round::new(running()), "demo", 7, "t".to_string());
    assert_eq!(state.projects.get("demo").unwrap().port, Some(8123));
    assert_eq!(state.projects.get("demo").unwrap().pid, 7);
    assert_eq!(state.projects.get("a").unwrap().port, Some(8001));

    let why = RunStart::with_command("serve {A}", &port, "/bin", &env(&[])).unwrap_err();
    assert!(why.starts_with("missing required value(s): A"));
}

#[test]
fn php_is_run_on_one_port_throughout() {
    let port = settle_port(Some(9001), false, None).unwrap();
    let php = PhpFiles {
        binary: "/php/php".to_string(),
        cgi: "/php/php-cgi".to_string(),
        docroot: "/p/public".to_string(),
    };
    let start = RunStart::with_php(&php, true, "", Some(6), &port, "/bin").unwrap();
    assert_eq!(start.command(), php_command("/php/php-cgi", 9001));
    assert_eq!(start.env().get("PORT").unwrap(), "9001");
    assert_eq!(start.env().get("PHP_FCGI_CHILDREN").unwrap(), "6");
    let sent = start.route("demo", "demo.localhost").route.to_string();
    assert!(sent.contains("127.0.0.1:9001") && sent.contains("/p/public"));
    assert_eq!(start.route_complaint(), "failed to push fastcgi route");
    assert_eq!(
        text(&start.route_line("demo.localhost", &Routing::Routed)).1,
        "  routed: http://demo.localhost -> 127.0.0.1:9001 (fastcgi, root /p/public)"
    );
    let state = start.record(Round::new(State::default()), "demo", 7, "t".to_string());
    assert_eq!(state.projects.get("demo").unwrap().port, Some(9001));
    assert_eq!(
        RunStart::with_php(&php, false, ".exe", None, &port, "/bin").unwrap_err(),
        startup::no_php_cgi_message(".exe", "/php/php")
    );
}

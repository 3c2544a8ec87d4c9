//! Manifests as they are written, and what follows from them.

use stackenv::commands::{profile, scaffold};
use stackenv::location::JoinedPath;
use stackenv::manifest::{
    conventional_port, default_command, CloneEntry, FindError, Language, Lookup, Manifest, PortError, PortValue,
    Project, Run, RunError, Service, Tool, Visited,
};
use stackenv::ordered_map::OrderedMap;
use stackenv::placeholder::Sources;
use stackenv::trust::{ensure_trusted, risky_fields, Consent, TrustError, TrustFile};
use std::path::{Path, PathBuf};

fn parsed(text: &str) -> toml::Value {
    toml::from_str(text).unwrap()
}

fn string(v: &toml::Value, key: &str) -> Option<String> {
    v.get(key).and_then(toml::Value::as_str).map(str::to_string)
}

fn flag(v: &toml::Value, key: &str) -> bool {
    v.get(key).and_then(toml::Value::as_bool).unwrap_or(false)
}

fn port(v: &toml::Value) -> Option<PortValue> {
    match v.get("port") {
        Some(toml::Value::Integer(n)) => Some(PortValue::Literal(u16::try_from(*n).unwrap())),
        Some(toml::Value::String(s)) => Some(PortValue::Template(s.clone())),
        _ => None,
    }
}

fn language(v: &toml::Value) -> Language {
    match v {
        toml::Value::String(s) => Language::Simple(s.clone()),
        _ => Language::Detailed {
            version: string(v, "version"),
            manager: string(v, "manager"),
            plugin: string(v, "plugin"),
            binary: string(v, "binary"),
            path: string(v, "path"),
            workers: v.get("workers").and_then(toml::Value::as_integer).map(|n| u32::try_from(n).unwrap()),
        },
    }
}

fn service(v: &toml::Value) -> Service {
    Service {
        version: string(v, "version").unwrap(),
        schema: string(v, "schema"),
        port: port(v),
        command: string(v, "command"),
        path: string(v, "path"),
        external: flag(v, "external"),
    }
}

fn run(v: &toml::Value) -> Run {
    Run {
        command: string(v, "command"),
        port: port(v),
        cwd: string(v, "cwd").unwrap_or_else(|| ".".to_string()),
        external: flag(v, "external"),
    }
}

fn tool(v: &toml::Value) -> Tool {
    Tool { path: string(v, "path"), version: string(v, "version") }
}

fn clone_entry(v: &toml::Value) -> CloneEntry {
    CloneEntry { repo: string(v, "repo").unwrap(), path: string(v, "path"), git_ref: string(v, "ref") }
}

fn table_of<T>(v: Option<&toml::Value>, read: fn(&toml::Value) -> T) -> OrderedMap<T> {
    let mut map = OrderedMap::new();
    if let Some(table) = v.and_then(toml::Value::as_table) {
        for (key, value) in table {
            map.insert(key.clone(), read(value));
        }
    }
    map
}

fn manifest(text: &str) -> Manifest {
    let v = parsed(text);
    let mut project = Project::default();
    if let Some(p) = v.get("project") {
        project.name = string(p, "name").unwrap_or_default();
        project.domain = string(p, "domain");
    }
    let clones = match v.get("clone").and_then(toml::Value::as_array) {
        Some(list) => list.iter().map(clone_entry).collect(),
        None => Vec::new(),
    };
    Manifest {
        project,
        clones,
        language: table_of(v.get("language"), language),
        service: table_of(v.get("service"), service),
        run: v.get("run").map(run),
        tool: table_of(v.get("tool"), tool),
    }
}

fn sources(env: &[(&str, &str)]) -> Sources {
    let mut map = OrderedMap::new();
    for (name, value) in env {
        map.insert(name.to_string(), value.to_string());
    }
    Sources { env: map, answers: None }
}

fn on_disk(path: &JoinedPath) -> PathBuf {
    path.segments.iter().fold(PathBuf::from(&path.base), |p, s| p.join(s))
}

#[test]
fn project_name_defaults_to_folder_name() {
    let loaded = Manifest::load(manifest("[language]\nphp = \"8.3.1\"\n"), Some("my-cool-app"));
    assert_eq!(loaded.project.name, "my-cool-app");
}

#[test]
fn project_name_without_a_folder_is_project() {
    let loaded = Manifest::load(manifest(""), None);
    assert_eq!(loaded.project.name, "project");
    assert_eq!(loaded.project.domain, Some("project.localhost".to_string()));
}

#[test]
fn domain_defaults_to_name_dot_localhost() {
    let loaded = Manifest::load(manifest("[project]\nname = \"my-app\"\n"), Some("elsewhere"));
    assert_eq!(loaded.project.domain, Some("my-app.localhost".to_string()));
}

#[test]
fn explicit_domain_is_not_overridden() {
    let text = "[project]\nname = \"my-app\"\ndomain = \"custom.example\"\n";
    let loaded = Manifest::load(manifest(text), Some("elsewhere"));
    assert_eq!(loaded.project.domain, Some("custom.example".to_string()));
}

#[test]
fn loading_twice_is_loading_once() {
    let once = Manifest::load(manifest(""), Some("demo"));
    let twice = Manifest::load(once, Some("other"));
    assert_eq!(twice.project.name, "demo");
    assert_eq!(twice.project.domain, Some("demo.localhost".to_string()));
}

#[test]
fn clone_path_defaults_to_none() {
    let entry = clone_entry(&parsed("repo = \"git@github.com:acme/x.git\"\n"));
    assert_eq!(entry.path, None);
}

#[test]
fn derived_folder_name_strips_git_suffix_from_ssh_and_https_urls() {
    let ssh = clone_entry(&parsed("repo = \"git@github.com:acme/my-repo.git\"\n"));
    assert_eq!(ssh.derived_folder_name().unwrap(), "my-repo");

    let https = clone_entry(&parsed("repo = \"https://github.com/acme/my-repo.git\"\n"));
    assert_eq!(https.derived_folder_name().unwrap(), "my-repo");

    let no_suffix = clone_entry(&parsed("repo = \"https://github.com/acme/my-repo\"\n"));
    assert_eq!(no_suffix.derived_folder_name().unwrap(), "my-repo");
}

#[test]
fn derived_folder_name_ignores_trailing_slashes_and_needs_a_segment() {
    let slashed = clone_entry(&parsed("repo = \"https://github.com/acme/my-repo//\"\n"));
    assert_eq!(slashed.derived_folder_name().unwrap(), "my-repo");

    let bare = clone_entry(&parsed("repo = \"git@host:\"\n"));
    let refused = bare.derived_folder_name().unwrap_err();
    assert_eq!(refused.message(), "could not derive a folder name from repo URL 'git@host:'");
    assert!(bare.target_dir("/proj").is_err());
}

#[test]
fn target_dir_uses_explicit_path_when_set() {
    let entry = clone_entry(&parsed("repo = \"git@github.com:acme/my-repo.git\"\npath = \"vendor/thing\"\n"));
    assert_eq!(on_disk(&entry.target_dir("/proj").unwrap()), Path::new("/proj/vendor/thing"));
}

#[test]
fn target_dir_falls_back_to_derived_name_when_path_unset() {
    let entry = clone_entry(&parsed("repo = \"git@github.com:acme/my-repo.git\"\n"));
    assert_eq!(on_disk(&entry.target_dir("/proj").unwrap()), Path::new("/proj/my-repo"));
}

#[test]
fn service_schema_defaults_to_project_name() {
    let svc = service(&parsed("version = \"8.0.35\"\n"));
    assert_eq!(svc.resolve_schema("my_project"), "my_project");

    let svc_explicit = service(&parsed("version = \"8.0.35\"\nschema = \"custom\"\n"));
    assert_eq!(svc_explicit.resolve_schema("my_project"), "custom");
}

#[test]
fn service_port_defaults_to_conventional_port() {
    let none = sources(&[]);
    let svc = service(&parsed("version = \"8.0.35\"\n"));
    assert_eq!(svc.resolve_port("mysql", &none).unwrap(), Some(3306));
    assert_eq!(svc.resolve_port("postgres", &none).unwrap(), Some(5432));
    assert_eq!(svc.resolve_port("mongo", &none).unwrap(), Some(27017));
    assert_eq!(svc.resolve_port("redis", &none).unwrap(), None);

    let svc_explicit = service(&parsed("version = \"1\"\nport = 9999\n"));
    assert_eq!(svc_explicit.resolve_port("mysql", &none).unwrap(), Some(9999));
}

#[test]
fn conventional_ports_go_by_either_name_of_an_engine() {
    assert_eq!(conventional_port("postgresql"), Some(5432));
    assert_eq!(conventional_port("mongodb"), Some(27017));
    assert_eq!(conventional_port("MySQL"), None);
}

#[test]
fn service_port_template_resolves_from_env_var() {
    let env = sources(&[("STACK_TEST_MEILI_PORT", "7700")]);
    let svc = service(&parsed("version = \"1\"\nport = \"{STACK_TEST_MEILI_PORT}\"\n"));
    assert_eq!(svc.resolve_port("meilisearch", &env).unwrap(), Some(7700));
}

#[test]
fn service_port_template_missing_env_var_errors_without_prompt() {
    let svc = service(&parsed("version = \"1\"\nport = \"{STACK_TEST_DEFINITELY_UNSET_PORT}\"\n"));
    let err = svc.resolve_port("meilisearch", &sources(&[])).unwrap_err();
    assert_eq!(err.message(), "missing required value(s): STACK_TEST_DEFINITELY_UNSET_PORT");
}

#[test]
fn service_port_template_non_numeric_value_errors() {
    let env = sources(&[("STACK_TEST_BOGUS_PORT", "not-a-number")]);
    let svc = service(&parsed("version = \"1\"\nport = \"{STACK_TEST_BOGUS_PORT}\"\n"));
    let err = svc.resolve_port("meilisearch", &env).unwrap_err();
    assert!(matches!(err, PortError::NotAPort { .. }));
    assert_eq!(
        err.full_message(),
        "'{STACK_TEST_BOGUS_PORT}' resolved to 'not-a-number', which isn't a valid port number: invalid digit found in string"
    );
}

#[test]
fn port_templates_are_held_to_the_range_of_ports() {
    for (value, why) in [
        ("", "cannot parse integer from empty string"),
        ("65536", "number too large to fit in target type"),
        ("-1", "invalid digit found in string"),
        ("+", "invalid digit found in string"),
    ] {
        let port = PortValue::Template("{P}".to_string());
        let err = port.resolve(&sources(&[("P", value)])).unwrap_err();
        assert!(err.full_message().ends_with(why), "{}", err.full_message());
        assert_eq!(value.parse::<u16>().unwrap_err().to_string(), why);
    }
    assert_eq!(PortValue::Template("{P}".to_string()).resolve(&sources(&[("P", "65535")])).unwrap(), 65535);
    assert_eq!(PortValue::Template("{P}".to_string()).resolve(&sources(&[("P", "+080")])).unwrap(), 80);
}

#[test]
fn service_command_defaults_for_known_engines_only() {
    let svc = service(&parsed("version = \"8.0.35\"\n"));
    assert!(svc.resolve_command("mysql").is_some());
    assert!(svc.resolve_command("redis").is_none());
    assert_eq!(svc.resolve_command("postgres").unwrap(), r#"{path} -D {data_dir} -o "-p {port}""#);

    let svc_explicit = service(&parsed("version = \"1\"\ncommand = \"custom --flag\"\n"));
    assert_eq!(svc_explicit.resolve_command("mysql"), Some("custom --flag".to_string()));
}

#[test]
fn external_services_say_nothing_of_how_they_start() {
    let svc = service(&parsed("version = \"1\"\nexternal = true\ncommand = \"x\"\n"));
    let refused = svc.validate("redis").unwrap_err();
    assert!(refused.message().starts_with("[service.redis] can't set path/command when external = true"));
    assert!(service(&parsed("version = \"1\"\nexternal = true\n")).validate("redis").is_ok());
    assert!(service(&parsed("version = \"1\"\npath = \"x\"\n")).validate("redis").is_ok());
}

#[test]
fn run_requires_command_unless_external_or_php() {
    let without = run(&parsed("port = 8000\n"));
    assert_eq!(without.validate(false), Err(RunError::CommandRequired));
    assert!(without.validate(true).is_ok());

    let with = run(&parsed("command = \"php -S 127.0.0.1:{port}\"\n"));
    assert!(with.validate(false).is_ok());
}

#[test]
fn run_external_rejects_command() {
    let run = run(&parsed("external = true\nport = 8000\ncommand = \"uvicorn --reload\"\n"));
    assert_eq!(run.validate(false), Err(RunError::CommandIgnored));
    assert!(RunError::CommandIgnored.message().starts_with("[run].command is ignored"));
}

#[test]
fn run_external_requires_port() {
    let without = run(&parsed("external = true\n"));
    assert_eq!(without.validate(false), Err(RunError::PortRequired));

    let with = run(&parsed("external = true\nport = 8000\n"));
    assert!(with.validate(false).is_ok());
}

#[test]
fn language_simple_string_form_parses() {
    let map = table_of(Some(&parsed("php = \"8.3.1\"\n")), language);
    let lang = map.get("php").unwrap();
    assert_eq!(lang.version(), Some("8.3.1"));
    assert_eq!(lang.manager(), None);
    assert_eq!(lang.path(), None);
}

#[test]
fn language_detailed_table_form_parses() {
    let text = "[rust]\nversion = \"1.75.0\"\nmanager = \"vfox\"\nplugin = \"rust\"\nworkers = 8\nbinary = \"cargo\"\n";
    let map = table_of(Some(&parsed(text)), language);
    let lang = map.get("rust").unwrap();
    assert_eq!(lang.version(), Some("1.75.0"));
    assert_eq!(lang.manager(), Some("vfox"));
    assert_eq!(lang.plugin(), Some("rust"));
    assert_eq!(lang.binary(), Some("cargo"));
    assert_eq!(lang.workers(), Some(8));
}

#[test]
fn language_byo_path_form_parses() {
    let map = table_of(Some(&parsed("[legacyphp]\npath = \"C:/tools/php-5.6/php.exe\"\n")), language);
    let lang = map.get("legacyphp").unwrap();
    assert_eq!(lang.path(), Some("C:/tools/php-5.6/php.exe"));
    assert_eq!(lang.version(), None);
}

#[test]
fn tool_parses_byo_path_form() {
    let tool = tool(&parsed("path = \"C:/tools/terraform.exe\"\n"));
    assert_eq!(tool.path.as_deref(), Some("C:/tools/terraform.exe"));
    assert_eq!(tool.version, None);
}

#[test]
fn tool_parses_version_only_form() {
    let tool = tool(&parsed("version = \"2.7.1\"\n"));
    assert_eq!(tool.version.as_deref(), Some("2.7.1"));
    assert_eq!(tool.path, None);
}

#[test]
fn manifest_language_map_mixes_simple_and_detailed_entries() {
    let m = manifest("[language]\nphp = \"8.3.1\"\n\n[language.rust]\nversion = \"1.75.0\"\nmanager = \"vfox\"\n");
    assert_eq!(m.language.get("php").unwrap().version(), Some("8.3.1"));
    assert_eq!(m.language.get("rust").unwrap().manager(), Some("vfox"));
}

#[test]
fn the_nearest_manifest_is_the_one_that_counts() {
    let visited = vec![
        Visited { dir: "/a/b".to_string(), folder: Some("b".to_string()), found: Lookup::Absent },
        Visited {
            dir: "/a".to_string(),
            folder: Some("a".to_string()),
            found: Lookup::Present(manifest("")),
        },
        Visited { dir: "/".to_string(), folder: None, found: Lookup::Unreadable("broken".to_string()) },
    ];
    let (path, m) = Manifest::find_and_load(visited).unwrap();
    assert_eq!(on_disk(&path), Path::new("/a/stack.toml"));
    assert_eq!(m.project.name, "a");
}

#[test]
fn a_manifest_that_cannot_be_read_ends_the_search() {
    let visited = vec![
        Visited { dir: "/a".to_string(), folder: None, found: Lookup::Unreadable("broken".to_string()) },
        Visited { dir: "/".to_string(), folder: None, found: Lookup::Present(manifest("")) },
    ];
    assert!(matches!(Manifest::find_and_load(visited), Err(FindError::Unreadable(why)) if why == "broken"));

    let nothing = vec![Visited { dir: "/".to_string(), folder: None, found: Lookup::Absent }];
    let err = Manifest::find_and_load(nothing).unwrap_err();
    assert_eq!(err.message(), "no stack.toml found in this directory or any parent");
}

#[test]
fn scaffold_scaffolded_manifest_parses_and_includes_everything_given() {
    let languages = vec![("php".to_string(), "8.3.1".to_string())];
    let services = vec![("mysql".to_string(), "8.0.35".to_string())];
    let text = scaffold::build_manifest_toml("demo", "demo.localhost", &languages, &services);

    let m = manifest(&text);
    assert_eq!(m.project.name, "demo");
    assert_eq!(m.project.domain, Some("demo.localhost".to_string()));
    assert_eq!(m.language.get("php").unwrap().version(), Some("8.3.1"));
    assert_eq!(m.service.get("mysql").unwrap().version, "8.0.35");
    assert!(m.run.is_none());
}

#[test]
fn scaffold_scaffolded_manifest_with_no_languages_or_services_still_parses() {
    let text = scaffold::build_manifest_toml("demo", "demo.localhost", &Vec::new(), &Vec::new());
    let m = manifest(&text);
    assert_eq!(m.project.name, "demo");
    assert!(m.language.is_empty());
    assert!(m.service.is_empty());
}

#[test]
fn orchestrate_scaffolded_manifest_parses_and_includes_everything_given() {
    let languages = vec![("php".to_string(), "8.3.1".to_string())];
    let services = vec![("mysql".to_string(), "8.0.35".to_string())];
    let text = scaffold::build_manifest_toml("demo", "demo.localhost", &languages, &services);

    let m = manifest(&text);
    assert_eq!(m.project.name, "demo");
    assert_eq!(m.project.domain, Some("demo.localhost".to_string()));
    assert_eq!(m.language.get("php").unwrap().version(), Some("8.3.1"));
    assert_eq!(m.service.get("mysql").unwrap().version, "8.0.35");
    assert!(m.run.is_none());
}

#[test]
fn orchestrate_scaffolded_manifest_with_no_languages_or_services_still_parses() {
    let text = scaffold::build_manifest_toml("demo", "demo.localhost", &Vec::new(), &Vec::new());
    let m = manifest(&text);
    assert_eq!(m.project.name, "demo");
    assert!(m.language.is_empty());
    assert!(m.service.is_empty());
}

#[test]
fn scaffolded_manifest_is_laid_out_in_tables() {
    let languages = vec![("php".to_string(), "8.3.1".to_string()), ("node".to_string(), "20".to_string())];
    let services = vec![("mysql".to_string(), "8.0.35".to_string())];
    assert_eq!(
        scaffold::build_manifest_toml("demo", "demo.test", &languages, &services),
        "[project]\nname = \"demo\"\ndomain = \"demo.test\"\n\n[language]\nphp = \"8.3.1\"\nnode = \"20\"\n\n[service.mysql]\nversion = \"8.0.35\"\n\n# [run]\n# command isn't guessed — pin the actual dev-server command once you know it, e.g.:\n# command = \"php -S 127.0.0.1:{port} -t public\"\n"
    );
}

#[test]
fn build_profile_toml_parses_as_a_manifest_with_pinned_languages() {
    let languages = vec![("php".to_string(), "8.3.1".to_string()), ("node".to_string(), "20".to_string())];
    let m = manifest(&profile::build_profile_toml(&languages));
    assert_eq!(m.language.get("php").unwrap().version(), Some("8.3.1"));
    assert_eq!(m.language.get("node").unwrap().version(), Some("20"));
    assert!(m.service.is_empty());
    assert!(m.run.is_none());
}

#[test]
fn build_profile_toml_with_no_languages_still_parses() {
    let m = manifest(&profile::build_profile_toml(&Vec::new()));
    assert!(m.language.is_empty());
}

#[test]
fn risky_fields_is_empty_without_run_or_service_commands() {
    assert_eq!(risky_fields(&manifest("[project]\nname = \"x\"\n")), "");
}

#[test]
fn risky_fields_includes_run_command() {
    let m = manifest("[project]\nname = \"x\"\n[run]\ncommand = \"php -S 127.0.0.1:{port}\"\n");
    assert_eq!(risky_fields(&m), "[run] php -S 127.0.0.1:{port}");
}

#[test]
fn risky_fields_includes_service_commands_not_external() {
    let m = manifest(
        "[project]\nname = \"x\"\n[service.mysql]\nversion = \"8.0\"\ncommand = \"mysqld --port={port}\"\n[service.redis]\nversion = \"7\"\nexternal = true\n",
    );
    assert_eq!(risky_fields(&m), "[service.mysql] mysqld --port={port}");
}

#[test]
fn ensure_trusted_skips_prompt_entirely_when_no_risky_fields() {
    let m = manifest("[project]\nname = \"x\"\n");
    assert!(ensure_trusted(&mut TrustFile::default(), "/nonexistent/project", &m, false, None).is_ok());
}

#[test]
fn consent_is_asked_once_and_again_when_commands_change() {
    let mut trust = TrustFile::default();
    let first = manifest("[run]\ncommand = \"serve\"\n");
    match ensure_trusted(&mut trust, "/p", &first, false, None).unwrap_err() {
        TrustError::Ask(lines) => assert_eq!(
            lines,
            vec!["first run for this project — stack.toml will execute:", "  [run] serve"]
        ),
        TrustError::Refused => panic!("nobody was asked"),
    }
    assert!(matches!(ensure_trusted(&mut trust, "/p", &first, false, Some(false)), Err(TrustError::Refused)));
    assert_eq!(TrustError::Refused.message(), "not trusted — aborted, nothing started");
    assert!(trust.approved.is_empty());

    assert!(matches!(ensure_trusted(&mut trust, "/p", &first, false, Some(true)), Ok(Consent::Given(_))));
    assert!(matches!(ensure_trusted(&mut trust, "/p", &first, false, None), Ok(Consent::Standing)));
    assert!(ensure_trusted(&mut trust, "/other", &first, false, None).is_err());

    let second = manifest("[run]\ncommand = \"serve --all\"\n");
    match ensure_trusted(&mut trust, "/p", &second, true, None).unwrap() {
        Consent::Given(lines) => assert_eq!(
            lines,
            vec![
                "stack.toml's commands changed since you last approved them for this project:",
                "  - [run] serve",
                "  + [run] serve --all"
            ]
        ),
        Consent::Standing => panic!("the commands changed"),
    }
    assert_eq!(trust.approved.get("/p").unwrap(), "[run] serve --all");
}

#[test]
fn scaffolded_manifests_are_read_as_what_was_given() {
    let languages = vec![("php".to_string(), "8.3.1".to_string()), ("node-lts".to_string(), "v20 (x64)".to_string())];
    let services = vec![("mysql".to_string(), "8.0.35".to_string()), ("redis".to_string(), "7".to_string())];
    let (text, readable) = scaffold::scaffold_manifest("my app", "d\u{e9}mo.localhost", &languages, &services);
    assert!(readable);
    let read: toml::Table = toml::from_str(&text).unwrap();
    let string = |s: &str| toml::Value::String(s.to_string());
    let table = |items: Vec<(&str, toml::Value)>| {
        items.into_iter().map(|(k, v)| (k.to_string(), v)).collect::<toml::Table>()
    };
    let version = |v: &str| toml::Value::Table(table(vec![("version", string(v))]));
    assert_eq!(
        read,
        table(vec![
            ("project", toml::Value::Table(table(vec![("name", string("my app")), ("domain", string("d\u{e9}mo.localhost"))]))),
            ("language", toml::Value::Table(table(vec![("php", string("8.3.1")), ("node-lts", string("v20 (x64)"))]))),
            ("service", toml::Value::Table(table(vec![("mysql", version("8.0.35")), ("redis", version("7"))]))),
        ])
    );
    assert!(scaffold::scaffold_manifest("", "", &Vec::new(), &Vec::new()).1);
    assert!(!scaffold::scaffold_manifest("a\"b", "d", &Vec::new(), &Vec::new()).1);
    let twice = vec![("php".to_string(), "8".to_string()), ("php".to_string(), "7".to_string())];
    assert!(!scaffold::scaffold_manifest("a", "d", &twice, &Vec::new()).1);
}

#[test]
fn default_commands_mention_reserved_names_only() {
    let bare = manifest("[project]\nname = \"x\"\n[service.any]\nversion = \"1\"\n");
    let svc = bare.service.get("any").unwrap();
    for engine in ["mysql", "postgres", "postgresql", "mongo", "mongodb"] {
        let command = svc.resolve_command(engine).unwrap();
        assert_eq!(default_command(engine), Some(command.as_str()));
        assert_eq!(stackenv::placeholder::extract_names(&command), vec!["path", "data_dir", "port"]);
        assert!(conventional_port(engine).is_some());
    }
    assert_eq!(svc.resolve_command("postgresql"), svc.resolve_command("postgres"));
    assert_eq!(svc.resolve_command("mongodb"), svc.resolve_command("mongo"));
    assert_eq!(svc.resolve_command("redis"), None);
    assert_eq!(default_command("redis"), None);
    assert_eq!(conventional_port("redis"), None);
}

#[test]
fn saved_profiles_are_read_as_what_was_given() {
    let pins = vec![("php".to_string(), "8.3.1".to_string()), ("node".to_string(), "20".to_string())];
    let (text, readable) = profile::new_profile(&pins);
    assert!(readable);
    assert_eq!(text, profile::build_profile_toml(&pins));
    let read: toml::Table = toml::from_str(&text).unwrap();
    assert_eq!(read.len(), 1);
    assert_eq!(read["language"].as_table().unwrap().len(), 2);
    assert_eq!(read["language"]["php"].as_str(), Some("8.3.1"));
    assert_eq!(read["language"]["node"].as_str(), Some("20"));
    let (empty, readable) = profile::new_profile(&Vec::new());
    assert!(readable);
    assert!(toml::from_str::<toml::Table>(&empty).unwrap().is_empty());
    assert!(!profile::new_profile(&vec![("php".to_string(), "8\\".to_string())]).1);
}

//! Editing manifests, the registry's commands, and detecting what a project needs.

use stackenv::commands::registry_commands::{
    drop_orphans, dropped_line, installed_uv_pythons, installed_vfox_languages, list, orphan_data_dir,
    prune, prune_report, purge_refused, register, unregister, ProjectFact, RegisterError, UnregisterError,
};
use stackenv::commands::scaffold::{
    default_version, detect_node, detect_php, detect_python, detected_line, edited_line, ends_list,
    extract_version_constraint, needs_tld_setup, node_required, php_required, python_required,
    refuse_overwrite, suggest_tld_setup, KNOWN_LANGUAGES, KNOWN_SERVICES,
};
use stackenv::manifest::{Language, Manifest, Project, Service};
use stackenv::manifest_edit::{add, remove, AddArgs, EditError};
use stackenv::ordered_map::OrderedMap;
use stackenv::projects::{ProjectRecord, ProjectsFile};
use stackenv::registry::Registry;

fn pairs(list: &[(&str, &str)]) -> Vec<(String, String)> {
    list.iter().map(|(a, b)| (a.to_string(), b.to_string())).collect()
}

fn with_path(path: &str) -> AddArgs {
    AddArgs { path: Some(path.to_string()), ..AddArgs::default() }
}

fn manifest(languages: &[(&str, &str)], services: &[(&str, &str)]) -> Manifest {
    let mut language = OrderedMap::new();
    for (n, v) in languages {
        language.insert(n.to_string(), Language::Simple(v.to_string()));
    }
    let mut service = OrderedMap::new();
    for (n, v) in services {
        service.insert(
            n.to_string(),
            Service {
                version: v.to_string(),
                schema: None,
                port: None,
                command: None,
                path: None,
                external: false,
            },
        );
    }
    Manifest { project: Project::default(), clones: Vec::new(), language, service, run: None, tool: OrderedMap::new() }
}

#[test]
fn adding_keeps_comments_and_order() {
    let text = "# my project\n[project]\nname = \"x\" # short\n\n[run]\ncommand = \"serve\"\n";
    let edited = add(text, "language", "php", Some("8.3.1"), &AddArgs::default()).unwrap();
    assert!(edited.starts_with(text));
    let v: toml::Value = toml::from_str(&edited).unwrap();
    assert_eq!(v["language"]["php"].as_str(), Some("8.3.1"));

    let again = add(&edited, "language", "php", Some("8.3.1"), &AddArgs::default()).unwrap();
    assert_eq!(again, edited);
}

#[test]
fn languages_get_a_table_where_they_need_one() {
    let extra = AddArgs {
        manager: Some("vfox".to_string()),
        plugin: Some("rust".to_string()),
        binary: Some("cargo".to_string()),
        ..AddArgs::default()
    };
    let edited = add("", "language", "rust", Some("1.75.0"), &extra).unwrap();
    assert_eq!(
        edited,
        "[language.rust]\nversion = \"1.75.0\"\nmanager = \"vfox\"\nplugin = \"rust\"\nbinary = \"cargo\"\n"
    );
    let own = add("", "language", "php", None, &with_path("C:/php.exe")).unwrap();
    assert_eq!(own, "[language.php]\npath = \"C:/php.exe\"\n");
}

#[test]
fn services_and_tools_are_added_as_tables() {
    let extra = AddArgs {
        schema: Some("s".to_string()),
        port: Some(3307),
        command: Some("c".to_string()),
        path: Some("p".to_string()),
        ..AddArgs::default()
    };
    let edited = add("[project]\nname = \"x\"\n", "service", "mysql", Some("8.0"), &extra).unwrap();
    let v: toml::Value = toml::from_str(&edited).unwrap();
    let mysql = &v["service"]["mysql"];
    assert_eq!(mysql["version"].as_str(), Some("8.0"));
    assert_eq!(mysql["schema"].as_str(), Some("s"));
    assert_eq!(mysql["port"].as_integer(), Some(3307));
    assert_eq!(mysql["command"].as_str(), Some("c"));
    assert_eq!(mysql["path"].as_str(), Some("p"));
    assert_eq!(add("", "tool", "tf", None, &with_path("/tf")).unwrap(), "[tool.tf]\npath = \"/tf\"\n");
}

#[test]
fn refused_edits_are_explained() {
    let none = AddArgs::default();
    let message = |text: &str, kind: &str, version: Option<&str>| add(text, kind, "x", version, &none).unwrap_err().message();
    assert_eq!(
        message("", "language", None),
        "stack add language <name> <version> (or pass --path for a BYO binary)"
    );
    let managed = AddArgs {
        manager: Some("vfox".to_string()),
        plugin: Some("rust".to_string()),
        binary: Some("cargo".to_string()),
        ..AddArgs::default()
    };
    assert!(matches!(add("", "language", "rust", None, &managed), Err(EditError::LanguageUsage)));
    assert!(matches!(
        add("language = 3\n", "language", "rust", None, &managed),
        Err(EditError::NotATable(k)) if k == "language"
    ));
    assert_eq!(message("language = 3\n", "language", None), "[language] already exists in stack.toml but isn't a table");
    assert!(matches!(
        add("[language]\nrust = \"1\"\n", "language", "rust", None, &managed),
        Err(EditError::NotATable(k)) if k == "rust"
    ));
    assert_eq!(message("", "service", None), "stack add service <name> <version>");
    assert_eq!(message("", "tool", None), "stack add tool <name> --path <path>");
    assert!(message("", "clone", None).starts_with("stack add clone isn't supported yet"));
    assert_eq!(message("", "odd", None), "unknown kind 'odd' — supported: language, service, tool");
    assert_eq!(
        message("language = 3\n", "language", Some("1")),
        "[language] already exists in stack.toml but isn't a table"
    );
    assert!(message("= broken", "tool", None).starts_with("failed to parse stack.toml: "));
    let simple = "[language]\nphp = \"8\"\n";
    assert!(matches!(
        add(simple, "language", "php", None, &with_path("/p")),
        Err(EditError::NotATable(k)) if k == "php"
    ));

    assert!(remove("", "clone", "x").unwrap_err().message().starts_with("stack remove clone isn't supported yet"));
    assert_eq!(remove("", "odd", "x").unwrap_err().message(), "unknown kind 'odd' — supported: language, service, tool");
    assert_eq!(remove("", "tool", "x").unwrap_err().message(), "no [tool.x] entry found in stack.toml");
    assert!(matches!(remove("= broken", "tool", "x"), Err(EditError::Unparsable(_))));
}

#[test]
fn removing_takes_away_what_was_added_and_nothing_else() {
    let text = "[language]\nnode = \"20\"\n\n[service.mysql]\nversion = \"8\"\n";
    let edited = add(text, "language", "php", Some("8.3"), &AddArgs::default()).unwrap();
    assert_eq!(remove(&edited, "language", "php").unwrap(), text);
    let left = remove(text, "service", "mysql").unwrap();
    let v: toml::Value = toml::from_str(&left).unwrap();
    assert_eq!(v["language"]["node"].as_str(), Some("20"));
    assert!(matches!(remove(&left, "service", "mysql"), Err(EditError::NoEntry { .. })));
}

#[test]
fn extract_version_constraint_strips_operators_and_wildcards() {
    assert_eq!(extract_version_constraint("^8.4"), Some("8.4".to_string()));
    assert_eq!(extract_version_constraint(">=18.0.0"), Some("18.0.0".to_string()));
    assert_eq!(extract_version_constraint("~3.11"), Some("3.11".to_string()));
    assert_eq!(extract_version_constraint("8.4.*"), Some("8.4".to_string()));
    assert_eq!(extract_version_constraint("*"), None);
}

#[test]
fn detect_php_reads_composer_json_require() {
    let detected = detect_php(r#"{"require": {"php": "^8.4", "laravel/framework": "^11.0"}}"#).unwrap();
    assert_eq!(detected.version, "8.4");
    assert_eq!(detected.source, "composer.json");
}

#[test]
fn detect_node_reads_package_json_engines() {
    let detected = detect_node(r#"{"engines": {"node": ">=20.0.0"}}"#).unwrap();
    assert_eq!(detected.version, "20.0.0");
}

#[test]
fn detect_python_reads_pyproject_requires_python() {
    let detected = detect_python("[project]\nrequires-python = \">=3.11\"\n").unwrap();
    assert_eq!(detected.version, "3.11");
}

#[test]
fn detect_python_falls_back_to_poetry_dependencies() {
    let detected = detect_python("[tool.poetry.dependencies]\npython = \"^3.12\"\n").unwrap();
    assert_eq!(detected.version, "3.12");
}

#[test]
fn detect_php_returns_none_without_composer_json() {
    assert!(detect_php("nothing here").is_none());
}

#[test]
fn requirements_that_are_no_text_are_not_detected() {
    assert!(detect_php(r#"{"require": {"php": 8}}"#).is_none());
    assert!(detect_php(r#"{"require": []}"#).is_none());
    assert!(detect_node(r#"{"engines": {"node": "*"}}"#).is_none());
    assert!(detect_python("[project]\nrequires-python = 3\n[tool.poetry.dependencies]\npython = \"^3.12\"\n").is_none());
    assert!(detect_python("= broken").is_none());

    let composer: serde_json::Value = serde_json::from_str(r#"{"require":{"php":">=8.2"}}"#).unwrap();
    assert_eq!(php_required(&composer).unwrap().version, "8.2");
    assert!(node_required(&composer).is_none());
    let pyproject: toml::Value = toml::from_str("[project]\nrequires-python = \"3.13\"\n").unwrap();
    assert_eq!(python_required(&pyproject).unwrap().name, "python");
}

#[test]
fn detected_versions_are_offered() {
    let found = vec![detect_php(r#"{"require":{"php":"^8.4"}}"#).unwrap()];
    assert_eq!(detected_line(&found[0]), "  php 8.4 (from composer.json)");
    assert_eq!(default_version(&found, "php"), Some("8.4"));
    assert_eq!(default_version(&found, "node"), None);
    assert!(ends_list(" \t"));
    assert!(!ends_list(" go "));
    assert_eq!(KNOWN_LANGUAGES, ["php", "node", "python"]);
    assert_eq!(KNOWN_SERVICES.len(), 5);
}

#[test]
fn needs_tld_setup_is_false_for_localhost_suffix() {
    assert!(!needs_tld_setup("localhost"));
    assert!(!needs_tld_setup("myapp.localhost"));
    assert!(!needs_tld_setup("agora-2.localhost"));
}

#[test]
fn needs_tld_setup_is_true_when_tld_actually_changes() {
    assert!(needs_tld_setup("myapp.test"));
    assert!(needs_tld_setup("agora.test"));
    assert!(needs_tld_setup("myapp.local"));
}

#[test]
fn domains_of_their_own_get_a_tip() {
    assert_eq!(
        suggest_tld_setup("a.test", "dnsmasq", "https://example.org").unwrap(),
        "tip: 'a.test' needs one-time local DNS setup (dnsmasq) to resolve — see https://example.org/custom-domains.html"
    );
    assert_eq!(suggest_tld_setup("a.localhost", "dnsmasq", "w"), None);
    assert_eq!(refuse_overwrite("/p/stack.toml"), "/p/stack.toml already exists — refusing to overwrite it");
    assert_eq!(edited_line(true, "language", "php", "/s"), "added language 'php' to /s");
    assert_eq!(edited_line(false, "tool", "tf", "/s"), "removed tool 'tf' from /s");
}

#[test]
fn registering_is_checked_before_anything_changes() {
    let mut r = Registry::default();
    assert_eq!(register(&mut r, "odd", "x", "1", Some("/x"), false, None, true).unwrap_err(), RegisterError::UnknownKind);
    assert_eq!(register(&mut r, "tool", "x", "1", None, true, Some(1), false).unwrap_err(), RegisterError::ExternalKind);
    assert_eq!(
        register(&mut r, "service", "x", "1", Some("/x"), true, Some(1), true).unwrap_err(),
        RegisterError::PathAndExternal
    );
    assert_eq!(register(&mut r, "service", "x", "1", None, true, None, false).unwrap_err(), RegisterError::NoPort);
    assert_eq!(register(&mut r, "tool", "x", "1", None, false, None, false).unwrap_err(), RegisterError::NoPath);
    assert_eq!(register(&mut r, "tool", "x", "1", Some("/x"), false, None, false).unwrap_err(), RegisterError::Missing);
    assert!(r.entries.is_empty());
    assert_eq!(
        RegisterError::NoPath.message("tool", "x", "1", ""),
        "stack register tool x 1 <path> (or --external --port <port>, service only)"
    );
    assert_eq!(RegisterError::Missing.message("tool", "x", "1", "/x"), "/x does not exist");

    assert_eq!(
        register(&mut r, "service", "mysql", "8", None, true, Some(3306), false).unwrap(),
        "registered service 'mysql' @ 8 -> external, port 3306"
    );
    assert_eq!(
        register(&mut r, "tool", "tf", "1", Some("/tf"), false, None, true).unwrap(),
        "registered tool 'tf' @ 1 -> /tf"
    );
    assert_eq!(unregister(&mut r, "odd", "x", "1").unwrap_err(), UnregisterError::UnknownKind);
    let absent = unregister(&mut r, "tool", "x", "1").unwrap_err();
    assert_eq!(
        absent.message("tool", "x", "1"),
        "no registered tool 'x' @ 1 — check `stack list` for the exact kind/name/version"
    );
    assert_eq!(
        unregister(&mut r, "service", "mysql", "8").unwrap(),
        "unregistered service 'mysql' @ 8 -> external, port 3306"
    );
    assert_eq!(r.entries.len(), 1);
}

#[test]
fn installed_versions_are_read_from_the_managers() {
    let cache = pairs(&[("php", "v-8.3.1"), ("php", "downloads"), ("nodejs", "v-20")]);
    assert_eq!(installed_vfox_languages(&cache), pairs(&[("php", "8.3.1"), ("nodejs", "20")]));
    let listing = "cpython-3.12.1  /a\n  cpython-3.11.0\t/b\n\ncpython-3.12.1  /c\n";
    assert_eq!(installed_uv_pythons(listing), vec!["cpython-3.11.0", "cpython-3.12.1"]);
    assert!(installed_uv_pythons("").is_empty());
}

#[test]
fn everything_installed_is_listed() {
    let mut r = Registry::default();
    assert_eq!(
        list(&Vec::new(), &Vec::new(), &r),
        vec![
            "languages (vfox):",
            "  (none)",
            "languages (uv):",
            "  (none)",
            "registered (BYO services/tools/languages):",
            "  (none)"
        ]
    );
    r.register_external("mysql", "8", 3306);
    assert_eq!(
        list(&pairs(&[("php", "8.3")]), &vec!["3.12".to_string()], &r),
        vec![
            "languages (vfox):",
            "  php@8.3",
            "languages (uv):",
            "  python@3.12",
            "registered (BYO services/tools/languages):",
            "  service.mysql@8 -> external, port 3306"
        ]
    );
}

#[test]
fn pruning_finds_what_no_project_refers_to() {
    let mut known = ProjectsFile::default();
    known.projects.insert("/a".to_string(), ProjectRecord { languages: pairs(&[("php", "stale")]), services: Vec::new() });
    known.projects.insert(
        "/b".to_string(),
        ProjectRecord { languages: pairs(&[("python", "3.11")]), services: pairs(&[("mongo", "7")]) },
    );
    known.projects.insert("/gone".to_string(), ProjectRecord { languages: pairs(&[("php", "8.1")]), services: Vec::new() });
    let facts = vec![
        ProjectFact::Declares(manifest(&[("php", "8.3")], &[("mysql", "8")])),
        ProjectFact::Unreadable,
        ProjectFact::Gone,
    ];
    let mut registry = Registry::default();
    registry.register_path("service", "mysql", "8", "/m");
    registry.register_path("service", "mongo", "7", "/g");
    registry.register_external("redis", "7", 6379);
    registry.register_path("tool", "redis", "7", "/t");

    let found = prune(
        &mut known,
        &facts,
        &pairs(&[("php", "8.3"), ("php", "8.1"), ("php", "stale")]),
        &vec!["3.11".to_string(), "3.12".to_string()],
        &registry,
    );
    assert_eq!(found.dropped, vec!["/gone"]);
    assert_eq!(known.projects.key_list(), vec!["/a", "/b"]);
    assert_eq!(found.vfox, pairs(&[("php", "8.1"), ("php", "stale")]));
    assert_eq!(found.uv, vec!["3.12"]);
    assert_eq!(
        prune_report(&found),
        vec![
            "orphaned languages (vfox):",
            "  php@8.1",
            "  php@stale",
            "orphaned languages (uv):",
            "  python@3.12",
            "orphaned registered services:",
            "  redis@7 -> external, port 6379"
        ]
    );
    assert_eq!(orphan_data_dir("/h", &found.services[0]).segments, vec![".stack", "data", "redis", "7"]);

    drop_orphans(&mut registry, &found.services);
    assert_eq!(registry.entries.key_list(), vec!["service:mongo:7", "service:mysql:8", "tool:redis:7"]);
    let facts = vec![ProjectFact::Declares(manifest(&[("php", "8.3")], &[("mysql", "8")])), ProjectFact::Unreadable];
    assert!(prune(&mut known, &facts, &Vec::new(), &Vec::new(), &registry).services.is_empty());
    assert_eq!(dropped_line("/gone"), "  (project no longer exists, dropping from tracking: /gone)");
    assert_eq!(purge_refused(false, true), Some("--purge-data requires --yes"));
    assert_eq!(purge_refused(true, true), None);
    assert_eq!(purge_refused(false, false), None);
}

#[test]
fn pruning_keeps_what_is_installed_under_another_name() {
    let mut known = ProjectsFile::default();
    for dir in ["/a", "/b", "/c"] {
        known.projects.insert(
            dir.to_string(),
            ProjectRecord { languages: pairs(&[("node", "18.0.0"), ("php", "8.2")]), services: Vec::new() },
        );
    }
    let mut declared = manifest(&[("node", "20.0.0")], &[]);
    let detailed = |version: &str, manager: &str, plugin: Option<&str>| Language::Detailed {
        version: Some(version.to_string()),
        manager: Some(manager.to_string()),
        plugin: plugin.map(str::to_string),
        binary: None,
        path: None,
        workers: None,
    };
    declared.language.insert("snake".to_string(), detailed("3.12", "uv", None));
    declared.language.insert("rs".to_string(), detailed("1.75.0", "vfox", Some("rust")));
    let facts = vec![ProjectFact::Declares(declared), ProjectFact::Unreadable, ProjectFact::Gone];
    let found = prune(
        &mut known,
        &facts,
        &pairs(&[("nodejs", "20.0.0"), ("nodejs", "18.0.0"), ("rust", "1.75.0"), ("nodejs", "16.0.0"), ("php", "8.2")]),
        &vec!["3.12".to_string(), "3.11".to_string()],
        &Registry::default(),
    );
    assert_eq!(found.vfox, pairs(&[("nodejs", "16.0.0")]));
    assert_eq!(found.uv, vec!["3.11"]);
}

#[test]
fn edits_keep_the_order_of_what_is_there() {
    let text = "[project]\nname = \"x\"\n\n[language]\n# the runtime\nnode = \"18\" # old\nphp = \"8\"\n\n[service.mysql]\nversion = \"8\"\n";
    let none = AddArgs::default();
    let changed = add(text, "language", "node", Some("20"), &none).unwrap();
    let at = |s: &str, what: &str| s.find(what).unwrap();
    assert!(changed.contains("node = \"20\""));
    assert!(at(&changed, "node =") < at(&changed, "php ="));
    assert!(at(&changed, "[project]") < at(&changed, "[language]"));
    assert!(at(&changed, "[language]") < at(&changed, "[service.mysql]"));

    let added = add(text, "language", "deno", Some("1"), &none).unwrap();
    assert!(added.contains("# the runtime\nnode = \"18\" # old\nphp = \"8\"\ndeno = \"1\"\n"));

    let removed = remove(&added, "language", "php").unwrap();
    assert!(removed.contains("# the runtime\nnode = \"18\" # old\ndeno = \"1\"\n"));
    assert!(at(&removed, "[project]") < at(&removed, "[language]"));
}

#[test]
fn edits_keep_the_comments_and_the_spelling_of_what_is_there() {
    let text = "# the project\n[project] # named\nname = 'x' # quoted\n\n# pinned\n[language]\nnode   =   \"18\" # old\n\n\
                # the database\n[service.mysql] # shared\n\"version\" = \"8\" # stable\nport = 3_306\n\n\
                # a clone\n[[clone]]\nrepo = \"r\" # here\n# the end\n";
    let none = AddArgs::default();
    let added = add(text, "language", "php", Some("8"), &none).unwrap();
    assert_eq!(added, text.replace("# old\n", "# old\nphp = \"8\"\n"));
    assert_eq!(remove(&added, "language", "php").unwrap(), text);

    let with_schema = AddArgs { schema: Some("s".to_string()), ..AddArgs::default() };
    let changed = add(text, "service", "mysql", Some("9"), &with_schema).unwrap();
    assert_eq!(
        changed,
        text.replace("\"version\" = \"8\" # stable\nport = 3_306\n", "version = \"9\"\nport = 3_306\nschema = \"s\"\n")
    );

    let removed = remove(text, "service", "mysql").unwrap();
    assert_eq!(
        removed,
        text.replace("# the database\n[service.mysql] # shared\n\"version\" = \"8\" # stable\nport = 3_306\n\n", "")
    );
}

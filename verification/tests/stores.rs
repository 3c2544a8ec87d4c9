//! The registry, placeholders, text and ordered maps.

use stackenv::ordered_map::OrderedMap;
use stackenv::pinned::pinned_version;
use stackenv::placeholder::{extract_names, looks_secret, resolve, unresolved, Sources};
use stackenv::process::{command_words, log_path, record_external_run, record_project, record_service, CommandError};
use stackenv::projects::ProjectsFile;
use stackenv::registry::{Registry, RegistryEntry};
use stackenv::state::State;
use stackenv::style;
use stackenv::text;

fn map(pairs: &[(&str, &str)]) -> OrderedMap<String> {
    let mut m = OrderedMap::new();
    for (k, v) in pairs {
        m.insert(k.to_string(), v.to_string());
    }
    m
}

fn no_prompt(env: &[(&str, &str)]) -> Sources {
    Sources { env: map(env), answers: None }
}

#[test]
fn reserved_wins_over_env_of_same_name() {
    let env = no_prompt(&[("PORT", "9999"), ("port", "9999")]);
    let out = resolve("run --port={port}", &map(&[("port", "8000")]), &env).unwrap();
    assert_eq!(out, "run --port=8000");
}

#[test]
fn env_resolves_non_reserved_placeholder() {
    let out = resolve("echo {STACK_TEST_VAR}", &map(&[]), &no_prompt(&[("STACK_TEST_VAR", "hello")])).unwrap();
    assert_eq!(out, "echo hello");
}

#[test]
fn missing_without_prompt_reports_all_at_once() {
    let err = resolve("{FIRST_MISSING} {SECOND_MISSING}", &map(&[]), &no_prompt(&[])).unwrap_err();
    assert_eq!(err, vec!["FIRST_MISSING".to_string(), "SECOND_MISSING".to_string()]);
}

#[test]
fn names_are_found_once_each_and_unclosed_braces_end_the_search() {
    assert_eq!(extract_names("{b} {a} {b} {} {open"), vec!["b", "a", ""]);
    assert_eq!(extract_names("{a{b}"), vec!["a{b"]);
    assert!(extract_names("none } here {").is_empty());
}

#[test]
fn answers_fill_what_is_open_and_nothing_counts_as_nothing() {
    let sources = Sources { env: map(&[("A", "1")]), answers: Some(map(&[("B", "2")])) };
    assert_eq!(unresolved("{A}-{B}-{C}", &map(&[]), &sources.env), vec!["B", "C"]);
    assert_eq!(resolve("{A}-{B}-{C}", &map(&[]), &sources).unwrap(), "1-2-");
}

#[test]
fn values_are_put_in_one_after_the_other_in_the_order_of_their_names() {
    let out = resolve("{b}{a}", &map(&[("a", "{b}"), ("b", "x")]), &no_prompt(&[])).unwrap();
    assert_eq!(out, "xx");
    let out = resolve("{b}{a}", &map(&[("a", "x"), ("b", "{a}")]), &no_prompt(&[])).unwrap();
    assert_eq!(out, "{a}x");
}

#[test]
fn names_that_look_like_secrets_are_known_in_any_case() {
    assert!(looks_secret("db_password"));
    assert!(looks_secret("ApiToken"));
    assert!(looks_secret("MY_SECRET"));
    assert!(looks_secret("monkey"));
    assert!(!looks_secret("DB_HOST"));
}

#[test]
fn register_path_round_trips() {
    let mut registry = Registry::default();
    registry.register_path("tool", "terraform", "1.7.0", "C:/tools/terraform.exe");
    let entry = registry.lookup("tool", "terraform", "1.7.0").unwrap();
    assert_eq!(entry.path.as_deref(), Some("C:/tools/terraform.exe"));
    assert!(!entry.external);
    assert_eq!(entry.port, None);
}

#[test]
fn register_external_round_trips() {
    let mut registry = Registry::default();
    registry.register_external("mysql", "8.0.35", 3306);
    let entry = registry.lookup("service", "mysql", "8.0.35").unwrap();
    assert_eq!(entry.path, None);
    assert!(entry.external);
    assert_eq!(entry.port, Some(3306));
}

#[test]
fn lookup_returns_none_for_unregistered_entry() {
    let registry = Registry::default();
    assert!(registry.lookup("service", "nope", "1.0").is_none());
}

#[test]
fn remove_drops_an_existing_entry_and_returns_it() {
    let mut registry = Registry::default();
    registry.register_path("tool", "terraform", "1.7.0", "C:/tools/terraform.exe");
    let removed = registry.remove("tool", "terraform", "1.7.0").unwrap();
    assert_eq!(removed.path.as_deref(), Some("C:/tools/terraform.exe"));
    assert!(registry.lookup("tool", "terraform", "1.7.0").is_none());
}

#[test]
fn remove_returns_none_for_unregistered_entry() {
    let mut registry = Registry::default();
    assert!(registry.remove("service", "nope", "1.0").is_none());
}

#[test]
fn old_registry_json_without_external_or_port_still_deserializes() {
    let json = r#"{"entries":{"service:mysql:8.0.35":{"kind":"service","name":"mysql","version":"8.0.35","path":"C:/mysql/mysqld.exe"}}}"#;
    let value: serde_json::Value = serde_json::from_str(json).unwrap();
    let mut registry = Registry::default();
    for (key, e) in value["entries"].as_object().unwrap() {
        registry.entries.insert(
            key.clone(),
            RegistryEntry {
                kind: e["kind"].as_str().unwrap().to_string(),
                name: e["name"].as_str().unwrap().to_string(),
                version: e["version"].as_str().unwrap().to_string(),
                path: e["path"].as_str().map(str::to_string),
                external: e["external"].as_bool().unwrap_or_default(),
                port: e["port"].as_u64().map(|p| p as u16),
            },
        );
    }
    let entry = registry.lookup("service", "mysql", "8.0.35").unwrap();
    assert_eq!(entry.path.as_deref(), Some("C:/mysql/mysqld.exe"));
    assert!(!entry.external);
    assert_eq!(entry.port, None);
}

#[test]
fn registering_one_installation_leaves_the_others() {
    let mut registry = Registry::default();
    registry.register_path("language", "ruby", "3.3", "/a");
    registry.register_path("language", "ruby", "3.4", "/b");
    registry.register_path("language", "ruby", "3.3", "/c");
    assert_eq!(registry.lookup_path("language", "ruby", "3.3").as_deref(), Some("/c"));
    assert_eq!(registry.lookup_path("language", "ruby", "3.4").as_deref(), Some("/b"));
    assert_eq!(registry.entries.len(), 2);
}

#[test]
fn stores_are_kept_under_the_home_directory() {
    for (path, file) in [
        (Registry::registry_path("/home/u"), "registry.json"),
        (State::state_path("/home/u"), "state.json"),
        (ProjectsFile::projects_path("/home/u"), "projects.json"),
        (stackenv::trust::TrustFile::trust_path("/home/u"), "trust.json"),
    ] {
        assert_eq!(path.base, "/home/u");
        assert_eq!(path.segments, vec![".stack", file]);
    }
    assert_eq!(log_path("/home/u", "demo").segments, vec![".stack", "logs", "demo.log"]);
}

#[test]
fn recording_keeps_what_was_recorded_of_others() {
    let mut state = State::default();
    record_service(&mut state, "mysql@8.0", 7, Some(3306), Some("/d".to_string()), "t0".to_string());
    record_project(&mut state, "a", 8, Some(8000), vec!["mysql@8.0".to_string()], "t1".to_string());
    record_project(&mut state, "b", 9, None, Vec::new(), "t2".to_string());
    record_external_run(&mut state, "c", 5173, Some("c.localhost".to_string()), "t3".to_string());
    assert_eq!(state.services.get("mysql@8.0").unwrap().data_dir.as_deref(), Some("/d"));
    assert!(state.services.get("mysql@8.0").unwrap().services.is_empty());
    assert_eq!(state.projects.get("a").unwrap().services, vec!["mysql@8.0"]);
    assert_eq!(state.projects.get("b").unwrap().pid, 9);
    assert_eq!(state.external_runs.get("c").unwrap().registered_at, "t3");
}

#[test]
fn commands_split_into_a_program_and_its_arguments() {
    let i = command_words("php -S '127.0.0.1:80' \"a b\"").unwrap();
    assert_eq!(i.program, "php");
    assert_eq!(i.args, vec!["-S", "127.0.0.1:80", "a b"]);
    assert!(matches!(command_words("  "), Err(CommandError::Empty)));
    let open = command_words("echo 'open").unwrap_err();
    assert_eq!(open.message(), "could not parse command 'echo 'open': missing closing quote");
}

#[test]
fn pinned_versions_are_known_for_the_delegated_tools() {
    assert_eq!(pinned_version("vfox"), Some("1.0.11"));
    assert_eq!(pinned_version("uv"), Some("0.11.7"));
    assert_eq!(pinned_version("caddy"), Some("2.11.4"));
    assert_eq!(pinned_version("git"), None);
}

#[test]
fn ordered_maps_are_walked_in_the_order_of_a_tree_map() {
    let names = ["mysql", "Zed", "a", "é", "ab", "\u{10000}", "\u{ffff}", ""];
    let mut ours = OrderedMap::new();
    let mut theirs = std::collections::BTreeMap::new();
    for (i, n) in names.iter().enumerate() {
        assert!(ours.insert(n.to_string(), i).is_none());
        theirs.insert(n.to_string(), i);
    }
    assert_eq!(ours.insert("a".to_string(), 99), theirs.insert("a".to_string(), 99));
    assert_eq!(ours.key_list(), theirs.keys().cloned().collect::<Vec<_>>());
    for i in 0..ours.len() {
        assert_eq!(theirs.get(ours.key_at(i)), Some(ours.value_at(i)));
    }
    assert_eq!(ours.remove("ab"), theirs.remove("ab"));
    assert_eq!(ours.remove("ab"), None);
    assert_eq!(ours.key_list(), theirs.keys().cloned().collect::<Vec<_>>());
}

#[test]
fn retaining_by_flags_parts_a_map_in_two() {
    let mut m = map(&[("a", "1"), ("b", "2"), ("c", "3")]);
    let dropped = m.retain_flagged(&vec![true, false, true]);
    assert_eq!(m.key_list(), vec!["a", "c"]);
    assert_eq!(dropped, vec![("b".to_string(), "2".to_string())]);
}

#[test]
fn text_functions_agree_with_the_standard_library() {
    for s in ["", " a b \u{2003}", "\u{85}x\n", "///a//", "a\r\nb\r\rc\n", "a,b,,c,", "1.2.3..", "=~>^1"] {
        assert_eq!(text::trim(s), s.trim());
        assert_eq!(text::lines(s), s.lines().collect::<Vec<_>>());
        assert_eq!(text::split(s, ','), s.split(',').collect::<Vec<_>>());
        assert_eq!(text::trim_trailing(s, text::Class::Slash), s.trim_end_matches('/'));
        assert_eq!(text::replace(s, "a", "aa"), s.replace("a", "aa"));
        assert_eq!(text::replace(s, "..", "."), s.replace("..", "."));
        assert_eq!(text::starts_with(s, "a"), s.starts_with('a'));
        assert_eq!(text::ends_with(s, "\n"), s.ends_with('\n'));
        assert_eq!(text::contains(s, "a"), s.contains('a'));
        assert_eq!(text::contains(s, ""), s.contains(""));
    }
    for n in [0u64, 7, 10, 65535, u64::MAX] {
        assert_eq!(text::decimal_text(n), n.to_string());
    }
    let parts = vec!["x".to_string(), String::new(), "y".to_string()];
    assert_eq!(text::join(&parts, ", "), parts.join(", "));
}

#[test]
fn written_ports_read_back() {
    for n in [0u16, 1, 80, 9999, 65535] {
        assert_eq!(text::parse_number(&text::decimal_text(n as u64)), Ok(n));
    }
}

#[test]
fn coloured_text_is_the_text_or_the_text_between_codes() {
    for (shown, code) in [(style::ok("fine"), "32"), (style::warn("fine"), "33"), (style::err("fine"), "31")] {
        assert!(shown == "fine" || shown == format!("\x1b[{code}mfine\x1b[0m"));
    }
}

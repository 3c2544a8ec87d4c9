//! Tools, toolchains, the shell, caddy and the platform.

use stackenv::caddy;
use stackenv::commands::shared::{locate_tool, resolve_tool, ToolAction, ToolSource};
use stackenv::commands::shell_integration::{
    active_indicator, all_passed, byo_language_line, byo_languages, check_on_path, composer_shadow,
    declared_tool_line, doctor_run, doctor_run_port, doctor_service, doctor_service_port, doctor_tool,
    env_file, env_file_failed, escape_pwsh_double_quoted, install_line, load_env, load_items, match_known_service,
    path_line, project_language_line, service_hint, service_query, Shadow,
};
use stackenv::manifest::{Language, Manifest, PortValue, Project, Run, Service, Tool};
use stackenv::ordered_map::OrderedMap;
use stackenv::placeholder::Sources;
use stackenv::platform::{
    alive_query, extract_step, install_dir, install_pinned, is_alive, kill_failed, kill_tree, Extract,
    Install, Os,
};
use stackenv::process::command_words;
use stackenv::registry::Registry;
use stackenv::shell::{
    ensure_cmd_hook_installed, ensure_hook_installed, hook_line, hook_script, profile_path, shell_of_lower,
    shell_of_parent, Rgb, CMD_HOOK,
};
use stackenv::toolchain::{
    confirmed, existing_file, find_binary, lookup, missing_file_message, next_step, no_binary_message, resolve,
    uv_python_find, vfox_plugin_and_binary, vfox_version_dir, Answer, Nested, Next, Ran, Source,
    SourceError, Wanted,
};

const ACCENT: Rgb = Rgb { red: 255, green: 138, blue: 7 };

fn tool(path: Option<&str>, version: Option<&str>) -> Tool {
    Tool { path: path.map(str::to_string), version: version.map(str::to_string) }
}

fn refused(name: &str, tool: &Tool, allow_fetch: bool) -> String {
    let none = Registry::default();
    resolve_tool(name, tool, allow_fetch, &none, Some("/home/u"), false).unwrap_err().message(name)
}

fn ended(success: bool, stdout: &str, stderr: &str) -> Ran {
    Ran::Ended { success, stdout: stdout.to_string(), stderr: stderr.to_string() }
}

fn nothing_set() -> Sources {
    Sources { env: OrderedMap::new(), answers: None }
}

fn service() -> Service {
    Service {
        version: "8.0".to_string(),
        schema: None,
        port: None,
        command: None,
        path: None,
        external: false,
    }
}

#[test]
fn shared_resolve_tool_rejects_both_path_and_version_set() {
    let err = refused("x", &tool(Some("C:/x.exe"), Some("1.0")), true);
    assert!(err.contains("can't set both"));
}

#[test]
fn shared_resolve_tool_rejects_neither_path_nor_version_set() {
    let err = refused("x", &tool(None, None), true);
    assert!(err.contains("needs either"));
}

#[test]
fn shared_resolve_tool_rejects_missing_byo_path() {
    let err = refused("x", &tool(Some("C:/definitely-does-not-exist-anywhere.exe"), None), true);
    assert!(err.contains("does not exist"));
}

#[test]
fn shared_resolve_tool_rejects_unknown_fetchable_tool_name() {
    let err = refused("some-random-tool", &tool(None, Some("1.0")), true);
    assert!(err.contains("doesn't know how to auto-fetch"));
}

#[test]
fn shared_resolve_tool_composer_without_fetch_reports_not_yet_fetched_when_uncached() {
    let err = refused("composer", &tool(None, Some("0.0.0-not-a-real-version-for-testing")), false);
    assert!(err.contains("not yet fetched"));
}

#[test]
fn orchestrate_resolve_tool_rejects_both_path_and_version_set() {
    let err = refused("x", &tool(Some("C:/x.exe"), Some("1.0")), true);
    assert!(err.contains("can't set both"));
}

#[test]
fn orchestrate_resolve_tool_rejects_neither_path_nor_version_set() {
    let err = refused("x", &tool(None, None), true);
    assert!(err.contains("needs either"));
}

#[test]
fn orchestrate_resolve_tool_rejects_missing_byo_path() {
    let err = refused("x", &tool(Some("C:/definitely-does-not-exist-anywhere.exe"), None), true);
    assert!(err.contains("does not exist"));
}

#[test]
fn orchestrate_resolve_tool_rejects_unknown_fetchable_tool_name() {
    let err = refused("some-random-tool", &tool(None, Some("1.0")), true);
    assert!(err.contains("doesn't know how to auto-fetch"));
}

#[test]
fn orchestrate_resolve_tool_composer_without_fetch_reports_not_yet_fetched_when_uncached() {
    let err = refused("composer", &tool(None, Some("0.0.0-not-a-real-version-for-testing")), false);
    assert!(err.contains("not yet fetched"));
}

#[test]
fn tools_come_from_a_path_the_registry_or_a_download() {
    let mut registry = Registry::default();
    registry.register_path("tool", "terraform", "1.7.0", "/t/terraform");
    let pinned = tool(None, Some("1.7.0"));
    assert!(matches!(
        locate_tool("terraform", &pinned, &registry, None),
        Ok(ToolSource::Registered(p)) if p == "/t/terraform"
    ));
    let gone = resolve_tool("terraform", &pinned, true, &registry, None, false).unwrap_err();
    assert_eq!(gone.message("terraform"), "[tool.terraform] registered path no longer exists: /t/terraform");

    let composer = tool(None, Some("2.7.1"));
    match resolve_tool("composer", &composer, true, &registry, Some("/h"), false).unwrap() {
        ToolAction::Fetch { url, dest } => {
            assert_eq!(url, "https://getcomposer.org/download/2.7.1/composer.phar");
            assert_eq!(dest.segments, vec![".stack", "tools", "composer", "2.7.1", "composer.phar"]);
        }
        ToolAction::Use(_) => panic!("it is not there"),
    }
    assert!(matches!(resolve_tool("composer", &composer, false, &registry, Some("/h"), true), Ok(ToolAction::Use(_))));
    let homeless = resolve_tool("composer", &composer, true, &registry, None, false).unwrap_err();
    assert_eq!(homeless.message("composer"), "could not resolve home directory");
    match resolve_tool("x", &tool(Some("/x"), None), false, &registry, None, true).unwrap() {
        ToolAction::Use(p) => assert_eq!((p.base.as_str(), p.segments.len()), ("/x", 0)),
        ToolAction::Fetch { .. } => panic!("it is there"),
    }
}

#[test]
fn shell_integration_match_known_service_matches_expected_engines_case_insensitively() {
    assert_eq!(match_known_service("MySQL80"), Some(("mysql", 3306)));
    assert_eq!(match_known_service("mysql"), Some(("mysql", 3306)));
    assert_eq!(match_known_service("MongoDBR2"), Some(("mongo", 27017)));
    assert_eq!(match_known_service("postgresql-x64-16"), Some(("postgres", 5432)));
}

#[test]
fn shell_integration_match_known_service_returns_none_for_unrelated_names() {
    assert_eq!(match_known_service("Spooler"), None);
    assert_eq!(match_known_service("WindowsUpdate"), None);
}

#[test]
fn orchestrate_match_known_service_matches_expected_engines_case_insensitively() {
    assert_eq!(match_known_service("MySQL80"), Some(("mysql", 3306)));
    assert_eq!(match_known_service("mysql"), Some(("mysql", 3306)));
    assert_eq!(match_known_service("MongoDBR2"), Some(("mongo", 27017)));
    assert_eq!(match_known_service("postgresql-x64-16"), Some(("postgres", 5432)));
}

#[test]
fn orchestrate_match_known_service_returns_none_for_unrelated_names() {
    assert_eq!(match_known_service("Spooler"), None);
    assert_eq!(match_known_service("WindowsUpdate"), None);
}

#[test]
fn shell_integration_escape_pwsh_double_quoted_handles_backtick_dollar_and_quote_together() {
    let raw = "p@ss$word`with`backticks\"and\"quotes";
    let escaped = escape_pwsh_double_quoted(raw);
    assert_eq!(escaped, "p@ss`$word``with``backticks`\"and`\"quotes");
}

#[test]
fn shell_integration_escape_pwsh_double_quoted_is_noop_for_plain_text() {
    assert_eq!(escape_pwsh_double_quoted("plain-value-123"), "plain-value-123");
}

#[test]
fn orchestrate_escape_pwsh_double_quoted_handles_backtick_dollar_and_quote_together() {
    let raw = "p@ss$word`with`backticks\"and\"quotes";
    let escaped = escape_pwsh_double_quoted(raw);
    assert_eq!(escaped, "p@ss`$word``with``backticks`\"and`\"quotes");
}

#[test]
fn orchestrate_escape_pwsh_double_quoted_is_noop_for_plain_text() {
    assert_eq!(escape_pwsh_double_quoted("plain-value-123"), "plain-value-123");
}

const ENV_FILE: &str = "# a full-line comment\n\nPLAIN=value1\nQUOTED=\"value with spaces\"\n";

fn read_pairs() -> Vec<(String, String)> {
    dotenvy::from_read_iter(ENV_FILE.as_bytes()).map(|item| item.unwrap()).collect()
}

#[test]
fn shell_integration_load_env_dotenv_parsing_skips_blanks_and_comments_and_strips_quotes() {
    assert_eq!(
        read_pairs(),
        vec![
            ("PLAIN".to_string(), "value1".to_string()),
            ("QUOTED".to_string(), "value with spaces".to_string()),
        ]
    );
    let loaded = load_env(".env", &ENV_FILE.as_bytes().to_vec());
    assert_eq!(loaded.lines, vec!["$env:PLAIN = \"value1\"", "$env:QUOTED = \"value with spaces\""]);
    assert_eq!(loaded.end, Ok("loaded: PLAIN, QUOTED".to_string()));
}

#[test]
fn orchestrate_load_env_dotenv_parsing_skips_blanks_and_comments_and_strips_quotes() {
    assert_eq!(
        read_pairs(),
        vec![
            ("PLAIN".to_string(), "value1".to_string()),
            ("QUOTED".to_string(), "value with spaces".to_string()),
        ]
    );
}

#[test]
fn environment_files_default_to_dot_env_and_failures_are_named() {
    assert_eq!(env_file(None), ".env");
    assert_eq!(env_file(Some("x.env".to_string())), "x.env");
    assert_eq!(env_file_failed("x.env", false), "failed to open x.env");
    assert_eq!(env_file_failed("x.env", true), "failed to parse x.env");
    let none = load_env("x.env", &Vec::new());
    assert!(none.lines.is_empty());
    assert_eq!(none.end, Ok("loaded: (no variables found in x.env)".to_string()));
}

#[test]
fn variables_are_set_up_to_the_first_that_cannot_be_read() {
    let pair = |k: &str, v: &str| Ok((k.to_string(), v.to_string()));
    let loaded = load_items("x", &vec![pair("K", "a\"$b`"), Err("bad line".to_string()), pair("L", "later")]);
    assert_eq!(loaded.lines, vec!["$env:K = \"a`\"`$b``\""]);
    assert_eq!(loaded.end, Err("failed to parse x: bad line".to_string()));

    let broken = load_env("x", &b"A=1\nthis is no declaration\nB=2\n".to_vec());
    assert_eq!(broken.lines, vec!["$env:A = \"1\""]);
    assert!(broken.end.unwrap_err().starts_with("failed to parse x: "));
}

#[test]
fn running_windows_services_are_pointed_out() {
    assert!(service_query().starts_with("Get-Service -Name 'MySQL*','MongoDB*','postgresql*' "));
    assert_eq!(
        service_hint("MySQL80").unwrap(),
        "  'MySQL80' — if this is the mysql instance you want stack to use, add `external = true` to [service.mysql] in stack.toml (conventionally port 3306, adjust if yours differs)"
    );
    assert_eq!(service_hint("Spooler"), None);
}

#[test]
fn versions_are_read_from_what_a_program_prints() {
    assert_eq!(check_on_path(&ended(true, " v2.11.4 h1:x \nmore", "")), Ok("v2.11.4 h1:x".to_string()));
    assert_eq!(check_on_path(&ended(false, "\n", "1.0\n")), Ok("1.0".to_string()));
    assert_eq!(check_on_path(&ended(true, "", "")), Ok("(no version output)".to_string()));
    assert_eq!(check_on_path(&Ran::NotFound), Err("not found on PATH".to_string()));
    assert_eq!(check_on_path(&Ran::Failed("no".to_string())), Err("failed to run: no".to_string()));
}

#[test]
fn stacks_own_tools_are_checked_against_their_pins() {
    let fine = doctor_tool("uv", &Ok("uv 0.11.7".to_string()), true);
    assert_eq!((fine.lines, fine.ok, fine.install), (vec!["  uv: OK (uv 0.11.7)".to_string()], true, None));
    let other = doctor_tool("uv", &Ok("uv 0.9.0".to_string()), false);
    assert!(other.ok);
    assert_eq!(
        other.lines[1],
        "    warning: stack was tested against uv 0.11.7; installed version may behave differently"
    );
    let missing = doctor_tool("caddy", &Err("not found on PATH".to_string()), true);
    assert_eq!(
        (missing.lines, missing.ok, missing.install),
        (vec!["  caddy: MISSING (not found on PATH)".to_string()], false, Some("2.11.4"))
    );
    assert_eq!(doctor_tool("caddy", &Err("x".to_string()), false).install, None);
    assert_eq!(install_line("uv", "1", None), "  installing uv@1...");
    assert_eq!(install_line("uv", "1", Some(Ok(()))), "  uv: installed");
    assert_eq!(install_line("uv", "1", Some(Err("no"))), "  uv: install failed: no");
    assert_eq!(declared_tool_line("t", Ok("/t")), "  tool.t: OK (/t)");
    assert_eq!(declared_tool_line("t", Err("no")), "  tool.t: MISSING (no)");
    assert!(all_passed(&vec![true, true]));
    assert!(!all_passed(&vec![true, false, true]));
}

#[test]
fn languages_with_a_path_of_their_own_are_checked() {
    let mut language = OrderedMap::new();
    language.insert("php".to_string(), Language::Simple("8.3".to_string()));
    language.insert(
        "own".to_string(),
        Language::Detailed {
            version: None,
            manager: None,
            plugin: None,
            binary: None,
            path: Some("/own".to_string()),
            workers: None,
        },
    );
    let m = Manifest {
        project: Project::default(),
        clones: Vec::new(),
        language,
        service: OrderedMap::new(),
        run: None,
        tool: OrderedMap::new(),
    };
    assert_eq!(byo_languages(&m), vec![("own".to_string(), "/own".to_string())]);
    assert_eq!(byo_language_line("own", "/own", true), "  language.own: OK (/own)");
    assert_eq!(byo_language_line("own", "/own", false), "  language.own: MISSING (/own)");
    assert_eq!(
        project_language_line("php", None),
        "  language.php: not installed yet (will be installed on `stack up`)"
    );
}

#[test]
fn services_are_judged_without_being_started() {
    let mut registry = Registry::default();
    let none = nothing_set();
    let mut svc = service();
    let v = doctor_service("mysql", &svc, &registry, &none, false);
    assert_eq!(
        (v.lines, v.ok),
        (vec!["  service.mysql: no path registered — run `stack register service mysql 8.0 <path>`".to_string()], false)
    );
    registry.register_path("service", "mysql", "8.0", "/m");
    assert_eq!(doctor_service_port("mysql", &svc, &registry, &none), None);
    assert!(doctor_service("mysql", &svc, &registry, &none, false).ok);
    svc.port = Some(PortValue::Template("{NOPE}".to_string()));
    let v = doctor_service("mysql", &svc, &registry, &none, false);
    assert!(!v.ok);
    assert_eq!(v.lines[1], "  service.mysql: port placeholder unresolved (missing required value(s): NOPE)");

    svc.external = true;
    assert_eq!(doctor_service_port("mysql", &svc, &registry, &none), Some(3306));
    let v = doctor_service("mysql", &svc, &registry, &none, true);
    assert_eq!((v.lines, v.ok), (vec!["  service.mysql: OK (external, listening on 3306)".to_string()], true));
    let v = doctor_service("mysql", &svc, &registry, &none, false);
    assert_eq!(v.lines, vec!["  service.mysql: nothing listening on 3306 (marked external)"]);
    let v = doctor_service("redis", &svc, &registry, &none, false);
    assert_eq!(v.lines, vec!["  service.redis: external, but no port resolvable — set [service.redis].port"]);
    svc.path = Some("/x".to_string());
    let v = doctor_service("mysql", &svc, &registry, &none, true);
    assert!(!v.ok && v.lines[0].starts_with("  service.mysql: INVALID ([service.mysql] can't set path/command"));
}

#[test]
fn runs_are_judged_without_being_started() {
    let none = nothing_set();
    let mut run = Run {
        command: Some("serve {port} {A} {B}".to_string()),
        port: Some(PortValue::Literal(8000)),
        cwd: ".".to_string(),
        external: false,
    };
    assert_eq!(doctor_run_port(&run, false, &none), Some(8000));
    let v = doctor_run(&run, false, &none, true);
    assert_eq!(
        (v.lines, v.ok),
        (
            vec![
                "  [run]: port 8000 already in use".to_string(),
                "  [run]: command has unresolved placeholder(s): A, B".to_string()
            ],
            false
        )
    );
    run.command = Some("serve {port}".to_string());
    let v = doctor_run(&run, false, &none, false);
    assert!(v.ok && v.lines.is_empty());
    run.port = Some(PortValue::Template("{NOPE}".to_string()));
    let v = doctor_run(&run, false, &none, false);
    assert_eq!(v.lines, vec!["  [run]: port unresolved (missing required value(s): NOPE)"]);

    run.external = true;
    let v = doctor_run(&run, false, &none, false);
    assert!(v.lines[0].starts_with("  [run]: INVALID ([run].command is ignored"));
    run.command = None;
    run.port = Some(PortValue::Literal(5173));
    assert_eq!(doctor_run(&run, false, &none, true).lines, vec!["  [run]: OK (external, listening on 5173)"]);
    assert_eq!(doctor_run(&run, false, &none, false).lines, vec!["  [run]: nothing listening on 5173 (marked external)"]);
}

#[test]
fn the_prompt_is_marked_once() {
    let mark = "\x1b[38;2;255;138;7m[stack]\x1b[0m ";
    let first = active_indicator("cmd", ACCENT, None).unwrap();
    assert_eq!(first, format!("SET PROMPT={mark}$P$G"));
    let again = active_indicator("cmd", ACCENT, Some(&format!("{mark}$P$G"))).unwrap();
    assert_eq!(again, first);
    assert_eq!(active_indicator("pwsh", ACCENT, None).unwrap(), "$global:__StackActive = $true");
    assert_eq!(active_indicator("bash", ACCENT, None), None);
    assert_eq!(path_line("powershell", "/a", "").unwrap(), "$env:PATH = \"/a;\" + $env:PATH");
    assert_eq!(path_line("cmd", "/a", "/old").unwrap(), "SET PATH=/a;/old");
    assert_eq!(path_line("bash", "/a", ""), None);
}

#[test]
fn composer_is_shadowed_by_the_projects_own() {
    let found = Some(("C:/it's/php.exe", "C:/composer.phar"));
    match composer_shadow("pwsh", found) {
        Shadow::Line(s) => assert_eq!(s, "function global:composer { & 'C:/it''s/php.exe' 'C:/composer.phar' @args }"),
        other => panic!("{other:?}"),
    }
    match composer_shadow("cmd", found) {
        Shadow::BatchFile(s) => assert_eq!(s, "@echo off\r\n\"C:/it's/php.exe\" \"C:/composer.phar\" %*\r\n"),
        other => panic!("{other:?}"),
    }
    assert!(matches!(composer_shadow("cmd", None), Shadow::Clear));
    assert!(matches!(composer_shadow("pwsh", None), Shadow::Leave));
    assert!(matches!(composer_shadow("bash", found), Shadow::Leave));
}

#[test]
fn hooks_are_written_for_powershell_and_the_command_prompt() {
    let script = hook_script("pwsh", ACCENT).unwrap();
    assert!(script.starts_with("$global:__StackOriginalPath = $env:PATH\n"));
    assert!(script.contains("\"$e[38;2;255;138;7m[stack]$e[0m \" + $__stackOrigPrompt"));
    assert!(script.ends_with("        & stack.exe @args\n    }\n}"));
    assert_eq!(hook_script("powershell", ACCENT).unwrap(), script);
    assert_eq!(hook_script("cmd", ACCENT).unwrap(), CMD_HOOK);
    assert_eq!(hook_script("fish", ACCENT).unwrap_err().message(), "no activation script for shell 'fish' yet");
}

#[test]
fn the_hook_is_installed_once() {
    let added = ensure_hook_installed("pwsh", "Set-Alias g git\n").unwrap();
    assert_eq!(added, format!("\n{}\n", hook_line("pwsh")));
    assert_eq!(hook_line("pwsh"), "Invoke-Expression (& stack hook pwsh | Out-String)  # stack shell hook");
    assert_eq!(ensure_hook_installed("pwsh", &format!("Set-Alias g git\n{added}")), None);

    assert_eq!(ensure_cmd_hook_installed(None).unwrap(), CMD_HOOK);
    assert_eq!(ensure_cmd_hook_installed(Some(&format!("{CMD_HOOK}\r\n"))), None);
    assert!(ensure_cmd_hook_installed(Some("old")).is_some());

    assert_eq!(profile_path("pwsh", Some(" C:/p.ps1\r\n")).unwrap(), "C:/p.ps1");
    assert_eq!(profile_path("pwsh", Some(" ")).unwrap_err().message(), "PowerShell returned an empty $PROFILE path");
    assert_eq!(profile_path("pwsh", None).unwrap_err().message(), "neither pwsh nor powershell found on PATH");
    assert_eq!(profile_path("zsh", None).unwrap_err().message(), "no profile-path resolution for shell 'zsh' yet");
}

#[test]
fn languages_come_from_a_path_a_manager_or_the_registry() {
    let mut registry = Registry::default();
    let simple = |v: &str| Language::Simple(v.to_string());
    match resolve("node", &simple("20"), &registry, ".exe").unwrap() {
        Source::Vfox { plugin, version, binary } => {
            assert_eq!((plugin.as_str(), version.as_str(), binary.as_str()), ("nodejs", "20", "node.exe"))
        }
        other => panic!("{other:?}"),
    }
    assert!(matches!(resolve("python", &simple("3.12"), &registry, ""), Ok(Source::Uv { version }) if version == "3.12"));
    let unknown = resolve("zig", &simple("0.13"), &registry, "").unwrap_err();
    assert_eq!(
        unknown.message("zig", "0.13"),
        "[language.zig] has no known default manager — set `manager` explicitly (supported: vfox, uv), or register a BYO path via `stack register language zig 0.13 <path>`"
    );
    registry.register_path("language", "zig", "0.13", "/zig");
    assert!(matches!(resolve("zig", &simple("0.13"), &registry, ""), Ok(Source::Registered(p)) if p == "/zig"));

    let detailed = |manager: Option<&str>, path: Option<&str>, version: Option<&str>| Language::Detailed {
        version: version.map(str::to_string),
        manager: manager.map(str::to_string),
        plugin: Some("plug".to_string()),
        binary: Some("bin".to_string()),
        path: path.map(str::to_string),
        workers: None,
    };
    assert!(matches!(resolve("php", &detailed(Some("asdf"), Some("/own"), None), &registry, ""), Ok(Source::OwnPath(_))));
    assert!(matches!(resolve("php", &detailed(None, None, None), &registry, ""), Err(SourceError::NoVersion)));
    let odd = resolve("php", &detailed(Some("asdf"), None, Some("8")), &registry, "").unwrap_err();
    assert_eq!(odd.message("php", "8"), "[language.php]: unknown manager 'asdf' (supported: vfox, uv)");
    assert!(lookup("php", &detailed(Some("asdf"), None, Some("8")), &registry, "").is_none());
    assert_eq!(
        vfox_plugin_and_binary("rust", &detailed(Some("vfox"), None, Some("1")), ".exe"),
        ("plug".to_string(), "bin".to_string())
    );
    assert_eq!(missing_file_message("php", "/p", false), "[language.php].path does not exist: /p");
    assert_eq!(missing_file_message("php", "/p", true), "[language.php] registered path no longer exists: /p");
}

#[test]
fn a_missing_version_is_installed_once() {
    let wanted = Wanted::Vfox { plugin: "php".to_string(), version: "8.3".to_string() };
    let absent = vfox_version_dir("php", "8.3", &ended(true, "notfound\n", ""));
    assert!(matches!(absent, Answer::NotInstalled));
    assert!(matches!(next_step(&wanted, absent, false), Next::Install));
    match next_step(&wanted, Answer::NotInstalled, true) {
        Next::Fail(m) => assert_eq!(m, "php@8.3 still not found after install"),
        other => panic!("{other:?}"),
    }
    let there = vfox_version_dir("php", "8.3", &ended(true, " /c/php \n", ""));
    assert!(matches!(confirmed(there, true), Answer::At(p) if p == "/c/php"));
    assert!(matches!(confirmed(Answer::At("/gone".to_string()), false), Answer::NotInstalled));
    assert!(matches!(next_step(&wanted, Answer::At("/p".to_string()), false), Next::Use(p) if p == "/p"));
    match vfox_version_dir("php", "8.3", &ended(false, "", " bad \n")) {
        Answer::NotRunnable(m) => assert_eq!(m, "vfox info php@8.3 failed: bad"),
        other => panic!("{other:?}"),
    }
    match next_step(&wanted, vfox_version_dir("php", "8.3", &Ran::NotFound), false) {
        Next::Fail(m) => assert_eq!(m, "vfox is not installed or not on PATH"),
        other => panic!("{other:?}"),
    }
    assert_eq!(wanted.installing_line(), "installing php@8.3 via vfox...");
    assert_eq!(wanted.install_failed(), "vfox install php@8.3 failed");

    let python = Wanted::Python { version: "3.12".to_string() };
    assert!(matches!(uv_python_find(&ended(false, "/ignored", "")), Answer::NotInstalled));
    assert!(matches!(uv_python_find(&ended(true, "\n", "")), Answer::NotInstalled));
    assert!(matches!(uv_python_find(&ended(true, "/py\n", "")), Answer::At(p) if p == "/py"));
    match next_step(&python, Answer::NotInstalled, true) {
        Next::Fail(m) => assert_eq!(m, "uv could not resolve python 3.12 after install"),
        other => panic!("{other:?}"),
    }
    assert_eq!(python.install_failed(), "uv python install 3.12 failed");
}

#[test]
fn binaries_are_looked_for_one_level_deep() {
    let nested = vec![
        Nested { dir: "/i/a".to_string(), has_binary: false },
        Nested { dir: "/i/b".to_string(), has_binary: true },
        Nested { dir: "/i/c".to_string(), has_binary: true },
    ];
    assert_eq!(find_binary("/i", "php", true, &nested).unwrap().base, "/i");
    assert_eq!(find_binary("/i", "php", false, &nested).unwrap().base, "/i/b");
    assert!(find_binary("/i", "php", false, &Vec::new()).is_none());
    assert_eq!(no_binary_message("php", "/i"), "php not found under /i");
}

#[test]
fn routes_are_replaced_by_id() {
    let push = caddy::push_route("shop", "shop.localhost", 8000);
    assert_eq!(push.delete_url, "http://127.0.0.1:2019/id/stack-shop");
    assert_eq!(push.post_url, "http://127.0.0.1:2019/config/apps/http/servers/srv0/routes");
    let expected: serde_json::Value = serde_json::from_str(
        r#"{"@id":"stack-shop","match":[{"host":["shop.localhost"]}],"handle":[{"handler":"reverse_proxy","upstreams":[{"dial":"127.0.0.1:8000"}]}]}"#,
    )
    .unwrap();
    assert_eq!(push.route, expected);
    assert_eq!(caddy::route_id("shop"), "stack-shop");
    assert_eq!(caddy::config_url(), "http://127.0.0.1:2019/config/");
    assert_eq!(caddy::load_url(), "http://127.0.0.1:2019/load");
    let base: serde_json::Value =
        serde_json::from_str(r#"{"apps":{"http":{"servers":{"srv0":{"listen":[":80"],"routes":[]}}}}}"#).unwrap();
    assert_eq!(caddy::base_config(), base);
}

#[test]
fn php_routes_try_files_before_the_front_controller() {
    let push = caddy::push_fastcgi_route("shop", "shop.localhost", 9000, "/srv/public");
    let expected: serde_json::Value = serde_json::from_str(
        r#"{"@id":"stack-shop","match":[{"host":["shop.localhost"]}],"handle":[{"handler":"subroute","routes":[
            {"match":[{"file":{"root":"/srv/public",
                "try_files":["{http.request.uri.path}","{http.request.uri.path}/index.php","index.php"],
                "try_policy":"first_exist_fallback"}}],
             "handle":[{"handler":"rewrite","uri":"{http.matchers.file.relative}"}]},
            {"handle":[{"handler":"reverse_proxy","upstreams":[{"dial":"127.0.0.1:9000"}],
                "transport":{"protocol":"fastcgi","root":"/srv/public","split_path":[".php"]}}]}]}]}"#,
    )
    .unwrap();
    assert_eq!(push.route, expected);
}

#[test]
fn caddy_is_run_from_the_path_or_the_tools_store() {
    let on_path = caddy::resolve_caddy_binary(true, None, "", false).unwrap();
    assert_eq!((on_path.base.as_str(), on_path.segments.len()), ("caddy", 0));
    let pinned = caddy::resolve_caddy_binary(false, Some("/h"), ".exe", true).unwrap();
    assert_eq!(pinned.segments, vec![".stack", "tools", "caddy", "2.11.4", "caddy.exe"]);
    assert_eq!(caddy::resolve_caddy_binary(false, None, "", true).unwrap_err(), caddy::CaddyError::NoHome);
    assert_eq!(
        caddy::resolve_caddy_binary(false, Some("/h"), "", false).unwrap_err().message(),
        "caddy not found on PATH or in the pinned tools store — run `stack doctor --fix`"
    );
    let i = command_words(&caddy::run_command("/My Tools/caddy's")).unwrap();
    assert_eq!((i.program.as_str(), i.args), ("/My Tools/caddy's", vec!["run".to_string()]));
    assert_eq!(caddy::after_attempt(0, true), caddy::Readiness::Ready);
    assert_eq!(caddy::after_attempt(29, false), caddy::Readiness::AskAgain);
    assert_eq!(caddy::after_attempt(30, true), caddy::Readiness::GiveUp);
    assert!(caddy::remove_route(&caddy::Removal::Status(404, "gone".to_string())).is_ok());
    assert!(caddy::remove_route(&caddy::Removal::Done).is_ok());
    assert_eq!(
        caddy::remove_route(&caddy::Removal::Status(500, "oops".to_string())).unwrap_err(),
        "failed to remove route: oops"
    );
    assert_eq!(
        caddy::remove_route(&caddy::Removal::Failed("down".to_string())).unwrap_err(),
        "failed to remove route: down"
    );
}

#[test]
fn platforms_differ_in_how_processes_are_handled() {
    let call = kill_tree(Os::Windows, 42);
    assert_eq!((call.program, call.args), ("taskkill", vec!["/T".into(), "/F".into(), "/PID".into(), "42".to_string()]));
    let call = kill_tree(Os::Linux, 42);
    assert_eq!((call.program, call.args), ("kill", vec!["-TERM".into(), "-42".to_string()]));
    assert_eq!(alive_query(Os::Windows, 42).args[1], "PID eq 42");
    assert_eq!(alive_query(Os::Macos, 42).args, vec!["-0", "42"]);
    assert!(is_alive(Os::Windows, 42, false, "php.exe   42 Console"));
    assert!(!is_alive(Os::Windows, 42, true, "INFO: No tasks are running"));
    assert!(is_alive(Os::Linux, 42, true, ""));
    assert_eq!(kill_failed(Os::Windows, 7), "taskkill failed for pid 7");
    assert_eq!(kill_failed(Os::Linux, 7), "kill failed for pid 7");
}

#[test]
fn pinned_tools_are_installed_on_windows_only() {
    match install_pinned(Os::Windows, "vfox", "1.0.11").unwrap() {
        Install::Installer { url, name } => {
            assert_eq!(
                url,
                "https://github.com/version-fox/vfox/releases/download/v1.0.11/vfox_1.0.11_windows_setup_x86_64.exe"
            );
            assert_eq!(name, "vfox");
        }
        other => panic!("{other:?}"),
    }
    match install_pinned(Os::Windows, "caddy", "2.11.4").unwrap() {
        Install::Archive { url, .. } => assert_eq!(
            url,
            "https://github.com/caddyserver/caddy/releases/download/v2.11.4/caddy_2.11.4_windows_amd64.zip"
        ),
        other => panic!("{other:?}"),
    }
    assert!(matches!(install_pinned(Os::Windows, "uv", "0.11.7"), Ok(Install::Archive { .. })));
    assert_eq!(
        install_pinned(Os::Windows, "git", "1").unwrap_err(),
        "no install_pinned strategy known for 'git' on Windows"
    );
    assert_eq!(
        install_pinned(Os::Macos, "uv", "1").unwrap_err(),
        "install_pinned(uv, 1) not yet implemented — see PLAN.md step 25"
    );
    assert_eq!(install_pinned(Os::Linux, "uv", "1").unwrap_err(), "install_pinned(uv, 1) not yet implemented");
    assert_eq!(
        install_pinned(Os::OtherUnix, "uv", "1").unwrap_err(),
        "no install_pinned implementation for this Unix target (uv 1)"
    );
    assert_eq!(install_dir("/h", "uv", "1").segments, vec![".stack", "tools", "uv", "1"]);
    assert_eq!(extract_step(false, "../x"), Extract::Skip);
    assert_eq!(extract_step(true, "dir/"), Extract::MakeDir);
    assert_eq!(extract_step(true, "dir/uv.exe"), Extract::WriteFile);
}

#[test]
fn the_shell_is_known_by_its_parent_process() {
    assert_eq!(shell_of_parent(Some("CMD.EXE")), "cmd");
    assert_eq!(shell_of_parent(Some("cmd")), "cmd");
    assert_eq!(shell_of_parent(Some("PowerShell.exe")), "powershell");
    assert_eq!(shell_of_parent(Some("pwsh.exe")), "pwsh");
    assert_eq!(shell_of_parent(Some("explorer.exe")), "pwsh");
    assert_eq!(shell_of_parent(None), "pwsh");
    assert_eq!(shell_of_lower("powershell"), "powershell");
    assert_eq!(shell_of_lower("cmdx"), "pwsh");
}

#[test]
fn a_path_counts_where_it_leads_to_a_file() {
    assert_eq!(existing_file("php", "/p".to_string(), false, true).unwrap(), "/p");
    assert_eq!(existing_file("php", "/p".to_string(), true, true).unwrap(), "/p");
    assert_eq!(existing_file("php", "/p".to_string(), false, false).unwrap_err(), "[language.php].path does not exist: /p");
    assert_eq!(
        existing_file("php", "/p".to_string(), true, false).unwrap_err(),
        "[language.php] registered path no longer exists: /p"
    );
}

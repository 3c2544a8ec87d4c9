//! Profiles and the commands about them.

use stackenv::commands::profile::{
    activate_or_exec, changed_path, choose_editor, deactivate, default_profile_record_path, describe_language,
    editor_words, effective_profile_context, emit_activation_script, exec_with, exec_words, is_default,
    list_line, list_names, malformed_pin, no_profile_message, not_in_a_profile, not_installed_warning,
    parse_activation_args, profile_file_path, profile_kind, set_default_profile, validate_profile_name,
    which, which_summary, ArgsError, DefaultProfileRecord, NameError, ProfileInvocation, Purpose,
    RESERVED_PROFILE_NAMES,
};
use stackenv::manifest::{Language, Manifest, Project, Tool};
use stackenv::ordered_map::OrderedMap;

fn words(list: &[&str]) -> Vec<String> {
    list.iter().map(|s| s.to_string()).collect()
}

fn manifest(name: &str, languages: &[(&str, &str)], tools: &[&str]) -> Manifest {
    let mut language = OrderedMap::new();
    for (n, v) in languages {
        language.insert(n.to_string(), Language::Simple(v.to_string()));
    }
    let mut tool = OrderedMap::new();
    for n in tools {
        tool.insert(n.to_string(), Tool { path: None, version: Some("1".to_string()) });
    }
    Manifest {
        project: Project { name: name.to_string(), domain: None },
        clones: Vec::new(),
        language,
        service: OrderedMap::new(),
        run: None,
        tool,
    }
}

#[test]
fn validate_profile_name_accepts_letters_digits_dash_underscore_dot() {
    assert!(validate_profile_name("php-8_3.legacy").is_ok());
}

#[test]
fn validate_profile_name_rejects_empty() {
    assert!(validate_profile_name("").is_err());
}

#[test]
fn validate_profile_name_rejects_path_separators() {
    assert!(validate_profile_name("../escape").is_err());
    assert!(validate_profile_name("sub/dir").is_err());
}

#[test]
fn validate_profile_name_rejects_reserved_verbs() {
    for reserved in RESERVED_PROFILE_NAMES {
        assert!(validate_profile_name(reserved).is_err());
    }
}

#[test]
fn refused_profile_names_are_explained() {
    assert_eq!(validate_profile_name("a b"), Err(NameError::Malformed));
    assert_eq!(validate_profile_name("é"), Err(NameError::Malformed));
    assert_eq!(validate_profile_name("list"), Err(NameError::Reserved));
    assert_eq!(
        NameError::Malformed.message("a b"),
        "profile name 'a b' isn't valid — use letters, digits, '-', '_', or '.' only"
    );
    assert_eq!(
        NameError::Reserved.message("rm"),
        "'rm' is reserved for `stack profile rm <...>` — pick a different profile name"
    );
}

#[test]
fn parse_activation_args_bare_name_is_activate() {
    let args = vec!["myprofile".to_string()];
    match parse_activation_args(&args).unwrap() {
        ProfileInvocation::Activate(name) => assert_eq!(name, "myprofile"),
        ProfileInvocation::Exec(..) => panic!("expected Activate"),
    }
}

#[test]
fn parse_activation_args_with_exec_flag_captures_command() {
    let args = vec!["myprofile".to_string(), "--exec".to_string(), "php script.php".to_string()];
    match parse_activation_args(&args).unwrap() {
        ProfileInvocation::Exec(name, command) => {
            assert_eq!(name, "myprofile");
            assert_eq!(command, "php script.php");
        }
        ProfileInvocation::Activate(_) => panic!("expected Exec"),
    }
}

#[test]
fn parse_activation_args_exec_without_a_value_errors() {
    let args = vec!["myprofile".to_string(), "--exec".to_string()];
    assert!(parse_activation_args(&args).is_err());
}

#[test]
fn parse_activation_args_rejects_unexpected_extra_arguments() {
    let args = vec!["myprofile".to_string(), "somethingelse".to_string()];
    assert!(parse_activation_args(&args).is_err());
}

#[test]
fn parse_activation_args_empty_errors() {
    assert!(parse_activation_args(&Vec::new()).is_err());
}

#[test]
fn activation_arguments_are_explained_where_they_are_wrong() {
    let no_name = activate_or_exec(&Vec::new()).unwrap_err();
    assert_eq!(no_name.message(), "stack profile <name> (or `stack profile` alone for the wizard)");
    let extra = activate_or_exec(&words(&["p", "x", "y"])).unwrap_err();
    assert_eq!(extra.message(), "unexpected extra argument(s) after profile name: x y");
    assert!(matches!(activate_or_exec(&words(&["p", "--exec"])), Err(ArgsError::NoCommand)));
    let bad = activate_or_exec(&words(&["../p"])).unwrap_err();
    assert!(bad.message().starts_with("profile name '../p' isn't valid"));
    assert!(matches!(activate_or_exec(&words(&["p"])), Ok(ProfileInvocation::Activate(n)) if n == "p"));
    assert!(matches!(
        activate_or_exec(&words(&["p", "junk", "--exec", "a", "--exec", "b"])),
        Ok(ProfileInvocation::Exec(_, c)) if c == "a"
    ));
}

#[test]
fn profiles_are_kept_and_listed_by_file() {
    let path = profile_file_path("/home/u", "web");
    assert_eq!(path.segments, vec![".stack", "profiles", "web.toml"]);
    assert_eq!(default_profile_record_path("/home/u").segments, vec![".stack", "default_profile.json"]);
    let files = words(&["web.toml", ".toml", "notes.txt", "api.v2.toml", "toml", "API.toml"]);
    assert_eq!(list_names(&files), vec!["API", "api.v2", "web"]);
    assert_eq!(no_profile_message("x", Purpose::Remove), "no saved profile named 'x'");
    assert!(no_profile_message("x", Purpose::Load).ends_with("or `stack profile list` to see what exists"));
}

#[test]
fn changing_the_default_profile_takes_away_what_the_old_one_put_there() {
    let mut record = DefaultProfileRecord::default();
    let change = set_default_profile(&mut record, Some("web"), words(&["/php", "/node"])).unwrap();
    assert!(change.remove.is_empty());
    assert_eq!(change.add, vec!["/php", "/node"]);
    assert!(is_default(&record, "web"));

    assert_eq!(set_default_profile(&mut record, Some("a/b"), Vec::new()).unwrap_err(), NameError::Malformed);
    assert_eq!(record.injected_dirs, vec!["/php", "/node"]);

    let change = set_default_profile(&mut record, None, words(&["/ignored"])).unwrap();
    assert_eq!(change.remove, vec!["/php", "/node"]);
    assert!(change.add.is_empty());
    assert_eq!(record.name, None);
    assert!(record.injected_dirs.is_empty());
    assert!(!is_default(&record, "web"));
}

#[test]
fn clearing_the_default_profile_leaves_the_users_own_path() {
    let own = words(&["/usr/bin", "/opt/tools"]);
    let mut record = DefaultProfileRecord::default();
    let set = set_default_profile(&mut record, Some("web"), words(&["/php", "/node"])).unwrap();
    let with = changed_path(&own, &set);
    assert_eq!(with, vec!["/php", "/node", "/usr/bin", "/opt/tools"]);
    let clear = set_default_profile(&mut record, None, Vec::new()).unwrap();
    assert_eq!(changed_path(&with, &clear), own);
}

#[test]
fn activation_scripts_are_written_for_the_shell() {
    assert_eq!(
        emit_activation_script("cmd", Some("web"), "/a;/b", true, "/old"),
        vec!["SET STACK_ACTIVE_PROFILE=web", "SET PATH=/a;/b;/old"]
    );
    assert_eq!(emit_activation_script("cmd", None, "", false, "/old"), vec!["SET STACK_ACTIVE_PROFILE_PATHS="]);
    assert_eq!(
        emit_activation_script("pwsh", None, "/a", true, ""),
        vec![
            "$env:STACK_ACTIVE_PROFILE_PATHS = \"/a\"",
            "Remove-Item Env:\\STACK_ACTIVE_PROFILE -ErrorAction SilentlyContinue",
            "$env:PATH = \"/a;\" + $env:PATH"
        ]
    );
    assert_eq!(
        emit_activation_script("pwsh", Some("web"), "", false, ""),
        vec![
            "$env:STACK_ACTIVE_PROFILE = \"web\"",
            "Remove-Item Env:\\STACK_ACTIVE_PROFILE_PATHS -ErrorAction SilentlyContinue"
        ]
    );
    assert_eq!(deactivate("cmd", false, false), None);
    assert_eq!(
        deactivate("cmd", true, false).unwrap(),
        vec!["SET STACK_ACTIVE_PROFILE=", "SET STACK_ACTIVE_PROFILE_PATHS="]
    );
    assert_eq!(deactivate("pwsh", false, true).unwrap().len(), 2);
}

#[test]
fn ad_hoc_pins_are_read_up_to_the_first_that_is_malformed() {
    let plan = exec_with("php@8.3, node@20@x", &words(&["php", "-v"])).unwrap();
    assert_eq!(plan.pins, vec![("php".to_string(), "8.3".to_string()), ("node".to_string(), "20@x".to_string())]);
    assert_eq!(plan.malformed, None);
    assert_eq!((plan.program.as_str(), plan.args), ("php", words(&["-v"])));

    let plan = exec_with("php@8.3, node ,uv@1", &words(&["x"])).unwrap();
    assert_eq!(plan.pins.len(), 1);
    assert_eq!(malformed_pin(&plan.malformed.unwrap()), "'node' isn't in name@version form");
    assert_eq!(
        exec_with("php@8.3", &Vec::new()).unwrap_err(),
        "stack exec --with <name@version,...> -- <command> [args...]"
    );
}

#[test]
fn commands_of_a_profile_are_split_into_words() {
    let i = exec_words("php \"a b.php\" -v").unwrap();
    assert_eq!((i.program.as_str(), i.args), ("php", words(&["a b.php", "-v"])));
    assert_eq!(exec_words("").unwrap_err(), "--exec command is empty");
    assert_eq!(exec_words("'x").unwrap_err(), "could not parse command ''x': missing closing quote");
}

#[test]
fn editors_are_chosen_and_split() {
    assert_eq!(choose_editor(Some("code -w".to_string()), Some("ed".to_string()), true), "code -w");
    assert_eq!(choose_editor(None, Some("ed".to_string()), true), "ed");
    assert_eq!(choose_editor(None, None, true), "notepad.exe");
    assert_eq!(choose_editor(None, None, false), "vi");
    let i = editor_words("code -w");
    assert_eq!((i.program.as_str(), i.args), ("code", words(&["-w"])));
    assert_eq!(editor_words("odd'name").program, "odd'name");
    assert_eq!(editor_words("").program, "");
}

#[test]
fn profiles_are_shown_with_their_standing() {
    assert_eq!(list_line("web", Some("web"), Some("web")), "  web (active, default)");
    assert_eq!(list_line("web", Some("web"), None), "  web (active)");
    assert_eq!(list_line("web", Some("api"), Some("web")), "  web (default)");
    assert_eq!(list_line("web", None, None), "  web");
    assert_eq!(describe_language("php", Some("8.3"), None), "  language.php: 8.3 -> not installed yet");
    assert_eq!(describe_language("php", None, Some("/p")), "  language.php: ? -> /p");
    assert_eq!(
        not_installed_warning("web", "php", Some("8.3")),
        "warning: profile 'web': php 8.3 not installed yet — run `stack doctor --fix` or `stack profile web --exec \"php --version\"` to install on demand"
    );
    assert!(profile_kind("tool") && profile_kind("language") && !profile_kind("service"));
    assert!(not_in_a_profile(true).contains("a profile has no [service.*]"));
}

#[test]
fn which_goes_by_project_then_profile() {
    let project = manifest("shop", &[("php", "8.3")], &["composer"]);
    let web = manifest("", &[("php", "8.1"), ("node", "20")], &[]);
    let profile = Some(("web", &web));
    assert_eq!(which("php", Some(&project), Some("/p"), None, profile, Some("/q")), "php: /p (project 'shop')");
    assert_eq!(
        which("php", Some(&project), None, None, profile, Some("/q")),
        "php: pinned by project 'shop' (8.3) but not installed yet"
    );
    assert_eq!(
        which("composer", Some(&project), None, Some("/c.phar"), profile, None),
        "composer: /c.phar (tool, project 'shop')"
    );
    assert_eq!(
        which("composer", Some(&project), None, None, profile, None),
        "composer: not pinned by the current project or any active/default profile"
    );
    assert_eq!(which("node", Some(&project), None, None, profile, Some("/n")), "node: /n (profile 'web')");
    assert_eq!(which("node", None, None, None, profile, None), "node: pinned by profile 'web' but not installed yet");
    assert_eq!(
        which_summary(None, None, true, None),
        vec![
            "project: (none — not inside a stack-managed directory)",
            "active profile: (ad hoc, unsaved)",
            "default profile: (none)"
        ]
    );
    assert_eq!(which_summary(Some(("shop", "/s/stack.toml")), Some("web"), true, Some("d"))[0], "project: shop (/s/stack.toml)");
    assert_eq!(effective_profile_context(None, true).as_deref(), Some("default"));
    assert_eq!(effective_profile_context(Some("web".to_string()), true).as_deref(), Some("web"));
    assert_eq!(effective_profile_context(None, false), None);
}

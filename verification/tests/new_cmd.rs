use pact::cli::{plan_new, GlobalOpts, ColorChoice, NewCmd, NewError};
use pact::name::{validate_name, NameError, NameRule};
use pact::template::{
    substitute_name, template_files, Template, AGENT_MANIFEST, BIN_MANIFEST, LIB_SRC,
};

fn opts(quiet: bool) -> GlobalOpts {
    GlobalOpts { verbosity: 0, quiet, color: ColorChoice::Auto, target_dir: None }
}

fn new_cmd(name: &str, template: Template, force: bool) -> NewCmd {
    NewCmd { name: name.to_string(), template, force }
}

// --- template tables ----------------------------------------------------

#[test]
fn bin_template_has_four_files() {
    assert_eq!(template_files(Template::Bin).len(), 4);
}

#[test]
fn lib_template_has_four_files() {
    assert_eq!(template_files(Template::Lib).len(), 4);
}

#[test]
fn agent_template_has_four_files() {
    assert_eq!(template_files(Template::Agent).len(), 4);
}

#[test]
fn bin_manifest_has_name_placeholder() {
    assert!(
        BIN_MANIFEST.contains("{{name}}"),
        "bin pact.toml template missing {{{{name}}}} placeholder"
    );
}

#[test]
fn lib_src_has_name_placeholder() {
    assert!(
        LIB_SRC.contains("{{name}}"),
        "lib src template missing {{{{name}}}} placeholder"
    );
}

#[test]
fn agent_manifest_has_name_placeholder() {
    assert!(
        AGENT_MANIFEST.contains("{{name}}"),
        "agent pact.toml template missing {{{{name}}}} placeholder"
    );
}

#[test]
fn template_paths_are_as_listed() {
    let bin: Vec<&str> = template_files(Template::Bin).iter().map(|f| f.path).collect();
    assert_eq!(bin, vec!["pact.toml", "src/main.pact", "test/main_test.pact", ".gitignore"]);
    let lib: Vec<&str> = template_files(Template::Lib).iter().map(|f| f.path).collect();
    assert_eq!(lib, vec!["pact.toml", "src/lib.pact", "test/lib_test.pact", ".gitignore"]);
    assert_eq!(template_files(Template::Bin)[0].content, BIN_MANIFEST);
    assert_eq!(template_files(Template::Agent)[0].content, AGENT_MANIFEST);
}

// --- name substitution --------------------------------------------------

#[test]
fn placeholder_replacement_replaces_all() {
    let template = "name = \"{{name}}\"\n-- {{name}} library\n";
    let result = substitute_name(template, "mypkg");
    assert_eq!(result, "name = \"mypkg\"\n-- mypkg library\n");
    assert!(
        !result.contains("{{name}}"),
        "replacement left a residual placeholder"
    );
}

#[test]
fn substitution_without_placeholder_keeps_text() {
    assert_eq!(substitute_name("no placeholder {name} {{nam}}", "x"), "no placeholder {name} {{nam}}");
    assert_eq!(substitute_name("", "x"), "");
    assert_eq!(substitute_name("{{name}}{{name}}", "ab"), "abab");
    assert_eq!(substitute_name("{{{name}}}", "q"), "{q}");
}

// --- Template display ----------------------------------------------------

#[test]
fn template_display_bin() {
    assert_eq!(Template::Bin.to_string(), "bin");
}

#[test]
fn template_display_lib() {
    assert_eq!(Template::Lib.to_string(), "lib");
}

#[test]
fn template_display_agent() {
    assert_eq!(Template::Agent.to_string(), "agent");
}

// --- validate_name ------------------------------------------------------

#[test]
fn validate_name_rejects_empty() {
    assert!(validate_name("").is_err());
}

#[test]
fn validate_name_rejects_path_traversal_forward_slash() {
    assert!(validate_name("../evil").is_err());
}

#[test]
fn validate_name_rejects_path_traversal_backslash() {
    assert!(validate_name("..\\evil").is_err());
}

#[test]
fn validate_name_rejects_absolute_path() {
    assert!(validate_name("/tmp/bad").is_err());
}

#[test]
fn validate_name_rejects_spaces() {
    assert!(validate_name("my app").is_err());
}

#[test]
fn validate_name_rejects_uppercase() {
    assert!(validate_name("MyApp").is_err());
}

#[test]
fn validate_name_rejects_single_dot() {
    assert!(validate_name(".").is_err());
}

#[test]
fn validate_name_rejects_double_dot() {
    assert!(validate_name("..").is_err());
}

#[test]
fn validate_name_accepts_single_char() {
    assert!(validate_name("a").is_ok());
}

#[test]
fn validate_name_accepts_hyphenated() {
    assert!(validate_name("my-app").is_ok());
}

#[test]
fn validate_name_rejects_leading_hyphen() {
    assert!(validate_name("-myapp").is_err());
}

#[test]
fn validate_name_rejects_trailing_hyphen() {
    assert!(validate_name("myapp-").is_err());
}

#[test]
fn validate_name_rejects_consecutive_hyphens() {
    assert!(validate_name("my--app").is_err());
}

#[test]
fn validate_name_rejects_digit_prefix() {
    assert!(validate_name("1abc").is_err());
}

#[test]
fn validate_name_accepts_digits_after_letter() {
    assert!(validate_name("a1-b2").is_ok());
}

#[test]
fn name_error_messages() {
    assert_eq!(validate_name(""), Err(NameError::Empty));
    assert_eq!(
        NameError::Empty.message(),
        "invalid project name '': name must not be empty"
    );
    let err = validate_name("My App").unwrap_err();
    assert_eq!(err, NameError::Invalid { name: "My App".to_string(), rule: NameRule::AllowedChars });
    assert_eq!(
        err.message(),
        "invalid project name 'My App': must contain only lowercase letters, digits, and hyphens"
    );
}

fn broken_rule(name: &str) -> NameRule {
    match validate_name(name) {
        Err(NameError::Invalid { rule, .. }) => rule,
        other => panic!("unexpected: {other:?}"),
    }
}

#[test]
fn name_error_names_first_broken_rule() {
    assert_eq!(broken_rule("../evil"), NameRule::NoSeparator);
    assert_eq!(broken_rule("..\\evil"), NameRule::NoSeparator);
    assert_eq!(broken_rule("/tmp/bad"), NameRule::NoSeparator);
    assert_eq!(broken_rule("."), NameRule::NotDotName);
    assert_eq!(broken_rule(".."), NameRule::NotDotName);
    assert_eq!(broken_rule("my app"), NameRule::AllowedChars);
    assert_eq!(broken_rule("MyApp"), NameRule::AllowedChars);
    assert_eq!(broken_rule("1abc"), NameRule::LetterFirst);
    assert_eq!(broken_rule("-myapp"), NameRule::LetterFirst);
    assert_eq!(broken_rule("myapp-"), NameRule::NoTrailingHyphen);
    assert_eq!(broken_rule("my--app"), NameRule::NoDoubleHyphen);
    assert_eq!(broken_rule("my--app-"), NameRule::NoTrailingHyphen);
}

#[test]
fn name_error_messages_name_the_rule() {
    assert_eq!(
        validate_name("myapp-").unwrap_err().message(),
        "invalid project name 'myapp-': must not end with a hyphen"
    );
    assert_eq!(
        validate_name("my--app").unwrap_err().message(),
        "invalid project name 'my--app': must not contain consecutive hyphens"
    );
    assert_eq!(
        validate_name("1abc").unwrap_err().message(),
        "invalid project name '1abc': must start with a lowercase letter"
    );
    assert_eq!(
        validate_name("a/b").unwrap_err().message(),
        "invalid project name 'a/b': must not contain a path separator ('/' or '\\')"
    );
    assert_eq!(
        validate_name("..").unwrap_err().message(),
        "invalid project name '..': must not be '.' or '..'"
    );
}

#[test]
fn template_default_is_bin() {
    assert_eq!(Template::default(), Template::Bin);
}

// --- plan_new --------------------------------------------------------------

#[test]
fn plan_new_rejects_invalid_name_first() {
    let r = plan_new(&new_cmd("../evil", Template::Bin, true), &opts(false), Some(vec!["x".to_string()]));
    match r {
        Err(NewError::InvalidName(NameError::Invalid { name, rule })) => {
            assert_eq!(name, "../evil");
            assert_eq!(rule, NameRule::NoSeparator);
        }
        other => panic!("unexpected: {other:?}"),
    }
}

#[test]
fn plan_new_refuses_non_empty_dir_without_force() {
    let r = plan_new(&new_cmd("myapp", Template::Bin, false), &opts(false), Some(vec!["notes.txt".to_string()]));
    match r {
        Err(e @ NewError::NotEmpty { .. }) => {
            assert_eq!(
                e.message(),
                "directory `myapp` already exists and is non-empty; pass --force to overwrite"
            );
        }
        other => panic!("unexpected: {other:?}"),
    }
}

#[test]
fn plan_new_accepts_empty_existing_dir() {
    let r = plan_new(&new_cmd("myapp", Template::Lib, false), &opts(false), Some(vec![]));
    assert!(r.is_ok());
}

#[test]
fn plan_new_bin_project() {
    let plan = plan_new(&new_cmd("myapp", Template::Bin, false), &opts(false), None).unwrap();
    assert_eq!(plan.project_dir, "myapp");
    assert!(plan.strays.is_empty());
    assert_eq!(plan.dirs, vec!["myapp/src".to_string(), "myapp/test".to_string()]);
    let paths: Vec<&str> = plan.files.iter().map(|f| f.path.as_str()).collect();
    assert_eq!(
        paths,
        vec!["myapp/pact.toml", "myapp/src/main.pact", "myapp/test/main_test.pact", "myapp/.gitignore"]
    );
    assert!(plan.files[0].content.contains("name    = \"myapp\""));
    for f in &plan.files {
        assert!(!f.content.contains("{{name}}"));
    }
    assert_eq!(plan.notice.as_deref(), Some("Created bin project 'myapp'"));
}

#[test]
fn plan_new_quiet_has_no_announcement() {
    let plan = plan_new(&new_cmd("agent-x", Template::Agent, false), &opts(true), None).unwrap();
    assert_eq!(plan.notice, None);
}

#[test]
fn plan_new_force_lists_strays() {
    let existing = vec![
        "notes.txt".to_string(),
        "src".to_string(),
        "pact.toml".to_string(),
        ".gitignore".to_string(),
        "README.md".to_string(),
    ];
    let plan = plan_new(&new_cmd("mylib", Template::Lib, true), &opts(false), Some(existing.clone())).unwrap();
    assert_eq!(plan.strays, vec!["notes.txt".to_string(), "README.md".to_string()]);
    let quiet = plan_new(&new_cmd("mylib", Template::Lib, true), &opts(true), Some(existing)).unwrap();
    assert!(quiet.strays.is_empty());
}

#[test]
fn project_names_are_package_names() {
    for name in ["a", "my-app", "a1-b2", "x9"] {
        assert!(validate_name(name).is_ok());
        assert!(pact::manifest::validate_package_name(name).is_ok(), "{name}");
    }
}

#[test]
fn plan_new_stays_inside_project_dir() {
    for t in [Template::Bin, Template::Lib, Template::Agent] {
        let plan = plan_new(&new_cmd("proj", t, false), &opts(true), None).unwrap();
        for f in &plan.files {
            assert!(f.path.starts_with("proj/"), "{}", f.path);
        }
        for d in &plan.dirs {
            assert!(d.starts_with("proj/"), "{d}");
        }
    }
}

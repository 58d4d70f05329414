use orchid_core::cli::{auth_command, help, last_message, positional, required_id, resolve_command, root_arg, value, AuthCommand};
use orchid_core::model::Session;
use orchid_core::model::Stamp;

/// A fresh event id and time.
fn stamp() -> Stamp {
    Stamp::fresh().expect("random source and clock")
}

/// The current time as an event timestamp.
fn now() -> String {
    stamp().timestamp
}

fn args(list: &[&str]) -> Vec<String> {
    list.iter().map(|s| s.to_string()).collect()
}

#[test]
fn flag_values_come_in_two_forms() {
    let a = args(&["--label", "first", "--agent=planner"]);
    assert_eq!(value(&a, "--label"), Some("first".to_string()));
    assert_eq!(value(&a, "--agent"), Some("planner".to_string()));
    assert_eq!(value(&a, "--timeout"), None);
    assert_eq!(value(&args(&["--label"]), "--label"), None);
}

#[test]
fn positional_arguments_skip_flags_and_their_values() {
    let a = args(&["s1", "--timeout", "5", "-v", "s2", "--id"]);
    assert_eq!(positional(&a), vec!["s1".to_string(), "s2".to_string()]);
}

#[test]
fn config_root_is_split_off() {
    let (root, rest) = root_arg(args(&["create", "--config", "/cfg", "--label", "x"]), "/default".into());
    assert_eq!(root, "/cfg");
    assert_eq!(rest, args(&["create", "--label", "x"]));
    let (root, rest) = root_arg(args(&["list", "--config"]), "/default".into());
    assert_eq!(root, "/default");
    assert_eq!(rest, args(&["list", "--config"]));
}

#[test]
fn commands_are_resolved_by_name() {
    assert_eq!(resolve_command(None), Ok("help".to_string()));
    assert_eq!(resolve_command(Some("--help")), Ok("help".to_string()));
    assert_eq!(resolve_command(Some("kill")), Ok("stop".to_string()));
    assert_eq!(resolve_command(Some("create")), Ok("create".to_string()));
    assert_eq!(resolve_command(Some("bogus")), Err("unknown command: bogus".to_string()));
    assert!(help().starts_with("orchid <create|"));
}

#[test]
fn last_message_is_the_latest_assistant_reply() {
    let mut session = Session::new(None, None, None).unwrap();
    assert_eq!(last_message(&session), None);
    session.append(Session::message("assistant", "first".into(), stamp()), now());
    session.append(Session::message("assistant", "second".into(), stamp()), now());
    session.append(Session::message("user", "thanks".into(), stamp()), now());
    assert_eq!(last_message(&session), Some("second".to_string()));
}

#[test]
fn commands_that_need_an_id_say_so() {
    assert_eq!(required_id(&args(&["abc"]), "get"), Ok("abc".to_string()));
    assert_eq!(required_id(&args(&[]), "get"), Err("get requires an id".to_string()));
}

#[test]
fn auth_subcommands_default_to_list() {
    assert_eq!(auth_command(None), Ok(AuthCommand::List));
    assert_eq!(auth_command(Some("validate")), Ok(AuthCommand::Validate));
    assert_eq!(auth_command(Some("login")), Ok(AuthCommand::Login));
    assert!(auth_command(Some("nope")).is_err());
}

use orchid_core::config::Permissions;
use orchid_core::json::Json;
use orchid_core::tools::fs_edit::{apply_edits, edit_report, plan_edit, Edit, EditPlan, FsEditInput};
use orchid_core::tools::fs_read::{extract_paths, read_failure_message, read_result, read_target, ReadFailure};
use orchid_core::tools::scope::{
    compile_exceptions, expand_path, expand_pattern_tilde, expand_vars, is_allowed, is_allowed_by_policy, is_in_scope,
    lexical_normalize, normalize_path, Environment, Resolution, ScopeSet,
};
use orchid_core::tools::{execute_tool, execute_tool_with_permissions, ToolContext, ToolKind};

fn json(text: &str) -> Json {
    Json::parse(text).unwrap()
}

fn env() -> Environment {
    Environment {
        vars: vec![("HOME".into(), "/home/u".into()), ("PROJECT".into(), "orchid".into())],
        home_dir: Some("/home/fallback".into()),
    }
}

fn context(tools: &[&str], paths: &[&str]) -> ToolContext {
    ToolContext {
        working_dir: "/work".into(),
        env: env(),
        global_scope_set: ScopeSet::empty(),
        session_scope_set: ScopeSet::empty(),
        allowed_tools: tools.iter().map(|t| t.to_string()).collect(),
        allowed_paths: paths.iter().map(|p| p.to_string()).collect(),
    }
}

fn unresolved() -> Resolution {
    Resolution { path: None, working_dir: None }
}

#[test]
fn rejects_singular_path_input() {
    let paths = extract_paths(&json(r#"{"path": "file.txt"}"#));
    assert!(paths.is_empty());
}

#[test]
fn accepts_paths_array_only() {
    let paths = extract_paths(&json(r#"{"paths": ["a", "b"]}"#));
    assert_eq!(paths, vec!["a", "b"]);
}

#[test]
fn denies_tools_not_in_policy() {
    let error = execute_tool_with_permissions("bash", &context(&["fs_read"], &[])).unwrap_err();
    assert_eq!(error, "tool denied by policy: bash");
}

#[test]
fn empty_or_wildcard_tool_lists_permit_known_tools() {
    assert_eq!(execute_tool_with_permissions("bash", &context(&[], &[])), Ok(ToolKind::Bash));
    assert_eq!(execute_tool_with_permissions("fs_edit", &context(&["*"], &[])), Ok(ToolKind::FsEdit));
    assert_eq!(
        execute_tool_with_permissions("rm", &context(&["*"], &[])),
        Err("unknown tool: rm".to_string())
    );
    assert_eq!(execute_tool("fs_read"), Ok(ToolKind::FsRead));
}

#[test]
fn denies_paths_outside_policy() {
    let ctx = context(&["fs_read"], &["/tmp/x/allowed.txt"]);
    let error = read_target("/tmp/x/denied.txt", &ctx, &unresolved()).unwrap_err();
    assert!(error.contains("out of scope"));
}

#[test]
fn policy_paths_narrow_file_scope() {
    let ctx = context(&["fs_read"], &["allowed"]);
    assert_eq!(read_target("allowed/file", &ctx, &unresolved()), Ok("/work/allowed/file".to_string()));
    assert_eq!(
        read_target("config.json", &ctx, &unresolved()),
        Err("path out of scope: config.json".to_string())
    );
    assert!(is_allowed_by_policy("anything", "/work", &env(), &vec![]));
    assert!(!is_allowed_by_policy("allowedx/file", "/work", &env(), &vec!["allowed".to_string()]));
}

#[test]
fn fs_read_supports_batch_calls() {
    let paths = vec!["a".to_string(), "b".to_string()];
    let outcomes = vec![Ok("A".to_string()), Ok("B".to_string())];
    assert_eq!(read_result(&paths, &outcomes).unwrap(), json(r#"{"a":"A","b":"B"}"#));
}

#[test]
fn fs_read_reports_failures_per_path_in_a_batch() {
    let paths = vec!["a".to_string(), "missing".to_string(), "a".to_string()];
    let outcomes = vec![
        Ok("old".to_string()),
        Err(read_failure_message("missing", &ReadFailure::NotFound)),
        Ok("new".to_string()),
    ];
    assert_eq!(
        read_result(&paths, &outcomes).unwrap(),
        json(r#"{"a":"new","missing":{"error":"file not found: missing"}}"#)
    );
    let single = vec!["x".to_string()];
    assert_eq!(
        read_result(&single, &vec![Err("permission denied: x".to_string())]),
        Err("permission denied: x".to_string())
    );
    assert_eq!(
        read_result(&vec![], &vec![]),
        Err("invalid fs_read input: expected non-empty 'paths' array".to_string())
    );
}

#[test]
fn fs_edit_applies_structured_edits() {
    let edits = vec![Edit { old_string: "old".into(), new_string: "new".into(), replace_all: true }];
    assert_eq!(apply_edits("old old", &edits), Ok("new new".to_string()));
}

#[test]
fn fs_edit_reports_ambiguous_batch_edit_index() {
    let edits = vec![
        Edit { old_string: "missing".into(), new_string: "x".into(), replace_all: false },
        Edit { old_string: "same".into(), new_string: "new".into(), replace_all: false },
    ];
    let error = apply_edits("same same", &edits).unwrap_err();
    assert!(error.contains("edit[0]"));
    let ambiguous = vec![Edit { old_string: "same".into(), new_string: "new".into(), replace_all: false }];
    assert_eq!(
        apply_edits("same same", &ambiguous),
        Err("edit[0]: multiple matches (2) without replace_all=true".to_string())
    );
}

#[test]
fn edits_apply_in_order_and_a_failure_changes_nothing() {
    let edits = vec![
        Edit { old_string: "a".into(), new_string: "b".into(), replace_all: false },
        Edit { old_string: "b".into(), new_string: "c".into(), replace_all: true },
    ];
    assert_eq!(apply_edits("a b", &edits), Ok("c c".to_string()));
    let failing = vec![
        Edit { old_string: "a".into(), new_string: "b".into(), replace_all: false },
        Edit { old_string: "zzz".into(), new_string: "c".into(), replace_all: false },
    ];
    assert_eq!(apply_edits("a", &failing), Err("edit[1]: pattern not found: zzz".to_string()));
}

#[test]
fn edit_requests_choose_batch_legacy_or_create() {
    let create = FsEditInput {
        path: "f".into(),
        edits: vec![Edit { old_string: String::new(), new_string: "hello".into(), replace_all: false }],
        old_string: None,
        new_string: None,
        replace_all: false,
    };
    assert_eq!(plan_edit(create), Ok(EditPlan::Create { content: "hello".into() }));
    let legacy = FsEditInput {
        path: "f".into(),
        edits: vec![],
        old_string: Some("a".into()),
        new_string: Some("b".into()),
        replace_all: true,
    };
    assert_eq!(
        plan_edit(legacy),
        Ok(EditPlan::Apply { edits: vec![Edit { old_string: "a".into(), new_string: "b".into(), replace_all: true }] })
    );
    let none = FsEditInput { path: "f".into(), edits: vec![], old_string: None, new_string: None, replace_all: false };
    assert!(plan_edit(none).is_err());
    assert_eq!(edit_report("/w/f", 2), json(r#"{"edits_applied":2,"path":"/w/f"}"#));
}

#[test]
fn paths_expand_home_variables_and_working_directory() {
    let e = env();
    assert_eq!(expand_path("~", "/work", &e), "/home/u");
    assert_eq!(expand_path("~/notes", "/work", &e), "/home/u/notes");
    assert_eq!(expand_path("~other", "/work", &e), "~other");
    assert_eq!(expand_path("$HOME/x", "/work", &e), "/home/u/x");
    assert_eq!(expand_path("/etc/hosts", "/work", &e), "/etc/hosts");
    assert_eq!(expand_path("src/main.rs", "/work", &e), "/work/src/main.rs");
    let no_home = Environment { vars: vec![], home_dir: Some("/h".into()) };
    assert_eq!(expand_path("~/a", "/work", &no_home), "/h/a");
}

#[test]
fn variable_references_keep_unset_names() {
    let vars = env().vars;
    assert_eq!(expand_vars("${PROJECT}-$PROJECT.rs", &vars), "orchid-orchid.rs");
    assert_eq!(expand_vars("$UNSET/${NOPE}", &vars), "$UNSET/${NOPE}");
    assert_eq!(expand_vars("cost: $5 and $", &vars), "cost: $5 and $");
    assert_eq!(expand_vars("a$-b", &vars), "a$-b");
    assert_eq!(expand_vars("${OPEN", &vars), "${OPEN}");
}

#[test]
fn lexical_normalization_follows_components() {
    assert_eq!(lexical_normalize("/a/./b/../c//d/"), "/a/c/d");
    assert_eq!(lexical_normalize("/.."), "/");
    assert_eq!(lexical_normalize("a/b/.."), "a");
    assert_eq!(lexical_normalize(""), "/");
    assert_eq!(normalize_path("/x/../y", &Some("/real/y".into())), "/real/y");
    assert_eq!(normalize_path("/x/../y", &None), "y");
}

#[test]
fn scope_accepts_paths_under_the_working_directory() {
    let e = env();
    assert!(is_in_scope("src/lib.rs", "/work", &e, &unresolved()));
    assert!(!is_in_scope("/etc/passwd", "/work", &e, &unresolved()));
    assert!(is_in_scope("../secret", "/work/project", &e, &Resolution { path: None, working_dir: Some("/real/work/project".into()) }));
    assert!(!is_in_scope("/work2/x", "/work/project", &e, &unresolved()));
    assert!(is_in_scope("/work2/x", "/work", &e, &unresolved()));
    let none = ScopeSet::empty();
    assert!(is_allowed("src/lib.rs", "/work", &e, &none, &none, &unresolved()));
    assert!(!is_allowed("/etc/passwd", "/work", &e, &none, &none, &unresolved()));
}

#[test]
fn exception_globs_admit_paths_outside_scope() {
    let e = env();
    let patterns = vec!["/etc/*.conf".to_string(), "~/notes/**".to_string(), "[".to_string()];
    let set = compile_exceptions(&patterns, &e.vars);
    assert_eq!(set.patterns, vec!["/etc/*.conf".to_string(), "/home/u/notes/**".to_string()]);
    let none = ScopeSet::empty();
    assert!(is_allowed("/etc/app.conf", "/work", &e, &set, &none, &unresolved()));
    assert!(is_allowed("~/notes/today.md", "/work", &e, &none, &set, &unresolved()));
    assert!(!is_allowed("/etc/passwd", "/work", &e, &set, &set, &unresolved()));
    assert_eq!(expand_pattern_tilde("~/x", &vec![]), "~/x");
}

#[test]
fn read_failures_name_the_path() {
    assert_eq!(read_failure_message("a", &ReadFailure::PermissionDenied), "permission denied: a");
    assert_eq!(read_failure_message("a", &ReadFailure::Other("disk".into())), "failed to read file: disk");
}

#[test]
fn loop_tool_contexts_have_no_path_exceptions() {
    let permissions = Permissions { tools: vec!["fs_read".into()], paths: vec!["src".into()] };
    let c = ToolContext::for_loop("/work".into(), env(), &permissions);
    assert_eq!(c.working_dir, "/work");
    assert!(c.global_scope_set.patterns.is_empty());
    assert!(c.session_scope_set.patterns.is_empty());
    assert_eq!(c.allowed_tools, vec!["fs_read".to_string()]);
    assert_eq!(c.allowed_paths, vec!["src".to_string()]);
    assert!(!is_allowed("/etc/passwd", "/work", &c.env, &c.global_scope_set, &c.session_scope_set, &unresolved()));
}

#[test]
fn scope_is_tested_on_the_expanded_path_expanded_again() {
    let e = Environment {
        vars: vec![("HOME".into(), "sub".into()), ("PROJ".into(), "src".into())],
        home_dir: None,
    };
    let none = ScopeSet::empty();
    assert!(is_allowed("$PROJ/file", "/w", &e, &none, &none, &unresolved()));
    assert!(is_allowed("~", "/w", &e, &none, &none, &Resolution { path: Some("/x/sub".into()), working_dir: Some("/w".into()) }));
    assert!(!is_allowed("/etc/passwd", "/w", &e, &none, &none, &unresolved()));
}

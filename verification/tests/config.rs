use orchid_core::config::hooks::{HookConfiguration, HookEvent};
use orchid_core::config::resolve::{headers_all_settle, resolve, resolve_env_inline, resolve_settled};
use orchid_core::config::{
    AuthProfile, ConfigDir, ConfigFiles, Connection, Loaded, Permissions, Policy, PolicyLimits, ResourceLoadError,
    RootConfig,
};

#[test]
fn resolves_relative_paths_from_working_directory() {
    let hooks = HookConfiguration {
        turn_start: vec!["scripts/start.sh".into()],
        turn_stop: vec!["/opt/stop".into()],
    };
    assert_eq!(
        hooks.paths_for(HookEvent::TurnStart, "/work"),
        vec!["/work/scripts/start.sh".to_string()]
    );
    assert_eq!(
        hooks.paths_for(HookEvent::TurnStop, "/work"),
        vec!["/opt/stop".to_string()]
    );
}

#[test]
fn rejects_empty_entries() {
    let hooks = HookConfiguration {
        turn_start: vec![" ".into()],
        turn_stop: vec![],
    };
    assert!(hooks.validate().is_err());
}

#[test]
fn blank_turn_stop_entry_is_named_in_the_message() {
    let hooks = HookConfiguration {
        turn_start: vec!["a.sh".into()],
        turn_stop: vec!["\t".into()],
    };
    assert_eq!(
        hooks.validate().unwrap_err(),
        "turn-stop hook entries must not be empty"
    );
    let ok = HookConfiguration {
        turn_start: vec!["a.sh".into()],
        turn_stop: vec![],
    };
    assert_eq!(ok.validate(), Ok(()));
    assert_eq!(HookEvent::TurnStart.name(), "turn-start");
}

fn connection(auth: Option<&str>, api_key: Option<&str>) -> Connection {
    Connection {
        interface: "openai".into(),
        base_url: "https://example.test".into(),
        api_key: api_key.map(str::to_owned),
        auth: auth.map(str::to_owned),
        auth_profile: None,
        auth_storage: None,
        model: "m".into(),
        params: vec![],
        headers: vec![("X-Key".into(), "Bearer env.TOKEN".into())],
    }
}

fn policy(connections: &[&str], prompt: Option<&str>) -> Policy {
    Policy {
        connections: connections.iter().map(|c| c.to_string()).collect(),
        prompt: prompt.map(str::to_owned),
        permissions: Permissions { tools: vec!["fs_read".into()], paths: vec![] },
        limits: PolicyLimits { token_warn_threshold: Some(10), token_hard_limit: Some(20), max_steps: None },
        env: vec![],
    }
}

fn files() -> ConfigFiles {
    ConfigFiles {
        root: Some(Loaded::Found(RootConfig { policy: "default".into() })),
        auth: vec![(
            "main".into(),
            Loaded::Found(AuthProfile { kind: "api_key".into(), value: Some("env.OPENAI_KEY".into()) }),
        )],
        connections: vec![
            ("cheap".into(), Loaded::Found(connection(Some("main"), None))),
            ("broken".into(), Loaded::Malformed("expected value".into())),
        ],
        policies: vec![
            ("default".into(), Loaded::Found(policy(&["cheap"], Some("default")))),
            ("bad".into(), Loaded::Found(policy(&["broken"], None))),
            ("empty".into(), Loaded::Found(policy(&[], None))),
        ],
        prompts: vec![("default".into(), Loaded::Found("You are a helpful assistant.".into()))],
    }
}

#[test]
fn loads_a_valid_tree() {
    let dir = ConfigDir::new("/cfg".into());
    let files = files();
    assert_eq!(dir.validate(&files), Ok(()));
    assert_eq!(dir.load_root(&files).unwrap().policy, "default");
    assert_eq!(dir.load_prompt(&files, "default").unwrap(), "You are a helpful assistant.");
    let loaded = dir.load_connection(&files, "cheap").unwrap();
    assert_eq!(loaded.auth_storage.as_deref(), Some("/cfg/auth"));
    assert_eq!(loaded.auth_profile.unwrap().value.as_deref(), Some("env.OPENAI_KEY"));
    assert_eq!(dir.load_policy(&files, "default").unwrap().connections, vec!["cheap".to_string()]);
}

#[test]
fn reports_each_kind_of_load_error() {
    let dir = ConfigDir::new("/cfg".into());
    let files = files();
    assert_eq!(
        dir.load_policy(&files, "missing").unwrap_err(),
        ResourceLoadError::Missing { kind: "policy".into(), path: "/cfg/policies/missing.json".into() }
    );
    assert_eq!(
        dir.load_policy(&files, "empty").unwrap_err().to_text(),
        "invalid resource at /cfg/policies/empty.json: connections must not be empty"
    );
    assert_eq!(
        dir.load_policy(&files, "bad").unwrap_err().to_text(),
        "invalid resource at /cfg/policies/bad.json: invalid JSON at /cfg/connections/broken.json: expected value"
    );
    assert_eq!(
        dir.load_policy(&files, "../x").unwrap_err().to_text(),
        "invalid resource at /cfg/policies/../x.json: resource name must be a non-empty path component without '..'"
    );
}

#[test]
fn auth_profiles_need_a_valid_reference() {
    let dir = ConfigDir::new("/cfg".into());
    let mut files = files();
    files.auth = vec![
        ("codex".into(), Loaded::Found(AuthProfile { kind: "openai_codex_oauth".into(), value: Some("x".into()) })),
        ("rel".into(), Loaded::Found(AuthProfile { kind: "bearer_token".into(), value: Some("file.relative".into()) })),
        ("odd".into(), Loaded::Found(AuthProfile { kind: "password".into(), value: None })),
        ("none".into(), Loaded::Found(AuthProfile { kind: "api_key".into(), value: None })),
        ("abs".into(), Loaded::Found(AuthProfile { kind: "api_key".into(), value: Some("file./etc/key".into()) })),
    ];
    assert!(dir.load_auth(&files, "codex").unwrap_err().to_text().ends_with("Codex OAuth profiles must not contain a credential value"));
    assert!(dir.load_auth(&files, "rel").unwrap_err().to_text().ends_with("authentication value must be env.NAME or file./absolute/path"));
    assert!(dir.load_auth(&files, "odd").unwrap_err().to_text().ends_with("unknown authentication type: password"));
    assert!(dir.load_auth(&files, "none").unwrap_err().to_text().ends_with("credential reference is required"));
    assert!(dir.load_auth(&files, "abs").is_ok());
}

#[test]
fn connection_with_key_and_auth_is_refused() {
    let dir = ConfigDir::new("/cfg".into());
    let mut files = files();
    files.connections = vec![("both".into(), Loaded::Found(connection(Some("main"), Some("sk"))))];
    assert_eq!(
        dir.check_connection(&files, "both").unwrap_err().to_text(),
        "invalid resource at /cfg/connections/both.json: connection cannot contain both api_key and auth"
    );
}

#[test]
fn inline_environment_references_are_replaced() {
    let vars = vec![("TOKEN".to_string(), "abc".to_string())];
    assert_eq!(resolve_env_inline("Bearer env.TOKEN!", &vars, 100).unwrap(), "Bearer abc!");
    assert_eq!(resolve_env_inline("env.MISSING", &vars, 100).unwrap(), "");
    assert_eq!(resolve_env_inline("plain", &vars, 0).unwrap(), "plain");
    let looping = vec![("A".to_string(), "env.A".to_string())];
    assert_eq!(resolve_env_inline("env.A", &looping, 50), None);
}

#[test]
fn resolves_the_effective_session_configuration() {
    let dir = ConfigDir::new("/cfg".into());
    let files = files();
    let vars = vec![("TOKEN".to_string(), "abc".to_string())];
    let effective = resolve(&dir, &files, None, Some("/work"), None, "h1".into(), &vars, 1000).unwrap();
    assert_eq!(effective.policy_name, "default");
    assert_eq!(effective.policy_hash, "h1");
    assert_eq!(effective.prompt, "You are a helpful assistant.");
    assert_eq!(effective.working_dir, "/work");
    assert_eq!(effective.connection_candidates.len(), 1);
    assert_eq!(effective.env_vars, vec![("X-Key".to_string(), "Bearer abc".to_string())]);
    assert_eq!(effective.permissions.tools, vec!["fs_read".to_string()]);
    assert_eq!(
        resolve(&dir, &files, None, None, None, "h1".into(), &vars, 1000).unwrap_err(),
        "no working directory configured"
    );
    assert!(resolve(&dir, &files, Some("bad"), Some("/w"), None, "h".into(), &vars, 1000).is_err());
}

#[test]
fn self_referring_header_values_are_refused_before_resolving() {
    let dir = ConfigDir::new("/cfg".into());
    let files = files();
    let vars = vec![("TOKEN".to_string(), "abc".to_string())];
    assert!(headers_all_settle(&files, &vars, 1000));
    let settled = resolve_settled(&dir, &files, None, Some("/work"), None, "h1".into(), &vars, 1000).unwrap().unwrap();
    assert_eq!(settled.env_vars, vec![("X-Key".to_string(), "Bearer abc".to_string())]);
    let looping = vec![("TOKEN".to_string(), "env.TOKEN".to_string())];
    assert!(!headers_all_settle(&files, &looping, 1000));
    assert!(resolve_settled(&dir, &files, None, Some("/work"), None, "h1".into(), &looping, 1000).is_none());
}

use codex_session::config::ShellEnvironmentPolicy;
use codex_session::config::ShellEnvironmentPolicyInherit;
use codex_session::env::create_env;
use codex_session::mcp::create_env_for_mcp_server;

fn vars(pairs: &[(&str, &str)]) -> Vec<(String, String)> {
    pairs.iter().map(|(k, v)| (k.to_string(), v.to_string())).collect()
}

fn get<'a>(env: &'a [(String, String)], name: &str) -> Option<&'a str> {
    env.iter().rev().find(|(k, _)| k == name).map(|(_, v)| v.as_str())
}

fn parent() -> Vec<(String, String)> {
    vars(&[
        ("PATH", "/usr/bin"),
        ("HOME", "/home/me"),
        ("OPENAI_API_KEY", "sk"),
        ("GITHUB_TOKEN", "gh"),
        ("monkey", "ook"),
        ("EDITOR", "vi"),
    ])
}

#[test]
fn default_policy_drops_keys_and_tokens() {
    let env = create_env(&ShellEnvironmentPolicy::default(), parent());
    assert_eq!(get(&env, "PATH"), Some("/usr/bin"));
    assert_eq!(get(&env, "EDITOR"), Some("vi"));
    assert_eq!(get(&env, "OPENAI_API_KEY"), None);
    assert_eq!(get(&env, "GITHUB_TOKEN"), None);
    // patterns ignore case: "monkey" holds "key"
    assert_eq!(get(&env, "monkey"), None);
}

#[test]
fn core_inherit_keeps_only_core_variables() {
    let policy = ShellEnvironmentPolicy { inherit: ShellEnvironmentPolicyInherit::Core, ..ShellEnvironmentPolicy::default() };
    let env = create_env(&policy, parent());
    assert_eq!(env, vars(&[("PATH", "/usr/bin"), ("HOME", "/home/me")]));
}

#[test]
fn empty_inherit_set_and_include_only() {
    let policy = ShellEnvironmentPolicy {
        inherit: ShellEnvironmentPolicyInherit::Empty,
        set: vars(&[("A", "1"), ("B", "2"), ("A", "3")]),
        include_only: vec!["a".to_string()],
        ..ShellEnvironmentPolicy::default()
    };
    let env = create_env(&policy, parent());
    assert_eq!(env, vars(&[("A", "3")]));
}

#[test]
fn exclude_patterns_and_ignoring_default_excludes() {
    let policy = ShellEnvironmentPolicy {
        ignore_default_excludes: true,
        exclude: vec!["ed*".to_string(), "H?ME".to_string()],
        ..ShellEnvironmentPolicy::default()
    };
    let env = create_env(&policy, parent());
    assert_eq!(get(&env, "OPENAI_API_KEY"), Some("sk"));
    assert_eq!(get(&env, "EDITOR"), None);
    assert_eq!(get(&env, "HOME"), None);
    assert_eq!(get(&env, "PATH"), Some("/usr/bin"));
}

#[test]
fn set_overrides_inherited_value() {
    let policy = ShellEnvironmentPolicy { set: vars(&[("PATH", "/opt/bin")]), ..ShellEnvironmentPolicy::default() };
    let env = create_env(&policy, parent());
    assert_eq!(get(&env, "PATH"), Some("/opt/bin"));
    assert_eq!(env.iter().filter(|(k, _)| k == "PATH").count(), 1);
}

#[test]
fn building_twice_gives_the_same_environment() {
    let policy = ShellEnvironmentPolicy {
        set: vars(&[("X", "1")]),
        exclude: vec!["*PATH*".to_string()],
        ..ShellEnvironmentPolicy::default()
    };
    let a = create_env(&policy, parent());
    let b = create_env(&policy, parent());
    assert_eq!(a, b);
}

#[test]
fn create_env_honors_overrides() {
    let value = "custom".to_string();
    let env = create_env_for_mcp_server(vars(&[("TZ", "UTC"), ("HOME", "/h")]), Some(vec![("TZ".into(), value.clone())]));
    assert_eq!(get(&env, "TZ"), Some(value.as_str()));
    assert_eq!(get(&env, "HOME"), Some("/h"));
}

#[test]
fn mcp_env_without_overrides_is_the_defaults() {
    let env = create_env_for_mcp_server(vars(&[("PATH", "/bin")]), None);
    assert_eq!(env, vars(&[("PATH", "/bin")]));
}

#[test]
fn mcp_server_env_carries_configured_value() {
    let env = create_env_for_mcp_server(vars(&[("PATH", "/bin")]), Some(vars(&[("MCP_TEST_VALUE", "propagated-env")])));
    assert_eq!(get(&env, "MCP_TEST_VALUE"), Some("propagated-env"));
    assert_eq!(get(&env, "PATH"), Some("/bin"));
}

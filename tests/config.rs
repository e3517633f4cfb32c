use codex_session::config::ConfigError;
use codex_session::config::ConfigField;
use codex_session::config::McpServerConfig;
use codex_session::config::McpServerTransportConfig;
use codex_session::config::RawMcpServerConfig;
use codex_session::config::ShellEnvironmentPolicy;
use codex_session::config::ShellEnvironmentPolicyInherit;
use codex_session::config::ShellEnvironmentPolicyToml;
use codex_session::config::Timeout;
use codex_session::config::TransportKind;
use codex_session::config::UriBasedFileOpener;
use std::collections::HashMap;

fn raw() -> RawMcpServerConfig {
    RawMcpServerConfig {
        command: None,
        args: None,
        env: None,
        url: None,
        bearer_token: None,
        startup_timeout_sec: None,
        startup_timeout_ms: None,
        tool_timeout_sec: None,
    }
}

#[test]
fn deserialize_stdio_command_server_config() {
    let cfg = McpServerConfig::from_raw(RawMcpServerConfig { command: Some("echo".to_string()), ..raw() })
        .expect("should deserialize command config");

    assert_eq!(
        cfg.transport,
        McpServerTransportConfig::Stdio { command: "echo".to_string(), args: vec![], env: None }
    );
}

#[test]
fn deserialize_stdio_command_server_config_with_args() {
    let cfg = McpServerConfig::from_raw(RawMcpServerConfig {
        command: Some("echo".to_string()),
        args: Some(vec!["hello".to_string(), "world".to_string()]),
        ..raw()
    })
    .expect("should deserialize command config");

    assert_eq!(
        cfg.transport,
        McpServerTransportConfig::Stdio {
            command: "echo".to_string(),
            args: vec!["hello".to_string(), "world".to_string()],
            env: None
        }
    );
}

#[test]
fn deserialize_stdio_command_server_config_with_arg_with_args_and_env() {
    let cfg = McpServerConfig::from_raw(RawMcpServerConfig {
        command: Some("echo".to_string()),
        args: Some(vec!["hello".to_string(), "world".to_string()]),
        env: Some(HashMap::from([("FOO".to_string(), "BAR".to_string())])),
        ..raw()
    })
    .expect("should deserialize command config");

    assert_eq!(
        cfg.transport,
        McpServerTransportConfig::Stdio {
            command: "echo".to_string(),
            args: vec!["hello".to_string(), "world".to_string()],
            env: Some(HashMap::from([("FOO".to_string(), "BAR".to_string())]))
        }
    );
}

#[test]
fn deserialize_streamable_http_server_config() {
    let cfg = McpServerConfig::from_raw(RawMcpServerConfig { url: Some("https://example.com/mcp".to_string()), ..raw() })
        .expect("should deserialize http config");

    assert_eq!(
        cfg.transport,
        McpServerTransportConfig::StreamableHttp { url: "https://example.com/mcp".to_string(), bearer_token: None }
    );
}

#[test]
fn deserialize_streamable_http_server_config_with_bearer_token() {
    let cfg = McpServerConfig::from_raw(RawMcpServerConfig {
        url: Some("https://example.com/mcp".to_string()),
        bearer_token: Some("secret".to_string()),
        ..raw()
    })
    .expect("should deserialize http config");

    assert_eq!(
        cfg.transport,
        McpServerTransportConfig::StreamableHttp {
            url: "https://example.com/mcp".to_string(),
            bearer_token: Some("secret".to_string())
        }
    );
}

#[test]
fn deserialize_rejects_command_and_url() {
    McpServerConfig::from_raw(RawMcpServerConfig {
        command: Some("echo".to_string()),
        url: Some("https://example.com".to_string()),
        ..raw()
    })
    .expect_err("should reject command+url");
}

#[test]
fn deserialize_rejects_env_for_http_transport() {
    McpServerConfig::from_raw(RawMcpServerConfig {
        url: Some("https://example.com".to_string()),
        env: Some(HashMap::from([("FOO".to_string(), "BAR".to_string())])),
        ..raw()
    })
    .expect_err("should reject env for http transport");
}

#[test]
fn deserialize_rejects_bearer_token_for_stdio_transport() {
    McpServerConfig::from_raw(RawMcpServerConfig {
        command: Some("echo".to_string()),
        bearer_token: Some("secret".to_string()),
        ..raw()
    })
    .expect_err("should reject bearer token for stdio transport");
}

#[test]
fn rejection_names_the_field_and_transport() {
    let err = McpServerConfig::from_raw(RawMcpServerConfig {
        command: Some("echo".to_string()),
        url: Some("https://example.com".to_string()),
        bearer_token: Some("secret".to_string()),
        ..raw()
    })
    .unwrap_err();
    assert_eq!(err, ConfigError::UnsupportedField { field: ConfigField::Url, transport: TransportKind::Stdio });

    let err = McpServerConfig::from_raw(RawMcpServerConfig {
        url: Some("https://example.com".to_string()),
        args: Some(vec![]),
        env: Some(HashMap::new()),
        ..raw()
    })
    .unwrap_err();
    assert_eq!(err, ConfigError::UnsupportedField { field: ConfigField::Args, transport: TransportKind::StreamableHttp });

    assert_eq!(McpServerConfig::from_raw(raw()).unwrap_err(), ConfigError::InvalidTransport);
}

#[test]
fn startup_timeout_prefers_seconds_over_milliseconds() {
    let cfg = McpServerConfig::from_raw(RawMcpServerConfig {
        command: Some("echo".to_string()),
        startup_timeout_sec: Some(Timeout { secs: 3, nanos: 500_000_000 }),
        startup_timeout_ms: Some(100),
        ..raw()
    })
    .unwrap();
    assert_eq!(cfg.startup_timeout_sec, Some(Timeout { secs: 3, nanos: 500_000_000 }));

    let cfg = McpServerConfig::from_raw(RawMcpServerConfig {
        command: Some("echo".to_string()),
        startup_timeout_ms: Some(2_500),
        tool_timeout_sec: Some(Timeout { secs: 1, nanos: 0 }),
        ..raw()
    })
    .unwrap();
    assert_eq!(cfg.startup_timeout_sec, Some(Timeout { secs: 2, nanos: 500_000_000 }));
    assert_eq!(cfg.tool_timeout_sec, Some(Timeout { secs: 1, nanos: 0 }));
}

#[test]
fn uri_schemes() {
    assert_eq!(UriBasedFileOpener::VsCode.get_scheme(), Some("vscode"));
    assert_eq!(UriBasedFileOpener::VsCodeInsiders.get_scheme(), Some("vscode-insiders"));
    assert_eq!(UriBasedFileOpener::Windsurf.get_scheme(), Some("windsurf"));
    assert_eq!(UriBasedFileOpener::Cursor.get_scheme(), Some("cursor"));
    assert_eq!(UriBasedFileOpener::Disabled.get_scheme(), None);
}

#[test]
fn policy_defaults_from_empty_table() {
    let p = ShellEnvironmentPolicy::from_toml(ShellEnvironmentPolicyToml::default());
    assert_eq!(p, ShellEnvironmentPolicy::default());
    assert_eq!(p.inherit, ShellEnvironmentPolicyInherit::All);
    let p = ShellEnvironmentPolicy::from_toml(ShellEnvironmentPolicyToml {
        inherit: Some(ShellEnvironmentPolicyInherit::Core),
        exclude: Some(vec!["AWS_*".to_string()]),
        experimental_use_profile: Some(true),
        ..ShellEnvironmentPolicyToml::default()
    });
    assert_eq!(p.inherit, ShellEnvironmentPolicyInherit::Core);
    assert_eq!(p.exclude, vec!["AWS_*".to_string()]);
    assert!(p.use_profile);
    assert!(!p.ignore_default_excludes);
}

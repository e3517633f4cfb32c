//! Configuration types and the validation of MCP server entries.

use std::collections::HashMap;
use vstd::prelude::*;

verus! {

/// Editor whose URI scheme is used to open files from the terminal.
#[derive(Debug, Clone, Copy, PartialEq, Eq, Structural)]
pub enum UriBasedFileOpener {
    VsCode,
    VsCodeInsiders,
    Windsurf,
    Cursor,
    /// Disables the URI-based file opener.
    Disabled,
}

/// The scheme that each opener uses, if any.
pub open spec fn scheme_of(o: UriBasedFileOpener) -> Option<Seq<char>> {
    match o {
        UriBasedFileOpener::VsCode => Some("vscode"@),
        UriBasedFileOpener::VsCodeInsiders => Some("vscode-insiders"@),
        UriBasedFileOpener::Windsurf => Some("windsurf"@),
        UriBasedFileOpener::Cursor => Some("cursor"@),
        UriBasedFileOpener::Disabled => None,
    }
}

impl UriBasedFileOpener {
    pub fn get_scheme(&self) -> (r: Option<&'static str>)
        ensures
            r.is_some() == scheme_of(*self).is_some(),
            r.is_some() ==> r.unwrap()@ == scheme_of(*self).unwrap(),
    {
        match self {
            UriBasedFileOpener::VsCode => Some("vscode"),
            UriBasedFileOpener::VsCodeInsiders => Some("vscode-insiders"),
            UriBasedFileOpener::Windsurf => Some("windsurf"),
            UriBasedFileOpener::Cursor => Some("cursor"),
            UriBasedFileOpener::Disabled => None,
        }
    }
}


/// A span of time held as whole seconds plus nanoseconds, as `std::time::Duration` does.
#[derive(Debug, Clone, Copy, PartialEq, Eq, Structural)]
pub struct Timeout {
    pub secs: u64,
    pub nanos: u32,
}

impl Timeout {
    pub open spec fn wf(self) -> bool {
        self.nanos < 1_000_000_000
    }

    /// Total length in milliseconds, rounded down.
    pub open spec fn total_millis(self) -> int {
        self.secs * 1000 + self.nanos / 1_000_000
    }

    pub fn from_millis(ms: u64) -> (r: Timeout)
        ensures
            r.wf(),
            r.secs == ms / 1000,
            r.nanos == (ms % 1000) * 1_000_000,
            r.total_millis() == ms,
    {
        let secs: u64 = ms / 1000;
        let rem: u64 = ms % 1000;
        let nanos: u32 = (rem as u32) * 1_000_000;
        Timeout { secs, nanos }
    }
}

/// Which transport an MCP server entry describes.
#[derive(Debug, Clone, Copy, PartialEq, Eq, Structural)]
pub enum TransportKind {
    Stdio,
    StreamableHttp,
}

/// A field of an MCP server entry.
#[derive(Debug, Clone, Copy, PartialEq, Eq, Structural)]
pub enum ConfigField {
    Command,
    Args,
    Env,
    Url,
    BearerToken,
}

/// Why an MCP server entry was rejected.
#[derive(Debug, Clone, Copy, PartialEq, Eq, Structural)]
pub enum ConfigError {
    /// A field of the other transport was given.
    UnsupportedField { field: ConfigField, transport: TransportKind },
    /// Neither `command` nor `url` was given.
    InvalidTransport,
}

/// An MCP server entry as written in the configuration, before validation.
#[derive(Debug, Clone)]
pub struct RawMcpServerConfig {
    pub command: Option<String>,
    pub args: Option<Vec<String>>,
    pub env: Option<HashMap<String, String>>,
    pub url: Option<String>,
    pub bearer_token: Option<String>,
    pub startup_timeout_sec: Option<Timeout>,
    pub startup_timeout_ms: Option<u64>,
    pub tool_timeout_sec: Option<Timeout>,
}

#[derive(Debug, Clone, PartialEq)]
pub enum McpServerTransportConfig {
    /// A child process spoken to over its standard input and output.
    Stdio { command: String, args: Vec<String>, env: Option<HashMap<String, String>> },
    /// A streaming HTTP endpoint, optionally with a bearer token.
    StreamableHttp { url: String, bearer_token: Option<String> },
}

#[derive(Debug, Clone, PartialEq)]
pub struct McpServerConfig {
    pub transport: McpServerTransportConfig,
    /// Bound on the handshake and the first tool listing.
    pub startup_timeout_sec: Option<Timeout>,
    /// Default bound on each tool call through this server.
    pub tool_timeout_sec: Option<Timeout>,
}

/// Why a raw entry is rejected, if it is. A stdio entry checks `url` before
/// `bearer_token`; an HTTP entry checks `args`, then `env`.
pub open spec fn config_error_of(raw: RawMcpServerConfig) -> Option<ConfigError> {
    if raw.command is Some {
        if raw.url is Some {
            Some(ConfigError::UnsupportedField { field: ConfigField::Url, transport: TransportKind::Stdio })
        } else if raw.bearer_token is Some {
            Some(ConfigError::UnsupportedField { field: ConfigField::BearerToken, transport: TransportKind::Stdio })
        } else {
            None
        }
    } else if raw.url is Some {
        if raw.args is Some {
            Some(ConfigError::UnsupportedField { field: ConfigField::Args, transport: TransportKind::StreamableHttp })
        } else if raw.env is Some {
            Some(ConfigError::UnsupportedField { field: ConfigField::Env, transport: TransportKind::StreamableHttp })
        } else {
            None
        }
    } else {
        Some(ConfigError::InvalidTransport)
    }
}

/// The transport of an accepted raw entry: stdio when `command` is given (with
/// no arguments when `args` is absent), HTTP otherwise.
pub open spec fn transport_matches(t: McpServerTransportConfig, raw: RawMcpServerConfig) -> bool {
    match t {
        McpServerTransportConfig::Stdio { command, args, env } => {
            &&& raw.command == Some(command)
            &&& args@ == (match raw.args { Some(a) => a@, None => Seq::<String>::empty() })
            &&& env == raw.env
        },
        McpServerTransportConfig::StreamableHttp { url, bearer_token } => {
            &&& raw.command is None
            &&& raw.url == Some(url)
            &&& bearer_token == raw.bearer_token
        },
    }
}

/// Seconds take precedence over milliseconds.
pub open spec fn startup_timeout_of(raw: RawMcpServerConfig) -> Option<Timeout> {
    match raw.startup_timeout_sec {
        Some(t) => Some(t),
        None => match raw.startup_timeout_ms {
            Some(ms) => Some(Timeout { secs: ms / 1000, nanos: ((ms % 1000) * 1_000_000) as u32 }),
            None => None,
        },
    }
}

impl McpServerConfig {
    /// Validates a raw entry: exactly one transport, and no field of the other one.
    pub fn from_raw(raw: RawMcpServerConfig) -> (r: Result<McpServerConfig, ConfigError>)
        ensures
            r is Err <==> config_error_of(raw) is Some,
            r is Err ==> r->Err_0 == config_error_of(raw).unwrap(),
            r is Ok ==> transport_matches(r->Ok_0.transport, raw),
            r is Ok ==> r->Ok_0.startup_timeout_sec == startup_timeout_of(raw),
            r is Ok ==> r->Ok_0.tool_timeout_sec == raw.tool_timeout_sec,
    {
        let startup_timeout_sec = match raw.startup_timeout_sec {
            Some(t) => Some(t),
            None => match raw.startup_timeout_ms {
                Some(ms) => Some(Timeout::from_millis(ms)),
                None => None,
            },
        };
        let transport = match raw.command {
            Some(command) => {
                if raw.url.is_some() {
                    return Err(ConfigError::UnsupportedField { field: ConfigField::Url, transport: TransportKind::Stdio });
                }
                if raw.bearer_token.is_some() {
                    return Err(ConfigError::UnsupportedField { field: ConfigField::BearerToken, transport: TransportKind::Stdio });
                }
                let args = match raw.args {
                    Some(a) => a,
                    None => Vec::new(),
                };
                McpServerTransportConfig::Stdio { command, args, env: raw.env }
            },
            None => match raw.url {
                Some(url) => {
                    if raw.args.is_some() {
                        return Err(ConfigError::UnsupportedField { field: ConfigField::Args, transport: TransportKind::StreamableHttp });
                    }
                    if raw.env.is_some() {
                        return Err(ConfigError::UnsupportedField { field: ConfigField::Env, transport: TransportKind::StreamableHttp });
                    }
                    McpServerTransportConfig::StreamableHttp { url, bearer_token: raw.bearer_token }
                },
                None => {
                    return Err(ConfigError::InvalidTransport);
                },
            },
        };
        Ok(McpServerConfig { transport, startup_timeout_sec, tool_timeout_sec: raw.tool_timeout_sec })
    }
}


/// Whether history entries are written to disk.
#[derive(Debug, Clone, Copy, PartialEq, Eq, Structural)]
pub enum HistoryPersistence {
    /// Save all history entries to disk.
    SaveAll,
    /// Do not write history to disk.
    Disabled,
}

impl Default for HistoryPersistence {
    fn default() -> (r: Self)
        ensures
            r == HistoryPersistence::SaveAll,
    {
        HistoryPersistence::SaveAll
    }
}

/// Settings that govern if and what is written to the history file.
#[derive(Debug, Clone, Copy, PartialEq, Eq, Structural)]
pub struct History {
    pub persistence: HistoryPersistence,
    /// If set, the maximum size of the history file in bytes.
    pub max_bytes: Option<usize>,
}

impl Default for History {
    fn default() -> (r: Self)
        ensures
            r.persistence == HistoryPersistence::SaveAll,
            r.max_bytes is None,
    {
        History { persistence: HistoryPersistence::SaveAll, max_bytes: None }
    }
}

/// Desktop notifications: on or off, or only for the listed kinds.
#[derive(Debug, Clone, PartialEq, Eq)]
pub enum Notifications {
    Enabled(bool),
    Custom(Vec<String>),
}

impl Default for Notifications {
    fn default() -> (r: Self)
        ensures
            r == Notifications::Enabled(false),
    {
        Notifications::Enabled(false)
    }
}

/// Settings specific to the terminal frontend.
#[derive(Debug, Clone, PartialEq, Eq)]
pub struct Tui {
    pub notifications: Notifications,
}

impl Default for Tui {
    fn default() -> (r: Self)
        ensures
            r.notifications == Notifications::Enabled(false),
    {
        Tui { notifications: Notifications::Enabled(false) }
    }
}

/// Options of the workspace-write sandbox as written in the configuration.
#[derive(Debug, Clone, PartialEq, Eq)]
pub struct SandboxWorkspaceWrite {
    pub writable_roots: Vec<String>,
    pub network_access: bool,
    pub exclude_tmpdir_env_var: bool,
    pub exclude_slash_tmp: bool,
}

impl Default for SandboxWorkspaceWrite {
    fn default() -> (r: Self)
        ensures
            r.writable_roots@.len() == 0,
            !r.network_access,
            !r.exclude_tmpdir_env_var,
            !r.exclude_slash_tmp,
    {
        SandboxWorkspaceWrite {
            writable_roots: Vec::new(),
            network_access: false,
            exclude_tmpdir_env_var: false,
            exclude_slash_tmp: false,
        }
    }
}

/// The same options as sent to a client, where each flag is optional.
#[derive(Debug, Clone, PartialEq, Eq)]
pub struct SandboxSettings {
    pub writable_roots: Vec<String>,
    pub network_access: Option<bool>,
    pub exclude_tmpdir_env_var: Option<bool>,
    pub exclude_slash_tmp: Option<bool>,
}

impl From<SandboxWorkspaceWrite> for SandboxSettings {
    fn from(w: SandboxWorkspaceWrite) -> (r: Self) {
        SandboxSettings {
            writable_roots: w.writable_roots,
            network_access: Some(w.network_access),
            exclude_tmpdir_env_var: Some(w.exclude_tmpdir_env_var),
            exclude_slash_tmp: Some(w.exclude_slash_tmp),
        }
    }
}

impl vstd::std_specs::convert::FromSpecImpl<SandboxWorkspaceWrite> for SandboxSettings {
    open spec fn obeys_from_spec() -> bool {
        true
    }

    open spec fn from_spec(w: SandboxWorkspaceWrite) -> SandboxSettings {
        SandboxSettings {
            writable_roots: w.writable_roots,
            network_access: Some(w.network_access),
            exclude_tmpdir_env_var: Some(w.exclude_tmpdir_env_var),
            exclude_slash_tmp: Some(w.exclude_slash_tmp),
        }
    }
}

/// Starting point of a child process's environment.
#[derive(Debug, Clone, Copy, PartialEq, Eq, Structural)]
pub enum ShellEnvironmentPolicyInherit {
    /// The platform's core variables (HOME, PATH, USER and the like).
    Core,
    /// The full environment of the parent process.
    All,
    /// No variable of the parent process.
    Empty,
}

impl Default for ShellEnvironmentPolicyInherit {
    fn default() -> (r: Self)
        ensures
            r == ShellEnvironmentPolicyInherit::All,
    {
        ShellEnvironmentPolicyInherit::All
    }
}

/// The environment policy as written in the configuration; every field optional.
#[derive(Debug, Clone, PartialEq, Eq)]
pub struct ShellEnvironmentPolicyToml {
    pub inherit: Option<ShellEnvironmentPolicyInherit>,
    pub ignore_default_excludes: Option<bool>,
    /// Wildcard patterns of names to drop.
    pub exclude: Option<Vec<String>>,
    /// Variables to set, in order; a later entry wins over an earlier one.
    pub set: Option<Vec<(String, String)>>,
    /// Wildcard patterns of names to keep; all are kept when empty.
    pub include_only: Option<Vec<String>>,
    pub experimental_use_profile: Option<bool>,
}

impl Default for ShellEnvironmentPolicyToml {
    fn default() -> (r: Self)
        ensures
            r.inherit is None,
            r.ignore_default_excludes is None,
            r.exclude is None,
            r.set is None,
            r.include_only is None,
            r.experimental_use_profile is None,
    {
        ShellEnvironmentPolicyToml {
            inherit: None,
            ignore_default_excludes: None,
            exclude: None,
            set: None,
            include_only: None,
            experimental_use_profile: None,
        }
    }
}

/// How the environment of a spawned shell command is built:
/// 1. start from the variables that `inherit` selects;
/// 2. unless `ignore_default_excludes`, drop names matching `*KEY*` or `*TOKEN*`;
/// 3. drop names matching any `exclude` pattern;
/// 4. insert the `set` entries;
/// 5. if `include_only` is non-empty, keep only names matching one of its patterns.
/// Patterns are wildcards (`*`, `?`) compared without regard to case.
#[derive(Debug, Clone, PartialEq, Eq)]
pub struct ShellEnvironmentPolicy {
    pub inherit: ShellEnvironmentPolicyInherit,
    pub ignore_default_excludes: bool,
    pub exclude: Vec<String>,
    pub set: Vec<(String, String)>,
    pub include_only: Vec<String>,
    /// If true, the shell profile is used to run the command.
    pub use_profile: bool,
}

impl Default for ShellEnvironmentPolicy {
    fn default() -> (r: Self)
        ensures
            r.inherit == ShellEnvironmentPolicyInherit::All,
            !r.ignore_default_excludes,
            r.exclude@.len() == 0,
            r.set@.len() == 0,
            r.include_only@.len() == 0,
            !r.use_profile,
    {
        ShellEnvironmentPolicy {
            inherit: ShellEnvironmentPolicyInherit::All,
            ignore_default_excludes: false,
            exclude: Vec::new(),
            set: Vec::new(),
            include_only: Vec::new(),
            use_profile: false,
        }
    }
}

pub open spec fn seq_or_empty<T>(o: Option<Vec<T>>) -> Seq<T> {
    match o {
        Some(v) => v@,
        None => Seq::empty(),
    }
}

pub open spec fn bool_or(o: Option<bool>, d: bool) -> bool {
    match o {
        Some(b) => b,
        None => d,
    }
}

fn vec_or_empty<T>(o: Option<Vec<T>>) -> (r: Vec<T>)
    ensures
        r@ == seq_or_empty(o),
{
    match o {
        Some(v) => v,
        None => Vec::new(),
    }
}

fn flag_or(o: Option<bool>, d: bool) -> (r: bool)
    ensures
        r == bool_or(o, d),
{
    match o {
        Some(b) => b,
        None => d,
    }
}

/// The policy that a configured table stands for: an absent `inherit` means
/// `All`, absent flags are false and absent lists are empty.
pub open spec fn policy_from_toml(t: ShellEnvironmentPolicyToml, p: ShellEnvironmentPolicy) -> bool {
    &&& p.inherit == (match t.inherit { Some(i) => i, None => ShellEnvironmentPolicyInherit::All })
    &&& p.ignore_default_excludes == bool_or(t.ignore_default_excludes, false)
    &&& p.exclude@ == seq_or_empty(t.exclude)
    &&& p.set@ == seq_or_empty(t.set)
    &&& p.include_only@ == seq_or_empty(t.include_only)
    &&& p.use_profile == bool_or(t.experimental_use_profile, false)
}

impl ShellEnvironmentPolicy {
    pub fn from_toml(t: ShellEnvironmentPolicyToml) -> (r: Self)
        ensures
            policy_from_toml(t, r),
    {
        let inherit = match t.inherit {
            Some(i) => i,
            None => ShellEnvironmentPolicyInherit::All,
        };
        ShellEnvironmentPolicy {
            inherit,
            ignore_default_excludes: flag_or(t.ignore_default_excludes, false),
            exclude: vec_or_empty(t.exclude),
            set: vec_or_empty(t.set),
            include_only: vec_or_empty(t.include_only),
            use_profile: flag_or(t.experimental_use_profile, false),
        }
    }
}

/// Format of reasoning summaries.
#[derive(Debug, Clone, Copy, PartialEq, Eq, Structural, Hash)]
pub enum ReasoningSummaryFormat {
    Plain,
    Experimental,
}

impl Default for ReasoningSummaryFormat {
    fn default() -> (r: Self)
        ensures
            r == ReasoningSummaryFormat::Plain,
    {
        ReasoningSummaryFormat::Plain
    }
}

} // verus!

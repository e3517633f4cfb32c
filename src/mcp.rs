//! Results of MCP tool calls.

use crate::config::Timeout;
use crate::env::overlay_vars;
use crate::env::overlay_vars_exec;
use serde_json::Value;
use vstd::prelude::*;

verus! {

#[verifier::external_type_specification]
#[verifier::external_body]
pub struct ExValue(Value);

/// A tool result as the server sent it: `content` may be absent or null.
#[derive(Debug, Clone)]
pub struct RawCallToolResult {
    pub content: Option<Vec<Value>>,
    pub structured_content: Option<Value>,
    pub is_error: Option<bool>,
}

/// A tool result as the core hands it on: `content` is always present.
#[derive(Debug, Clone)]
pub struct CallToolResult {
    pub content: Vec<Value>,
    pub structured_content: Option<Value>,
    pub is_error: Option<bool>,
}

/// How a tool call through an MCP server ended.
#[derive(Debug, Clone)]
pub enum McpCallOutcome {
    Completed(CallToolResult),
    /// Transport failure, timeout or unknown server, as a message.
    Failed(String),
}

/// Replaces absent content by an empty list and keeps everything else.
pub fn convert_call_tool_result(raw: RawCallToolResult) -> (r: CallToolResult)
    ensures
        raw.content is None ==> r.content@ == Seq::<Value>::empty(),
        raw.content is Some ==> r.content@ == raw.content.unwrap()@,
        r.structured_content == raw.structured_content,
        r.is_error == raw.is_error,
{
    let content = match raw.content {
        Some(c) => c,
        None => Vec::new(),
    };
    CallToolResult { content, structured_content: raw.structured_content, is_error: raw.is_error }
}


/// Names of the variables a stdio MCP server inherits from the parent.
pub fn default_env_var_names() -> (r: Vec<&'static str>)
    ensures
        r@.map_values(|s: &str| s@) == seq![
            "HOME"@, "LOGNAME"@, "PATH"@, "SHELL"@, "USER"@, "__CF_USER_TEXT_ENCODING"@, "LANG"@, "LC_ALL"@,
            "TERM"@, "TMPDIR"@, "TZ"@
        ],
{
    let r = vec!["HOME", "LOGNAME", "PATH", "SHELL", "USER", "__CF_USER_TEXT_ENCODING", "LANG", "LC_ALL", "TERM", "TMPDIR", "TZ"];
    proof {
        assert(r@.map_values(|s: &str| s@) =~= seq![
            "HOME"@, "LOGNAME"@, "PATH"@, "SHELL"@, "USER"@, "__CF_USER_TEXT_ENCODING"@, "LANG"@, "LC_ALL"@,
            "TERM"@, "TMPDIR"@, "TZ"@
        ]);
    }
    r
}

/// The environment of a stdio MCP server: the inherited defaults that are
/// set (`defaults`, as name and value), overridden by the server's own `env`.
pub fn create_env_for_mcp_server(defaults: Vec<(String, String)>, extra_env: Option<Vec<(String, String)>>) -> (r: Vec<(String, String)>)
    ensures
        extra_env is None ==> r@ == defaults@,
        extra_env is Some ==> r@ == overlay_vars(defaults@, extra_env.unwrap()@),
{
    match extra_env {
        Some(extra) => overlay_vars_exec(defaults, &extra),
        None => defaults,
    }
}


/// How an awaited request to an MCP server ended.
#[derive(Debug)]
pub enum RequestOutcome<T> {
    /// The time allowed ran out first.
    TimedOut,
    /// The server or the transport failed, with this message.
    Failed(String),
    Done(T),
}

/// The text that `Duration`'s `Debug` gives for a span (`1s`, `1.5s`, `250ms`).
pub uninterp spec fn duration_text(secs: u64, nanos: u32) -> Seq<char>;

/// Relies on `std::time::Duration`'s `Debug` formatting: the text depends
/// on the span alone.
#[verifier::external_body]
fn format_duration(t: Timeout) -> (r: String)
    requires
        t.wf(),
    ensures
        r@ == duration_text(t.secs, t.nanos),
{
    format!("{:?}", std::time::Duration::new(t.secs, t.nanos))
}

/// The result of a request labelled `label`: its value, or a message that
/// it timed out after `timeout` or failed.
pub fn request_result<T>(label: &str, timeout: Option<Timeout>, outcome: RequestOutcome<T>) -> (r: Result<T, String>)
    requires
        timeout is Some ==> timeout.unwrap().wf(),
        outcome is TimedOut ==> timeout is Some,
    ensures
        match outcome {
            RequestOutcome::Done(v) => r == Ok::<T, String>(v),
            RequestOutcome::TimedOut => r is Err && r->Err_0@ == "timed out awaiting "@ + label@ + " after "@
                + duration_text(timeout.unwrap().secs, timeout.unwrap().nanos),
            RequestOutcome::Failed(e) => r is Err && r->Err_0@ == label@ + " failed: "@ + e@,
        },
{
    match outcome {
        RequestOutcome::Done(v) => Ok(v),
        RequestOutcome::TimedOut => {
            let t = timeout.unwrap();
            let mut m = String::from_str("timed out awaiting ");
            m.append(label);
            m.append(" after ");
            let d = format_duration(t);
            m.append(d.as_str());
            Err(m)
        },
        RequestOutcome::Failed(e) => {
            let mut m = String::from_str(label);
            m.append(" failed: ");
            m.append(e.as_str());
            Err(m)
        },
    }
}

} // verus!

use codex_session::mcp::convert_call_tool_result;
use codex_session::config::Timeout;
use codex_session::mcp::request_result;
use codex_session::mcp::RawCallToolResult;
use codex_session::mcp::RequestOutcome;
use serde_json::Value;

#[test]
fn convert_call_tool_result_defaults_missing_content() {
    let structured_content: Value = serde_json::from_str(r#"{ "key": "value" }"#).unwrap();
    let raw = RawCallToolResult {
        content: Some(vec![]),
        structured_content: Some(structured_content.clone()),
        is_error: Some(true),
    };

    let result = convert_call_tool_result(raw);

    assert!(result.content.is_empty());
    assert_eq!(result.structured_content, Some(structured_content));
    assert_eq!(result.is_error, Some(true));
}

#[test]
fn absent_content_becomes_an_empty_list() {
    let raw = RawCallToolResult { content: None, structured_content: None, is_error: None };
    let result = convert_call_tool_result(raw);
    assert!(result.content.is_empty());
    assert_eq!(result.is_error, None);
}

#[test]
fn request_outcomes_name_the_request() {
    let t = Some(Timeout { secs: 1, nanos: 0 });
    let timed_out = request_result::<u32>("tools/call", t, RequestOutcome::TimedOut).unwrap_err();
    assert_eq!(timed_out, "timed out awaiting tools/call after 1s");
    assert!(timed_out.contains("timed out"));
    let failed = request_result::<u32>("tools/call", None, RequestOutcome::Failed("closed".to_string())).unwrap_err();
    assert_eq!(failed, "tools/call failed: closed");
    assert_eq!(request_result("tools/list", t, RequestOutcome::Done(7)), Ok(7));
}

#[test]
fn convert_call_tool_result_preserves_existing_content() {
    let block: Value = serde_json::from_str(r#"{ "type": "text", "text": "hello" }"#).unwrap();
    let raw = RawCallToolResult { content: Some(vec![block]), structured_content: None, is_error: Some(false) };

    let result = convert_call_tool_result(raw);

    assert_eq!(result.content.len(), 1);
    assert_eq!(result.content[0]["text"], "hello");
    assert_eq!(result.content[0]["type"], "text");
    assert_eq!(result.structured_content, None);
    assert_eq!(result.is_error, Some(false));
}

#[test]
fn mcp_round_trip_keeps_structured_content() {
    let structured: Value =
        serde_json::from_str(r#"{"echo":"ECHOING: ping","env":"propagated-env"}"#).unwrap();
    let raw = RawCallToolResult { content: None, structured_content: Some(structured.clone()), is_error: Some(false) };
    let result = convert_call_tool_result(raw);
    assert_eq!(result.structured_content, Some(structured));
    assert_eq!(result.is_error, Some(false));
    assert!(result.content.is_empty());
}

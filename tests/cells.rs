use codex_session::cells::card_inner_width;
use codex_session::cells::ellipsis_line;
use codex_session::cells::empty_mcp_output;
use codex_session::cells::new_info_event;
use codex_session::cells::new_session_info;
use codex_session::cells::reasoning_label;
use codex_session::cells::session_header_model_line;
use codex_session::cells::user_transcript_lines;
use codex_session::cells::SessionInfoCell;
use codex_session::presets::ReasoningEffort;
use codex_session::cells::framed_lines;
use codex_session::cells::limit_lines_from_start;
use codex_session::cells::new_mcp_tools_output;
use codex_session::cells::new_plan_update;
use codex_session::config::McpServerConfig;
use codex_session::config::McpServerTransportConfig;
use codex_session::protocol::PlanItemArg;
use codex_session::protocol::StepStatus;
use codex_session::cells::new_patch_apply_failure;
use codex_session::cells::padded_emoji;
use codex_session::cells::with_border;
use codex_session::cells::with_border_with_inner_width;
use codex_session::cells::lines_of;
use codex_session::cells::output_lines;
use codex_session::cells::CommandOutput;
use codex_session::cells::OutputLinesParams;
use codex_session::cells::split_reasoning_summary;
use codex_session::cells::truncate_lines_middle;
use codex_session::cells::McpInvocation;
use codex_session::cells::McpToolCallCell;
use codex_session::cells::PrefixedBlock;
use codex_session::config::ReasoningSummaryFormat;
use codex_session::config::Timeout;
use codex_session::mcp::CallToolResult;
use codex_session::mcp::McpCallOutcome;

fn lines(n: usize) -> Vec<String> {
    (1..=n).map(|i| format!("line {i}")).collect()
}

#[test]
fn middle_truncation_keeps_head_and_tail() {
    assert_eq!(truncate_lines_middle(&lines(10), 5), vec!["line 1", "line 2", "… +6 lines", "line 9", "line 10"]);
    assert_eq!(truncate_lines_middle(&lines(10), 4), vec!["line 1", "… +7 lines", "line 9", "line 10"]);
    assert_eq!(truncate_lines_middle(&lines(10), 1), vec!["… +10 lines"]);
    assert!(truncate_lines_middle(&lines(10), 0).is_empty());
    assert_eq!(truncate_lines_middle(&lines(3), 3), lines(3));
}

#[test]
fn limit_from_start_counts_the_rest() {
    assert_eq!(limit_lines_from_start(&lines(4), 2), vec!["line 1", "line 2", "… +2 lines"]);
    assert_eq!(limit_lines_from_start(&lines(4), 0), vec!["… +4 lines"]);
    assert_eq!(limit_lines_from_start(&lines(2), 2), lines(2));
    assert_eq!(ellipsis_line(123), "… +123 lines");
}

#[test]
fn card_width_leaves_room_for_the_border() {
    assert_eq!(card_inner_width(3, 56), None);
    assert_eq!(card_inner_width(4, 56), Some(0));
    assert_eq!(card_inner_width(40, 56), Some(36));
    assert_eq!(card_inner_width(200, 56), Some(56));
}

#[test]
fn wrap_width_subtracts_the_wider_prefix() {
    let block = PrefixedBlock { initial_prefix: "  └ ", subsequent_prefix: "    " };
    assert_eq!(block.wrap_width(80), 76);
    assert_eq!(block.wrap_width(4), 1);
    assert_eq!(block.wrap_width(0), 1);
    let wide = PrefixedBlock { initial_prefix: "界", subsequent_prefix: "" };
    assert_eq!(wide.wrap_width(10), 8);
}

#[test]
fn reasoning_summary_block() {
    let (header, summary) = split_reasoning_summary(
        "**High level reasoning**\n\nDetailed reasoning goes here.",
        ReasoningSummaryFormat::Experimental,
    )
    .unwrap();
    assert_eq!(header, "**High level reasoning**");
    assert_eq!(summary.trim(), "Detailed reasoning goes here.");
}

#[test]
fn reasoning_summary_block_returns_reasoning_cell_when_feature_disabled() {
    assert_eq!(split_reasoning_summary("Detailed reasoning goes here.", ReasoningSummaryFormat::Experimental), None);
    assert_eq!(
        split_reasoning_summary("**High level reasoning**\n\nDetailed reasoning goes here.", ReasoningSummaryFormat::Plain),
        None
    );
}

#[test]
fn reasoning_summary_block_falls_back_when_header_is_missing() {
    assert_eq!(
        split_reasoning_summary("**High level reasoning without closing", ReasoningSummaryFormat::Experimental),
        None
    );
}

#[test]
fn reasoning_summary_block_falls_back_when_summary_is_missing() {
    assert_eq!(
        split_reasoning_summary("**High level reasoning without closing**", ReasoningSummaryFormat::Experimental),
        None
    );
    assert_eq!(
        split_reasoning_summary("**High level reasoning without closing**\n\n  ", ReasoningSummaryFormat::Experimental),
        None
    );
}

#[test]
fn reasoning_summary_block_splits_header_and_summary_when_present() {
    let (header, summary) = split_reasoning_summary(
        "  **High level plan**\n\nWe should fix the bug next.\n",
        ReasoningSummaryFormat::Experimental,
    )
    .unwrap();
    assert_eq!(header, "**High level plan**");
    assert_eq!(summary, "\n\nWe should fix the bug next.");
}

#[test]
fn mcp_cell_success_follows_outcome() {
    let invocation = McpInvocation { server: "rmcp".to_string(), tool: "echo".to_string(), arguments: None };
    let mut cell = McpToolCallCell::new("call".to_string(), invocation);
    assert_eq!(cell.call_id(), "call");
    assert_eq!(cell.success(), None);
    let ok = CallToolResult { content: vec![], structured_content: None, is_error: None };
    cell.complete(Timeout { secs: 1, nanos: 0 }, McpCallOutcome::Completed(ok));
    assert_eq!(cell.success(), Some(true));
    let failed = CallToolResult { content: vec![], structured_content: None, is_error: Some(true) };
    cell.complete(Timeout { secs: 1, nanos: 0 }, McpCallOutcome::Completed(failed));
    assert_eq!(cell.success(), Some(false));
    cell.mark_failed(Timeout { secs: 2, nanos: 0 });
    assert_eq!(cell.success(), Some(false));
}

#[test]
fn lines_follow_str_lines() {
    for s in ["", "a", "a\n", "a\r\nb", "a\n\nb\n", "x\r", "\n", "a\rb\n"] {
        let expected: Vec<String> = s.lines().map(|l| l.to_string()).collect();
        assert_eq!(lines_of(s), expected, "input {s:?}");
    }
}

#[test]
fn output_shows_head_ellipsis_and_tail() {
    let stderr: String = (1..=12).map(|i| format!("err {i}\n")).collect();
    let out = CommandOutput { exit_code: 1, stdout: "ignored\n".to_string(), stderr };
    let params = OutputLinesParams { only_err: false, include_angle_pipe: true, include_prefix: true };
    let shown = output_lines(Some(&out), params);
    assert_eq!(
        shown,
        vec![
            "  └ err 1", "    err 2", "    err 3", "    err 4", "    err 5", "… +2 lines", "    err 8", "    err 9",
            "    err 10", "    err 11", "    err 12"
        ]
    );
    let ok = CommandOutput { exit_code: 0, stdout: "one\ntwo\n".to_string(), stderr: String::new() };
    let only_err = OutputLinesParams { only_err: true, include_angle_pipe: false, include_prefix: false };
    assert!(output_lines(Some(&ok), only_err).is_empty());
    let plain = OutputLinesParams { only_err: false, include_angle_pipe: false, include_prefix: false };
    assert_eq!(output_lines(Some(&ok), plain), vec!["one", "two"]);
    assert!(output_lines(None, plain).is_empty());
}

#[test]
fn border_pads_to_the_widest_line() {
    let framed = with_border(&vec!["ab".to_string(), "界x".to_string(), String::new()]);
    assert_eq!(framed, vec!["╭─────╮", "│ ab  │", "│ 界x │", "│     │", "╰─────╯"]);
    let wide = with_border_with_inner_width(&vec!["a".to_string()], 3);
    assert_eq!(wide, vec!["╭─────╮", "│ a   │", "╰─────╯"]);
    assert_eq!(with_border(&vec![]), vec!["╭──╮", "╰──╯"]);
}

#[test]
fn patch_failure_shows_stderr_tail() {
    assert_eq!(new_patch_apply_failure("  \n".to_string()), vec!["✘ Failed to apply patch"]);
    assert_eq!(
        new_patch_apply_failure("error: hunk failed\ncontext\n".to_string()),
        vec!["✘ Failed to apply patch", "  └ error: hunk failed", "    context"]
    );
}

#[test]
fn emoji_gets_a_hair_space() {
    assert_eq!(padded_emoji("🚀"), "🚀\u{200A}");
}

#[test]
fn framed_lines_checks_widths() {
    assert_eq!(framed_lines(&vec!["a".to_string()], None), Some(vec!["╭───╮".to_string(), "│ a │".to_string(), "╰───╯".to_string()]));
    assert_eq!(framed_lines(&vec!["a".to_string()], Some(usize::MAX)), None);
}

#[test]
fn plan_update_without_note() {
    let cell = new_plan_update(
        None,
        vec![
            PlanItemArg { step: "Define error taxonomy".into(), status: StepStatus::InProgress },
            PlanItemArg { step: "Implement mapping to user messages".into(), status: StepStatus::Pending },
        ],
    );
    assert_eq!(
        cell.display_lines(40),
        vec!["• Updated Plan", "  └ □ Define error taxonomy", "    □ Implement mapping to user messages"]
    );
}

#[test]
fn plan_update_wraps_note_and_steps() {
    let cell = new_plan_update(
        Some("  retry when the backend is down  ".to_string()),
        vec![PlanItemArg { step: "alpha beta gamma delta".into(), status: StepStatus::Completed }],
    );
    let lines = cell.display_lines(20);
    assert_eq!(lines[0], "• Updated Plan");
    assert!(lines[1].starts_with("  └ retry"));
    let step_start = lines.iter().position(|l| l.contains("✔ ")).unwrap();
    assert!(lines[step_start].starts_with("    ✔ alpha"));
    for l in &lines[step_start + 1..] {
        assert!(l.starts_with("      "), "continuation {l:?}");
    }
    let words: Vec<&str> = lines[step_start..].iter().flat_map(|l| l.split_whitespace()).filter(|w| *w != "✔").collect();
    assert_eq!(words, vec!["alpha", "beta", "gamma", "delta"]);
}

#[test]
fn plan_update_without_steps() {
    let cell = new_plan_update(Some("   ".to_string()), vec![]);
    assert_eq!(cell.display_lines(80), vec!["• Updated Plan", "  └ (no steps provided)"]);
}

#[test]
fn mcp_tools_listing_groups_and_sorts() {
    let servers = vec![
        (
            "docs".to_string(),
            McpServerConfig {
                transport: McpServerTransportConfig::Stdio {
                    command: "docs-server".to_string(),
                    args: vec!["--port".to_string(), "0".to_string()],
                    env: None,
                },
                startup_timeout_sec: None,
                tool_timeout_sec: None,
            },
        ),
        (
            "web".to_string(),
            McpServerConfig {
                transport: McpServerTransportConfig::StreamableHttp { url: "https://x/mcp".to_string(), bearer_token: None },
                startup_timeout_sec: None,
                tool_timeout_sec: None,
            },
        ),
    ];
    let names = vec!["docs__search".to_string(), "other__x".to_string(), "docs__fetch".to_string()];
    assert_eq!(
        new_mcp_tools_output(&servers, &names),
        vec![
            "/mcp", "", "🔌  MCP Tools", "",
            "  • Server: docs", "    • Command: docs-server --port 0", "    • Tools: fetch, search", "",
            "  • Server: web", "    • URL: https://x/mcp", "    • Tools: (none)", ""
        ]
    );
    assert_eq!(
        new_mcp_tools_output(&servers, &vec![]),
        vec!["/mcp", "", "🔌  MCP Tools", "", "  • No MCP tools available.", ""]
    );
}

#[test]
fn empty_mcp_output_points_to_docs() {
    let lines = empty_mcp_output();
    assert_eq!(lines.len(), 6);
    assert_eq!(lines[4], "  • No MCP servers configured.");
    assert!(lines[5].starts_with("    See the \u{1b}]8;;https://github.com/openai/codex/blob/main/docs/config.md#mcp_servers"));
    assert!(lines[5].ends_with("MCP docs\u{1b}]8;;\u{7} to configure them."));
}

#[test]
fn info_event_with_and_without_hint() {
    assert_eq!(new_info_event("saved".to_string(), None), "• saved");
    assert_eq!(new_info_event("saved".to_string(), Some("(ctrl+z)".to_string())), "• saved (ctrl+z)");
}

#[test]
fn first_configuration_shows_welcome() {
    let info = new_session_info(&"gpt-5".to_string(), "gpt-5".to_string(), Some(ReasoningEffort::High), true);
    match info {
        SessionInfoCell::Welcome { model, reasoning_effort, help_lines } => {
            assert_eq!(model, "gpt-5");
            assert_eq!(reasoning_effort, Some(ReasoningEffort::High));
            assert_eq!(help_lines.len(), 6);
            assert_eq!(help_lines[2], "  /init - create an AGENTS.md file with instructions for Codex");
        }
        other => panic!("unexpected {other:?}"),
    }
}

#[test]
fn later_configuration_reports_model_change_only() {
    assert!(matches!(
        new_session_info(&"gpt-5".to_string(), "gpt-5".to_string(), None, false),
        SessionInfoCell::Unchanged
    ));
    match new_session_info(&"gpt-5".to_string(), "gpt-5-codex".to_string(), None, false) {
        SessionInfoCell::ModelChanged { lines } => {
            assert_eq!(lines, vec!["model changed:", "requested: gpt-5", "used: gpt-5-codex"])
        }
        other => panic!("unexpected {other:?}"),
    }
}

#[test]
fn user_prompt_transcript() {
    assert_eq!(user_transcript_lines("fix it\r\nplease\n"), vec!["user", "fix it", "please"]);
}

#[test]
fn session_header_includes_reasoning_level_when_present() {
    let model_line = session_header_model_line("gpt-4o", Some(ReasoningEffort::High));
    assert!(model_line.contains("model:"));
    assert!(model_line.contains("gpt-4o high"));
    assert!(model_line.contains("/model to change"));
    assert_eq!(reasoning_label(None), None);
    assert_eq!(session_header_model_line("m", None), "model:     m   /model to change");
}

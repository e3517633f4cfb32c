use codex_session::approval_overlay::build_exec_history_lines;
use codex_session::approval_overlay::exec_snippet;
use codex_session::approval_overlay::truncate_exec_snippet;
use codex_session::approval_overlay::ApprovalOverlay;
use codex_session::approval_overlay::ApprovalRequest;
use codex_session::approval_overlay::HeaderLine;
use codex_session::approval_overlay::KeyEvent;
use codex_session::approval_overlay::KeyInput;
use codex_session::approval_overlay::Op;
use codex_session::approval_overlay::OverlayEffect;
use codex_session::approval_overlay::SpanStyle;
use codex_session::protocol::ReviewDecision;

fn make_exec_request() -> ApprovalRequest {
    ApprovalRequest::Exec {
        id: "test".to_string(),
        command: vec!["echo".to_string(), "hi".to_string()],
        reason: Some("reason".to_string()),
    }
}

fn key(k: KeyInput) -> KeyEvent {
    KeyEvent { key: k, control: false, alt: false, is_press: true }
}

fn decisions(effects: &[OverlayEffect]) -> Vec<(String, ReviewDecision)> {
    effects
        .iter()
        .filter_map(|e| match e {
            OverlayEffect::CodexOp(Op::ExecApproval { id, decision }) => Some((id.clone(), *decision)),
            OverlayEffect::CodexOp(Op::PatchApproval { id, decision }) => Some((id.clone(), *decision)),
            _ => None,
        })
        .collect()
}

#[test]
fn ctrl_c_aborts_and_clears_queue() {
    let mut view = ApprovalOverlay::new(make_exec_request());
    view.enqueue_request(make_exec_request());
    assert_eq!(view.queued_count(), 1);
    let effects = view.on_ctrl_c();
    assert_eq!(decisions(&effects), vec![("test".to_string(), ReviewDecision::Abort)]);
    assert_eq!(view.queued_count(), 0);
    assert!(view.is_complete());
    assert!(view.on_ctrl_c().is_empty());
}

#[test]
fn shortcut_triggers_selection() {
    let mut view = ApprovalOverlay::new(make_exec_request());
    assert!(!view.is_complete());
    let effects = view.handle_key_event(key(KeyInput::Char('y')));
    let saw_op = effects.iter().any(|e| matches!(e, OverlayEffect::CodexOp(_)));
    assert!(saw_op, "expected approval decision to emit an op");
    assert_eq!(decisions(&effects), vec![("test".to_string(), ReviewDecision::Approved)]);
}

#[test]
fn header_includes_command_snippet() {
    let command = vec!["echo".into(), "hello".into(), "world".into()];
    let exec_request = ApprovalRequest::Exec { id: "test".into(), command, reason: None };

    let view = ApprovalOverlay::new(exec_request);
    let rendered: Vec<String> = view
        .header()
        .iter()
        .filter_map(|l| match l {
            HeaderLine::Text { text, .. } => Some(text.clone()),
            HeaderLine::Spacer => None,
        })
        .collect();
    assert!(
        rendered.iter().any(|line| line.contains("Command: echo hello world")),
        "expected header to include command snippet, got {rendered:?}"
    );
}

#[test]
fn enter_sets_last_selected_index_without_dismissing() {
    let mut view = ApprovalOverlay::new(make_exec_request());
    assert!(view.handle_key_event(key(KeyInput::Down)).is_empty());
    let effects = view.handle_key_event(key(KeyInput::Enter));

    assert!(view.is_complete(), "exec approval should complete without queued requests");
    assert_eq!(decisions(&effects).first().map(|d| d.1), Some(ReviewDecision::ApprovedForSession));
}

#[test]
fn queued_requests_are_shown_after_an_answer() {
    let mut view = ApprovalOverlay::new(make_exec_request());
    view.enqueue_request(ApprovalRequest::ApplyPatch {
        id: "patch".to_string(),
        reason: None,
        grant_root: Some("/repo".to_string()),
    });
    let effects = view.handle_key_event(key(KeyInput::Char('N')));
    assert_eq!(decisions(&effects), vec![("test".to_string(), ReviewDecision::Abort)]);
    assert!(!view.is_complete());
    assert_eq!(view.title(), "Apply changes?");
    assert_eq!(
        view.header(),
        &vec![
            HeaderLine::Text {
                text: "Grant write access to /repo for the remainder of this session.".to_string(),
                italic: false
            },
            HeaderLine::Spacer
        ]
    );
    // 'a' is not a patch shortcut
    assert!(view.handle_key_event(key(KeyInput::Char('a'))).is_empty());
    let effects = view.handle_key_event(key(KeyInput::Char('y')));
    assert_eq!(decisions(&effects), vec![("patch".to_string(), ReviewDecision::Approved)]);
    assert!(view.is_complete());
}

#[test]
fn modified_keys_are_not_shortcuts() {
    let mut view = ApprovalOverlay::new(make_exec_request());
    let ctrl_y = KeyEvent { key: KeyInput::Char('y'), control: true, alt: false, is_press: true };
    assert!(view.handle_key_event(ctrl_y).is_empty());
    assert!(!view.is_complete());
    assert!(view.handle_key_event(key(KeyInput::Up)).is_empty());
    let effects = view.handle_key_event(key(KeyInput::Enter));
    assert_eq!(decisions(&effects), vec![("test".to_string(), ReviewDecision::Abort)]);
}

#[test]
fn exec_header_has_reason_then_command() {
    let view = ApprovalOverlay::new(make_exec_request());
    assert_eq!(view.title(), "Allow command?");
    assert_eq!(
        view.header(),
        &vec![
            HeaderLine::Text { text: "reason".to_string(), italic: true },
            HeaderLine::Spacer,
            HeaderLine::Text { text: "Command: echo hi".to_string(), italic: false },
            HeaderLine::Spacer
        ]
    );
}

#[test]
fn snippets_show_first_line_and_are_cut() {
    let cmd = vec!["bash".to_string(), "-lc".to_string(), "echo one\necho two".to_string()];
    assert_eq!(exec_snippet(&cmd), "echo one ...");
    let long = "x".repeat(100);
    let cut = truncate_exec_snippet(&long);
    assert_eq!(cut.chars().count(), 80);
    assert!(cut.ends_with("..."));
    assert_eq!(truncate_exec_snippet("short"), "short");
}

#[test]
fn history_line_records_denial() {
    let lines = build_exec_history_lines(&vec!["ls".to_string()], ReviewDecision::Denied).unwrap();
    assert_eq!(lines.len(), 1);
    let texts: Vec<(String, SpanStyle)> = lines[0].iter().map(|s| (s.text.clone(), s.style)).collect();
    assert_eq!(
        texts,
        vec![
            ("✗ ".to_string(), SpanStyle::Red),
            ("You ".to_string(), SpanStyle::Plain),
            ("did not approve".to_string(), SpanStyle::Bold),
            (" codex to run ".to_string(), SpanStyle::Plain),
            ("ls".to_string(), SpanStyle::Dim)
        ]
    );
}

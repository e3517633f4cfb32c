use codex_session::footer::build_columns;
use codex_session::footer::esc_hint_mode;
use codex_session::footer::footer_height;
use codex_session::footer::footer_lines;
use codex_session::footer::prompt_mode;
use codex_session::footer::reset_mode_after_activity;
use codex_session::footer::shortcut_overlay_entries;
use codex_session::footer::toggle_shortcut_mode;
use codex_session::footer::DisplayCondition;
use codex_session::footer::FooterMode;
use codex_session::footer::FooterProps;
use codex_session::footer::ShortcutsState;

fn props(mode: FooterMode) -> FooterProps {
    FooterProps { mode, esc_backtrack_hint: false, use_shift_enter_hint: false, is_task_running: false }
}

#[test]
fn mode_transitions() {
    assert_eq!(toggle_shortcut_mode(FooterMode::ShortcutPrompt, false), FooterMode::ShortcutOverlay);
    assert_eq!(toggle_shortcut_mode(FooterMode::ShortcutOverlay, false), FooterMode::ShortcutPrompt);
    assert_eq!(toggle_shortcut_mode(FooterMode::CtrlCReminder, false), FooterMode::ShortcutPrompt);
    assert_eq!(toggle_shortcut_mode(FooterMode::EscHint, true), FooterMode::EscHint);
    assert_eq!(esc_hint_mode(FooterMode::ShortcutPrompt, true), FooterMode::ShortcutPrompt);
    assert_eq!(esc_hint_mode(FooterMode::ShortcutPrompt, false), FooterMode::EscHint);
    assert_eq!(reset_mode_after_activity(FooterMode::EscHint), FooterMode::ShortcutPrompt);
    assert_eq!(reset_mode_after_activity(FooterMode::CtrlCReminder), FooterMode::CtrlCReminder);
    assert_eq!(prompt_mode(), FooterMode::ShortcutPrompt);
}

#[test]
fn single_line_footers() {
    assert_eq!(footer_lines(props(FooterMode::ShortcutPrompt)), vec!["? for shortcuts".to_string()]);
    assert_eq!(footer_lines(props(FooterMode::CtrlCReminder)), vec!["  ctrl + c again to quit".to_string()]);
    let running = FooterProps { is_task_running: true, ..props(FooterMode::CtrlCReminder) };
    assert_eq!(footer_lines(running), vec!["  ctrl + c again to interrupt".to_string()]);
    assert_eq!(footer_lines(props(FooterMode::EscHint)), vec!["  esc esc to edit previous message".to_string()]);
    let backtrack = FooterProps { esc_backtrack_hint: true, ..props(FooterMode::EscHint) };
    assert_eq!(footer_lines(backtrack), vec!["  esc again to edit previous message".to_string()]);
    assert_eq!(footer_height(props(FooterMode::ShortcutPrompt)), 1);
}

#[test]
fn overlay_lays_out_three_columns() {
    let lines = footer_lines(props(FooterMode::ShortcutOverlay));
    assert_eq!(footer_height(props(FooterMode::ShortcutOverlay)), 3);
    assert_eq!(
        lines,
        vec![
            "  / for commands          ctrl + j for newline           shift + tab to change mode".to_string(),
            "  @ for file paths        ctrl + v to paste images       esc esc to edit previous message".to_string(),
            "  ctrl + c to exit        ctrl + t to view transcript  ".to_string(),
        ]
    );
}

#[test]
fn overlay_entries_follow_state() {
    let state = ShortcutsState { use_shift_enter_hint: true, esc_backtrack_hint: true, is_task_running: true };
    let entries = shortcut_overlay_entries(state);
    assert_eq!(entries[1], "shift + enter for newline");
    assert_eq!(entries[5], "esc again to edit previous message");
    assert_eq!(entries[6], "ctrl + c to interrupt");
    assert!(DisplayCondition::WhenShiftEnterHint.matches(state));
    assert!(!DisplayCondition::WhenNotShiftEnterHint.matches(state));
    assert!(DisplayCondition::Always.matches(state));
}

#[test]
fn columns_of_few_entries() {
    assert!(build_columns(&vec![]).is_empty());
    let lines = build_columns(&vec!["a".to_string(), "bb".to_string()]);
    assert_eq!(lines, vec![format!("  a{}bb{}", " ".repeat(23), "  ")]);
}

use codex_session::mcp::McpCallOutcome;
use codex_session::protocol::EventMsg;
use codex_session::protocol::ReviewDecision;
use codex_session::protocol::TaskKind;
use codex_session::protocol::TurnAbortReason;
use codex_session::session::ApprovalKind;
use codex_session::session::ApprovalNeed;
use codex_session::session::Session;
use codex_session::session::should_compact;
use codex_session::session::HistoryItem;
use codex_session::session::HistoryRole;
use codex_session::session::SessionError;

fn words(ws: &[&str]) -> Vec<String> {
    ws.iter().map(|w| w.to_string()).collect()
}

fn exec_begin(call_id: &str, command: &[&str]) -> EventMsg {
    EventMsg::ExecCommandBegin { call_id: call_id.to_string(), command: words(command) }
}

fn exec_end(call_id: &str, exit_code: i32) -> EventMsg {
    EventMsg::ExecCommandEnd { call_id: call_id.to_string(), exit_code, aggregated_output: "hi\n".to_string() }
}

fn tags(s: &Session) -> Vec<(String, String)> {
    s.events()
        .iter()
        .map(|e| {
            let tag = match &e.msg {
                EventMsg::SessionConfigured { .. } => "SessionConfigured",
                EventMsg::TaskStarted => "TaskStarted",
                EventMsg::TaskComplete { .. } => "TaskComplete",
                EventMsg::TurnAborted { .. } => "TurnAborted",
                EventMsg::AgentMessage { .. } => "AgentMessage",
                EventMsg::ExecCommandBegin { .. } => "ExecCommandBegin",
                EventMsg::ExecCommandEnd { .. } => "ExecCommandEnd",
                EventMsg::McpToolCallBegin { .. } => "McpToolCallBegin",
                EventMsg::McpToolCallEnd { .. } => "McpToolCallEnd",
                EventMsg::ExecApprovalRequest { .. } => "ExecApprovalRequest",
                EventMsg::PatchApprovalRequest { .. } => "PatchApprovalRequest",
                EventMsg::ExitedReviewMode => "ExitedReviewMode",
                EventMsg::StreamError { .. } => "StreamError",
                _ => "Other",
            };
            (e.id.clone(), tag.to_string())
        })
        .collect()
}

fn outstanding_tasks(s: &Session) -> usize {
    let mut running: Vec<String> = Vec::new();
    let mut max = 0;
    for e in s.events() {
        match &e.msg {
            EventMsg::TaskStarted => running.push(e.id.clone()),
            EventMsg::TaskComplete { .. } | EventMsg::TurnAborted { .. } => running.retain(|id| id != &e.id),
            _ => {}
        }
        max = max.max(running.len());
    }
    max
}

#[test]
fn happy_shell_turn() {
    let mut s = Session::new("session".to_string());
    assert!(matches!(&s.events()[0].msg, EventMsg::SessionConfigured { session_id } if session_id == "session"));
    s.spawn_task("sub1".to_string(), TaskKind::Regular).unwrap();
    assert!(s.begin_call("sub1", exec_begin("call1", &["echo", "hi"])));
    assert!(s.end_call("sub1", exec_end("call1", 0)));
    assert!(s.emit("sub1", EventMsg::AgentMessage { message: "done".to_string() }));
    s.on_task_finished("sub1", Some("done".to_string()));

    let t: Vec<String> = tags(&s).into_iter().map(|(_, t)| t).collect();
    assert_eq!(
        t,
        vec!["SessionConfigured", "TaskStarted", "ExecCommandBegin", "ExecCommandEnd", "AgentMessage", "TaskComplete"]
    );
    match &s.events()[2].msg {
        EventMsg::ExecCommandBegin { command, .. } => assert_eq!(command, &words(&["echo", "hi"])),
        other => panic!("unexpected {other:?}"),
    }
    match &s.events()[3].msg {
        EventMsg::ExecCommandEnd { exit_code, .. } => assert_eq!(*exit_code, 0),
        other => panic!("unexpected {other:?}"),
    }
    match &s.events()[5].msg {
        EventMsg::TaskComplete { last_agent_message } => assert_eq!(last_agent_message.as_deref(), Some("done")),
        other => panic!("unexpected {other:?}"),
    }
    assert!(s.active_sub_id().is_none());
}

#[test]
fn replaced_mid_stream() {
    let mut s = Session::new("session".to_string());
    s.spawn_task("sub1".to_string(), TaskKind::Regular).unwrap();
    assert!(s.begin_call("sub1", exec_begin("call1", &["sleep", "10"])));
    s.spawn_task("sub2".to_string(), TaskKind::Regular).unwrap();

    let t = tags(&s);
    assert_eq!(t[3], ("sub1".to_string(), "TurnAborted".to_string()));
    assert_eq!(t[4], ("sub2".to_string(), "TaskStarted".to_string()));
    match &s.events()[3].msg {
        EventMsg::TurnAborted { reason } => assert_eq!(*reason, TurnAbortReason::Replaced),
        other => panic!("unexpected {other:?}"),
    }
    // the replaced task can no longer emit
    let n = s.events().len();
    assert!(!s.end_call("sub1", exec_end("call1", 0)));
    assert!(s.on_task_finished("sub1", None).is_empty());
    assert_eq!(s.events().len(), n);
    assert_eq!(s.active_sub_id().map(|x| x.as_str()), Some("sub2"));
}

#[test]
fn denied_exec_runs_nothing() {
    let mut s = Session::new("session".to_string());
    s.spawn_task("sub".to_string(), TaskKind::Regular).unwrap();
    let need = s.request_approval("sub", "call1".to_string(), ApprovalKind::Exec, words(&["rm", "-rf", "/"]));
    assert_eq!(need, ApprovalNeed::AwaitingDecision);
    assert!(matches!(&s.events().last().unwrap().msg, EventMsg::ExecApprovalRequest { call_id, .. } if call_id == "call1"));
    assert_eq!(s.resolve_approval("call1", ReviewDecision::Denied), Some(ReviewDecision::Denied));
    // the denied command cannot start; another call can
    assert!(!s.begin_call("sub", exec_begin("call1", &["rm", "-rf", "/"])));
    assert!(s.emit("sub", EventMsg::AgentMessage { message: "the command was denied".to_string() }));
    s.on_task_finished("sub", None);
    let t: Vec<String> = tags(&s).into_iter().map(|(_, t)| t).collect();
    assert!(!t.contains(&"ExecCommandBegin".to_string()));
    assert_eq!(t.last().unwrap(), "TaskComplete");
    assert!(!s.is_approved_for_session(&words(&["rm", "-rf", "/"])));
}

#[test]
fn session_approval_skips_later_requests() {
    let mut s = Session::new("session".to_string());
    s.spawn_task("sub1".to_string(), TaskKind::Regular).unwrap();
    let fp = words(&["cargo", "test"]);
    assert_eq!(s.request_approval("sub1", "c1".to_string(), ApprovalKind::Exec, fp.clone()), ApprovalNeed::AwaitingDecision);
    assert_eq!(s.resolve_approval("c1", ReviewDecision::ApprovedForSession), Some(ReviewDecision::ApprovedForSession));
    assert!(s.is_approved_for_session(&fp));
    s.on_task_finished("sub1", None);

    s.spawn_task("sub2".to_string(), TaskKind::Regular).unwrap();
    let n = s.events().len();
    assert_eq!(s.request_approval("sub2", "c2".to_string(), ApprovalKind::Exec, fp.clone()), ApprovalNeed::AutoApproved);
    assert_eq!(s.events().len(), n);
    // a patch is never approved for the session
    assert_eq!(s.request_approval("sub2", "c3".to_string(), ApprovalKind::Patch, fp), ApprovalNeed::AwaitingDecision);
}

#[test]
fn abort_resolves_pending_approvals() {
    let mut s = Session::new("session".to_string());
    s.spawn_task("sub".to_string(), TaskKind::Regular).unwrap();
    s.request_approval("sub", "a".to_string(), ApprovalKind::Exec, words(&["ls"]));
    s.request_approval("sub", "b".to_string(), ApprovalKind::Patch, vec![]);
    assert_eq!(s.pending_approval_count(), 2);
    let forced = s.abort_all_tasks(TurnAbortReason::UserInterrupt);
    assert_eq!(forced, vec![("a".to_string(), ReviewDecision::Abort), ("b".to_string(), ReviewDecision::Abort)]);
    assert_eq!(s.pending_approval_count(), 0);
    assert_eq!(s.resolve_approval("a", ReviewDecision::Approved), None);
    match &s.events().last().unwrap().msg {
        EventMsg::TurnAborted { reason } => assert_eq!(*reason, TurnAbortReason::UserInterrupt),
        other => panic!("unexpected {other:?}"),
    }
}

#[test]
fn duplicate_request_is_rejected() {
    let mut s = Session::new("session".to_string());
    s.spawn_task("sub".to_string(), TaskKind::Regular).unwrap();
    assert_eq!(s.request_approval("sub", "a".to_string(), ApprovalKind::Exec, words(&["ls"])), ApprovalNeed::AwaitingDecision);
    assert_eq!(s.request_approval("sub", "a".to_string(), ApprovalKind::Exec, words(&["ls"])), ApprovalNeed::Rejected);
    assert_eq!(s.request_approval("other", "z".to_string(), ApprovalKind::Exec, words(&["ls"])), ApprovalNeed::Rejected);
}

#[test]
fn mcp_timeout_is_reported_and_session_survives() {
    let mut s = Session::new("session".to_string());
    s.spawn_task("sub1".to_string(), TaskKind::Regular).unwrap();
    let begin = EventMsg::McpToolCallBegin { call_id: "m1".to_string(), server: "rmcp".to_string(), tool: "echo".to_string() };
    assert!(s.begin_call("sub1", begin));
    let end = EventMsg::McpToolCallEnd {
        call_id: "m1".to_string(),
        result: McpCallOutcome::Failed("timed out awaiting tools/call after 1s".to_string()),
    };
    assert!(s.end_call("sub1", end));
    s.on_task_finished("sub1", None);
    match &s.events()[3].msg {
        EventMsg::McpToolCallEnd { result: McpCallOutcome::Failed(msg), .. } => assert!(msg.contains("timed out")),
        other => panic!("unexpected {other:?}"),
    }
    assert!(s.spawn_task("sub2".to_string(), TaskKind::Regular).is_ok());
    assert_eq!(s.active_sub_id().map(|x| x.as_str()), Some("sub2"));
}

#[test]
fn finishing_with_open_calls_is_fatal() {
    let mut s = Session::new("session".to_string());
    s.spawn_task("sub".to_string(), TaskKind::Regular).unwrap();
    assert!(s.begin_call("sub", exec_begin("c", &["ls"])));
    assert!(!s.begin_call("sub", exec_begin("c", &["ls"])));
    s.on_task_finished("sub", Some("x".to_string()));
    let n = s.events().len();
    assert!(matches!(&s.events()[n - 2].msg, EventMsg::Error { .. }));
    match &s.events()[n - 1].msg {
        EventMsg::TurnAborted { reason } => assert_eq!(*reason, TurnAbortReason::Shutdown),
        other => panic!("unexpected {other:?}"),
    }
    assert_eq!(s.spawn_task("next".to_string(), TaskKind::Regular).unwrap_err(), SessionError::ShuttingDown);
}

#[test]
fn returned_run_is_completed_not_aborted() {
    let mut s = Session::new("session".to_string());
    s.spawn_task("a".to_string(), TaskKind::Review).unwrap();
    assert!(s.run_returned("a", Some("review done".to_string())));
    assert!(!s.run_returned("a", None));
    s.spawn_task("b".to_string(), TaskKind::Regular).unwrap();
    let t = tags(&s);
    assert_eq!(t[2], ("a".to_string(), "TaskComplete".to_string()));
    assert_eq!(t[3], ("b".to_string(), "TaskStarted".to_string()));
    assert!(!t.iter().any(|(id, tag)| id == "a" && (tag == "TurnAborted" || tag == "ExitedReviewMode")));
    // the late completion of `a` adds nothing
    let n = s.events().len();
    s.on_task_finished("a", Some("review done".to_string()));
    assert_eq!(s.events().len(), n);
    assert_eq!(outstanding_tasks(&s), 1);
}

#[test]
fn returned_regular_run_keeps_its_message_on_interrupt() {
    let mut s = Session::new("session".to_string());
    s.spawn_task("a".to_string(), TaskKind::Regular).unwrap();
    s.run_returned("a", Some("done".to_string()));
    s.abort_all_tasks(TurnAbortReason::UserInterrupt);
    match &s.events().last().unwrap().msg {
        EventMsg::TaskComplete { last_agent_message } => assert_eq!(last_agent_message.as_deref(), Some("done")),
        other => panic!("unexpected {other:?}"),
    }
}

#[test]
fn compact_and_review_tasks_carry_no_message() {
    let mut s = Session::new("session".to_string());
    s.spawn_task("c".to_string(), TaskKind::Compact).unwrap();
    s.on_task_finished("c", Some("summary".to_string()));
    match &s.events().last().unwrap().msg {
        EventMsg::TaskComplete { last_agent_message } => assert_eq!(*last_agent_message, None),
        other => panic!("unexpected {other:?}"),
    }
}

#[test]
fn aborted_review_announces_exit_first() {
    let mut s = Session::new("session".to_string());
    s.spawn_task("r".to_string(), TaskKind::Review).unwrap();
    s.abort_all_tasks(TurnAbortReason::UserInterrupt);
    let t = tags(&s);
    let n = t.len();
    assert_eq!(t[n - 2], ("r".to_string(), "ExitedReviewMode".to_string()));
    assert_eq!(t[n - 1], ("r".to_string(), "TurnAborted".to_string()));
}

#[test]
fn shutdown_refuses_new_tasks() {
    let mut s = Session::new("session".to_string());
    s.spawn_task("a".to_string(), TaskKind::Regular).unwrap();
    s.shutdown();
    assert_eq!(s.spawn_task("b".to_string(), TaskKind::Regular).unwrap_err(), SessionError::ShuttingDown);
    assert!(s.active_sub_id().is_none());
    match &s.events().last().unwrap().msg {
        EventMsg::TurnAborted { reason } => assert_eq!(*reason, TurnAbortReason::Shutdown),
        other => panic!("unexpected {other:?}"),
    }
}

#[test]
fn at_most_one_task_outstanding() {
    let mut s = Session::new("session".to_string());
    for i in 0..5 {
        s.spawn_task(format!("sub{i}"), TaskKind::Regular).unwrap();
        if i % 2 == 0 {
            s.on_task_finished(&format!("sub{i}"), None);
        }
    }
    assert_eq!(outstanding_tasks(&s), 1);
}

#[test]
fn events_of_each_submission_stay_in_order() {
    let mut s = Session::new("session".to_string());
    s.spawn_task("a".to_string(), TaskKind::Regular).unwrap();
    let before: Vec<(String, String)> = tags(&s);
    s.begin_call("a", exec_begin("c", &["ls"]));
    s.spawn_task("b".to_string(), TaskKind::Regular).unwrap();
    let after = tags(&s);
    assert_eq!(&after[..before.len()], &before[..]);
    let a_events: Vec<String> = after.iter().filter(|(id, _)| id == "a").map(|(_, t)| t.clone()).collect();
    assert_eq!(a_events, vec!["TaskStarted", "ExecCommandBegin", "TurnAborted"]);
}

#[test]
fn plain_messages_only_for_the_running_task() {
    let mut s = Session::new("session".to_string());
    assert!(!s.emit("nobody", EventMsg::StreamError { message: "x".to_string() }));
    s.spawn_task("a".to_string(), TaskKind::Regular).unwrap();
    assert!(s.emit("a", EventMsg::StreamError { message: "x".to_string() }));
    assert!(!s.emit("b", EventMsg::StreamError { message: "x".to_string() }));
}

fn item(role: HistoryRole, text: &str) -> HistoryItem {
    HistoryItem { role, text: text.to_string() }
}

#[test]
fn compaction_replaces_history_with_seed_and_summary() {

    let mut s = Session::new("session".to_string());
    s.spawn_task("turn".to_string(), TaskKind::Regular).unwrap();
    assert!(s.record_history("turn", item(HistoryRole::User, "fix the build")));
    assert!(s.record_history("turn", item(HistoryRole::ToolCall, "shell cargo build")));
    assert!(s.record_history("turn", item(HistoryRole::ToolOutput, "error[E0308]")));
    // only the running compaction task may replace the history
    assert!(!s.complete_compaction("turn", vec![], item(HistoryRole::Summary, "x")));
    s.on_task_finished("turn", Some("done".to_string()));
    assert!(!s.record_history("turn", item(HistoryRole::Assistant, "late")));
    assert_eq!(s.history_items().len(), 3);

    assert!(should_compact(9_000, 10_000, 80));
    assert!(!should_compact(8_000, 10_000, 80));

    s.spawn_task("compact".to_string(), TaskKind::Compact).unwrap();
    let seed = vec![item(HistoryRole::User, "fix the build")];
    assert!(s.complete_compaction("compact", seed, item(HistoryRole::Summary, "build fails on a type mismatch")));
    s.on_task_finished("compact", Some("ignored".to_string()));

    assert_eq!(
        s.history_items(),
        &vec![item(HistoryRole::User, "fix the build"), item(HistoryRole::Summary, "build fails on a type mismatch")]
    );
    match &s.events().last().unwrap().msg {
        EventMsg::TaskComplete { last_agent_message } => assert_eq!(*last_agent_message, None),
        other => panic!("unexpected {other:?}"),
    }
}

#[test]
fn aborted_compaction_leaves_history_untouched() {
    let mut s = Session::new("session".to_string());
    s.spawn_task("turn".to_string(), TaskKind::Regular).unwrap();
    s.record_history("turn", item(HistoryRole::User, "hello"));
    s.spawn_task("compact".to_string(), TaskKind::Compact).unwrap();
    s.abort_all_tasks(TurnAbortReason::UserInterrupt);
    assert!(!s.complete_compaction("compact", vec![], item(HistoryRole::Summary, "s")));
    assert_eq!(s.history_items(), &vec![item(HistoryRole::User, "hello")]);
}

#[test]
fn aborted_approval_also_blocks_the_call() {
    let mut s = Session::new("session".to_string());
    s.spawn_task("sub".to_string(), TaskKind::Regular).unwrap();
    s.request_approval("sub", "p1".to_string(), ApprovalKind::Patch, vec![]);
    assert_eq!(s.resolve_approval("p1", ReviewDecision::Abort), Some(ReviewDecision::Abort));
    let patch = EventMsg::PatchApplyBegin { call_id: "p1".to_string(), changes: vec![] };
    assert!(!s.begin_call("sub", patch));
    // an approved call starts
    s.request_approval("sub", "c2".to_string(), ApprovalKind::Exec, words(&["ls"]));
    s.resolve_approval("c2", ReviewDecision::Approved);
    assert!(s.begin_call("sub", exec_begin("c2", &["ls"])));
}

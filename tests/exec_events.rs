use codex_session::exec_events::status_after;
use codex_session::exec_events::todo_items_from_plan;
use codex_session::exec_events::CodexStatus;
use codex_session::exec_events::CommandExecutionStatus;
use codex_session::exec_events::ConversationEvent;
use codex_session::exec_events::ConversationItemDetails;
use codex_session::exec_events::ExperimentalEventProcessorWithJsonOutput;
use codex_session::exec_events::PatchApplyStatus;
use codex_session::exec_events::PatchChangeKind;
use codex_session::exec_events::Usage;
use codex_session::protocol::Event;
use codex_session::protocol::EventMsg;
use codex_session::protocol::FileChange;
use codex_session::protocol::PlanItemArg;
use codex_session::protocol::StepStatus;
use codex_session::protocol::TokenUsage;

fn ev(msg: EventMsg) -> Event {
    Event { id: "1".to_string(), msg }
}

fn words(ws: &[&str]) -> Vec<String> {
    ws.iter().map(|w| w.to_string()).collect()
}

#[test]
fn session_configured_creates_session() {
    let mut p = ExperimentalEventProcessorWithJsonOutput::new(None);
    let out = p.collect_conversation_events(&ev(EventMsg::SessionConfigured { session_id: "abc".to_string() }));
    assert_eq!(out, vec![ConversationEvent::SessionCreated { session_id: "abc".to_string() }]);
}

#[test]
fn agent_message_and_reasoning_get_increasing_ids() {
    let mut p = ExperimentalEventProcessorWithJsonOutput::new(None);
    let a = p.collect_conversation_events(&ev(EventMsg::AgentMessage { message: "hello".to_string() }));
    let b = p.collect_conversation_events(&ev(EventMsg::AgentReasoning { text: "thinking".to_string() }));
    match (&a[0], &b[0]) {
        (ConversationEvent::ItemCompleted { item: x }, ConversationEvent::ItemCompleted { item: y }) => {
            assert_eq!(x.id, "item_0");
            assert_eq!(x.details, ConversationItemDetails::AssistantMessage { text: "hello".to_string() });
            assert_eq!(y.id, "item_1");
            assert_eq!(y.details, ConversationItemDetails::Reasoning { text: "thinking".to_string() });
        }
        other => panic!("unexpected {other:?}"),
    }
}

#[test]
fn command_begin_and_end_pair_by_call_id() {
    let mut p = ExperimentalEventProcessorWithJsonOutput::new(None);
    let begin = p.collect_conversation_events(&ev(EventMsg::ExecCommandBegin {
        call_id: "c1".to_string(),
        command: words(&["echo", "hello world"]),
    }));
    match &begin[0] {
        ConversationEvent::ItemStarted { item } => {
            assert_eq!(item.id, "item_0");
            assert_eq!(
                item.details,
                ConversationItemDetails::CommandExecution {
                    command: "echo 'hello world'".to_string(),
                    aggregated_output: String::new(),
                    exit_code: None,
                    status: CommandExecutionStatus::InProgress,
                }
            );
        }
        other => panic!("unexpected {other:?}"),
    }
    let end = p.collect_conversation_events(&ev(EventMsg::ExecCommandEnd {
        call_id: "c1".to_string(),
        exit_code: 2,
        aggregated_output: "oops".to_string(),
    }));
    match &end[0] {
        ConversationEvent::ItemCompleted { item } => {
            assert_eq!(item.id, "item_0");
            assert_eq!(
                item.details,
                ConversationItemDetails::CommandExecution {
                    command: "echo 'hello world'".to_string(),
                    aggregated_output: "oops".to_string(),
                    exit_code: Some(2),
                    status: CommandExecutionStatus::Failed,
                }
            );
        }
        other => panic!("unexpected {other:?}"),
    }
    // a second end for the same call has nothing to complete
    let again = p.collect_conversation_events(&ev(EventMsg::ExecCommandEnd {
        call_id: "c1".to_string(),
        exit_code: 0,
        aggregated_output: String::new(),
    }));
    assert!(again.is_empty());
}

#[test]
fn command_with_nul_falls_back_to_plain_join() {
    let mut p = ExperimentalEventProcessorWithJsonOutput::new(None);
    let out = p.collect_conversation_events(&ev(EventMsg::ExecCommandBegin {
        call_id: "c".to_string(),
        command: words(&["printf", "a\0b"]),
    }));
    match &out[0] {
        ConversationEvent::ItemStarted { item } => match &item.details {
            ConversationItemDetails::CommandExecution { command, .. } => assert_eq!(command, "printf a\0b"),
            other => panic!("unexpected {other:?}"),
        },
        other => panic!("unexpected {other:?}"),
    }
}

#[test]
fn patch_apply_completes_with_change_kinds() {
    let mut p = ExperimentalEventProcessorWithJsonOutput::new(None);
    let changes = vec![
        ("a.txt".to_string(), FileChange::Add { content: "x".to_string() }),
        ("b.txt".to_string(), FileChange::Delete { content: "y".to_string() }),
        ("c.txt".to_string(), FileChange::Update { unified_diff: "@@".to_string(), move_path: None }),
    ];
    let begin = p.collect_conversation_events(&ev(EventMsg::PatchApplyBegin { call_id: "p".to_string(), changes }));
    assert!(begin.is_empty());
    let end = p.collect_conversation_events(&ev(EventMsg::PatchApplyEnd { call_id: "p".to_string(), success: false }));
    match &end[0] {
        ConversationEvent::ItemCompleted { item } => match &item.details {
            ConversationItemDetails::FileChange { changes, status } => {
                assert_eq!(*status, PatchApplyStatus::Failed);
                let kinds: Vec<(String, PatchChangeKind)> = changes.iter().map(|c| (c.path.clone(), c.kind)).collect();
                assert_eq!(
                    kinds,
                    vec![
                        ("a.txt".to_string(), PatchChangeKind::Add),
                        ("b.txt".to_string(), PatchChangeKind::Delete),
                        ("c.txt".to_string(), PatchChangeKind::Update)
                    ]
                );
            }
            other => panic!("unexpected {other:?}"),
        },
        other => panic!("unexpected {other:?}"),
    }
    assert!(p
        .collect_conversation_events(&ev(EventMsg::PatchApplyEnd { call_id: "p".to_string(), success: true }))
        .is_empty());
}

#[test]
fn plan_updates_start_then_update_then_complete_with_turn() {
    let mut p = ExperimentalEventProcessorWithJsonOutput::new(None);
    let plan = vec![
        PlanItemArg { step: "one".to_string(), status: StepStatus::Completed },
        PlanItemArg { step: "two".to_string(), status: StepStatus::InProgress },
    ];
    let first = p.collect_conversation_events(&ev(EventMsg::PlanUpdate { plan: plan.clone() }));
    assert!(matches!(&first[0], ConversationEvent::ItemStarted { item } if item.id == "item_0"));
    let second = p.collect_conversation_events(&ev(EventMsg::PlanUpdate { plan: vec![] }));
    assert!(matches!(&second[0], ConversationEvent::ItemUpdated { item } if item.id == "item_0"));
    p.collect_conversation_events(&ev(EventMsg::TokenCount {
        total_token_usage: Some(TokenUsage {
            input_tokens: 10,
            cached_input_tokens: 4,
            output_tokens: 7,
            reasoning_output_tokens: 1,
            total_tokens: 17,
        }),
    }));
    let done = p.collect_conversation_events(&ev(EventMsg::TaskComplete { last_agent_message: None }));
    assert_eq!(done.len(), 2);
    assert!(matches!(&done[0], ConversationEvent::ItemCompleted { item } if item.id == "item_0"));
    assert_eq!(
        done[1],
        ConversationEvent::TurnCompleted { usage: Usage { input_tokens: 10, cached_input_tokens: 4, output_tokens: 7 } }
    );
}

#[test]
fn turn_without_usage_reports_zeros() {
    let mut p = ExperimentalEventProcessorWithJsonOutput::new(None);
    assert_eq!(p.collect_conversation_events(&ev(EventMsg::TaskStarted)), vec![ConversationEvent::TurnStarted]);
    let done = p.collect_conversation_events(&ev(EventMsg::TaskComplete { last_agent_message: None }));
    assert_eq!(
        done,
        vec![ConversationEvent::TurnCompleted { usage: Usage { input_tokens: 0, cached_input_tokens: 0, output_tokens: 0 } }]
    );
}

#[test]
fn errors_become_error_events() {
    let mut p = ExperimentalEventProcessorWithJsonOutput::new(None);
    assert_eq!(
        p.collect_conversation_events(&ev(EventMsg::StreamError { message: "disconnected".to_string() })),
        vec![ConversationEvent::Error { message: "disconnected".to_string() }]
    );
    assert!(p.collect_conversation_events(&ev(EventMsg::ExitedReviewMode)).is_empty());
}

#[test]
fn todo_items_follow_plan_status() {
    let items = todo_items_from_plan(&vec![
        PlanItemArg { step: "a".to_string(), status: StepStatus::Pending },
        PlanItemArg { step: "b".to_string(), status: StepStatus::Completed },
    ]);
    assert_eq!(items.len(), 2);
    assert!(!items[0].completed);
    assert!(items[1].completed);
    assert_eq!(items[1].text, "b");
}

#[test]
fn runner_stops_after_task_complete() {
    assert_eq!(status_after(&EventMsg::TaskComplete { last_agent_message: None }), CodexStatus::InitiateShutdown);
    assert_eq!(status_after(&EventMsg::TaskStarted), CodexStatus::Running);
}

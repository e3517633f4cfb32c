//! Events that the core emits, and the values they carry.

use crate::mcp::McpCallOutcome;
use vstd::prelude::*;

verus! {

/// Kind of the task that runs a submission.
#[derive(Debug, Clone, Copy, PartialEq, Eq, Structural)]
pub enum TaskKind {
    Regular,
    Compact,
    Review,
}

/// Why a running task was stopped.
#[derive(Debug, Clone, Copy, PartialEq, Eq, Structural)]
pub enum TurnAbortReason {
    Replaced,
    UserInterrupt,
    Shutdown,
    StreamFatal,
}

/// The user's answer to an approval request.
#[derive(Debug, Clone, Copy, PartialEq, Eq, Structural)]
pub enum ReviewDecision {
    /// Approved this time.
    Approved,
    /// Approved for the rest of the session.
    ApprovedForSession,
    Denied,
    Abort,
}

/// The three kinds of tool call whose start and end are announced.
#[derive(Debug, Clone, Copy, PartialEq, Eq, Structural)]
pub enum CallKind {
    Exec,
    Patch,
    Mcp,
}

/// What a patch does to one file.
#[derive(Debug, Clone, PartialEq, Eq)]
pub enum FileChange {
    Add { content: String },
    Delete { content: String },
    Update { unified_diff: String, move_path: Option<String> },
}

#[derive(Debug, Clone, Copy, PartialEq, Eq, Structural)]
pub enum StepStatus {
    Pending,
    InProgress,
    Completed,
}

/// One step of a plan update.
#[derive(Debug, Clone, PartialEq, Eq)]
pub struct PlanItemArg {
    pub step: String,
    pub status: StepStatus,
}

/// Token counts of a conversation so far.
#[derive(Debug, Clone, Copy, PartialEq, Eq, Structural)]
pub struct TokenUsage {
    pub input_tokens: u64,
    pub cached_input_tokens: u64,
    pub output_tokens: u64,
    pub reasoning_output_tokens: u64,
    pub total_tokens: u64,
}

#[derive(Debug, Clone)]
pub enum EventMsg {
    SessionConfigured { session_id: String },
    TaskStarted,
    TaskComplete { last_agent_message: Option<String> },
    TurnAborted { reason: TurnAbortReason },
    AgentMessage { message: String },
    AgentReasoning { text: String },
    ExecCommandBegin { call_id: String, command: Vec<String> },
    ExecCommandEnd { call_id: String, exit_code: i32, aggregated_output: String },
    PatchApplyBegin { call_id: String, changes: Vec<(String, FileChange)> },
    PatchApplyEnd { call_id: String, success: bool },
    McpToolCallBegin { call_id: String, server: String, tool: String },
    McpToolCallEnd { call_id: String, result: McpCallOutcome },
    TokenCount { total_token_usage: Option<TokenUsage> },
    PlanUpdate { plan: Vec<PlanItemArg> },
    Error { message: String },
    StreamError { message: String },
    ExecApprovalRequest { call_id: String, command: Vec<String> },
    PatchApprovalRequest { call_id: String },
    ExitedReviewMode,
}

/// An event, tagged with the submission it derives from.
#[derive(Debug, Clone)]
pub struct Event {
    pub id: String,
    pub msg: EventMsg,
}

/// The call that an event starts, if it starts one.
pub open spec fn begin_key(m: EventMsg) -> Option<(CallKind, Seq<char>)> {
    match m {
        EventMsg::ExecCommandBegin { call_id, .. } => Some((CallKind::Exec, call_id@)),
        EventMsg::PatchApplyBegin { call_id, .. } => Some((CallKind::Patch, call_id@)),
        EventMsg::McpToolCallBegin { call_id, .. } => Some((CallKind::Mcp, call_id@)),
        _ => None,
    }
}

/// The call that an event ends, if it ends one.
pub open spec fn end_key(m: EventMsg) -> Option<(CallKind, Seq<char>)> {
    match m {
        EventMsg::ExecCommandEnd { call_id, .. } => Some((CallKind::Exec, call_id@)),
        EventMsg::PatchApplyEnd { call_id, .. } => Some((CallKind::Patch, call_id@)),
        EventMsg::McpToolCallEnd { call_id, .. } => Some((CallKind::Mcp, call_id@)),
        _ => None,
    }
}

} // verus!

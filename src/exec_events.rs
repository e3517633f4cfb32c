//! The headless runner's view of the event stream: items that start, are
//! updated and complete, framed by turn start and completion.

use crate::protocol::Event;
use crate::protocol::EventMsg;
use crate::protocol::FileChange;
use crate::protocol::PlanItemArg;
use crate::protocol::StepStatus;
use crate::protocol::TokenUsage;
use crate::text::decimal;
use crate::text::join_spaced;
use crate::text::join_with_spaces;
use crate::text::push_decimal;
use crate::text::str_eq;
use crate::text::words;
use vstd::prelude::*;

verus! {

#[derive(Debug, Clone, Copy, PartialEq, Eq, Structural)]
pub enum CommandExecutionStatus {
    InProgress,
    Completed,
    Failed,
}

#[derive(Debug, Clone, Copy, PartialEq, Eq, Structural)]
pub enum PatchApplyStatus {
    Completed,
    Failed,
}

#[derive(Debug, Clone, Copy, PartialEq, Eq, Structural)]
pub enum PatchChangeKind {
    Add,
    Delete,
    Update,
}

#[derive(Debug, Clone, PartialEq, Eq)]
pub struct FileUpdateChange {
    pub path: String,
    pub kind: PatchChangeKind,
}

#[derive(Debug, Clone, PartialEq, Eq)]
pub struct TodoItem {
    pub text: String,
    pub completed: bool,
}

#[derive(Debug, Clone, Copy, PartialEq, Eq, Structural)]
pub struct Usage {
    pub input_tokens: u64,
    pub cached_input_tokens: u64,
    pub output_tokens: u64,
}

#[derive(Debug, Clone, PartialEq, Eq)]
pub enum ConversationItemDetails {
    AssistantMessage { text: String },
    Reasoning { text: String },
    CommandExecution {
        command: String,
        aggregated_output: String,
        exit_code: Option<i32>,
        status: CommandExecutionStatus,
    },
    FileChange { changes: Vec<FileUpdateChange>, status: PatchApplyStatus },
    TodoList { items: Vec<TodoItem> },
}

#[derive(Debug, Clone, PartialEq, Eq)]
pub struct ConversationItem {
    pub id: String,
    pub details: ConversationItemDetails,
}

#[derive(Debug, Clone, PartialEq, Eq)]
pub enum ConversationEvent {
    SessionCreated { session_id: String },
    TurnStarted,
    TurnCompleted { usage: Usage },
    ItemStarted { item: ConversationItem },
    ItemUpdated { item: ConversationItem },
    ItemCompleted { item: ConversationItem },
    Error { message: String },
}

/// Whether the runner keeps going after an event.
#[derive(Debug, Clone, Copy, PartialEq, Eq, Structural)]
pub enum CodexStatus {
    Running,
    InitiateShutdown,
}

/// A command that started and has not ended.
#[derive(Debug, Clone)]
pub struct RunningCommand {
    pub call_id: String,
    pub command: String,
    pub item_id: String,
}

/// A patch whose application started and has not ended.
#[derive(Debug, Clone)]
pub struct RunningPatchApply {
    pub call_id: String,
    pub changes: Vec<(String, FileChange)>,
}

/// The to-do list of the current turn.
#[derive(Debug, Clone)]
pub struct RunningTodoList {
    pub item_id: String,
    pub items: Vec<TodoItem>,
}

/// The text of an item id.
pub open spec fn item_id_text(n: u64) -> Seq<char> {
    "item_"@ + decimal(n as nat)
}

/// How a command is shown: its words quoted for a POSIX shell and joined by
/// spaces; `None` when a word holds a nul character.
pub uninterp spec fn shell_join(ws: Seq<Seq<char>>) -> Seq<char>;

pub open spec fn has_nul(ws: Seq<Seq<char>>) -> bool {
    exists|i: int, j: int| 0 <= i < ws.len() && 0 <= j < ws[i].len() && ws[i][j] == '\0'
}

/// Relies on `shlex::try_join`: quotes each word as needed and joins them
/// with single spaces; its one error is a word that holds a nul byte.
#[verifier::external_body]
fn try_shell_join(v: &Vec<String>) -> (r: Option<String>)
    ensures
        r is None <==> has_nul(words(v@)),
        r is Some ==> r.unwrap()@ == shell_join(words(v@)),
{
    shlex::try_join(v.iter().map(String::as_str)).ok()
}

/// The text shown for a command: the quoted form, or the words joined by
/// spaces when quoting fails.
pub open spec fn command_text(ws: Seq<Seq<char>>) -> Seq<char> {
    if has_nul(ws) {
        join_spaced(ws)
    } else {
        shell_join(ws)
    }
}

pub open spec fn change_kind(c: FileChange) -> PatchChangeKind {
    match c {
        FileChange::Add { .. } => PatchChangeKind::Add,
        FileChange::Delete { .. } => PatchChangeKind::Delete,
        FileChange::Update { .. } => PatchChangeKind::Update,
    }
}

pub open spec fn todo_matches(t: TodoItem, p: PlanItemArg) -> bool {
    t.text@ == p.step@ && t.completed == (p.status == StepStatus::Completed)
}

pub open spec fn todos_match(ts: Seq<TodoItem>, ps: Seq<PlanItemArg>) -> bool {
    ts.len() == ps.len() && forall|i: int| 0 <= i < ts.len() ==> todo_matches(#[trigger] ts[i], ps[i])
}

pub open spec fn todo_views(ts: Seq<TodoItem>) -> Seq<(Seq<char>, bool)> {
    ts.map_values(|t: TodoItem| (t.text@, t.completed))
}

pub open spec fn changes_match(us: Seq<FileUpdateChange>, cs: Seq<(String, FileChange)>) -> bool {
    us.len() == cs.len() && forall|i: int| 0 <= i < us.len() ==> #[trigger] us[i].path@ == cs[i].0@
        && us[i].kind == change_kind(cs[i].1)
}

pub open spec fn item_of(e: ConversationEvent) -> Option<ConversationItem> {
    match e {
        ConversationEvent::ItemStarted { item } => Some(item),
        ConversationEvent::ItemUpdated { item } => Some(item),
        ConversationEvent::ItemCompleted { item } => Some(item),
        _ => None,
    }
}

pub open spec fn is_text_item(e: ConversationEvent, id: Seq<char>, text: Seq<char>, reasoning: bool) -> bool {
    match e {
        ConversationEvent::ItemCompleted { item } => item.id@ == id && match item.details {
            ConversationItemDetails::AssistantMessage { text: t } => !reasoning && t@ == text,
            ConversationItemDetails::Reasoning { text: t } => reasoning && t@ == text,
            _ => false,
        },
        _ => false,
    }
}

pub open spec fn is_command_item(
    e: ConversationEvent,
    started: bool,
    id: Seq<char>,
    command: Seq<char>,
    output: Seq<char>,
    exit_code: Option<i32>,
    status: CommandExecutionStatus,
) -> bool {
    let item = item_of(e);
    &&& if started { e is ItemStarted } else { e is ItemCompleted }
    &&& item.unwrap().id@ == id
    &&& match item.unwrap().details {
        ConversationItemDetails::CommandExecution { command: c, aggregated_output: o, exit_code: x, status: s } =>
            c@ == command && o@ == output && x == exit_code && s == status,
        _ => false,
    }
}

pub open spec fn is_todo_item(e: ConversationEvent, id: Seq<char>, items: Seq<(Seq<char>, bool)>) -> bool {
    &&& item_of(e) is Some
    &&& item_of(e).unwrap().id@ == id
    &&& match item_of(e).unwrap().details {
        ConversationItemDetails::TodoList { items: ts } => todo_views(ts@) == items,
        _ => false,
    }
}

pub open spec fn usage_of(u: Option<TokenUsage>) -> Usage {
    match u {
        Some(t) => Usage {
            input_tokens: t.input_tokens,
            cached_input_tokens: t.cached_input_tokens,
            output_tokens: t.output_tokens,
        },
        None => Usage { input_tokens: 0, cached_input_tokens: 0, output_tokens: 0 },
    }
}

pub open spec fn next_counter(n: u64) -> u64 {
    if n < u64::MAX {
        (n + 1) as u64
    } else {
        0
    }
}

/// The running commands by call id, as text and item id; a later entry wins.
pub open spec fn commands_map(v: Seq<RunningCommand>) -> Map<Seq<char>, (Seq<char>, Seq<char>)>
    decreases v.len(),
{
    if v.len() == 0 {
        Map::empty()
    } else {
        commands_map(v.drop_last()).insert(v.last().call_id@, (v.last().command@, v.last().item_id@))
    }
}

/// The running patches by call id; a later entry wins.
pub open spec fn patches_map(v: Seq<RunningPatchApply>) -> Map<Seq<char>, Seq<(String, FileChange)>>
    decreases v.len(),
{
    if v.len() == 0 {
        Map::empty()
    } else {
        patches_map(v.drop_last()).insert(v.last().call_id@, v.last().changes@)
    }
}

pub struct ExperimentalEventProcessorWithJsonOutput {
    last_message_path: Option<String>,
    next_event_id: u64,
    running_commands: Vec<RunningCommand>,
    running_patch_applies: Vec<RunningPatchApply>,
    running_todo_list: Option<RunningTodoList>,
    last_total_token_usage: Option<TokenUsage>,
}

impl ExperimentalEventProcessorWithJsonOutput {
    /// The number that the next item id carries.
    pub closed spec fn next_id(&self) -> u64 {
        self.next_event_id
    }

    /// The command started under `call_id` and not yet ended: its text and item id.
    pub closed spec fn running_command(&self, call_id: Seq<char>) -> Option<(Seq<char>, Seq<char>)> {
        let m = commands_map(self.running_commands@);
        if m.contains_key(call_id) {
            Some(m[call_id])
        } else {
            None
        }
    }

    /// The changes of the patch started under `call_id` and not yet ended.
    pub closed spec fn running_patch(&self, call_id: Seq<char>) -> Option<Seq<(String, FileChange)>> {
        let m = patches_map(self.running_patch_applies@);
        if m.contains_key(call_id) {
            Some(m[call_id])
        } else {
            None
        }
    }

    /// The to-do list of the turn: its item id and items.
    pub closed spec fn todo_list(&self) -> Option<(Seq<char>, Seq<(Seq<char>, bool)>)> {
        match self.running_todo_list {
            Some(t) => Some((t.item_id@, todo_views(t.items@))),
            None => None,
        }
    }

    pub closed spec fn token_usage(&self) -> Option<TokenUsage> {
        self.last_total_token_usage
    }

    pub closed spec fn output_path(&self) -> Option<String> {
        self.last_message_path
    }

    pub fn new(last_message_path: Option<String>) -> (r: Self)
        ensures
            r.next_id() == 0,
            forall|c: Seq<char>| r.running_command(c) is None && r.running_patch(c) is None,
            r.todo_list() is None,
            r.token_usage() is None,
            r.output_path() == last_message_path,
    {
        ExperimentalEventProcessorWithJsonOutput {
            last_message_path,
            next_event_id: 0,
            running_commands: Vec::new(),
            running_patch_applies: Vec::new(),
            running_todo_list: None,
            last_total_token_usage: None,
        }
    }

    /// Hands out the next item id, `item_<n>`.
    fn get_next_item_id(&mut self) -> (r: String)
        ensures
            r@ == item_id_text(old(self).next_event_id),
            final(self).next_event_id == next_counter(old(self).next_event_id),
            final(self).running_commands == old(self).running_commands,
            final(self).running_patch_applies == old(self).running_patch_applies,
            final(self).running_todo_list == old(self).running_todo_list,
            final(self).last_total_token_usage == old(self).last_total_token_usage,
            final(self).last_message_path == old(self).last_message_path,
    {
        let n = self.next_event_id;
        let mut s = String::from_str("item_");
        push_decimal(&mut s, n);
        self.next_event_id = if n < u64::MAX {
            n + 1
        } else {
            0
        };
        s
    }
}


pub fn command_text_exec(v: &Vec<String>) -> (r: String)
    ensures
        r@ == command_text(words(v@)),
{
    match try_shell_join(v) {
        Some(s) => s,
        None => join_with_spaces(v),
    }
}

fn map_change_kind(c: &FileChange) -> (r: PatchChangeKind)
    ensures
        r == change_kind(*c),
{
    match c {
        FileChange::Add { .. } => PatchChangeKind::Add,
        FileChange::Delete { .. } => PatchChangeKind::Delete,
        FileChange::Update { .. } => PatchChangeKind::Update,
    }
}

/// The to-do items of a plan: each step's text, done when the step is completed.
pub fn todo_items_from_plan(plan: &Vec<PlanItemArg>) -> (r: Vec<TodoItem>)
    ensures
        todos_match(r@, plan@),
{
    let mut out: Vec<TodoItem> = Vec::new();
    let mut i: usize = 0;
    while i < plan.len()
        invariant
            i <= plan@.len(),
            out@.len() == i,
            forall|j: int| 0 <= j < i ==> todo_matches(#[trigger] out@[j], plan@[j]),
        decreases plan@.len() - i,
    {
        let completed = match plan[i].status {
            StepStatus::Completed => true,
            _ => false,
        };
        out.push(TodoItem { text: plan[i].step.clone(), completed });
        i += 1;
    }
    out
}

fn clone_todos(v: &Vec<TodoItem>) -> (r: Vec<TodoItem>)
    ensures
        todo_views(r@) == todo_views(v@),
{
    let mut out: Vec<TodoItem> = Vec::new();
    let mut i: usize = 0;
    while i < v.len()
        invariant
            i <= v@.len(),
            out@.len() == i,
            forall|j: int| 0 <= j < i ==> (#[trigger] out@[j]).text@ == v@[j].text@ && out@[j].completed == v@[j].completed,
        decreases v@.len() - i,
    {
        out.push(TodoItem { text: v[i].text.clone(), completed: v[i].completed });
        i += 1;
    }
    assert(todo_views(out@) =~= todo_views(v@));
    out
}

/// Whether the runner stops after an event: it does once the task completes.
pub fn status_after(msg: &EventMsg) -> (r: CodexStatus)
    ensures
        r == (if msg is TaskComplete { CodexStatus::InitiateShutdown } else { CodexStatus::Running }),
{
    match msg {
        EventMsg::TaskComplete { .. } => CodexStatus::InitiateShutdown,
        _ => CodexStatus::Running,
    }
}

impl ExperimentalEventProcessorWithJsonOutput {
    /// Removes the command started under `call_id` and returns it, if any.
    #[verifier::spinoff_prover]
    fn take_command(&mut self, call_id: &str) -> (r: Option<RunningCommand>)
        ensures
            r is None <==> !commands_map(old(self).running_commands@).contains_key(call_id@),
            r is Some ==> (r.unwrap().command@, r.unwrap().item_id@) == commands_map(old(self).running_commands@)[call_id@],
            commands_map(final(self).running_commands@) == commands_map(old(self).running_commands@).remove(call_id@),
            final(self).next_event_id == old(self).next_event_id,
            final(self).running_patch_applies == old(self).running_patch_applies,
            final(self).running_todo_list == old(self).running_todo_list,
            final(self).last_total_token_usage == old(self).last_total_token_usage,
            final(self).last_message_path == old(self).last_message_path,
    {
        let mut v: Vec<RunningCommand> = Vec::new();
        std::mem::swap(&mut v, &mut self.running_commands);
        let mut out: Vec<RunningCommand> = Vec::new();
        let mut found: Option<RunningCommand> = None;
        let mut i: usize = 0;
        while i < v.len()
            invariant
                i <= v@.len(),
                v@ == old(self).running_commands@,
                commands_map(out@) == commands_map(v@.subrange(0, i as int)).remove(call_id@),
                found is None <==> !commands_map(v@.subrange(0, i as int)).contains_key(call_id@),
                found is Some ==> (found.unwrap().command@, found.unwrap().item_id@) == commands_map(v@.subrange(0, i as int))[call_id@],
            decreases v@.len() - i,
        {
            let ghost pre = v@.subrange(0, i as int);
            let ghost out0 = out@;
            assert(v@.subrange(0, i as int + 1).drop_last() == pre);
            let e = RunningCommand {
                call_id: v[i].call_id.clone(),
                command: v[i].command.clone(),
                item_id: v[i].item_id.clone(),
            };
            if str_eq(e.call_id.as_str(), call_id) {
                found = Some(e);
                proof {
                    assert(commands_map(out@) =~= commands_map(v@.subrange(0, i as int + 1)).remove(call_id@));
                }
            } else {
                out.push(e);
                proof {
                    assert(out@.drop_last() == out0);
                    assert(commands_map(out@) =~= commands_map(v@.subrange(0, i as int + 1)).remove(call_id@));
                }
            }
            i += 1;
        }
        assert(v@.subrange(0, v@.len() as int) == v@);
        self.running_commands = out;
        found
    }

    pub fn handle_session_configured(&self, session_id: &String) -> (r: Vec<ConversationEvent>)
        ensures
            r@.len() == 1,
            match r@[0] {
                ConversationEvent::SessionCreated { session_id: s } => s@ == session_id@,
                _ => false,
            },
    {
        vec![ConversationEvent::SessionCreated { session_id: session_id.clone() }]
    }

    /// A completed assistant-message item (or reasoning item) with the next id.
    fn handle_text_item(&mut self, text: &String, reasoning: bool) -> (r: Vec<ConversationEvent>)
        ensures
            r@.len() == 1,
            is_text_item(r@[0], item_id_text(old(self).next_event_id), text@, reasoning),
            final(self).next_event_id == next_counter(old(self).next_event_id),
            final(self).running_commands == old(self).running_commands,
            final(self).running_patch_applies == old(self).running_patch_applies,
            final(self).running_todo_list == old(self).running_todo_list,
            final(self).last_total_token_usage == old(self).last_total_token_usage,
            final(self).last_message_path == old(self).last_message_path,
    {
        let id = self.get_next_item_id();
        let details = if reasoning {
            ConversationItemDetails::Reasoning { text: text.clone() }
        } else {
            ConversationItemDetails::AssistantMessage { text: text.clone() }
        };
        vec![ConversationEvent::ItemCompleted { item: ConversationItem { id, details } }]
    }

    /// Starts a command item and remembers it under `call_id`.
    pub fn handle_exec_command_begin(&mut self, call_id: &String, command: &Vec<String>) -> (r: Vec<ConversationEvent>)
        ensures
            r@.len() == 1,
            is_command_item(r@[0], true, item_id_text(old(self).next_id()), command_text(words(command@)),
                Seq::empty(), None, CommandExecutionStatus::InProgress),
            final(self).next_id() == next_counter(old(self).next_id()),
            final(self).running_command(call_id@) == Some((command_text(words(command@)), item_id_text(old(self).next_id()))),
            forall|c: Seq<char>| c != call_id@ ==> final(self).running_command(c) == old(self).running_command(c),
            forall|c: Seq<char>| final(self).running_patch(c) == old(self).running_patch(c),
            final(self).todo_list() == old(self).todo_list(),
            final(self).token_usage() == old(self).token_usage(),
            final(self).output_path() == old(self).output_path(),
    {
        let item_id = self.get_next_item_id();
        let command_string = command_text_exec(command);
        let _ = self.take_command(call_id.as_str());
        let ghost before = self.running_commands@;
        self.running_commands.push(RunningCommand {
            call_id: call_id.clone(),
            command: command_string.clone(),
            item_id: item_id.clone(),
        });
        proof {
            assert(self.running_commands@.drop_last() == before);
        }
        let item = ConversationItem {
            id: item_id,
            details: ConversationItemDetails::CommandExecution {
                command: command_string,
                aggregated_output: String::new(),
                exit_code: None,
                status: CommandExecutionStatus::InProgress,
            },
        };
        vec![ConversationEvent::ItemStarted { item }]
    }
}

impl ExperimentalEventProcessorWithJsonOutput {
    /// Removes the patch started under `call_id` and returns it, if any.
    #[verifier::spinoff_prover]
    fn take_patch(&mut self, call_id: &str) -> (r: Option<RunningPatchApply>)
        ensures
            r is None <==> !patches_map(old(self).running_patch_applies@).contains_key(call_id@),
            r is Some ==> r.unwrap().changes@ == patches_map(old(self).running_patch_applies@)[call_id@],
            patches_map(final(self).running_patch_applies@) == patches_map(old(self).running_patch_applies@).remove(call_id@),
            final(self).next_event_id == old(self).next_event_id,
            final(self).running_commands == old(self).running_commands,
            final(self).running_todo_list == old(self).running_todo_list,
            final(self).last_total_token_usage == old(self).last_total_token_usage,
            final(self).last_message_path == old(self).last_message_path,
    {
        let mut v: Vec<RunningPatchApply> = Vec::new();
        std::mem::swap(&mut v, &mut self.running_patch_applies);
        let mut out: Vec<RunningPatchApply> = Vec::new();
        let mut found: Option<RunningPatchApply> = None;
        let ghost v0 = v@;
        let total = v.len();
        let mut i: usize = 0;
        while v.len() > 0
            invariant
                total == v0.len(),
                i + v@.len() == v0.len(),
                v@ == v0.subrange(i as int, v0.len() as int),
                patches_map(out@) == patches_map(v0.subrange(0, i as int)).remove(call_id@),
                found is None <==> !patches_map(v0.subrange(0, i as int)).contains_key(call_id@),
                found is Some ==> found.unwrap().changes@ == patches_map(v0.subrange(0, i as int))[call_id@],
            decreases v@.len(),
        {
            let e = v.remove(0);
            let ghost out0 = out@;
            proof {
                assert(e == v0[i as int]);
                assert(v0.subrange(0, i as int + 1).drop_last() == v0.subrange(0, i as int));
                assert(v0.subrange(0, i as int + 1).last() == e);
                assert(v@ == v0.subrange(i as int + 1, v0.len() as int));
            }
            if str_eq(e.call_id.as_str(), call_id) {
                found = Some(e);
                proof {
                    assert(patches_map(out@) =~= patches_map(v0.subrange(0, i as int + 1)).remove(call_id@));
                }
            } else {
                out.push(e);
                proof {
                    assert(out@.drop_last() == out0);
                    assert(patches_map(out@) =~= patches_map(v0.subrange(0, i as int + 1)).remove(call_id@));
                }
            }
            i += 1;
        }
        assert(v0.subrange(0, v0.len() as int) == v0);
        self.running_patch_applies = out;
        found
    }

    /// Remembers the changes of a patch under `call_id`; emits nothing.
    pub fn handle_patch_apply_begin(&mut self, call_id: &String, changes: Vec<(String, FileChange)>) -> (r: Vec<ConversationEvent>)
        ensures
            r@.len() == 0,
            final(self).next_id() == old(self).next_id(),
            final(self).running_patch(call_id@) == Some(changes@),
            forall|c: Seq<char>| c != call_id@ ==> final(self).running_patch(c) == old(self).running_patch(c),
            forall|c: Seq<char>| final(self).running_command(c) == old(self).running_command(c),
            final(self).todo_list() == old(self).todo_list(),
            final(self).token_usage() == old(self).token_usage(),
            final(self).output_path() == old(self).output_path(),
    {
        let _ = self.take_patch(call_id.as_str());
        let ghost before = self.running_patch_applies@;
        self.running_patch_applies.push(RunningPatchApply { call_id: call_id.clone(), changes });
        proof {
            assert(self.running_patch_applies@.drop_last() == before);
        }
        Vec::new()
    }

    /// Completes the file-change item of the patch started under `call_id`;
    /// nothing when no such patch runs.
    pub fn handle_patch_apply_end(&mut self, call_id: &String, success: bool) -> (r: Vec<ConversationEvent>)
        ensures
            old(self).running_patch(call_id@) is None ==> r@.len() == 0 && final(self).next_id() == old(self).next_id(),
            old(self).running_patch(call_id@) is Some ==> {
                &&& r@.len() == 1
                &&& final(self).next_id() == next_counter(old(self).next_id())
                &&& match r@[0] {
                    ConversationEvent::ItemCompleted { item } => item.id@ == item_id_text(old(self).next_id())
                        && match item.details {
                            ConversationItemDetails::FileChange { changes, status } =>
                                changes_match(changes@, old(self).running_patch(call_id@).unwrap())
                                && status == (if success { PatchApplyStatus::Completed } else { PatchApplyStatus::Failed }),
                            _ => false,
                        },
                    _ => false,
                }
            },
            final(self).running_patch(call_id@) is None,
            forall|c: Seq<char>| c != call_id@ ==> final(self).running_patch(c) == old(self).running_patch(c),
            forall|c: Seq<char>| final(self).running_command(c) == old(self).running_command(c),
            final(self).todo_list() == old(self).todo_list(),
            final(self).token_usage() == old(self).token_usage(),
            final(self).output_path() == old(self).output_path(),
    {
        let running = match self.take_patch(call_id.as_str()) {
            Some(p) => p,
            None => {
                return Vec::new();
            },
        };
        let status = if success {
            PatchApplyStatus::Completed
        } else {
            PatchApplyStatus::Failed
        };
        let id = self.get_next_item_id();
        let mut changes: Vec<FileUpdateChange> = Vec::new();
        let mut i: usize = 0;
        while i < running.changes.len()
            invariant
                i <= running.changes@.len(),
                changes@.len() == i,
                forall|j: int| 0 <= j < i ==> (#[trigger] changes@[j]).path@ == running.changes@[j].0@
                    && changes@[j].kind == change_kind(running.changes@[j].1),
            decreases running.changes@.len() - i,
        {
            let (path, change) = (&running.changes[i].0, &running.changes[i].1);
            changes.push(FileUpdateChange { path: path.clone(), kind: map_change_kind(change) });
            i += 1;
        }
        let item = ConversationItem { id, details: ConversationItemDetails::FileChange { changes, status } };
        vec![ConversationEvent::ItemCompleted { item }]
    }

    /// Completes the command item started under `call_id`, with the output
    /// and exit code; completed on exit code 0, failed otherwise. Nothing
    /// when no such command runs.
    pub fn handle_exec_command_end(&mut self, call_id: &String, exit_code: i32, aggregated_output: &String) -> (r: Vec<ConversationEvent>)
        ensures
            final(self).next_id() == old(self).next_id(),
            old(self).running_command(call_id@) is None ==> r@.len() == 0,
            old(self).running_command(call_id@) is Some ==> r@.len() == 1 && is_command_item(
                r@[0],
                false,
                old(self).running_command(call_id@).unwrap().1,
                old(self).running_command(call_id@).unwrap().0,
                aggregated_output@,
                Some(exit_code),
                if exit_code == 0 { CommandExecutionStatus::Completed } else { CommandExecutionStatus::Failed },
            ),
            final(self).running_command(call_id@) is None,
            forall|c: Seq<char>| c != call_id@ ==> final(self).running_command(c) == old(self).running_command(c),
            forall|c: Seq<char>| final(self).running_patch(c) == old(self).running_patch(c),
            final(self).todo_list() == old(self).todo_list(),
            final(self).token_usage() == old(self).token_usage(),
            final(self).output_path() == old(self).output_path(),
    {
        let running = match self.take_command(call_id.as_str()) {
            Some(c) => c,
            None => {
                return Vec::new();
            },
        };
        let status = if exit_code == 0 {
            CommandExecutionStatus::Completed
        } else {
            CommandExecutionStatus::Failed
        };
        let item = ConversationItem {
            id: running.item_id,
            details: ConversationItemDetails::CommandExecution {
                command: running.command,
                aggregated_output: aggregated_output.clone(),
                exit_code: Some(exit_code),
                status,
            },
        };
        vec![ConversationEvent::ItemCompleted { item }]
    }

    /// The first plan update of a turn starts a to-do list item; later ones
    /// update the same item with the new steps.
    pub fn handle_plan_update(&mut self, plan: &Vec<PlanItemArg>) -> (r: Vec<ConversationEvent>)
        ensures
            r@.len() == 1,
            old(self).todo_list() is Some ==> r@[0] is ItemUpdated
                && final(self).next_id() == old(self).next_id()
                && is_todo_item(r@[0], old(self).todo_list().unwrap().0, final(self).todo_list().unwrap().1),
            old(self).todo_list() is None ==> r@[0] is ItemStarted
                && final(self).next_id() == next_counter(old(self).next_id())
                && is_todo_item(r@[0], item_id_text(old(self).next_id()), final(self).todo_list().unwrap().1),
            final(self).todo_list() is Some,
            old(self).todo_list() is Some ==> final(self).todo_list().unwrap().0 == old(self).todo_list().unwrap().0,
            old(self).todo_list() is None ==> final(self).todo_list().unwrap().0 == item_id_text(old(self).next_id()),
            final(self).todo_list().unwrap().1 == plan_todos(plan@),
            forall|c: Seq<char>| final(self).running_command(c) == old(self).running_command(c),
            forall|c: Seq<char>| final(self).running_patch(c) == old(self).running_patch(c),
            final(self).token_usage() == old(self).token_usage(),
            final(self).output_path() == old(self).output_path(),
    {
        let items = todo_items_from_plan(plan);
        proof {
            assert(todo_views(items@) =~= plan_todos(plan@)) by {
                assert forall|i: int| 0 <= i < items@.len() implies todo_views(items@)[i] == plan_todos(plan@)[i] by {
                    assert(todo_matches(items@[i], plan@[i]));
                }
            }
        }
        let copy = clone_todos(&items);
        match self.running_todo_list.take() {
            Some(running) => {
                let id = running.item_id;
                let item = ConversationItem { id: id.clone(), details: ConversationItemDetails::TodoList { items: copy } };
                self.running_todo_list = Some(RunningTodoList { item_id: id, items });
                vec![ConversationEvent::ItemUpdated { item }]
            },
            None => {
                let id = self.get_next_item_id();
                let item = ConversationItem { id: id.clone(), details: ConversationItemDetails::TodoList { items: copy } };
                self.running_todo_list = Some(RunningTodoList { item_id: id, items });
                vec![ConversationEvent::ItemStarted { item }]
            },
        }
    }

    pub fn handle_task_started(&self) -> (r: Vec<ConversationEvent>)
        ensures
            r@ == seq![ConversationEvent::TurnStarted],
    {
        vec![ConversationEvent::TurnStarted]
    }

    /// Ends the turn: a running to-do list completes, then the turn
    /// completes with the last token usage reported (zeros if none was).
    pub fn handle_task_complete(&mut self) -> (r: Vec<ConversationEvent>)
        ensures
            final(self).todo_list() is None,
            final(self).next_id() == old(self).next_id(),
            r@.len() == if old(self).todo_list() is Some { 2int } else { 1int },
            r@.last() == (ConversationEvent::TurnCompleted { usage: usage_of(old(self).token_usage()) }),
            old(self).todo_list() is Some ==> r@[0] is ItemCompleted
                && is_todo_item(r@[0], old(self).todo_list().unwrap().0, old(self).todo_list().unwrap().1),
            forall|c: Seq<char>| final(self).running_command(c) == old(self).running_command(c),
            forall|c: Seq<char>| final(self).running_patch(c) == old(self).running_patch(c),
            final(self).token_usage() == old(self).token_usage(),
            final(self).output_path() == old(self).output_path(),
    {
        let usage = match self.last_total_token_usage {
            Some(u) => Usage {
                input_tokens: u.input_tokens,
                cached_input_tokens: u.cached_input_tokens,
                output_tokens: u.output_tokens,
            },
            None => Usage { input_tokens: 0, cached_input_tokens: 0, output_tokens: 0 },
        };
        let mut items: Vec<ConversationEvent> = Vec::new();
        if let Some(running) = self.running_todo_list.take() {
            let item = ConversationItem {
                id: running.item_id,
                details: ConversationItemDetails::TodoList { items: running.items },
            };
            items.push(ConversationEvent::ItemCompleted { item });
        }
        items.push(ConversationEvent::TurnCompleted { usage });
        items
    }

    /// An agent message becomes a completed assistant-message item.
    pub fn handle_agent_message(&mut self, message: &String) -> (r: Vec<ConversationEvent>)
        ensures
            r@.len() == 1,
            is_text_item(r@[0], item_id_text(old(self).next_id()), message@, false),
            final(self).next_id() == next_counter(old(self).next_id()),
            forall|c: Seq<char>| final(self).running_command(c) == old(self).running_command(c),
            forall|c: Seq<char>| final(self).running_patch(c) == old(self).running_patch(c),
            final(self).todo_list() == old(self).todo_list(),
            final(self).token_usage() == old(self).token_usage(),
            final(self).output_path() == old(self).output_path(),
    {
        self.handle_text_item(message, false)
    }

    /// Agent reasoning becomes a completed reasoning item.
    pub fn handle_reasoning_event(&mut self, text: &String) -> (r: Vec<ConversationEvent>)
        ensures
            r@.len() == 1,
            is_text_item(r@[0], item_id_text(old(self).next_id()), text@, true),
            final(self).next_id() == next_counter(old(self).next_id()),
            forall|c: Seq<char>| final(self).running_command(c) == old(self).running_command(c),
            forall|c: Seq<char>| final(self).running_patch(c) == old(self).running_patch(c),
            final(self).todo_list() == old(self).todo_list(),
            final(self).token_usage() == old(self).token_usage(),
            final(self).output_path() == old(self).output_path(),
    {
        self.handle_text_item(text, true)
    }
}

fn clone_change(c: &FileChange) -> (r: FileChange)
    ensures
        r == *c,
{
    match c {
        FileChange::Add { content } => FileChange::Add { content: content.clone() },
        FileChange::Delete { content } => FileChange::Delete { content: content.clone() },
        FileChange::Update { unified_diff, move_path } => FileChange::Update {
            unified_diff: unified_diff.clone(),
            move_path: match move_path {
                Some(p) => Some(p.clone()),
                None => None,
            },
        },
    }
}

fn clone_changes(v: &Vec<(String, FileChange)>) -> (r: Vec<(String, FileChange)>)
    ensures
        r@ == v@,
{
    let mut out: Vec<(String, FileChange)> = Vec::new();
    let mut i: usize = 0;
    while i < v.len()
        invariant
            i <= v@.len(),
            out@ == v@.subrange(0, i as int),
        decreases v@.len() - i,
    {
        out.push((v[i].0.clone(), clone_change(&v[i].1)));
        proof {
            assert(out@ =~= v@.subrange(0, i as int + 1));
        }
        i += 1;
    }
    assert(v@.subrange(0, v@.len() as int) == v@);
    out
}

pub open spec fn is_file_change_item(
    e: ConversationEvent,
    id: Seq<char>,
    changes: Seq<(String, FileChange)>,
    status: PatchApplyStatus,
) -> bool {
    match e {
        ConversationEvent::ItemCompleted { item } => item.id@ == id && match item.details {
            ConversationItemDetails::FileChange { changes: c, status: st } => changes_match(c@, changes) && st == status,
            _ => false,
        },
        _ => false,
    }
}

/// The to-do items of a plan: each step's text, done when completed.
pub open spec fn plan_todos(plan: Seq<PlanItemArg>) -> Seq<(Seq<char>, bool)> {
    plan.map_values(|p: PlanItemArg| (p.step@, p.status == StepStatus::Completed))
}

pub open spec fn is_error_event(e: ConversationEvent, message: Seq<char>) -> bool {
    match e {
        ConversationEvent::Error { message: m } => m@ == message,
        _ => false,
    }
}

/// What the projection of one core event yields, given the state before it.
pub open spec fn projected(
    old: ExperimentalEventProcessorWithJsonOutput,
    new: ExperimentalEventProcessorWithJsonOutput,
    msg: EventMsg,
    r: Seq<ConversationEvent>,
) -> bool {
    match msg {
        EventMsg::SessionConfigured { session_id } => new.next_id() == old.next_id() && r.len() == 1 && match r[0] {
            ConversationEvent::SessionCreated { session_id: s } => s@ == session_id@,
            _ => false,
        },
        EventMsg::AgentMessage { message } => r.len() == 1 && new.next_id() == next_counter(old.next_id())
            && is_text_item(r[0], item_id_text(old.next_id()), message@, false),
        EventMsg::AgentReasoning { text } => r.len() == 1 && new.next_id() == next_counter(old.next_id())
            && is_text_item(r[0], item_id_text(old.next_id()), text@, true),
        EventMsg::ExecCommandBegin { call_id, command } => r.len() == 1 && new.next_id() == next_counter(old.next_id())
            && is_command_item(r[0], true, item_id_text(old.next_id()), command_text(words(command@)),
                Seq::empty(), None, CommandExecutionStatus::InProgress)
            && new.running_command(call_id@) == Some((command_text(words(command@)), item_id_text(old.next_id()))),
        EventMsg::ExecCommandEnd { call_id, exit_code, aggregated_output } => {
            &&& new.next_id() == old.next_id()
            &&& old.running_command(call_id@) is None ==> r.len() == 0
            &&& old.running_command(call_id@) is Some ==> r.len() == 1 && is_command_item(
                r[0],
                false,
                old.running_command(call_id@).unwrap().1,
                old.running_command(call_id@).unwrap().0,
                aggregated_output@,
                Some(exit_code),
                if exit_code == 0 { CommandExecutionStatus::Completed } else { CommandExecutionStatus::Failed },
            )
            &&& new.running_command(call_id@) is None
        },
        EventMsg::PatchApplyBegin { call_id, changes } => r.len() == 0 && new.next_id() == old.next_id()
            && new.running_patch(call_id@) == Some(changes@),
        EventMsg::PatchApplyEnd { call_id, success } => {
            &&& old.running_patch(call_id@) is None ==> r.len() == 0 && new.next_id() == old.next_id()
            &&& old.running_patch(call_id@) is Some ==> r.len() == 1 && new.next_id() == next_counter(old.next_id())
                && is_file_change_item(
                    r[0],
                    item_id_text(old.next_id()),
                    old.running_patch(call_id@).unwrap(),
                    if success { PatchApplyStatus::Completed } else { PatchApplyStatus::Failed },
                )
            &&& new.running_patch(call_id@) is None
        },
        EventMsg::TokenCount { total_token_usage } => r.len() == 0 && new.next_id() == old.next_id()
            && new.token_usage() == (if total_token_usage is Some { total_token_usage } else { old.token_usage() }),
        EventMsg::TaskStarted => r == seq![ConversationEvent::TurnStarted] && new.next_id() == old.next_id(),
        EventMsg::TaskComplete { .. } => {
            &&& new.next_id() == old.next_id()
            &&& r.len() == (if old.todo_list() is Some { 2int } else { 1int })
            &&& r.last() == (ConversationEvent::TurnCompleted { usage: usage_of(old.token_usage()) })
            &&& old.todo_list() is Some ==> r[0] is ItemCompleted
                && is_todo_item(r[0], old.todo_list().unwrap().0, old.todo_list().unwrap().1)
            &&& new.todo_list() is None
        },
        EventMsg::Error { message } => r.len() == 1 && new.next_id() == old.next_id() && is_error_event(r[0], message@),
        EventMsg::StreamError { message } => r.len() == 1 && new.next_id() == old.next_id()
            && is_error_event(r[0], message@),
        EventMsg::PlanUpdate { plan } => {
            &&& r.len() == 1
            &&& new.todo_list() is Some && new.todo_list().unwrap().1 == plan_todos(plan@)
            &&& old.todo_list() is Some ==> r[0] is ItemUpdated && new.next_id() == old.next_id()
                && is_todo_item(r[0], old.todo_list().unwrap().0, plan_todos(plan@))
            &&& old.todo_list() is None ==> r[0] is ItemStarted && new.next_id() == next_counter(old.next_id())
                && is_todo_item(r[0], item_id_text(old.next_id()), plan_todos(plan@))
        },
        _ => r.len() == 0,
    }
}

impl ExperimentalEventProcessorWithJsonOutput {
    /// Projects one core event onto zero or more conversation events.
    #[verifier::spinoff_prover]
    pub fn collect_conversation_events(&mut self, event: &Event) -> (r: Vec<ConversationEvent>)
        ensures
            projected(*old(self), *final(self), event.msg, r@),
            final(self).output_path() == old(self).output_path(),
    {
        match &event.msg {
            EventMsg::SessionConfigured { session_id } => self.handle_session_configured(session_id),
            EventMsg::AgentMessage { message } => self.handle_agent_message(message),
            EventMsg::AgentReasoning { text } => self.handle_reasoning_event(text),
            EventMsg::ExecCommandBegin { call_id, command } => self.handle_exec_command_begin(call_id, command),
            EventMsg::ExecCommandEnd { call_id, exit_code, aggregated_output } => self.handle_exec_command_end(
                call_id,
                *exit_code,
                aggregated_output,
            ),
            EventMsg::PatchApplyBegin { call_id, changes } => self.handle_patch_apply_begin(call_id, clone_changes(changes)),
            EventMsg::PatchApplyEnd { call_id, success } => self.handle_patch_apply_end(call_id, *success),
            EventMsg::TokenCount { total_token_usage } => {
                if let Some(u) = total_token_usage {
                    self.last_total_token_usage = Some(*u);
                }
                Vec::new()
            },
            EventMsg::TaskStarted => self.handle_task_started(),
            EventMsg::TaskComplete { .. } => self.handle_task_complete(),
            EventMsg::Error { message } => vec![ConversationEvent::Error { message: message.clone() }],
            EventMsg::StreamError { message } => vec![ConversationEvent::Error { message: message.clone() }],
            EventMsg::PlanUpdate { plan } => self.handle_plan_update(plan),
            _ => Vec::new(),
        }
    }
}

} // verus!

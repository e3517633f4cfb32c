//! The session: at most one running task, the ordered event stream it
//! produces, tool-call bookkeeping and the approvals that suspend a call.
//!
//! The session decides; whoever drives it runs the tasks, awaits the
//! model and the user, and delivers the events and decisions it returns.

use crate::protocol::begin_key;
use crate::protocol::end_key;
use crate::protocol::CallKind;
use crate::protocol::Event;
use crate::protocol::EventMsg;
use crate::protocol::ReviewDecision;
use crate::protocol::TaskKind;
use crate::protocol::TurnAbortReason;
use crate::text::str_eq;
use crate::text::words;
use vstd::prelude::*;

verus! {

// ---------------------------------------------------------------------------
// The event stream

/// Whether the task of submission `s` is running after `log`: its last
/// lifecycle event is `TaskStarted`.
pub open spec fn running(log: Seq<Event>, s: Seq<char>) -> bool
    decreases log.len(),
{
    if log.len() == 0 {
        false
    } else if log.last().id@ == s {
        match log.last().msg {
            EventMsg::TaskStarted => true,
            EventMsg::TaskComplete { .. } => false,
            EventMsg::TurnAborted { .. } => false,
            _ => running(log.drop_last(), s),
        }
    } else {
        running(log.drop_last(), s)
    }
}

/// Whether the last lifecycle event of submission `s` in `log` is `TurnAborted`.
pub open spec fn ended_by_abort(log: Seq<Event>, s: Seq<char>) -> bool
    decreases log.len(),
{
    if log.len() == 0 {
        false
    } else if log.last().id@ == s {
        match log.last().msg {
            EventMsg::TaskStarted => false,
            EventMsg::TaskComplete { .. } => false,
            EventMsg::TurnAborted { .. } => true,
            _ => ended_by_abort(log.drop_last(), s),
        }
    } else {
        ended_by_abort(log.drop_last(), s)
    }
}

/// The calls of the latest run of submission `s` that began and have not ended.
pub open spec fn open_calls(log: Seq<Event>, s: Seq<char>) -> Set<(CallKind, Seq<char>)>
    decreases log.len(),
{
    if log.len() == 0 {
        Set::empty()
    } else {
        let prev = open_calls(log.drop_last(), s);
        let e = log.last();
        if e.id@ != s {
            prev
        } else if e.msg is TaskStarted {
            Set::empty()
        } else if begin_key(e.msg) is Some {
            prev.insert(begin_key(e.msg).unwrap())
        } else if end_key(e.msg) is Some {
            prev.remove(end_key(e.msg).unwrap())
        } else {
            prev
        }
    }
}

/// What may follow `prev`: a task starts only when none runs; every other
/// event belongs to the running task; a call ends only after it began, and
/// a task completes only when all its calls have ended.
pub open spec fn step_ok(prev: Seq<Event>, e: Event) -> bool {
    match e.msg {
        EventMsg::SessionConfigured { .. } => prev.len() == 0,
        EventMsg::TaskStarted => forall|t: Seq<char>| !#[trigger] running(prev, t),
        EventMsg::TaskComplete { .. } => running(prev, e.id@) && open_calls(prev, e.id@)
            =~= Set::empty(),
        _ => {
            &&& running(prev, e.id@)
            &&& (begin_key(e.msg) is Some ==> !open_calls(prev, e.id@).contains(
                begin_key(e.msg).unwrap(),
            ))
            &&& (end_key(e.msg) is Some ==> open_calls(prev, e.id@).contains(
                end_key(e.msg).unwrap(),
            ))
        },
    }
}

/// Every event of `log` may follow the ones before it.
pub open spec fn trace_ok(log: Seq<Event>) -> bool
    decreases log.len(),
{
    log.len() == 0 || (trace_ok(log.drop_last()) && step_ok(log.drop_last(), log.last()))
}

/// The events of `log` that carry submission id `s`, in order.
pub open spec fn events_for(log: Seq<Event>, s: Seq<char>) -> Seq<Event>
    decreases log.len(),
{
    if log.len() == 0 {
        log
    } else if log.last().id@ == s {
        events_for(log.drop_last(), s).push(log.last())
    } else {
        events_for(log.drop_last(), s)
    }
}

pub proof fn lemma_trace_ok_prefix(log: Seq<Event>, n: int)
    requires
        trace_ok(log),
        0 <= n <= log.len(),
    ensures
        trace_ok(log.subrange(0, n)),
    decreases log.len(),
{
    if n < log.len() {
        assert(log.drop_last().subrange(0, n) == log.subrange(0, n));
        lemma_trace_ok_prefix(log.drop_last(), n);
    } else {
        assert(log.subrange(0, n) == log);
    }
}

/// At every point of a valid stream at most one task is outstanding: a
/// `TaskStarted` not yet followed by `TaskComplete` or `TurnAborted`.
pub proof fn lemma_single_active_task(log: Seq<Event>, s1: Seq<char>, s2: Seq<char>)
    requires
        trace_ok(log),
        running(log, s1),
        running(log, s2),
    ensures
        s1 == s2,
    decreases log.len(),
{
    let prev = log.drop_last();
    let e = log.last();
    if e.msg is TaskStarted {
        if e.id@ != s1 {
            assert(running(prev, s1));
        }
        if e.id@ != s2 {
            assert(running(prev, s2));
        }
    } else {
        if e.id@ == s1 {
            assert(running(prev, s1));
        }
        if e.id@ == s2 {
            assert(running(prev, s2));
        }
        lemma_single_active_task(prev, s1, s2);
    }
}

/// In a valid stream, when a task completes every call that its run began
/// has ended.
pub proof fn lemma_complete_closes_calls(log: Seq<Event>, k: int)
    requires
        trace_ok(log),
        0 <= k < log.len(),
        log[k].msg is TaskComplete,
    ensures
        open_calls(log.subrange(0, k), log[k].id@) =~= Set::empty(),
{
    lemma_trace_ok_prefix(log, k + 1);
    let p = log.subrange(0, k + 1);
    assert(p.drop_last() == log.subrange(0, k));
    assert(p.last() == log[k]);
}

/// In a valid stream, calls of a task that is no longer running are left
/// unmatched only when its turn ended with `TurnAborted`.
pub proof fn lemma_unmatched_calls_mean_abort(log: Seq<Event>, s: Seq<char>)
    requires
        trace_ok(log),
        !running(log, s),
        !(open_calls(log, s) =~= Set::empty()),
    ensures
        ended_by_abort(log, s),
    decreases log.len(),
{
    let prev = log.drop_last();
    let e = log.last();
    assert(log.len() > 0);
    assert(trace_ok(prev) && step_ok(prev, e));
    if e.id@ == s {
        match e.msg {
            EventMsg::TaskStarted => {},
            EventMsg::TaskComplete { .. } => {
                assert(open_calls(log, s) == open_calls(prev, s));
            },
            EventMsg::TurnAborted { .. } => {},
            EventMsg::SessionConfigured { .. } => {
                assert(open_calls(log, s) == open_calls(prev, s));
                assert(prev.len() == 0);
            },
            _ => {
                assert(running(prev, s));
            },
        }
    } else {
        assert(open_calls(log, s) == open_calls(prev, s));
        lemma_unmatched_calls_mean_abort(prev, s);
    }
}

/// Appending to the stream keeps the events of each submission in the
/// order in which they were produced.
pub proof fn lemma_events_for_prefix(a: Seq<Event>, b: Seq<Event>, s: Seq<char>)
    requires
        a.is_prefix_of(b),
    ensures
        events_for(a, s).is_prefix_of(events_for(b, s)),
    decreases b.len(),
{
    if a.len() == b.len() {
        assert(a =~= b);
    } else {
        let b0 = b.drop_last();
        assert(a.is_prefix_of(b0)) by {
            assert forall|i: int| 0 <= i < a.len() implies a[i] == b0[i] by {
                assert(a[i] == b[i]);
            }
        }
        lemma_events_for_prefix(a, b0, s);
        let x = events_for(a, s);
        let y0 = events_for(b0, s);
        if b.last().id@ == s {
            let y = y0.push(b.last());
            assert(x.is_prefix_of(y)) by {
                assert forall|i: int| 0 <= i < x.len() implies x[i] == y[i] by {
                    assert(x[i] == y0[i]);
                }
            }
        }
    }
}

// ---------------------------------------------------------------------------
// Approvals

/// One step in the life of approval requests.
pub enum ApprovalRecord {
    Requested(Seq<char>),
    Resolved(Seq<char>, ReviewDecision),
}

/// Whether the request with call id `id` is waiting for a decision after `log`.
pub open spec fn approval_pending(log: Seq<ApprovalRecord>, id: Seq<char>) -> bool
    decreases log.len(),
{
    if log.len() == 0 {
        false
    } else {
        match log.last() {
            ApprovalRecord::Requested(c) => if c == id {
                true
            } else {
                approval_pending(log.drop_last(), id)
            },
            ApprovalRecord::Resolved(c, _) => if c == id {
                false
            } else {
                approval_pending(log.drop_last(), id)
            },
        }
    }
}

/// A request is made only when none with the same call id waits, and a
/// decision resolves only a waiting request.
pub open spec fn approvals_ok(log: Seq<ApprovalRecord>) -> bool
    decreases log.len(),
{
    log.len() == 0 || (approvals_ok(log.drop_last()) && match log.last() {
        ApprovalRecord::Requested(c) => !approval_pending(log.drop_last(), c),
        ApprovalRecord::Resolved(c, _) => approval_pending(log.drop_last(), c),
    })
}

pub open spec fn requests_count(log: Seq<ApprovalRecord>, id: Seq<char>) -> nat
    decreases log.len(),
{
    if log.len() == 0 {
        0
    } else {
        requests_count(log.drop_last(), id) + match log.last() {
            ApprovalRecord::Requested(c) => if c == id {
                1nat
            } else {
                0nat
            },
            _ => 0nat,
        }
    }
}

pub open spec fn resolutions_count(log: Seq<ApprovalRecord>, id: Seq<char>) -> nat
    decreases log.len(),
{
    if log.len() == 0 {
        0
    } else {
        resolutions_count(log.drop_last(), id) + match log.last() {
            ApprovalRecord::Resolved(c, _) => if c == id {
                1nat
            } else {
                0nat
            },
            _ => 0nat,
        }
    }
}

/// Each approval request is resolved exactly once: the requests for a call id
/// outnumber its resolutions by one while one waits, and equal them otherwise.
pub proof fn lemma_each_request_resolved_once(log: Seq<ApprovalRecord>, id: Seq<char>)
    requires
        approvals_ok(log),
    ensures
        requests_count(log, id) == resolutions_count(log, id) + if approval_pending(log, id) {
            1nat
        } else {
            0nat
        },
    decreases log.len(),
{
    if log.len() > 0 {
        lemma_each_request_resolved_once(log.drop_last(), id);
    }
}

fn words_eq(a: &Vec<String>, b: &Vec<String>) -> (r: bool)
    ensures
        r == (words(a@) == words(b@)),
{
    if a.len() != b.len() {
        assert(words(a@).len() != words(b@).len());
        return false;
    }
    let mut i: usize = 0;
    while i < a.len()
        invariant
            a@.len() == b@.len(),
            i <= a@.len(),
            forall|j: int| 0 <= j < i ==> a@[j]@ == b@[j]@,
        decreases a@.len() - i,
    {
        if !str_eq(a[i].as_str(), b[i].as_str()) {
            assert(words(a@)[i as int] != words(b@)[i as int]);
            return false;
        }
        i += 1;
    }
    assert(words(a@) =~= words(b@));
    true
}

/// Whether a fingerprint is among those approved for the session.
pub open spec fn approved_in(list: Seq<Vec<String>>, fp: Seq<Seq<char>>) -> bool {
    exists|i: int| 0 <= i < list.len() && #[trigger] words(list[i]@) == fp
}

/// Once approved for the session, a fingerprint stays approved.
pub proof fn lemma_session_approval_monotone(
    a: Seq<Vec<String>>,
    b: Seq<Vec<String>>,
    fp: Seq<Seq<char>>,
)
    requires
        a.is_prefix_of(b),
        approved_in(a, fp),
    ensures
        approved_in(b, fp),
{
    let i = choose|i: int| 0 <= i < a.len() && #[trigger] words(a[i]@) == fp;
    assert(a[i] == b[i]);
}

// ---------------------------------------------------------------------------
// The session

/// Who produced an item of the conversation.
#[derive(Debug, Clone, Copy, PartialEq, Eq, Structural)]
pub enum HistoryRole {
    User,
    Assistant,
    ToolCall,
    ToolOutput,
    Summary,
}

/// One item of the conversation, carried verbatim to the model.
#[derive(Debug, Clone, PartialEq, Eq)]
pub struct HistoryItem {
    pub role: HistoryRole,
    pub text: String,
}

/// The task that currently runs.
pub struct ActiveTask {
    pub sub_id: String,
    pub kind: TaskKind,
    /// Calls that began and have not ended, as kind and call id.
    pub open_calls: Vec<(CallKind, String)>,
    /// The last agent message, once the task's run has returned.
    pub returned: Option<Option<String>>,
    /// Calls whose approval was denied or aborted: they may not start.
    pub denied: Vec<(CallKind, String)>,
}

/// The call that an approval request of this kind stands for.
pub open spec fn call_kind_of(k: ApprovalKind) -> CallKind {
    match k {
        ApprovalKind::Exec => CallKind::Exec,
        ApprovalKind::Patch => CallKind::Patch,
    }
}

/// Whether a request asks to run a command or to apply a patch.
#[derive(Debug, Clone, Copy, PartialEq, Eq, Structural)]
pub enum ApprovalKind {
    Exec,
    Patch,
}

/// A request that waits for the user.
pub struct PendingApproval {
    pub call_id: String,
    pub kind: ApprovalKind,
    pub fingerprint: Vec<String>,
}

/// What became of an approval request.
#[derive(Debug, Clone, Copy, PartialEq, Eq, Structural)]
pub enum ApprovalNeed {
    /// The fingerprint was approved for the session: run without asking.
    AutoApproved,
    /// A request event was emitted; a decision will follow.
    AwaitingDecision,
    /// No task of that submission runs, or the call id already waits.
    Rejected,
}

/// Why a submission was refused.
#[derive(Debug, Clone, Copy, PartialEq, Eq, Structural)]
pub enum SessionError {
    ShuttingDown,
}

pub open spec fn keys_of(v: Seq<(CallKind, String)>) -> Set<(CallKind, Seq<char>)> {
    Set::new(|k: (CallKind, Seq<char>)| exists|i: int| 0 <= i < v.len() && #[trigger] v[i].1@ == k.1 && v[i].0 == k.0)
}

pub open spec fn keys_distinct(v: Seq<(CallKind, String)>) -> bool {
    forall|i: int, j: int| 0 <= i < j < v.len() ==> !(v[i].0 == v[j].0 && #[trigger] v[i].1@ == #[trigger] v[j].1@)
}

pub open spec fn pending_has(p: Seq<PendingApproval>, id: Seq<char>) -> bool {
    exists|i: int| 0 <= i < p.len() && #[trigger] p[i].call_id@ == id
}

pub open spec fn pending_distinct(p: Seq<PendingApproval>) -> bool {
    forall|i: int, j: int| 0 <= i < j < p.len() ==> #[trigger] p[i].call_id@ != #[trigger] p[j].call_id@
}

pub struct Session {
    active: Option<ActiveTask>,
    events: Vec<Event>,
    pending: Vec<PendingApproval>,
    session_approvals: Vec<Vec<String>>,
    shut_down: bool,
    approval_log: Ghost<Seq<ApprovalRecord>>,
    history: Vec<HistoryItem>,
}

impl Session {
    pub closed spec fn wf(&self) -> bool {
        &&& trace_ok(self.events@)
        &&& forall|s: Seq<char>| #[trigger]
            running(self.events@, s) <==> (self.active is Some && s == self.active.unwrap().sub_id@)
        &&& self.active is Some ==> open_calls(self.events@, self.active.unwrap().sub_id@)
            == keys_of(self.active.unwrap().open_calls@)
        &&& self.active is Some ==> keys_distinct(self.active.unwrap().open_calls@)
        &&& approvals_ok(self.approval_log@)
        &&& forall|id: Seq<char>| #[trigger]
            approval_pending(self.approval_log@, id) <==> pending_has(self.pending@, id)
        &&& pending_distinct(self.pending@)
        &&& self.active is None ==> self.pending@.len() == 0
    }

    pub closed spec fn event_log(&self) -> Seq<Event> {
        self.events@
    }

    pub closed spec fn approvals_log(&self) -> Seq<ApprovalRecord> {
        self.approval_log@
    }

    pub closed spec fn approved_list(&self) -> Seq<Vec<String>> {
        self.session_approvals@
    }

    pub closed spec fn active_id(&self) -> Option<Seq<char>> {
        match self.active {
            Some(t) => Some(t.sub_id@),
            None => None,
        }
    }

    pub closed spec fn pending_ids(&self) -> Set<Seq<char>> {
        Set::new(|id: Seq<char>| pending_has(self.pending@, id))
    }

    /// The conversation so far, as the model is shown it again.
    pub closed spec fn history(&self) -> Seq<HistoryItem> {
        self.history@
    }

    pub closed spec fn is_shut_down(&self) -> bool {
        self.shut_down
    }

    /// `Some(message)` once the run of the running task has returned.
    pub closed spec fn returned_message(&self) -> Option<Option<String>> {
        match self.active {
            Some(t) => t.returned,
            None => None,
        }
    }

    /// The calls of the running task that were refused approval.
    pub closed spec fn denied_keys(&self) -> Set<(CallKind, Seq<char>)> {
        match self.active {
            Some(t) => keys_of(t.denied@),
            None => Set::empty(),
        }
    }

    /// The call ids of the waiting approval requests, in the order made.
    pub closed spec fn pending_order(&self) -> Seq<Seq<char>> {
        self.pending@.map_values(|p: PendingApproval| p.call_id@)
    }

    pub closed spec fn active_kind(&self) -> Option<TaskKind> {
        match self.active {
            Some(t) => Some(t.kind),
            None => None,
        }
    }

    /// The calls of the running task that began and have not ended.
    pub closed spec fn open_call_keys(&self) -> Set<(CallKind, Seq<char>)> {
        match self.active {
            Some(t) => keys_of(t.open_calls@),
            None => Set::empty(),
        }
    }

    /// The kind and fingerprint of the request that waits under call id `id`.
    pub closed spec fn pending_entry(&self, id: Seq<char>) -> Option<(ApprovalKind, Seq<Seq<char>>)> {
        if pending_has(self.pending@, id) {
            let i = choose|i: int| 0 <= i < self.pending@.len() && #[trigger] self.pending@[i].call_id@ == id;
            Some((self.pending@[i].kind, words(self.pending@[i].fingerprint@)))
        } else {
            None
        }
    }

    /// What every operation keeps: the invariant, the events already
    /// emitted, and the fingerprints already approved for the session.
    pub open spec fn grows_from(&self, old: &Session) -> bool {
        &&& self.wf()
        &&& old.history().is_prefix_of(self.history())
        &&& old.event_log().is_prefix_of(self.event_log())
        &&& old.approvals_log().is_prefix_of(self.approvals_log())
        &&& old.approved_list().is_prefix_of(self.approved_list())
    }
}


#[verifier::spinoff_prover]
pub proof fn lemma_keys_push(v: Seq<(CallKind, String)>, x: (CallKind, String))
    ensures
        keys_of(v.push(x)) == keys_of(v).insert((x.0, x.1@)),
        keys_distinct(v) && !keys_of(v).contains((x.0, x.1@)) ==> keys_distinct(v.push(x)),
{
    let w = v.push(x);
    assert forall|k: (CallKind, Seq<char>)| keys_of(w).contains(k) <==> keys_of(v).insert((x.0, x.1@)).contains(k) by {
        if keys_of(w).contains(k) {
            let i = choose|i: int| 0 <= i < w.len() && #[trigger] w[i].1@ == k.1 && w[i].0 == k.0;
            if i < v.len() {
                assert(v[i] == w[i]);
            }
        }
        if keys_of(v).contains(k) {
            let i = choose|i: int| 0 <= i < v.len() && #[trigger] v[i].1@ == k.1 && v[i].0 == k.0;
            assert(w[i] == v[i]);
        }
        if k == (x.0, x.1@) {
            assert(w[v.len() as int] == x);
        }
    }
    assert(keys_of(w) =~= keys_of(v).insert((x.0, x.1@)));
    if keys_distinct(v) && !keys_of(v).contains((x.0, x.1@)) {
        assert forall|i: int, j: int| 0 <= i < j < w.len() implies !(w[i].0 == w[j].0 && #[trigger] w[i].1@ == #[trigger] w[j].1@) by {
            if j == v.len() {
                assert(w[i] == v[i]);
                if w[i].0 == w[j].0 && w[i].1@ == w[j].1@ {
                    assert(keys_of(v).contains((x.0, x.1@)));
                }
            } else {
                assert(w[i] == v[i] && w[j] == v[j]);
            }
        }
    }
}

#[verifier::spinoff_prover]
pub proof fn lemma_keys_remove(v: Seq<(CallKind, String)>, i: int)
    requires
        keys_distinct(v),
        0 <= i < v.len(),
    ensures
        keys_of(v.remove(i)) == keys_of(v).remove((v[i].0, v[i].1@)),
        keys_distinct(v.remove(i)),
{
    let w = v.remove(i);
    let x = (v[i].0, v[i].1@);
    assert forall|k: (CallKind, Seq<char>)| keys_of(w).contains(k) <==> keys_of(v).remove(x).contains(k) by {
        if keys_of(w).contains(k) {
            let j = choose|j: int| 0 <= j < w.len() && #[trigger] w[j].1@ == k.1 && w[j].0 == k.0;
            if j < i {
                assert(w[j] == v[j]);
            } else {
                assert(w[j] == v[j + 1]);
            }
        }
        if keys_of(v).remove(x).contains(k) {
            let j = choose|j: int| 0 <= j < v.len() && #[trigger] v[j].1@ == k.1 && v[j].0 == k.0;
            if j < i {
                assert(w[j] == v[j]);
            } else if j > i {
                assert(w[j - 1] == v[j]);
            }
        }
    }
    assert(keys_of(w) =~= keys_of(v).remove(x));
    assert forall|a: int, b: int| 0 <= a < b < w.len() implies !(w[a].0 == w[b].0 && #[trigger] w[a].1@ == #[trigger] w[b].1@) by {
        let a1 = if a < i { a } else { a + 1 };
        let b1 = if b < i { b } else { b + 1 };
        assert(w[a] == v[a1] && w[b] == v[b1]);
    }
}

fn begin_key_exec(msg: &EventMsg) -> (r: Option<(CallKind, String)>)
    ensures
        r is Some == begin_key(*msg) is Some,
        r is Some ==> (r.unwrap().0, r.unwrap().1@) == begin_key(*msg).unwrap(),
{
    match msg {
        EventMsg::ExecCommandBegin { call_id, .. } => Some((CallKind::Exec, call_id.clone())),
        EventMsg::PatchApplyBegin { call_id, .. } => Some((CallKind::Patch, call_id.clone())),
        EventMsg::McpToolCallBegin { call_id, .. } => Some((CallKind::Mcp, call_id.clone())),
        _ => None,
    }
}

fn end_key_exec(msg: &EventMsg) -> (r: Option<(CallKind, String)>)
    ensures
        r is Some == end_key(*msg) is Some,
        r is Some ==> (r.unwrap().0, r.unwrap().1@) == end_key(*msg).unwrap(),
{
    match msg {
        EventMsg::ExecCommandEnd { call_id, .. } => Some((CallKind::Exec, call_id.clone())),
        EventMsg::PatchApplyEnd { call_id, .. } => Some((CallKind::Patch, call_id.clone())),
        EventMsg::McpToolCallEnd { call_id, .. } => Some((CallKind::Mcp, call_id.clone())),
        _ => None,
    }
}

/// Index of a call among the open ones, if it is open.
fn find_call(open: &Vec<(CallKind, String)>, kind: CallKind, call_id: &str) -> (r: Option<usize>)
    ensures
        r is None <==> !keys_of(open@).contains((kind, call_id@)),
        r is Some ==> r.unwrap() < open@.len() && open@[r.unwrap() as int].0 == kind
            && open@[r.unwrap() as int].1@ == call_id@,
{
    let mut i: usize = 0;
    while i < open.len()
        invariant
            i <= open@.len(),
            forall|j: int| 0 <= j < i ==> !(open@[j].0 == kind && open@[j].1@ == call_id@),
        decreases open@.len() - i,
    {
        if open[i].0 == kind && str_eq(open[i].1.as_str(), call_id) {
            assert(keys_of(open@).contains((kind, call_id@)));
            return Some(i);
        }
        i += 1;
    }
    None
}

/// Messages that carry no lifecycle, call or approval meaning.
pub open spec fn is_plain_msg(m: EventMsg) -> bool {
    match m {
        EventMsg::AgentMessage { .. } => true,
        EventMsg::AgentReasoning { .. } => true,
        EventMsg::TokenCount { .. } => true,
        EventMsg::PlanUpdate { .. } => true,
        EventMsg::Error { .. } => true,
        EventMsg::StreamError { .. } => true,
        EventMsg::ExitedReviewMode => true,
        _ => false,
    }
}

pub open spec fn is_request_for(m: EventMsg, kind: ApprovalKind, call_id: Seq<char>, fp: Seq<Seq<char>>) -> bool {
    match m {
        EventMsg::ExecApprovalRequest { call_id: c, command } => kind == ApprovalKind::Exec
            && c@ == call_id && words(command@) == fp,
        EventMsg::PatchApprovalRequest { call_id: c } => kind == ApprovalKind::Patch && c@ == call_id,
        _ => false,
    }
}

pub open spec fn same_msg_kind(m: EventMsg, n: EventMsg) -> bool {
    match (m, n) {
        (EventMsg::TaskComplete { last_agent_message: a }, EventMsg::TaskComplete { last_agent_message: b }) => a == b,
        (EventMsg::TurnAborted { reason: a }, EventMsg::TurnAborted { reason: b }) => a == b,
        _ => false,
    }
}

impl Session {
    /// A new session whose stream opens with `SessionConfigured`.
    pub fn new(session_id: String) -> (r: Session)
        ensures
            r.wf(),
            r.event_log().len() == 1,
            match r.event_log()[0].msg {
                EventMsg::SessionConfigured { session_id: id } => id@ == session_id@,
                _ => false,
            },
            r.active_id() is None,
            r.history().len() == 0,
            r.pending_ids() == Set::<Seq<char>>::empty(),
            r.approved_list().len() == 0,
            r.approvals_log().len() == 0,
            !r.is_shut_down(),
    {
        let mut events: Vec<Event> = Vec::new();
        let ghost sid = session_id@;
        let e = Event { id: String::new(), msg: EventMsg::SessionConfigured { session_id } };
        let ghost eg = e;
        events.push(e);
        let r = Session {
            active: None,
            events,
            pending: Vec::new(),
            session_approvals: Vec::new(),
            shut_down: false,
            approval_log: Ghost(Seq::empty()),
            history: Vec::new(),
        };
        proof {
            assert(r.events@.drop_last() =~= Seq::<Event>::empty());
            assert(r.events@.last() == eg);
            assert(trace_ok(r.events@.drop_last()));
            assert(step_ok(r.events@.drop_last(), eg));
            assert forall|s: Seq<char>| !#[trigger] running(r.events@, s) by {
                assert(!running(r.events@.drop_last(), s));
            }
            assert(r.pending_ids() =~= Set::<Seq<char>>::empty());
        }
        r
    }

    fn push_event(&mut self, e: Event)
        requires
            trace_ok(old(self).events@),
            step_ok(old(self).events@, e),
        ensures
            final(self).events@ == old(self).events@.push(e),
            trace_ok(final(self).events@),
            final(self).active == old(self).active,
            final(self).pending == old(self).pending,
            final(self).session_approvals == old(self).session_approvals,
            final(self).shut_down == old(self).shut_down,
            final(self).history == old(self).history,
            final(self).approval_log == old(self).approval_log,
    {
        proof {
            assert(old(self).events@.push(e).drop_last() == old(self).events@);
        }
        self.events.push(e);
    }

    /// Resolves every waiting request with `Abort`, in the order they were made.
    #[verifier::spinoff_prover]
    fn clear_pending(&mut self) -> (forced: Vec<(String, ReviewDecision)>)
        requires
            approvals_ok(old(self).approval_log@),
            forall|id: Seq<char>| #[trigger]
                approval_pending(old(self).approval_log@, id) <==> pending_has(old(self).pending@, id),
            pending_distinct(old(self).pending@),
        ensures
            final(self).pending@.len() == 0,
            approvals_ok(final(self).approval_log@),
            forall|id: Seq<char>| !#[trigger] approval_pending(final(self).approval_log@, id),
            old(self).approval_log@.is_prefix_of(final(self).approval_log@),
            final(self).events == old(self).events,
            final(self).active == old(self).active,
            final(self).session_approvals == old(self).session_approvals,
            final(self).shut_down == old(self).shut_down,
            final(self).history == old(self).history,
            forced@.len() == old(self).pending@.len(),
            forall|i: int| 0 <= i < forced@.len() ==> forced@[i].0@ == old(self).pending@[i].call_id@
                && forced@[i].1 == ReviewDecision::Abort,
    {
        let mut forced: Vec<(String, ReviewDecision)> = Vec::new();
        let mut i: usize = 0;
        while i < self.pending.len()
            invariant
                i <= self.pending@.len(),
                self.pending == old(self).pending,
                self.events == old(self).events,
                self.active == old(self).active,
                self.session_approvals == old(self).session_approvals,
                self.shut_down == old(self).shut_down,
                self.history == old(self).history,
                pending_distinct(self.pending@),
                approvals_ok(self.approval_log@),
                forall|id: Seq<char>| #[trigger]
                    approval_pending(self.approval_log@, id) <==> exists|j: int| i <= j < self.pending@.len() && self.pending@[j].call_id@ == id,
                old(self).approval_log@.is_prefix_of(self.approval_log@),
                forced@.len() == i,
                forall|k: int| 0 <= k < i ==> forced@[k].0@ == old(self).pending@[k].call_id@
                    && forced@[k].1 == ReviewDecision::Abort,
            decreases self.pending@.len() - i,
        {
            let id = self.pending[i].call_id.clone();
            let ghost before = self.approval_log@;
            let ghost rec = ApprovalRecord::Resolved(id@, ReviewDecision::Abort);
            proof {
                assert(approval_pending(before, id@));
            }
            self.approval_log = Ghost(before.push(rec));
            proof {
                let after = self.approval_log@;
                assert(after.drop_last() == before);
                assert forall|x: Seq<char>| #[trigger]
                    approval_pending(after, x) <==> exists|j: int| i + 1 <= j < self.pending@.len() && self.pending@[j].call_id@ == x by {
                    if x != id@ {
                        if approval_pending(before, x) {
                            let j = choose|j: int| i <= j < self.pending@.len() && self.pending@[j].call_id@ == x;
                            assert(j != i);
                        }
                    } else {
                        if exists|j: int| i + 1 <= j < self.pending@.len() && self.pending@[j].call_id@ == x {
                            let j = choose|j: int| i + 1 <= j < self.pending@.len() && self.pending@[j].call_id@ == x;
                            assert(self.pending@[i as int].call_id@ != self.pending@[j].call_id@);
                        }
                    }
                }
                assert(old(self).approval_log@.is_prefix_of(after)) by {
                    assert forall|k: int| 0 <= k < old(self).approval_log@.len() implies old(self).approval_log@[k] == after[k] by {
                        assert(after[k] == before[k]);
                    }
                }
            }
            forced.push((id, ReviewDecision::Abort));
            i += 1;
        }
        self.pending.clear();
        forced
    }

    /// Ends task `t`, already out of the slot and with no request waiting.
    /// An aborted task (`aborted` is the reason) announces the end of review
    /// mode if it is a review, then `TurnAborted`. A task whose run returned
    /// completes with `TaskComplete` when all its calls ended; with a call
    /// still open the stream is inconsistent, which is fatal: an `Error`,
    /// `TurnAborted` for `Shutdown`, and the session shuts down.
    fn end_task(&mut self, t: ActiveTask, aborted: Option<TurnAbortReason>, msg: Option<String>)
        requires
            old(self).active is None,
            trace_ok(old(self).events@),
            forall|s: Seq<char>| #[trigger] running(old(self).events@, s) <==> s == t.sub_id@,
            open_calls(old(self).events@, t.sub_id@) == keys_of(t.open_calls@),
        ensures
            trace_ok(final(self).events@),
            forall|s: Seq<char>| !#[trigger] running(final(self).events@, s),
            old(self).events@.is_prefix_of(final(self).events@),
            ended(
                final(self).events@.subrange(old(self).events@.len() as int, final(self).events@.len() as int),
                t.sub_id@,
                t.kind,
                keys_of(t.open_calls@) =~= Set::empty(),
                aborted,
                msg,
            ),
            final(self).shut_down == (old(self).shut_down || (aborted is None && !(keys_of(t.open_calls@) =~= Set::empty()))),
            final(self).active == old(self).active,
            final(self).pending == old(self).pending,
            final(self).session_approvals == old(self).session_approvals,
            final(self).approval_log == old(self).approval_log,
            final(self).history == old(self).history,
    {
        let ghost log0 = self.events@;
        let ghost sid = t.sub_id@;
        let ghost open_empty = keys_of(t.open_calls@) =~= Set::empty();
        proof {
            if t.open_calls@.len() > 0 {
                assert(keys_of(t.open_calls@).contains((t.open_calls@[0].0, t.open_calls@[0].1@)));
            } else {
                assert(keys_of(t.open_calls@) =~= Set::empty());
            }
        }
        let first: Option<EventMsg> = match aborted {
            Some(_) => if t.kind == TaskKind::Review {
                Some(EventMsg::ExitedReviewMode)
            } else {
                None
            },
            None => if t.open_calls.len() == 0 {
                None
            } else {
                Some(EventMsg::Error { message: String::from_str("a tool call began and did not end; shutting down") })
            },
        };
        let last = match aborted {
            Some(reason) => EventMsg::TurnAborted { reason },
            None => if t.open_calls.len() == 0 {
                let m = match t.kind {
                    TaskKind::Regular => msg,
                    _ => None,
                };
                EventMsg::TaskComplete { last_agent_message: m }
            } else {
                EventMsg::TurnAborted { reason: TurnAbortReason::Shutdown }
            },
        };
        let ghost first_g = first;
        let ghost last_g = last;
        let fatal = aborted.is_none() && t.open_calls.len() > 0;
        match first {
            Some(m) => {
                self.push_event(Event { id: t.sub_id.clone(), msg: m });
                proof {
                    assert(self.events@.drop_last() == log0);
                    assert forall|s: Seq<char>| #[trigger] running(self.events@, s) == running(log0, s) by {}
                }
            },
            None => {},
        }
        let ghost log1 = self.events@;
        proof {
            assert(running(log1, sid));
        }
        self.push_event(Event { id: t.sub_id, msg: last });
        if fatal {
            self.shut_down = true;
        }
        proof {
            let log = self.events@;
            assert(log.drop_last() == log1);
            assert(log.last().id@ == sid && log.last().msg == last_g);
            assert forall|s: Seq<char>| !#[trigger] running(log, s) by {
                if s != sid {
                    assert(running(log1, s) == running(log0, s));
                }
            }
            assert(log0.is_prefix_of(log)) by {
                assert forall|k: int| 0 <= k < log0.len() implies log0[k] == log[k] by {
                    assert(log[k] == log1[k]);
                }
            }
            let added = log.subrange(log0.len() as int, log.len() as int);
            if first_g is Some {
                assert(added.len() == 2);
                assert(added[0] == log1.last());
                assert(added[1] == log.last());
            } else {
                assert(log1 == log0);
                assert(added.len() == 1);
                assert(added[0] == log.last());
            }
        }
    }

    /// Stops the running task, if any, and resolves every waiting approval
    /// with `Abort`, returning those decisions for delivery. A task whose
    /// run already returned is not aborted: it completes as that run
    /// decided. Any other task is aborted with `reason`.
    #[verifier::spinoff_prover]
    pub fn abort_all_tasks(&mut self, reason: TurnAbortReason) -> (forced: Vec<(String, ReviewDecision)>)
        requires
            old(self).wf(),
        ensures
            final(self).grows_from(old(self)),
            final(self).history() == old(self).history(),
            final(self).active_id() is None,
            final(self).pending_ids() == Set::<Seq<char>>::empty(),
            final(self).approved_list() == old(self).approved_list(),
            forced@.map_values(|f: (String, ReviewDecision)| f.0@) == old(self).pending_order(),
            forall|i: int| 0 <= i < forced@.len() ==> (#[trigger] forced@[i]).1 == ReviewDecision::Abort,
            old(self).active_id() is None ==> final(self).event_log() == old(self).event_log()
                && final(self).is_shut_down() == old(self).is_shut_down(),
            old(self).active_id() is Some ==> ended_by(*old(self), *final(self), if old(self).returned_message() is Some {
                None
            } else {
                Some(reason)
            }, if old(self).returned_message() is Some {
                old(self).returned_message().unwrap()
            } else {
                None
            }),
    {
        let ghost old_pending = self.pending@;
        match self.active.take() {
            None => {
                proof {
                    assert(self.pending_ids() =~= Set::<Seq<char>>::empty());
                    assert(forced_views(Seq::empty()) =~= old(self).pending_order());
                }
                Vec::new()
            },
            Some(t) => {
                let forced = self.clear_pending();
                let mut t = t;
                let (aborted, msg) = match t.returned.take() {
                    Some(m) => (None, m),
                    None => (Some(reason), None),
                };
                self.end_task(t, aborted, msg);
                proof {
                    assert(self.pending_ids() =~= Set::<Seq<char>>::empty());
                    assert(forced@.map_values(|f: (String, ReviewDecision)| f.0@) =~= old(self).pending_order());
                }
                forced
            },
        }
    }
}

pub open spec fn forced_views(f: Seq<(String, ReviewDecision)>) -> Seq<Seq<char>> {
    f.map_values(|x: (String, ReviewDecision)| x.0@)
}

/// The events that end a task with submission id `sid`: see `end_task`.
pub open spec fn ended(
    added: Seq<Event>,
    sid: Seq<char>,
    kind: TaskKind,
    open_empty: bool,
    aborted: Option<TurnAbortReason>,
    msg: Option<String>,
) -> bool {
    match aborted {
        Some(reason) => if kind == TaskKind::Review {
            &&& added.len() == 2
            &&& added[0].id@ == sid && added[0].msg is ExitedReviewMode
            &&& added[1].id@ == sid && same_msg_kind(added[1].msg, EventMsg::TurnAborted { reason })
        } else {
            &&& added.len() == 1
            &&& added[0].id@ == sid && same_msg_kind(added[0].msg, EventMsg::TurnAborted { reason })
        },
        None => if open_empty {
            &&& added.len() == 1
            &&& added[0].id@ == sid
            &&& same_msg_kind(
                added[0].msg,
                EventMsg::TaskComplete { last_agent_message: if kind == TaskKind::Regular { msg } else { None } },
            )
        } else {
            &&& added.len() == 2
            &&& added[0].id@ == sid && added[0].msg is Error
            &&& added[1].id@ == sid && same_msg_kind(added[1].msg, EventMsg::TurnAborted { reason: TurnAbortReason::Shutdown })
        },
    }
}

/// `new` is `old` after its running task ended as `ended` describes; the
/// session shut down only if it was already or the end was fatal.
pub open spec fn ended_by(old: Session, new: Session, aborted: Option<TurnAbortReason>, msg: Option<String>) -> bool {
    let n = old.event_log().len() as int;
    let open_empty = old.open_call_keys() =~= Set::empty();
    &&& ended(
        new.event_log().subrange(n, new.event_log().len() as int),
        old.active_id().unwrap(),
        old.active_kind().unwrap(),
        open_empty,
        aborted,
        msg,
    )
    &&& new.is_shut_down() == (old.is_shut_down() || (aborted is None && !open_empty))
}

impl Session {
    /// Starts the task of submission `sub_id`: the running task, if any, is
    /// first stopped as `abort_all_tasks` does with `Replaced`, then
    /// `TaskStarted` is emitted. Refused once the session has shut down.
    #[verifier::spinoff_prover]
    pub fn spawn_task(&mut self, sub_id: String, kind: TaskKind) -> (r: Result<Vec<(String, ReviewDecision)>, SessionError>)
        requires
            old(self).wf(),
        ensures
            final(self).grows_from(old(self)),
            final(self).history() == old(self).history(),
            final(self).approved_list() == old(self).approved_list(),
            old(self).is_shut_down() ==> r == Err::<Vec<(String, ReviewDecision)>, SessionError>(SessionError::ShuttingDown)
                && final(self).event_log() == old(self).event_log()
                && final(self).active_id() == old(self).active_id()
                && final(self).is_shut_down(),
            r is Ok <==> !final(self).is_shut_down(),
            final(self).is_shut_down() == (old(self).is_shut_down() || (old(self).active_id() is Some
                && old(self).returned_message() is Some && !(old(self).open_call_keys() =~= Set::empty()))),
            r is Ok ==> forced_views(r->Ok_0@) == old(self).pending_order()
                && forall|i: int| 0 <= i < r->Ok_0@.len() ==> (#[trigger] r->Ok_0@[i]).1 == ReviewDecision::Abort,
            !old(self).is_shut_down() ==> {
                let log = final(self).event_log();
                let n = old(self).event_log().len() as int;
                let stop = if r is Ok { log.len() - 1 } else { log.len() as int };
                let ret = old(self).returned_message();
                &&& final(self).pending_ids() == Set::<Seq<char>>::empty()
                &&& n <= stop
                &&& old(self).active_id() is None ==> stop == n
                &&& old(self).active_id() is Some ==> ended(
                    log.subrange(n, stop),
                    old(self).active_id().unwrap(),
                    old(self).active_kind().unwrap(),
                    old(self).open_call_keys() =~= Set::empty(),
                    if ret is Some { None } else { Some(TurnAbortReason::Replaced) },
                    if ret is Some { ret.unwrap() } else { None },
                )
                &&& r is Ok ==> final(self).active_id() == Some(sub_id@)
                    && final(self).active_kind() == Some(kind)
                    && final(self).returned_message() is None
                    && final(self).open_call_keys() == Set::<(CallKind, Seq<char>)>::empty()
                    && log.last().id@ == sub_id@
                    && log.last().msg is TaskStarted
                &&& r is Err ==> final(self).active_id() is None
            },
    {
        if self.shut_down {
            return Err(SessionError::ShuttingDown);
        }
        let ghost log_start = self.events@;
        let forced = self.abort_all_tasks(TurnAbortReason::Replaced);
        if self.shut_down {
            proof {
                assert(self.events@.subrange(log_start.len() as int, self.events@.len() as int)
                    == self.events@.subrange(log_start.len() as int, self.events@.len() as int));
            }
            return Err(SessionError::ShuttingDown);
        }
        let ghost log0 = self.events@;
        let ghost sid = sub_id@;
        proof {
            assert forall|t: Seq<char>| !#[trigger] running(log0, t) by {}
        }
        self.push_event(Event { id: sub_id.clone(), msg: EventMsg::TaskStarted });
        self.active = Some(ActiveTask { sub_id, kind, open_calls: Vec::new(), returned: None, denied: Vec::new() });
        proof {
            let log = self.events@;
            assert(log.drop_last() == log0);
            assert(log.last().id@ == sid && log.last().msg is TaskStarted);
            assert forall|t: Seq<char>| #[trigger] running(log, t) <==> t == sid by {
                if t != sid {
                    assert(!running(log0, t));
                }
            }
            assert(open_calls(log, sid) =~= Set::empty());
            assert(keys_of(Seq::<(CallKind, String)>::empty()) =~= Set::empty());
            assert(log0.is_prefix_of(log)) by {
                assert forall|k: int| 0 <= k < log0.len() implies log0[k] == log[k] by {}
            }
            assert(log_start.is_prefix_of(log)) by {
                assert forall|k: int| 0 <= k < log_start.len() implies log_start[k] == log[k] by {
                    assert(log_start[k] == log0[k]);
                }
            }
            assert(log.subrange(log_start.len() as int, log.len() - 1) =~= log0.subrange(log_start.len() as int, log0.len() as int));
        }
        Ok(forced)
    }

    /// Stops the running task as `abort_all_tasks` does with `Shutdown`,
    /// and refuses later submissions.
    pub fn shutdown(&mut self) -> (forced: Vec<(String, ReviewDecision)>)
        requires
            old(self).wf(),
        ensures
            final(self).grows_from(old(self)),
            final(self).history() == old(self).history(),
            final(self).is_shut_down(),
            final(self).active_id() is None,
            final(self).pending_ids() == Set::<Seq<char>>::empty(),
            forced_views(forced@) == old(self).pending_order(),
            forall|i: int| 0 <= i < forced@.len() ==> (#[trigger] forced@[i]).1 == ReviewDecision::Abort,
            old(self).active_id() is None ==> final(self).event_log() == old(self).event_log(),
            old(self).active_id() is Some ==> {
                let ret = old(self).returned_message();
                ended(
                    final(self).event_log().subrange(old(self).event_log().len() as int, final(self).event_log().len() as int),
                    old(self).active_id().unwrap(),
                    old(self).active_kind().unwrap(),
                    old(self).open_call_keys() =~= Set::empty(),
                    if ret is Some { None } else { Some(TurnAbortReason::Shutdown) },
                    if ret is Some { ret.unwrap() } else { None },
                )
            },
    {
        let forced = self.abort_all_tasks(TurnAbortReason::Shutdown);
        self.shut_down = true;
        forced
    }

    /// Records that the run of the running task `sub_id` returned with
    /// `last_agent_message`. From then on an abort completes the task
    /// instead of aborting it. Nothing when that task does not run or its
    /// return was already recorded.
    pub fn run_returned(&mut self, sub_id: &str, last_agent_message: Option<String>) -> (r: bool)
        requires
            old(self).wf(),
        ensures
            final(self).grows_from(old(self)),
            final(self).history() == old(self).history(),
            final(self).event_log() == old(self).event_log(),
            final(self).approvals_log() == old(self).approvals_log(),
            final(self).approved_list() == old(self).approved_list(),
            final(self).active_id() == old(self).active_id(),
            final(self).active_kind() == old(self).active_kind(),
            final(self).open_call_keys() == old(self).open_call_keys(),
            final(self).pending_ids() == old(self).pending_ids(),
            final(self).pending_order() == old(self).pending_order(),
            final(self).is_shut_down() == old(self).is_shut_down(),
            r == (old(self).active_id() == Some(sub_id@) && old(self).returned_message() is None),
            r ==> final(self).returned_message() == Some(last_agent_message),
            !r ==> final(self).returned_message() == old(self).returned_message(),
    {
        let ok = match &self.active {
            Some(t) => t.returned.is_none() && str_eq(t.sub_id.as_str(), sub_id),
            None => false,
        };
        if ok {
            let mut t = self.active.take().unwrap();
            t.returned = Some(last_agent_message);
            self.active = Some(t);
        }
        ok
    }

    /// The run of submission `sub_id` returned with `last_agent_message`.
    /// If that task is the running one it leaves the slot and ends as
    /// `end_task` describes: `TaskComplete` (carrying the message for a
    /// regular task only), or, with a call still open, the fatal end. A
    /// task that no longer runs was already ended and emits nothing.
    #[verifier::spinoff_prover]
    pub fn on_task_finished(&mut self, sub_id: &str, last_agent_message: Option<String>) -> (forced: Vec<(String, ReviewDecision)>)
        requires
            old(self).wf(),
        ensures
            final(self).grows_from(old(self)),
            final(self).history() == old(self).history(),
            final(self).approved_list() == old(self).approved_list(),
            forced_views(forced@) == if old(self).active_id() == Some(sub_id@) { old(self).pending_order() } else { Seq::empty() },
            forall|i: int| 0 <= i < forced@.len() ==> (#[trigger] forced@[i]).1 == ReviewDecision::Abort,
            old(self).active_id() != Some(sub_id@) ==> final(self).event_log() == old(self).event_log()
                && final(self).active_id() == old(self).active_id()
                && final(self).is_shut_down() == old(self).is_shut_down(),
            old(self).active_id() == Some(sub_id@) ==> {
                &&& final(self).active_id() is None
                &&& final(self).pending_ids() == Set::<Seq<char>>::empty()
                &&& ended_by(*old(self), *final(self), None, last_agent_message)
            },
    {
        let matches = match &self.active {
            Some(t) => str_eq(t.sub_id.as_str(), sub_id),
            None => false,
        };
        if !matches {
            proof {
                assert(forced_views(Seq::empty()) =~= Seq::empty());
            }
            return Vec::new();
        }
        let t = self.active.take().unwrap();
        let forced = self.clear_pending();
        self.end_task(t, None, last_agent_message);
        proof {
            assert(self.pending_ids() =~= Set::<Seq<char>>::empty());
            assert(forced_views(forced@) =~= old(self).pending_order());
        }
        forced
    }

    /// Announces the start of a call of the running task `sub_id`. Nothing
    /// is emitted when that task does not run or the call already began.
    #[verifier::spinoff_prover]
    pub fn begin_call(&mut self, sub_id: &str, msg: EventMsg) -> (r: bool)
        requires
            old(self).wf(),
            begin_key(msg) is Some,
        ensures
            final(self).grows_from(old(self)),
            final(self).is_shut_down() == old(self).is_shut_down(),
            final(self).approved_list() == old(self).approved_list(),
            final(self).active_id() == old(self).active_id(),
            final(self).active_kind() == old(self).active_kind(),
            final(self).pending_ids() == old(self).pending_ids(),
            final(self).denied_keys() == old(self).denied_keys(),
            r == (old(self).active_id() == Some(sub_id@) && !old(self).open_call_keys().contains(begin_key(msg).unwrap())
                && !old(self).denied_keys().contains(begin_key(msg).unwrap())),
            r ==> final(self).event_log() == old(self).event_log().push(Event { id: final(self).event_log().last().id, msg })
                && final(self).event_log().last().id@ == sub_id@
                && final(self).open_call_keys() == old(self).open_call_keys().insert(begin_key(msg).unwrap()),
            !r ==> final(self).event_log() == old(self).event_log()
                && final(self).open_call_keys() == old(self).open_call_keys(),
    {
        let key = begin_key_exec(&msg).unwrap();
        let ok = match &self.active {
            Some(t) => str_eq(t.sub_id.as_str(), sub_id) && find_call(&t.open_calls, key.0, key.1.as_str()).is_none()
                && find_call(&t.denied, key.0, key.1.as_str()).is_none(),
            None => false,
        };
        if !ok {
            return false;
        }
        let mut t = self.active.take().unwrap();
        let ghost log0 = self.events@;
        let ghost sid = t.sub_id@;
        let ghost open0 = t.open_calls@;
        let e = Event { id: t.sub_id.clone(), msg };
        self.push_event(e);
        t.open_calls.push(key);
        proof {
            let log = self.events@;
            assert(log.drop_last() == log0);
            lemma_keys_push(open0, key);
            assert forall|s: Seq<char>| #[trigger] running(log, s) == running(log0, s) by {}
            assert(open_calls(log, sid) == open_calls(log0, sid).insert(begin_key(msg).unwrap()));
            assert(log0.is_prefix_of(log)) by {
                assert forall|k: int| 0 <= k < log0.len() implies log0[k] == log[k] by {}
            }
        }
        self.active = Some(t);
        true
    }

    /// Announces the end of a call of the running task `sub_id`. Nothing is
    /// emitted when that task does not run or the call is not open.
    #[verifier::spinoff_prover]
    pub fn end_call(&mut self, sub_id: &str, msg: EventMsg) -> (r: bool)
        requires
            old(self).wf(),
            end_key(msg) is Some,
        ensures
            final(self).grows_from(old(self)),
            final(self).is_shut_down() == old(self).is_shut_down(),
            final(self).approved_list() == old(self).approved_list(),
            final(self).active_id() == old(self).active_id(),
            final(self).active_kind() == old(self).active_kind(),
            final(self).pending_ids() == old(self).pending_ids(),
            r == (old(self).active_id() == Some(sub_id@) && old(self).open_call_keys().contains(end_key(msg).unwrap())),
            r ==> final(self).event_log() == old(self).event_log().push(Event { id: final(self).event_log().last().id, msg })
                && final(self).event_log().last().id@ == sub_id@
                && final(self).open_call_keys() == old(self).open_call_keys().remove(end_key(msg).unwrap()),
            !r ==> final(self).event_log() == old(self).event_log()
                && final(self).open_call_keys() == old(self).open_call_keys(),
    {
        let key = end_key_exec(&msg).unwrap();
        let found = match &self.active {
            Some(t) => if str_eq(t.sub_id.as_str(), sub_id) {
                find_call(&t.open_calls, key.0, key.1.as_str())
            } else {
                None
            },
            None => None,
        };
        let idx = match found {
            Some(i) => i,
            None => {
                return false;
            },
        };
        let mut t = self.active.take().unwrap();
        let ghost log0 = self.events@;
        let ghost sid = t.sub_id@;
        let ghost open0 = t.open_calls@;
        let e = Event { id: t.sub_id.clone(), msg };
        self.push_event(e);
        t.open_calls.remove(idx);
        proof {
            let log = self.events@;
            assert(log.drop_last() == log0);
            lemma_keys_remove(open0, idx as int);
            assert forall|s: Seq<char>| #[trigger] running(log, s) == running(log0, s) by {}
            assert(open_calls(log, sid) == open_calls(log0, sid).remove(end_key(msg).unwrap()));
            assert(log0.is_prefix_of(log)) by {
                assert forall|k: int| 0 <= k < log0.len() implies log0[k] == log[k] by {}
            }
        }
        self.active = Some(t);
        true
    }

    /// Emits a message of the running task `sub_id`; nothing when it does not run.
    pub fn emit(&mut self, sub_id: &str, msg: EventMsg) -> (r: bool)
        requires
            old(self).wf(),
            is_plain_msg(msg),
        ensures
            final(self).grows_from(old(self)),
            final(self).is_shut_down() == old(self).is_shut_down(),
            final(self).approved_list() == old(self).approved_list(),
            final(self).active_id() == old(self).active_id(),
            final(self).active_kind() == old(self).active_kind(),
            final(self).pending_ids() == old(self).pending_ids(),
            final(self).open_call_keys() == old(self).open_call_keys(),
            r == (old(self).active_id() == Some(sub_id@)),
            r ==> final(self).event_log() == old(self).event_log().push(Event { id: final(self).event_log().last().id, msg })
                && final(self).event_log().last().id@ == sub_id@,
            !r ==> final(self).event_log() == old(self).event_log(),
    {
        let id = match &self.active {
            Some(t) => if str_eq(t.sub_id.as_str(), sub_id) {
                Some(t.sub_id.clone())
            } else {
                None
            },
            None => None,
        };
        match id {
            None => false,
            Some(id) => {
                let ghost log0 = self.events@;
                self.push_event(Event { id, msg });
                proof {
                    let log = self.events@;
                    assert(log.drop_last() == log0);
                    assert forall|s: Seq<char>| #[trigger] running(log, s) == running(log0, s) by {}
                    assert(open_calls(log, self.active.unwrap().sub_id@) == open_calls(log0, self.active.unwrap().sub_id@));
                    assert(log0.is_prefix_of(log)) by {
                        assert forall|k: int| 0 <= k < log0.len() implies log0[k] == log[k] by {}
                    }
                }
                true
            },
        }
    }
}

impl Session {
    fn approved_exec(&self, fp: &Vec<String>) -> (r: bool)
        ensures
            r == approved_in(self.session_approvals@, words(fp@)),
    {
        let mut i: usize = 0;
        while i < self.session_approvals.len()
            invariant
                i <= self.session_approvals@.len(),
                forall|j: int| 0 <= j < i ==> words(#[trigger] self.session_approvals@[j]@) != words(fp@),
            decreases self.session_approvals@.len() - i,
        {
            if words_eq(&self.session_approvals[i], fp) {
                return true;
            }
            i += 1;
        }
        false
    }

    /// Whether the command fingerprint `fp` was approved for the session.
    pub fn is_approved_for_session(&self, fp: &Vec<String>) -> (r: bool)
        ensures
            r == approved_in(self.approved_list(), words(fp@)),
    {
        self.approved_exec(fp)
    }

    fn find_pending(&self, call_id: &str) -> (r: Option<usize>)
        ensures
            r is None <==> !pending_has(self.pending@, call_id@),
            r is Some ==> r.unwrap() < self.pending@.len() && self.pending@[r.unwrap() as int].call_id@ == call_id@,
    {
        let mut i: usize = 0;
        while i < self.pending.len()
            invariant
                i <= self.pending@.len(),
                forall|j: int| 0 <= j < i ==> #[trigger] self.pending@[j].call_id@ != call_id@,
            decreases self.pending@.len() - i,
        {
            if str_eq(self.pending[i].call_id.as_str(), call_id) {
                return Some(i);
            }
            i += 1;
        }
        None
    }

    /// Asks the user to approve call `call_id` of the running task `sub_id`.
    /// A command whose fingerprint was approved for the session runs without
    /// a new request; otherwise a request event is emitted and the call waits.
    #[verifier::spinoff_prover]
    pub fn request_approval(&mut self, sub_id: &str, call_id: String, kind: ApprovalKind, fingerprint: Vec<String>) -> (r: ApprovalNeed)
        requires
            old(self).wf(),
        ensures
            final(self).grows_from(old(self)),
            final(self).is_shut_down() == old(self).is_shut_down(),
            final(self).approved_list() == old(self).approved_list(),
            final(self).active_id() == old(self).active_id(),
            final(self).active_kind() == old(self).active_kind(),
            final(self).open_call_keys() == old(self).open_call_keys(),
            old(self).active_id() != Some(sub_id@) ==> r == ApprovalNeed::Rejected,
            old(self).active_id() == Some(sub_id@) && kind == ApprovalKind::Exec
                && approved_in(old(self).approved_list(), words(fingerprint@)) ==> r == ApprovalNeed::AutoApproved,
            old(self).active_id() == Some(sub_id@)
                && !(kind == ApprovalKind::Exec && approved_in(old(self).approved_list(), words(fingerprint@)))
                && old(self).pending_ids().contains(call_id@) ==> r == ApprovalNeed::Rejected,
            old(self).active_id() == Some(sub_id@)
                && !(kind == ApprovalKind::Exec && approved_in(old(self).approved_list(), words(fingerprint@)))
                && !old(self).pending_ids().contains(call_id@) ==> r == ApprovalNeed::AwaitingDecision,
            r != ApprovalNeed::AwaitingDecision ==> final(self).event_log() == old(self).event_log()
                && final(self).approvals_log() == old(self).approvals_log()
                && final(self).pending_ids() == old(self).pending_ids(),
            r == ApprovalNeed::AwaitingDecision ==> {
                let log = final(self).event_log();
                &&& log.len() == old(self).event_log().len() + 1
                &&& log.last().id@ == sub_id@
                &&& is_request_for(log.last().msg, kind, call_id@, words(fingerprint@))
                &&& final(self).approvals_log() == old(self).approvals_log().push(ApprovalRecord::Requested(call_id@))
                &&& final(self).pending_ids() == old(self).pending_ids().insert(call_id@)
                &&& final(self).pending_entry(call_id@) == Some((kind, words(fingerprint@)))
            },
    {
        let id = match &self.active {
            Some(t) => if str_eq(t.sub_id.as_str(), sub_id) {
                Some(t.sub_id.clone())
            } else {
                None
            },
            None => None,
        };
        let id = match id {
            Some(id) => id,
            None => {
                return ApprovalNeed::Rejected;
            },
        };
        if kind == ApprovalKind::Exec && self.approved_exec(&fingerprint) {
            return ApprovalNeed::AutoApproved;
        }
        if self.find_pending(call_id.as_str()).is_some() {
            proof {
                assert(self.pending_ids().contains(call_id@));
            }
            return ApprovalNeed::Rejected;
        }
        proof {
            assert(!self.pending_ids().contains(call_id@));
        }
        let command = fingerprint.clone();
        proof {
            assert(words(command@) =~= words(fingerprint@)) by {
                assert forall|i: int| 0 <= i < fingerprint@.len() implies command@[i]@ == fingerprint@[i]@ by {
                    assert(cloned::<String>(fingerprint@[i], command@[i]));
                }
            }
        }
        let msg = match kind {
            ApprovalKind::Exec => EventMsg::ExecApprovalRequest { call_id: call_id.clone(), command },
            ApprovalKind::Patch => EventMsg::PatchApprovalRequest { call_id: call_id.clone() },
        };
        let ghost log0 = self.events@;
        let ghost sid = id@;
        let ghost mg = msg;
        self.push_event(Event { id, msg });
        let ghost alog0 = self.approval_log@;
        let ghost pend0 = self.pending@;
        self.approval_log = Ghost(alog0.push(ApprovalRecord::Requested(call_id@)));
        let ghost cid = call_id@;
        self.pending.push(PendingApproval { call_id, kind, fingerprint });
        proof {
            let log = self.events@;
            assert(log.drop_last() == log0);
            assert(log.last().msg == mg);
            assert forall|s: Seq<char>| #[trigger] running(log, s) == running(log0, s) by {}
            assert(open_calls(log, sid) == open_calls(log0, sid));
            assert(log0.is_prefix_of(log)) by {
                assert forall|k: int| 0 <= k < log0.len() implies log0[k] == log[k] by {}
            }
            let alog = self.approval_log@;
            assert(alog.drop_last() == alog0);
            let pend = self.pending@;
            assert(alog.last() == ApprovalRecord::Requested(cid));
            assert forall|x: Seq<char>| #[trigger] approval_pending(alog, x) <==> pending_has(pend, x) by {
                assert(approval_pending(alog0, x) <==> pending_has(pend0, x));
                if x != cid {
                    assert(approval_pending(alog, x) == approval_pending(alog0, x));
                    if pending_has(pend0, x) {
                        let i = choose|i: int| 0 <= i < pend0.len() && #[trigger] pend0[i].call_id@ == x;
                        assert(pend[i] == pend0[i]);
                    }
                    if pending_has(pend, x) {
                        let i = choose|i: int| 0 <= i < pend.len() && #[trigger] pend[i].call_id@ == x;
                        assert(i < pend0.len());
                        assert(pend[i] == pend0[i]);
                    }
                } else {
                    assert(pend[pend0.len() as int].call_id@ == cid);
                }
            }
            assert(pending_distinct(pend)) by {
                assert forall|i: int, j: int| 0 <= i < j < pend.len() implies #[trigger] pend[i].call_id@ != #[trigger] pend[j].call_id@ by {
                    if j == pend0.len() {
                        assert(pend[i] == pend0[i]);
                        assert(!pending_has(pend0, cid));
                    } else {
                        assert(pend[i] == pend0[i] && pend[j] == pend0[j]);
                    }
                }
            }
            assert(alog0.is_prefix_of(alog)) by {
                assert forall|k: int| 0 <= k < alog0.len() implies alog0[k] == alog[k] by {}
            }
            assert(self.pending_ids() =~= old(self).pending_ids().insert(cid)) by {
                assert forall|x: Seq<char>| pending_has(pend, x) <==> (pending_has(pend0, x) || x == cid) by {
                    if pending_has(pend0, x) {
                        let i = choose|i: int| 0 <= i < pend0.len() && #[trigger] pend0[i].call_id@ == x;
                        assert(pend[i] == pend0[i]);
                    }
                    if pending_has(pend, x) && x != cid {
                        let i = choose|i: int| 0 <= i < pend.len() && #[trigger] pend[i].call_id@ == x;
                        assert(pend[i] == pend0[i]);
                    }
                    if x == cid {
                        assert(pend[pend0.len() as int].call_id@ == cid);
                    }
                }
            }
            let n = pend0.len() as int;
            assert(pend[n].call_id@ == cid);
            let i = choose|i: int| 0 <= i < pend.len() && #[trigger] pend[i].call_id@ == cid;
            if i != n {
                assert(pend[i].call_id@ != pend[n].call_id@);
            }
        }
        ApprovalNeed::AwaitingDecision
    }

    /// Delivers the user's decision for call `call_id`, if a request for it
    /// waits. Approving a command for the session records its fingerprint.
    #[verifier::spinoff_prover]
    pub fn resolve_approval(&mut self, call_id: &str, decision: ReviewDecision) -> (r: Option<ReviewDecision>)
        requires
            old(self).wf(),
        ensures
            final(self).grows_from(old(self)),
            final(self).is_shut_down() == old(self).is_shut_down(),
            final(self).event_log() == old(self).event_log(),
            final(self).active_id() == old(self).active_id(),
            final(self).active_kind() == old(self).active_kind(),
            final(self).open_call_keys() == old(self).open_call_keys(),
            r is Some <==> old(self).pending_ids().contains(call_id@),
            r is None ==> final(self).approvals_log() == old(self).approvals_log()
                && final(self).approved_list() == old(self).approved_list()
                && final(self).pending_ids() == old(self).pending_ids(),
            r is Some ==> r == Some(decision)
                && final(self).approvals_log() == old(self).approvals_log().push(ApprovalRecord::Resolved(call_id@, decision))
                && final(self).pending_ids() == old(self).pending_ids().remove(call_id@),
            r is Some && decision == ReviewDecision::ApprovedForSession
                && old(self).pending_entry(call_id@).unwrap().0 == ApprovalKind::Exec
                ==> approved_in(final(self).approved_list(), old(self).pending_entry(call_id@).unwrap().1),
            r is None || !(decision == ReviewDecision::Denied || decision == ReviewDecision::Abort)
                ==> final(self).denied_keys() == old(self).denied_keys(),
            r is Some && (decision == ReviewDecision::Denied || decision == ReviewDecision::Abort)
                ==> final(self).denied_keys() == old(self).denied_keys().insert(
                    (call_kind_of(old(self).pending_entry(call_id@).unwrap().0), call_id@),
                ),
    {
        let idx = match self.find_pending(call_id) {
            Some(i) => i,
            None => {
                return None;
            },
        };
        let ghost pend0 = self.pending@;
        let ghost alog0 = self.approval_log@;
        let ghost cid = call_id@;
        proof {
            assert(approval_pending(alog0, cid));
            let i = choose|i: int| 0 <= i < pend0.len() && #[trigger] pend0[i].call_id@ == cid;
            if i != idx as int {
                assert(pend0[i].call_id@ != pend0[idx as int].call_id@);
            }
        }
        proof {
            assert(self.pending@.len() > 0);
        }
        let entry = self.pending.remove(idx);
        self.approval_log = Ghost(alog0.push(ApprovalRecord::Resolved(cid, decision)));
        let ghost sa0 = self.session_approvals@;
        let ghost denied0 = self.denied_keys();
        if decision == ReviewDecision::Denied || decision == ReviewDecision::Abort {
            let ck = match entry.kind {
                ApprovalKind::Exec => CallKind::Exec,
                ApprovalKind::Patch => CallKind::Patch,
            };
            let mut t = self.active.take().unwrap();
            let ghost d0 = t.denied@;
            let item = (ck, String::from_str(call_id));
            let ghost ig = item;
            t.denied.push(item);
            proof {
                lemma_keys_push(d0, ig);
            }
            self.active = Some(t);
        }
        let ghost denied0 = self.denied_keys();
        if decision == ReviewDecision::Denied || decision == ReviewDecision::Abort {
            let ck = match entry.kind {
                ApprovalKind::Exec => CallKind::Exec,
                ApprovalKind::Patch => CallKind::Patch,
            };
            let mut t = self.active.take().unwrap();
            let ghost d0 = t.denied@;
            let item = (ck, String::from_str(call_id));
            let ghost ig = item;
            t.denied.push(item);
            proof {
                lemma_keys_push(d0, ig);
            }
            self.active = Some(t);
        }
        if decision == ReviewDecision::ApprovedForSession && entry.kind == ApprovalKind::Exec {
            if !self.approved_exec(&entry.fingerprint) {
                let ghost fp = entry.fingerprint;
                self.session_approvals.push(entry.fingerprint);
                proof {
                    assert(self.session_approvals@[sa0.len() as int] == fp);
                }
            }
        }
        proof {
            let pend = self.pending@;
            let alog = self.approval_log@;
            assert(alog.drop_last() == alog0);
            assert(pend == pend0.remove(idx as int));
            assert(alog.last() == ApprovalRecord::Resolved(cid, decision));
            assert forall|x: Seq<char>| #[trigger] approval_pending(alog, x) <==> pending_has(pend, x) by {
                assert(approval_pending(alog0, x) <==> pending_has(pend0, x));
                if x != cid {
                    assert(approval_pending(alog, x) == approval_pending(alog0, x));
                    if pending_has(pend0, x) {
                        let i = choose|i: int| 0 <= i < pend0.len() && #[trigger] pend0[i].call_id@ == x;
                        assert(i != idx as int);
                        if i < idx as int {
                            assert(pend[i] == pend0[i]);
                        } else {
                            assert(pend[i - 1] == pend0[i]);
                        }
                    }
                    if pending_has(pend, x) {
                        let i = choose|i: int| 0 <= i < pend.len() && #[trigger] pend[i].call_id@ == x;
                        if i < idx as int {
                            assert(pend[i] == pend0[i]);
                        } else {
                            assert(pend[i] == pend0[i + 1]);
                        }
                    }
                } else {
                    if pending_has(pend, x) {
                        let i = choose|i: int| 0 <= i < pend.len() && #[trigger] pend[i].call_id@ == x;
                        if i < idx as int {
                            assert(pend[i] == pend0[i]);
                            assert(pend0[i].call_id@ != pend0[idx as int].call_id@);
                        } else {
                            assert(pend[i] == pend0[i + 1]);
                            assert(pend0[i + 1].call_id@ != pend0[idx as int].call_id@);
                        }
                    }
                }
            }
            assert(pending_distinct(pend)) by {
                assert forall|i: int, j: int| 0 <= i < j < pend.len() implies #[trigger] pend[i].call_id@ != #[trigger] pend[j].call_id@ by {
                    let i1 = if i < idx as int { i } else { i + 1 };
                    let j1 = if j < idx as int { j } else { j + 1 };
                    assert(pend[i] == pend0[i1] && pend[j] == pend0[j1]);
                }
            }
            assert(alog0.is_prefix_of(alog)) by {
                assert forall|k: int| 0 <= k < alog0.len() implies alog0[k] == alog[k] by {}
            }
            assert(sa0.is_prefix_of(self.session_approvals@)) by {
                assert forall|k: int| 0 <= k < sa0.len() implies sa0[k] == self.session_approvals@[k] by {}
            }
            assert(self.pending_ids() =~= old(self).pending_ids().remove(cid)) by {
                assert forall|x: Seq<char>| pending_has(pend, x) <==> (pending_has(pend0, x) && x != cid) by {
                    assert(approval_pending(alog, x) <==> pending_has(pend, x));
                    assert(approval_pending(alog0, x) <==> pending_has(pend0, x));
                }
            }
        if decision == ReviewDecision::ApprovedForSession && entry.kind == ApprovalKind::Exec {
                let fp = words(entry.fingerprint@);
                assert(old(self).pending_entry(cid).unwrap().1 == fp);
                if approved_in(sa0, fp) {
                    lemma_session_approval_monotone(sa0, self.session_approvals@, fp);
                }
                assert(approved_in(self.session_approvals@, fp));
            }
        }
        Some(decision)
    }

    /// The events emitted so far, in order.
    pub fn events(&self) -> (r: &Vec<Event>)
        ensures
            r@ == self.event_log(),
    {
        &self.events
    }

    /// The submission id of the running task, if any.
    pub fn active_sub_id(&self) -> (r: Option<&String>)
        ensures
            r is Some <==> self.active_id() is Some,
            r is Some ==> r.unwrap()@ == self.active_id().unwrap(),
    {
        match &self.active {
            Some(t) => Some(&t.sub_id),
            None => None,
        }
    }

    /// How many approval requests wait for a decision.
    pub fn pending_approval_count(&self) -> (r: usize)
        requires
            self.wf(),
        ensures
            r == self.pending_ids().len(),
    {
        proof {
            lemma_pending_ids_len(self.pending@);
        }
        self.pending.len()
    }
}

/// Whether the last reported usage calls for compaction: more than
/// `percent` percent of the context window is used.
pub fn should_compact(total_tokens: u64, context_window: u64, percent: u64) -> (r: bool)
    ensures
        r == (total_tokens as int * 100 > context_window as int * percent as int),
{
    proof {
        let w = context_window as int;
        let p = percent as int;
        assert(w * p <= 0xffff_ffff_ffff_ffff * 0xffff_ffff_ffff_ffff) by (nonlinear_arith)
            requires
                0 <= w <= 0xffff_ffff_ffff_ffff,
                0 <= p <= 0xffff_ffff_ffff_ffff,
        ;
    }
    (total_tokens as u128) * 100 > (context_window as u128) * (percent as u128)
}

impl Session {
    /// Appends an item to the conversation of the running task `sub_id`;
    /// nothing when that task does not run.
    pub fn record_history(&mut self, sub_id: &str, item: HistoryItem) -> (r: bool)
        requires
            old(self).wf(),
        ensures
            final(self).grows_from(old(self)),
            final(self).event_log() == old(self).event_log(),
            final(self).active_id() == old(self).active_id(),
            final(self).active_kind() == old(self).active_kind(),
            final(self).open_call_keys() == old(self).open_call_keys(),
            final(self).pending_ids() == old(self).pending_ids(),
            final(self).is_shut_down() == old(self).is_shut_down(),
            r == (old(self).active_id() == Some(sub_id@)),
            r ==> final(self).history() == old(self).history().push(item),
            !r ==> final(self).history() == old(self).history(),
    {
        let ok = match &self.active {
            Some(t) => str_eq(t.sub_id.as_str(), sub_id),
            None => false,
        };
        if ok {
            let ghost h0 = self.history@;
            self.history.push(item);
            proof {
                assert(h0.is_prefix_of(self.history@)) by {
                    assert forall|k: int| 0 <= k < h0.len() implies h0[k] == self.history@[k] by {}
                }
            }
        }
        ok
    }

    /// Ends a compaction: when the running task is the `Compact` task of
    /// `sub_id`, the conversation becomes `seed` followed by `summary`.
    /// Otherwise nothing changes.
    pub fn complete_compaction(&mut self, sub_id: &str, seed: Vec<HistoryItem>, summary: HistoryItem) -> (r: bool)
        requires
            old(self).wf(),
        ensures
            final(self).wf(),
            final(self).event_log() == old(self).event_log(),
            final(self).approvals_log() == old(self).approvals_log(),
            final(self).approved_list() == old(self).approved_list(),
            final(self).active_id() == old(self).active_id(),
            final(self).active_kind() == old(self).active_kind(),
            final(self).open_call_keys() == old(self).open_call_keys(),
            final(self).pending_ids() == old(self).pending_ids(),
            final(self).is_shut_down() == old(self).is_shut_down(),
            r == (old(self).active_id() == Some(sub_id@) && old(self).active_kind() == Some(TaskKind::Compact)),
            r ==> final(self).history() == seed@.push(summary),
            !r ==> final(self).history() == old(self).history(),
    {
        let ok = match &self.active {
            Some(t) => t.kind == TaskKind::Compact && str_eq(t.sub_id.as_str(), sub_id),
            None => false,
        };
        if ok {
            let mut h = seed;
            h.push(summary);
            self.history = h;
        }
        ok
    }

    /// The conversation so far.
    pub fn history_items(&self) -> (r: &Vec<HistoryItem>)
        ensures
            r@ == self.history(),
    {
        &self.history
    }
}

/// Every session reachable through this API has a valid event stream, a
/// valid approval history, and exactly its waiting requests pending.
pub proof fn lemma_session_laws(s: &Session)
    requires
        s.wf(),
    ensures
        trace_ok(s.event_log()),
        approvals_ok(s.approvals_log()),
        forall|id: Seq<char>| #[trigger] approval_pending(s.approvals_log(), id) <==> s.pending_ids().contains(id),
        forall|t: Seq<char>| #[trigger] running(s.event_log(), t) <==> s.active_id() == Some(t),
{
    assert forall|t: Seq<char>| #[trigger] running(s.event_log(), t) <==> s.active_id() == Some(t) by {
        assert(running(s.events@, t) <==> (s.active is Some && t == s.active.unwrap().sub_id@));
    }
}

/// When no request waits (as after an abort), every approval request made
/// in the session was resolved exactly once.
pub proof fn lemma_requests_resolved_when_none_wait(s: &Session, id: Seq<char>)
    requires
        s.wf(),
        s.pending_ids() == Set::<Seq<char>>::empty(),
    ensures
        requests_count(s.approvals_log(), id) == resolutions_count(s.approvals_log(), id),
{
    lemma_session_laws(s);
    assert(!s.pending_ids().contains(id));
    lemma_each_request_resolved_once(s.approvals_log(), id);
}

proof fn lemma_pending_ids_len(p: Seq<PendingApproval>)
    requires
        pending_distinct(p),
    ensures
        Set::new(|id: Seq<char>| pending_has(p, id)).len() == p.len(),
        Set::new(|id: Seq<char>| pending_has(p, id)).finite(),
    decreases p.len(),
{
    let s = Set::new(|id: Seq<char>| pending_has(p, id));
    if p.len() == 0 {
        assert(s =~= Set::empty());
    } else {
        let q = p.drop_last();
        assert(pending_distinct(q)) by {
            assert forall|i: int, j: int| 0 <= i < j < q.len() implies #[trigger] q[i].call_id@ != #[trigger] q[j].call_id@ by {
                assert(q[i] == p[i] && q[j] == p[j]);
            }
        }
        lemma_pending_ids_len(q);
        let t = Set::new(|id: Seq<char>| pending_has(q, id));
        let x = p.last().call_id@;
        assert(s =~= t.insert(x)) by {
            assert forall|id: Seq<char>| s.contains(id) <==> t.insert(x).contains(id) by {
                if s.contains(id) && id != x {
                    let i = choose|i: int| 0 <= i < p.len() && #[trigger] p[i].call_id@ == id;
                    assert(i < q.len());
                    assert(q[i] == p[i]);
                }
                if t.contains(id) {
                    let i = choose|i: int| 0 <= i < q.len() && #[trigger] q[i].call_id@ == id;
                    assert(p[i] == q[i]);
                }
                if id == x {
                    assert(p[p.len() - 1].call_id@ == x);
                }
            }
        }
        assert(!t.contains(x)) by {
            if t.contains(x) {
                let i = choose|i: int| 0 <= i < q.len() && #[trigger] q[i].call_id@ == x;
                assert(q[i] == p[i]);
                assert(p[i].call_id@ != p[p.len() - 1].call_id@);
            }
        }
    }
}

} // verus!

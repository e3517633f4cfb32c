//! The modal that asks the user to approve a command or a patch.
//!
//! It decides; the caller draws it and sends what it returns: decisions for
//! the core and lines for the history.

use crate::exec_events::command_text;
use crate::exec_events::command_text_exec;
use crate::protocol::ReviewDecision;
use crate::session::ApprovalKind;
use crate::text::str_eq;
use crate::text::words;
use vstd::prelude::*;

verus! {

/// Request coming from the agent that needs user approval.
#[derive(Debug, Clone)]
pub enum ApprovalRequest {
    Exec { id: String, command: Vec<String>, reason: Option<String> },
    ApplyPatch { id: String, reason: Option<String>, grant_root: Option<String> },
}

/// A line above the options.
#[derive(Debug, Clone, PartialEq, Eq)]
pub enum HeaderLine {
    Text { text: String, italic: bool },
    Spacer,
}

#[derive(Debug, Clone)]
pub enum ApprovalVariant {
    Exec { id: String, command: Vec<String> },
    ApplyPatch { id: String },
}

#[derive(Debug, Clone)]
pub struct ApprovalRequestState {
    pub variant: ApprovalVariant,
    pub header: Vec<HeaderLine>,
}

#[derive(Debug, Clone)]
pub struct ApprovalOption {
    pub label: String,
    pub description: String,
    pub decision: ReviewDecision,
    pub shortcut: Option<char>,
}

/// How a span of a history line is drawn.
#[derive(Debug, Clone, Copy, PartialEq, Eq, Structural)]
pub enum SpanStyle {
    Plain,
    Bold,
    Dim,
    Green,
    Red,
}

#[derive(Debug, Clone, PartialEq, Eq)]
pub struct StyledSpan {
    pub text: String,
    pub style: SpanStyle,
}

/// A decision for the core.
#[derive(Debug, Clone)]
pub enum Op {
    ExecApproval { id: String, decision: ReviewDecision },
    PatchApproval { id: String, decision: ReviewDecision },
}

/// What the overlay asks its owner to do.
#[derive(Debug, Clone)]
pub enum OverlayEffect {
    /// Insert one line, made of spans, into the history.
    InsertHistoryLine(Vec<StyledSpan>),
    /// Send a decision to the core.
    CodexOp(Op),
}

/// A key press as the overlay sees it.
#[derive(Debug, Clone, Copy, PartialEq, Eq, Structural)]
pub enum KeyInput {
    Char(char),
    Up,
    Down,
    Enter,
    Other,
}

#[derive(Debug, Clone, Copy, PartialEq, Eq, Structural)]
pub struct KeyEvent {
    pub key: KeyInput,
    pub control: bool,
    pub alt: bool,
    pub is_press: bool,
}

// ---------------------------------------------------------------------------
// Command snippets

/// The script of a `bash -lc SCRIPT` command.
pub open spec fn bash_lc_script(ws: Seq<Seq<char>>) -> Option<Seq<char>> {
    if ws.len() == 3 && ws[0] == "bash"@ && ws[1] == "-lc"@ {
        Some(ws[2])
    } else {
        None
    }
}

/// How a command is shown to the user: the script of `bash -lc`, else the
/// quoted command line.
pub open spec fn display_command(ws: Seq<Seq<char>>) -> Seq<char> {
    match bash_lc_script(ws) {
        Some(s) => s,
        None => command_text(ws),
    }
}

pub open spec fn find_char(s: Seq<char>, c: char, i: int) -> Option<int>
    decreases s.len() - i,
{
    if i < 0 || i >= s.len() {
        None
    } else if s[i] == c {
        Some(i)
    } else {
        find_char(s, c, i + 1)
    }
}

/// The first line, followed by ` ...` when more lines follow.
pub open spec fn first_line_snippet(t: Seq<char>) -> Seq<char> {
    match find_char(t, '\n', 0) {
        Some(i) => t.subrange(0, i) + " ..."@,
        None => t,
    }
}

/// At most `max` characters; a longer text keeps `max - 3` and ends in `...`.
pub open spec fn truncate_chars(t: Seq<char>, max: nat) -> Seq<char> {
    if t.len() <= max {
        t
    } else if max >= 3 {
        t.subrange(0, max - 3) + "..."@
    } else {
        t.subrange(0, max as int)
    }
}

pub open spec fn snippet_of(ws: Seq<Seq<char>>) -> Seq<char> {
    truncate_chars(first_line_snippet(display_command(ws)), 80)
}

fn display_command_exec(command: &Vec<String>) -> (r: String)
    ensures
        r@ == display_command(words(command@)),
{
    if command.len() == 3 && str_eq(command[0].as_str(), "bash") && str_eq(command[1].as_str(), "-lc") {
        proof {
            assert(words(command@)[0] == command@[0]@);
            assert(words(command@)[1] == command@[1]@);
            assert(words(command@)[2] == command@[2]@);
        }
        command[2].clone()
    } else {
        proof {
            if words(command@).len() == 3 {
                assert(words(command@)[0] == command@[0]@);
                assert(words(command@)[1] == command@[1]@);
            }
        }
        command_text_exec(command)
    }
}

fn first_line_snippet_exec(t: &str) -> (r: String)
    ensures
        r@ == first_line_snippet(t@),
{
    let n = t.unicode_len();
    let mut i: usize = 0;
    while i < n
        invariant
            n == t@.len(),
            i <= n,
            find_char(t@, '\n', 0) == find_char(t@, '\n', i as int),
        decreases n - i,
    {
        if t.get_char(i) == '\n' {
            let mut s = String::from_str(t.substring_char(0, i));
            s.append(" ...");
            return s;
        }
        i += 1;
    }
    String::from_str(t)
}

fn truncate_chars_exec(t: &str, max: usize) -> (r: String)
    ensures
        r@ == truncate_chars(t@, max as nat),
{
    let n = t.unicode_len();
    if n <= max {
        String::from_str(t)
    } else if max >= 3 {
        let mut s = String::from_str(t.substring_char(0, max - 3));
        s.append("...");
        s
    } else {
        String::from_str(t.substring_char(0, max))
    }
}

/// The snippet of a command shown in headers and history lines.
pub fn exec_snippet(command: &Vec<String>) -> (r: String)
    ensures
        r@ == snippet_of(words(command@)),
{
    let full = display_command_exec(command);
    truncate_exec_snippet(full.as_str())
}

/// The first line of a command, cut to 80 characters.
pub fn truncate_exec_snippet(full_cmd: &str) -> (r: String)
    ensures
        r@ == truncate_chars(first_line_snippet(full_cmd@), 80),
{
    let first = first_line_snippet_exec(full_cmd);
    truncate_chars_exec(first.as_str(), 80)
}


// ---------------------------------------------------------------------------
// Headers, options and history lines

pub open spec fn line_view(h: HeaderLine) -> Option<(Seq<char>, bool)> {
    match h {
        HeaderLine::Text { text, italic } => Some((text@, italic)),
        HeaderLine::Spacer => None,
    }
}

pub open spec fn header_view(h: Seq<HeaderLine>) -> Seq<Option<(Seq<char>, bool)>> {
    h.map_values(|l: HeaderLine| line_view(l))
}

/// A non-empty reason, in italics, then a spacer.
pub open spec fn reason_part(reason: Option<String>) -> Seq<Option<(Seq<char>, bool)>> {
    match reason {
        Some(r) => if r@.len() > 0 { seq![Some((r@, true)), None] } else { Seq::empty() },
        None => Seq::empty(),
    }
}

pub open spec fn command_part(snippet: Seq<char>) -> Seq<Option<(Seq<char>, bool)>> {
    if snippet.len() > 0 {
        seq![Some(("Command: "@ + snippet, false)), None]
    } else {
        Seq::empty()
    }
}

pub open spec fn grant_part(root: Option<String>) -> Seq<Option<(Seq<char>, bool)>> {
    match root {
        Some(p) => seq![Some(("Grant write access to "@ + p@ + " for the remainder of this session."@, false)), None],
        None => Seq::empty(),
    }
}

/// The header shown above the options of a request.
pub open spec fn request_header(req: ApprovalRequest) -> Seq<Option<(Seq<char>, bool)>> {
    match req {
        ApprovalRequest::Exec { command, reason, .. } => reason_part(reason) + command_part(snippet_of(words(command@))),
        ApprovalRequest::ApplyPatch { reason, grant_root, .. } => reason_part(reason) + grant_part(grant_root),
    }
}

/// Kind and call id of a request.
pub open spec fn request_key(req: ApprovalRequest) -> (ApprovalKind, Seq<char>) {
    match req {
        ApprovalRequest::Exec { id, .. } => (ApprovalKind::Exec, id@),
        ApprovalRequest::ApplyPatch { id, .. } => (ApprovalKind::Patch, id@),
    }
}

pub open spec fn variant_key(v: ApprovalVariant) -> (ApprovalKind, Seq<char>) {
    match v {
        ApprovalVariant::Exec { id, .. } => (ApprovalKind::Exec, id@),
        ApprovalVariant::ApplyPatch { id } => (ApprovalKind::Patch, id@),
    }
}

fn push_reason(header: &mut Vec<HeaderLine>, reason: Option<String>)
    ensures
        header_view(final(header)@) == header_view(old(header)@) + reason_part(reason),
{
    let ghost r0 = reason;
    if let Some(r) = reason {
        if r.unicode_len() > 0 {
            header.push(HeaderLine::Text { text: r, italic: true });
            header.push(HeaderLine::Spacer);
            proof {
                assert(header_view(header@) =~= header_view(old(header)@) + reason_part(r0));
            }
            return;
        }
    }
    proof {
        assert(header_view(header@) =~= header_view(old(header)@) + reason_part(r0));
    }
}

impl ApprovalRequestState {
    /// The state shown for a request: its header and what identifies it.
    #[verifier::spinoff_prover]
    pub fn from_request(value: ApprovalRequest) -> (r: Self)
        ensures
            header_view(r.header@) == request_header(value),
            variant_key(r.variant) == request_key(value),
            value is Exec ==> r.variant is Exec,
            value is ApplyPatch ==> r.variant is ApplyPatch,
            match (value, r.variant) {
                (ApprovalRequest::Exec { command, .. }, ApprovalVariant::Exec { command: c, .. }) => c@ == command@,
                _ => true,
            },
    {
        let ghost v0 = value;
        match value {
            ApprovalRequest::Exec { id, command, reason } => {
                let mut header: Vec<HeaderLine> = Vec::new();
                push_reason(&mut header, reason);
                let command_snippet = exec_snippet(&command);
                let ghost h1 = header@;
                if command_snippet.unicode_len() > 0 {
                    let mut text = String::from_str("Command: ");
                    text.append(command_snippet.as_str());
                    header.push(HeaderLine::Text { text, italic: false });
                    header.push(HeaderLine::Spacer);
                }
                proof {
                    assert(header_view(header@) =~= header_view(h1) + command_part(command_snippet@));
                    assert(header_view(Seq::<HeaderLine>::empty()) =~= Seq::empty());
                    assert(header_view(header@) =~= request_header(v0));
                }
                ApprovalRequestState { variant: ApprovalVariant::Exec { id, command }, header }
            },
            ApprovalRequest::ApplyPatch { id, reason, grant_root } => {
                let mut header: Vec<HeaderLine> = Vec::new();
                push_reason(&mut header, reason);
                let ghost h1 = header@;
                let ghost g0 = grant_root;
                if let Some(root) = grant_root {
                    let mut text = String::from_str("Grant write access to ");
                    text.append(root.as_str());
                    text.append(" for the remainder of this session.");
                    header.push(HeaderLine::Text { text, italic: false });
                    header.push(HeaderLine::Spacer);
                }
                proof {
                    assert(header_view(header@) =~= header_view(h1) + grant_part(g0));
                    assert(header_view(Seq::<HeaderLine>::empty()) =~= Seq::empty());
                    assert(header_view(header@) =~= request_header(v0));
                }
                ApprovalRequestState { variant: ApprovalVariant::ApplyPatch { id }, header }
            },
        }
    }
}

pub open spec fn decisions_of(v: Seq<ApprovalOption>) -> Seq<ReviewDecision> {
    v.map_values(|o: ApprovalOption| o.decision)
}

pub open spec fn shortcuts_of(v: Seq<ApprovalOption>) -> Seq<Option<char>> {
    v.map_values(|o: ApprovalOption| o.shortcut)
}

pub open spec fn exec_decisions() -> Seq<ReviewDecision> {
    seq![ReviewDecision::Approved, ReviewDecision::ApprovedForSession, ReviewDecision::Abort]
}

pub open spec fn patch_decisions() -> Seq<ReviewDecision> {
    seq![ReviewDecision::Approved, ReviewDecision::Abort]
}

fn option(label: &str, description: &str, decision: ReviewDecision, shortcut: char) -> (r: ApprovalOption)
    ensures
        r.label@ == label@,
        r.description@ == description@,
        r.decision == decision,
        r.shortcut == Some(shortcut),
{
    ApprovalOption {
        label: String::from_str(label),
        description: String::from_str(description),
        decision,
        shortcut: Some(shortcut),
    }
}

/// Run once (y), approve for the session (a), or cancel (n).
pub fn exec_options() -> (r: Vec<ApprovalOption>)
    ensures
        decisions_of(r@) == exec_decisions(),
        shortcuts_of(r@) == seq![Some('y'), Some('a'), Some('n')],
{
    let r = vec![
        option("Approve and run now", "(Y) Run this command one time", ReviewDecision::Approved, 'y'),
        option(
            "Always approve this session",
            "(A) Automatically approve this command for the rest of the session",
            ReviewDecision::ApprovedForSession,
            'a',
        ),
        option("Cancel", "(N) Do not run the command", ReviewDecision::Abort, 'n'),
    ];
    proof {
        assert(decisions_of(r@) =~= exec_decisions());
        assert(shortcuts_of(r@) =~= seq![Some('y'), Some('a'), Some('n')]);
    }
    r
}

/// Apply (y) or cancel (n).
pub fn patch_options() -> (r: Vec<ApprovalOption>)
    ensures
        decisions_of(r@) == patch_decisions(),
        shortcuts_of(r@) == seq![Some('y'), Some('n')],
{
    let r = vec![
        option("Approve", "(Y) Apply the proposed changes", ReviewDecision::Approved, 'y'),
        option("Cancel", "(N) Do not apply the changes", ReviewDecision::Abort, 'n'),
    ];
    proof {
        assert(decisions_of(r@) =~= patch_decisions());
        assert(shortcuts_of(r@) =~= seq![Some('y'), Some('n')]);
    }
    r
}

pub open spec fn spans_view(v: Seq<StyledSpan>) -> Seq<(Seq<char>, SpanStyle)> {
    v.map_values(|s: StyledSpan| (s.text@, s.style))
}

/// The history line that records the user's decision on a command.
pub open spec fn decision_line(snippet: Seq<char>, decision: ReviewDecision) -> Seq<(Seq<char>, SpanStyle)> {
    match decision {
        ReviewDecision::Approved => seq![
            ("✔ "@, SpanStyle::Green), ("You "@, SpanStyle::Plain), ("approved"@, SpanStyle::Bold),
            (" codex to run "@, SpanStyle::Plain), (snippet, SpanStyle::Dim), (" this time"@, SpanStyle::Bold)
        ],
        ReviewDecision::ApprovedForSession => seq![
            ("✔ "@, SpanStyle::Green), ("You "@, SpanStyle::Plain), ("approved"@, SpanStyle::Bold),
            (" codex to run "@, SpanStyle::Plain), (snippet, SpanStyle::Dim), (" every time this session"@, SpanStyle::Bold)
        ],
        ReviewDecision::Denied => seq![
            ("✗ "@, SpanStyle::Red), ("You "@, SpanStyle::Plain), ("did not approve"@, SpanStyle::Bold),
            (" codex to run "@, SpanStyle::Plain), (snippet, SpanStyle::Dim)
        ],
        ReviewDecision::Abort => seq![
            ("✗ "@, SpanStyle::Red), ("You "@, SpanStyle::Plain), ("canceled"@, SpanStyle::Bold),
            (" the request to run "@, SpanStyle::Plain), (snippet, SpanStyle::Dim)
        ],
    }
}

fn span(text: &str, style: SpanStyle) -> (r: StyledSpan)
    ensures
        r.text@ == text@,
        r.style == style,
{
    StyledSpan { text: String::from_str(text), style }
}

/// The lines recording a decision on `command`: always one line.
pub fn build_exec_history_lines(command: &Vec<String>, decision: ReviewDecision) -> (r: Option<Vec<Vec<StyledSpan>>>)
    ensures
        r is Some,
        r.unwrap()@.len() == 1,
        spans_view(r.unwrap()@[0]@) == decision_line(snippet_of(words(command@)), decision),
{
    let snippet = exec_snippet(command);
    let snip = StyledSpan { text: snippet, style: SpanStyle::Dim };
    let (symbol, summary): (StyledSpan, Vec<StyledSpan>) = match decision {
        ReviewDecision::Approved => (
            span("✔ ", SpanStyle::Green),
            vec![span("You ", SpanStyle::Plain), span("approved", SpanStyle::Bold), span(" codex to run ", SpanStyle::Plain), snip, span(" this time", SpanStyle::Bold)],
        ),
        ReviewDecision::ApprovedForSession => (
            span("✔ ", SpanStyle::Green),
            vec![span("You ", SpanStyle::Plain), span("approved", SpanStyle::Bold), span(" codex to run ", SpanStyle::Plain), snip, span(" every time this session", SpanStyle::Bold)],
        ),
        ReviewDecision::Denied => (
            span("✗ ", SpanStyle::Red),
            vec![span("You ", SpanStyle::Plain), span("did not approve", SpanStyle::Bold), span(" codex to run ", SpanStyle::Plain), snip],
        ),
        ReviewDecision::Abort => (
            span("✗ ", SpanStyle::Red),
            vec![span("You ", SpanStyle::Plain), span("canceled", SpanStyle::Bold), span(" the request to run ", SpanStyle::Plain), snip],
        ),
    };
    let mut spans: Vec<StyledSpan> = Vec::new();
    spans.push(symbol);
    let mut summary = summary;
    spans.append(&mut summary);
    proof {
        assert(spans_view(spans@) =~= decision_line(snippet_of(words(command@)), decision));
    }
    let mut lines: Vec<Vec<StyledSpan>> = Vec::new();
    lines.push(spans);
    Some(lines)
}


// ---------------------------------------------------------------------------
// The overlay

/// The decisions among `effects`, as kind, call id and decision.
pub open spec fn ops_in(effects: Seq<OverlayEffect>) -> Seq<(ApprovalKind, Seq<char>, ReviewDecision)>
    decreases effects.len(),
{
    if effects.len() == 0 {
        Seq::empty()
    } else {
        let rest = ops_in(effects.drop_last());
        match effects.last() {
            OverlayEffect::CodexOp(Op::ExecApproval { id, decision }) => rest.push((ApprovalKind::Exec, id@, decision)),
            OverlayEffect::CodexOp(Op::PatchApproval { id, decision }) => rest.push((ApprovalKind::Patch, id@, decision)),
            _ => rest,
        }
    }
}

pub open spec fn ascii_lower(c: char) -> char {
    if 'A' <= c && c <= 'Z' {
        ((c as u8) + 32) as char
    } else {
        c
    }
}

fn ascii_lower_exec(c: char) -> (r: char)
    ensures
        r == ascii_lower(c),
{
    if 'A' <= c && c <= 'Z' {
        ((c as u8) + 32) as char
    } else {
        c
    }
}

/// Modal overlay asking the user to approve or deny one or more requests.
pub struct ApprovalOverlay {
    current: Option<ApprovalRequestState>,
    queue: Vec<ApprovalRequest>,
    options: Vec<ApprovalOption>,
    selected: usize,
    current_complete: bool,
    done: bool,
}

impl ApprovalOverlay {
    pub closed spec fn wf(&self) -> bool {
        &&& self.current is Some
        &&& decisions_of(self.options@) == if self.current.unwrap().variant is Exec { exec_decisions() } else { patch_decisions() }
        &&& self.selected < self.options@.len()
    }

    pub closed spec fn is_done(&self) -> bool {
        self.done
    }

    pub closed spec fn current_answered(&self) -> bool {
        self.current_complete
    }

    pub closed spec fn queued(&self) -> Seq<ApprovalRequest> {
        self.queue@
    }

    /// Kind and call id of the request shown.
    pub closed spec fn current_key(&self) -> (ApprovalKind, Seq<char>) {
        variant_key(self.current.unwrap().variant)
    }

    /// The decisions offered, in order.
    pub closed spec fn offered(&self) -> Seq<ReviewDecision> {
        decisions_of(self.options@)
    }

    pub closed spec fn selected_index(&self) -> int {
        self.selected as int
    }

    /// The header of the request shown.
    pub closed spec fn current_header(&self) -> Seq<Option<(Seq<char>, bool)>> {
        header_view(self.current.unwrap().header@)
    }

    /// The same overlay but for the selected option.
    pub open spec fn same_except_selection(&self, other: ApprovalOverlay) -> bool {
        &&& self.offered() == other.offered()
        &&& self.offered_shortcuts() == other.offered_shortcuts()
        &&& self.current_key() == other.current_key()
        &&& self.current_header() == other.current_header()
        &&& self.current_answered() == other.current_answered()
        &&& self.is_done() == other.is_done()
        &&& self.queued() == other.queued()
    }

    /// The shortcut letters of the options offered, in order.
    pub closed spec fn offered_shortcuts(&self) -> Seq<Option<char>> {
        shortcuts_of(self.options@)
    }

    fn build_options(state: &ApprovalRequestState) -> (r: (Vec<ApprovalOption>, String))
        ensures
            r.0@.len() >= 2,
            shortcuts_of(r.0@).len() == r.0@.len(),
            decisions_of(r.0@) == if state.variant is Exec { exec_decisions() } else { patch_decisions() },
            r.1@ == if state.variant is Exec { "Allow command?"@ } else { "Apply changes?"@ },
    {
        let r = match &state.variant {
            ApprovalVariant::Exec { .. } => (exec_options(), String::from_str("Allow command?")),
            ApprovalVariant::ApplyPatch { .. } => (patch_options(), String::from_str("Apply changes?")),
        };
        proof {
            assert(decisions_of(r.0@).len() == r.0@.len());
            assert(exec_decisions().len() == 3 && patch_decisions().len() == 2);
        }
        r
    }

    pub fn new(request: ApprovalRequest) -> (r: Self)
        ensures
            r.wf(),
            !r.is_done(),
            !r.current_answered(),
            r.queued().len() == 0,
            r.current_key() == request_key(request),
            r.current_header() == request_header(request),
            r.offered() == if request is Exec { exec_decisions() } else { patch_decisions() },
            r.selected_index() == 0,
    {
        let state = ApprovalRequestState::from_request(request);
        let (options, _title) = Self::build_options(&state);
        ApprovalOverlay { current: Some(state), queue: Vec::new(), options, selected: 0, current_complete: false, done: false }
    }

    /// The title above the options.
    pub fn title(&self) -> (r: String)
        requires
            self.wf(),
        ensures
            r@ == if self.current_key().0 == ApprovalKind::Exec { "Allow command?"@ } else { "Apply changes?"@ },
    {
        match &self.current {
            Some(state) => Self::build_options(state).1,
            None => String::new(),
        }
    }

    pub fn enqueue_request(&mut self, req: ApprovalRequest)
        requires
            old(self).wf(),
        ensures
            final(self).wf(),
            final(self).queued() == old(self).queued().push(req),
            final(self).is_done() == old(self).is_done(),
            final(self).current_answered() == old(self).current_answered(),
            final(self).current_key() == old(self).current_key(),
            final(self).offered() == old(self).offered(),
            final(self).selected_index() == old(self).selected_index(),
    {
        self.queue.push(req);
    }

    /// Takes a request while the overlay is shown; it waits in the queue.
    pub fn try_consume_approval_request(&mut self, request: ApprovalRequest) -> (r: Option<ApprovalRequest>)
        requires
            old(self).wf(),
        ensures
            r is None,
            final(self).wf(),
            final(self).queued() == old(self).queued().push(request),
            final(self).is_done() == old(self).is_done(),
    {
        self.enqueue_request(request);
        None
    }

    /// How many requests wait behind the one shown.
    pub fn queued_count(&self) -> (r: usize)
        ensures
            r == self.queued().len(),
    {
        self.queue.len()
    }

    pub fn is_complete(&self) -> (r: bool)
        ensures
            r == self.is_done(),
    {
        self.done
    }

    fn set_current(&mut self, request: ApprovalRequest)
        ensures
            final(self).wf(),
            final(self).current_key() == request_key(request),
            final(self).current_header() == request_header(request),
            !final(self).current_answered(),
            final(self).selected_index() == 0,
            final(self).queue == old(self).queue,
            final(self).done == old(self).done,
    {
        let state = ApprovalRequestState::from_request(request);
        let (options, _title) = Self::build_options(&state);
        self.current = Some(state);
        self.options = options;
        self.selected = 0;
        self.current_complete = false;
    }

    /// Shows the most recently queued request, or finishes when none waits.
    fn advance_queue(&mut self)
        requires
            old(self).wf(),
        ensures
            final(self).wf(),
            old(self).queue@.len() == 0 ==> final(self).done && final(self).queue@.len() == 0
                && final(self).current_complete == old(self).current_complete,
            old(self).queue@.len() > 0 ==> final(self).queue@ == old(self).queue@.drop_last()
                && final(self).current_key() == request_key(old(self).queue@.last())
                && !final(self).current_complete
                && final(self).done == old(self).done,
    {
        match self.queue.pop() {
            Some(next) => self.set_current(next),
            None => {
                self.done = true;
            },
        }
    }

    fn decision_effects(state: &ApprovalRequestState, decision: ReviewDecision) -> (r: Vec<OverlayEffect>)
        ensures
            ops_in(r@) == seq![(variant_key(state.variant).0, variant_key(state.variant).1, decision)],
    {
        match &state.variant {
            ApprovalVariant::Exec { id, command } => {
                let mut effects: Vec<OverlayEffect> = Vec::new();
                let mut lines = build_exec_history_lines(command, decision).unwrap();
                let line = lines.pop().unwrap();
                effects.push(OverlayEffect::InsertHistoryLine(line));
                let ghost e0 = effects@;
                effects.push(OverlayEffect::CodexOp(Op::ExecApproval { id: id.clone(), decision }));
                proof {
                    assert(effects@.drop_last() == e0);
                    assert(e0.drop_last() =~= Seq::<OverlayEffect>::empty());
                    assert(e0.last() is InsertHistoryLine);
                    assert(ops_in(e0.drop_last()) =~= Seq::empty());
                    assert(ops_in(e0) =~= Seq::empty());
                }
                effects
            },
            ApprovalVariant::ApplyPatch { id } => {
                let mut effects: Vec<OverlayEffect> = Vec::new();
                effects.push(OverlayEffect::CodexOp(Op::PatchApproval { id: id.clone(), decision }));
                proof {
                    assert(effects@.drop_last() =~= Seq::<OverlayEffect>::empty());
                    assert(ops_in(effects@.drop_last()) =~= Seq::empty());
                }
                effects
            },
        }
    }

    /// Answers the request shown with option `idx`, then moves to the next
    /// queued request. Nothing happens once it was answered or for an index
    /// out of range.
    pub fn apply_selection(&mut self, idx: usize) -> (r: Vec<OverlayEffect>)
        requires
            old(self).wf(),
        ensures
            final(self).wf(),
            old(self).current_answered() || idx >= old(self).offered().len() ==> r@.len() == 0
                && final(self).current_key() == old(self).current_key()
                && final(self).queued() == old(self).queued()
                && final(self).is_done() == old(self).is_done()
                && final(self).current_answered() == old(self).current_answered(),
            !old(self).current_answered() && idx < old(self).offered().len() ==> {
                &&& ops_in(r@) == seq![(old(self).current_key().0, old(self).current_key().1, old(self).offered()[idx as int])]
                &&& old(self).queued().len() == 0 ==> final(self).is_done() && final(self).current_answered()
                &&& old(self).queued().len() > 0 ==> !final(self).current_answered()
                    && final(self).queued() == old(self).queued().drop_last()
                    && final(self).current_key() == request_key(old(self).queued().last())
                    && final(self).is_done() == old(self).is_done()
            },
    {
        if self.current_complete || idx >= self.options.len() {
            return Vec::new();
        }
        let decision = self.options[idx].decision;
        let effects = match &self.current {
            Some(state) => Self::decision_effects(state, decision),
            None => Vec::new(),
        };
        self.current_complete = true;
        self.advance_queue();
        effects
    }

    /// A plain letter that is an option's shortcut answers with that option.
    #[verifier::spinoff_prover]
    pub fn try_handle_shortcut(&mut self, key_event: &KeyEvent) -> (r: (bool, Vec<OverlayEffect>))
        requires
            old(self).wf(),
        ensures
            final(self).wf(),
            r.1@.len() > 0 ==> !old(self).current_answered(),
            !r.0 ==> *final(self) == *old(self),
            !r.0 ==> r.1@.len() == 0 && final(self).current_key() == old(self).current_key()
                && final(self).queued() == old(self).queued() && final(self).is_done() == old(self).is_done()
                && final(self).current_answered() == old(self).current_answered()
                && final(self).selected_index() == old(self).selected_index(),
            r.0 ==> key_event.is_press && !key_event.control && !key_event.alt && key_event.key is Char,
            r.0 ==> exists|i: int| 0 <= i < old(self).offered().len()
                && old(self).offered_shortcuts()[i] == Some(ascii_lower(key_event.key->Char_0))
                && (!old(self).current_answered() ==> ops_in(r.1@) == seq![(old(self).current_key().0, old(self).current_key().1, old(self).offered()[i])]),
            !r.0 && key_event.is_press && !key_event.control && !key_event.alt && key_event.key is Char ==>
                forall|i: int| 0 <= i < old(self).offered().len() ==> old(self).offered_shortcuts()[i] != Some(ascii_lower(key_event.key->Char_0)),
    {
        if !key_event.is_press || key_event.control || key_event.alt {
            return (false, Vec::new());
        }
        let c = match key_event.key {
            KeyInput::Char(c) => c,
            _ => {
                return (false, Vec::new());
            },
        };
        let lower = ascii_lower_exec(c);
        let mut i: usize = 0;
        while i < self.options.len()
            invariant
                i <= self.options@.len(),
                self.wf(),
                self.current == old(self).current,
                self.queue == old(self).queue,
                self.options == old(self).options,
                self.selected == old(self).selected,
                self.current_complete == old(self).current_complete,
                self.done == old(self).done,
                key_event.is_press && !key_event.control && !key_event.alt && key_event.key is Char,
                lower == ascii_lower(key_event.key->Char_0),
                forall|j: int| 0 <= j < i ==> shortcuts_of(self.options@)[j] != Some(lower),
            decreases self.options@.len() - i,
        {
            if self.options[i].shortcut == Some(lower) {
                proof {
                    assert(shortcuts_of(self.options@)[i as int] == Some(lower));
                    assert(decisions_of(self.options@).len() == self.options@.len());
                }
                let effects = self.apply_selection(i);
                return (true, effects);
            }
            i += 1;
        }
        (false, Vec::new())
    }

    /// Shortcuts first; otherwise Up and Down move the selection (wrapping)
    /// and Enter answers with the selected option.
    #[verifier::spinoff_prover]
    pub fn handle_key_event(&mut self, key_event: KeyEvent) -> (r: Vec<OverlayEffect>)
        requires
            old(self).wf(),
        ensures
            final(self).wf(),
            !key_event.is_press ==> r@.len() == 0 && *final(self) == *old(self),
            key_event.is_press && key_event.key is Down ==> r@.len() == 0
                && final(self).same_except_selection(*old(self))
                && final(self).selected_index() == (old(self).selected_index() + 1) % (old(self).offered().len() as int),
            key_event.is_press && key_event.key is Up ==> r@.len() == 0
                && final(self).same_except_selection(*old(self))
                && final(self).selected_index() == (old(self).selected_index() + old(self).offered().len() - 1) % (old(self).offered().len() as int),
            key_event.is_press && key_event.key is Other ==> r@.len() == 0 && *final(self) == *old(self),
            key_event.is_press && key_event.key is Char && (key_event.control || key_event.alt) ==> r@.len() == 0
                && *final(self) == *old(self),
            key_event.is_press && !key_event.control && !key_event.alt && key_event.key is Char ==> {
                let c = ascii_lower(key_event.key->Char_0);
                &&& (forall|i: int| 0 <= i < old(self).offered().len() ==> old(self).offered_shortcuts()[i] != Some(c))
                    ==> r@.len() == 0 && *final(self) == *old(self)
                &&& (exists|i: int| 0 <= i < old(self).offered().len() && old(self).offered_shortcuts()[i] == Some(c))
                    ==> exists|i: int| 0 <= i < old(self).offered().len() && old(self).offered_shortcuts()[i] == Some(c)
                    && (!old(self).current_answered() ==> ops_in(r@)
                        == seq![(old(self).current_key().0, old(self).current_key().1, old(self).offered()[i])])
            },
            key_event.is_press && key_event.key is Enter && !old(self).current_answered() ==> ops_in(r@)
                == seq![(old(self).current_key().0, old(self).current_key().1, old(self).offered()[old(self).selected_index()])],
            key_event.is_press && key_event.key is Enter && old(self).current_answered() ==> r@.len() == 0,
            key_event.is_press && key_event.key is Enter && !old(self).current_answered()
                && old(self).queued().len() == 0 ==> final(self).is_done(),
            key_event.is_press && key_event.key is Enter && !old(self).current_answered()
                && old(self).queued().len() > 0 ==> final(self).is_done() == old(self).is_done()
                && final(self).current_key() == request_key(old(self).queued().last()),
            r@.len() > 0 ==> !old(self).current_answered(),
    {
        let (handled, effects) = self.try_handle_shortcut(&key_event);
        if handled {
            return effects;
        }
        if !key_event.is_press {
            return Vec::new();
        }
        let n = self.options.len();
        match key_event.key {
            KeyInput::Up => {
                let old_sel = self.selected;
                self.selected = if self.selected == 0 {
                    n - 1
                } else {
                    self.selected - 1
                };
                proof {
                    assert(decisions_of(self.options@).len() == n);
                    let k = old_sel as int;
                    let m = n as int;
                    if k == 0 {
                        assert((k + m - 1) % m == m - 1) by (nonlinear_arith)
                            requires
                                k == 0,
                                m >= 1,
                        ;
                    } else {
                        assert((k + m - 1) % m == k - 1) by (nonlinear_arith)
                            requires
                                1 <= k < m,
                        ;
                    }
                }
                Vec::new()
            },
            KeyInput::Down => {
                let old_sel = self.selected;
                self.selected = if self.selected + 1 >= n {
                    0
                } else {
                    self.selected + 1
                };
                proof {
                    assert(decisions_of(self.options@).len() == n);
                    let k = old_sel as int;
                    let m = n as int;
                    if k + 1 >= m {
                        assert((k + 1) % m == 0) by (nonlinear_arith)
                            requires
                                k + 1 == m,
                                m >= 1,
                        ;
                    } else {
                        assert((k + 1) % m == k + 1) by (nonlinear_arith)
                            requires
                                0 <= k,
                                k + 1 < m,
                        ;
                    }
                }
                Vec::new()
            },
            KeyInput::Enter => self.apply_selection(self.selected),
            _ => Vec::new(),
        }
    }

    /// Ctrl-C cancels: an unanswered request is answered with `Abort`, the
    /// queue is dropped and the overlay finishes.
    pub fn on_ctrl_c(&mut self) -> (r: Vec<OverlayEffect>)
        requires
            old(self).wf(),
        ensures
            final(self).wf(),
            final(self).is_done(),
            old(self).is_done() ==> r@.len() == 0 && final(self).queued() == old(self).queued(),
            !old(self).is_done() ==> final(self).queued().len() == 0,
            !old(self).is_done() && !old(self).current_answered() ==> ops_in(r@)
                == seq![(old(self).current_key().0, old(self).current_key().1, ReviewDecision::Abort)],
            !old(self).is_done() && old(self).current_answered() ==> r@.len() == 0,
    {
        if self.done {
            return Vec::new();
        }
        let effects = if !self.current_complete {
            match &self.current {
                Some(state) => Self::decision_effects(state, ReviewDecision::Abort),
                None => Vec::new(),
            }
        } else {
            Vec::new()
        };
        self.queue.clear();
        self.done = true;
        effects
    }

    /// The header lines of the request shown.
    pub fn header(&self) -> (r: &Vec<HeaderLine>)
        requires
            self.wf(),
        ensures
            header_view(r@) == self.current_header(),
    {
        &self.current.as_ref().unwrap().header
    }

    pub fn options(&self) -> (r: &Vec<ApprovalOption>)
        ensures
            decisions_of(r@) == self.offered(),
    {
        &self.options
    }
}

} // verus!

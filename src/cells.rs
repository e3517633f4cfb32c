//! Decisions behind the history cells of the terminal frontend: how long
//! output is shortened, how wide a card is, where a reasoning summary's
//! header ends, and the state of an MCP tool call. Lines are held as their
//! text; drawing them happens elsewhere.

use crate::config::McpServerConfig;
use crate::config::McpServerTransportConfig;
use crate::config::ReasoningSummaryFormat;
use crate::config::Timeout;
use crate::mcp::McpCallOutcome;
use crate::presets::ReasoningEffort;
use crate::protocol::PlanItemArg;
use crate::protocol::StepStatus;
use crate::text::decimal;
use crate::text::join_sep;
use crate::text::join_with;
use crate::text::push_decimal;
use crate::text::sort_strings;
use crate::text::sorted;
use crate::text::starts_with;
use crate::text::starts_with_exec;
use crate::text::str_eq;
use crate::text::words;
use serde_json::Value;
use unicode_width::UnicodeWidthStr;
use vstd::prelude::*;
use vstd::std_specs::iter::IteratorSpec;

verus! {

/// The line that stands for `omitted` lines left out.
pub open spec fn ellipsis_text(omitted: nat) -> Seq<char> {
    "… +"@ + decimal(omitted) + " lines"@
}

pub fn ellipsis_line(omitted: usize) -> (r: String)
    ensures
        r@ == ellipsis_text(omitted as nat),
{
    let mut s = String::from_str("… +");
    push_decimal(&mut s, omitted as u64);
    s.append(" lines");
    s
}

pub open spec fn views(v: Seq<String>) -> Seq<Seq<char>> {
    v.map_values(|s: String| s@)
}

/// The first `keep` lines, then one line counting the rest.
pub open spec fn limited_from_start(lines: Seq<Seq<char>>, keep: nat) -> Seq<Seq<char>> {
    if lines.len() <= keep {
        lines
    } else {
        lines.subrange(0, keep as int).push(ellipsis_text((lines.len() - keep) as nat))
    }
}

/// At most `max` lines: the head and the tail, with one line counting what
/// was left out of the middle; the head gets the smaller half.
pub open spec fn truncated_middle(lines: Seq<Seq<char>>, max: nat) -> Seq<Seq<char>> {
    if max == 0 {
        Seq::empty()
    } else if lines.len() <= max {
        lines
    } else if max == 1 {
        seq![ellipsis_text(lines.len())]
    } else {
        let head = ((max - 1) / 2) as int;
        let tail = (max - 1 - head) as int;
        lines.subrange(0, head).push(ellipsis_text((lines.len() - head - tail) as nat))
            + lines.subrange(lines.len() - tail, lines.len() as int)
    }
}

fn copy_lines(lines: &Vec<String>, from: usize, to: usize, out: &mut Vec<String>)
    requires
        from <= to <= lines@.len(),
    ensures
        views(final(out)@) == views(old(out)@) + views(lines@.subrange(from as int, to as int)),
{
    let mut i = from;
    while i < to
        invariant
            from <= i <= to <= lines@.len(),
            views(out@) == views(old(out)@) + views(lines@.subrange(from as int, i as int)),
        decreases to - i,
    {
        let ghost prev = out@;
        let c = lines[i].clone();
        out.push(c);
        proof {
            assert(views(out@) =~= views(prev).push(lines@[i as int]@));
            assert(views(lines@.subrange(from as int, i as int + 1)) =~= views(lines@.subrange(from as int, i as int)).push(lines@[i as int]@));
            assert(views(out@) =~= views(old(out)@) + views(lines@.subrange(from as int, i as int + 1)));
        }
        i += 1;
    }
}

pub fn limit_lines_from_start(lines: &Vec<String>, keep: usize) -> (r: Vec<String>)
    ensures
        views(r@) == limited_from_start(views(lines@), keep as nat),
{
    let mut out: Vec<String> = Vec::new();
    if lines.len() <= keep {
        copy_lines(lines, 0, lines.len(), &mut out);
        proof {
            assert(lines@.subrange(0, lines@.len() as int) == lines@);
            assert(views(out@) =~= views(lines@));
        }
        return out;
    }
    copy_lines(lines, 0, keep, &mut out);
    let ghost prev = out@;
    let e = ellipsis_line(lines.len() - keep);
    out.push(e);
    proof {
        assert(views(out@) =~= views(prev).push(e@));
        assert(views(Seq::<String>::empty()) =~= Seq::empty());
        assert(views(lines@).subrange(0, keep as int) =~= views(lines@.subrange(0, keep as int)));
        assert(views(out@) =~= limited_from_start(views(lines@), keep as nat));
    }
    out
}

#[verifier::spinoff_prover]
pub fn truncate_lines_middle(lines: &Vec<String>, max: usize) -> (r: Vec<String>)
    ensures
        views(r@) == truncated_middle(views(lines@), max as nat),
{
    let mut out: Vec<String> = Vec::new();
    if max == 0 {
        proof {
            assert(views(out@) =~= Seq::empty());
        }
        return out;
    }
    if lines.len() <= max {
        copy_lines(lines, 0, lines.len(), &mut out);
        proof {
            assert(lines@.subrange(0, lines@.len() as int) == lines@);
            assert(views(out@) =~= views(lines@));
        }
        return out;
    }
    if max == 1 {
        let e = ellipsis_line(lines.len());
        out.push(e);
        proof {
            assert(views(out@) =~= seq![e@]);
            assert(views(out@) =~= truncated_middle(views(lines@), max as nat));
        }
        return out;
    }
    let head = (max - 1) / 2;
    let tail = max - head - 1;
    copy_lines(lines, 0, head, &mut out);
    let omitted = lines.len() - (head + tail);
    let ghost prev = out@;
    let e = ellipsis_line(omitted);
    out.push(e);
    proof {
        assert(views(out@) =~= views(prev).push(e@));
        assert(views(Seq::<String>::empty()) =~= Seq::empty());
    }
    let ghost mid = out@;
    copy_lines(lines, lines.len() - tail, lines.len(), &mut out);
    proof {
        assert(views(mid) =~= views(lines@.subrange(0, head as int)).push(ellipsis_text(omitted as nat)));
        assert(views(lines@).subrange(0, head as int) =~= views(lines@.subrange(0, head as int)));
        assert(views(lines@).subrange(lines@.len() - tail, lines@.len() as int)
            =~= views(lines@.subrange(lines@.len() - tail, lines@.len() as int)));
        assert(views(out@) =~= truncated_middle(views(lines@), max as nat));
    }
    out
}

/// The inner width of a bordered card drawn `width` columns wide, at most
/// `max_inner_width`; none when there is no room for the border.
pub fn card_inner_width(width: u16, max_inner_width: usize) -> (r: Option<usize>)
    ensures
        width < 4 ==> r is None,
        width >= 4 ==> r == Some(if (width - 4) as int <= max_inner_width as int { (width - 4) as usize } else { max_inner_width }),
{
    if width < 4 {
        return None;
    }
    let w = (width - 4) as usize;
    Some(if w <= max_inner_width { w } else { max_inner_width })
}

/// How many terminal columns a string takes.
pub uninterp spec fn display_width(s: Seq<char>) -> nat;

/// Relies on unicode-width's `UnicodeWidthStr::width`: the columns that
/// the string takes, a function of its characters alone.
#[verifier::external_body]
fn str_width(s: &str) -> (r: usize)
    ensures
        r as nat == display_width(s@),
{
    UnicodeWidthStr::width(s)
}

/// Prefixes for the first and the following lines of a wrapped block.
#[derive(Debug, Clone, Copy)]
pub struct PrefixedBlock {
    pub initial_prefix: &'static str,
    pub subsequent_prefix: &'static str,
}

impl PrefixedBlock {
    pub open spec fn wrap_width_of(self, total_width: u16) -> nat {
        let a = display_width(self.initial_prefix@);
        let b = display_width(self.subsequent_prefix@);
        let p = if a >= b { a } else { b };
        if total_width as nat > p + 1 {
            (total_width as nat - p) as nat
        } else {
            1
        }
    }

    /// Columns left for text once the wider prefix is taken, at least one.
    pub fn wrap_width(self, total_width: u16) -> (r: usize)
        ensures
            r as nat == self.wrap_width_of(total_width),
    {
        let a = str_width(self.initial_prefix);
        let b = str_width(self.subsequent_prefix);
        let p = if a >= b { a } else { b };
        let total = total_width as usize;
        if total > p && total - p > 1 {
            total - p
        } else {
            1
        }
    }
}

// ---------------------------------------------------------------------------
// Reasoning summaries

/// `char::is_whitespace`: the Unicode White_Space characters.
pub open spec fn is_whitespace(c: char) -> bool {
    ('\u{9}' <= c && c <= '\u{d}') || c == ' ' || c == '\u{85}' || c == '\u{a0}' || c == '\u{1680}'
        || ('\u{2000}' <= c && c <= '\u{200a}') || c == '\u{2028}' || c == '\u{2029}' || c == '\u{202f}'
        || c == '\u{205f}' || c == '\u{3000}'
}

fn is_whitespace_exec(c: char) -> (r: bool)
    ensures
        r == is_whitespace(c),
{
    ('\u{9}' <= c && c <= '\u{d}') || c == ' ' || c == '\u{85}' || c == '\u{a0}' || c == '\u{1680}'
        || ('\u{2000}' <= c && c <= '\u{200a}') || c == '\u{2028}' || c == '\u{2029}' || c == '\u{202f}'
        || c == '\u{205f}' || c == '\u{3000}'
}

pub open spec fn trim_start_at(s: Seq<char>, i: int) -> int
    decreases s.len() - i,
{
    if 0 <= i < s.len() && is_whitespace(s[i]) {
        trim_start_at(s, i + 1)
    } else {
        i
    }
}

pub open spec fn trim_end_at(s: Seq<char>, lo: int, j: int) -> int
    decreases j - lo,
{
    if lo < j && j <= s.len() && is_whitespace(s[j - 1]) {
        trim_end_at(s, lo, j - 1)
    } else {
        j
    }
}

/// `s` without leading and trailing whitespace.
pub open spec fn trimmed(s: Seq<char>) -> Seq<char> {
    let a = trim_start_at(s, 0);
    s.subrange(a, trim_end_at(s, a, s.len() as int))
}

/// Index of the first `**` at or after `i`.
pub open spec fn find_stars(s: Seq<char>, i: int) -> Option<int>
    decreases s.len() - i,
{
    if i < 0 || i + 1 >= s.len() {
        None
    } else if s[i] == '*' && s[i + 1] == '*' {
        Some(i)
    } else {
        find_stars(s, i + 1)
    }
}

/// In the experimental format a summary opens with a `**header**`: the
/// trimmed text splits after the closing `**` when more text follows.
pub open spec fn summary_split(buffer: Seq<char>, format: ReasoningSummaryFormat) -> Option<(Seq<char>, Seq<char>)> {
    let t = trimmed(buffer);
    if format != ReasoningSummaryFormat::Experimental {
        None
    } else {
        match find_stars(t, 0) {
            None => None,
            Some(open) => match find_stars(t, open + 2) {
                None => None,
                Some(close) => if close + 2 < t.len() {
                    Some((t.subrange(0, close + 2), t.subrange(close + 2, t.len() as int)))
                } else {
                    None
                },
            },
        }
    }
}

proof fn lemma_find_stars_range(s: Seq<char>, i: int)
    requires
        0 <= i,
    ensures
        find_stars(s, i) is Some ==> i <= find_stars(s, i).unwrap() && find_stars(s, i).unwrap() + 1 < s.len(),
    decreases s.len() - i,
{
    if i + 1 < s.len() && !(s[i] == '*' && s[i + 1] == '*') {
        lemma_find_stars_range(s, i + 1);
    }
}

fn find_stars_exec(s: &str, n: usize, from: usize) -> (r: Option<usize>)
    requires
        n == s@.len(),
        from <= n,
    ensures
        r is None <==> find_stars(s@, from as int) is None,
        r is Some ==> find_stars(s@, from as int) == Some(r.unwrap() as int),
{
    let mut i = from;
    while i < n && i + 1 < n
        invariant
            n == s@.len(),
            from <= i <= n,
            find_stars(s@, from as int) == find_stars(s@, i as int),
        decreases n - i,
    {
        if s.get_char(i) == '*' && s.get_char(i + 1) == '*' {
            return Some(i);
        }
        i += 1;
    }
    None
}

fn trim_exec(s: &str) -> (r: String)
    ensures
        r@ == trimmed(s@),
{
    let n = s.unicode_len();
    let mut a: usize = 0;
    while a < n && is_whitespace_exec(s.get_char(a))
        invariant
            n == s@.len(),
            a <= n,
            trim_start_at(s@, 0) == trim_start_at(s@, a as int),
        decreases n - a,
    {
        a += 1;
    }
    let mut b: usize = n;
    while b > a && is_whitespace_exec(s.get_char(b - 1))
        invariant
            n == s@.len(),
            a <= b <= n,
            trim_start_at(s@, 0) == a,
            trim_end_at(s@, a as int, n as int) == trim_end_at(s@, a as int, b as int),
        decreases b - a,
    {
        b -= 1;
    }
    String::from_str(s.substring_char(a, b))
}

/// The header and the summary of a reasoning summary, when it has both.
pub fn split_reasoning_summary(buffer: &str, format: ReasoningSummaryFormat) -> (r: Option<(String, String)>)
    ensures
        r is None <==> summary_split(buffer@, format) is None,
        r is Some ==> (r.unwrap().0@, r.unwrap().1@) == summary_split(buffer@, format).unwrap(),
{
    if format != ReasoningSummaryFormat::Experimental {
        return None;
    }
    let t = trim_exec(buffer);
    let n = t.unicode_len();
    let open = match find_stars_exec(t.as_str(), n, 0) {
        Some(o) => o,
        None => {
            return None;
        },
    };
    proof {
        lemma_find_stars_range(t@, 0);
    }
    let close = match find_stars_exec(t.as_str(), n, open + 2) {
        Some(c) => c,
        None => {
            return None;
        },
    };
    proof {
        lemma_find_stars_range(t@, open + 2);
    }
    if close + 2 < n {
        let header = String::from_str(t.as_str().substring_char(0, close + 2));
        let summary = String::from_str(t.as_str().substring_char(close + 2, n));
        Some((header, summary))
    } else {
        None
    }
}

// ---------------------------------------------------------------------------
// MCP tool calls in the history

/// What was invoked: server, tool and arguments.
#[derive(Debug, Clone)]
pub struct McpInvocation {
    pub server: String,
    pub tool: String,
    pub arguments: Option<Value>,
}

/// A tool call shown in the history, running until it completes.
pub struct McpToolCallCell {
    call_id: String,
    invocation: McpInvocation,
    duration: Option<Timeout>,
    result: Option<McpCallOutcome>,
}

/// Whether an outcome counts as a success.
pub open spec fn outcome_success(o: McpCallOutcome) -> bool {
    match o {
        McpCallOutcome::Completed(r) => !(r.is_error == Some(true)),
        McpCallOutcome::Failed(_) => false,
    }
}

impl McpToolCallCell {
    pub closed spec fn outcome(&self) -> Option<McpCallOutcome> {
        self.result
    }

    pub closed spec fn elapsed(&self) -> Option<Timeout> {
        self.duration
    }

    pub closed spec fn id(&self) -> Seq<char> {
        self.call_id@
    }

    pub fn new(call_id: String, invocation: McpInvocation) -> (r: Self)
        ensures
            r.invoked() == invocation,
            r.outcome() is None,
            r.elapsed() is None,
            r.id() == call_id@,
    {
        McpToolCallCell { call_id, invocation, duration: None, result: None }
    }

    pub fn call_id(&self) -> (r: &str)
        ensures
            r@ == self.id(),
    {
        self.call_id.as_str()
    }

    pub closed spec fn invoked(&self) -> McpInvocation {
        self.invocation
    }

    pub fn invocation(&self) -> (r: &McpInvocation)
        ensures
            *r == self.invoked(),
    {
        &self.invocation
    }

    /// Records how the call ended and how long it took.
    pub fn complete(&mut self, duration: Timeout, result: McpCallOutcome)
        ensures
            final(self).outcome() == Some(result),
            final(self).elapsed() == Some(duration),
            final(self).id() == old(self).id(),
    {
        self.duration = Some(duration);
        self.result = Some(result);
    }

    /// `None` while running; otherwise whether the call succeeded.
    pub fn success(&self) -> (r: Option<bool>)
        ensures
            r is None <==> self.outcome() is None,
            r is Some ==> r.unwrap() == outcome_success(self.outcome().unwrap()),
    {
        match &self.result {
            Some(McpCallOutcome::Completed(r)) => Some(
                !match r.is_error {
                    Some(b) => b,
                    None => false,
                },
            ),
            Some(McpCallOutcome::Failed(_)) => Some(false),
            None => None,
        }
    }

    /// The call was cut short after `elapsed`.
    pub fn mark_failed(&mut self, elapsed: Timeout)
        ensures
            final(self).elapsed() == Some(elapsed),
            final(self).outcome() is Some && final(self).outcome().unwrap() is Failed,
            final(self).id() == old(self).id(),
    {
        self.duration = Some(elapsed);
        self.result = Some(McpCallOutcome::Failed(String::from_str("interrupted")));
    }
}


// ---------------------------------------------------------------------------
// Command output in the history

/// What a finished command printed.
#[derive(Debug, Clone)]
pub struct CommandOutput {
    pub exit_code: i32,
    pub stdout: String,
    pub stderr: String,
}

#[derive(Debug, Clone, Copy)]
pub struct OutputLinesParams {
    /// Show nothing for a command that succeeded.
    pub only_err: bool,
    /// Start the first line with `└`.
    pub include_angle_pipe: bool,
    /// Indent the lines.
    pub include_prefix: bool,
}

/// Lines shown before and after the omitted middle of long output.
pub const TOOL_CALL_MAX_LINES: usize = 5;

/// Relies on `String::push`: appends one character.
#[verifier::external_body]
fn push_char(s: &mut String, c: char)
    ensures
        final(s)@ == old(s)@.push(c),
{
    s.push(c);
}

pub open spec fn first_newline(s: Seq<char>, i: int) -> Option<int>
    decreases s.len() - i,
{
    if i < 0 || i >= s.len() {
        None
    } else if s[i] == '\n' {
        Some(i)
    } else {
        first_newline(s, i + 1)
    }
}

/// A line without the `\r` of a `\r\n` ending.
pub open spec fn strip_cr(l: Seq<char>) -> Seq<char> {
    if l.len() > 0 && l.last() == '\r' {
        l.drop_last()
    } else {
        l
    }
}

/// The lines of `s` as `str::lines` yields them: split at `\n` or `\r\n`,
/// with no empty line after a final line ending.
pub open spec fn split_lines(s: Seq<char>) -> Seq<Seq<char>>
    decreases s.len(),
{
    match first_newline(s, 0) {
        None => if s.len() == 0 {
            Seq::empty()
        } else {
            seq![s]
        },
        Some(i) => if 0 <= i < s.len() {
            seq![strip_cr(s.subrange(0, i))] + split_lines(s.subrange(i + 1, s.len() as int))
        } else {
            Seq::empty()
        },
    }
}

proof fn lemma_first_newline_at(s: Seq<char>, k: int, m: int)
    requires
        0 <= k <= m < s.len(),
        s[m] == '\n',
        forall|j: int| k <= j < m ==> s[j] != '\n',
    ensures
        first_newline(s, k) == Some(m),
    decreases m - k,
{
    if k < m {
        lemma_first_newline_at(s, k + 1, m);
    }
}

proof fn lemma_first_newline_none(s: Seq<char>, k: int)
    requires
        0 <= k <= s.len(),
        forall|j: int| k <= j < s.len() ==> s[j] != '\n',
    ensures
        first_newline(s, k) is None,
    decreases s.len() - k,
{
    if k < s.len() {
        lemma_first_newline_none(s, k + 1);
    }
}

fn strip_cr_exec(l: String) -> (r: String)
    ensures
        r@ == strip_cr(l@),
{
    let n = l.unicode_len();
    if n > 0 && l.as_str().get_char(n - 1) == '\r' {
        String::from_str(l.as_str().substring_char(0, n - 1))
    } else {
        l
    }
}

#[verifier::spinoff_prover]
pub fn lines_of(s: &str) -> (r: Vec<String>)
    ensures
        views(r@) == split_lines(s@),
{
    let mut out: Vec<String> = Vec::new();
    let mut cur = String::new();
    let mut it = s.chars();
    let ghost n = s@.len();
    let ghost mut i: int = 0;
    let ghost mut start: int = 0;
    proof {
        assert(s@.subrange(0, n as int) == s@);
        assert(views(out@) =~= Seq::empty());
        assert(views(out@) + split_lines(s@) =~= split_lines(s@));
    }
    loop
        invariant
            0 <= start <= i <= n,
            n == s@.len(),
            it.remaining() == s@.subrange(i, n as int),
            it.obeys_prophetic_iter_laws(),
            cur@ == s@.subrange(start, i),
            forall|j: int| start <= j < i ==> s@[j] != '\n',
            views(out@) + split_lines(s@.subrange(start, n as int)) == split_lines(s@),
        ensures
            0 <= start <= n,
            i == n,
            cur@ == s@.subrange(start, n as int),
            forall|j: int| start <= j < n ==> s@[j] != '\n',
            views(out@) + split_lines(s@.subrange(start, n as int)) == split_lines(s@),
        decreases n - i,
    {
        let ghost it0 = it;
        match it.next() {
            None => {
                proof {
                    assert(it0.remaining().len() == 0);
                }
                break;
            },
            Some(c) => {
                proof {
                    assert(c == s@[i]);
                }
                if c == '\n' {
                    let line = strip_cr_exec(cur);
                    proof {
                        let t = s@.subrange(start, n as int);
                        lemma_first_newline_at(t, 0, i - start);
                        assert(t.subrange(0, i - start) == s@.subrange(start, i));
                        assert(t.subrange(i - start + 1, t.len() as int) == s@.subrange(i + 1, n as int));
                        let prev = out@;
                        assert(views(prev.push(line)) =~= views(prev).push(line@));
                        assert(split_lines(t) == seq![line@] + split_lines(s@.subrange(i + 1, n as int)));
                        assert(views(prev).push(line@) + split_lines(s@.subrange(i + 1, n as int))
                            =~= views(prev) + (seq![line@] + split_lines(s@.subrange(i + 1, n as int))));
                    }
                    out.push(line);
                    cur = String::new();
                    proof {
                        start = i + 1;
                    }
                } else {
                    push_char(&mut cur, c);
                }
                proof {
                    i = i + 1;
                    assert(s@.subrange(start, i) =~= cur@);
                }
            },
        }
    }
    proof {
        assert(i == n);
        let t = s@.subrange(start, n as int);
        assert(t == cur@);
        lemma_first_newline_none(t, 0);
    }
    if cur.unicode_len() > 0 {
        let ghost prev = out@;
        out.push(cur);
        proof {
            assert(views(out@) =~= views(prev).push(s@.subrange(start, n as int)));
            assert(views(out@) =~= views(prev) + split_lines(s@.subrange(start, n as int)));
        }
    } else {
        proof {
            assert(views(out@) =~= views(out@) + split_lines(s@.subrange(start, n as int)));
        }
    }
    out
}

pub open spec fn head_prefix(params: OutputLinesParams, i: int) -> Seq<char> {
    if !params.include_prefix {
        Seq::empty()
    } else if i == 0 && params.include_angle_pipe {
        "  └ "@
    } else {
        "    "@
    }
}

pub open spec fn tail_prefix(params: OutputLinesParams) -> Seq<char> {
    if params.include_prefix {
        "    "@
    } else {
        Seq::empty()
    }
}

/// The lines shown for a command's output text: its first five lines and,
/// when there are more than ten, a line counting the omitted ones and the
/// last five; otherwise all of it.
pub open spec fn shown_text(text: Seq<char>, params: OutputLinesParams) -> Seq<Seq<char>> {
    let ls = split_lines(text);
    let total = ls.len() as int;
    let head_end = if total < 5 { total } else { 5 };
    let head = Seq::new(head_end as nat, |i: int| head_prefix(params, i) + ls[i]);
    let show = total > 10;
    let mid = if show { seq![ellipsis_text((total - 10) as nat)] } else { Seq::empty() };
    let tail_start = if show { total - 5 } else { head_end };
    let tail = Seq::new((total - tail_start) as nat, |j: int| tail_prefix(params) + ls[tail_start + j]);
    head + mid + tail
}

/// The output shown under a command: stdout when it succeeded, else
/// stderr; nothing for a success when only errors are shown.
pub open spec fn shown_output(output: Option<CommandOutput>, params: OutputLinesParams) -> Seq<Seq<char>> {
    match output {
        None => Seq::empty(),
        Some(o) => if params.only_err && o.exit_code == 0 {
            Seq::empty()
        } else {
            shown_text(if o.exit_code == 0 { o.stdout@ } else { o.stderr@ }, params)
        },
    }
}

fn prefixed(prefix: &str, line: &String) -> (r: String)
    ensures
        r@ == prefix@ + line@,
{
    let mut s = String::from_str(prefix);
    s.append(line.as_str());
    s
}

#[verifier::spinoff_prover]
pub fn output_lines(output: Option<&CommandOutput>, params: OutputLinesParams) -> (r: Vec<String>)
    ensures
        views(r@) == shown_output(match output { Some(o) => Some(*o), None => None }, params),
{
    let o = match output {
        Some(o) => o,
        None => {
            let v: Vec<String> = Vec::new();
            proof {
                assert(views(v@) =~= Seq::empty());
            }
            return v;
        },
    };
    if params.only_err && o.exit_code == 0 {
        let v: Vec<String> = Vec::new();
        proof {
            assert(views(v@) =~= Seq::empty());
        }
        return v;
    }
    let src = if o.exit_code == 0 {
        o.stdout.as_str()
    } else {
        o.stderr.as_str()
    };
    let lines = lines_of(src);
    let ghost ls = views(lines@);
    let total = lines.len();
    let head_end = if total < TOOL_CALL_MAX_LINES {
        total
    } else {
        TOOL_CALL_MAX_LINES
    };
    let ghost head = Seq::new(head_end as nat, |i: int| head_prefix(params, i) + ls[i]);
    let mut out: Vec<String> = Vec::new();
    let mut i: usize = 0;
    proof {
        reveal_strlit("  └ ");
        reveal_strlit("    ");
    }
    while i < head_end
        invariant
            i <= head_end <= total,
            total == lines@.len(),
            ls == views(lines@),
            head == Seq::new(head_end as nat, |k: int| head_prefix(params, k) + ls[k]),
            views(out@) == head.subrange(0, i as int),
        decreases head_end - i,
    {
        let prefix = if !params.include_prefix {
            ""
        } else if i == 0 && params.include_angle_pipe {
            "  └ "
        } else {
            "    "
        };
        proof {
            reveal_strlit("");
            assert(prefix@ == head_prefix(params, i as int));
        }
        let ghost prev = out@;
        let line = prefixed(prefix, &lines[i]);
        out.push(line);
        proof {
            assert(views(out@) =~= views(prev).push(line@));
            assert(views(out@) =~= head.subrange(0, i as int + 1));
        }
        i += 1;
    }
    let show_ellipsis = total > 2 * TOOL_CALL_MAX_LINES;
    let ghost mid = if show_ellipsis { seq![ellipsis_text((total - 10) as nat)] } else { Seq::<Seq<char>>::empty() };
    if show_ellipsis {
        let ghost prev = out@;
        let e = ellipsis_line(total - 2 * TOOL_CALL_MAX_LINES);
        out.push(e);
        proof {
            assert(views(out@) =~= views(prev).push(e@));
        }
    }
    proof {
        assert(views(out@) =~= head + mid);
    }
    let tail_start = if show_ellipsis {
        total - TOOL_CALL_MAX_LINES
    } else {
        head_end
    };
    let ghost tail = Seq::new((total - tail_start) as nat, |j: int| tail_prefix(params) + ls[tail_start + j]);
    let ghost base = views(out@);
    let mut k = tail_start;
    while k < total
        invariant
            tail_start <= k <= total,
            total == lines@.len(),
            ls == views(lines@),
            tail == Seq::new((total - tail_start) as nat, |j: int| tail_prefix(params) + ls[tail_start + j]),
            views(out@) == base + tail.subrange(0, k - tail_start),
        decreases total - k,
    {
        let prefix = if params.include_prefix {
            "    "
        } else {
            ""
        };
        proof {
            reveal_strlit("");
            reveal_strlit("    ");
            assert(prefix@ == tail_prefix(params));
        }
        let ghost prev = out@;
        let line = prefixed(prefix, &lines[k]);
        out.push(line);
        proof {
            assert(views(out@) =~= views(prev).push(line@));
            assert(views(out@) =~= base + tail.subrange(0, k + 1 - tail_start));
        }
        k += 1;
    }
    proof {
        assert(tail.subrange(0, total - tail_start) == tail);
    }
    out
}


// ---------------------------------------------------------------------------
// Cards and short cells

pub open spec fn repeat_char(c: char, n: nat) -> Seq<char> {
    Seq::new(n, |i: int| c)
}

/// The widest of `lines[..k]`, in columns.
pub open spec fn max_width(lines: Seq<Seq<char>>, k: int) -> nat
    decreases k,
{
    if k <= 0 {
        0
    } else {
        let w = max_width(lines, k - 1);
        let x = display_width(lines[k - 1]);
        if x > w {
            x
        } else {
            w
        }
    }
}

/// The width inside a card: the widest line, or `forced` when wider.
pub open spec fn card_content_width(lines: Seq<Seq<char>>, forced: Option<usize>) -> nat {
    let m = max_width(lines, lines.len() as int);
    match forced {
        Some(f) => if f as nat > m { f as nat } else { m },
        None => m,
    }
}

/// `lines` framed by a rounded border, each padded to the content width.
pub open spec fn bordered(lines: Seq<Seq<char>>, forced: Option<usize>) -> Seq<Seq<char>> {
    let cw = card_content_width(lines, forced);
    let rule = repeat_char('─', cw + 2);
    let body = Seq::new(
        lines.len(),
        |i: int| "│ "@ + lines[i] + (if display_width(lines[i]) < cw {
            repeat_char(' ', (cw - display_width(lines[i])) as nat)
        } else {
            Seq::empty()
        }) + " │"@,
    );
    seq!["╭"@ + rule + "╮"@] + body + seq!["╰"@ + rule + "╯"@]
}

fn push_repeat(s: &mut String, c: &str, n: usize)
    requires
        c@.len() == 1,
    ensures
        final(s)@ == old(s)@ + repeat_char(c@[0], n as nat),
{
    let mut i: usize = 0;
    while i < n
        invariant
            i <= n,
            c@.len() == 1,
            s@ == old(s)@ + repeat_char(c@[0], i as nat),
        decreases n - i,
    {
        s.append(c);
        proof {
            assert(s@ =~= old(s)@ + repeat_char(c@[0], i as nat + 1));
        }
        i += 1;
    }
}

fn border_rule(left: &str, right: &str, n: usize) -> (r: String)
    requires
        n < usize::MAX,
    ensures
        r@ == left@ + repeat_char('─', n as nat) + right@,
{
    proof {
        reveal_strlit("─");
    }
    let mut s = String::from_str(left);
    push_repeat(&mut s, "─", n);
    s.append(right);
    s
}

#[verifier::spinoff_prover]
fn with_border_internal(lines: &Vec<String>, forced_inner_width: Option<usize>) -> (r: Vec<String>)
    requires
        forall|i: int| 0 <= i < lines@.len() ==> display_width(#[trigger] lines@[i]@) < usize::MAX - 2,
        forced_inner_width is Some ==> forced_inner_width.unwrap() < usize::MAX - 2,
    ensures
        views(r@) == bordered(views(lines@), forced_inner_width),
{
    let ghost ls = views(lines@);
    let mut m: usize = 0;
    let mut k: usize = 0;
    while k < lines.len()
        invariant
            k <= lines@.len(),
            ls == views(lines@),
            m as nat == max_width(ls, k as int),
            forall|i: int| 0 <= i < lines@.len() ==> display_width(#[trigger] lines@[i]@) < usize::MAX - 2,
            m < usize::MAX - 2,
        decreases lines@.len() - k,
    {
        let w = str_width(lines[k].as_str());
        if w > m {
            m = w;
        }
        k += 1;
    }
    let cw = match forced_inner_width {
        Some(f) => if f > m { f } else { m },
        None => m,
    };
    proof {
        reveal_strlit("│ ");
        reveal_strlit(" │");
        reveal_strlit(" ");
    }
    let mut out: Vec<String> = Vec::new();
    out.push(border_rule("╭", "╮", cw + 2));
    let mut i: usize = 0;
    while i < lines.len()
        invariant
            i <= lines@.len(),
            ls == views(lines@),
            cw as nat == card_content_width(ls, forced_inner_width),
            cw < usize::MAX - 2,
            out@.len() == i + 1,
            views(out@)[0] == "╭"@ + repeat_char('─', cw as nat + 2) + "╮"@,
            forall|j: int| 0 <= j < i ==> (#[trigger] views(out@)[j + 1]) == bordered(ls, forced_inner_width)[j + 1],
        decreases lines@.len() - i,
    {
        proof {
            reveal_strlit("│ ");
            reveal_strlit(" │");
            reveal_strlit(" ");
        }
        let line = &lines[i];
        let used = str_width(line.as_str());
        let mut s = String::from_str("│ ");
        s.append(line.as_str());
        if used < cw {
            push_repeat(&mut s, " ", cw - used);
        }
        s.append(" │");
        proof {
            if used < cw {
                assert(s@ =~= "│ "@ + ls[i as int] + repeat_char(' ', (cw - used) as nat) + " │"@);
            } else {
                assert(s@ =~= "│ "@ + ls[i as int] + Seq::<char>::empty() + " │"@);
            }
            assert(s@ == bordered(ls, forced_inner_width)[i + 1]);
        }
        let ghost prev = out@;
        out.push(s);
        proof {
            assert(views(out@) =~= views(prev).push(s@));
        }
        i += 1;
    }
    let ghost prev = out@;
    let last = border_rule("╰", "╯", cw + 2);
    out.push(last);
    proof {
        let b = bordered(ls, forced_inner_width);
        let n = lines@.len() as int;
        assert(views(out@) =~= views(prev).push(last@));
        assert(b.len() == n + 2);
        assert forall|k: int| 0 <= k < n + 2 implies views(out@)[k] == b[k] by {
            if k == 0 {
                assert(views(out@)[0] == views(prev)[0]);
            } else if k <= n {
                assert(views(out@)[k] == views(prev)[k]);
                assert(views(prev)[(k - 1) + 1] == b[(k - 1) + 1]);
            } else {
                assert(views(out@)[k] == last@);
            }
        }
        assert(views(out@) =~= b);
    }
    out
}

/// `lines` inside a border sized to the widest line.
pub fn with_border(lines: &Vec<String>) -> (r: Vec<String>)
    requires
        forall|i: int| 0 <= i < lines@.len() ==> display_width(#[trigger] lines@[i]@) < usize::MAX - 2,
    ensures
        views(r@) == bordered(views(lines@), None),
{
    with_border_internal(lines, None)
}

/// `lines` inside a border at least `inner_width` wide.
pub fn with_border_with_inner_width(lines: &Vec<String>, inner_width: usize) -> (r: Vec<String>)
    requires
        forall|i: int| 0 <= i < lines@.len() ==> display_width(#[trigger] lines@[i]@) < usize::MAX - 2,
        inner_width < usize::MAX - 2,
    ensures
        views(r@) == bordered(views(lines@), Some(inner_width)),
{
    with_border_internal(lines, Some(inner_width))
}

/// `lines` in a border (at least `inner_width` wide when given); `None`
/// when a line or the width is too wide to measure the border.
pub fn framed_lines(lines: &Vec<String>, inner_width: Option<usize>) -> (r: Option<Vec<String>>)
    ensures
        r is None <==> (exists|i: int| 0 <= i < lines@.len() && display_width(#[trigger] lines@[i]@) >= usize::MAX - 2)
            || (inner_width is Some && inner_width.unwrap() >= usize::MAX - 2),
        r is Some ==> views(r.unwrap()@) == bordered(views(lines@), inner_width),
{
    let mut k: usize = 0;
    while k < lines.len()
        invariant
            k <= lines@.len(),
            forall|i: int| 0 <= i < k ==> display_width(#[trigger] lines@[i]@) < usize::MAX - 2,
        decreases lines@.len() - k,
    {
        if str_width(lines[k].as_str()) >= usize::MAX - 2 {
            return None;
        }
        k += 1;
    }
    match inner_width {
        Some(w) => if w >= usize::MAX - 2 {
            None
        } else {
            Some(with_border_with_inner_width(lines, w))
        },
        None => Some(with_border(lines)),
    }
}

/// The emoji followed by a hair space.
pub fn padded_emoji(emoji: &str) -> (r: String)
    ensures
        r@ == emoji@ + "\u{200A}"@,
{
    let mut s = String::from_str(emoji);
    s.append("\u{200A}");
    s
}

/// The lines recording a patch that did not apply: a title, then the tail
/// of its error output when there is any.
pub open spec fn patch_failure_text(stderr: Seq<char>) -> Seq<Seq<char>> {
    let params = OutputLinesParams { only_err: true, include_angle_pipe: true, include_prefix: true };
    if trimmed(stderr).len() == 0 {
        seq!["✘ Failed to apply patch"@]
    } else {
        seq!["✘ Failed to apply patch"@] + shown_text(stderr, params)
    }
}

pub fn new_patch_apply_failure(stderr: String) -> (r: Vec<String>)
    ensures
        views(r@) == patch_failure_text(stderr@),
{
    let ghost text = stderr@;
    let mut lines: Vec<String> = Vec::new();
    let title = String::from_str("✘ Failed to apply patch");
    lines.push(title);
    let t = trim_exec(stderr.as_str());
    if t.unicode_len() == 0 {
        proof {
            assert(views(lines@) =~= seq![title@]);
        }
        return lines;
    }
    let output = CommandOutput { exit_code: 1, stdout: String::new(), stderr };
    let params = OutputLinesParams { only_err: true, include_angle_pipe: true, include_prefix: true };
    let shown = output_lines(Some(&output), params);
    let ghost first = lines@;
    let mut shown = shown;
    lines.append(&mut shown);
    proof {
        assert(views(lines@) =~= views(first) + shown_output(Some(output), params));
        assert(views(first) =~= seq![title@]);
    }
    lines
}


// ---------------------------------------------------------------------------
// Plan updates

/// The lines that a text wraps into at a given width.
pub uninterp spec fn wrapped(text: Seq<char>, width: nat) -> Seq<Seq<char>>;

/// Relies on `textwrap::wrap` with default options: the lines depend on
/// the text and the width alone.
#[verifier::external_body]
fn wrap_text(text: &str, width: usize) -> (r: Vec<String>)
    requires
        width >= 1,
    ensures
        views(r@) == wrapped(text@, width as nat),
{
    textwrap::wrap(text, width).into_iter().map(|line| line.into_owned()).collect()
}

/// Each line after the first prefix, the others after the second.
pub open spec fn prefixed_lines(ls: Seq<Seq<char>>, first: Seq<char>, rest: Seq<char>) -> Seq<Seq<char>> {
    Seq::new(ls.len(), |i: int| (if i == 0 { first } else { rest }) + ls[i])
}

fn prefix_lines(lines: Vec<String>, first: &str, rest: &str) -> (r: Vec<String>)
    ensures
        views(r@) == prefixed_lines(views(lines@), first@, rest@),
{
    let mut out: Vec<String> = Vec::new();
    let mut i: usize = 0;
    while i < lines.len()
        invariant
            i <= lines@.len(),
            out@.len() == i,
            forall|j: int| 0 <= j < i ==> (#[trigger] out@[j])@ == (if j == 0 { first@ } else { rest@ }) + lines@[j]@,
        decreases lines@.len() - i,
    {
        let mut s = String::from_str(if i == 0 { first } else { rest });
        s.append(lines[i].as_str());
        out.push(s);
        i += 1;
    }
    proof {
        assert(views(out@) =~= prefixed_lines(views(lines@), first@, rest@));
    }
    out
}

/// A plan as shown in the history: a note and checkbox steps.
#[derive(Debug, Clone)]
pub struct PlanUpdateCell {
    pub explanation: Option<String>,
    pub plan: Vec<PlanItemArg>,
}

pub fn new_plan_update(explanation: Option<String>, plan: Vec<PlanItemArg>) -> (r: PlanUpdateCell)
    ensures
        r.explanation == explanation,
        r.plan == plan,
{
    PlanUpdateCell { explanation, plan }
}

pub open spec fn step_box(status: StepStatus) -> Seq<char> {
    if status == StepStatus::Completed { "✔ "@ } else { "□ "@ }
}

/// `a - b`, or `1` when that is smaller than one.
pub open spec fn room(a: int, b: int) -> nat {
    if a - b >= 1 { (a - b) as nat } else { 1 }
}

pub open spec fn step_lines(item: PlanItemArg, width: u16) -> Seq<Seq<char>> {
    let b = step_box(item.status);
    prefixed_lines(wrapped(item.step@, room(room(width as int, 4) as int, display_width(b) as int)), b, "  "@)
}

pub open spec fn steps_lines(plan: Seq<PlanItemArg>, width: u16) -> Seq<Seq<char>>
    decreases plan.len(),
{
    if plan.len() == 0 {
        Seq::empty()
    } else {
        steps_lines(plan.drop_last(), width) + step_lines(plan.last(), width)
    }
}

pub open spec fn note_lines(explanation: Option<String>, width: u16) -> Seq<Seq<char>> {
    match explanation {
        Some(e) => if trimmed(e@).len() > 0 { wrapped(trimmed(e@), room(width as int, 4)) } else { Seq::empty() },
        None => Seq::empty(),
    }
}

/// The lines of a plan update: a title, then the note and the steps (or a
/// remark that there are none), indented under `└`.
pub open spec fn plan_update_text(explanation: Option<String>, plan: Seq<PlanItemArg>, width: u16) -> Seq<Seq<char>> {
    let body = note_lines(explanation, width) + if plan.len() == 0 {
        seq!["(no steps provided)"@]
    } else {
        steps_lines(plan, width)
    };
    seq!["• Updated Plan"@] + prefixed_lines(body, "  └ "@, "    "@)
}

impl PlanUpdateCell {
    #[verifier::spinoff_prover]
    pub fn display_lines(&self, width: u16) -> (r: Vec<String>)
        ensures
            views(r@) == plan_update_text(self.explanation, self.plan@, width),
    {
        let wide: usize = width as usize;
        let note_width: usize = if wide >= 5 { wide - 4 } else { 1 };
        let mut indented: Vec<String> = Vec::new();
        if let Some(e) = &self.explanation {
            let t = trim_exec(e.as_str());
            if t.unicode_len() > 0 {
                indented = wrap_text(t.as_str(), note_width);
            }
        }
        proof {
            assert(views(indented@) == note_lines(self.explanation, width));
        }
        if self.plan.len() == 0 {
            let ghost prev = indented@;
            let remark = String::from_str("(no steps provided)");
            indented.push(remark);
            proof {
                assert(views(indented@) =~= views(prev).push(remark@));
            }
        } else {
            let ghost base = views(indented@);
            let mut i: usize = 0;
            while i < self.plan.len()
                invariant
                    i <= self.plan@.len(),
                    note_width as nat == room(width as int, 4),
                    base == note_lines(self.explanation, width),
                    views(indented@) == base + steps_lines(self.plan@.subrange(0, i as int), width),
                decreases self.plan@.len() - i,
            {
                let item = &self.plan[i];
                let b = if item.status == StepStatus::Completed { "✔ " } else { "□ " };
                let bw = str_width(b);
                let ww: usize = if note_width > bw && note_width - bw >= 1 { note_width - bw } else { 1 };
                let parts = wrap_text(item.step.as_str(), ww);
                let mut lines = prefix_lines(parts, b, "  ");
                let ghost prev = views(indented@);
                let ghost added = views(lines@);
                indented.append(&mut lines);
                proof {
                    assert(b@ == step_box(item.status));
                    assert(ww as nat == room(room(width as int, 4) as int, display_width(b@) as int));
                    assert(added == step_lines(self.plan@[i as int], width));
                    assert(self.plan@.subrange(0, i as int + 1).drop_last() == self.plan@.subrange(0, i as int));
                    assert(views(indented@) =~= prev + added);
                }
                i += 1;
            }
            proof {
                assert(self.plan@.subrange(0, self.plan@.len() as int) == self.plan@);
            }
        }
        let body = prefix_lines(indented, "  └ ", "    ");
        let mut out: Vec<String> = Vec::new();
        out.push(String::from_str("• Updated Plan"));
        let ghost first = out@;
        let ghost body_view = views(body@);
        let mut body = body;
        out.append(&mut body);
        proof {
            assert(views(out@) =~= views(first) + body_view);
            assert(views(first) =~= seq!["• Updated Plan"@]);
        }
        out
    }
}


// ---------------------------------------------------------------------------
// The list of MCP tools

pub open spec fn qualified_prefix(server: Seq<char>) -> Seq<char> {
    server + "__"@
}

/// The tools of `server` among qualified names `server__tool`, in order.
pub open spec fn server_tools(names: Seq<Seq<char>>, server: Seq<char>) -> Seq<Seq<char>>
    decreases names.len(),
{
    if names.len() == 0 {
        Seq::empty()
    } else {
        let rest = server_tools(names.drop_last(), server);
        let k = names.last();
        let p = qualified_prefix(server);
        if starts_with(k, p) {
            rest.push(k.subrange(p.len() as int, k.len() as int))
        } else {
            rest
        }
    }
}

pub open spec fn transport_line(t: McpServerTransportConfig) -> Seq<char> {
    match t {
        McpServerTransportConfig::Stdio { command, args, .. } => "    • Command: "@ + command@ + (if args@.len() == 0 {
            Seq::empty()
        } else {
            " "@ + join_sep(words(args@), " "@)
        }),
        McpServerTransportConfig::StreamableHttp { url, .. } => "    • URL: "@ + url@,
    }
}

pub open spec fn tools_line(tools: Seq<Seq<char>>) -> Seq<char> {
    if tools.len() == 0 {
        "    • Tools: (none)"@
    } else {
        "    • Tools: "@ + join_sep(tools, ", "@)
    }
}

pub open spec fn tools_header() -> Seq<Seq<char>> {
    seq!["/mcp"@, Seq::empty(), "🔌  MCP Tools"@, Seq::empty()]
}

/// One block per server: its name, how it is reached, its tools in `lists`.
pub open spec fn server_blocks(servers: Seq<(String, McpServerConfig)>, lists: Seq<Seq<Seq<char>>>) -> Seq<Seq<char>>
    decreases servers.len(),
{
    if servers.len() == 0 {
        Seq::empty()
    } else {
        let n = servers.len() - 1;
        server_blocks(servers.drop_last(), lists.subrange(0, n)) + seq![
            "  • Server: "@ + servers[n].0@,
            transport_line(servers[n].1.transport),
            tools_line(lists[n]),
            Seq::empty()
        ]
    }
}

fn transport_line_exec(t: &McpServerTransportConfig) -> (r: String)
    ensures
        r@ == transport_line(*t),
{
    match t {
        McpServerTransportConfig::Stdio { command, args, .. } => {
            let mut s = String::from_str("    • Command: ");
            s.append(command.as_str());
            if args.len() > 0 {
                s.append(" ");
                let joined = join_with(args, " ");
                s.append(joined.as_str());
            }
            proof {
                if args@.len() == 0 {
                    assert(s@ =~= transport_line(*t));
                }
            }
            s
        },
        McpServerTransportConfig::StreamableHttp { url, .. } => {
            let mut s = String::from_str("    • URL: ");
            s.append(url.as_str());
            s
        },
    }
}

fn server_tools_exec(names: &Vec<String>, server: &str) -> (r: Vec<String>)
    ensures
        words(r@) == server_tools(words(names@), server@),
{
    let mut prefix = String::from_str(server);
    prefix.append("__");
    let pn = prefix.unicode_len();
    let mut out: Vec<String> = Vec::new();
    let mut i: usize = 0;
    while i < names.len()
        invariant
            i <= names@.len(),
            prefix@ == qualified_prefix(server@),
            pn == prefix@.len(),
            words(out@) == server_tools(words(names@.subrange(0, i as int)), server@),
        decreases names@.len() - i,
    {
        let k = names[i].as_str();
        proof {
            assert(words(names@.subrange(0, i as int + 1)).drop_last() =~= words(names@.subrange(0, i as int)));
            assert(words(names@.subrange(0, i as int + 1)).last() == names@[i as int]@);
        }
        if starts_with_exec(k, prefix.as_str()) {
            let tool = String::from_str(k.substring_char(pn, k.unicode_len()));
            let ghost prev = out@;
            out.push(tool);
            proof {
                assert(words(out@) =~= words(prev).push(tool@));
            }
        }
        i += 1;
    }
    proof {
        assert(names@.subrange(0, names@.len() as int) == names@);
    }
    out
}

/// The `/mcp` listing: every configured server with how it is reached and
/// its tools in lexicographic order, or a note that there are no tools.
#[verifier::spinoff_prover]
pub fn new_mcp_tools_output(servers: &Vec<(String, McpServerConfig)>, tool_names: &Vec<String>) -> (r: Vec<String>)
    ensures
        tool_names@.len() == 0 ==> views(r@) == tools_header() + seq!["  • No MCP tools available."@, Seq::<char>::empty()],
        tool_names@.len() > 0 ==> exists|lists: Seq<Seq<Seq<char>>>| #![auto]
            lists.len() == servers@.len()
                && (forall|i: int| 0 <= i < lists.len() ==> sorted(lists[i])
                    && lists[i].to_multiset() == server_tools(words(tool_names@), servers@[i].0@).to_multiset())
                && views(r@) == tools_header() + server_blocks(servers@, lists),
{
    let mut lines: Vec<String> = Vec::new();
    lines.push(String::from_str("/mcp"));
    lines.push(String::new());
    lines.push(String::from_str("🔌  MCP Tools"));
    lines.push(String::new());
    proof {
        assert(views(lines@) =~= tools_header());
    }
    if tool_names.len() == 0 {
        let ghost prev = lines@;
        let a = String::from_str("  • No MCP tools available.");
        lines.push(a);
        let b = String::new();
        lines.push(b);
        proof {
            assert(views(lines@) =~= views(prev) + seq![a@, b@]);
        }
        return lines;
    }
    let ghost mut lists: Seq<Seq<Seq<char>>> = Seq::empty();
    let mut i: usize = 0;
    while i < servers.len()
        invariant
            i <= servers@.len(),
            lists.len() == i,
            forall|j: int| 0 <= j < i ==> sorted(#[trigger] lists[j])
                && lists[j].to_multiset() == server_tools(words(tool_names@), servers@[j].0@).to_multiset(),
            views(lines@) == tools_header() + server_blocks(servers@.subrange(0, i as int), lists),
        decreases servers@.len() - i,
    {
        let (name, cfg) = (&servers[i].0, &servers[i].1);
        let tools = sort_strings(server_tools_exec(tool_names, name.as_str()));
        let ghost prev = lines@;
        let mut a = String::from_str("  • Server: ");
        a.append(name.as_str());
        let b = transport_line_exec(&cfg.transport);
        let c = if tools.len() == 0 {
            String::from_str("    • Tools: (none)")
        } else {
            let mut c = String::from_str("    • Tools: ");
            let joined = join_with(&tools, ", ");
            c.append(joined.as_str());
            c
        };
        let d = String::new();
        lines.push(a);
        lines.push(b);
        lines.push(c);
        lines.push(d);
        proof {
            let t = words(tools@);
            assert(c@ == tools_line(t));
            let old_lists = lists;
            lists = lists.push(t);
            let sub = servers@.subrange(0, i as int + 1);
            assert(sub.drop_last() =~= servers@.subrange(0, i as int));
            assert(lists.subrange(0, i as int) =~= old_lists);
            assert(sub[i as int] == servers@[i as int]);
            assert(views(lines@) =~= views(prev) + seq![a@, b@, c@, d@]);
            assert(views(lines@) =~= tools_header() + server_blocks(sub, lists));
        }
        i += 1;
    }
    proof {
        assert(servers@.subrange(0, servers@.len() as int) == servers@);
    }
    lines
}


/// The `/mcp` listing when no server is configured.
pub fn empty_mcp_output() -> (r: Vec<String>)
    ensures
        views(r@) == tools_header() + seq![
            "  • No MCP servers configured."@,
            "    See the "@ + "\u{1b}]8;;https://github.com/openai/codex/blob/main/docs/config.md#mcp_servers\u{7}MCP docs\u{1b}]8;;\u{7}"@
                + " to configure them."@
        ],
{
    let mut lines: Vec<String> = Vec::new();
    lines.push(String::from_str("/mcp"));
    lines.push(String::new());
    lines.push(String::from_str("🔌  MCP Tools"));
    lines.push(String::new());
    lines.push(String::from_str("  • No MCP servers configured."));
    let mut docs = String::from_str("    See the ");
    docs.append("\u{1b}]8;;https://github.com/openai/codex/blob/main/docs/config.md#mcp_servers\u{7}MCP docs\u{1b}]8;;\u{7}");
    docs.append(" to configure them.");
    lines.push(docs);
    proof {
        assert(views(lines@) =~= tools_header() + seq![
            "  • No MCP servers configured."@,
            "    See the "@ + "\u{1b}]8;;https://github.com/openai/codex/blob/main/docs/config.md#mcp_servers\u{7}MCP docs\u{1b}]8;;\u{7}"@
                + " to configure them."@
        ]);
    }
    lines
}

/// An informational line: a bullet, the message and, if given, a hint.
pub fn new_info_event(message: String, hint: Option<String>) -> (r: String)
    ensures
        r@ == "• "@ + message@ + match hint {
            Some(h) => " "@ + h@,
            None => Seq::empty(),
        },
{
    let ghost h0 = hint;
    let mut line = String::from_str("• ");
    line.append(message.as_str());
    if let Some(h) = hint {
        line.append(" ");
        line.append(h.as_str());
    }
    proof {
        if h0 is None {
            assert(line@ =~= "• "@ + message@ + Seq::<char>::empty());
        }
    }
    line
}


// ---------------------------------------------------------------------------
// Session start and user prompts

/// What is shown once the session is configured.
#[derive(Debug)]
pub enum SessionInfoCell {
    /// The header card for `model`, then `help_lines`.
    Welcome { model: String, reasoning_effort: Option<ReasoningEffort>, help_lines: Vec<String> },
    /// Nothing: the model is the one asked for.
    Unchanged,
    /// The model differs from the one asked for.
    ModelChanged { lines: Vec<String> },
}

pub open spec fn help_text() -> Seq<Seq<char>> {
    seq![
        "  To get started, describe a task or try one of these commands:"@,
        Seq::empty(),
        "  "@ + "/init"@ + " - create an AGENTS.md file with instructions for Codex"@,
        "  "@ + "/status"@ + " - show current session configuration"@,
        "  "@ + "/approvals"@ + " - choose what Codex can do without approval"@,
        "  "@ + "/model"@ + " - choose what model and reasoning effort to use"@
    ]
}

fn help_line(command: &str, text: &str) -> (r: String)
    ensures
        r@ == "  "@ + command@ + text@,
{
    let mut s = String::from_str("  ");
    s.append(command);
    s.append(text);
    s
}

/// The first configuration of a session shows the welcome card; a later
/// one shows a notice only when the model used differs from the one asked for.
pub fn new_session_info(
    configured_model: &String,
    model: String,
    reasoning_effort: Option<ReasoningEffort>,
    is_first_event: bool,
) -> (r: SessionInfoCell)
    ensures
        is_first_event ==> match r {
            SessionInfoCell::Welcome { model: m, reasoning_effort: e, help_lines } =>
                m@ == model@ && e == reasoning_effort && views(help_lines@) == help_text(),
            _ => false,
        },
        !is_first_event && configured_model@ == model@ ==> r is Unchanged,
        !is_first_event && configured_model@ != model@ ==> match r {
            SessionInfoCell::ModelChanged { lines } => views(lines@)
                == seq!["model changed:"@, "requested: "@ + configured_model@, "used: "@ + model@],
            _ => false,
        },
{
    if is_first_event {
        let mut help_lines: Vec<String> = Vec::new();
        help_lines.push(String::from_str("  To get started, describe a task or try one of these commands:"));
        help_lines.push(String::new());
        help_lines.push(help_line("/init", " - create an AGENTS.md file with instructions for Codex"));
        help_lines.push(help_line("/status", " - show current session configuration"));
        help_lines.push(help_line("/approvals", " - choose what Codex can do without approval"));
        help_lines.push(help_line("/model", " - choose what model and reasoning effort to use"));
        proof {
            assert(views(help_lines@) =~= help_text());
        }
        SessionInfoCell::Welcome { model, reasoning_effort, help_lines }
    } else if str_eq(configured_model.as_str(), model.as_str()) {
        SessionInfoCell::Unchanged
    } else {
        let mut requested = String::from_str("requested: ");
        requested.append(configured_model.as_str());
        let mut used = String::from_str("used: ");
        used.append(model.as_str());
        let lines = vec![String::from_str("model changed:"), requested, used];
        proof {
            assert(views(lines@) =~= seq!["model changed:"@, "requested: "@ + configured_model@, "used: "@ + model@]);
        }
        SessionInfoCell::ModelChanged { lines }
    }
}

/// A user prompt in the transcript: a `user` title, then its lines.
pub fn user_transcript_lines(message: &str) -> (r: Vec<String>)
    ensures
        views(r@) == seq!["user"@] + split_lines(message@),
{
    let mut out: Vec<String> = Vec::new();
    out.push(String::from_str("user"));
    let ghost first = out@;
    let mut body = lines_of(message);
    let ghost body_view = views(body@);
    out.append(&mut body);
    proof {
        assert(views(out@) =~= views(first) + body_view);
        assert(views(first) =~= seq!["user"@]);
    }
    out
}


pub open spec fn effort_label(e: ReasoningEffort) -> Seq<char> {
    match e {
        ReasoningEffort::Minimal => "minimal"@,
        ReasoningEffort::Low => "low"@,
        ReasoningEffort::Medium => "medium"@,
        ReasoningEffort::High => "high"@,
    }
}

/// The word shown for a reasoning effort.
pub fn reasoning_label(effort: Option<ReasoningEffort>) -> (r: Option<&'static str>)
    ensures
        r is None <==> effort is None,
        r is Some ==> r.unwrap()@ == effort_label(effort.unwrap()),
{
    match effort {
        Some(ReasoningEffort::Minimal) => Some("minimal"),
        Some(ReasoningEffort::Low) => Some("low"),
        Some(ReasoningEffort::Medium) => Some("medium"),
        Some(ReasoningEffort::High) => Some("high"),
        None => None,
    }
}

/// The model row of the session header card: the label padded to the width
/// of `directory:`, the model and its effort, and how to change them.
pub open spec fn model_row(model: Seq<char>, effort: Option<ReasoningEffort>) -> Seq<char> {
    "model:    "@ + " "@ + model + (match effort {
        Some(e) => " "@ + effort_label(e),
        None => Seq::empty(),
    }) + "   "@ + "/model"@ + " to change"@
}

pub fn session_header_model_line(model: &str, effort: Option<ReasoningEffort>) -> (r: String)
    ensures
        r@ == model_row(model@, effort),
{
    let mut s = String::from_str("model:    ");
    s.append(" ");
    s.append(model);
    let ghost mid = s@;
    if let Some(label) = reasoning_label(effort) {
        s.append(" ");
        s.append(label);
    }
    proof {
        if effort is None {
            assert(s@ =~= mid + Seq::<char>::empty());
        }
    }
    s.append("   ");
    s.append("/model");
    s.append(" to change");
    s
}

} // verus!

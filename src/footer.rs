//! The footer under the composer: which hint it shows, and the text of its
//! lines. Styling and drawing happen elsewhere.

use vstd::prelude::*;

verus! {

#[derive(Debug, Clone, Copy, PartialEq, Eq, Structural)]
pub struct FooterProps {
    pub mode: FooterMode,
    pub esc_backtrack_hint: bool,
    pub use_shift_enter_hint: bool,
    pub is_task_running: bool,
}

#[derive(Debug, Clone, Copy, PartialEq, Eq, Structural)]
pub enum FooterMode {
    CtrlCReminder,
    ShortcutPrompt,
    ShortcutOverlay,
    EscHint,
}

#[derive(Debug, Clone, Copy, PartialEq, Eq, Structural)]
pub struct ShortcutsState {
    pub use_shift_enter_hint: bool,
    pub esc_backtrack_hint: bool,
    pub is_task_running: bool,
}

/// When a key binding is shown in the overlay.
#[derive(Debug, Clone, Copy, PartialEq, Eq, Structural)]
pub enum DisplayCondition {
    Always,
    WhenShiftEnterHint,
    WhenNotShiftEnterHint,
}

impl DisplayCondition {
    pub open spec fn holds(self, state: ShortcutsState) -> bool {
        match self {
            DisplayCondition::Always => true,
            DisplayCondition::WhenShiftEnterHint => state.use_shift_enter_hint,
            DisplayCondition::WhenNotShiftEnterHint => !state.use_shift_enter_hint,
        }
    }

    pub fn matches(self, state: ShortcutsState) -> (r: bool)
        ensures
            r == self.holds(state),
    {
        match self {
            DisplayCondition::Always => true,
            DisplayCondition::WhenShiftEnterHint => state.use_shift_enter_hint,
            DisplayCondition::WhenNotShiftEnterHint => !state.use_shift_enter_hint,
        }
    }
}

/// `?` toggles the overlay, unless the ctrl-c reminder is showing.
pub fn toggle_shortcut_mode(current: FooterMode, ctrl_c_hint: bool) -> (r: FooterMode)
    ensures
        ctrl_c_hint ==> r == current,
        !ctrl_c_hint && (current == FooterMode::ShortcutOverlay || current == FooterMode::CtrlCReminder)
            ==> r == FooterMode::ShortcutPrompt,
        !ctrl_c_hint && (current == FooterMode::ShortcutPrompt || current == FooterMode::EscHint)
            ==> r == FooterMode::ShortcutOverlay,
{
    if ctrl_c_hint {
        return current;
    }
    match current {
        FooterMode::ShortcutOverlay | FooterMode::CtrlCReminder => FooterMode::ShortcutPrompt,
        _ => FooterMode::ShortcutOverlay,
    }
}

/// Esc shows its hint only while no task runs.
pub fn esc_hint_mode(current: FooterMode, is_task_running: bool) -> (r: FooterMode)
    ensures
        r == (if is_task_running { current } else { FooterMode::EscHint }),
{
    if is_task_running {
        current
    } else {
        FooterMode::EscHint
    }
}

/// Typing dismisses the esc hint and the overlay.
pub fn reset_mode_after_activity(current: FooterMode) -> (r: FooterMode)
    ensures
        r == (if current == FooterMode::EscHint || current == FooterMode::ShortcutOverlay {
            FooterMode::ShortcutPrompt
        } else {
            current
        }),
{
    match current {
        FooterMode::EscHint | FooterMode::ShortcutOverlay => FooterMode::ShortcutPrompt,
        other => other,
    }
}

pub fn prompt_mode() -> (r: FooterMode)
    ensures
        r == FooterMode::ShortcutPrompt,
{
    FooterMode::ShortcutPrompt
}

/// The overlay's entries, in order.
pub open spec fn overlay_entries(state: ShortcutsState) -> Seq<Seq<char>> {
    seq![
        "/"@ + " for commands"@,
        if state.use_shift_enter_hint { "shift + enter"@ + " for newline"@ } else { "ctrl + j"@ + " for newline"@ },
        "shift + tab"@ + " to change mode"@,
        "@"@ + " for file paths"@,
        "ctrl + v"@ + " to paste images"@,
        if state.esc_backtrack_hint { "esc"@ + " again to edit previous message"@ } else { "esc"@ + " esc to edit previous message"@ },
        if state.is_task_running { "ctrl + c"@ + " to interrupt"@ } else { "ctrl + c"@ + " to exit"@ },
        "ctrl + t"@ + " to view transcript"@
    ]
}

fn concat(a: &str, b: &str) -> (r: String)
    ensures
        r@ == a@ + b@,
{
    let mut s = String::from_str(a);
    s.append(b);
    s
}

pub fn shortcut_overlay_entries(state: ShortcutsState) -> (r: Vec<String>)
    ensures
        r@.len() == 8,
        forall|i: int| 0 <= i < 8 ==> (#[trigger] r@[i])@ == overlay_entries(state)[i],
{
    let mut v: Vec<String> = Vec::new();
    v.push(concat("/", " for commands"));
    if DisplayCondition::WhenShiftEnterHint.matches(state) {
        v.push(concat("shift + enter", " for newline"));
    } else {
        v.push(concat("ctrl + j", " for newline"));
    }
    v.push(concat("shift + tab", " to change mode"));
    v.push(concat("@", " for file paths"));
    v.push(concat("ctrl + v", " to paste images"));
    if state.esc_backtrack_hint {
        v.push(concat("esc", " again to edit previous message"));
    } else {
        v.push(concat("esc", " esc to edit previous message"));
    }
    if state.is_task_running {
        v.push(concat("ctrl + c", " to interrupt"));
    } else {
        v.push(concat("ctrl + c", " to exit"));
    }
    v.push(concat("ctrl + t", " to view transcript"));
    v
}

pub open spec fn spaces(n: nat) -> Seq<char> {
    Seq::new(n, |i: int| ' ')
}

/// `s` padded on the right with spaces to at least `w` characters.
pub open spec fn pad_right(s: Seq<char>, w: nat) -> Seq<char> {
    if s.len() >= w {
        s
    } else {
        s + spaces((w - s.len()) as nat)
    }
}

/// The widest entry among `entries[..k]` that falls in column `c` of three.
pub open spec fn column_width(entries: Seq<Seq<char>>, c: int, k: int) -> nat
    decreases k,
{
    if k <= 0 {
        0
    } else {
        let w = column_width(entries, c, k - 1);
        if (k - 1) % 3 == c && entries[k - 1].len() > w {
            entries[k - 1].len()
        } else {
            w
        }
    }
}

/// Padded width of the first two columns: the widest entry clamped to
/// 22..=24 for the first and 0..=28 for the second, plus two spaces.
pub open spec fn padded_width(entries: Seq<Seq<char>>, c: int) -> nat {
    let w = column_width(entries, c, entries.len() as int);
    let lo: nat = if c == 0 { 22 } else { 0 };
    let hi: nat = if c == 0 { 24 } else { 28 };
    let clamped = if w < lo { lo } else { w };
    (if clamped > hi { hi } else { clamped }) + 2
}

/// The text of cell `c` of row `r`.
pub open spec fn cell(entries: Seq<Seq<char>>, r: int, c: int) -> Seq<char> {
    let idx = r * 3 + c;
    if idx >= entries.len() {
        Seq::empty()
    } else if c < 2 {
        pad_right(entries[idx], padded_width(entries, c))
    } else {
        "  "@ + entries[idx]
    }
}

/// The entries laid out in three columns, each row indented by two spaces.
pub open spec fn columns(entries: Seq<Seq<char>>) -> Seq<Seq<char>> {
    Seq::new(
        ((entries.len() + 2) / 3) as nat,
        |r: int| "  "@ + cell(entries, r, 0) + cell(entries, r, 1) + cell(entries, r, 2),
    )
}

fn push_spaces(s: &mut String, n: usize)
    ensures
        final(s)@ == old(s)@ + spaces(n as nat),
{
    proof {
        reveal_strlit(" ");
    }
    let mut i: usize = 0;
    while i < n
        invariant
            i <= n,
            s@ == old(s)@ + spaces(i as nat),
        decreases n - i,
    {
        s.append(" ");
        proof {
            reveal_strlit(" ");
            assert(s@ =~= old(s)@ + spaces(i as nat + 1));
        }
        i += 1;
    }
}

pub open spec fn views(v: Seq<String>) -> Seq<Seq<char>> {
    v.map_values(|s: String| s@)
}

fn column_width_exec(entries: &Vec<String>, c: usize) -> (r: usize)
    requires
        c < 3,
    ensures
        r as nat == column_width(views(entries@), c as int, entries@.len() as int),
{
    let mut w: usize = 0;
    let mut k: usize = 0;
    while k < entries.len()
        invariant
            k <= entries@.len(),
            c < 3,
            w as nat == column_width(views(entries@), c as int, k as int),
        decreases entries@.len() - k,
    {
        let len = entries[k].unicode_len();
        if k % 3 == c && len > w {
            w = len;
        }
        k += 1;
    }
    w
}

/// Lays out entries in three columns.
pub fn build_columns(entries: &Vec<String>) -> (r: Vec<String>)
    ensures
        views(r@) == columns(views(entries@)),
{
    let ghost e = views(entries@);
    let n = entries.len();
    let w0 = column_width_exec(entries, 0);
    let w1 = column_width_exec(entries, 1);
    let p0: usize = (if w0 < 22 { 22 } else if w0 > 24 { 24 } else { w0 }) + 2;
    let p1: usize = (if w1 > 28 { 28 } else { w1 }) + 2;
    proof {
        assert(p0 as nat == padded_width(e, 0));
        assert(p1 as nat == padded_width(e, 1));
    }
    let rows = n / 3 + (if n % 3 == 0 { 0 } else { 1 });
    proof {
        assert(rows == (n + 2) / 3);
        reveal_strlit("  ");
    }
    let mut lines: Vec<String> = Vec::new();
    let mut row: usize = 0;
    while row < rows
        invariant
            row <= rows,
            rows == (n + 2) / 3,
            n == entries@.len(),
            e == views(entries@),
            p0 as nat == padded_width(e, 0),
            p1 as nat == padded_width(e, 1),
            lines@.len() == row,
            forall|j: int| 0 <= j < row ==> (#[trigger] lines@[j])@ == columns(e)[j],
        decreases rows - row,
    {
        let mut line = String::from_str("  ");
        let mut col: usize = 0;
        while col < 3
            invariant
                col <= 3,
                row < rows,
                rows == (n + 2) / 3,
                n == entries@.len(),
                e == views(entries@),
                p0 as nat == padded_width(e, 0),
                p1 as nat == padded_width(e, 1),
                line@ == "  "@ + (if col >= 1 { cell(e, row as int, 0) } else { Seq::empty() })
                    + (if col >= 2 { cell(e, row as int, 1) } else { Seq::empty() })
                    + (if col >= 3 { cell(e, row as int, 2) } else { Seq::empty() }),
            decreases 3 - col,
        {
            let ghost before = line@;
            let idx = row * 3 + col;
            if idx < n {
                let entry = &entries[idx];
                if col < 2 {
                    let target = if col == 0 { p0 } else { p1 };
                    line.append(entry.as_str());
                    let len = entry.unicode_len();
                    if len < target {
                        push_spaces(&mut line, target - len);
                    }
                    proof {
                        assert(e[idx as int] == entry@);
                        assert(line@ =~= before + cell(e, row as int, col as int));
                    }
                } else {
                    line.append("  ");
                    line.append(entry.as_str());
                    proof {
                        assert(e[idx as int] == entry@);
                        assert(line@ =~= before + cell(e, row as int, col as int));
                    }
                }
            } else {
                proof {
                    assert(line@ =~= before + cell(e, row as int, col as int));
                }
            }
            proof {
                if col == 0 {
                    assert(line@ =~= "  "@ + cell(e, row as int, 0));
                } else if col == 1 {
                    assert(line@ =~= "  "@ + cell(e, row as int, 0) + cell(e, row as int, 1));
                } else {
                    assert(line@ =~= "  "@ + cell(e, row as int, 0) + cell(e, row as int, 1) + cell(e, row as int, 2));
                }
            }
            col += 1;
        }
        lines.push(line);
        row += 1;
    }
    proof {
        assert(views(lines@) =~= columns(e));
    }
    lines
}

/// The text of the footer's lines.
pub open spec fn footer_text(props: FooterProps) -> Seq<Seq<char>> {
    let state = ShortcutsState {
        use_shift_enter_hint: props.use_shift_enter_hint,
        esc_backtrack_hint: props.esc_backtrack_hint,
        is_task_running: props.is_task_running,
    };
    match props.mode {
        FooterMode::CtrlCReminder => seq![
            "  ctrl + c again to "@ + (if props.is_task_running { "interrupt"@ } else { "quit"@ })
        ],
        FooterMode::ShortcutPrompt => seq!["? for shortcuts"@],
        FooterMode::ShortcutOverlay => columns(overlay_entries(state)),
        FooterMode::EscHint => seq![
            if props.esc_backtrack_hint { "  esc again to edit previous message"@ } else { "  esc esc to edit previous message"@ }
        ],
    }
}

pub fn footer_lines(props: FooterProps) -> (r: Vec<String>)
    ensures
        views(r@) == footer_text(props),
{
    let state = ShortcutsState {
        use_shift_enter_hint: props.use_shift_enter_hint,
        esc_backtrack_hint: props.esc_backtrack_hint,
        is_task_running: props.is_task_running,
    };
    match props.mode {
        FooterMode::CtrlCReminder => {
            let action = if props.is_task_running {
                "interrupt"
            } else {
                "quit"
            };
            let v = vec![concat("  ctrl + c again to ", action)];
            proof {
                assert(views(v@) =~= footer_text(props));
            }
            v
        },
        FooterMode::ShortcutPrompt => {
            let v = vec![String::from_str("? for shortcuts")];
            proof {
                assert(views(v@) =~= footer_text(props));
            }
            v
        },
        FooterMode::ShortcutOverlay => {
            let entries = shortcut_overlay_entries(state);
            proof {
                assert(views(entries@) =~= overlay_entries(state));
            }
            build_columns(&entries)
        },
        FooterMode::EscHint => {
            let text = if props.esc_backtrack_hint {
                "  esc again to edit previous message"
            } else {
                "  esc esc to edit previous message"
            };
            let v = vec![String::from_str(text)];
            proof {
                assert(views(v@) =~= footer_text(props));
            }
            v
        },
    }
}

pub fn footer_height(props: FooterProps) -> (r: u16)
    ensures
        r as nat == footer_text(props).len(),
{
    let lines = footer_lines(props);
    proof {
        assert(lines@.len() == footer_text(props).len());
        assert(lines@.len() <= 3) by {
            if props.mode == FooterMode::ShortcutOverlay {
                assert(overlay_entries(ShortcutsState {
                    use_shift_enter_hint: props.use_shift_enter_hint,
                    esc_backtrack_hint: props.esc_backtrack_hint,
                    is_task_running: props.is_task_running,
                }).len() == 8);
            }
        }
    }
    lines.len() as u16
}

} // verus!

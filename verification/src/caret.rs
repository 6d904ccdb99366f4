//! What happens at the caret: the keys that the editor takes, the marks around it.
use vstd::prelude::*;
use crate::app::Requests;
use crate::edit::Span;
use crate::lines;
use crate::tabs;
use crate::text;
use crate::text::{char_is_whitespace, char_to_byte, chars_of, string_of};

verus! {

/// Whether Tab inserts spaces.
pub fn tab_inserts_spaces(read_only: bool, insert_spaces: bool, focused: bool, tab: bool) -> (b:
    bool)
    ensures
        b == (!read_only && insert_spaces && focused && tab),
{
    !read_only && insert_spaces && focused && tab
}

/// Whether Enter is looked at for indentation: not while the completion list owns it.
pub fn enter_may_indent(read_only: bool, completing: bool, focused: bool, bare_enter: bool) -> (b:
    bool)
    ensures
        b == (!read_only && !completing && focused && bare_enter),
{
    !read_only && !completing && focused && bare_enter
}

/// Whether the editor takes the keyboard by itself: when nothing else has it.
pub fn editor_takes_focus(read_only: bool, overlay_open: bool, anything_focused: bool, popup: bool) -> (b:
    bool)
    ensures
        b == (!read_only && !overlay_open && !anything_focused && !popup),
{
    !read_only && !overlay_open && !anything_focused && !popup
}

/// What is to be done at the caret in this frame.
#[derive(Clone, Copy, Debug, PartialEq, Eq, Structural)]
pub struct CaretCommands {
    pub jump_bracket: bool,
    pub insert_datetime: bool,
    pub dup_selection: bool,
}

/// Take the requests for the caret. A buffer that is browsed only leaves them waiting.
pub fn take_caret_requests(q: &mut Requests, read_only: bool) -> (c: CaretCommands)
    ensures
        c == (if read_only {
            CaretCommands { jump_bracket: false, insert_datetime: false, dup_selection: false }
        } else {
            CaretCommands {
                jump_bracket: old(q).jump_bracket,
                insert_datetime: old(q).insert_datetime,
                dup_selection: old(q).dup_selection,
            }
        }),
        *final(q) == (if read_only {
            *old(q)
        } else {
            Requests {
                jump_bracket: false,
                insert_datetime: false,
                dup_selection: false,
                ..*old(q)
            }
        }),
{
    if read_only {
        return CaretCommands { jump_bracket: false, insert_datetime: false, dup_selection: false };
    }
    let was = *q;
    *q =
    Requests {
        jump_bracket: false,
        insert_datetime: false,
        dup_selection: false,
        ..was
    };
    CaretCommands {
        jump_bracket: was.jump_bracket,
        insert_datetime: was.insert_datetime,
        dup_selection: was.dup_selection,
    }
}

/// A text longer than this, in bytes, is not searched at every frame.
pub const SCAN_CAP: usize = 500_000;

/// The smaller of two places.
pub open spec fn first_of(a: int, b: int) -> int {
    if a < b {
        a
    } else {
        b
    }
}

/// The selected characters.
pub open spec fn selection(s: Seq<char>, primary: int, secondary: int) -> Seq<char> {
    let n = s.len() as int;
    let lo = text::clamp(first_of(primary, secondary), n);
    let hi = text::clamp(primary + secondary - first_of(primary, secondary), n);
    s.subrange(lo, hi)
}

/// The selection is what lies between its two ends, whichever of them moves.
pub proof fn law_selection_lies_between_its_ends(s: Seq<char>, a: int, b: int)
    requires
        0 <= a <= b <= s.len(),
    ensures
        selection(s, a, b) == s.subrange(a, b),
        selection(s, b, a) == s.subrange(a, b),
        selection(s, a, b + s.len()) == s.skip(a),
{
    assert(selection(s, a, b + s.len()) =~= s.skip(a));
}

/// Whether other occurrences of the selection are marked: it is on one line and not blank.
pub open spec fn worth_marking(sel: Seq<char>) -> bool {
    lines::one_line(sel) && exists|i: int| 0 <= i < sel.len() && !text::is_white_space(
        #[trigger] sel[i],
    )
}

/// A selection over several lines, or of whitespace alone, is not looked for.
pub proof fn law_what_is_worth_marking(sel: Seq<char>, i: int)
    requires
        0 <= i < sel.len(),
    ensures
        sel[i] == '\n' ==> !worth_marking(sel),
        (forall|k: int| 0 <= k < sel.len() ==> text::is_white_space(#[trigger] sel[k]))
            ==> !worth_marking(sel),
        !text::is_white_space(sel[i]) && (forall|k: int|
            0 <= k < sel.len() ==> #[trigger] sel[k] != '\n') ==> worth_marking(sel),
{
}

/// The text whose other occurrences are marked: the selection, where that is on one line
/// and not blank and the text is not too long.
pub fn occurrence_query(s: &str, primary: usize, secondary: usize, enabled: bool) -> (r: Option<
    String,
>)
    ensures
        match r {
            Some(q) => enabled && primary != secondary && text::byte_offset(s@, s@.len() as int)
                <= SCAN_CAP && q@ == selection(s@, primary as int, secondary as int)
                && worth_marking(q@),
            None => !enabled || primary == secondary || text::byte_offset(s@, s@.len() as int)
                > SCAN_CAP || !worth_marking(selection(s@, primary as int, secondary as int)),
        },
{
    if !enabled || primary == secondary {
        return None;
    }
    let chars = chars_of(s);
    let n: usize = chars.len();
    if char_to_byte(s, n) > SCAN_CAP {
        return None;
    }
    let (lo, hi): (usize, usize) = if primary < secondary {
        (primary, secondary)
    } else {
        (secondary, primary)
    };
    let a: usize = if lo < n {
        lo
    } else {
        n
    };
    let b: usize = if hi < n {
        hi
    } else {
        n
    };
    let ghost sel = selection(s@, primary as int, secondary as int);
    assert(sel =~= chars@.subrange(a as int, b as int));
    let mut blank: bool = true;
    let mut i: usize = a;
    while i < b
        invariant
            a <= i <= b <= chars@.len(),
            sel == chars@.subrange(a as int, b as int),
            sel == selection(s@, primary as int, secondary as int),
            forall|k: int| 0 <= k < i - a ==> #[trigger] sel[k] != '\n',
            blank ==> forall|k: int| 0 <= k < i - a ==> text::is_white_space(#[trigger] sel[k]),
            !blank ==> exists|k: int|
                0 <= k < sel.len() && !text::is_white_space(#[trigger] sel[k]),
        decreases b - i,
    {
        let c = chars[i];
        assert(sel[i - a] == c);
        if c == '\n' {
            assert(!lines::one_line(sel));
            return None;
        }
        if !char_is_whitespace(c) {
            blank = false;
        }
        i += 1;
    }
    if blank {
        return None;
    }
    Some(string_of(&chars, a, b))
}

/// The occurrences other than the selection itself, which starts at byte `at`.
pub open spec fn others(hits: Seq<Span>, at: int, n: int) -> Seq<Span>
    decreases n,
{
    if n <= 0 {
        Seq::empty()
    } else if hits[n - 1].start == at {
        others(hits, at, n - 1)
    } else {
        others(hits, at, n - 1).push(hits[n - 1])
    }
}

/// Every occurrence that starts elsewhere is marked, in order, and the selection itself is not.
pub proof fn law_other_occurrences_are_all_the_others(hits: Seq<Span>, at: int, n: int)
    requires
        0 <= n <= hits.len(),
    ensures
        ({
            let elsewhere = |i: int| hits[i].start != at;
            &&& others(hits, at, n).len() == tabs::tally(elsewhere, n)
            &&& forall|i: int|
                0 <= i < n && (#[trigger] hits[i]).start != at ==> 0 <= tabs::tally(elsewhere, i)
                    < others(hits, at, n).len() && others(hits, at, n)[tabs::tally(elsewhere, i)]
                    == hits[i]
        }),
    decreases n,
{
    if n > 0 {
        law_other_occurrences_are_all_the_others(hits, at, n - 1);
    }
}

/// The occurrences to mark: all but the selection itself.
pub fn other_occurrences(hits: &Vec<Span>, at: usize) -> (v: Vec<Span>)
    ensures
        v@ == others(hits@, at as int, hits@.len() as int),
{
    let mut v: Vec<Span> = Vec::new();
    let mut i: usize = 0;
    while i < hits.len()
        invariant
            i <= hits@.len(),
            v@ == others(hits@, at as int, i as int),
        decreases hits@.len() - i,
    {
        if hits[i].start != at {
            v.push(hits[i]);
        }
        i += 1;
    }
    v
}

/// Whether the brackets at the caret are marked: without a selection, in a text that is
/// not too long.
pub fn marks_brackets(enabled: bool, collapsed: bool, bytes: usize) -> (b: bool)
    ensures
        b == (enabled && collapsed && bytes <= SCAN_CAP),
{
    enabled && collapsed && bytes <= SCAN_CAP
}

/// A space or a tab.
pub open spec fn is_blank(c: char) -> bool {
    c == ' ' || c == '\t'
}

/// Where the blanks at the end of a row start.
pub open spec fn blanks_from(row: Seq<char>, n: int) -> int
    decreases n,
{
    if n <= 0 {
        0
    } else if is_blank(row[n - 1]) {
        blanks_from(row, n - 1)
    } else {
        n
    }
}

/// From where the blanks at the end of a row start there is nothing but spaces and tabs, and
/// right before it there is none.
pub proof fn law_trailing_blanks(row: Seq<char>, n: int)
    requires
        0 <= n <= row.len(),
    ensures
        ({
            let k = blanks_from(row, n);
            &&& 0 <= k <= n
            &&& forall|i: int| k <= i < n ==> #[trigger] row[i] == ' ' || row[i] == '\t'
            &&& k > 0 ==> row[k - 1] != ' ' && row[k - 1] != '\t'
        }),
    decreases n,
{
    if n > 0 && is_blank(row[n - 1]) {
        law_trailing_blanks(row, n - 1);
    }
}

/// Where the blanks at the end of a row start; `None` when it ends in something else.
pub fn trailing_blanks(row: &Vec<char>) -> (r: Option<usize>)
    ensures
        match r {
            Some(i) => i < row@.len() && i == blanks_from(row@, row@.len() as int),
            None => blanks_from(row@, row@.len() as int) == row@.len(),
        },
{
    let n: usize = row.len();
    let mut i: usize = n;
    while i > 0 && (row[i - 1] == ' ' || row[i - 1] == '\t')
        invariant
            i <= n == row@.len(),
            blanks_from(row@, n as int) == blanks_from(row@, i as int),
        decreases i,
    {
        i -= 1;
    }
    if i < n {
        Some(i)
    } else {
        None
    }
}

/// How many blanks a row starts with, from the `i`th character on.
pub open spec fn leading_from(row: Seq<char>, i: int) -> int
    decreases row.len() - i,
{
    if i >= row.len() || !is_blank(row[i]) {
        i
    } else {
        leading_from(row, i + 1)
    }
}

/// The blanks that a row starts with are spaces and tabs, as far as the first other character.
pub proof fn law_leading_blanks(row: Seq<char>, i: int)
    requires
        0 <= i <= row.len(),
    ensures
        ({
            let k = leading_from(row, i);
            &&& i <= k <= row.len()
            &&& forall|j: int| i <= j < k ==> #[trigger] row[j] == ' ' || row[j] == '\t'
            &&& k < row.len() ==> row[k] != ' ' && row[k] != '\t'
        }),
    decreases row.len() - i,
{
    if i < row.len() && is_blank(row[i]) {
        law_leading_blanks(row, i + 1);
    }
}

/// How many blanks a row starts with: the indentation that guides are drawn through.
pub fn leading_blanks(row: &Vec<char>) -> (k: usize)
    ensures
        k == leading_from(row@, 0),
{
    let mut i: usize = 0;
    while i < row.len() && (row[i] == ' ' || row[i] == '\t')
        invariant
            i <= row@.len(),
            leading_from(row@, 0) == leading_from(row@, i as int),
        decreases row@.len() - i,
    {
        i += 1;
    }
    i
}

/// The mark that is drawn over a character when white space is shown.
pub fn whitespace_mark(c: char) -> (m: Option<&'static str>)
    ensures
        match m {
            Some(s) => (c == ' ' && s@ == "·"@) || (c == '\t' && s@ == "→"@),
            None => c != ' ' && c != '\t',
        },
{
    if c == ' ' {
        Some("·")
    } else if c == '\t' {
        Some("→")
    } else {
        None
    }
}

/// Whether a row starts a line: the first one, and each after one that ends in a line
/// feed.
pub open spec fn starts_line(ends: Seq<bool>, i: int) -> bool {
    i == 0 || ends[i - 1]
}

/// The rows among the first `n` that start a line.
pub open spec fn line_rows_upto(ends: Seq<bool>, n: int) -> Seq<usize>
    decreases n,
{
    if n <= 0 {
        Seq::empty()
    } else if starts_line(ends, n - 1) {
        line_rows_upto(ends, n - 1).push((n - 1) as usize)
    } else {
        line_rows_upto(ends, n - 1)
    }
}

/// The rows with a number are the first and those behind a row that ends its line, in order;
/// a row that a long line was wrapped into has none.
pub proof fn law_numbered_rows(ends: Seq<bool>, n: int)
    requires
        0 <= n <= ends.len() <= usize::MAX,
    ensures
        ({
            let begins = |i: int| i == 0 || ends[i - 1];
            let v = line_rows_upto(ends, n);
            &&& v.len() == tabs::tally(begins, n)
            &&& forall|i: int|
                #![trigger tabs::tally(begins, i)]
                0 <= i < n && (i == 0 || ends[i - 1]) ==> 0 <= tabs::tally(begins, i) < v.len()
                    && v[tabs::tally(begins, i)] == i
        }),
    decreases n,
{
    if n > 0 {
        law_numbered_rows(ends, n - 1);
    }
}

/// The rows that get a line number. `ends` says of each row whether it ends in a line
/// feed.
pub fn line_rows(ends: &Vec<bool>) -> (v: Vec<usize>)
    ensures
        v@ == line_rows_upto(ends@, ends@.len() as int),
{
    let n: usize = ends.len();
    let mut v: Vec<usize> = Vec::new();
    let mut fresh: bool = true;
    let mut i: usize = 0;
    while i < n
        invariant
            n == ends@.len(),
            i <= n,
            v@ == line_rows_upto(ends@, i as int),
            i < n ==> fresh == starts_line(ends@, i as int),
        decreases n - i,
    {
        if fresh {
            v.push(i);
        }
        fresh = ends[i];
        i += 1;
    }
    v
}

} // verus!

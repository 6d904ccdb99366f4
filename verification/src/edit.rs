//! Edits at the caret: indentation, insertion, duplication and replacement.
//!
//! A selection is given by the character indices of its two ends, the moving end
//! (`primary`) first; a bare caret has both ends at one place.
use vstd::prelude::*;
use vstd::string::*;
use crate::lines;
use crate::text;
use crate::text::{byte_to_char_index, chars_of, decimal_string, is_boundary, splice_chars, string_of};

verus! {

/// `n` spaces.
pub open spec fn blanks(n: nat) -> Seq<char> {
    Seq::new(n, |i: int| ' ')
}

/// The smaller of two positions.
pub open spec fn lower(a: int, b: int) -> int {
    if a <= b {
        a
    } else {
        b
    }
}

/// The greater of two positions.
pub open spec fn upper(a: int, b: int) -> int {
    if a <= b {
        b
    } else {
        a
    }
}

/// A text with its characters `lo..hi`, clamped to it, replaced by `ins`.
pub open spec fn put(s: Seq<char>, lo: int, hi: int, ins: Seq<char>) -> Seq<char> {
    text::splice(s, text::clamp(lo, s.len() as int), text::clamp(hi, s.len() as int), ins)
}

/// The two ends of a selection in order are the same two ends.
pub proof fn law_ends_in_order(a: int, b: int)
    ensures
        lower(a, b) <= upper(a, b),
        (lower(a, b) == a && upper(a, b) == b) || (lower(a, b) == b && upper(a, b) == a),
{
}

/// Putting something in the place of a stretch keeps what stands before and behind the
/// stretch; ends beyond the text count as its end.
pub proof fn law_put_replaces_the_stretch(s: Seq<char>, lo: int, hi: int, ins: Seq<char>)
    requires
        0 <= lo <= hi,
    ensures
        hi <= s.len() ==> put(s, lo, hi, ins) == s.take(lo) + ins + s.skip(hi),
        lo <= s.len() < hi ==> put(s, lo, hi, ins) == s.take(lo) + ins,
        s.len() < lo ==> put(s, lo, hi, ins) == s + ins,
{
    let n = s.len() as int;
    if s.len() < hi {
        assert(s.skip(n) =~= Seq::<char>::empty());
        if lo <= n {
            assert(put(s, lo, hi, ins) =~= s.take(lo) + ins);
        } else {
            assert(put(s, lo, hi, ins) =~= s + ins);
        }
    }
}

/// Indenting puts spaces, and nothing else, in the place of the selection: as many as the
/// width says.
pub proof fn law_indent_is_spaces(s: Seq<char>, lo: int, hi: int, width: nat)
    requires
        0 <= lo <= hi <= s.len(),
    ensures
        ({
            let out = put(s, lo, hi, blanks(width));
            &&& out.len() == s.len() - (hi - lo) + width
            &&& out.take(lo) == s.take(lo)
            &&& forall|i: int| lo <= i < lo + width ==> #[trigger] out[i] == ' '
            &&& out.skip(lo + width) == s.skip(hi)
        }),
{
    let out = put(s, lo, hi, blanks(width));
    assert(out.take(lo) =~= s.take(lo));
    assert(out.skip(lo + width) =~= s.skip(hi));
}

/// A string of `n` spaces.
fn spaces(n: usize) -> (s: String)
    ensures
        s@ == blanks(n as nat),
{
    let mut s = String::new();
    let mut i: usize = 0;
    while i < n
        invariant
            i <= n,
            s@ == blanks(i as nat),
        decreases n - i,
    {
        assert(blanks((i + 1) as nat) =~= blanks(i as nat).push(' '));
        s.push(' ');
        i += 1;
    }
    s
}

/// Replace the characters `lo..hi` of `text` with `width` spaces, and give the new
/// text with the caret after the spaces.
pub fn apply_indent(text: &str, lo: usize, hi: usize, width: usize) -> (r: (String, usize))
    requires
        text::clamp(lo as int, text@.len() as int) <= text::clamp(hi as int, text@.len() as int),
        lo + width <= usize::MAX,
    ensures
        r.0@ == put(text@, lo as int, hi as int, blanks(width as nat)),
        r.1 == lo + width,
{
    let ins = spaces(width);
    (splice_chars(text, lo, hi, ins.as_str()), lo + width)
}

/// Tab with "insert spaces" on: the selection becomes `width` spaces, and the caret
/// stands after them.
pub fn indent_with_spaces(text: &str, primary: usize, secondary: usize, width: usize) -> (r: (
    String,
    usize,
))
    requires
        lower(primary as int, secondary as int) + width <= usize::MAX,
    ensures
        r.0@ == put(
            text@,
            lower(primary as int, secondary as int),
            upper(primary as int, secondary as int),
            blanks(width as nat),
        ),
        r.1 == lower(primary as int, secondary as int) + width,
{
    if primary <= secondary {
        apply_indent(text, primary, secondary, width)
    } else {
        apply_indent(text, secondary, primary, width)
    }
}

/// Where the line that holds position `i` starts: after the line feed before it.
pub open spec fn line_start(s: Seq<char>, i: int) -> int
    decreases i,
{
    if i <= 0 {
        0
    } else if s[i - 1] == '\n' {
        i
    } else {
        line_start(s, i - 1)
    }
}

/// Where the line that holds position `i` ends: at the next line feed or the end
/// of the text.
pub open spec fn line_end(s: Seq<char>, i: int) -> int
    decreases s.len() - i,
{
    if i >= s.len() {
        s.len() as int
    } else if s[i] == '\n' {
        i
    } else {
        line_end(s, i + 1)
    }
}

/// Where the run of spaces and tabs that starts at `a` ends, at `b` at the latest.
pub open spec fn blank_run_end(s: Seq<char>, a: int, b: int) -> int
    decreases b - a,
{
    if a >= b || (s[a] != ' ' && s[a] != '\t') {
        a
    } else {
        blank_run_end(s, a + 1, b)
    }
}

/// A line's bounds lie around the position.
pub proof fn lemma_line_bounds(s: Seq<char>, i: int)
    requires
        0 <= i <= s.len(),
    ensures
        0 <= line_start(s, i) <= i <= line_end(s, i) <= s.len(),
{
    lemma_line_start_bounds(s, i);
    lemma_line_end_bounds(s, i);
}

proof fn lemma_line_start_bounds(s: Seq<char>, i: int)
    requires
        0 <= i <= s.len(),
    ensures
        0 <= line_start(s, i) <= i,
    decreases i,
{
    if i > 0 && s[i - 1] != '\n' {
        lemma_line_start_bounds(s, i - 1);
    }
}

proof fn lemma_line_end_bounds(s: Seq<char>, i: int)
    requires
        0 <= i <= s.len(),
    ensures
        i <= line_end(s, i) <= s.len(),
    decreases s.len() - i,
{
    if i < s.len() && s[i] != '\n' {
        lemma_line_end_bounds(s, i + 1);
    }
}

proof fn lemma_blank_run_bounds(s: Seq<char>, a: int, b: int)
    requires
        0 <= a <= b <= s.len(),
    ensures
        a <= blank_run_end(s, a, b) <= b,
    decreases b - a,
{
    if a < b && (s[a] == ' ' || s[a] == '\t') {
        lemma_blank_run_bounds(s, a + 1, b);
    }
}

fn find_line_start(chars: &Vec<char>, i: usize) -> (k: usize)
    requires
        i <= chars@.len(),
    ensures
        k == line_start(chars@, i as int),
        k <= i,
{
    let mut k: usize = i;
    while k > 0 && chars[k - 1] != '\n'
        invariant
            k <= i <= chars@.len(),
            line_start(chars@, i as int) == line_start(chars@, k as int),
        decreases k,
    {
        k -= 1;
    }
    k
}

fn find_line_end(chars: &Vec<char>, i: usize) -> (k: usize)
    requires
        i <= chars@.len(),
    ensures
        k == line_end(chars@, i as int),
        i <= k <= chars@.len(),
{
    let mut k: usize = i;
    while k < chars.len() && chars[k] != '\n'
        invariant
            i <= k <= chars@.len(),
            line_end(chars@, i as int) == line_end(chars@, k as int),
        decreases chars@.len() - k,
    {
        k += 1;
    }
    k
}

fn find_blank_run_end(chars: &Vec<char>, a: usize, b: usize) -> (k: usize)
    requires
        a <= b <= chars@.len(),
    ensures
        k == blank_run_end(chars@, a as int, b as int),
        a <= k <= b,
{
    let mut k: usize = a;
    while k < b && (chars[k] == ' ' || chars[k] == '\t')
        invariant
            a <= k <= b <= chars@.len(),
            blank_run_end(chars@, a as int, b as int) == blank_run_end(
                chars@,
                k as int,
                b as int,
            ),
        decreases b - k,
    {
        k += 1;
    }
    k
}

/// The leading spaces and tabs of the line that a caret at `cursor` stands in, as
/// far as the caret.
pub open spec fn line_indent(s: Seq<char>, cursor: int) -> Seq<char> {
    let c = text::clamp(cursor, s.len() as int);
    let a = line_start(s, c);
    s.subrange(a, blank_run_end(s, a, c))
}

/// Insert a line feed at `cursor` and, after it, a copy of the current line's
/// leading whitespace, so the new line keeps the indentation. Gives the new text
/// and the caret after what was inserted.
pub fn newline_with_indent(text: &str, cursor: usize) -> (r: (String, usize))
    requires
        cursor + text@.len() < usize::MAX,
    ensures
        r.0@ == put(
            text@,
            cursor as int,
            cursor as int,
            seq!['\n'] + line_indent(text@, cursor as int),
        ),
        r.1 == cursor + 1 + line_indent(text@, cursor as int).len(),
{
    let chars = chars_of(text);
    let c: usize = if cursor < chars.len() { cursor } else { chars.len() };
    let a = find_line_start(&chars, c);
    let k = find_blank_run_end(&chars, a, c);
    let indent = string_of(&chars, a, k);
    let mut ins = String::new();
    ins.push('\n');
    ins.append(indent.as_str());
    assert(ins@ =~= seq!['\n'] + line_indent(text@, cursor as int));
    (splice_chars(text, cursor, cursor, ins.as_str()), cursor + 1 + (k - a))
}

/// Enter at the caret: `Some` with the new text and caret when there is an
/// indentation to carry to the next line. `None` leaves the key to the text
/// widget: a selection is to be replaced, or the line is not indented.
pub fn auto_indent_newline(text: &str, primary: usize, secondary: usize) -> (r: Option<
    (String, usize),
>)
    requires
        primary + text@.len() < usize::MAX,
    ensures
        r is Some <==> primary == secondary && line_indent(text@, primary as int).len() > 0,
        r matches Some(e) ==> {
            &&& e.0@ == put(
                text@,
                primary as int,
                primary as int,
                seq!['\n'] + line_indent(text@, primary as int),
            )
            &&& e.1 == primary + 1 + line_indent(text@, primary as int).len()
        },
{
    if primary != secondary {
        return None;
    }
    let (new_text, new_idx) = newline_with_indent(text, primary);
    if new_idx == primary + 1 {
        return None;
    }
    Some((new_text, new_idx))
}

/// The new line that auto-indent opens is indented as the line it came from.
pub proof fn law_newline_keeps_indent(s: Seq<char>, cursor: int)
    requires
        0 <= cursor <= s.len(),
    ensures
        ({
            let ind = line_indent(s, cursor);
            let out = put(s, cursor, cursor, seq!['\n'] + ind);
            let caret = cursor + 1 + ind.len();
            &&& line_start(out, caret) == cursor + 1
            &&& line_indent(out, caret) == ind
        }),
{
    let ind = line_indent(s, cursor);
    let a = line_start(s, cursor);
    lemma_line_bounds(s, cursor);
    lemma_blank_run_bounds(s, a, cursor);
    let e = blank_run_end(s, a, cursor);
    let out = put(s, cursor, cursor, seq!['\n'] + ind);
    let caret = cursor + 1 + ind.len();
    assert(out.subrange(cursor + 1, caret) =~= ind);
    assert(out[cursor] == '\n');
    lemma_blank_run_all(s, a, cursor);
    assert forall|i: int| cursor + 1 <= i < caret implies out[i] == ' ' || out[i] == '\t' by {
        assert(out[i] == ind[i - cursor - 1]);
        assert(ind[i - cursor - 1] == s[a + i - cursor - 1]);
    }
    lemma_line_start_over_blanks(out, cursor + 1, caret);
    lemma_blank_run_full(out, cursor + 1, caret);
    assert(line_indent(out, caret) =~= ind);
}

/// The indentation that Enter carries over is the leading spaces and tabs of the caret's
/// line, all of them as far as the caret, and the text is cut at the caret.
pub proof fn law_newline_carries_the_leading_blanks(s: Seq<char>, cursor: int)
    requires
        0 <= cursor <= s.len(),
    ensures
        ({
            let line = lines::split(s.take(cursor)).last();
            let ind = line_indent(s, cursor);
            &&& ind.len() <= line.len()
            &&& ind == line.take(ind.len() as int)
            &&& forall|i: int| 0 <= i < ind.len() ==> #[trigger] ind[i] == ' ' || ind[i] == '\t'
            &&& ind.len() < line.len() ==> line[ind.len() as int] != ' ' && line[ind.len() as int]
                != '\t'
            &&& put(s, cursor, cursor, seq!['\n'] + ind) == s.take(cursor).push('\n') + ind
                + s.skip(cursor)
        }),
{
    let a = line_start(s, cursor);
    let line = lines::split(s.take(cursor)).last();
    lemma_line_start_splits(s, cursor);
    lemma_blank_run_bounds(s, a, cursor);
    lemma_blank_run_all(s, a, cursor);
    lemma_blank_run_ends(s, a, cursor);
    let ind = line_indent(s, cursor);
    assert(ind =~= line.take(ind.len() as int));
    assert forall|i: int| 0 <= i < ind.len() implies #[trigger] ind[i] == ' ' || ind[i]
        == '\t' by {
        assert(ind[i] == s[a + i]);
    }
    assert(put(s, cursor, cursor, seq!['\n'] + ind) =~= s.take(cursor).push('\n') + ind
        + s.skip(cursor));
}

proof fn lemma_blank_run_ends(s: Seq<char>, a: int, b: int)
    requires
        0 <= a <= b <= s.len(),
    ensures
        blank_run_end(s, a, b) < b ==> s[blank_run_end(s, a, b)] != ' ' && s[blank_run_end(
            s,
            a,
            b,
        )] != '\t',
    decreases b - a,
{
    if a < b && (s[a] == ' ' || s[a] == '\t') {
        lemma_blank_run_ends(s, a + 1, b);
    }
}

proof fn lemma_blank_run_all(s: Seq<char>, a: int, b: int)
    requires
        0 <= a <= b <= s.len(),
    ensures
        forall|i: int|
            a <= i < blank_run_end(s, a, b) ==> #[trigger] s[i] == ' ' || s[i] == '\t',
    decreases b - a,
{
    if a < b && (s[a] == ' ' || s[a] == '\t') {
        lemma_blank_run_all(s, a + 1, b);
    }
}

proof fn lemma_blank_run_full(s: Seq<char>, a: int, b: int)
    requires
        0 <= a <= b <= s.len(),
        forall|i: int| a <= i < b ==> #[trigger] s[i] == ' ' || s[i] == '\t',
    ensures
        blank_run_end(s, a, b) == b,
    decreases b - a,
{
    if a < b {
        lemma_blank_run_full(s, a + 1, b);
    }
}

proof fn lemma_line_start_over_blanks(s: Seq<char>, a: int, b: int)
    requires
        0 < a <= b <= s.len(),
        s[a - 1] == '\n',
        forall|i: int| a <= i < b ==> #[trigger] s[i] == ' ' || s[i] == '\t',
    ensures
        line_start(s, b) == a,
    decreases b - a,
{
    if a < b {
        assert(s[b - 1] != '\n');
        lemma_line_start_over_blanks(s, a, b - 1);
    }
}

/// Put `ins` in place of the selection, with the caret after it.
pub fn insert_at_caret(text: &str, primary: usize, secondary: usize, ins: &str) -> (r: (
    String,
    usize,
))
    requires
        lower(primary as int, secondary as int) + ins@.len() <= usize::MAX,
    ensures
        r.0@ == put(
            text@,
            lower(primary as int, secondary as int),
            upper(primary as int, secondary as int),
            ins@,
        ),
        r.1 == lower(primary as int, secondary as int) + ins@.len(),
{
    let lo: usize = if primary <= secondary { primary } else { secondary };
    let hi: usize = if primary <= secondary { secondary } else { primary };
    let n: usize = chars_of(ins).len();
    (splice_chars(text, lo, hi, ins), lo + n)
}

/// What duplicating the selection, or the caret's line, makes of a text.
pub open spec fn duplicated(s: Seq<char>, primary: int, secondary: int) -> Seq<char> {
    if primary != secondary {
        let lo = text::clamp(lower(primary, secondary), s.len() as int);
        let hi = text::clamp(upper(primary, secondary), s.len() as int);
        text::splice(s, hi, hi, s.subrange(lo, hi))
    } else {
        let c = text::clamp(primary, s.len() as int);
        let end = line_end(s, c);
        text::splice(s, end, end, seq!['\n'] + s.subrange(line_start(s, c), end))
    }
}

/// Duplicate the selection right after itself, or, with a bare caret, the caret's
/// line below itself. The caret lands at the end of the copied selection, or in
/// the same column of the copied line.
pub fn duplicate_selection(text: &str, primary: usize, secondary: usize) -> (r: (String, usize))
    requires
        primary == secondary ==> primary + text@.len() < usize::MAX,
        primary != secondary ==> 2 * upper(primary as int, secondary as int) - lower(
            primary as int,
            secondary as int,
        ) <= usize::MAX,
    ensures
        r.0@ == duplicated(text@, primary as int, secondary as int),
        primary != secondary ==> r.1 == 2 * upper(primary as int, secondary as int) - lower(
            primary as int,
            secondary as int,
        ),
        primary == secondary ==> ({
            let c = text::clamp(primary as int, text@.len() as int);
            r.1 == primary + (line_end(text@, c) - line_start(text@, c)) + 1
        }),
        primary == secondary <= text@.len() ==> text::line_col(r.0@, r.1 as int) == (
            text::line_col(text@, primary as int).0 + 1,
            text::line_col(text@, primary as int).1,
        ),
{
    let chars = chars_of(text);
    let n: usize = chars.len();
    proof {
        if primary == secondary <= text@.len() {
            law_duplicate_moves_the_caret_down(text@, primary as int);
        }
    }
    if primary != secondary {
        let lo: usize = if primary <= secondary { primary } else { secondary };
        let hi: usize = if primary <= secondary { secondary } else { primary };
        let a: usize = if lo < n { lo } else { n };
        let b: usize = if hi < n { hi } else { n };
        let copy = string_of(&chars, a, b);
        (splice_chars(text, b, b, copy.as_str()), hi + (hi - lo))
    } else {
        let c: usize = if primary < n { primary } else { n };
        let a = find_line_start(&chars, c);
        let b = find_line_end(&chars, c);
        let line = string_of(&chars, a, b);
        let mut copy = String::new();
        copy.push('\n');
        copy.append(line.as_str());
        assert(copy@ =~= seq!['\n'] + text@.subrange(a as int, b as int));
        (splice_chars(text, b, b, copy.as_str()), primary + (b - a) + 1)
    }
}

/// The line that holds a place starts behind the last line feed before it, and ends before
/// the next: it is the last line of the text up to its end.
proof fn lemma_line_around(s: Seq<char>, c: int)
    requires
        0 <= c <= s.len(),
    ensures
        0 <= line_start(s, c) <= c <= line_end(s, c) <= s.len(),
        lines::one_line(s.subrange(line_start(s, c), line_end(s, c))),
        line_end(s, c) < s.len() ==> s[line_end(s, c)] == '\n',
        lines::split(s.take(c)).last() == s.subrange(line_start(s, c), c),
        lines::split(s.take(line_end(s, c))).len() == lines::split(s.take(c)).len(),
        lines::split(s.take(line_end(s, c))).last() == s.subrange(
            line_start(s, c),
            line_end(s, c),
        ),
{
    lemma_line_bounds(s, c);
    lemma_line_start_splits(s, c);
    lemma_line_end_rest(s, c);
    let a = line_start(s, c);
    let e = line_end(s, c);
    let rest = s.subrange(c, e);
    assert(s.take(e) =~= s.take(c) + rest);
    assert(lines::one_line(rest));
    lines::lemma_split_lines(s.take(c));
    lines::lemma_split_append(s.take(c), rest);
    assert(s.subrange(a, c) + rest =~= s.subrange(a, e));
    let l = s.subrange(a, e);
    assert forall|i: int| 0 <= i < l.len() implies #[trigger] l[i] != '\n' by {
        if i < c - a {
            assert(lines::one_line(lines::split(s.take(c))[lines::split(s.take(c)).len() - 1]));
            assert(l[i] == s.subrange(a, c)[i]);
        } else {
            assert(l[i] == rest[i - (c - a)]);
        }
    }
}

proof fn lemma_line_start_splits(s: Seq<char>, c: int)
    requires
        0 <= c <= s.len(),
    ensures
        0 <= line_start(s, c) <= c,
        lines::split(s.take(c)).last() == s.subrange(line_start(s, c), c),
    decreases c,
{
    lines::lemma_split_lines(s.take(c));
    if c == 0 {
        assert(s.take(c) =~= Seq::<char>::empty());
        assert(s.subrange(0, 0) =~= Seq::<char>::empty());
    } else {
        lemma_line_start_splits(s, c - 1);
        lines::lemma_split_lines(s.take(c - 1));
        assert(s.take(c).drop_last() =~= s.take(c - 1));
        assert(s.take(c).last() == s[c - 1]);
        if s[c - 1] == '\n' {
            assert(s.subrange(c, c) =~= Seq::<char>::empty());
        } else {
            let a = line_start(s, c - 1);
            assert(s.subrange(a, c) =~= s.subrange(a, c - 1).push(s[c - 1]));
        }
    }
}

proof fn lemma_line_end_rest(s: Seq<char>, c: int)
    requires
        0 <= c <= s.len(),
    ensures
        c <= line_end(s, c) <= s.len(),
        lines::one_line(s.subrange(c, line_end(s, c))),
        line_end(s, c) < s.len() ==> s[line_end(s, c)] == '\n',
    decreases s.len() - c,
{
    if c < s.len() && s[c] != '\n' {
        lemma_line_end_rest(s, c + 1);
        let e = line_end(s, c);
        let l = s.subrange(c, e);
        assert forall|i: int| 0 <= i < l.len() implies #[trigger] l[i] != '\n' by {
            if i > 0 {
                assert(l[i] == s.subrange(c + 1, e)[i - 1]);
            }
        }
    }
}

/// Duplicating with a bare caret puts a copy of the caret's line right below it and leaves
/// every other line as it was.
pub proof fn law_duplicate_copies_the_line(s: Seq<char>, caret: int)
    requires
        0 <= caret,
    ensures
        ({
            let k = text::line_col(s, caret).0 - 1;
            &&& 0 <= k < lines::split(s).len()
            &&& lines::split(duplicated(s, caret, caret)) == lines::split(s).insert(
                k + 1,
                lines::split(s)[k],
            )
        }),
{
    let c = text::clamp(caret, s.len() as int);
    let a = line_start(s, c);
    let e = line_end(s, c);
    lemma_line_around(s, c);
    lines::law_caret_place(s, c);
    let k = text::line_col(s, caret).0 - 1;
    assert(text::line_col(s, caret) == text::line_col(s, c));
    let l = s.subrange(a, e);
    let front = s.take(e);
    let d = duplicated(s, caret, caret);
    lines::lemma_split_lines(front);
    lines::lemma_split_one_line(l);
    if e == s.len() {
        assert(front =~= s);
        assert(d =~= s.push('\n') + l);
        lines::law_split_at_line_feed(s, l);
        assert(lines::split(d) =~= lines::split(s).insert(k + 1, lines::split(s)[k]));
    } else {
        let back = s.skip(e + 1);
        assert(s =~= front.push('\n') + back);
        assert(d =~= front.push('\n') + (l.push('\n') + back));
        lines::law_split_at_line_feed(front, back);
        lines::law_split_at_line_feed(front, l.push('\n') + back);
        lines::law_split_at_line_feed(l, back);
        assert(lines::split(d) =~= lines::split(s).insert(k + 1, lines::split(s)[k]));
    }
}

/// After a duplication with a bare caret, the caret stands one line further down, in the
/// column it stood in.
pub proof fn law_duplicate_moves_the_caret_down(s: Seq<char>, c: int)
    requires
        0 <= c <= s.len(),
    ensures
        ({
            let at = c + (line_end(s, c) - line_start(s, c)) + 1;
            &&& at <= duplicated(s, c, c).len()
            &&& text::line_col(duplicated(s, c, c), at) == (
                text::line_col(s, c).0 + 1,
                text::line_col(s, c).1,
            )
        }),
{
    let a = line_start(s, c);
    let e = line_end(s, c);
    lemma_line_around(s, c);
    let d = duplicated(s, c, c);
    let at = c + (e - a) + 1;
    let part = s.subrange(a, c);
    assert(d.take(at) =~= s.take(e).push('\n') + part);
    assert(lines::one_line(part)) by {
        assert forall|i: int| 0 <= i < part.len() implies #[trigger] part[i] != '\n' by {
            assert(part[i] == s.subrange(a, e)[i]);
        }
    }
    lines::law_split_at_line_feed(s.take(e), part);
    lines::lemma_split_one_line(part);
    lines::law_caret_place(s, c);
    lines::law_caret_place(d, at);
}

/// Duplicating a selection makes it stand twice in a row, and leaves what comes before and
/// behind it as it was.
pub proof fn law_duplicate_doubles_the_selection(s: Seq<char>, primary: int, secondary: int)
    requires
        0 <= primary <= s.len(),
        0 <= secondary <= s.len(),
        primary != secondary,
    ensures
        ({
            let lo = if primary < secondary { primary } else { secondary };
            let hi = if primary < secondary { secondary } else { primary };
            let chosen = s.subrange(lo, hi);
            duplicated(s, primary, secondary) == s.take(lo) + chosen + chosen + s.skip(hi)
        }),
{
    let lo = if primary < secondary { primary } else { secondary };
    let hi = if primary < secondary { secondary } else { primary };
    let chosen = s.subrange(lo, hi);
    assert(duplicated(s, primary, secondary) =~= s.take(lo) + chosen + chosen + s.skip(hi));
}

/// A stretch of a text, in UTF-8 bytes.
#[derive(Clone, Copy, Debug, PartialEq, Eq, Structural)]
pub struct Span {
    /// Its first byte.
    pub start: usize,
    /// The byte after its last.
    pub end: usize,
}

/// The spans lie in the text between whole characters, each after the one before.
pub open spec fn spans_in(s: Seq<char>, spans: Seq<Span>) -> bool {
    &&& forall|i: int|
        #![trigger spans[i]]
        0 <= i < spans.len() ==> spans[i].start <= spans[i].end && text::on_boundary(
            s,
            spans[i].start as int,
        ) && text::on_boundary(s, spans[i].end as int)
    &&& forall|i: int, j: int|
        #![trigger spans[i], spans[j]]
        0 <= i < j < spans.len() ==> spans[i].end <= spans[j].start
}

/// `s` from character `from` on, with each of the spans from the `k`th on replaced
/// by `rep`.
pub open spec fn replaced_from(
    s: Seq<char>,
    spans: Seq<Span>,
    rep: Seq<char>,
    from: int,
    k: int,
) -> Seq<char>
    decreases spans.len() - k,
{
    if k >= spans.len() {
        s.skip(from)
    } else {
        s.subrange(from, text::char_index(s, spans[k].start as int)) + rep + replaced_from(
            s,
            spans,
            rep,
            text::char_index(s, spans[k].end as int),
            k + 1,
        )
    }
}

/// `s` with each of the spans replaced by `rep` and everything else kept.
pub open spec fn replaced(s: Seq<char>, spans: Seq<Span>, rep: Seq<char>) -> Seq<char> {
    replaced_from(s, spans, rep, 0, 0)
}

/// Whether the spans lie in the text between whole characters, in order.
pub fn spans_fit(text: &str, spans: &Vec<Span>) -> (b: bool)
    ensures
        b == spans_in(text@, spans@),
{
    let mut i: usize = 0;
    let mut last: usize = 0;
    while i < spans.len()
        invariant
            i <= spans@.len(),
            spans_in(text@, spans@.take(i as int)),
            forall|k: int| 0 <= k < i ==> (#[trigger] spans@[k]).end <= last,
            last == 0 || (i > 0 && last == spans@[i - 1].end),
        decreases spans@.len() - i,
    {
        let sp = spans[i];
        if sp.start > sp.end || sp.start < last || !is_boundary(text, sp.start) || !is_boundary(
            text,
            sp.end,
        ) {
            proof {
                assert(spans@[i as int] == sp);
                if i > 0 {
                    assert(spans@[i - 1].end == last || last == 0);
                }
            }
            return false;
        }
        proof {
            let t = spans@.take(i + 1);
            assert forall|k: int| #![trigger t[k]] 0 <= k < t.len() implies t[k].start <= t[k].end
                && text::on_boundary(text@, t[k].start as int) && text::on_boundary(
                text@,
                t[k].end as int,
            ) by {
                if k < i {
                    assert(spans@.take(i as int)[k] == t[k]);
                }
            }
            assert forall|a: int, b: int| #![trigger t[a], t[b]] 0 <= a < b < t.len() implies t[a].end
                <= t[b].start by {
                if b < i {
                    assert(spans@.take(i as int)[a] == t[a]);
                    assert(spans@.take(i as int)[b] == t[b]);
                } else {
                    assert(t[a] == spans@[a]);
                }
            }
        }
        last = sp.end;
        i += 1;
    }
    assert(spans@.take(i as int) =~= spans@);
    true
}

/// Replace each of the spans by `rep`.
pub fn replace_spans(text: &str, spans: &Vec<Span>, rep: &str) -> (out: String)
    requires
        spans_in(text@, spans@),
    ensures
        out@ == replaced(text@, spans@, rep@),
{
    let chars = chars_of(text);
    let n: usize = chars.len();
    let mut out = String::new();
    let mut from: usize = 0;
    let mut i: usize = 0;
    while i < spans.len()
        invariant
            chars@ == text@,
            n == chars@.len(),
            spans_in(text@, spans@),
            i <= spans@.len(),
            from <= n,
            i == 0 ==> from == 0,
            i > 0 ==> from == text::char_index(text@, spans@[i - 1].end as int),
            out@ + replaced_from(text@, spans@, rep@, from as int, i as int) == replaced(
                text@,
                spans@,
                rep@,
            ),
        decreases spans@.len() - i,
    {
        let sp = spans[i];
        let a = byte_to_char_index(text, sp.start);
        let b = byte_to_char_index(text, sp.end);
        proof {
            assert(spans@[i as int] == sp);
            if i > 0 {
                assert(spans@[i - 1].end <= sp.start);
                lemma_char_index_monotone(text@, spans@[i - 1].end as int, sp.start as int);
            }
        }
        let kept = string_of(&chars, from, a);
        let ghost before = out@;
        out.append(kept.as_str());
        out.append(rep);
        proof {
            let rest = replaced_from(text@, spans@, rep@, b as int, i + 1);
            assert(before + (text@.subrange(from as int, a as int) + rep@ + rest) =~= before
                + text@.subrange(from as int, a as int) + rep@ + rest);
        }
        from = b;
        i += 1;
    }
    let tail = string_of(&chars, from, n);
    out.append(tail.as_str());
    assert(text@.skip(from as int) =~= text@.subrange(from as int, n as int));
    out
}

/// A later byte offset has no earlier character index.
pub proof fn lemma_char_index_monotone(s: Seq<char>, a: int, b: int)
    requires
        0 <= a <= b,
    ensures
        text::char_index(s, a) <= text::char_index(s, b),
{
    text::lemma_char_index_bounds(s, a);
    text::lemma_char_index_bounds(s, b);
    if text::char_index(s, a) > text::char_index(s, b) {
        text::lemma_byte_offset_increases(s, text::char_index(s, b) + 1, text::char_index(s, a));
    }
}

/// What a replace leaves: the new text, when there was a match, and the message
/// for the status line.
pub struct Replacement {
    /// The text after the replacement; `None` when it stays as it was.
    pub text: Option<String>,
    /// The message for the status line.
    pub status: String,
}

/// The spans that a replace works on: all, or only the first.
pub open spec fn chosen_spans(matches: Seq<Span>, all: bool) -> Seq<Span> {
    if all {
        matches
    } else {
        matches.take(1)
    }
}

/// What is said of a replace of `n` matches of `pat` by `rep`, all or the first.
pub open spec fn replace_status(pat: Seq<char>, rep: Seq<char>, n: nat, all: bool) -> Seq<char> {
    if n == 0 {
        "no match for '"@ + pat + "'"@
    } else if all {
        "replaced "@ + text::decimal(n) + " x '"@ + pat + "' -> '"@ + rep + "'"@
    } else {
        "replaced '"@ + pat + "' -> '"@ + rep + "'"@
    }
}

/// Replace the find bar's matches of `pat` by `rep`, literally: every match, or
/// only the first. `None` when the find field is empty: nothing is done then.
pub fn replace_in_active(
    text: &str,
    pat: &str,
    rep: &str,
    matches: &Vec<Span>,
    all: bool,
) -> (r: Option<Replacement>)
    requires
        spans_in(text@, matches@),
    ensures
        r is None <==> pat@.len() == 0,
        r matches Some(out) ==> {
            &&& out.text is None <==> matches@.len() == 0
            &&& out.text matches Some(t) ==> t@ == replaced(
                text@,
                chosen_spans(matches@, all),
                rep@,
            )
            &&& out.status@ == replace_status(pat@, rep@, matches@.len(), all)
        },
{
    if pat.is_empty() {
        return None;
    }
    if matches.len() == 0 {
        let mut status = "no match for '".to_string();
        status.append(pat);
        status.append("'");
        return Some(Replacement { text: None, status });
    }
    if all {
        let new_text = replace_spans(text, matches, rep);
        let mut status = "replaced ".to_string();
        let count = decimal_string(matches.len());
        status.append(count.as_str());
        status.append(" x '");
        status.append(pat);
        status.append("' -> '");
        status.append(rep);
        status.append("'");
        Some(Replacement { text: Some(new_text), status })
    } else {
        let mut first: Vec<Span> = Vec::new();
        first.push(matches[0]);
        assert(first@ =~= matches@.take(1));
        let new_text = replace_spans(text, &first, rep);
        let mut status = "replaced '".to_string();
        status.append(pat);
        status.append("' -> '");
        status.append(rep);
        status.append("'");
        Some(Replacement { text: Some(new_text), status })
    }
}

/// Replacing nothing leaves the text as it was.
pub proof fn law_replace_nothing(s: Seq<char>, rep: Seq<char>)
    ensures
        replaced(s, Seq::empty(), rep) == s,
{
    assert(s.skip(0) =~= s);
}

/// Replacing one span is a splice of it.
pub proof fn law_replace_one_is_splice(s: Seq<char>, sp: Span, rep: Seq<char>)
    requires
        spans_in(s, seq![sp]),
    ensures
        replaced(s, seq![sp], rep) == text::splice(
            s,
            text::char_index(s, sp.start as int),
            text::char_index(s, sp.end as int),
            rep,
        ),
{
    reveal_with_fuel(replaced_from, 2);
    text::lemma_char_index_bounds(s, sp.start as int);
    assert(s.subrange(0, text::char_index(s, sp.start as int)) =~= s.take(
        text::char_index(s, sp.start as int),
    ));
}

/// Replacing from right to left, the last span first, gives the same text as
/// replacing from left to right: the last span's replacement leaves the text
/// before it, and the spans in it, as they were.
pub proof fn law_replace_last_first(s: Seq<char>, spans: Seq<Span>, rep: Seq<char>)
    requires
        spans_in(s, spans),
        spans.len() > 0,
    ensures
        ({
            let a = text::char_index(s, spans.last().start as int);
            let b = text::char_index(s, spans.last().end as int);
            &&& spans_in(s.take(a), spans.drop_last())
            &&& replaced(s, spans, rep) == replaced(s.take(a), spans.drop_last(), rep) + rep
                + s.skip(b)
        }),
{
    let last = spans.len() - 1;
    let a = text::char_index(s, spans[last].start as int);
    text::lemma_char_index_bounds(s, spans[last].start as int);
    let t = spans.drop_last();
    assert forall|i: int| #![trigger t[i]] 0 <= i < t.len() implies t[i].start <= t[i].end
        && text::on_boundary(s.take(a), t[i].start as int) && text::on_boundary(
        s.take(a),
        t[i].end as int,
    ) by {
        assert(t[i] == spans[i]);
        assert(spans[i].end <= spans[last].start);
        lemma_char_index_monotone(s, spans[i].start as int, spans[last].start as int);
        lemma_char_index_monotone(s, spans[i].end as int, spans[last].start as int);
        lemma_char_index_of_prefix(s, a, spans[i].start as int);
        lemma_char_index_of_prefix(s, a, spans[i].end as int);
    }
    assert forall|i: int, j: int| #![trigger t[i], t[j]] 0 <= i < j < t.len() implies t[i].end
        <= t[j].start by {
        assert(t[i] == spans[i] && t[j] == spans[j]);
    }
    text::lemma_char_index_bounds(s, spans[0].start as int);
    lemma_replace_last_first(s, spans, rep, 0, 0);
}

proof fn lemma_replace_last_first(
    s: Seq<char>,
    spans: Seq<Span>,
    rep: Seq<char>,
    from: int,
    k: int,
)
    requires
        spans_in(s, spans),
        0 <= k < spans.len(),
        0 <= from <= text::char_index(s, spans[k].start as int),
        spans_in(
            s.take(text::char_index(s, spans.last().start as int)),
            spans.drop_last(),
        ),
    ensures
        ({
            let a = text::char_index(s, spans.last().start as int);
            let b = text::char_index(s, spans.last().end as int);
            replaced_from(s, spans, rep, from, k) == replaced_from(
                s.take(a),
                spans.drop_last(),
                rep,
                from,
                k,
            ) + rep + s.skip(b)
        }),
    decreases spans.len() - k,
{
    let last = spans.len() - 1;
    let a = text::char_index(s, spans[last].start as int);
    let b = text::char_index(s, spans[last].end as int);
    text::lemma_char_index_bounds(s, spans[last].start as int);
    text::lemma_char_index_bounds(s, spans[last].end as int);
    let h = s.take(a);
    if k == last {
        assert(s.subrange(from, a) =~= h.skip(from));
        reveal_with_fuel(replaced_from, 2);
    } else {
        let x = spans[k].start as int;
        let y = spans[k].end as int;
        assert(spans[k].end <= spans[k + 1].start);
        assert(spans[k].end <= spans[last].start);
        lemma_char_index_monotone(s, x, y);
        lemma_char_index_monotone(s, y, spans[k + 1].start as int);
        lemma_char_index_monotone(s, y, spans[last].start as int);
        lemma_char_index_of_prefix(s, a, x);
        lemma_char_index_of_prefix(s, a, y);
        lemma_replace_last_first(s, spans, rep, text::char_index(s, y), k + 1);
        let cx = text::char_index(s, x);
        assert(spans.drop_last()[k] == spans[k]);
        assert(s.subrange(from, cx) =~= h.subrange(from, cx));
        let rest = replaced_from(h, spans.drop_last(), rep, text::char_index(s, y), k + 1);
        assert(s.subrange(from, cx) + rep + (rest + rep + s.skip(b)) =~= (h.subrange(from, cx)
            + rep + rest) + rep + s.skip(b));
    }
}

/// Characters of a text stand at the same byte offsets in a prefix that holds them.
proof fn lemma_char_index_of_prefix(s: Seq<char>, a: int, byte: int)
    requires
        0 <= byte,
        0 <= a <= s.len(),
        text::on_boundary(s, byte),
        text::char_index(s, byte) <= a,
    ensures
        text::char_index(s.take(a), byte) == text::char_index(s, byte),
        text::on_boundary(s.take(a), byte),
{
    let ci = text::char_index(s, byte);
    text::lemma_char_index_bounds(s, byte);
    assert(s.take(a).take(ci) =~= s.take(ci));
    assert(text::byte_offset(s.take(a), ci) == text::byte_offset(s, ci));
    text::lemma_char_index_of_offset(s.take(a), ci);
}

} // verus!

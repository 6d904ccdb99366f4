//! Toggling line comments on the lines that a selection touches.
//!
//! A line is touched when one of its characters, its line feed included, is selected; a
//! bare caret touches the line that it stands on. Lines are counted from zero.
use vstd::prelude::*;
use vstd::string::*;
use crate::edit::{lower, upper};
use crate::lines;
use crate::lines::{clone_line, find_lead, lines_of, push_range, read_lines, text_of};
use crate::text;
use crate::text::chars_of;

verus! {

/// Whether `l` starts with `p`.
pub open spec fn starts_with(l: Seq<char>, p: Seq<char>) -> bool {
    p.len() <= l.len() && l.take(p.len() as int) == p
}

/// A line whose first characters, after its leading whitespace, are the prefix.
pub open spec fn commented(l: Seq<char>, prefix: Seq<char>) -> bool {
    starts_with(lines::trim_start(l), prefix)
}

/// The first line that a selection touches.
pub open spec fn first_touched(s: Seq<char>, primary: int, secondary: int) -> int {
    text::line_col(s, lower(primary, secondary)).0 - 1
}

/// The last line that a selection touches: that of its last character or, for a bare
/// caret, the one that it stands on.
pub open spec fn last_touched(s: Seq<char>, primary: int, secondary: int) -> int {
    if primary == secondary {
        first_touched(s, primary, secondary)
    } else {
        text::line_col(s, upper(primary, secondary) - 1).0 - 1
    }
}

/// Whether one of the lines from `first` to `last` is not blank.
pub open spec fn any_text(v: Seq<Seq<char>>, first: int, last: int) -> bool {
    exists|i: int| 0 <= i < v.len() && first <= i <= last && !lines::blank(#[trigger] v[i])
}

/// Whether every line from `first` to `last` that is not blank is commented.
pub open spec fn all_commented(
    v: Seq<Seq<char>>,
    prefix: Seq<char>,
    first: int,
    last: int,
) -> bool {
    forall|i: int|
        0 <= i < v.len() && first <= i <= last && !lines::blank(#[trigger] v[i]) ==> commented(
            v[i],
            prefix,
        )
}

/// A line with the prefix and a space before its first character.
pub open spec fn comment_in(l: Seq<char>, prefix: Seq<char>) -> Seq<char> {
    l.take(lines::lead(l)) + prefix.push(' ') + lines::trim_start(l)
}

/// A commented line without the prefix and the space that follows it, if any.
pub open spec fn comment_out(l: Seq<char>, prefix: Seq<char>) -> Seq<char> {
    let t = lines::trim_start(l);
    l.take(lines::lead(l)) + (if starts_with(t, prefix.push(' ')) {
        t.skip(prefix.len() as int + 1)
    } else {
        t.skip(prefix.len() as int)
    })
}

/// One line of a toggle: a blank line stays, another loses or gets the prefix.
pub open spec fn toggled_line(l: Seq<char>, prefix: Seq<char>, strip: bool) -> Seq<char> {
    if lines::blank(l) {
        l
    } else if strip {
        comment_out(l, prefix)
    } else {
        comment_in(l, prefix)
    }
}

/// All lines after a toggle of those from `first` to `last`: the others stay.
pub open spec fn toggled_lines(
    s: Seq<char>,
    prefix: Seq<char>,
    first: int,
    last: int,
    strip: bool,
) -> Seq<Seq<char>> {
    Seq::new(
        lines::body_lines(s).len(),
        |i: int|
            if first <= i <= last {
                toggled_line(lines::text_lines(s)[i], prefix, strip)
            } else {
                lines::body_lines(s)[i]
            },
    )
}

/// A text with the line comments of its lines from `first` to `last` toggled: when every
/// one of them that is not blank is commented they lose the prefix, otherwise they all get
/// it.
pub open spec fn toggled(s: Seq<char>, prefix: Seq<char>, first: int, last: int) -> Seq<char> {
    lines::rebuild(
        toggled_lines(
            s,
            prefix,
            first,
            last,
            all_commented(lines::text_lines(s), prefix, first, last),
        ),
        lines::ends_with_newline(s),
    )
}

/// What toggling line comments does.
pub enum CommentToggle {
    /// The language has no line comment.
    NoPrefix,
    /// No line with text is touched.
    Nothing,
    /// The new text.
    Changed(String),
}

/// Whether `l[at..]` starts with `p`.
fn matches_at(l: &Vec<char>, at: usize, p: &Vec<char>) -> (b: bool)
    requires
        at <= l@.len(),
    ensures
        b == starts_with(l@.skip(at as int), p@),
{
    let n: usize = l.len();
    if n - at < p.len() {
        return false;
    }
    let mut i: usize = 0;
    while i < p.len()
        invariant
            n == l@.len(),
            at <= n,
            i <= p@.len() <= n - at,
            forall|k: int| 0 <= k < i ==> #[trigger] p@[k] == l@[at + k],
        decreases p@.len() - i,
    {
        if l[at + i] != p[i] {
            proof {
                let t = l@.skip(at as int).take(p@.len() as int);
                assert(t[i as int] != p@[i as int]);
            }
            return false;
        }
        i += 1;
    }
    assert(l@.skip(at as int).take(p@.len() as int) =~= p@);
    true
}

fn line_commented(l: &Vec<char>, prefix: &Vec<char>) -> (b: bool)
    ensures
        b == commented(l@, prefix@),
{
    let k = find_lead(l);
    matches_at(l, k, prefix)
}

fn toggle_line(l: &Vec<char>, prefix: &Vec<char>, strip: bool) -> (r: Vec<char>)
    requires
        strip && !lines::blank(l@) ==> commented(l@, prefix@),
    ensures
        r@ == toggled_line(l@, prefix@, strip),
{
    let k = find_lead(l);
    let n: usize = l.len();
    if k == n {
        return clone_line(l);
    }
    let mut r: Vec<char> = Vec::new();
    push_range(&mut r, l, 0, k);
    assert(r@ =~= l@.take(k as int));
    if strip {
        let mut with_space = clone_line(prefix);
        with_space.push(' ');
        let long: bool = matches_at(l, k, &with_space);
        let p: usize = if long { prefix.len() + 1 } else { prefix.len() };
        push_range(&mut r, l, k + p, n);
        proof {
            let t = lines::trim_start(l@);
            assert(t.skip(p as int) =~= l@.subrange(k + p, n as int));
        }
    } else {
        let m: usize = prefix.len();
        push_range(&mut r, prefix, 0, m);
        r.push(' ');
        push_range(&mut r, l, k, n);
        proof {
            assert(lines::trim_start(l@) =~= l@.subrange(k as int, n as int));
            assert(r@ =~= comment_in(l@, prefix@));
        }
    }
    r
}

/// The line that a caret after the first `ci` characters stands on.
fn line_at(chars: &Vec<char>, ci: usize) -> (l: usize)
    ensures
        l == text::line_col(chars@, ci as int).0 - 1,
{
    let mut i: usize = 0;
    let mut l: usize = 0;
    while i < ci && i < chars.len()
        invariant
            i <= ci,
            i <= chars@.len(),
            l <= i,
            l == text::line_col(chars@, i as int).0 - 1,
        decreases chars@.len() - i,
    {
        if chars[i] == '\n' {
            l += 1;
        }
        i += 1;
    }
    l
}

/// Whether some line of `body` from `first` to `last` is not blank, and whether all of
/// those are commented.
fn survey(body: &Vec<Vec<char>>, prefix: &Vec<char>, first: usize, last: usize) -> (r: (bool, bool))
    ensures
        r.0 == any_text(lines::views(body@), first as int, last as int),
        r.1 == all_commented(lines::views(body@), prefix@, first as int, last as int),
{
    let ghost v = lines::views(body@);
    let n: usize = body.len();
    let mut any: bool = false;
    let mut all: bool = true;
    let mut i: usize = 0;
    while i < n
        invariant
            i <= n == body@.len(),
            v == lines::views(body@),
            any == (exists|j: int|
                0 <= j < i && first <= j <= last && !lines::blank(#[trigger] v[j])),
            all == (forall|j: int|
                0 <= j < i && first <= j <= last && !lines::blank(#[trigger] v[j]) ==> commented(
                    v[j],
                    prefix@,
                )),
        decreases n - i,
    {
        let ghost seen = any;
        let ghost kept = all;
        let k = find_lead(&body[i]);
        let is_blank: bool = k == body[i].len();
        let is_commented: bool = line_commented(&body[i], prefix);
        assert(v[i as int] == body@[i as int]@);
        if first <= i && i <= last && !is_blank {
            any = true;
            if !is_commented {
                all = false;
            }
        }
        proof {
            assert(any == (seen || (first <= i <= last && !lines::blank(v[i as int]))));
            assert(all == (kept && (first <= i <= last && !lines::blank(v[i as int])
                ==> commented(v[i as int], prefix@))));
        }
        i += 1;
    }
    (any, all)
}

/// Toggle the line comment on the lines that the selection touches. When every one of
/// them that is not blank starts with the prefix, after its indentation, each loses it
/// with the space behind it; otherwise each gets the prefix and a space. Blank lines and
/// the lines that are not touched stay as they are.
pub fn toggle_comment(text: &str, prefix: &str, primary: usize, secondary: usize) -> (r:
    CommentToggle)
    ensures
        ({
            let first = first_touched(text@, primary as int, secondary as int);
            let last = last_touched(text@, primary as int, secondary as int);
            let any = any_text(lines::text_lines(text@), first, last);
            &&& r is NoPrefix <==> prefix@.len() == 0
            &&& r is Nothing <==> prefix@.len() > 0 && !any
            &&& r matches CommentToggle::Changed(t) ==> t@ == toggled(
                text@,
                prefix@,
                first,
                last,
            )
        }),
{
    if prefix.is_empty() {
        return CommentToggle::NoPrefix;
    }
    let p = chars_of(prefix);
    let chars = chars_of(text);
    let lo: usize = if primary <= secondary { primary } else { secondary };
    let hi: usize = if primary <= secondary { secondary } else { primary };
    let first: usize = line_at(&chars, lo);
    let last: usize = if lo == hi { first } else { line_at(&chars, hi - 1) };
    let (body, newline) = read_lines(text);
    let (mut out, _) = lines_of(text);
    let ghost v = lines::text_lines(text@);
    let ghost w = lines::body_lines(text@);
    let (any, all) = survey(&body, &p, first, last);
    if !any {
        return CommentToggle::Nothing;
    }
    let ghost t = toggled_lines(text@, prefix@, first as int, last as int, all);
    let n: usize = body.len();
    assert(v.len() == w.len() == out@.len());
    let mut j: usize = 0;
    while j < n
        invariant
            j <= n == body@.len() == out@.len(),
            p@ == prefix@,
            v == lines::text_lines(text@),
            w == lines::body_lines(text@),
            v == lines::views(body@),
            t == toggled_lines(text@, prefix@, first as int, last as int, all),
            t.len() == n == w.len(),
            all == all_commented(v, prefix@, first as int, last as int),
            forall|k: int| 0 <= k < j ==> #[trigger] out@[k]@ == t[k],
            forall|k: int| j <= k < n ==> #[trigger] out@[k]@ == w[k],
        decreases n - j,
    {
        assert(v[j as int] == body@[j as int]@);
        assert(out@[j as int]@ == w[j as int]);
        if first <= j && j <= last {
            let l = toggle_line(&body[j], &p, all);
            out.set(j, l);
        }
        assert(out@[j as int]@ == t[j as int]);
        j += 1;
    }
    assert(lines::views(out@) =~= t);
    CommentToggle::Changed(text_of(&out, newline))
}

/// A line that got the prefix is commented, keeps its indentation and its last
/// character, and gives the line back when it loses the prefix.
proof fn lemma_comment_in_out(l: Seq<char>, prefix: Seq<char>)
    requires
        !lines::blank(l),
        lines::one_line(l),
        lines::one_line(prefix),
        prefix.len() > 0,
        !text::is_white_space(prefix[0]),
    ensures
        !lines::blank(comment_in(l, prefix)),
        lines::one_line(comment_in(l, prefix)),
        commented(comment_in(l, prefix), prefix),
        comment_out(comment_in(l, prefix), prefix) == l,
        l.len() > 0,
        comment_in(l, prefix).len() > 0,
        comment_in(l, prefix).last() == l.last(),
{
    let k = lines::lead(l);
    let m = comment_in(l, prefix);
    lines::lemma_lead_from(l, 0);
    assert(m[k] == prefix[0]);
    assert forall|j: int| 0 <= j < k implies text::is_white_space(#[trigger] m[j]) by {
        assert(m[j] == l[j]);
    }
    lines::lemma_lead_is(m, 0, k);
    let t = lines::trim_start(m);
    assert(t =~= prefix.push(' ') + lines::trim_start(l));
    assert(t.take(prefix.len() as int) =~= prefix);
    assert(t.take(prefix.len() as int + 1) =~= prefix.push(' '));
    assert(t.skip(prefix.len() as int + 1) =~= lines::trim_start(l));
    assert(m.take(k) =~= l.take(k));
    assert(l.take(k) + lines::trim_start(l) =~= l);
    assert forall|j: int| 0 <= j < m.len() implies #[trigger] m[j] != '\n' by {
        if j < k {
            assert(m[j] == l[j]);
        } else if j < k + prefix.len() {
            assert(m[j] == prefix[j - k]);
        } else if j > k + prefix.len() {
            assert(m[j] == l[j - prefix.len() - 1]);
        }
    }
}

/// The text that a toggle leaves, read again: the lines that the toggle made.
proof fn lemma_read_toggled(s: Seq<char>, prefix: Seq<char>, first: int, last: int)
    requires
        prefix.len() > 0,
        lines::one_line(prefix),
        any_text(lines::text_lines(s), first, last),
    ensures
        ({
            let strip = all_commented(lines::text_lines(s), prefix, first, last);
            let w = toggled_lines(s, prefix, first, last, strip);
            &&& lines::all_one_line(w)
            &&& lines::split(toggled(s, prefix, first, last)) == (if lines::ends_with_newline(s) {
                w.push(Seq::empty())
            } else {
                w
            })
        }),
{
    let v = lines::text_lines(s);
    let b = lines::body_lines(s);
    let strip = all_commented(v, prefix, first, last);
    let w = toggled_lines(s, prefix, first, last, strip);
    lines::lemma_split_lines(s);
    assert forall|i: int| 0 <= i < w.len() implies lines::one_line(#[trigger] w[i]) by {
        assert(lines::one_line(lines::split(s)[i]));
        assert(b[i] == lines::split(s)[i]);
        if first <= i <= last {
            assert forall|j: int| 0 <= j < v[i].len() implies #[trigger] v[i][j] != '\n' by {
                assert(v[i][j] == b[i][j]);
            }
            if !lines::blank(v[i]) {
                lemma_toggled_one_line(v[i], prefix, strip);
            }
        }
    }
    lines::law_split_join(w);
    if lines::ends_with_newline(s) {
        let t = lines::join(w).push('\n');
        assert(t.drop_last() =~= lines::join(w));
        assert(lines::split(t) =~= w.push(Seq::empty()));
    }
}

/// A line stays one line when it gets or loses a prefix.
proof fn lemma_toggled_one_line(l: Seq<char>, prefix: Seq<char>, strip: bool)
    requires
        !lines::blank(l),
        lines::one_line(l),
        lines::one_line(prefix),
        strip ==> commented(l, prefix),
    ensures
        lines::one_line(toggled_line(l, prefix, strip)),
{
    let k = lines::lead(l);
    let m = toggled_line(l, prefix, strip);
    lines::lemma_lead_from(l, 0);
    assert forall|j: int| 0 <= j < m.len() implies #[trigger] m[j] != '\n' by {
        if j < k {
            assert(m[j] == l[j]);
        } else if strip {
            let d = l.len() - m.len();
            assert(m[j] == l[j + d]);
        } else if j < k + prefix.len() {
            assert(m[j] == prefix[j - k]);
        } else if j > k + prefix.len() {
            assert(m[j] == l[j - prefix.len() - 1]);
        }
    }
}

/// A line of whitespace and then something visible: its indentation is the whitespace.
proof fn lemma_indent_of(indent: Seq<char>, rest: Seq<char>)
    requires
        forall|i: int| 0 <= i < indent.len() ==> text::is_white_space(#[trigger] indent[i]),
        rest.len() > 0,
        !text::is_white_space(rest[0]),
    ensures
        lines::lead(indent + rest) == indent.len(),
        !lines::blank(indent + rest),
        (indent + rest).take(indent.len() as int) == indent,
        lines::trim_start(indent + rest) == rest,
{
    let l = indent + rest;
    assert forall|j: int| 0 <= j < indent.len() implies text::is_white_space(#[trigger] l[j]) by {
        assert(l[j] == indent[j]);
    }
    assert(l[indent.len() as int] == rest[0]);
    lines::lemma_lead_is(l, 0, indent.len() as int);
    assert(l.take(indent.len() as int) =~= indent);
    assert(lines::trim_start(l) =~= rest);
}

/// A commented line loses the prefix and at most one space behind it, and nothing else:
/// whatever follows that space stays, more whitespace included, and so does the line's own
/// indentation.
pub proof fn law_uncomment_removes_prefix_and_one_space(
    indent: Seq<char>,
    prefix: Seq<char>,
    rest: Seq<char>,
)
    requires
        forall|i: int| 0 <= i < indent.len() ==> text::is_white_space(#[trigger] indent[i]),
        prefix.len() > 0,
        !text::is_white_space(prefix[0]),
    ensures
        commented(indent + prefix + rest, prefix),
        toggled_line(indent + prefix + seq![' '] + rest, prefix, true) == indent + rest,
        rest.len() == 0 || rest[0] != ' ' ==> toggled_line(indent + prefix + rest, prefix, true)
            == indent + rest,
{
    let n = prefix.len() as int;
    let near = prefix + rest;
    assert(indent + prefix + rest =~= indent + near);
    assert(near[0] == prefix[0]);
    lemma_indent_of(indent, near);
    assert(near.take(n) =~= prefix);
    let far = prefix + seq![' '] + rest;
    assert(indent + prefix + seq![' '] + rest =~= indent + far);
    assert(far[0] == prefix[0]);
    lemma_indent_of(indent, far);
    assert(far.take(n + 1) =~= prefix.push(' '));
    assert(far.skip(n + 1) =~= rest);
    if rest.len() == 0 || rest[0] != ' ' {
        if starts_with(near, prefix.push(' ')) {
            assert(near.take(n + 1)[n] == prefix.push(' ')[n]);
        }
        assert(near.skip(n) =~= rest);
    }
}

/// Commenting puts the prefix and one space between a line's indentation and its first
/// visible character, and changes nothing else.
pub proof fn law_comment_adds_prefix_and_one_space(
    indent: Seq<char>,
    prefix: Seq<char>,
    rest: Seq<char>,
)
    requires
        forall|i: int| 0 <= i < indent.len() ==> text::is_white_space(#[trigger] indent[i]),
        rest.len() > 0,
        !text::is_white_space(rest[0]),
    ensures
        toggled_line(indent + rest, prefix, false) == indent + prefix + seq![' '] + rest,
{
    lemma_indent_of(indent, rest);
    assert(toggled_line(indent + rest, prefix, false) =~= indent + prefix + seq![' '] + rest);
}

/// A line of whitespace alone neither gets nor loses a prefix, and is not asked for one.
pub proof fn law_blank_lines_stay(l: Seq<char>, prefix: Seq<char>, strip: bool)
    requires
        forall|i: int| 0 <= i < l.len() ==> text::is_white_space(#[trigger] l[i]),
    ensures
        lines::blank(l),
        toggled_line(l, prefix, strip) == l,
{
    lines::lemma_lead_is(l, 0, l.len() as int);
}

/// Every touched line of the text becomes what a toggle makes of that line: when all of
/// those with text are commented they lose the prefix, otherwise they all get it.
pub proof fn law_toggle_changes_each_touched_line(
    s: Seq<char>,
    prefix: Seq<char>,
    first: int,
    last: int,
    i: int,
)
    requires
        prefix.len() > 0,
        lines::one_line(prefix),
        any_text(lines::text_lines(s), first, last),
        0 <= i < lines::text_lines(s).len(),
        first <= i <= last,
    ensures
        ({
            let out = lines::split(toggled(s, prefix, first, last));
            let all = forall|k: int|
                0 <= k < lines::text_lines(s).len() && first <= k <= last && !lines::blank(
                    #[trigger] lines::text_lines(s)[k],
                ) ==> commented(lines::text_lines(s)[k], prefix);
            &&& out.len() == lines::split(s).len()
            &&& i < out.len()
            &&& out[i] == toggled_line(lines::text_lines(s)[i], prefix, all)
        }),
{
    lines::lemma_split_lines(s);
    lemma_read_toggled(s, prefix, first, last);
}

/// The touched lines are those of the selected characters: no selected character stands on
/// another line, and the first and the last of them hold one.
pub proof fn law_touched_lines_hold_the_selection(
    s: Seq<char>,
    primary: int,
    secondary: int,
    k: int,
)
    requires
        0 <= primary <= s.len(),
        0 <= secondary <= s.len(),
        primary < secondary ==> primary <= k < secondary,
        secondary < primary ==> secondary <= k < primary,
        primary == secondary ==> k == primary,
    ensures
        first_touched(s, primary, secondary) <= lines::split(s.take(k)).len() - 1 <= last_touched(
            s,
            primary,
            secondary,
        ),
        first_touched(s, primary, secondary) == lines::split(
            s.take(lower(primary, secondary)),
        ).len() - 1,
        primary == secondary ==> last_touched(s, primary, secondary) == lines::split(
            s.take(primary),
        ).len() - 1,
        primary != secondary ==> last_touched(s, primary, secondary) == lines::split(
            s.take(upper(primary, secondary) - 1),
        ).len() - 1,
{
    let lo = lower(primary, secondary);
    let hi = if primary == secondary { lo } else { upper(primary, secondary) - 1 };
    lines::law_caret_place(s, lo);
    lines::law_caret_place(s, hi);
    lines::law_caret_place(s, k);
    lemma_lines_grow(s, lo, k);
    lemma_lines_grow(s, k, hi);
}

/// A later place stands on no earlier line.
proof fn lemma_lines_grow(s: Seq<char>, a: int, b: int)
    requires
        0 <= a <= b <= s.len(),
    ensures
        text::line_col(s, a).0 <= text::line_col(s, b).0,
    decreases b - a,
{
    if a < b {
        lemma_lines_grow(s, a, b - 1);
    }
}

/// The lines that the selection does not touch stay as they are, and no line comes or
/// goes, for a prefix that holds no line feed.
pub proof fn law_toggle_keeps_other_lines(
    s: Seq<char>,
    prefix: Seq<char>,
    first: int,
    last: int,
    i: int,
)
    requires
        prefix.len() > 0,
        lines::one_line(prefix),
        any_text(lines::text_lines(s), first, last),
        0 <= i < lines::split(s).len(),
        i < first || last < i,
    ensures
        lines::split(toggled(s, prefix, first, last)).len() == lines::split(s).len(),
        lines::split(toggled(s, prefix, first, last))[i] == lines::split(s)[i],
{
    lines::lemma_split_lines(s);
    lemma_read_toggled(s, prefix, first, last);
}

/// Commenting out lines that are not all commented and toggling them again restores the
/// text, for a prefix that starts with a visible character and lines without carriage
/// returns at their ends. The lines still have text and are all commented in between, so
/// that the second toggle does its work.
pub proof fn law_toggle_twice(s: Seq<char>, prefix: Seq<char>, first: int, last: int)
    requires
        prefix.len() > 0,
        !text::is_white_space(prefix[0]),
        lines::one_line(prefix),
        any_text(lines::text_lines(s), first, last),
        !all_commented(lines::text_lines(s), prefix, first, last),
        forall|i: int|
            0 <= i < lines::body_lines(s).len() && first <= i <= last
                ==> #[trigger] lines::text_lines(s)[i] == lines::body_lines(s)[i],
    ensures
        any_text(lines::text_lines(toggled(s, prefix, first, last)), first, last),
        all_commented(lines::text_lines(toggled(s, prefix, first, last)), prefix, first, last),
        toggled(toggled(s, prefix, first, last), prefix, first, last) == s,
{
    let v = lines::text_lines(s);
    let b = lines::body_lines(s);
    let nl = lines::ends_with_newline(s);
    let w = toggled_lines(s, prefix, first, last, false);
    lemma_read_toggled(s, prefix, first, last);
    lines::lemma_split_lines(s);
    assert forall|i: int| 0 <= i < w.len() implies (#[trigger] w[i].len() > 0 <==> b[i].len() > 0)
        && (b[i].len() > 0 ==> w[i].last() == b[i].last()) && (first <= i <= last ==> (lines::blank(
        w[i],
    ) <==> lines::blank(b[i])) && (!lines::blank(b[i]) ==> commented(w[i], prefix))
        && toggled_line(w[i], prefix, true) == b[i]) by {
        assert(lines::one_line(lines::split(s)[i]));
        if first <= i <= last {
            assert(v[i] == b[i]);
            if !lines::blank(b[i]) {
                lemma_comment_in_out(b[i], prefix);
            }
        }
    }
    let r = lines::rebuild(w, nl);
    assert(w[w.len() - 1].len() > 0 <==> b[b.len() - 1].len() > 0);
    lines::lemma_body_rebuild(w, nl);
    assert(r.len() > 0);
    let x = lines::text_lines(r);
    assert forall|i: int| 0 <= i < w.len() && first <= i <= last implies #[trigger] x[i] == w[i] by {
        assert(v[i] == b[i]);
        assert(w[i].len() > 0 <==> b[i].len() > 0);
    }
    let j = choose|j: int| 0 <= j < v.len() && first <= j <= last && !lines::blank(#[trigger] v[j]);
    assert(x[j] == w[j] && v[j] == b[j]);
    assert(w[j].len() > 0 <==> b[j].len() > 0);
    assert(!lines::blank(x[j]));
    assert forall|i: int|
        0 <= i < x.len() && first <= i <= last && !lines::blank(#[trigger] x[i]) implies commented(
        x[i],
        prefix,
    ) by {
        assert(w[i].len() > 0 <==> b[i].len() > 0);
    }
    let again = toggled_lines(r, prefix, first, last, true);
    assert forall|i: int| 0 <= i < w.len() implies #[trigger] again[i] == b[i] by {
        assert(w[i].len() > 0 <==> b[i].len() > 0);
        if first <= i <= last {
            assert(x[i] == w[i]);
        }
    }
    assert(again =~= b);
    lines::law_rebuild_body(s);
}

} // verus!

//! Line operations: move, duplicate, join, comment.
//!
//! The lines of a buffer are its text cut at each line feed. A buffer that ends in
//! a line feed keeps it: the empty stretch behind it is no line of its own.
use vstd::prelude::*;
use vstd::string::*;
use crate::text;
use crate::text::{char_is_whitespace, chars_of, string_of};

verus! {

/// A text cut at each line feed: one more character than before either opens a
/// new, empty line or lengthens the last one.
pub open spec fn split(s: Seq<char>) -> Seq<Seq<char>>
    decreases s.len(),
{
    if s.len() == 0 {
        seq![Seq::empty()]
    } else {
        let before = split(s.drop_last());
        if s.last() == '\n' {
            before.push(Seq::empty())
        } else {
            before.update(before.len() - 1, before.last().push(s.last()))
        }
    }
}

/// Lines put together with a line feed between each two.
pub open spec fn join(v: Seq<Seq<char>>) -> Seq<char>
    decreases v.len(),
{
    if v.len() == 0 {
        Seq::empty()
    } else if v.len() == 1 {
        v[0]
    } else {
        join(v.drop_last()).push('\n') + v.last()
    }
}

/// Whether a text ends in a line feed.
pub open spec fn ends_with_newline(s: Seq<char>) -> bool {
    s.len() > 0 && s.last() == '\n'
}

/// The lines of a text; the empty stretch behind a final line feed is none.
pub open spec fn body_lines(s: Seq<char>) -> Seq<Seq<char>> {
    if ends_with_newline(s) {
        split(s).drop_last()
    } else {
        split(s)
    }
}

/// The text of the lines `v`, with or without a final line feed.
pub open spec fn rebuild(v: Seq<Seq<char>>, newline: bool) -> Seq<char> {
    if newline {
        join(v).push('\n')
    } else {
        join(v)
    }
}

/// A line holds no line feed.
pub open spec fn one_line(l: Seq<char>) -> bool {
    forall|i: int| 0 <= i < l.len() ==> #[trigger] l[i] != '\n'
}

/// Each of the lines holds no line feed.
pub open spec fn all_one_line(v: Seq<Seq<char>>) -> bool {
    forall|i: int| 0 <= i < v.len() ==> one_line(#[trigger] v[i])
}

/// The contents of a vector of lines.
pub open spec fn views(v: Seq<Vec<char>>) -> Seq<Seq<char>> {
    Seq::new(v.len(), |i: int| v[i]@)
}

/// One more line is one more element of the contents.
pub proof fn lemma_views_push(v: Seq<Vec<char>>, l: Vec<char>)
    ensures
        views(v.push(l)) == views(v).push(l@),
{
    assert(views(v.push(l)) =~= views(v).push(l@));
}

/// A text cut into lines has at least one, and none holds a line feed.
pub proof fn lemma_split_lines(s: Seq<char>)
    ensures
        split(s).len() >= 1,
        all_one_line(split(s)),
        ends_with_newline(s) ==> split(s).len() >= 2 && split(s).last() == Seq::<char>::empty(),
        s.len() > 0 && !ends_with_newline(s) ==> split(s).last().len() > 0,
    decreases s.len(),
{
    if s.len() > 0 {
        lemma_split_lines(s.drop_last());
        let before = split(s.drop_last());
        assert forall|i: int| 0 <= i < split(s).len() implies one_line(#[trigger] split(s)[i]) by {
            if s.last() != '\n' && i == before.len() - 1 {
                assert(one_line(before[i]));
                let l = split(s)[i];
                assert forall|k: int| 0 <= k < l.len() implies #[trigger] l[k] != '\n' by {
                    if k < before[i].len() {
                        assert(l[k] == before[i][k]);
                    }
                }
            } else if i < before.len() {
                assert(split(s)[i] == before[i]);
            }
        }
    }
}

/// Lengthening the last line lengthens the joined text.
proof fn lemma_join_push(v: Seq<Seq<char>>, c: char)
    requires
        v.len() > 0,
    ensures
        join(v.update(v.len() - 1, v.last().push(c))) == join(v).push(c),
{
    let w = v.update(v.len() - 1, v.last().push(c));
    assert(w.drop_last() =~= v.drop_last());
    if v.len() > 1 {
        assert(join(v.drop_last()).push('\n') + v.last().push(c) =~= (join(v.drop_last()).push(
            '\n',
        ) + v.last()).push(c));
    }
}

/// Cutting a text into lines and joining them gives the text back.
pub proof fn law_join_split(s: Seq<char>)
    ensures
        join(split(s)) == s,
    decreases s.len(),
{
    if s.len() > 0 {
        let t = s.drop_last();
        law_join_split(t);
        lemma_split_lines(t);
        assert(s =~= t.push(s.last()));
        if s.last() == '\n' {
            let v = split(t).push(Seq::empty());
            assert(v.drop_last() =~= split(t));
            assert(join(v) =~= t.push('\n'));
        } else {
            lemma_join_push(split(t), s.last());
        }
    }
}

/// Cutting a text that goes on for a part of a line.
pub proof fn lemma_split_append(s: Seq<char>, l: Seq<char>)
    requires
        one_line(l),
    ensures
        split(s + l) == split(s).update(split(s).len() - 1, split(s).last() + l),
    decreases l.len(),
{
    lemma_split_lines(s);
    if l.len() == 0 {
        assert(s + l =~= s);
        assert(split(s).last() + l =~= split(s).last());
        assert(split(s).update(split(s).len() - 1, split(s).last()) =~= split(s));
    } else {
        let m = l.drop_last();
        assert(one_line(m)) by {
            assert forall|i: int| 0 <= i < m.len() implies #[trigger] m[i] != '\n' by {
                assert(m[i] == l[i]);
            }
        }
        lemma_split_append(s, m);
        assert((s + l).drop_last() =~= s + m);
        assert((s + l).last() == l.last());
        assert(l[l.len() - 1] != '\n');
        assert((split(s).last() + m).push(l.last()) =~= split(s).last() + l);
        assert(split(s + l) =~= split(s).update(split(s).len() - 1, split(s).last() + l));
    }
}

/// Joining lines and cutting the text again gives the lines back.
pub proof fn law_split_join(v: Seq<Seq<char>>)
    requires
        v.len() > 0,
        all_one_line(v),
    ensures
        split(join(v)) == v,
    decreases v.len(),
{
    assert(one_line(v[v.len() - 1]));
    if v.len() == 1 {
        assert(Seq::<char>::empty() + v[0] =~= v[0]);
        lemma_split_append(Seq::empty(), v[0]);
        assert(split(v[0]) =~= v);
    } else {
        let w = v.drop_last();
        assert(all_one_line(w)) by {
            assert forall|i: int| 0 <= i < w.len() implies one_line(#[trigger] w[i]) by {
                assert(w[i] == v[i]);
            }
        }
        law_split_join(w);
        let t = join(w).push('\n');
        assert(t.drop_last() =~= join(w));
        assert(split(t) =~= w.push(Seq::empty()));
        lemma_split_append(t, v.last());
        assert(Seq::<char>::empty() + v.last() =~= v.last());
        assert(split(join(v)) =~= v);
    }
}

/// A line feed parts a text: the lines before it come first, those behind it follow.
pub proof fn law_split_at_line_feed(a: Seq<char>, b: Seq<char>)
    ensures
        split(a.push('\n') + b) == split(a) + split(b),
    decreases b.len(),
{
    if b.len() == 0 {
        assert(a.push('\n') + b =~= a.push('\n'));
        assert(a.push('\n').drop_last() =~= a);
        assert(split(a.push('\n')) =~= split(a) + split(b));
    } else {
        let c = b.drop_last();
        law_split_at_line_feed(a, c);
        lemma_split_lines(c);
        assert((a.push('\n') + b).drop_last() =~= a.push('\n') + c);
        assert((a.push('\n') + b).last() == b.last());
        assert((split(a) + split(c)).last() == split(c).last());
        assert(split(a.push('\n') + b) =~= split(a) + split(b));
    }
}

/// A stretch without line feeds is one line.
pub proof fn lemma_split_one_line(l: Seq<char>)
    requires
        one_line(l),
    ensures
        split(l) == seq![l],
{
    assert(Seq::<char>::empty() + l =~= l);
    lemma_split_append(Seq::empty(), l);
    assert(split(l) =~= seq![l]);
}

/// A caret's line is the number of lines that the text before it has, and its column is
/// one more than the length of the last of them.
pub proof fn law_caret_place(s: Seq<char>, ci: int)
    requires
        0 <= ci <= s.len(),
    ensures
        text::line_col(s, ci).0 == split(s.take(ci)).len(),
        text::line_col(s, ci).1 == split(s.take(ci)).last().len() + 1,
    decreases ci,
{
    lemma_split_lines(s.take(ci));
    if ci > 0 {
        law_caret_place(s, ci - 1);
        assert(s.take(ci).drop_last() =~= s.take(ci - 1));
        assert(s.take(ci).last() == s[ci - 1]);
        lemma_split_lines(s.take(ci - 1));
    } else {
        assert(s.take(ci) =~= Seq::<char>::empty());
    }
}

/// A text is its lines, put together again.
pub proof fn law_rebuild_body(s: Seq<char>)
    ensures
        rebuild(body_lines(s), ends_with_newline(s)) == s,
{
    law_join_split(s);
    lemma_split_lines(s);
    if ends_with_newline(s) {
        let v = split(s);
        assert(join(v) =~= join(v.drop_last()).push('\n'));
    }
}

/// Lines survive being put together and cut again, unless an empty last line
/// without a line feed behind it would be lost.
pub proof fn lemma_body_rebuild(v: Seq<Seq<char>>, newline: bool)
    requires
        v.len() > 0,
        all_one_line(v),
        newline || v.last().len() > 0,
    ensures
        body_lines(rebuild(v, newline)) == v,
        ends_with_newline(rebuild(v, newline)) == newline,
{
    law_split_join(v);
    if newline {
        let t = join(v).push('\n');
        assert(t.drop_last() =~= join(v));
        assert(split(t) =~= v.push(Seq::empty()));
        assert(split(t).drop_last() =~= v);
    } else {
        let l = v.last();
        assert(one_line(v[v.len() - 1]));
        assert(l[l.len() - 1] != '\n');
        assert(join(v).last() == l.last());
    }
}

/// The lines that a text is put together from are the lines that it has, before the empty
/// stretch behind a final line feed.
proof fn lemma_split_rebuild(v: Seq<Seq<char>>, newline: bool)
    requires
        v.len() > 0,
        all_one_line(v),
    ensures
        split(rebuild(v, newline)) == if newline {
            v.push(Seq::empty())
        } else {
            v
        },
{
    law_split_join(v);
    if newline {
        let t = join(v).push('\n');
        assert(t.drop_last() =~= join(v));
        assert(split(t) =~= v.push(Seq::empty()));
    }
}

/// The stretch behind a final line feed is the one that is no line.
proof fn lemma_split_body(s: Seq<char>)
    ensures
        split(s) == if s.len() > 0 && s.last() == '\n' {
            body_lines(s).push(Seq::empty())
        } else {
            body_lines(s)
        },
        all_one_line(body_lines(s)),
        body_lines(s).len() > 0,
{
    lemma_split_lines(s);
    assert forall|i: int| 0 <= i < body_lines(s).len() implies one_line(#[trigger] body_lines(s)[i]) by {
        assert(one_line(split(s)[i]));
    }
    if s.len() > 0 && s.last() == '\n' {
        lemma_split_lines(s.drop_last());
        assert(split(s) =~= split(s.drop_last()).push(Seq::empty()));
        assert(split(s) =~= body_lines(s).push(Seq::empty()));
    }
}

/// The lines of `text`, and whether it ends in a line feed.
pub(crate) fn lines_of(text: &str) -> (r: (Vec<Vec<char>>, bool))
    ensures
        views(r.0@) == body_lines(text@),
        r.1 == ends_with_newline(text@),
        r.0@.len() >= 1,
{
    let chars = chars_of(text);
    let mut out: Vec<Vec<char>> = Vec::new();
    let mut cur: Vec<char> = Vec::new();
    let mut i: usize = 0;
    assert(chars@.take(0) =~= Seq::<char>::empty());
    assert(views(out@).push(cur@) =~= split(chars@.take(0)));
    while i < chars.len()
        invariant
            i <= chars@.len(),
            views(out@).push(cur@) == split(chars@.take(i as int)),
        decreases chars@.len() - i,
    {
        let c = chars[i];
        let ghost before = split(chars@.take(i as int));
        proof {
            assert(chars@.take(i + 1).drop_last() =~= chars@.take(i as int));
            assert(chars@.take(i + 1).last() == c);
        }
        if c == '\n' {
            out.push(cur);
            cur = Vec::new();
            proof {
                assert(views(out@) =~= before);
            }
        } else {
            let ghost old_cur = cur@;
            cur.push(c);
            proof {
                assert(before.last() == old_cur);
                assert(views(out@).push(cur@) =~= before.update(
                    before.len() - 1,
                    before.last().push(c),
                ));
            }
        }
        i += 1;
    }
    assert(chars@.take(i as int) =~= text@);
    let newline = chars.len() > 0 && chars[chars.len() - 1] == '\n';
    proof {
        lemma_split_lines(text@);
    }
    if newline {
        assert(views(out@) =~= split(text@).drop_last());
    } else {
        out.push(cur);
        assert(views(out@) =~= split(text@));
    }
    (out, newline)
}

/// The text of `lines`, with or without a final line feed.
pub(crate) fn text_of(lines: &Vec<Vec<char>>, newline: bool) -> (s: String)
    ensures
        s@ == rebuild(views(lines@), newline),
{
    let mut s = String::new();
    let mut i: usize = 0;
    while i < lines.len()
        invariant
            i <= lines@.len(),
            s@ == join(views(lines@).take(i as int)),
        decreases lines@.len() - i,
    {
        let ghost before = s@;
        if i > 0 {
            s.push('\n');
        }
        let ghost base = s@;
        let l = &lines[i];
        let mut k: usize = 0;
        while k < l.len()
            invariant
                l@ == lines@[i as int]@,
                k <= l@.len(),
                s@ == base + l@.take(k as int),
            decreases l@.len() - k,
        {
            s.push(l[k]);
            assert(l@.take(k + 1) =~= l@.take(k as int).push(l@[k as int]));
            k += 1;
        }
        proof {
            assert(l@.take(k as int) =~= l@);
            let t = views(lines@).take(i + 1);
            assert(t.drop_last() =~= views(lines@).take(i as int));
            assert(t.last() == l@);
            if i == 0 {
                assert(before =~= Seq::<char>::empty());
                assert(s@ =~= l@);
            }
        }
        i += 1;
    }
    assert(views(lines@).take(i as int) =~= views(lines@));
    if newline {
        s.push('\n');
    }
    s
}

/// A line without the carriage return at its end.
pub open spec fn without_cr(l: Seq<char>) -> Seq<char> {
    if l.len() > 0 && l.last() == '\r' {
        l.drop_last()
    } else {
        l
    }
}

/// The lines of a text as a reader counts them: none in an empty text, and a
/// carriage return before a line feed belongs to the line's end.
pub open spec fn text_lines(s: Seq<char>) -> Seq<Seq<char>> {
    if s.len() == 0 {
        Seq::empty()
    } else {
        let v = body_lines(s);
        Seq::new(
            v.len(),
            |i: int|
                if i < v.len() - 1 || ends_with_newline(s) {
                    without_cr(v[i])
                } else {
                    v[i]
                },
        )
    }
}

/// The lines of `text` as a reader counts them, and whether it ends in a line feed.
pub(crate) fn read_lines(text: &str) -> (r: (Vec<Vec<char>>, bool))
    ensures
        views(r.0@) == text_lines(text@),
        r.1 == ends_with_newline(text@),
{
    let (body, newline) = lines_of(text);
    let mut out: Vec<Vec<char>> = Vec::new();
    if text.is_empty() {
        assert(views(out@) =~= text_lines(text@));
        return (out, newline);
    }
    let n: usize = body.len();
    let ghost v = body_lines(text@);
    assert(v.len() == n);
    let mut i: usize = 0;
    while i < n
        invariant
            i <= n == body@.len(),
            text@.len() > 0,
            v == body_lines(text@),
            v == views(body@),
            newline == ends_with_newline(text@),
            views(out@) == text_lines(text@).take(i as int),
        decreases n - i,
    {
        let mut l = clone_line(&body[i]);
        assert(l@ == v[i as int]);
        if (i < n - 1 || newline) && l.len() > 0 && l[l.len() - 1] == '\r' {
            l.pop();
            assert(l@ =~= v[i as int].drop_last());
        }
        proof {
            lemma_views_push(out@, l);
            let t = text_lines(text@);
            assert(t.take(i + 1) =~= t.take(i as int).push(t[i as int]));
        }
        out.push(l);
        i += 1;
    }
    assert(text_lines(text@).take(i as int) =~= text_lines(text@));
    (out, newline)
}

/// The caret's line and column, both counted from one, when a caret was seen.
pub type Caret = Option<(usize, usize)>;

/// The caret's line, counted from zero; the first when none was seen.
pub open spec fn caret_line0(caret: Caret) -> int {
    match caret {
        Some((l, _)) => if l == 0 {
            0
        } else {
            l - 1
        },
        None => 0,
    }
}

/// The caret's line, counted from zero; the first when no caret was seen.
pub fn cursor_line0(caret: Caret) -> (l: usize)
    ensures
        l == caret_line0(caret),
{
    match caret {
        Some((line, _)) => if line == 0 {
            0
        } else {
            line - 1
        },
        None => 0,
    }
}

/// The caret's column; the first when none was seen.
pub open spec fn caret_column(caret: Caret) -> int {
    match caret {
        Some((_, c)) => c as int,
        None => 1,
    }
}

/// Two elements of a sequence exchanged.
pub open spec fn swapped<A>(v: Seq<A>, i: int, j: int) -> Seq<A> {
    v.update(i, v[j]).update(j, v[i])
}

/// Whether the caret's line can trade places with the one `dir` rows away.
pub open spec fn can_move(s: Seq<char>, line0: int, dir: int) -> bool {
    0 <= line0 < body_lines(s).len() && 0 <= line0 + dir < body_lines(s).len()
}

/// A text with line `line0` and the one `dir` rows away exchanged.
pub open spec fn line_moved(s: Seq<char>, line0: int, dir: int) -> Seq<char> {
    rebuild(swapped(body_lines(s), line0, line0 + dir), ends_with_newline(s))
}

/// Exchange the caret's line with the one `dir` rows away (`-1` up, `1` down) and
/// keep the caret on it, in its column. `None`: there is no such line.
pub fn move_cursor_line(text: &str, caret: Caret, dir: i32) -> (r: Option<(String, (usize, usize))>)
    ensures
        r is Some <==> can_move(text@, caret_line0(caret), dir as int),
        r matches Some((t, c)) ==> {
            &&& t@ == line_moved(text@, caret_line0(caret), dir as int)
            &&& c.0 == caret_line0(caret) + dir + 1
            &&& c.1 == caret_column(caret)
        },
{
    let ln = cursor_line0(caret);
    let (mut lines, newline) = lines_of(text);
    let n: usize = lines.len();
    assert(views(lines@).len() == n);
    if ln >= n {
        return None;
    }
    let target: usize = if dir < 0 {
        let up: i64 = -(dir as i64);
        if (ln as u128) < (up as u128) {
            return None;
        }
        ln - up as usize
    } else {
        if (ln as u128) + (dir as u128) >= (n as u128) {
            return None;
        }
        ln + dir as usize
    };
    if target >= n {
        return None;
    }
    let ghost v = views(lines@);
    if target != ln {
        let x = clone_line(&lines[ln]);
        let y = clone_line(&lines[target]);
        lines.set(ln, y);
        lines.set(target, x);
    }
    assert(views(lines@) =~= swapped(v, ln as int, target as int));
    let col: usize = match caret {
        Some((_, c)) => c,
        None => 1,
    };
    Some((text_of(&lines, newline), (target + 1, col)))
}

/// A copy of a line.
pub(crate) fn clone_line(l: &Vec<char>) -> (r: Vec<char>)
    ensures
        r@ == l@,
{
    let mut r: Vec<char> = Vec::new();
    let mut i: usize = 0;
    while i < l.len()
        invariant
            i <= l@.len(),
            r@ == l@.take(i as int),
        decreases l@.len() - i,
    {
        r.push(l[i]);
        assert(l@.take(i + 1) =~= l@.take(i as int).push(l@[i as int]));
        i += 1;
    }
    assert(l@.take(i as int) =~= l@);
    r
}

/// Moving a line and moving it back restores the text, unless an empty line came
/// last in a text without a final line feed: it is then taken for that line feed.
pub proof fn law_move_line_back(s: Seq<char>, line0: int, dir: int)
    requires
        can_move(s, line0, dir),
        ends_with_newline(s) || swapped(body_lines(s), line0, line0 + dir).last().len() > 0,
    ensures
        can_move(line_moved(s, line0, dir), line0 + dir, -dir),
        line_moved(line_moved(s, line0, dir), line0 + dir, -dir) == s,
{
    let v = body_lines(s);
    let w = swapped(v, line0, line0 + dir);
    lemma_split_lines(s);
    assert(all_one_line(w)) by {
        assert forall|i: int| 0 <= i < w.len() implies one_line(#[trigger] w[i]) by {
            assert(one_line(split(s)[i]));
            assert(one_line(split(s)[line0]));
            assert(one_line(split(s)[line0 + dir]));
        }
    }
    lemma_body_rebuild(w, ends_with_newline(s));
    assert(swapped(w, line0 + dir, line0) =~= v);
    law_rebuild_body(s);
}

/// A move exchanges two lines, of which neither is the empty stretch behind a final line feed,
/// and leaves every other line as it was. There is no move to where no line is.
pub proof fn law_move_exchanges_two_lines(s: Seq<char>, line0: int, dir: int, i: int)
    requires
        0 <= i < split(s).len(),
    ensures
        ({
            let n = if s.len() > 0 && s.last() == '\n' {
                split(s).len() - 1
            } else {
                split(s).len() as int
            };
            let v = split(line_moved(s, line0, dir));
            let to = line0 + dir;
            &&& can_move(s, line0, dir) <==> 0 <= line0 < n && 0 <= to < n
            &&& 0 <= line0 < n && 0 <= to < n ==> {
                &&& v.len() == split(s).len()
                &&& v[line0] == split(s)[to]
                &&& v[to] == split(s)[line0]
                &&& i != line0 && i != to ==> v[i] == split(s)[i]
            }
        }),
{
    lemma_split_body(s);
    if can_move(s, line0, dir) {
        let v = body_lines(s);
        let w = swapped(v, line0, line0 + dir);
        assert(all_one_line(w)) by {
            assert forall|k: int| 0 <= k < w.len() implies one_line(#[trigger] w[k]) by {
                assert(one_line(v[k]) && one_line(v[line0]) && one_line(v[line0 + dir]));
            }
        }
        lemma_split_rebuild(w, ends_with_newline(s));
    }
}

/// The caret's place counts from one; without a caret it is the start of the text.
pub proof fn law_caret_counts_from_one(l: usize, c: usize)
    requires
        l > 0,
    ensures
        caret_line0(Some((l, c))) + 1 == l,
        caret_column(Some((l, c))) == c,
        caret_line0(None) == 0,
        caret_column(None) == 1,
{
}

/// A text with a copy of line `line0` below it.
pub open spec fn line_duplicated(s: Seq<char>, line0: int) -> Seq<char> {
    rebuild(body_lines(s).insert(line0 + 1, body_lines(s)[line0]), ends_with_newline(s))
}

/// Put a copy of the caret's line below it. `None`: the caret is past the last
/// line.
pub fn duplicate_cursor_line(text: &str, caret: Caret) -> (r: Option<String>)
    ensures
        r is Some <==> caret_line0(caret) < body_lines(text@).len(),
        r matches Some(t) ==> t@ == line_duplicated(text@, caret_line0(caret)),
{
    let ln = cursor_line0(caret);
    let (mut lines, newline) = lines_of(text);
    let n: usize = lines.len();
    assert(views(lines@).len() == n);
    if ln >= n {
        return None;
    }
    let ghost v = views(lines@);
    let copy = clone_line(&lines[ln]);
    lines.insert(ln + 1, copy);
    assert(views(lines@) =~= v.insert(ln + 1, v[ln as int]));
    Some(text_of(&lines, newline))
}

/// The copy is one more line and every other line is kept, unless the copied line
/// is an empty last one without a line feed behind it.
pub proof fn law_duplicate_adds_one_line(s: Seq<char>, line0: int)
    requires
        0 <= line0 < body_lines(s).len(),
        ends_with_newline(s) || body_lines(s).last().len() > 0,
    ensures
        body_lines(line_duplicated(s, line0)) == body_lines(s).insert(
            line0 + 1,
            body_lines(s)[line0],
        ),
{
    let v = body_lines(s);
    let w = v.insert(line0 + 1, v[line0]);
    lemma_split_lines(s);
    assert(all_one_line(w)) by {
        assert forall|i: int| 0 <= i < w.len() implies one_line(#[trigger] w[i]) by {
            assert(one_line(split(s)[line0]));
            if i <= line0 {
                assert(one_line(split(s)[i]));
            } else if i > line0 + 1 {
                assert(one_line(split(s)[i - 1]));
            }
        }
    }
    lemma_body_rebuild(w, ends_with_newline(s));
}

/// The copy stands right below its line, and every other line is kept, in its order.
pub proof fn law_duplicate_stands_below(s: Seq<char>, line0: int)
    requires
        0 <= line0 < body_lines(s).len(),
    ensures
        split(line_duplicated(s, line0)) == split(s).take(line0 + 1) + seq![split(s)[line0]]
            + split(s).skip(line0 + 1),
{
    lemma_split_body(s);
    let v = body_lines(s);
    let w = v.insert(line0 + 1, v[line0]);
    assert(all_one_line(w)) by {
        assert forall|i: int| 0 <= i < w.len() implies one_line(#[trigger] w[i]) by {
            assert(one_line(v[line0]));
            if i <= line0 {
                assert(one_line(v[i]));
            } else if i > line0 + 1 {
                assert(one_line(v[i - 1]));
            }
        }
    }
    lemma_split_rebuild(w, ends_with_newline(s));
    assert(split(line_duplicated(s, line0)) =~= split(s).take(line0 + 1) + seq![split(s)[line0]]
        + split(s).skip(line0 + 1));
}

/// Where the leading whitespace of a line, from `i` on, ends.
pub open spec fn lead_from(l: Seq<char>, i: int) -> int
    decreases l.len() - i,
{
    if i >= l.len() {
        l.len() as int
    } else if text::is_white_space(l[i]) {
        lead_from(l, i + 1)
    } else {
        i
    }
}

/// How many whitespace characters a line starts with.
pub open spec fn lead(l: Seq<char>) -> int {
    lead_from(l, 0)
}

/// Where a line's trailing whitespace, as far back as `i`, starts.
pub open spec fn tail_from(l: Seq<char>, i: int) -> int
    decreases i,
{
    if i <= 0 {
        0
    } else if text::is_white_space(l[i - 1]) {
        tail_from(l, i - 1)
    } else {
        i
    }
}

/// A line without its leading whitespace.
pub open spec fn trim_start(l: Seq<char>) -> Seq<char> {
    l.skip(lead(l))
}

/// A line without its trailing whitespace.
pub open spec fn trim_end(l: Seq<char>) -> Seq<char> {
    l.take(tail_from(l, l.len() as int))
}

/// A line of whitespace alone, or an empty one.
pub open spec fn blank(l: Seq<char>) -> bool {
    lead(l) == l.len()
}

/// The leading whitespace is whitespace, and ends at the first other character.
pub proof fn lemma_lead_from(l: Seq<char>, i: int)
    requires
        0 <= i <= l.len(),
    ensures
        i <= lead_from(l, i) <= l.len(),
        forall|k: int| i <= k < lead_from(l, i) ==> text::is_white_space(#[trigger] l[k]),
        lead_from(l, i) < l.len() ==> !text::is_white_space(l[lead_from(l, i)]),
    decreases l.len() - i,
{
    if i < l.len() && text::is_white_space(l[i]) {
        lemma_lead_from(l, i + 1);
    }
}

/// The leading whitespace ends where whitespace first ends.
pub proof fn lemma_lead_is(l: Seq<char>, i: int, k: int)
    requires
        0 <= i <= k <= l.len(),
        forall|j: int| i <= j < k ==> text::is_white_space(#[trigger] l[j]),
        k < l.len() ==> !text::is_white_space(l[k]),
    ensures
        lead_from(l, i) == k,
    decreases k - i,
{
    if i < k {
        assert(text::is_white_space(l[i]));
        lemma_lead_is(l, i + 1, k);
    }
}

pub(crate) fn find_lead(l: &Vec<char>) -> (k: usize)
    ensures
        k == lead(l@),
        k <= l@.len(),
{
    let mut k: usize = 0;
    while k < l.len()
        invariant
            k <= l@.len(),
            lead(l@) == lead_from(l@, k as int),
        decreases l@.len() - k,
    {
        if !char_is_whitespace(l[k]) {
            return k;
        }
        k += 1;
    }
    k
}

fn find_tail(l: &Vec<char>) -> (k: usize)
    ensures
        k == tail_from(l@, l@.len() as int),
        k <= l@.len(),
{
    let mut k: usize = l.len();
    while k > 0
        invariant
            k <= l@.len(),
            tail_from(l@, l@.len() as int) == tail_from(l@, k as int),
        decreases k,
    {
        if !char_is_whitespace(l[k - 1]) {
            return k;
        }
        k -= 1;
    }
    k
}

/// A text without the whitespace at its two ends.
pub open spec fn trim(s: Seq<char>) -> Seq<char> {
    trim_start(trim_end(s))
}

/// A text without the whitespace at its two ends.
pub fn trimmed(s: &str) -> (t: String)
    ensures
        t@ == trim(s@),
{
    let chars = chars_of(s);
    let end: usize = find_tail(&chars);
    let mut front: Vec<char> = Vec::new();
    push_range(&mut front, &chars, 0, end);
    assert(front@ =~= trim_end(s@));
    let start: usize = find_lead(&front);
    let t = string_of(&front, start, front.len());
    assert(t@ =~= trim(s@));
    t
}

/// Append `src[lo..hi)` to `dst`.
pub(crate) fn push_range(dst: &mut Vec<char>, src: &Vec<char>, lo: usize, hi: usize)
    requires
        lo <= hi <= src@.len(),
    ensures
        final(dst)@ == old(dst)@ + src@.subrange(lo as int, hi as int),
{
    let ghost base = dst@;
    let mut i: usize = lo;
    assert(base + src@.subrange(lo as int, lo as int) =~= base);
    while i < hi
        invariant
            lo <= i <= hi <= src@.len(),
            dst@ == base + src@.subrange(lo as int, i as int),
        decreases hi - i,
    {
        dst.push(src[i]);
        assert(src@.subrange(lo as int, i + 1) =~= src@.subrange(lo as int, i as int).push(
            src@[i as int],
        ));
        i += 1;
    }
}

/// Two lines made one: the first without its trailing, the second without its
/// leading whitespace, and one space between them unless either is empty.
pub open spec fn joined_line(a: Seq<char>, b: Seq<char>) -> Seq<char> {
    if trim_end(a).len() == 0 || trim_start(b).len() == 0 {
        trim_end(a) + trim_start(b)
    } else {
        trim_end(a).push(' ') + trim_start(b)
    }
}

/// A text with line `line0` and the next made one.
pub open spec fn lines_joined(s: Seq<char>, line0: int) -> Seq<char> {
    let v = body_lines(s);
    rebuild(v.remove(line0 + 1).update(line0, joined_line(v[line0], v[line0 + 1])), ends_with_newline(s))
}

/// Join the caret's line with the next. `None`: there is no next line.
pub fn join_cursor_line_with_next(text: &str, caret: Caret) -> (r: Option<String>)
    ensures
        r is Some <==> caret_line0(caret) + 1 < body_lines(text@).len(),
        r matches Some(t) ==> t@ == lines_joined(text@, caret_line0(caret)),
{
    let ln = cursor_line0(caret);
    let (mut lines, newline) = lines_of(text);
    let n: usize = lines.len();
    assert(views(lines@).len() == n);
    if ln >= n || ln + 1 >= n {
        return None;
    }
    let ghost v = views(lines@);
    let next = lines.remove(ln + 1);
    let cur_end = find_tail(&lines[ln]);
    let next_start = find_lead(&next);
    proof {
        lemma_lead_from(next@, 0);
    }
    let mut l: Vec<char> = Vec::new();
    push_range(&mut l, &lines[ln], 0, cur_end);
    if cur_end > 0 && next_start < next.len() {
        l.push(' ');
    }
    let hi: usize = next.len();
    push_range(&mut l, &next, next_start, hi);
    proof {
        let a = v[ln as int];
        let b = v[ln + 1];
        assert(a == lines@[ln as int]@);
        assert(b == next@);
        assert(a.subrange(0, cur_end as int) =~= trim_end(a));
        assert(b.subrange(next_start as int, b.len() as int) =~= trim_start(b));
        assert(Seq::<char>::empty() + trim_end(a) =~= trim_end(a));
        assert(l@ =~= joined_line(a, b));
    }
    lines.set(ln, l);
    assert(views(lines@) =~= v.remove(ln + 1).update(ln as int, l@));
    Some(text_of(&lines, newline))
}

/// Joining takes away one line and leaves every other as it was, unless the joined
/// line is an empty last one without a line feed behind it.
pub proof fn law_join_removes_one_line(s: Seq<char>, line0: int)
    requires
        0 <= line0,
        line0 + 1 < body_lines(s).len(),
        ends_with_newline(s) || line0 + 2 < body_lines(s).len() || joined_line(
            body_lines(s)[line0],
            body_lines(s)[line0 + 1],
        ).len() > 0,
    ensures
        body_lines(lines_joined(s, line0)) == body_lines(s).remove(line0 + 1).update(
            line0,
            joined_line(body_lines(s)[line0], body_lines(s)[line0 + 1]),
        ),
{
    let v = body_lines(s);
    let j = joined_line(v[line0], v[line0 + 1]);
    let w = v.remove(line0 + 1).update(line0, j);
    lemma_split_lines(s);
    assert(one_line(split(s)[line0]));
    assert(one_line(split(s)[line0 + 1]));
    lemma_lead_from(v[line0 + 1], 0);
    lemma_tail_bounds(v[line0], v[line0].len() as int);
    assert(one_line(j)) by {
        let a = trim_end(v[line0]);
        let b = trim_start(v[line0 + 1]);
        assert forall|i: int| 0 <= i < j.len() implies #[trigger] j[i] != '\n' by {
            if i < a.len() {
                assert(j[i] == v[line0][i]);
            } else if a.len() == 0 || b.len() == 0 {
                assert(j[i] == v[line0 + 1][lead(v[line0 + 1]) + i - a.len()]);
            } else if i > a.len() {
                assert(j[i] == v[line0 + 1][lead(v[line0 + 1]) + i - a.len() - 1]);
            }
        }
    }
    assert(all_one_line(w)) by {
        assert forall|i: int| 0 <= i < w.len() implies one_line(#[trigger] w[i]) by {
            if i < line0 {
                assert(one_line(split(s)[i]));
            } else if i > line0 {
                assert(one_line(split(s)[i + 1]));
            }
        }
    }
    if line0 + 2 < v.len() {
        assert(w.last() == v.last());
        if !ends_with_newline(s) {
            if s.len() == 0 {
                assert(split(s).len() == 1);
            }
        }
    }
    lemma_body_rebuild(w, ends_with_newline(s));
}

/// Where a line's trailing whitespace starts: behind the last character that is none.
proof fn lemma_tail_is(l: Seq<char>, i: int, k: int)
    requires
        0 <= k <= i <= l.len(),
        forall|j: int| k <= j < i ==> text::is_white_space(#[trigger] l[j]),
        k > 0 ==> !text::is_white_space(l[k - 1]),
    ensures
        tail_from(l, i) == k,
    decreases i - k,
{
    if k < i {
        assert(text::is_white_space(l[i - 1]));
        lemma_tail_is(l, i - 1, k);
    }
}

/// Whitespace and nothing else.
pub open spec fn all_white(l: Seq<char>) -> bool {
    forall|k: int| 0 <= k < l.len() ==> text::is_white_space(#[trigger] l[k])
}

/// Trimming takes the whitespace off the end that it is named for, all of it and no more.
pub proof fn law_trim_takes_the_blanks(u: Seq<char>, x: Seq<char>, w: Seq<char>)
    requires
        all_white(u),
        all_white(w),
    ensures
        x.len() > 0 && !text::is_white_space(x[0]) ==> trim_start(u + x) == x,
        x.len() > 0 && !text::is_white_space(x.last()) ==> trim_end(x + w) == x,
        x.len() > 0 && !text::is_white_space(x[0]) && !text::is_white_space(x.last()) ==> trim(
            u + x + w,
        ) == x,
        trim_start(u).len() == 0,
        trim_end(u).len() == 0,
        trim(u).len() == 0,
{
    if x.len() > 0 && !text::is_white_space(x[0]) {
        lemma_lead_is(u + x, 0, u.len() as int);
        assert(trim_start(u + x) =~= x);
    }
    if x.len() > 0 && !text::is_white_space(x.last()) {
        lemma_tail_is(x + w, (x + w).len() as int, x.len() as int);
        assert(trim_end(x + w) =~= x);
        lemma_tail_is(u + x + w, (u + x + w).len() as int, (u + x).len() as int);
        assert(trim_end(u + x + w) =~= u + x);
    }
    lemma_lead_is(u, 0, u.len() as int);
    lemma_tail_is(u, u.len() as int, 0);
    assert(trim_end(u) =~= Seq::<char>::empty());
}

/// Two lines are joined by one space, whatever whitespace stood between them; where one of them
/// is blank, what is left of the other stands alone.
pub proof fn law_joined_by_one_space(x: Seq<char>, u: Seq<char>, w: Seq<char>, y: Seq<char>)
    requires
        all_white(u),
        all_white(w),
        x.len() > 0 ==> !text::is_white_space(x.last()),
        y.len() > 0 ==> !text::is_white_space(y[0]),
    ensures
        x.len() > 0 && y.len() > 0 ==> joined_line(x + u, w + y) == x + seq![' '] + y,
        x.len() == 0 ==> joined_line(x + u, w + y) == y,
        y.len() == 0 ==> joined_line(x + u, w + y) == x,
{
    lemma_tail_is(x + u, (x + u).len() as int, x.len() as int);
    assert(trim_end(x + u) =~= x);
    lemma_lead_is(w + y, 0, w.len() as int);
    assert(trim_start(w + y) =~= y);
    assert(x.push(' ') + y =~= x + seq![' '] + y);
    assert(x.len() == 0 ==> x + y =~= y);
    assert(y.len() == 0 ==> x + y =~= x);
}

/// Joining puts the one line in the place of the two; every other line is kept, in its order.
pub proof fn law_join_leaves_the_other_lines(s: Seq<char>, line0: int)
    requires
        0 <= line0,
        line0 + 1 < body_lines(s).len(),
    ensures
        split(lines_joined(s, line0)) == split(s).take(line0) + seq![
            joined_line(split(s)[line0], split(s)[line0 + 1]),
        ] + split(s).skip(line0 + 2),
{
    lemma_split_body(s);
    let v = body_lines(s);
    let j = joined_line(v[line0], v[line0 + 1]);
    let w = v.remove(line0 + 1).update(line0, j);
    assert(one_line(v[line0]) && one_line(v[line0 + 1]));
    lemma_joined_is_one_line(v[line0], v[line0 + 1]);
    assert(all_one_line(w)) by {
        assert forall|i: int| 0 <= i < w.len() implies one_line(#[trigger] w[i]) by {
            if i < line0 {
                assert(one_line(v[i]));
            } else if i > line0 {
                assert(one_line(v[i + 1]));
            }
        }
    }
    lemma_split_rebuild(w, ends_with_newline(s));
    assert(split(lines_joined(s, line0)) =~= split(s).take(line0) + seq![j] + split(s).skip(
        line0 + 2,
    ));
}

proof fn lemma_joined_is_one_line(p: Seq<char>, q: Seq<char>)
    requires
        one_line(p),
        one_line(q),
    ensures
        one_line(joined_line(p, q)),
{
    lemma_lead_from(q, 0);
    lemma_tail_bounds(p, p.len() as int);
    let j = joined_line(p, q);
    let a = trim_end(p);
    let b = trim_start(q);
    assert forall|i: int| 0 <= i < j.len() implies #[trigger] j[i] != '\n' by {
        if i < a.len() {
            assert(j[i] == p[i]);
        } else if a.len() == 0 || b.len() == 0 {
            assert(j[i] == q[lead(q) + i - a.len()]);
        } else if i > a.len() {
            assert(j[i] == q[lead(q) + i - a.len() - 1]);
        }
    }
}

/// A reader's lines are those between the line feeds, but for the empty stretch behind the last
/// of them; a carriage return right before a line feed is left off, and no other.
pub proof fn law_reader_lines(s: Seq<char>, i: int)
    requires
        s.len() > 0,
        0 <= i < split(s).len(),
    ensures
        ({
            let v = split(s);
            let t = text_lines(s);
            &&& t.len() == (if s.last() == '\n' {
                v.len() - 1
            } else {
                v.len() as int
            })
            &&& i < v.len() - 1 ==> t[i] == (if v[i].len() > 0 && v[i].last() == '\r' {
                v[i].drop_last()
            } else {
                v[i]
            })
            &&& i == v.len() - 1 && s.last() != '\n' ==> t[i] == v[i]
        }),
        text_lines(Seq::empty()).len() == 0,
{
    lemma_split_body(s);
}

proof fn lemma_tail_bounds(l: Seq<char>, i: int)
    requires
        0 <= i <= l.len(),
    ensures
        0 <= tail_from(l, i) <= i,
    decreases i,
{
    if i > 0 && text::is_white_space(l[i - 1]) {
        lemma_tail_bounds(l, i - 1);
    }
}

} // verus!

//! Line bookmarks.
use std::collections::BTreeSet;
use vstd::prelude::*;
use vstd::string::*;
use crate::text;
use crate::text::decimal_string;

verus! {

broadcast use vstd::laws_cmp::group_laws_cmp;

/// `b` is the bookmark that "next" goes to from line `from`: the nearest below it or,
/// where there is none, the first of all.
pub open spec fn is_next(marks: Set<usize>, from: int, b: usize) -> bool {
    &&& marks.contains(b)
    &&& if exists|x: usize| #[trigger] marks.contains(x) && x > from {
        b > from && forall|x: usize| #[trigger] marks.contains(x) && x > from ==> b <= x
    } else {
        forall|x: usize| #[trigger] marks.contains(x) ==> b <= x
    }
}

/// `b` is the bookmark that "previous" goes to from line `from`: the nearest above it
/// or, where there is none, the last of all.
pub open spec fn is_previous(marks: Set<usize>, from: int, b: usize) -> bool {
    &&& marks.contains(b)
    &&& if exists|x: usize| #[trigger] marks.contains(x) && x < from {
        b < from && forall|x: usize| #[trigger] marks.contains(x) && x < from ==> x <= b
    } else {
        forall|x: usize| #[trigger] marks.contains(x) ==> x <= b
    }
}

/// The bookmarked lines in a vector.
fn marked_lines(bookmarks: &BTreeSet<usize>) -> (v: Vec<usize>)
    ensures
        forall|x: usize| bookmarks@.contains(x) <==> v@.contains(x),
{
    let mut v: Vec<usize> = Vec::new();
    for b in it: bookmarks.iter()
        invariant
            it.seq().unref().to_set() == bookmarks@,
            v@ == it.seq().unref().take(it.index() as int),
            it.index() == it.seq().len() ==> v@ == it.seq().unref(),
            it.index() == it.seq().len() ==> v@.to_set() == bookmarks@,
    {
        let ghost all = it.seq().unref();
        let ghost k = it.index() as int;
        assert(*b == all[k]);
        assert(all.take(k + 1) =~= all.take(k).push(*b));
        v.push(*b);
        assert(all.take(all.len() as int) =~= all);
    }
    assert forall|x: usize| bookmarks@.contains(x) <==> v@.contains(x) by {
        assert(v@.to_set().contains(x) <==> v@.contains(x));
    }
    v
}

/// The bookmark to jump to from line `from` (counted from zero): the next one for a
/// `dir` of one, the previous one for minus one. Past the last bookmark "next" goes to
/// the first, before the first "previous" goes to the last. `None` when there are no
/// bookmarks.
pub fn pick_bookmark(bookmarks: &BTreeSet<usize>, from: usize, dir: i32) -> (r: Option<usize>)
    requires
        dir >= 0 ==> from < usize::MAX,
    ensures
        match r {
            Some(b) => if dir >= 0 {
                is_next(bookmarks@, from as int, b)
            } else {
                is_previous(bookmarks@, from as int, b)
            },
            None => forall|x: usize| !bookmarks@.contains(x),
        },
{
    let v = marked_lines(bookmarks);
    let n: usize = v.len();
    if n == 0 {
        assert forall|x: usize| !bookmarks@.contains(x) by {
            assert(!v@.contains(x));
        }
        return None;
    }
    let mut near: Option<usize> = None;
    let mut far: usize = v[0];
    let mut i: usize = 0;
    assert(v@.contains(v@[0]));
    while i < n
        invariant
            n == v@.len(),
            n > 0,
            i <= n,
            v@.contains(far),
            dir >= 0 ==> {
                &&& forall|k: int| 0 <= k < i ==> far <= #[trigger] v@[k]
                &&& match near {
                    Some(b) => v@.contains(b) && b > from && forall|k: int|
                        0 <= k < i && v@[k] > from ==> b <= #[trigger] v@[k],
                    None => forall|k: int| 0 <= k < i ==> #[trigger] v@[k] <= from,
                }
            },
            dir < 0 ==> {
                &&& forall|k: int| 0 <= k < i ==> #[trigger] v@[k] <= far
                &&& match near {
                    Some(b) => v@.contains(b) && b < from && forall|k: int|
                        0 <= k < i && v@[k] < from ==> #[trigger] v@[k] <= b,
                    None => forall|k: int| 0 <= k < i ==> #[trigger] v@[k] >= from,
                }
            },
        decreases n - i,
    {
        let x: usize = v[i];
        assert(v@.contains(v@[i as int]));
        if dir >= 0 {
            if x < far {
                far = x;
            }
            if x > from {
                near = match near {
                    Some(b) => if x < b {
                        Some(x)
                    } else {
                        Some(b)
                    },
                    None => Some(x),
                };
            }
        } else {
            if x > far {
                far = x;
            }
            if x < from {
                near = match near {
                    Some(b) => if x > b {
                        Some(x)
                    } else {
                        Some(b)
                    },
                    None => Some(x),
                };
            }
        }
        i += 1;
    }
    let b: usize = match near {
        Some(b) => b,
        None => far,
    };
    proof {
        assert forall|x: usize| #[trigger] bookmarks@.contains(x) implies exists|k: int|
            0 <= k < n && #[trigger] v@[k] == x by {
            assert(v@.contains(x));
        }
        assert(bookmarks@.contains(b));
    }
    Some(b)
}

/// Jumping to the next bookmark and back to the previous one returns to a bookmarked
/// line.
pub proof fn law_next_then_previous(marks: Set<usize>, from: usize, b: usize, c: usize)
    requires
        marks.contains(from),
        is_next(marks, from as int, b),
        is_previous(marks, b as int, c),
    ensures
        c == from,
{
    if exists|x: usize| #[trigger] marks.contains(x) && x > from {
        assert(marks.contains(from) && from < b);
        if c != from {
            assert(c > from);
        }
    } else {
        if exists|x: usize| #[trigger] marks.contains(x) && x < b {
            let x = choose|x: usize| #[trigger] marks.contains(x) && x < b;
            assert(b <= x);
        }
        assert(from <= c);
        assert(!(c > from));
    }
}

/// "Next" goes down to the nearest mark, skipping none; it goes up only where no mark lies
/// below, and then to the first of all.
pub proof fn law_next_skips_no_mark(marks: Set<usize>, from: int, b: usize, x: usize)
    requires
        is_next(marks, from, b),
        marks.contains(x),
    ensures
        marks.contains(b),
        b > from ==> !(from < x < b),
        b <= from ==> x <= from && b <= x,
{
}

/// "Previous" goes up to the nearest mark, skipping none; it goes down only where no mark lies
/// above, and then to the last of all.
pub proof fn law_previous_skips_no_mark(marks: Set<usize>, from: int, b: usize, x: usize)
    requires
        is_previous(marks, from, b),
        marks.contains(x),
    ensures
        marks.contains(b),
        b < from ==> !(b < x < from),
        b >= from ==> from <= x && x <= b,
{
}

/// A set of lines with one turned over.
pub open spec fn toggled(marks: Set<usize>, line: usize) -> Set<usize> {
    if marks.contains(line) {
        marks.remove(line)
    } else {
        marks.insert(line)
    }
}

/// The status line after the bookmark on a line was turned over.
pub open spec fn toggle_status(marks: Set<usize>, line0: usize) -> Seq<char> {
    (if marks.contains(line0) {
        "bookmark removed: line "@
    } else {
        "bookmark added: line "@
    }) + text::decimal((line0 + 1) as nat)
}

/// Turn the bookmark on line `line0` (counted from zero) on or off. Gives the status
/// line.
pub fn toggle_bookmark(marks: &mut BTreeSet<usize>, line0: usize) -> (s: String)
    requires
        line0 < usize::MAX,
    ensures
        final(marks)@ == toggled(old(marks)@, line0),
        s@ == toggle_status(old(marks)@, line0),
{
    let number = decimal_string(line0 + 1);
    if marks.remove(&line0) {
        let mut s = "bookmark removed: line ".to_string();
        s.append(number.as_str());
        s
    } else {
        marks.insert(line0);
        let mut s = "bookmark added: line ".to_string();
        s.append(number.as_str());
        proof {
            assert(marks@ =~= old(marks)@.insert(line0));
        }
        s
    }
}

/// Toggling a line twice leaves the bookmarks as they were.
pub proof fn law_toggle_bookmark_twice(marks: Set<usize>, line: usize)
    ensures
        toggled(toggled(marks, line), line) == marks,
{
    assert(toggled(toggled(marks, line), line) =~= marks);
}

/// Toggling turns the bookmark of the one line over and leaves every other as it was; the status
/// line says which way, and names the line as the reader counts it.
pub proof fn law_toggle_turns_one_bookmark(marks: Set<usize>, line: usize, other: usize)
    requires
        line < usize::MAX,
    ensures
        toggled(marks, line).contains(line) <==> !marks.contains(line),
        other != line ==> (toggled(marks, line).contains(other) <==> marks.contains(other)),
        marks.contains(line) ==> toggle_status(marks, line) == "bookmark removed: line "@
            + text::decimal((line + 1) as nat),
        toggled(marks, line).contains(line) ==> toggle_status(marks, line)
            == "bookmark added: line "@ + text::decimal((line + 1) as nat),
{
}

/// Where "next" and "previous" lead: the line to go to, counted from one, or the status
/// line when there are no bookmarks.
pub enum BookmarkJump {
    /// Go to this line, counted from one.
    Line(usize),
    /// The status line.
    Nothing(String),
}

/// Jump from line `from` (counted from zero) to the next or previous bookmark.
pub fn navigate_bookmark(marks: &BTreeSet<usize>, from: usize, dir: i32) -> (j: BookmarkJump)
    requires
        from < usize::MAX,
        forall|x: usize| marks@.contains(x) ==> x < usize::MAX,
    ensures
        match j {
            BookmarkJump::Line(l) => l > 0 && if dir >= 0 {
                is_next(marks@, from as int, (l - 1) as usize)
            } else {
                is_previous(marks@, from as int, (l - 1) as usize)
            },
            BookmarkJump::Nothing(s) => s@ == "no bookmarks in this buffer"@ && forall|x: usize|
                !marks@.contains(x),
        },
{
    match pick_bookmark(marks, from, dir) {
        Some(line0) => BookmarkJump::Line(line0 + 1),
        None => BookmarkJump::Nothing("no bookmarks in this buffer".to_string()),
    }
}

} // verus!

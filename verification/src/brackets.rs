//! Bracket pairs next to the caret.
use vstd::prelude::*;
use vstd::string::*;
use crate::text::chars_of;

verus! {

/// The closing bracket of an opening one.
pub open spec fn closer_of(c: char) -> Option<char> {
    if c == '(' {
        Some(')')
    } else if c == '[' {
        Some(']')
    } else if c == '{' {
        Some('}')
    } else {
        None
    }
}

/// How many more `open` than `close` characters stand in `s[a..b)`.
pub open spec fn balance(s: Seq<char>, open: char, close: char, a: int, b: int) -> int
    decreases b - a,
{
    if a >= b {
        0
    } else {
        balance(s, open, close, a, b - 1) + (if s[b - 1] == open {
            1int
        } else if s[b - 1] == close {
            -1int
        } else {
            0int
        })
    }
}

/// The brackets at `i` and `j` belong together: an opener and, later, a closer
/// of the same kind, with every bracket of that kind between them matched
/// between them.
pub open spec fn is_pair(s: Seq<char>, i: int, j: int) -> bool {
    &&& 0 <= i < j < s.len()
    &&& closer_of(s[i]) == Some(s[j])
    &&& balance(s, s[i], s[j], i, j + 1) == 0
    &&& forall|k: int| i < k <= j ==> #[trigger] balance(s, s[i], s[j], i, k) > 0
}

/// Whether the character at `i` is one end of a bracket pair.
pub open spec fn has_pair(s: Seq<char>, i: int) -> bool {
    exists|j: int|
        #![trigger is_pair(s, i, j)]
        #![trigger is_pair(s, j, i)]
        is_pair(s, i, j) || is_pair(s, j, i)
}

/// Both brackets of a pair have one, and a bracket has one only as half of a pair.
pub proof fn law_both_halves_have_a_pair(s: Seq<char>, i: int, j: int)
    ensures
        is_pair(s, i, j) ==> has_pair(s, i) && has_pair(s, j),
        (forall|k: int| !#[trigger] is_pair(s, i, k)) && (forall|k: int|
            !#[trigger] is_pair(s, k, i)) ==> !has_pair(s, i),
{
}

/// The brackets are the round, the square and the curly ones, each closed by its own.
pub proof fn law_brackets_close_by_kind(c: char, d: char)
    ensures
        closer_of(c) == Some(d) <==> (c == '(' && d == ')') || (c == '[' && d == ']') || (c == '{'
            && d == '}'),
{
}

/// Two brackets of a kind with neither of them in between belong together.
pub proof fn law_brackets_around_plain_text(s: Seq<char>, i: int, j: int)
    requires
        0 <= i < j < s.len(),
        closer_of(s[i]) == Some(s[j]),
        forall|k: int| i < k < j ==> #[trigger] s[k] != s[i] && s[k] != s[j],
    ensures
        is_pair(s, i, j),
{
    assert forall|k: int| i < k <= j implies #[trigger] balance(s, s[i], s[j], i, k) > 0 by {
        lemma_balance_plain(s, i, j, k);
    }
    lemma_balance_plain(s, i, j, j);
}

proof fn lemma_balance_plain(s: Seq<char>, i: int, j: int, k: int)
    requires
        0 <= i < k <= j < s.len(),
        closer_of(s[i]) == Some(s[j]),
        forall|k: int| i < k < j ==> #[trigger] s[k] != s[i] && s[k] != s[j],
    ensures
        balance(s, s[i], s[j], i, k) == 1,
    decreases k - i,
{
    if k > i + 1 {
        lemma_balance_plain(s, i, j, k - 1);
    } else {
        assert(balance(s, s[i], s[j], i, i) == 0);
    }
}

/// A pair right inside two brackets of its kind is their content: the two belong together.
pub proof fn law_brackets_around_a_pair(s: Seq<char>, i: int, j: int)
    requires
        0 <= i,
        j < s.len(),
        i + 1 < j - 1,
        s[i] == s[i + 1],
        s[j] == s[j - 1],
        is_pair(s, i + 1, j - 1),
    ensures
        is_pair(s, i, j),
{
    let o = s[i];
    let c = s[j];
    assert(balance(s, o, c, i, i) == 0);
    assert(balance(s, o, c, i, i + 1) == 1);
    lemma_balance_split(s, o, c, i, i + 1, j);
    assert(balance(s, o, c, i + 1, j) == 0);
    assert forall|k: int| i < k <= j implies #[trigger] balance(s, o, c, i, k) > 0 by {
        lemma_balance_split(s, o, c, i, i + 1, k);
        if i + 1 < k < j {
            assert(balance(s, s[i + 1], s[j - 1], i + 1, k) > 0);
        } else if k == i + 1 {
            assert(balance(s, o, c, i + 1, i + 1) == 0);
        }
    }
}

/// The count over two adjoining stretches is the sum of their counts.
pub proof fn lemma_balance_split(s: Seq<char>, open: char, close: char, a: int, m: int, b: int)
    requires
        a <= m <= b,
    ensures
        balance(s, open, close, a, b) == balance(s, open, close, a, m) + balance(
            s,
            open,
            close,
            m,
            b,
        ),
    decreases b - m,
{
    if m < b {
        lemma_balance_split(s, open, close, a, m, b - 1);
    }
}

/// A bracket belongs to at most one pair: following a bracket to its partner and
/// back returns to it.
pub proof fn law_pair_is_unique(s: Seq<char>, i: int, j: int, k: int)
    ensures
        is_pair(s, i, j) && is_pair(s, i, k) ==> j == k,
        is_pair(s, j, i) && is_pair(s, k, i) ==> j == k,
        !(is_pair(s, i, j) && is_pair(s, k, i)),
{
    if is_pair(s, i, j) && is_pair(s, i, k) {
        if j < k {
            assert(balance(s, s[i], s[k], i, j + 1) > 0);
        }
        if k < j {
            assert(balance(s, s[i], s[j], i, k + 1) > 0);
        }
    }
    if is_pair(s, j, i) && is_pair(s, k, i) {
        if j < k {
            lemma_balance_split(s, s[j], s[i], j, k, i + 1);
            assert(balance(s, s[j], s[i], j, k) > 0);
        }
        if k < j {
            lemma_balance_split(s, s[k], s[i], k, j, i + 1);
            assert(balance(s, s[k], s[i], k, j) > 0);
        }
    }
}

/// Two pairs of one kind never cross: they lie apart or one inside the other.
pub proof fn law_pairs_nest(s: Seq<char>, i: int, j: int, k: int, l: int)
    requires
        is_pair(s, i, j),
        is_pair(s, k, l),
        s[i] == s[k],
        i < k,
    ensures
        j < k || l < j,
{
    if k <= j && j <= l {
        if k == j {
            law_pair_is_unique(s, k, l, i);
        } else if j == l {
            law_pair_is_unique(s, j, i, k);
        } else {
            lemma_balance_split(s, s[i], s[j], i, k, j + 1);
            assert(balance(s, s[i], s[j], i, k) > 0);
            assert(balance(s, s[k], s[l], k, j + 1) > 0);
        }
    }
}

/// The partner of the opener at `i`, scanning forward.
fn find_closer(chars: &Vec<char>, i: usize, close: char) -> (r: Option<usize>)
    requires
        i < chars@.len(),
        closer_of(chars@[i as int]) == Some(close),
    ensures
        match r {
            Some(j) => is_pair(chars@, i as int, j as int),
            None => !has_pair(chars@, i as int),
        },
{
    let n: usize = chars.len();
    let open = chars[i];
    let mut depth: usize = 1;
    let mut j: usize = i + 1;
    assert(balance(chars@, open, close, i as int, i as int) == 0);
    assert(balance(chars@, open, close, i as int, i + 1) == 1);
    while j < n
        invariant
            n == chars@.len(),
            i < n,
            open == chars@[i as int],
            closer_of(open) == Some(close),
            i < j <= chars@.len(),
            depth == balance(chars@, open, close, i as int, j as int),
            0 < depth <= j - i,
            forall|k: int|
                i < k <= j ==> #[trigger] balance(chars@, open, close, i as int, k) > 0,
        decreases chars@.len() - j,
    {
        if chars[j] == open {
            depth += 1;
        } else if chars[j] == close {
            depth -= 1;
            if depth == 0 {
                assert(is_pair(chars@, i as int, j as int));
                return Some(j);
            }
        }
        j += 1;
    }
    proof {
        assert forall|k: int| !is_pair(chars@, i as int, k) && !is_pair(chars@, k, i as int) by {
            if is_pair(chars@, i as int, k) {
                assert(balance(chars@, open, close, i as int, k + 1) > 0);
            }
        }
    }
    None
}

/// The partner of the closer at `i`, scanning backward.
fn find_opener(chars: &Vec<char>, i: usize, open: char) -> (r: Option<usize>)
    requires
        i < chars@.len(),
        closer_of(open) == Some(chars@[i as int]),
    ensures
        match r {
            Some(j) => is_pair(chars@, j as int, i as int),
            None => !has_pair(chars@, i as int),
        },
{
    let n: usize = chars.len();
    let close = chars[i];
    let mut depth: usize = 1;
    let mut j: usize = i;
    assert(balance(chars@, open, close, i as int, i as int) == 0);
    assert(balance(chars@, open, close, i as int, i + 1) == -1);
    while j > 0
        invariant
            n == chars@.len(),
            i < n,
            close == chars@[i as int],
            closer_of(open) == Some(close),
            j <= i,
            depth == -balance(chars@, open, close, j as int, i + 1),
            0 < depth <= i + 1 - j,
            forall|k: int|
                j <= k <= i ==> #[trigger] balance(chars@, open, close, k, i + 1) < 0,
        decreases j,
    {
        let ghost before = j as int;
        j -= 1;
        proof {
            lemma_balance_split(chars@, open, close, j as int, before, i + 1);
            assert(balance(chars@, open, close, j as int, j as int) == 0);
        }
        if chars[j] == close {
            depth += 1;
        } else if chars[j] == open {
            depth -= 1;
            if depth == 0 {
                proof {
                    assert forall|k: int| j < k <= i implies #[trigger] balance(
                        chars@,
                        open,
                        close,
                        j as int,
                        k,
                    ) > 0 by {
                        lemma_balance_split(chars@, open, close, j as int, k, i + 1);
                        assert(balance(chars@, open, close, k, i + 1) < 0);
                    }
                    assert(is_pair(chars@, j as int, i as int));
                }
                return Some(j);
            }
        }
    }
    proof {
        assert forall|k: int| !is_pair(chars@, i as int, k) && !is_pair(chars@, k, i as int) by {
            if is_pair(chars@, k, i as int) {
                assert(chars@[k] == open);
                assert(balance(chars@, open, close, k, i + 1) < 0);
            }
        }
    }
    None
}

/// The pair that the character at `ci` belongs to.
fn pair_at(chars: &Vec<char>, ci: usize) -> (r: Option<(usize, usize)>)
    ensures
        match r {
            Some((a, b)) => is_pair(chars@, a as int, b as int) && (a == ci || b == ci),
            None => !has_pair(chars@, ci as int),
        },
{
    if ci >= chars.len() {
        return None;
    }
    let here = chars[ci];
    if here == '(' || here == '[' || here == '{' {
        let close = if here == '(' {
            ')'
        } else if here == '[' {
            ']'
        } else {
            '}'
        };
        return match find_closer(chars, ci, close) {
            Some(j) => Some((ci, j)),
            None => None,
        };
    }
    if here == ')' || here == ']' || here == '}' {
        let open = if here == ')' {
            '('
        } else if here == ']' {
            '['
        } else {
            '{'
        };
        return match find_opener(chars, ci, open) {
            Some(j) => Some((j, ci)),
            None => None,
        };
    }
    None
}

/// Find the bracket pair to highlight for a caret at character index `caret_ci`:
/// the pair of the bracket just before the caret or, failing that, of the one
/// just after it. Gives the opener's and the closer's character index, in
/// ascending order.
pub fn matching_bracket_char_indices(text: &str, caret_ci: usize) -> (r: Option<(usize, usize)>)
    ensures
        match r {
            Some((a, b)) => {
                &&& is_pair(text@, a as int, b as int)
                &&& ({
                    ||| a == caret_ci - 1 || b == caret_ci - 1
                    ||| !has_pair(text@, caret_ci - 1) && (a == caret_ci || b == caret_ci)
                })
            },
            None => !has_pair(text@, caret_ci - 1) && !has_pair(text@, caret_ci as int),
        },
{
    let chars = chars_of(text);
    if caret_ci > 0 {
        let left = pair_at(&chars, caret_ci - 1);
        if left.is_some() {
            return left;
        }
    }
    pair_at(&chars, caret_ci)
}

/// The largest text, in bytes, whose brackets are matched.
pub const BRACKET_SCAN_CAP: usize = 500_000;

/// The distance between two places is how many steps lie between them, whichever comes first.
pub proof fn law_distance_counts_steps(a: int, n: int)
    requires
        n >= 0,
    ensures
        dist(a, a + n) == n,
        dist(a + n, a) == n,
{
}

/// Where the caret goes when asked to jump to the matching bracket: to the end of
/// its pair that it is farther from (the closer when it is as far from both).
/// `None` leaves it where it is: no pair beside it, or a text over the cap.
pub fn bracket_jump_target(text: &str, caret: usize) -> (r: Option<usize>)
    ensures
        match r {
            Some(t) => text.spec_bytes().len() <= BRACKET_SCAN_CAP && exists|a: int, b: int| #[trigger]
                is_pair(text@, a, b) && {
                    &&& a == caret - 1 || b == caret - 1 || (!has_pair(text@, caret - 1) && (a
                        == caret || b == caret))
                    &&& t == (if dist(caret as int, a) <= dist(caret as int, b) {
                        b
                    } else {
                        a
                    })
                },
            None => text.spec_bytes().len() > BRACKET_SCAN_CAP || (!has_pair(text@, caret - 1)
                && !has_pair(text@, caret as int)),
        },
{
    if text.as_bytes().len() > BRACKET_SCAN_CAP {
        return None;
    }
    match matching_bracket_char_indices(text, caret) {
        Some((open_ci, close_ci)) => {
            let to_open: usize = if caret >= open_ci { caret - open_ci } else { open_ci - caret };
            let to_close: usize = if caret >= close_ci { caret - close_ci } else { close_ci - caret };
            assert(is_pair(text@, open_ci as int, close_ci as int));
            if to_open <= to_close {
                Some(close_ci)
            } else {
                Some(open_ci)
            }
        },
        None => None,
    }
}

/// The distance between two positions.
pub open spec fn dist(a: int, b: int) -> int {
    if a >= b {
        a - b
    } else {
        b - a
    }
}

} // verus!

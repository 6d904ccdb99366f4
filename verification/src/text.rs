//! Characters, bytes and positions of a buffer's text.
//!
//! A text is modelled by its sequence of characters. Carets count characters;
//! search and spelling spans count UTF-8 bytes.
use vstd::prelude::*;
use vstd::utf8::*;
use vstd::string::*;

verus! {

broadcast use vstd::string::group_string_axioms;

/// `String::push` appends the given character to the end of the string.
pub assume_specification[ String::push ](s: &mut String, c: char)
    ensures
        final(s)@ == old(s)@.push(c),
;

/// Whether a character has the Unicode `White_Space` property: the tab, the line feed, the
/// vertical tab, the form feed and the carriage return, the space, the next line, the spaces
/// of other widths, and the line and paragraph separators.
pub open spec fn is_white_space(c: char) -> bool {
    ||| '\u{9}' <= c <= '\u{d}'
    ||| c == ' '
    ||| c == '\u{85}'
    ||| c == '\u{a0}'
    ||| c == '\u{1680}'
    ||| '\u{2000}' <= c <= '\u{200a}'
    ||| c == '\u{2028}'
    ||| c == '\u{2029}'
    ||| c == '\u{202f}'
    ||| c == '\u{205f}'
    ||| c == '\u{3000}'
}

/// `char::is_whitespace`: whether the character has the Unicode `White_Space` property.
#[verifier::external_body]
pub(crate) fn char_is_whitespace(c: char) -> (r: bool)
    ensures
        r == is_white_space(c),
{
    c.is_whitespace()
}

/// The lower-case mapping of a text.
pub uninterp spec fn lower_case(s: Seq<char>) -> Seq<char>;

/// `str::to_lowercase`: the lower-case equivalent of the text.
#[verifier::external_body]
pub(crate) fn str_to_lowercase(s: &str) -> (r: String)
    ensures
        r@ == lower_case(s@),
{
    s.to_lowercase()
}

/// How many bytes the first `ci` characters of `s` take (all of `s` when it has
/// fewer).
pub open spec fn byte_offset(s: Seq<char>, ci: int) -> nat {
    encode_utf8(s.take(clamp(ci, s.len() as int))).len()
}

/// `i`, or the nearest end of `0..=hi` when it lies outside.
pub open spec fn clamp(i: int, hi: int) -> int {
    if i < 0 {
        0
    } else if i > hi {
        hi
    } else {
        i
    }
}

/// UTF-8 encoding distributes over concatenation.
pub proof fn lemma_encode_concat(a: Seq<char>, b: Seq<char>)
    ensures
        encode_utf8(a + b) == encode_utf8(a) + encode_utf8(b),
    decreases a.len(),
{
    if a.len() == 0 {
        assert(a + b =~= b);
        assert(encode_utf8(a) + encode_utf8(b) =~= encode_utf8(b));
    } else {
        assert((a + b).drop_first() =~= a.drop_first() + b);
        lemma_encode_concat(a.drop_first(), b);
        assert(encode_utf8(a + b) =~= encode_utf8(a) + encode_utf8(b));
    }
}

/// One more character takes one to four more bytes.
pub proof fn lemma_byte_offset_step(s: Seq<char>, i: int)
    requires
        0 <= i < s.len(),
    ensures
        byte_offset(s, i + 1) == byte_offset(s, i) + encode_scalar(s[i] as u32).len(),
        1 <= encode_scalar(s[i] as u32).len() <= 4,
{
    assert(s.take(i + 1) =~= s.take(i) + seq![s[i]]);
    lemma_encode_concat(s.take(i), seq![s[i]]);
    assert(seq![s[i]].drop_first() =~= Seq::<char>::empty());
    reveal_with_fuel(encode_utf8, 3);
    assert(encode_utf8(seq![s[i]]) =~= encode_scalar(s[i] as u32));
}

/// Byte offsets grow strictly with the character index.
pub proof fn lemma_byte_offset_increases(s: Seq<char>, i: int, j: int)
    requires
        0 <= i <= j <= s.len(),
    ensures
        byte_offset(s, i) + (j - i) <= byte_offset(s, j),
    decreases j - i,
{
    if i < j {
        lemma_byte_offset_increases(s, i, j - 1);
        lemma_byte_offset_step(s, j - 1);
    }
}

/// The characters of `s`, in order.
pub fn chars_of(s: &str) -> (v: Vec<char>)
    ensures
        v@ == s@,
{
    let mut v: Vec<char> = Vec::new();
    for c in it: s.chars()
        invariant
            it.seq() == s@,
            v@ == s@.take(it.index() as int),
    {
        assert(s@.take(it.index() as int + 1) =~= s@.take(it.index() as int).push(c));
        v.push(c);
    }
    assert(s@.take(s@.len() as int) =~= s@);
    v
}

/// The string of the characters `v[lo..hi]`.
pub fn string_of(v: &Vec<char>, lo: usize, hi: usize) -> (s: String)
    requires
        lo <= hi <= v@.len(),
    ensures
        s@ == v@.subrange(lo as int, hi as int),
{
    let mut s = String::new();
    let mut i: usize = lo;
    while i < hi
        invariant
            lo <= i <= hi <= v@.len(),
            s@ == v@.subrange(lo as int, i as int),
        decreases hi - i,
    {
        assert(v@.subrange(lo as int, i + 1) =~= v@.subrange(lo as int, i as int).push(v@[i as int]));
        s.push(v[i]);
        i += 1;
    }
    s
}

/// Whether two texts are the same.
pub fn str_eq(a: &str, b: &str) -> (r: bool)
    ensures
        r == (a@ == b@),
{
    let x = chars_of(a);
    let y = chars_of(b);
    if x.len() != y.len() {
        return false;
    }
    let mut i: usize = 0;
    while i < x.len()
        invariant
            x@ == a@,
            y@ == b@,
            x@.len() == y@.len(),
            i <= x@.len(),
            forall|k: int| 0 <= k < i ==> #[trigger] x@[k] == y@[k],
        decreases x@.len() - i,
    {
        if x[i] != y[i] {
            return false;
        }
        i += 1;
    }
    assert(a@ =~= b@);
    true
}

/// Byte offset of character index `ci` in `s` (clamped to the length of `s`).
pub fn char_to_byte(s: &str, ci: usize) -> (b: usize)
    ensures
        b == byte_offset(s@, ci as int),
{
    let total: usize = s.as_bytes().len();
    let chars = chars_of(s);
    let mut i: usize = 0;
    let mut b: usize = 0;
    proof {
        assert(s@.take(0) =~= Seq::<char>::empty());
        assert(s@.take(s@.len() as int) =~= s@);
    }
    while i < ci && i < chars.len()
        invariant
            chars@ == s@,
            total == encode_utf8(s@).len(),
            encode_utf8(s@).len() == byte_offset(s@, s@.len() as int),
            i <= ci,
            i <= s@.len(),
            b == byte_offset(s@, i as int),
        decreases s@.len() - i,
    {
        proof {
            lemma_byte_offset_step(s@, i as int);
            lemma_byte_offset_increases(s@, i + 1, s@.len() as int);
        }
        b = b + char_len(chars[i]);
        i += 1;
    }
    b
}

/// How many bytes the UTF-8 encoding of `c` takes.
pub fn char_len(c: char) -> (n: usize)
    ensures
        n == encode_scalar(c as u32).len(),
        1 <= n <= 4,
{
    let v: u32 = c as u32;
    if v <= 0x7f {
        1
    } else if v <= 0x7ff {
        2
    } else if v <= 0xffff {
        3
    } else {
        4
    }
}

/// The greatest character index, `k` at most, whose byte offset is at or before
/// `byte`.
pub open spec fn char_index_upto(s: Seq<char>, byte: int, k: int) -> int
    decreases k,
{
    if k <= 0 {
        0
    } else if byte_offset(s, k) <= byte {
        k
    } else {
        char_index_upto(s, byte, k - 1)
    }
}

/// The greatest character index of `s` whose byte offset is at or before `byte`.
pub open spec fn char_index(s: Seq<char>, byte: int) -> int {
    char_index_upto(s, byte, s.len() as int)
}

/// Whether a character of `s` starts at byte `byte`, or `s` ends there.
pub open spec fn on_boundary(s: Seq<char>, byte: int) -> bool {
    byte_offset(s, char_index(s, byte)) == byte
}

/// The character index of a byte offset is found by its two neighbours.
pub proof fn lemma_char_index(s: Seq<char>, byte: int, ci: int)
    requires
        0 <= byte,
        0 <= ci <= s.len(),
        byte_offset(s, ci) <= byte,
        ci < s.len() ==> byte < byte_offset(s, ci + 1),
    ensures
        char_index(s, byte) == ci,
{
    lemma_char_index_upto(s, byte, ci, s.len() as int);
}

proof fn lemma_char_index_upto(s: Seq<char>, byte: int, ci: int, k: int)
    requires
        0 <= ci <= k <= s.len(),
        byte_offset(s, ci) <= byte,
        ci < s.len() ==> byte < byte_offset(s, ci + 1),
    ensures
        char_index_upto(s, byte, k) == ci,
    decreases k,
{
    if ci < k {
        lemma_byte_offset_increases(s, ci + 1, k);
        lemma_char_index_upto(s, byte, ci, k - 1);
    }
}

/// A character's byte offset leads back to the character.
pub proof fn lemma_char_index_of_offset(s: Seq<char>, ci: int)
    requires
        0 <= ci <= s.len(),
    ensures
        char_index(s, byte_offset(s, ci) as int) == ci,
        on_boundary(s, byte_offset(s, ci) as int),
{
    if ci < s.len() {
        lemma_byte_offset_step(s, ci);
    }
    lemma_char_index(s, byte_offset(s, ci) as int, ci);
}

/// A character index lies in the text, at or before its byte offset, and grows
/// with the offset.
pub proof fn lemma_char_index_bounds(s: Seq<char>, byte: int)
    requires
        0 <= byte,
    ensures
        0 <= char_index(s, byte) <= s.len(),
        byte_offset(s, char_index(s, byte)) <= byte,
        char_index(s, byte) < s.len() ==> byte < byte_offset(s, char_index(s, byte) + 1),
{
    lemma_char_index_upto_bounds(s, byte, s.len() as int);
}

proof fn lemma_char_index_upto_bounds(s: Seq<char>, byte: int, k: int)
    requires
        0 <= byte,
        0 <= k <= s.len(),
    ensures
        0 <= char_index_upto(s, byte, k) <= k,
        byte_offset(s, char_index_upto(s, byte, k)) <= byte,
        char_index_upto(s, byte, k) < k ==> byte < byte_offset(
            s,
            char_index_upto(s, byte, k) + 1,
        ),
    decreases k,
{
    assert(s.take(0) =~= Seq::<char>::empty());
    if k > 0 && byte_offset(s, k) > byte {
        lemma_char_index_upto_bounds(s, byte, k - 1);
    }
}

/// Character index of byte offset `byte` in `s`. Clamps to the nearest character
/// boundary at or before `byte`, so an offset inside a character gives that
/// character's own index, and one past the end gives the character count.
pub fn byte_to_char_index(s: &str, byte: usize) -> (ci: usize)
    ensures
        ci == char_index(s@, byte as int),
        ci <= s@.len(),
{
    let total: usize = s.as_bytes().len();
    let chars = chars_of(s);
    let mut i: usize = 0;
    let mut b: usize = 0;
    proof {
        assert(s@.take(0) =~= Seq::<char>::empty());
        assert(s@.take(s@.len() as int) =~= s@);
    }
    while i < chars.len()
        invariant
            chars@ == s@,
            total == encode_utf8(s@).len(),
            encode_utf8(s@).len() == byte_offset(s@, s@.len() as int),
            i <= s@.len(),
            b == byte_offset(s@, i as int),
            b <= byte,
        decreases s@.len() - i,
    {
        proof {
            lemma_byte_offset_step(s@, i as int);
            lemma_byte_offset_increases(s@, i + 1, s@.len() as int);
        }
        let next: usize = b + char_len(chars[i]);
        if next > byte {
            proof {
                lemma_char_index(s@, byte as int, i as int);
            }
            return i;
        }
        b = next;
        i += 1;
    }
    proof {
        lemma_char_index(s@, byte as int, i as int);
    }
    i
}

/// Turning a character index into a byte offset and back gives the index
/// clamped to the text.
pub proof fn law_char_byte_round_trip(s: Seq<char>, ci: int)
    requires
        0 <= ci,
    ensures
        char_index(s, byte_offset(s, ci) as int) == clamp(ci, s.len() as int),
{
    lemma_char_index_of_offset(s, clamp(ci, s.len() as int));
}

/// Turning a byte offset into a character index and back never moves past the
/// offset, and keeps it exactly when it lies between two characters of the text.
pub proof fn law_byte_char_round_trip(s: Seq<char>, byte: int)
    requires
        0 <= byte,
    ensures
        byte_offset(s, char_index(s, byte)) <= byte,
        byte_offset(s, char_index(s, byte)) == byte <==> exists|k: int|
            0 <= k <= s.len() && #[trigger] byte_offset(s, k) == byte,
{
    lemma_char_index_bounds(s, byte);
    if exists|k: int| 0 <= k <= s.len() && #[trigger] byte_offset(s, k) == byte {
        let k = choose|k: int| 0 <= k <= s.len() && #[trigger] byte_offset(s, k) == byte;
        lemma_char_index_of_offset(s, k);
    }
}

/// Whether a character of `text` starts at byte `byte`, or `text` ends there.
pub fn is_boundary(text: &str, byte: usize) -> (b: bool)
    ensures
        b == on_boundary(text@, byte as int),
{
    let ci = byte_to_char_index(text, byte);
    char_to_byte(text, ci) == byte
}

/// The decimal digit of `d`.
pub open spec fn digit(d: int) -> char {
    if d == 0 {
        '0'
    } else if d == 1 {
        '1'
    } else if d == 2 {
        '2'
    } else if d == 3 {
        '3'
    } else if d == 4 {
        '4'
    } else if d == 5 {
        '5'
    } else if d == 6 {
        '6'
    } else if d == 7 {
        '7'
    } else if d == 8 {
        '8'
    } else {
        '9'
    }
}

/// `n` written in decimal.
pub open spec fn decimal(n: nat) -> Seq<char>
    decreases n,
{
    if n < 10 {
        seq![digit(n as int)]
    } else {
        decimal(n / 10).push(digit((n % 10) as int))
    }
}

/// The number that a row of digits stands for.
pub open spec fn number_of(s: Seq<char>) -> nat
    decreases s.len(),
{
    if s.len() == 0 {
        0
    } else {
        10 * number_of(s.drop_last()) + (s.last() as nat - '0' as nat) as nat
    }
}

/// A number written in decimal reads back as that number, in digits alone, and without a zero
/// before it.
pub proof fn law_decimal_reads_back(n: nat)
    ensures
        number_of(decimal(n)) == n,
        decimal(n).len() > 0,
        forall|i: int| 0 <= i < decimal(n).len() ==> '0' <= #[trigger] decimal(n)[i] <= '9',
        n > 0 ==> decimal(n)[0] != '0',
    decreases n,
{
    let d = decimal(n);
    if n < 10 {
        assert(d.drop_last() =~= Seq::<char>::empty());
        assert(number_of(d.drop_last()) == 0);
    } else {
        law_decimal_reads_back(n / 10);
        assert(d.drop_last() =~= decimal(n / 10));
        assert(n == 10 * (n / 10) + n % 10);
    }
}

/// `n` written in decimal.
pub fn decimal_string(n: usize) -> (s: String)
    ensures
        s@ == decimal(n as nat),
    decreases n,
{
    let d: usize = n % 10;
    let c = if d == 0 {
        '0'
    } else if d == 1 {
        '1'
    } else if d == 2 {
        '2'
    } else if d == 3 {
        '3'
    } else if d == 4 {
        '4'
    } else if d == 5 {
        '5'
    } else if d == 6 {
        '6'
    } else if d == 7 {
        '7'
    } else if d == 8 {
        '8'
    } else {
        '9'
    };
    let mut s = if n < 10 {
        String::new()
    } else {
        decimal_string(n / 10)
    };
    s.push(c);
    s
}

/// `s` with `s[lo..hi)` replaced by `ins`.
pub open spec fn splice(s: Seq<char>, lo: int, hi: int, ins: Seq<char>) -> Seq<char> {
    s.take(lo) + ins + s.skip(hi)
}

/// A splice puts the new characters where the old ones were, and leaves what stands before and
/// behind.
pub proof fn law_splice_replaces_the_stretch(s: Seq<char>, lo: int, hi: int, ins: Seq<char>)
    requires
        0 <= lo <= hi <= s.len(),
    ensures
        ({
            let out = splice(s, lo, hi, ins);
            &&& out.len() == s.len() - (hi - lo) + ins.len()
            &&& out.take(lo) == s.take(lo)
            &&& out.subrange(lo, lo + ins.len()) == ins
            &&& out.skip(lo + ins.len()) == s.skip(hi)
        }),
{
    let out = splice(s, lo, hi, ins);
    assert(out.take(lo) =~= s.take(lo));
    assert(out.subrange(lo, lo + ins.len()) =~= ins);
    assert(out.skip(lo + ins.len()) =~= s.skip(hi));
}

/// A place is moved into the text by no more than needed.
pub proof fn law_clamp_moves_to_the_nearest(i: int, hi: int)
    requires
        hi >= 0,
    ensures
        0 <= clamp(i, hi) <= hi,
        0 <= i <= hi ==> clamp(i, hi) == i,
        i < 0 ==> clamp(i, hi) == 0,
        i > hi ==> clamp(i, hi) == hi,
{
}

/// `text` with the characters `lo..hi` replaced by `ins`. Both ends are clamped
/// to the text.
pub fn splice_chars(text: &str, lo: usize, hi: usize, ins: &str) -> (out: String)
    requires
        clamp(lo as int, text@.len() as int) <= clamp(hi as int, text@.len() as int),
    ensures
        out@ == splice(
            text@,
            clamp(lo as int, text@.len() as int),
            clamp(hi as int, text@.len() as int),
            ins@,
        ),
{
    let chars = chars_of(text);
    let n: usize = chars.len();
    let a: usize = if lo < n { lo } else { n };
    let b: usize = if hi < n { hi } else { n };
    let mut out = string_of(&chars, 0, a);
    out.append(ins);
    let tail = string_of(&chars, b, n);
    out.append(tail.as_str());
    assert(text@.take(a as int) =~= text@.subrange(0, a as int));
    assert(text@.skip(b as int) =~= text@.subrange(b as int, n as int));
    out
}

/// The line and column that a caret after the first `ci` characters stands at,
/// both counted from one: a line feed ends a line.
pub open spec fn line_col(s: Seq<char>, ci: int) -> (int, int)
    decreases ci,
{
    if ci <= 0 || s.len() == 0 {
        (1, 1)
    } else if ci > s.len() {
        line_col(s, s.len() as int)
    } else {
        let before = line_col(s, ci - 1);
        if s[ci - 1] == '\n' {
            (before.0 + 1, 1)
        } else {
            (before.0, before.1 + 1)
        }
    }
}

/// A caret's line and column never exceed one more than the characters before it.
pub proof fn lemma_line_col_bounds(s: Seq<char>, ci: int)
    requires
        0 <= ci,
    ensures
        1 <= line_col(s, ci).0 <= clamp(ci, s.len() as int) + 1,
        1 <= line_col(s, ci).1 <= clamp(ci, s.len() as int) + 1,
    decreases ci,
{
    if ci > s.len() {
        lemma_line_col_bounds(s, s.len() as int);
    } else if ci > 0 {
        lemma_line_col_bounds(s, ci - 1);
    }
}

/// Translate a caret's character index into a human-visible `(line, column)`
/// pair, both counted from one. The column resets on every line feed.
pub fn line_col_from_char_index(text: &str, char_index: usize) -> (r: (usize, usize))
    requires
        text@.len() < usize::MAX,
    ensures
        r.0 == line_col(text@, char_index as int).0,
        r.1 == line_col(text@, char_index as int).1,
{
    let chars = chars_of(text);
    let mut i: usize = 0;
    let mut line: usize = 1;
    let mut col: usize = 1;
    while i < char_index && i < chars.len()
        invariant
            chars@ == text@,
            text@.len() < usize::MAX,
            i <= char_index,
            i <= text@.len(),
            line == line_col(text@, i as int).0,
            col == line_col(text@, i as int).1,
        decreases text@.len() - i,
    {
        proof {
            lemma_line_col_bounds(text@, i as int);
        }
        if chars[i] == '\n' {
            line += 1;
            col = 1;
        } else {
            col += 1;
        }
        i += 1;
    }
    (line, col)
}

} // verus!

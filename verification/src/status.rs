//! The status bar.
use vstd::prelude::*;
use vstd::string::*;
use crate::lines;
use crate::lines::read_lines;
use crate::tab::EditorTab;
use crate::text;
use crate::text::{char_is_whitespace, chars_of, decimal_string};

verus! {

/// How many words there are among the first `n` characters: runs of characters that are
/// not white space.
pub open spec fn words_upto(s: Seq<char>, n: int) -> nat
    decreases n,
{
    if n <= 0 {
        0
    } else {
        words_upto(s, n - 1) + (if !text::is_white_space(s[n - 1]) && (n == 1
            || text::is_white_space(s[n - 2])) {
            1nat
        } else {
            0nat
        })
    }
}

proof fn lemma_words_bound(s: Seq<char>, n: int)
    requires
        0 <= n <= s.len(),
    ensures
        words_upto(s, n) <= n,
    decreases n,
{
    if n > 0 {
        lemma_words_bound(s, n - 1);
    }
}

/// A text without anything visible has no words; whitespace at its end adds none; and a stretch
/// without whitespace behind whitespace, or at the start, adds one, however long it is.
pub proof fn law_words_are_counted_once(s: Seq<char>, w: Seq<char>, c: char)
    requires
        s.len() == 0 || text::is_white_space(s.last()),
        w.len() > 0,
        forall|i: int| 0 <= i < w.len() ==> !text::is_white_space(#[trigger] w[i]),
        text::is_white_space(c),
    ensures
        words_upto(s + w, (s + w).len() as int) == words_upto(s, s.len() as int) + 1,
        words_upto(s.push(c), s.len() as int + 1) == words_upto(s, s.len() as int),
        words_upto((s + w).push(c), (s + w).len() as int + 1) == words_upto(s, s.len() as int) + 1,
        words_upto(Seq::empty(), 0) == 0,
{
    let t = s + w;
    lemma_words_prefix(s, s.push(c), s.len() as int);
    lemma_words_prefix(s, t, s.len() as int);
    lemma_words_prefix(t, t.push(c), t.len() as int);
    lemma_words_inside(t, s.len() as int, t.len() as int);
}

/// Words are counted by the characters as far as they were looked at.
proof fn lemma_words_prefix(s: Seq<char>, t: Seq<char>, n: int)
    requires
        0 <= n <= s.len() <= t.len(),
        forall|i: int| 0 <= i < s.len() ==> #[trigger] t[i] == s[i],
    ensures
        words_upto(t, n) == words_upto(s, n),
    decreases n,
{
    if n > 0 {
        lemma_words_prefix(s, t, n - 1);
        assert(t[n - 1] == s[n - 1]);
        if n > 1 {
            assert(t[n - 2] == s[n - 2]);
        }
    }
}

/// A stretch without whitespace behind whitespace is one word.
proof fn lemma_words_inside(t: Seq<char>, a: int, n: int)
    requires
        0 <= a < n <= t.len(),
        a == 0 || text::is_white_space(t[a - 1]),
        forall|i: int| a <= i < n ==> !text::is_white_space(#[trigger] t[i]),
    ensures
        words_upto(t, n) == words_upto(t, a) + 1,
    decreases n - a,
{
    assert(!text::is_white_space(t[n - 1]));
    if n > a + 1 {
        lemma_words_inside(t, a, n - 1);
        assert(!text::is_white_space(t[n - 2]));
    }
}

/// How many words a text has.
pub fn word_count(s: &str) -> (n: usize)
    ensures
        n == words_upto(s@, s@.len() as int),
{
    let chars = chars_of(s);
    let len: usize = chars.len();
    let mut n: usize = 0;
    let mut blank: bool = true;
    let mut i: usize = 0;
    while i < len
        invariant
            len == chars@.len(),
            chars@ == s@,
            i <= len,
            n == words_upto(s@, i as int),
            blank == (i == 0 || text::is_white_space(s@[i - 1])),
        decreases len - i,
    {
        let white: bool = char_is_whitespace(chars[i]);
        proof {
            lemma_words_bound(s@, i as int);
            lemma_words_bound(s@, i + 1);
        }
        if !white && blank {
            n += 1;
        }
        blank = white;
        i += 1;
    }
    n
}

/// How many lines a text has, as a reader counts them; an empty one has one.
pub open spec fn shown_lines(s: Seq<char>) -> nat {
    if lines::text_lines(s).len() == 0 {
        1
    } else {
        lines::text_lines(s).len()
    }
}

/// A line feed at the end of a text opens no line that is counted; any other character behind
/// it does. An empty text has one line.
pub proof fn law_lines_are_counted_as_read(s: Seq<char>, c: char)
    requires
        c != '\n',
    ensures
        shown_lines(Seq::empty()) == 1,
        shown_lines(s) == (if s.len() > 0 && s.last() == '\n' {
            lines::split(s).len() - 1
        } else {
            lines::split(s).len() as int
        }),
        s.len() > 0 && s.last() != '\n' ==> shown_lines(s.push('\n')) == shown_lines(s),
        s.len() > 0 && s.last() == '\n' ==> shown_lines(s.push(c)) == shown_lines(s) + 1,
        s.len() > 0 && s.last() != '\n' ==> shown_lines(s.push(c)) == shown_lines(s),
{
    lines::lemma_split_lines(s);
    lines::lemma_split_lines(s.push(c));
    lines::lemma_split_lines(s.push('\n'));
    assert(s.push(c).drop_last() =~= s);
    assert(s.push('\n').drop_last() =~= s);
}

/// How many lines a text has, as a reader counts them; an empty one has one.
pub fn line_count(s: &str) -> (n: usize)
    ensures
        n == shown_lines(s@),
{
    let (v, _newline) = read_lines(s);
    assert(lines::views(v@).len() == v@.len());
    if v.len() == 0 {
        1
    } else {
        v.len()
    }
}

/// The counters of a tab: lines, words and characters. The words and characters of a
/// buffer that is browsed only are not counted.
pub fn counts_text(t: &EditorTab) -> (s: String)
    ensures
        s@ == text::decimal(shown_lines(t@.text)) + " ln · "@ + text::decimal(
            if t@.doc.read_only_large {
                0
            } else {
                words_upto(t@.text, t@.text.len() as int)
            },
        ) + " w · "@ + text::decimal(
            if t@.doc.read_only_large {
                0
            } else {
                t@.text.len()
            },
        ) + " ch"@,
{
    let (words, chars): (usize, usize) = if t.doc.read_only_large {
        (0, 0)
    } else {
        (word_count(t.text.as_str()), chars_of(t.text.as_str()).len())
    };
    let a = decimal_string(line_count(t.text.as_str()));
    let b = decimal_string(words);
    let c = decimal_string(chars);
    let mut s = a;
    s.append(" ln · ");
    s.append(b.as_str());
    s.append(" w · ");
    s.append(c.as_str());
    s.append(" ch");
    s
}

/// The place of the caret, as it was last seen.
pub fn caret_text(line: usize, column: usize) -> (s: String)
    ensures
        s@ == "Ln "@ + text::decimal(line as nat) + ", Col "@ + text::decimal(column as nat),
{
    let a = decimal_string(line);
    let b = decimal_string(column);
    let mut s = "Ln ".to_string();
    s.append(a.as_str());
    s.append(", Col ");
    s.append(b.as_str());
    s
}

/// How many characters lie between the two ends of a selection.
pub fn selected_chars(primary: usize, secondary: usize) -> (n: usize)
    ensures
        n == (if primary < secondary {
            secondary - primary
        } else {
            primary - secondary
        }),
{
    if primary < secondary {
        secondary - primary
    } else {
        primary - secondary
    }
}

/// The length of the selection, where there is one.
pub fn selection_text(chars: usize) -> (r: Option<String>)
    ensures
        match r {
            Some(s) => chars > 0 && s@ == "("@ + text::decimal(chars as nat) + (if chars == 1 {
                " char sel)"@
            } else {
                " chars sel)"@
            }),
            None => chars == 0,
        },
{
    if chars == 0 {
        return None;
    }
    let n = decimal_string(chars);
    let mut s = "(".to_string();
    s.append(n.as_str());
    if chars == 1 {
        s.append(" char sel)");
    } else {
        s.append(" chars sel)");
    }
    Some(s)
}

/// What the spellchecker found. `check_mark` is drawn when it found nothing.
pub fn spell_text(misspellings: usize, check_mark: &str) -> (s: String)
    ensures
        s@ == (if misspellings == 0 {
            "spell "@ + check_mark@
        } else {
            "spell: "@ + text::decimal(misspellings as nat)
        }),
{
    if misspellings == 0 {
        let mut s = "spell ".to_string();
        s.append(check_mark);
        s
    } else {
        let n = decimal_string(misspellings);
        let mut s = "spell: ".to_string();
        s.append(n.as_str());
        s
    }
}

/// How many of the first `n` severities are errors.
pub open spec fn errors_upto(severities: Seq<u8>, n: int) -> nat
    decreases n,
{
    if n <= 0 {
        0
    } else {
        errors_upto(severities, n - 1) + (if severities[n - 1] == 1 {
            1nat
        } else {
            0nat
        })
    }
}

/// A diagnostic of the first severity is an error, and no other is.
pub proof fn law_errors_are_counted(severities: Seq<u8>, x: u8)
    ensures
        errors_upto(severities.push(x), severities.len() as int + 1) == errors_upto(
            severities,
            severities.len() as int,
        ) + (if x == 1 {
            1int
        } else {
            0int
        }),
        errors_upto(Seq::empty(), 0) == 0,
{
    lemma_errors_prefix(severities, x, severities.len() as int);
}

proof fn lemma_errors_prefix(severities: Seq<u8>, x: u8, n: int)
    requires
        0 <= n <= severities.len(),
    ensures
        errors_upto(severities.push(x), n) == errors_upto(severities, n),
    decreases n,
{
    if n > 0 {
        lemma_errors_prefix(severities, x, n - 1);
    }
}

/// How many of the language server's diagnostics are errors.
pub fn error_count(severities: &Vec<u8>) -> (n: usize)
    ensures
        n == errors_upto(severities@, severities@.len() as int),
        n <= severities@.len(),
{
    let len: usize = severities.len();
    let mut n: usize = 0;
    let mut i: usize = 0;
    while i < len
        invariant
            len == severities@.len(),
            n <= i <= len,
            n == errors_upto(severities@, i as int),
        decreases len - i,
    {
        if severities[i] == 1 {
            n += 1;
        }
        i += 1;
    }
    n
}

/// The diagnostics of the language server, where there are any. `sign` stands before
/// them.
pub fn diagnostics_text(sign: &str, errors: usize, total: usize) -> (r: Option<String>)
    ensures
        match r {
            Some(s) => total > 0 && s@ == sign@ + " "@ + text::decimal(errors as nat) + "e / "@
                + text::decimal(total as nat),
            None => total == 0,
        },
{
    if total == 0 {
        return None;
    }
    let a = decimal_string(errors);
    let b = decimal_string(total);
    let mut s = sign.to_string();
    s.append(" ");
    s.append(a.as_str());
    s.append("e / ");
    s.append(b.as_str());
    Some(s)
}

/// The language that the status bar shows: "text" where none is known.
pub fn language_text(language: Option<&str>) -> (s: String)
    ensures
        s@ == (match language {
            Some(l) => l@,
            None => "text"@,
        }),
{
    match language {
        Some(l) => l.to_string(),
        None => "text".to_string(),
    }
}

/// How many digits a number has.
pub open spec fn digits(n: nat) -> nat {
    text::decimal(n).len()
}

/// How many digits wide the line-number gutter is: as wide as the last number, and two at
/// least.
pub fn gutter_digits(lines: usize) -> (d: usize)
    ensures
        d == (if digits(lines as nat) < 2 {
            2
        } else {
            digits(lines as nat)
        }),
{
    let s = decimal_string(lines);
    let n: usize = chars_of(s.as_str()).len();
    if n < 2 {
        2
    } else {
        n
    }
}

} // verus!

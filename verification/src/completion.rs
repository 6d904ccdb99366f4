//! The completion list at the caret.
use vstd::prelude::*;
use vstd::string::*;
use crate::tab::EditorTab;
use crate::text;
use crate::text::{byte_to_char_index, char_to_byte, is_boundary, splice_chars};

verus! {

/// The words that could stand in place of the one being typed.
pub struct Completion {
    /// Where the typed part starts, in UTF-8 bytes.
    pub prefix_start: usize,
    /// The words.
    pub items: Vec<String>,
    /// The selected one.
    pub selected: usize,
}

/// Open the list at the caret: the words found for the part before it, if there are any,
/// with the first selected. Without a caret there is none.
pub fn open_completion(at_caret: Option<(usize, Vec<String>)>) -> (c: Option<Completion>)
    ensures
        match at_caret {
            Some((start, items)) => if items@.len() > 0 {
                c == Some(Completion { prefix_start: start, items, selected: 0 })
            } else {
                c is None
            },
            None => c is None,
        },
{
    match at_caret {
        Some((start, items)) => if items.len() > 0 {
            Some(Completion { prefix_start: start, items, selected: 0 })
        } else {
            None
        },
        None => None,
    }
}

/// The keys that the list takes before the editor sees them.
#[derive(Clone, Copy)]
pub struct ListKeys {
    /// Arrow down.
    pub down: bool,
    /// Arrow up.
    pub up: bool,
    /// Enter or Tab.
    pub accept: bool,
    /// Escape.
    pub escape: bool,
}

/// The selected row after the arrow keys: down first, then up, and never off the list.
pub open spec fn moved_row(selected: int, len: int, down: bool, up: bool) -> int {
    let a = if !down {
        selected
    } else if selected + 1 < len {
        selected + 1
    } else if len == 0 {
        0
    } else {
        len - 1
    };
    if !up {
        a
    } else if a == 0 {
        0
    } else {
        a - 1
    }
}

/// Take the keys while the list is open. Gives whether the selected word is accepted.
pub fn take_list_keys(list: &mut Option<Completion>, k: ListKeys) -> (accept: bool)
    ensures
        match *old(list) {
            None => *final(list) is None && !accept,
            Some(c) => accept == k.accept && (if k.escape {
                *final(list) is None
            } else {
                match *final(list) {
                    Some(d) => d.prefix_start == c.prefix_start && d.items == c.items && d.selected
                        == moved_row(c.selected as int, c.items@.len() as int, k.down, k.up),
                    None => false,
                }
            }),
        },
{
    match list.take() {
        None => false,
        Some(c) => {
            let n: usize = c.items.len();
            let mut row: usize = c.selected;
            if k.down {
                row = if n == 0 {
                    0
                } else if row < n - 1 {
                    row + 1
                } else {
                    n - 1
                };
            }
            if k.up && row > 0 {
                row -= 1;
            }
            if !k.escape {
                *list =
                Some(Completion { prefix_start: c.prefix_start, items: c.items, selected: row });
            }
            k.accept
        },
    }
}

/// The selection stays in the list.
pub proof fn law_selection_stays_in_list(selected: int, len: int, down: bool, up: bool)
    requires
        0 <= selected < len,
    ensures
        0 <= moved_row(selected, len, down, up) < len,
{
}

/// The arrow keys move the selection by one row, and stop at the ends of the list; both at once
/// leave it.
pub proof fn law_arrows_move_by_one(selected: int, len: int)
    requires
        0 <= selected < len,
    ensures
        moved_row(selected, len, false, false) == selected,
        selected + 1 < len ==> moved_row(selected, len, true, false) == selected + 1,
        moved_row(len - 1, len, true, false) == len - 1,
        selected > 0 ==> moved_row(selected, len, false, true) == selected - 1,
        moved_row(0, len, false, true) == 0,
        selected + 1 < len ==> moved_row(selected, len, true, true) == selected,
{
}

/// A text after a word was put in place of what was typed before the caret. A start that
/// lies behind the caret or inside a character is stale, and the text stays as it is.
pub open spec fn completed(s: Seq<char>, prefix_start: int, caret: int, word: Seq<char>) -> Seq<
    char,
> {
    let byte = text::byte_offset(s, caret) as int;
    if prefix_start <= byte && text::on_boundary(s, prefix_start) {
        text::splice(
            s,
            text::char_index(s, prefix_start),
            text::clamp(caret, s.len() as int),
            word,
        )
    } else {
        s
    }
}

/// Put the selected word in place of what was typed before the caret. Without a caret, or
/// without a selected word, nothing changes.
pub fn accept_completion(t: &mut EditorTab, c: Completion, caret: Option<usize>)
    ensures
        final(t)@ == (match caret {
            Some(ci) => if c.selected < c.items@.len() {
                old(t)@.edited(
                    completed(
                        old(t)@.text,
                        c.prefix_start as int,
                        ci as int,
                        c.items@[c.selected as int]@,
                    ),
                )
            } else {
                old(t)@
            },
            None => old(t)@,
        }),
{
    let ci: usize = match caret {
        Some(ci) => ci,
        None => {
            return ;
        },
    };
    if c.selected >= c.items.len() {
        return ;
    }
    let byte: usize = char_to_byte(t.text.as_str(), ci);
    if c.prefix_start <= byte && is_boundary(t.text.as_str(), c.prefix_start) {
        let lo: usize = byte_to_char_index(t.text.as_str(), c.prefix_start);
        proof {
            let s = t.text@;
            let hi = text::clamp(ci as int, s.len() as int);
            if lo > hi {
                text::lemma_byte_offset_increases(s, hi, lo as int);
            }
        }
        let new = splice_chars(t.text.as_str(), lo, ci, c.items[c.selected].as_str());
        t.edit(new);
    } else {
        let same = t.text.clone();
        t.edit(same);
    }
}

/// Accepting a word leaves what stands before the typed part and behind the caret.
pub proof fn law_completion_replaces_only_the_prefix(
    s: Seq<char>,
    start: int,
    caret: int,
    word: Seq<char>,
)
    requires
        0 <= start <= caret <= s.len(),
    ensures
        completed(s, text::byte_offset(s, start) as int, caret, word) == s.take(start) + word
            + s.skip(caret),
{
    text::lemma_char_index_of_offset(s, start);
    text::lemma_byte_offset_increases(s, start, caret);
}

/// A list that was made for another place leaves the text: its start lies behind the caret, or
/// inside a character.
pub proof fn law_stale_completion_changes_nothing(
    s: Seq<char>,
    prefix_start: int,
    caret: int,
    word: Seq<char>,
)
    requires
        0 <= caret <= s.len(),
        0 <= prefix_start,
        prefix_start > text::byte_offset(s, caret) || forall|k: int|
            0 <= k <= s.len() ==> #[trigger] text::byte_offset(s, k) != prefix_start,
    ensures
        completed(s, prefix_start, caret, word) == s,
{
    text::lemma_char_index_bounds(s, prefix_start);
}

/// Whether Ctrl+Space asks for completion: not while a modal owns the keyboard.
pub fn wants_completion(modal_owns_keys: bool, chord: bool) -> (b: bool)
    ensures
        b == (!modal_owns_keys && chord),
{
    !modal_owns_keys && chord
}

/// Close the list where a modal owns the keyboard.
pub fn yield_to_modal(list: &mut Option<Completion>, modal_owns_keys: bool)
    ensures
        *final(list) == (if modal_owns_keys {
            None
        } else {
            *old(list)
        }),
{
    if modal_owns_keys {
        *list = None;
    }
}

} // verus!

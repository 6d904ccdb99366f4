//! Several carets: which of a frame's events are carried out at each of them.
use vstd::prelude::*;
use vstd::string::*;
use crate::tabs;

verus! {

/// The keys that edit.
#[derive(Clone, Copy, Debug, PartialEq, Eq, Structural)]
pub enum EditKey {
    Backspace,
    Delete,
    Enter,
}

/// An event of a frame, as far as several carets care.
pub enum InputEvent {
    /// Typed text.
    Text(String),
    /// A key that edits.
    Key {
        key: EditKey,
        /// Whether it went down (not up).
        pressed: bool,
        /// Whether any modifier is held.
        modified: bool,
    },
    /// Anything else.
    Other,
}

/// An edit at every caret.
pub enum EditOp {
    /// Insert a text.
    Insert(String),
    /// Delete the character before the caret.
    Backspace,
    /// Delete the character behind the caret.
    Delete,
}

/// What an [`EditOp`] says.
pub enum OpModel {
    Insert(Seq<char>),
    Backspace,
    Delete,
}

impl View for EditOp {
    type V = OpModel;

    open spec fn view(&self) -> OpModel {
        match *self {
            EditOp::Insert(s) => OpModel::Insert(s@),
            EditOp::Backspace => OpModel::Backspace,
            EditOp::Delete => OpModel::Delete,
        }
    }
}

/// The edit that an event is at every caret, if it is one: typed text and the bare keys.
/// Keys with a modifier are left to the caret of the editor.
pub open spec fn op_of(e: InputEvent) -> Option<OpModel> {
    match e {
        InputEvent::Text(t) => if t@.len() > 0 {
            Some(OpModel::Insert(t@))
        } else {
            None
        },
        InputEvent::Key { key, pressed, modified } => if !pressed || modified {
            None
        } else {
            match key {
                EditKey::Backspace => Some(OpModel::Backspace),
                EditKey::Delete => Some(OpModel::Delete),
                EditKey::Enter => Some(OpModel::Insert(seq!['\n'])),
            }
        },
        InputEvent::Other => None,
    }
}

/// The edits among the first `n` events, in order.
pub open spec fn ops_upto(events: Seq<InputEvent>, n: int) -> Seq<OpModel>
    decreases n,
{
    if n <= 0 {
        Seq::empty()
    } else {
        match op_of(events[n - 1]) {
            Some(op) => ops_upto(events, n - 1).push(op),
            None => ops_upto(events, n - 1),
        }
    }
}

/// The places of the events among the first `n` that are left to the editor.
pub open spec fn left_upto(events: Seq<InputEvent>, n: int) -> Seq<usize>
    decreases n,
{
    if n <= 0 {
        Seq::empty()
    } else if op_of(events[n - 1]) is Some {
        left_upto(events, n - 1)
    } else {
        left_upto(events, n - 1).push((n - 1) as usize)
    }
}

/// What a sequence of edits says.
pub open spec fn op_views(v: Seq<EditOp>) -> Seq<OpModel> {
    Seq::new(v.len(), |i: int| v[i]@)
}

fn op_for(e: &InputEvent) -> (r: Option<EditOp>)
    ensures
        match r {
            Some(op) => op_of(*e) == Some(op@),
            None => op_of(*e) is None,
        },
{
    match e {
        InputEvent::Text(t) => if !t.as_str().is_empty() {
            Some(EditOp::Insert(t.clone()))
        } else {
            None
        },
        InputEvent::Key { key, pressed, modified } => if !*pressed || *modified {
            None
        } else {
            match key {
                EditKey::Backspace => Some(EditOp::Backspace),
                EditKey::Delete => Some(EditOp::Delete),
                EditKey::Enter => {
                    let s = "\n".to_string();
                    proof {
                        reveal_strlit("\n");
                        assert(s@ =~= seq!['\n']);
                    }
                    Some(EditOp::Insert(s))
                },
            }
        },
        InputEvent::Other => None,
    }
}

/// Take the edits out of a frame's events. Gives them in order, and the places of the
/// events that are left to the editor.
pub fn mc_collect_edit_ops(events: &Vec<InputEvent>) -> (r: (Vec<EditOp>, Vec<usize>))
    ensures
        op_views(r.0@) == ops_upto(events@, events@.len() as int),
        r.1@ == left_upto(events@, events@.len() as int),
{
    let n: usize = events.len();
    let mut ops: Vec<EditOp> = Vec::new();
    let mut left: Vec<usize> = Vec::new();
    let mut i: usize = 0;
    while i < n
        invariant
            n == events@.len(),
            i <= n,
            op_views(ops@) == ops_upto(events@, i as int),
            left@ == left_upto(events@, i as int),
        decreases n - i,
    {
        let ghost before = op_views(ops@);
        match op_for(&events[i]) {
            Some(op) => {
                let ghost what = op@;
                ops.push(op);
                assert(op_views(ops@) =~= before.push(what));
            },
            None => {
                left.push(i);
            },
        }
        i += 1;
    }
    (ops, left)
}

/// No event is carried out twice and none is lost: it is either an edit at every caret or
/// left to the editor.
pub proof fn law_each_event_goes_one_way(events: Seq<InputEvent>, n: int)
    requires
        0 <= n <= events.len() <= usize::MAX,
    ensures
        ops_upto(events, n).len() + left_upto(events, n).len() == n,
        forall|i: int|
            0 <= i < left_upto(events, n).len() ==> {
                let at = #[trigger] left_upto(events, n)[i];
                at < n && op_of(events[at as int]) is None
            },
    decreases n,
{
    if n > 0 {
        law_each_event_goes_one_way(events, n - 1);
    }
}

/// Typed text is inserted as it was typed, Enter inserts a line feed, Backspace and Delete delete
/// on their side. A key with a modifier, one that goes up, and anything else is no edit.
pub proof fn law_what_is_an_edit(e: InputEvent)
    ensures
        match e {
            InputEvent::Text(t) => (t@.len() > 0 ==> op_of(e) == Some(OpModel::Insert(t@))) && (
            t@.len() == 0 ==> op_of(e) is None),
            InputEvent::Key { key, pressed, modified } => {
                &&& modified || !pressed ==> op_of(e) is None
                &&& pressed && !modified ==> {
                    &&& key is Backspace ==> op_of(e) == Some(OpModel::Backspace)
                    &&& key is Delete ==> op_of(e) == Some(OpModel::Delete)
                    &&& key is Enter ==> op_of(e) == Some(OpModel::Insert(seq!['\n']))
                }
            },
            InputEvent::Other => op_of(e) is None,
        },
{
}

/// The edits, and the events that are left, come in the order of the frame.
pub proof fn law_edits_keep_their_order(events: Seq<InputEvent>, n: int)
    requires
        0 <= n <= events.len() <= usize::MAX,
    ensures
        ({
            let edits = |i: int| op_of(events[i]) is Some;
            let rest = |i: int| op_of(events[i]) is None;
            &&& ops_upto(events, n).len() == tabs::tally(edits, n)
            &&& left_upto(events, n).len() == tabs::tally(rest, n)
            &&& forall|i: int|
                0 <= i < n && op_of(#[trigger] events[i]) is Some ==> 0 <= tabs::tally(edits, i)
                    < ops_upto(events, n).len() && ops_upto(events, n)[tabs::tally(edits, i)]
                    == op_of(events[i])->0
            &&& forall|i: int|
                0 <= i < n && op_of(#[trigger] events[i]) is None ==> 0 <= tabs::tally(rest, i)
                    < left_upto(events, n).len() && left_upto(events, n)[tabs::tally(rest, i)] == i
        }),
    decreases n,
{
    if n > 0 {
        law_edits_keep_their_order(events, n - 1);
    }
}

/// What the keys of a frame mean for the carets.
#[derive(Clone, Copy, Debug, PartialEq, Eq, Structural)]
pub enum CaretStep {
    /// Nothing.
    Nothing,
    /// Back to one caret.
    Collapse,
    /// Select the word at the caret, or add a caret at its next occurrence.
    SelectNext,
    /// Carry out the edits at every caret.
    Replay,
}

/// What the keys of a frame mean for the carets. Escape counts only while there are
/// several, so that it can close other things otherwise; edits are carried out here only
/// while there are several.
pub fn caret_step(several: bool, escape: bool, select_next: bool, edits: usize) -> (s: CaretStep)
    ensures
        s == (if several && escape {
            CaretStep::Collapse
        } else if select_next {
            CaretStep::SelectNext
        } else if several && edits > 0 {
            CaretStep::Replay
        } else {
            CaretStep::Nothing
        }),
{
    if several && escape {
        CaretStep::Collapse
    } else if select_next {
        CaretStep::SelectNext
    } else if several && edits > 0 {
        CaretStep::Replay
    } else {
        CaretStep::Nothing
    }
}

} // verus!

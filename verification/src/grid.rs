//! The grid: the open notes side by side.
use vstd::prelude::*;
use vstd::string::*;
use crate::tab;
use crate::tab::EditorTab;
use crate::tabs;
use crate::tabs::TabSet;
use crate::text;
use crate::text::decimal_string;

verus! {

/// How many notes the grid shows at most.
pub const MAX_PANES: usize = 6;

/// The identities of the tabs.
pub open spec fn ids(tabs: Seq<tab::TabModel>) -> Seq<u64> {
    Seq::new(tabs.len(), |i: int| tabs[i].doc_id)
}

/// The identity of a tab after one was handed out to it: its own, or the next free one.
pub open spec fn id_after(id: u64, next: int) -> int {
    if id == 0 {
        next
    } else {
        id as int
    }
}

/// The next free identity after the first `n` tabs were looked at: beyond every identity
/// that was seen or handed out.
pub open spec fn next_upto(ids: Seq<u64>, next: int, n: int) -> int
    decreases n,
{
    if n <= 0 {
        next
    } else {
        let free = next_upto(ids, next, n - 1);
        let id = id_after(ids[n - 1], free);
        if id >= free {
            id + 1
        } else {
            free
        }
    }
}

/// The tabs with an identity each.
pub open spec fn identified(tabs: Seq<tab::TabModel>, next: int) -> Seq<tab::TabModel> {
    Seq::new(
        tabs.len(),
        |i: int|
            tab::TabModel {
                doc_id: id_after(tabs[i].doc_id, next_upto(ids(tabs), next, i)) as u64,
                ..tabs[i]
            },
    )
}

proof fn lemma_next_bound(ids: Seq<u64>, next: int, n: int, bound: int)
    requires
        0 <= n <= ids.len(),
        1 <= next <= bound,
        forall|i: int| 0 <= i < ids.len() ==> #[trigger] ids[i] < bound,
    ensures
        next <= next_upto(ids, next, n) <= bound + n,
    decreases n,
{
    if n > 0 {
        lemma_next_bound(ids, next, n - 1, bound);
        assert(ids[n - 1] < bound);
    }
}

/// Hand out an identity to every tab that has none. `next` is the next free one.
pub fn assign_doc_ids(open: &mut TabSet, next: &mut u64)
    requires
        old(open).wf(),
        *old(next) >= 1,
        *old(next) + old(open)@.tabs.len() <= u64::MAX,
        forall|i: int|
            0 <= i < old(open)@.tabs.len() ==> (#[trigger] old(open)@.tabs[i]).doc_id
                + old(open)@.tabs.len() < u64::MAX,
    ensures
        final(open).wf(),
        final(open)@ == (tabs::TabsModel {
            tabs: identified(old(open)@.tabs, *old(next) as int),
            ..old(open)@
        }),
        *final(next) == next_upto(
            ids(old(open)@.tabs),
            *old(next) as int,
            old(open)@.tabs.len() as int,
        ),
{
    let ghost before = open@;
    let ghost first = *next as int;
    let ghost all = ids(before.tabs);
    let n: usize = open.tabs.len();
    let ghost bound = u64::MAX - n;
    assert(forall|i: int| 0 <= i < all.len() ==> #[trigger] all[i] == before.tabs[i].doc_id);
    let mut i: usize = 0;
    while i < n
        invariant
            n == open.tabs@.len(),
            n == before.tabs.len(),
            all == ids(before.tabs),
            i <= n,
            1 <= first <= bound,
            bound == u64::MAX - n,
            forall|k: int| 0 <= k < all.len() ==> #[trigger] all[k] < bound,
            *next == next_upto(all, first, i as int),
            open@.active == before.active,
            open@.closed == before.closed,
            forall|k: int|
                0 <= k < n ==> #[trigger] tabs::models(open.tabs@)[k] == (if k < i {
                    identified(before.tabs, first)[k]
                } else {
                    before.tabs[k]
                }),
        decreases n - i,
    {
        proof {
            lemma_next_bound(all, first, i as int, bound);
            lemma_next_bound(all, first, i + 1, bound);
            assert(tabs::models(open.tabs@)[i as int] == before.tabs[i as int]);
            assert(all[i as int] == before.tabs[i as int].doc_id);
        }
        let ghost shown = tabs::models(open.tabs@);
        let id: u64 = if open.tabs[i].doc_id == 0 {
            *next
        } else {
            open.tabs[i].doc_id
        };
        open.tabs[i].doc_id = id;
        if id >= *next {
            *next = id + 1;
        }
        proof {
            assert(tabs::models(open.tabs@) =~= shown.update(
                i as int,
                identified(before.tabs, first)[i as int],
            ));
        }
        i += 1;
    }
    assert(tabs::models(open.tabs@) =~= identified(before.tabs, first));
}

proof fn lemma_next_above(ids: Seq<u64>, next: int, n: int, k: int)
    requires
        0 <= k < n <= ids.len(),
    ensures
        id_after(ids[k], next_upto(ids, next, k)) < next_upto(ids, next, n),
        next_upto(ids, next, k) <= next_upto(ids, next, n),
    decreases n,
{
    if k < n - 1 {
        lemma_next_above(ids, next, n - 1, k);
    }
}

proof fn lemma_next_grows(ids: Seq<u64>, next: int, n: int)
    requires
        0 <= n <= ids.len(),
    ensures
        next <= next_upto(ids, next, n),
    decreases n,
{
    if n > 0 {
        lemma_next_grows(ids, next, n - 1);
    }
}

/// After identities were handed out every tab has one, no two tabs share one, and a tab
/// that had one keeps it; as long as no two tabs shared one before and the next free one
/// was beyond them all. The new next free one is beyond them all again.
pub proof fn law_doc_ids_are_unique(tabs: Seq<tab::TabModel>, next: int)
    requires
        1 <= next,
        next + tabs.len() <= u64::MAX,
        forall|i: int| 0 <= i < tabs.len() ==> (#[trigger] tabs[i]).doc_id < next,
        forall|i: int, j: int|
            0 <= i < j < tabs.len() && (#[trigger] tabs[i]).doc_id == (#[trigger] tabs[j]).doc_id
                ==> tabs[i].doc_id == 0,
    ensures
        ({
            let after = identified(tabs, next);
            let free = next_upto(ids(tabs), next, tabs.len() as int);
            &&& forall|i: int| 0 <= i < tabs.len() ==> 0 < (#[trigger] after[i]).doc_id < free
            &&& forall|i: int|
                0 <= i < tabs.len() && (#[trigger] tabs[i]).doc_id != 0 ==> after[i] == tabs[i]
            &&& forall|i: int, j: int|
                0 <= i < j < tabs.len() ==> (#[trigger] after[i]).doc_id != (
                #[trigger] after[j]).doc_id
            &&& free <= next + tabs.len()
        }),
{
    let all = ids(tabs);
    let n = tabs.len() as int;
    let after = identified(tabs, next);
    assert(forall|i: int| 0 <= i < n ==> #[trigger] all[i] == tabs[i].doc_id);
    lemma_next_bound(all, next, n, next);
    assert forall|i: int| 0 <= i < n implies 0 < (#[trigger] after[i]).doc_id < next_upto(
        all,
        next,
        n,
    ) by {
        lemma_next_above(all, next, n, i);
        lemma_next_grows(all, next, i);
        lemma_next_bound(all, next, i, next);
        assert(tabs[i].doc_id < next);
    }
    assert forall|i: int, j: int| 0 <= i < j < n implies (#[trigger] after[i]).doc_id != (
    #[trigger] after[j]).doc_id by {
        lemma_next_above(all, next, j, i);
        lemma_next_grows(all, next, i);
        lemma_next_grows(all, next, j);
        lemma_next_bound(all, next, i, next);
        lemma_next_bound(all, next, j, next);
        assert(tabs[i].doc_id < next);
        assert(tabs[j].doc_id < next);
    }
}

/// The notes that the grid shows: the first ones, as many as fit.
pub open spec fn gridded(tabs: Seq<tab::TabModel>) -> Seq<u64> {
    ids(tabs).take(if tabs.len() < MAX_PANES {
        tabs.len() as int
    } else {
        MAX_PANES as int
    })
}

/// The grid shows the first six notes, from the left, or all where there are no more.
pub proof fn law_grid_shows_the_first_notes(tabs: Seq<tab::TabModel>, i: int)
    ensures
        gridded(tabs).len() == (if tabs.len() <= 6 {
            tabs.len()
        } else {
            6
        }),
        0 <= i < tabs.len() && i < 6 ==> gridded(tabs)[i] == tabs[i].doc_id,
{
}

/// Handing out identities changes nothing else of a tab.
pub proof fn law_identities_change_nothing_else(tabs: Seq<tab::TabModel>, next: int, i: int)
    requires
        0 <= i < tabs.len(),
    ensures
        identified(tabs, next).len() == tabs.len(),
        identified(tabs, next)[i] == (tab::TabModel {
            doc_id: identified(tabs, next)[i].doc_id,
            ..tabs[i]
        }),
{
}

/// The notes that the grid shows.
pub fn grid_docs(open: &TabSet) -> (v: Vec<u64>)
    ensures
        v@ == gridded(open@.tabs),
        v@.len() <= MAX_PANES,
{
    let n: usize = open.tabs.len();
    let m: usize = if n < MAX_PANES {
        n
    } else {
        MAX_PANES
    };
    let ghost all = ids(open@.tabs);
    let mut v: Vec<u64> = Vec::new();
    let mut i: usize = 0;
    while i < m
        invariant
            i <= m <= open.tabs@.len(),
            all == ids(open@.tabs),
            v@ == all.take(i as int),
        decreases m - i,
    {
        assert(open@.tabs[i as int] == open.tabs@[i as int]@);
        v.push(open.tabs[i].doc_id);
        assert(all.take(i + 1) =~= all.take(i as int).push(all[i as int]));
        i += 1;
    }
    v
}

/// What becomes of the grid's layout at the start of a frame.
#[derive(Clone, Copy, Debug, PartialEq, Eq, Structural)]
pub enum GridStep {
    /// The layout stays as it is, or there is none.
    Keep,
    /// Show the layout that was saved.
    Restore,
    /// Lay the notes out anew.
    Build,
    /// Take the layout away.
    Drop,
}

fn contains_id(v: &Vec<u64>, x: u64) -> (b: bool)
    ensures
        b == v@.contains(x),
{
    let mut i: usize = 0;
    while i < v.len()
        invariant
            i <= v@.len(),
            forall|k: int| 0 <= k < i ==> #[trigger] v@[k] != x,
        decreases v@.len() - i,
    {
        if v[i] == x {
            assert(v@[i as int] == x);
            return true;
        }
        i += 1;
    }
    false
}

fn all_in(a: &Vec<u64>, b: &Vec<u64>) -> (r: bool)
    ensures
        r == (forall|x: u64| a@.contains(x) ==> b@.contains(x)),
{
    let mut i: usize = 0;
    while i < a.len()
        invariant
            i <= a@.len(),
            forall|k: int| 0 <= k < i ==> b@.contains(#[trigger] a@[k]),
        decreases a@.len() - i,
    {
        if !contains_id(b, a[i]) {
            assert(a@.contains(a@[i as int]));
            return false;
        }
        i += 1;
    }
    true
}

/// Whether a layout shows exactly these notes, in whatever arrangement.
pub fn shows_exactly(panes: &Vec<u64>, docs: &Vec<u64>) -> (b: bool)
    ensures
        b == (panes@.to_set() == docs@.to_set()),
{
    let b: bool = all_in(panes, docs) && all_in(docs, panes);
    proof {
        if b {
            assert(panes@.to_set() =~= docs@.to_set());
        } else if panes@.to_set() == docs@.to_set() {
            assert forall|x: u64| panes@.contains(x) <==> docs@.contains(x) by {
                assert(panes@.to_set().contains(x) <==> docs@.to_set().contains(x));
            }
        }
    }
    b
}

/// What becomes of the grid's layout when the setting and the layout are looked at: a
/// saved layout is shown only when it could be read and shows exactly the notes there
/// are now.
pub fn grid_step(enabled: bool, has_layout: bool, saved_panes: &Option<Vec<u64>>, docs: &Vec<u64>) -> (s:
    GridStep)
    ensures
        s == (if enabled && !has_layout {
            match saved_panes {
                Some(p) => if p@.to_set() == docs@.to_set() {
                    GridStep::Restore
                } else {
                    GridStep::Build
                },
                None => GridStep::Build,
            }
        } else if !enabled && has_layout {
            GridStep::Drop
        } else {
            GridStep::Keep
        }),
{
    if enabled && !has_layout {
        match saved_panes {
            Some(p) => if shows_exactly(p, docs) {
                GridStep::Restore
            } else {
                GridStep::Build
            },
            None => GridStep::Build,
        }
    } else if !enabled && has_layout {
        GridStep::Drop
    } else {
        GridStep::Keep
    }
}

/// Whether the layout has to be built anew after a frame: when it no longer shows
/// exactly the notes it should. Arranging panes never resets it.
pub fn needs_rebuild(panes: &Vec<u64>, docs: &Vec<u64>) -> (b: bool)
    ensures
        b == (panes@.to_set() != docs@.to_set()),
{
    !shows_exactly(panes, docs)
}

/// The notice when more notes are open than the grid shows.
pub fn overflow_notice(shown: usize, open: usize) -> (t: Option<String>)
    ensures
        match t {
            Some(s) => open > shown && s@ == "Grid shows the first "@ + text::decimal(
                shown as nat,
            ) + " notes; "@ + text::decimal((open - shown) as nat)
                + " more stay open as tabs. Close a pane to show another."@,
            None => open <= shown,
        },
{
    if open <= shown {
        return None;
    }
    let a = decimal_string(shown);
    let b = decimal_string(open - shown);
    let mut s = "Grid shows the first ".to_string();
    s.append(a.as_str());
    s.append(" notes; ");
    s.append(b.as_str());
    s.append(" more stay open as tabs. Close a pane to show another.");
    Some(s)
}

/// The tab of a pane, where it is still open.
pub fn pane_tab(open: &TabSet, id: u64) -> (r: Option<usize>)
    ensures
        match r {
            Some(i) => i < open@.tabs.len() && open@.tabs[i as int].doc_id == id && forall|k: int|
                0 <= k < i ==> (#[trigger] open@.tabs[k]).doc_id != id,
            None => forall|k: int| 0 <= k < open@.tabs.len() ==> (#[trigger] open@.tabs[k]).doc_id
                != id,
        },
{
    let mut i: usize = 0;
    while i < open.tabs.len()
        invariant
            i <= open.tabs@.len(),
            forall|k: int| 0 <= k < i ==> (#[trigger] open@.tabs[k]).doc_id != id,
        decreases open.tabs@.len() - i,
    {
        assert(open@.tabs[i as int] == open.tabs@[i as int]@);
        if open.tabs[i].doc_id == id {
            return Some(i);
        }
        i += 1;
    }
    None
}

/// Picks the tabs whose panes were not closed.
pub open spec fn keep_unlisted(tabs: Seq<tab::TabModel>, closed: Seq<u64>) -> spec_fn(int) -> bool {
    |i: int| !closed.contains(tabs[i].doc_id)
}

/// The tabs without those whose panes were closed.
pub open spec fn without_panes(m: tabs::TabsModel, closed: Seq<u64>) -> tabs::TabsModel {
    let left = tabs::or_scratch(tabs::survivors(m.tabs, keep_unlisted(m.tabs, closed), 0));
    tabs::TabsModel {
        tabs: left,
        active: tabs::last_at_most(m.active, left.len() as int),
        ..m
    }
}

/// Close the tabs whose panes were closed.
pub fn close_panes(open: &mut TabSet, closed: &Vec<u64>)
    requires
        old(open).wf(),
    ensures
        final(open).wf(),
        final(open)@ == without_panes(old(open)@, closed@),
{
    let ghost before = open@;
    let ghost kept = keep_unlisted(before.tabs, closed@);
    let mut i: usize = open.tabs.len();
    assert(before.tabs.take(i as int) + tabs::survivors(before.tabs, kept, i as int)
        =~= before.tabs);
    while i > 0
        invariant
            i <= before.tabs.len(),
            kept == keep_unlisted(before.tabs, closed@),
            tabs::models(open.tabs@) == before.tabs.take(i as int) + tabs::survivors(
                before.tabs,
                kept,
                i as int,
            ),
            open@.closed == before.closed,
            open.active == before.active,
        decreases i,
    {
        i -= 1;
        proof {
            tabs::lemma_survivors_skip(before.tabs, kept, i as int);
            assert(tabs::models(open.tabs@)[i as int] == before.tabs[i as int]);
            assert(kept(i as int) == !closed@.contains(before.tabs[i as int].doc_id));
        }
        if contains_id(closed, open.tabs[i].doc_id) {
            proof {
                tabs::lemma_models_remove(open.tabs@, i as int);
            }
            open.tabs.remove(i);
        }
    }
    assert(before.tabs.take(0) + tabs::survivors(before.tabs, kept, 0) =~= tabs::survivors(
        before.tabs,
        kept,
        0,
    ));
    if open.tabs.len() == 0 {
        open.tabs.push(EditorTab::scratch());
        assert(tabs::models(open.tabs@) =~= seq![tab::scratch_tab()]);
    }
    let n: usize = open.tabs.len();
    open.active = if open.active < n {
        open.active
    } else {
        n - 1
    };
}

/// The tabs whose panes stayed keep their order, and where none stayed a new, empty tab is left.
/// The place in front stays, or is the last where there are fewer tabs.
pub proof fn law_closing_panes_keeps_the_order(m: tabs::TabsModel, closed: Seq<u64>)
    requires
        m.wf(),
    ensures
        ({
            let stays = |i: int| !closed.contains(m.tabs[i].doc_id);
            let c = without_panes(m, closed);
            let left = tabs::tally(stays, m.tabs.len() as int);
            &&& left == 0 ==> c.tabs == seq![tab::scratch_tab()]
            &&& left > 0 ==> c.tabs.len() == left
            &&& forall|i: int|
                0 <= i < m.tabs.len() && !closed.contains((#[trigger] m.tabs[i]).doc_id)
                    ==> c.tabs[tabs::tally(stays, i)] == m.tabs[i]
            &&& c.active == (if m.active < c.tabs.len() {
                m.active
            } else {
                c.tabs.len() - 1
            })
            &&& c.closed == m.closed
        }),
{
    let stays = |i: int| !closed.contains(m.tabs[i].doc_id);
    assert(keep_unlisted(m.tabs, closed) =~= stays);
    tabs::lemma_survivors_places(m.tabs, stays, 0);
    assert forall|i: int|
        0 <= i < m.tabs.len() && !closed.contains((#[trigger] m.tabs[i]).doc_id) implies without_panes(
        m,
        closed,
    ).tabs[tabs::tally(stays, i)] == m.tabs[i] by {
        tabs::lemma_tally_grows(stays, i, m.tabs.len() as int);
        tabs::lemma_tally_grows(stays, 0, i);
    }
}

/// Closing panes closes their tabs and no others.
pub proof fn law_closing_panes_closes_their_tabs(m: tabs::TabsModel, closed: Seq<u64>, i: int)
    requires
        m.wf(),
        0 <= i < m.tabs.len(),
    ensures
        !closed.contains(m.tabs[i].doc_id) ==> without_panes(m, closed).tabs.contains(m.tabs[i]),
        closed.contains(m.tabs[i].doc_id) && m.tabs[i].doc_id != 0 ==> !without_panes(
            m,
            closed,
        ).tabs.contains(m.tabs[i]),
{
    let kept = keep_unlisted(m.tabs, closed);
    tabs::lemma_survivors(m.tabs, kept, 0);
    let left = tabs::survivors(m.tabs, kept, 0);
    if !closed.contains(m.tabs[i].doc_id) {
        assert(kept(i));
        assert(left.contains(m.tabs[i]));
    } else if m.tabs[i].doc_id != 0 {
        if left.len() == 0 {
            let s = tabs::or_scratch(left);
            if s.contains(m.tabs[i]) {
                assert(s[0] == m.tabs[i]);
            }
        } else if left.contains(m.tabs[i]) {
            let k = choose|k: int|
                0 <= k < m.tabs.len() && kept(k) && #[trigger] m.tabs[k] == m.tabs[i];
            assert(kept(k));
        }
    }
}

} // verus!

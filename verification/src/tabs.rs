//! The open tabs: order, focus, pinning, closing and reopening.
use vstd::prelude::*;
use vstd::string::*;
use crate::tab;
use crate::tab::{clone_opt, EditorTab, Opened};

verus! {

/// How many closed tabs can be reopened.
pub const MAX_CLOSED: usize = 20;

/// A recently closed tab.
pub struct ClosedTab {
    /// Its file, if it had one.
    pub path: Option<String>,
    /// Its text.
    pub text: String,
    /// Its caret.
    pub cursor: usize,
}

/// What a [`ClosedTab`] holds.
#[verifier::ext_equal]
pub struct ClosedModel {
    pub path: Option<Seq<char>>,
    pub text: Seq<char>,
    pub cursor: usize,
}

impl View for ClosedTab {
    type V = ClosedModel;

    open spec fn view(&self) -> ClosedModel {
        ClosedModel { path: tab::opt_view(self.path), text: self.text@, cursor: self.cursor }
    }
}

/// The open tabs, the one in front, and the ones closed last.
pub struct TabSet {
    /// The tabs, from left to right.
    pub tabs: Vec<EditorTab>,
    /// The index of the tab in front.
    pub active: usize,
    /// The closed tabs, the last closed last.
    pub closed: Vec<ClosedTab>,
}

/// What a [`TabSet`] holds.
#[verifier::ext_equal]
pub struct TabsModel {
    pub tabs: Seq<tab::TabModel>,
    pub active: int,
    pub closed: Seq<ClosedModel>,
}

/// The contents of a sequence of tabs.
pub open spec fn models(v: Seq<EditorTab>) -> Seq<tab::TabModel> {
    Seq::new(v.len(), |i: int| v[i]@)
}

/// The contents of a sequence of closed tabs.
pub open spec fn closed_models(v: Seq<ClosedTab>) -> Seq<ClosedModel> {
    Seq::new(v.len(), |i: int| v[i]@)
}

impl View for TabSet {
    type V = TabsModel;

    open spec fn view(&self) -> TabsModel {
        TabsModel {
            tabs: models(self.tabs@),
            active: self.active as int,
            closed: closed_models(self.closed@),
        }
    }
}

/// `i`, at most the last index of a sequence of `n`; zero in an empty one.
pub open spec fn last_at_most(i: int, n: int) -> int {
    if i < n {
        i
    } else if n == 0 {
        0
    } else {
        n - 1
    }
}

/// A place that is there stays, and one that is not becomes the last.
pub proof fn law_place_stays_or_is_the_last(i: int, n: int)
    requires
        0 <= i,
        0 <= n,
    ensures
        i < n ==> last_at_most(i, n) == i,
        i >= n > 0 ==> last_at_most(i, n) == n - 1,
        last_at_most(i, 0) == 0,
{
}

/// The tabs from the `i`th on that `keep` picks.
pub open spec fn survivors(
    tabs: Seq<tab::TabModel>,
    keep: spec_fn(int) -> bool,
    i: int,
) -> Seq<tab::TabModel>
    decreases tabs.len() - i,
{
    if i >= tabs.len() {
        Seq::empty()
    } else if keep(i) {
        seq![tabs[i]] + survivors(tabs, keep, i + 1)
    } else {
        survivors(tabs, keep, i + 1)
    }
}

/// Picks tab `k` and the pinned ones.
pub open spec fn keep_one(tabs: Seq<tab::TabModel>, k: int) -> spec_fn(int) -> bool {
    |i: int| i == k || tabs[i].pinned
}

/// Picks the tabs up to `k` and the pinned ones.
pub open spec fn keep_upto(tabs: Seq<tab::TabModel>, k: int) -> spec_fn(int) -> bool {
    |i: int| i <= k || tabs[i].pinned
}

/// Picks the pinned tabs.
pub open spec fn keep_pinned(tabs: Seq<tab::TabModel>) -> spec_fn(int) -> bool {
    |i: int| tabs[i].pinned
}

/// How many of the first `n` tabs are pinned.
pub open spec fn pinned_before(tabs: Seq<tab::TabModel>, n: int) -> int
    decreases n,
{
    if n <= 0 {
        0
    } else {
        pinned_before(tabs, n - 1) + (if tabs[n - 1].pinned {
            1int
        } else {
            0int
        })
    }
}

/// A sequence of tabs, or a new empty tab where there is none.
pub open spec fn or_scratch(tabs: Seq<tab::TabModel>) -> Seq<tab::TabModel> {
    if tabs.len() == 0 {
        seq![tab::scratch_tab()]
    } else {
        tabs
    }
}

/// The new index of the element at `idx` after the one at `src` was taken out and
/// put in again at `target`.
pub open spec fn index_after_move(src: int, target: int, idx: int) -> int {
    if idx == src {
        target
    } else {
        let out = if idx < src {
            idx
        } else {
            idx - 1
        };
        if out >= target {
            out + 1
        } else {
            out
        }
    }
}

/// The new index of whatever sits at `idx` when the tab at `src` is dropped on the
/// place of the one at `target`.
pub fn tab_index_after_move(src: usize, target: usize, idx: usize) -> (r: usize)
    ensures
        r == index_after_move(src as int, target as int, idx as int),
{
    if src == target {
        return idx;
    }
    if idx == src {
        return target;
    }
    let out: usize = if idx < src {
        idx
    } else {
        idx - 1
    };
    if out >= target {
        out + 1
    } else {
        out
    }
}

/// A move follows the elements: what sits at `idx` before is what sits at the new
/// index after, for a sequence of any kind.
pub proof fn law_move_follows_elements<A>(s: Seq<A>, src: int, target: int, idx: int)
    requires
        0 <= src < s.len(),
        0 <= target < s.len(),
        0 <= idx < s.len(),
    ensures
        0 <= index_after_move(src, target, idx) < s.len(),
        s.remove(src).insert(target, s[src])[index_after_move(src, target, idx)] == s[idx],
{
}

/// No two elements land on one place.
pub proof fn law_move_is_injective(src: int, target: int, i: int, j: int)
    requires
        0 <= src,
        0 <= target,
        0 <= i,
        0 <= j,
        i != j,
    ensures
        index_after_move(src, target, i) != index_after_move(src, target, j),
{
}

/// Moving a tab and moving it back restores every place.
pub proof fn law_move_back(src: int, target: int, idx: int)
    requires
        0 <= src,
        0 <= target,
        0 <= idx,
    ensures
        index_after_move(target, src, index_after_move(src, target, idx)) == idx,
{
}

impl TabsModel {
    /// There is a tab, one of them is in front, and the reopen stack is bounded.
    pub open spec fn wf(self) -> bool {
        &&& 0 <= self.active < self.tabs.len()
        &&& self.closed.len() <= MAX_CLOSED
    }

    /// With a new, empty tab in front.
    pub open spec fn with_new(self) -> TabsModel {
        TabsModel {
            tabs: self.tabs.push(tab::scratch_tab()),
            active: self.tabs.len() as int,
            ..self
        }
    }

    /// With a tab added at the end and brought to the front.
    pub open spec fn with_tab(self, t: tab::TabModel) -> TabsModel {
        TabsModel { tabs: self.tabs.push(t), active: self.tabs.len() as int, ..self }
    }

    /// With another tab in front.
    pub open spec fn focused(self, i: int) -> TabsModel {
        TabsModel { active: i, ..self }
    }

    /// With the next tab in front, the first after the last.
    pub open spec fn cycled_next(self) -> TabsModel {
        TabsModel { active: (self.active + 1) % (self.tabs.len() as int), ..self }
    }

    /// With the previous tab in front, the last before the first.
    pub open spec fn cycled_prev(self) -> TabsModel {
        TabsModel {
            active: if self.active == 0 {
                self.tabs.len() - 1
            } else {
                self.active - 1
            },
            ..self
        }
    }

    /// With one tab's pin turned over.
    pub open spec fn pin_toggled(self, i: int) -> TabsModel {
        if 0 <= i < self.tabs.len() {
            TabsModel {
                tabs: self.tabs.update(
                    i,
                    tab::TabModel { pinned: !self.tabs[i].pinned, ..self.tabs[i] },
                ),
                ..self
            }
        } else {
            self
        }
    }

    /// Whether a tab can be dragged to another's place.
    pub open spec fn can_move(self, src: int, target: int) -> bool {
        0 <= src < self.tabs.len() && 0 <= target < self.tabs.len() && src != target
            && !self.tabs[src].pinned
    }

    /// With the tab at `src` in the place of the one at `target`, and the same tab
    /// in front as before.
    pub open spec fn moved(self, src: int, target: int) -> TabsModel {
        if self.can_move(src, target) {
            TabsModel {
                tabs: self.tabs.remove(src).insert(target, self.tabs[src]),
                active: last_at_most(
                    index_after_move(src, target, self.active),
                    self.tabs.len() as int,
                ),
                ..self
            }
        } else {
            self
        }
    }

    /// With only `keep` and the pinned tabs left, and `keep` in front.
    pub open spec fn only(self, keep: int) -> TabsModel {
        if 0 <= keep < self.tabs.len() {
            let left = survivors(self.tabs, keep_one(self.tabs, keep), 0);
            TabsModel {
                tabs: left,
                active: last_at_most(pinned_before(self.tabs, keep), left.len() as int),
                ..self
            }
        } else {
            self
        }
    }

    /// Without the tabs after `after` that are not pinned.
    pub open spec fn without_after(self, after: int) -> TabsModel {
        let left = survivors(self.tabs, keep_upto(self.tabs, after), 0);
        TabsModel { tabs: left, active: last_at_most(self.active, left.len() as int), ..self }
    }

    /// With only the pinned tabs left, or a new empty one; the first in front.
    pub open spec fn only_pinned(self) -> TabsModel {
        TabsModel {
            tabs: or_scratch(survivors(self.tabs, keep_pinned(self.tabs), 0)),
            active: 0,
            ..self
        }
    }

    /// Whether a tab can be closed.
    pub open spec fn can_close(self, idx: int) -> bool {
        0 <= idx < self.tabs.len() && !self.tabs[idx].pinned
    }

    /// What the reopen stack keeps of a tab.
    pub open spec fn closed_entry(t: tab::TabModel) -> ClosedModel {
        ClosedModel {
            path: t.doc.path,
            text: t.text,
            cursor: match t.rope_cursor {
                Some(c) => c,
                None => 0,
            },
        }
    }

    /// The reopen stack after a tab was closed: an empty untitled tab is not kept,
    /// and beyond the limit the oldest entry goes.
    pub open spec fn closed_with(closed: Seq<ClosedModel>, t: tab::TabModel) -> Seq<ClosedModel> {
        if t.doc.path is None && t.text.len() == 0 {
            closed
        } else {
            let more = closed.push(TabsModel::closed_entry(t));
            if more.len() > MAX_CLOSED {
                more.remove(0)
            } else {
                more
            }
        }
    }

    /// Without the tab at `idx`.
    pub open spec fn without(self, idx: int) -> TabsModel {
        if self.can_close(idx) {
            let left = or_scratch(self.tabs.remove(idx));
            TabsModel {
                tabs: left,
                active: last_at_most(self.active, left.len() as int),
                closed: TabsModel::closed_with(self.closed, self.tabs[idx]),
            }
        } else {
            self
        }
    }
}

/// What became of a request to close a tab.
pub enum CloseOutcome {
    /// There is no such tab.
    Absent,
    /// The tab is pinned and stays.
    Pinned,
    /// The tab is gone. For a tab with a file: the file and the caret, so that the
    /// next time it is opened there.
    Closed(Option<(String, usize)>),
}

/// The status line when a pinned tab was to be closed.
pub open spec fn pinned_status() -> Seq<char> {
    "Note is pinned — unpin it to close"@
}

/// The status line when a pinned tab was to be closed.
pub fn pinned_status_line() -> (s: String)
    ensures
        s@ == pinned_status(),
{
    "Note is pinned — unpin it to close".to_string()
}

/// Removing from the back leaves what was in front.
pub proof fn lemma_survivors_skip(
    tabs: Seq<tab::TabModel>,
    keep: spec_fn(int) -> bool,
    i: int,
)
    requires
        0 <= i < tabs.len(),
    ensures
        !keep(i) ==> (tabs.take(i + 1) + survivors(tabs, keep, i + 1)).remove(i) == tabs.take(i)
            + survivors(tabs, keep, i),
        keep(i) ==> tabs.take(i + 1) + survivors(tabs, keep, i + 1) == tabs.take(i) + survivors(
            tabs,
            keep,
            i,
        ),
{
    let rest = survivors(tabs, keep, i + 1);
    if keep(i) {
        assert(tabs.take(i + 1) + rest =~= tabs.take(i) + (seq![tabs[i]] + rest));
    } else {
        assert((tabs.take(i + 1) + rest).remove(i) =~= tabs.take(i) + rest);
    }
}

pub proof fn lemma_models_remove(v: Seq<EditorTab>, i: int)
    requires
        0 <= i < v.len(),
    ensures
        models(v.remove(i)) == models(v).remove(i),
{
    assert(models(v.remove(i)) =~= models(v).remove(i));
}

/// Every tab that is kept is among the survivors, and nothing else is; a kept
/// tab's new place is the number of kept tabs before it.
pub proof fn lemma_survivors(tabs: Seq<tab::TabModel>, keep: spec_fn(int) -> bool, i: int)
    requires
        0 <= i <= tabs.len(),
    ensures
        survivors(tabs, keep, i).len() <= tabs.len() - i,
        forall|k: int|
            #![trigger tabs[k]]
            i <= k < tabs.len() && keep(k) ==> survivors(tabs, keep, i).contains(tabs[k]),
        forall|t: tab::TabModel| #[trigger]
            survivors(tabs, keep, i).contains(t) ==> exists|k: int|
                i <= k < tabs.len() && keep(k) && #[trigger] tabs[k] == t,
        (forall|k: int| #![trigger keep(k)] i <= k < tabs.len() ==> keep(k)) ==> survivors(
            tabs,
            keep,
            i,
        ) == tabs.skip(i),
    decreases tabs.len() - i,
{
    if i < tabs.len() {
        lemma_survivors(tabs, keep, i + 1);
        let rest = survivors(tabs, keep, i + 1);
        let all = survivors(tabs, keep, i);
        if keep(i) {
            assert(all[0] == tabs[i]);
            assert forall|k: int| #![trigger tabs[k]] i <= k < tabs.len() && keep(k) implies all.contains(
                tabs[k],
            ) by {
                if k > i {
                    let j = choose|j: int| 0 <= j < rest.len() && rest[j] == tabs[k];
                    assert(all[j + 1] == tabs[k]);
                }
            }
            assert forall|t: tab::TabModel| #[trigger] all.contains(t) implies exists|k: int|
                i <= k < tabs.len() && keep(k) && #[trigger] tabs[k] == t by {
                let j = choose|j: int| 0 <= j < all.len() && all[j] == t;
                if j > 0 {
                    assert(rest[j - 1] == t);
                    assert(rest.contains(t));
                } else {
                    assert(tabs[i] == t);
                }
            }
            if forall|k: int| #![trigger keep(k)] i <= k < tabs.len() ==> keep(k) {
                assert(all =~= tabs.skip(i));
            }
        } else {
            assert(!(forall|k: int| #![trigger keep(k)] i <= k < tabs.len() ==> keep(k)));
        }
    } else {
        assert(survivors(tabs, keep, i) =~= tabs.skip(i));
    }
}

impl TabSet {
    /// There is a tab, one of them is in front, and the reopen stack is bounded.
    pub open spec fn wf(&self) -> bool {
        self@.wf()
    }

    /// One empty tab.
    pub fn new() -> (s: TabSet)
        ensures
            s.wf(),
            s@.tabs == seq![tab::scratch_tab()],
            s@.active == 0,
            s@.closed == Seq::<ClosedModel>::empty(),
    {
        let mut tabs: Vec<EditorTab> = Vec::new();
        tabs.push(EditorTab::scratch());
        let closed: Vec<ClosedTab> = Vec::new();
        let s = TabSet { tabs, active: 0, closed };
        assert(s@.tabs =~= seq![tab::scratch_tab()]);
        assert(s@.closed =~= Seq::<ClosedModel>::empty());
        s
    }

    /// Open a new, empty tab in front.
    pub fn new_tab(&mut self)
        requires
            old(self).wf(),
        ensures
            final(self).wf(),
            final(self)@ == old(self)@.with_new(),
    {
        self.push_tab(EditorTab::scratch());
    }

    /// Add a tab at the end and bring it to the front.
    pub fn push_tab(&mut self, t: EditorTab)
        requires
            old(self).wf(),
        ensures
            final(self).wf(),
            final(self)@ == old(self)@.with_tab(t@),
    {
        let ghost before = self@;
        self.tabs.push(t);
        self.active = self.tabs.len() - 1;
        assert(self@.tabs =~= before.tabs.push(t@));
    }

    /// Bring the next tab to the front; the first comes after the last.
    pub fn cycle_next(&mut self)
        requires
            old(self).wf(),
        ensures
            final(self).wf(),
            final(self)@ == old(self)@.cycled_next(),
    {
        let n: usize = self.tabs.len();
        proof {
            lemma_next_index(self.active as int, n as int);
        }
        self.active = if self.active + 1 < n {
            self.active + 1
        } else {
            0
        };
    }

    /// Bring the previous tab to the front; the last comes before the first.
    pub fn cycle_prev(&mut self)
        requires
            old(self).wf(),
        ensures
            final(self).wf(),
            final(self)@ == old(self)@.cycled_prev(),
    {
        self.active = if self.active == 0 {
            self.tabs.len() - 1
        } else {
            self.active - 1
        };
    }

    /// Pin the tab at `i`, or unpin it.
    pub fn toggle_pin(&mut self, i: usize)
        requires
            old(self).wf(),
        ensures
            final(self).wf(),
            final(self)@ == old(self)@.pin_toggled(i as int),
    {
        if i < self.tabs.len() {
            let ghost before = self@;
            let pinned: bool = self.tabs[i].pinned;
            self.tabs[i].pinned = !pinned;
            assert(self@.tabs =~= before.pin_toggled(i as int).tabs);
        }
    }

    /// Drop the tab at `src` on the place of the one at `target`. The same tab stays
    /// in front. A pinned tab does not move.
    pub fn move_tab(&mut self, src: usize, target: usize)
        requires
            old(self).wf(),
        ensures
            final(self).wf(),
            final(self)@ == old(self)@.moved(src as int, target as int),
    {
        if src >= self.tabs.len() || target >= self.tabs.len() || src == target {
            return;
        }
        if self.tabs[src].pinned {
            return;
        }
        let ghost before = self@;
        let new_active = tab_index_after_move(src, target, self.active);
        let t = self.tabs.remove(src);
        self.tabs.insert(target, t);
        let n: usize = self.tabs.len();
        self.active = if new_active < n {
            new_active
        } else {
            n - 1
        };
        assert(self@.tabs =~= before.moved(src as int, target as int).tabs);
    }

    /// Close every tab but `keep` and the pinned ones, and bring `keep` to the front.
    pub fn close_all_tabs_except(&mut self, keep: usize)
        requires
            old(self).wf(),
        ensures
            final(self).wf(),
            final(self)@ == old(self)@.only(keep as int),
    {
        if keep >= self.tabs.len() {
            return;
        }
        let ghost before = self@;
        let ghost kept = keep_one(before.tabs, keep as int);
        let mut new_keep: usize = 0;
        let mut k: usize = 0;
        while k < keep
            invariant
                self@ == before,
                k <= keep < self.tabs@.len(),
                new_keep == pinned_before(before.tabs, k as int),
                new_keep <= k,
            decreases keep - k,
        {
            assert(self.tabs@[k as int]@ == before.tabs[k as int]);
            if self.tabs[k].pinned {
                new_keep += 1;
            }
            k += 1;
        }
        let mut i: usize = self.tabs.len();
        assert(before.tabs.take(i as int) + survivors(before.tabs, kept, i as int)
            =~= before.tabs);
        while i > 0
            invariant
                i <= before.tabs.len(),
                kept == keep_one(before.tabs, keep as int),
                models(self.tabs@) == before.tabs.take(i as int) + survivors(
                    before.tabs,
                    kept,
                    i as int,
                ),
                self@.closed == before.closed,
                self.active == before.active,
            decreases i,
        {
            i -= 1;
            proof {
                lemma_survivors_skip(before.tabs, kept, i as int);
                assert(models(self.tabs@)[i as int] == before.tabs[i as int]);
            }
            if i != keep && !self.tabs[i].pinned {
                proof {
                    lemma_models_remove(self.tabs@, i as int);
                }
                self.tabs.remove(i);
            }
        }
        proof {
            let left = survivors(before.tabs, kept, 0);
            assert(before.tabs.take(0) + left =~= left);
            lemma_survivors(before.tabs, kept, 0);
            assert(left.contains(before.tabs[keep as int]));
        }
        let n: usize = self.tabs.len();
        self.active = if new_keep < n {
            new_keep
        } else {
            n - 1
        };
    }

    /// Close every tab after `after` that is not pinned.
    pub fn close_tabs_after(&mut self, after: usize)
        requires
            old(self).wf(),
        ensures
            final(self).wf(),
            final(self)@ == old(self)@.without_after(after as int),
    {
        let ghost before = self@;
        let ghost kept = keep_upto(before.tabs, after as int);
        let mut i: usize = self.tabs.len();
        assert(before.tabs.take(i as int) + survivors(before.tabs, kept, i as int)
            =~= before.tabs);
        while i > 0 && i - 1 > after
            invariant
                i <= before.tabs.len(),
                kept == keep_upto(before.tabs, after as int),
                models(self.tabs@) == before.tabs.take(i as int) + survivors(
                    before.tabs,
                    kept,
                    i as int,
                ),
                self@.closed == before.closed,
                self.active == before.active,
            decreases i,
        {
            i -= 1;
            proof {
                lemma_survivors_skip(before.tabs, kept, i as int);
                assert(models(self.tabs@)[i as int] == before.tabs[i as int]);
            }
            if !self.tabs[i].pinned {
                proof {
                    lemma_models_remove(self.tabs@, i as int);
                }
                self.tabs.remove(i);
            }
        }
        proof {
            lemma_survivors_prefix(before.tabs, kept, 0, i as int);
            assert(before.tabs.subrange(0, i as int) =~= before.tabs.take(i as int));
            let left = survivors(before.tabs, kept, 0);
            lemma_survivors(before.tabs, kept, 0);
            assert(kept(0));
            assert(left.contains(before.tabs[0]));
        }
        let n: usize = self.tabs.len();
        self.active = if self.active < n {
            self.active
        } else {
            n - 1
        };
    }

    /// Close every tab that is not pinned; the first left comes to the front.
    pub fn close_all_tabs(&mut self)
        requires
            old(self).wf(),
        ensures
            final(self).wf(),
            final(self)@ == old(self)@.only_pinned(),
    {
        let ghost before = self@;
        let ghost kept = keep_pinned(before.tabs);
        let mut i: usize = self.tabs.len();
        assert(before.tabs.take(i as int) + survivors(before.tabs, kept, i as int)
            =~= before.tabs);
        while i > 0
            invariant
                i <= before.tabs.len(),
                kept == keep_pinned(before.tabs),
                models(self.tabs@) == before.tabs.take(i as int) + survivors(
                    before.tabs,
                    kept,
                    i as int,
                ),
                self@.closed == before.closed,
            decreases i,
        {
            i -= 1;
            proof {
                lemma_survivors_skip(before.tabs, kept, i as int);
                assert(models(self.tabs@)[i as int] == before.tabs[i as int]);
            }
            if !self.tabs[i].pinned {
                proof {
                    lemma_models_remove(self.tabs@, i as int);
                }
                self.tabs.remove(i);
            }
        }
        assert(before.tabs.take(0) + survivors(before.tabs, kept, 0) =~= survivors(
            before.tabs,
            kept,
            0,
        ));
        if self.tabs.len() == 0 {
            self.tabs.push(EditorTab::scratch());
        }
        self.active = 0;
        assert(self@.tabs =~= before.only_pinned().tabs);
    }

    /// Close the tab at `idx` and keep it for reopening. A pinned tab stays; the last
    /// tab leaves a new, empty one.
    pub fn close_tab(&mut self, idx: usize) -> (r: CloseOutcome)
        requires
            old(self).wf(),
        ensures
            final(self).wf(),
            final(self)@ == old(self)@.without(idx as int),
            match r {
                CloseOutcome::Absent => idx >= old(self)@.tabs.len(),
                CloseOutcome::Pinned => idx < old(self)@.tabs.len()
                    && old(self)@.tabs[idx as int].pinned,
                CloseOutcome::Closed(place) => old(self)@.can_close(idx as int) && match place {
                    Some((p, c)) => {
                        let entry = TabsModel::closed_entry(old(self)@.tabs[idx as int]);
                        entry.path == Some(p@) && entry.cursor == c
                    },
                    None => old(self)@.tabs[idx as int].doc.path is None,
                },
            },
    {
        if idx >= self.tabs.len() {
            return CloseOutcome::Absent;
        }
        if self.tabs[idx].pinned {
            return CloseOutcome::Pinned;
        }
        let ghost before = self@;
        assert(self.tabs@[idx as int]@ == before.tabs[idx as int]);
        let cursor: usize = match self.tabs[idx].rope_cursor {
            Some(c) => c,
            None => 0,
        };
        let path = clone_opt(&self.tabs[idx].doc.path);
        let place = match &path {
            Some(p) => Some((p.clone(), cursor)),
            None => None,
        };
        if path.is_some() || !self.tabs[idx].text.as_str().is_empty() {
            let text = self.tabs[idx].text.clone();
            let entry = ClosedTab { path, text, cursor };
            assert(entry@ == TabsModel::closed_entry(before.tabs[idx as int]));
            self.closed.push(entry);
            assert(closed_models(self.closed@) =~= before.closed.push(entry@));
            if self.closed.len() > MAX_CLOSED {
                self.closed.remove(0);
                assert(closed_models(self.closed@) =~= before.closed.push(entry@).remove(0));
            }
        }
        proof {
            lemma_models_remove(self.tabs@, idx as int);
        }
        self.tabs.remove(idx);
        if self.tabs.len() == 0 {
            self.tabs.push(EditorTab::scratch());
            assert(self@.tabs =~= seq![tab::scratch_tab()]);
        }
        let n: usize = self.tabs.len();
        self.active = if self.active < n {
            self.active
        } else {
            n - 1
        };
        CloseOutcome::Closed(place)
    }

    /// Take the tab that was closed last off the reopen stack.
    pub fn pop_closed(&mut self) -> (r: Option<ClosedTab>)
        requires
            old(self).wf(),
        ensures
            final(self).wf(),
            match r {
                Some(c) => old(self)@.closed.len() > 0 && c@ == old(self)@.closed.last()
                    && final(self)@ == (TabsModel {
                    closed: old(self)@.closed.drop_last(),
                    ..old(self)@
                }),
                None => old(self)@.closed.len() == 0 && final(self)@ == old(self)@,
            },
    {
        let ghost before = self@;
        let r = self.closed.pop();
        proof {
            if r is Some {
                assert(self@.closed =~= before.closed.drop_last());
            } else {
                assert(self@.closed =~= before.closed);
            }
        }
        r
    }

    /// Open a closed tab again, at the end and in front: its content over its file as
    /// it is on disk now (`opened`). The caret returns with the rope editor.
    pub fn reopen_closed_tab(&mut self, closed: ClosedTab, opened: Option<Opened>, rope: bool)
        requires
            old(self).wf(),
        ensures
            final(self).wf(),
            final(self)@ == old(self)@.with_tab(
                reopened_tab(closed@, opened, rope),
            ),
    {
        let mut t = EditorTab::from_backup(opened, closed.text);
        if rope {
            t.rope_cursor = Some(closed.cursor);
        }
        self.push_tab(t);
    }
}

/// The tab that reopening a closed one makes.
pub open spec fn reopened_tab(
    closed: ClosedModel,
    opened: Option<Opened>,
    rope: bool,
) -> tab::TabModel {
    let t = tab::backup_tab(opened, closed.text);
    if rope {
        tab::TabModel { rope_cursor: Some(closed.cursor), ..t }
    } else {
        t
    }
}

/// What stands before the first tab that goes is kept whole.
proof fn lemma_survivors_prefix(
    tabs: Seq<tab::TabModel>,
    keep: spec_fn(int) -> bool,
    a: int,
    b: int,
)
    requires
        0 <= a <= b <= tabs.len(),
        forall|k: int| a <= k < b ==> #[trigger] keep(k),
    ensures
        survivors(tabs, keep, a) == tabs.subrange(a, b) + survivors(tabs, keep, b),
    decreases b - a,
{
    if a < b {
        lemma_survivors_prefix(tabs, keep, a + 1, b);
        assert(keep(a));
        assert(tabs.subrange(a, b) =~= seq![tabs[a]] + tabs.subrange(a + 1, b));
        assert(survivors(tabs, keep, a) =~= tabs.subrange(a, b) + survivors(tabs, keep, b));
    } else {
        assert(tabs.subrange(a, b) + survivors(tabs, keep, b) =~= survivors(tabs, keep, b));
    }
}

/// A pinned tab survives what the tab strip closes: itself, the others, those after a
/// tab, and all.
pub proof fn law_pinned_survive(m: TabsModel, i: int, k: int)
    requires
        m.wf(),
        0 <= i < m.tabs.len(),
        m.tabs[i].pinned,
    ensures
        m.only(k).tabs.contains(m.tabs[i]),
        m.without_after(k).tabs.contains(m.tabs[i]),
        m.only_pinned().tabs.contains(m.tabs[i]),
        m.without(k).tabs.contains(m.tabs[i]),
{
    if 0 <= k < m.tabs.len() {
        let f = keep_one(m.tabs, k);
        lemma_survivors(m.tabs, f, 0);
        assert(f(i));
    } else {
        assert(m.tabs[i] == m.only(k).tabs[i]);
    }
    let g = keep_upto(m.tabs, k);
    lemma_survivors(m.tabs, g, 0);
    assert(g(i));
    let h = keep_pinned(m.tabs);
    lemma_survivors(m.tabs, h, 0);
    assert(h(i));
    if m.can_close(k) {
        if i < k {
            assert(m.tabs.remove(k)[i] == m.tabs[i]);
        } else {
            assert(m.tabs.remove(k)[i - 1] == m.tabs[i]);
        }
    } else {
        assert(m.without(k).tabs[i] == m.tabs[i]);
    }
}

/// "Close others" brings the tab that was kept to the front.
pub proof fn law_kept_tab_is_in_front(m: TabsModel, keep: int)
    requires
        m.wf(),
        0 <= keep < m.tabs.len(),
    ensures
        m.only(keep).wf(),
        m.only(keep).tabs[m.only(keep).active] == m.tabs[keep],
{
    let f = keep_one(m.tabs, keep);
    lemma_kept_position(m.tabs, f, keep, 0);
}

proof fn lemma_kept_position(
    tabs: Seq<tab::TabModel>,
    keep: spec_fn(int) -> bool,
    k: int,
    i: int,
)
    requires
        0 <= i <= k < tabs.len(),
        keep(k),
        forall|j: int| #![trigger keep(j)] 0 <= j < k ==> keep(j) == tabs[j].pinned,
    ensures
        ({
            let p = pinned_before(tabs, k) - pinned_before(tabs, i);
            let left = survivors(tabs, keep, i);
            0 <= p < left.len() && left[p] == tabs[k]
        }),
    decreases k - i,
{
    if i < k {
        lemma_kept_position(tabs, keep, k, i + 1);
        assert(keep(i) == tabs[i].pinned);
    }
}

/// Moving a tab keeps the same tab in front, and moves it only among the others.
pub proof fn law_move_keeps_front(m: TabsModel, src: int, target: int)
    requires
        m.wf(),
    ensures
        m.moved(src, target).wf(),
        m.moved(src, target).tabs[m.moved(src, target).active] == m.tabs[m.active],
        m.moved(src, target).tabs.len() == m.tabs.len(),
{
    if m.can_move(src, target) {
        law_move_follows_elements(m.tabs, src, target, m.active);
    }
}

/// The next index in a circle of `n`.
proof fn lemma_next_index(i: int, n: int)
    requires
        0 <= i < n,
    ensures
        (i + 1) % n == (if i + 1 < n {
            i + 1
        } else {
            0
        }),
{
    if i + 1 < n {
        assert((i + 1) % n == i + 1) by (nonlinear_arith)
            requires
                0 <= i + 1 < n,
        ;
    } else {
        assert((i + 1) % n == 0) by (nonlinear_arith)
            requires
                i + 1 == n,
                n > 0,
        ;
    }
}

/// Cycling forward and back returns to the tab.
pub proof fn law_cycle_back(m: TabsModel)
    requires
        m.wf(),
    ensures
        m.cycled_next().wf(),
        m.cycled_prev().wf(),
        m.cycled_next().cycled_prev() == m,
        m.cycled_prev().cycled_next() == m,
{
    let n = m.tabs.len() as int;
    lemma_next_index(m.active, n);
    lemma_next_index(m.cycled_prev().active, n);
}

/// Closing a tab that has a file or text and reopening gives its text back, in a tab
/// in front of all; the reopen stack is as before the close while it was not full.
pub proof fn law_reopen_restores(m: TabsModel, idx: int, opened: Option<Opened>, rope: bool)
    requires
        m.wf(),
        m.can_close(idx),
        m.tabs[idx].doc.path is Some || m.tabs[idx].text.len() > 0,
    ensures
        ({
            let c = m.without(idx);
            let entry = c.closed.last();
            let r = TabsModel { closed: c.closed.drop_last(), ..c }.with_tab(
                reopened_tab(entry, opened, rope),
            );
            &&& c.closed.len() > 0
            &&& entry == TabsModel::closed_entry(m.tabs[idx])
            &&& r.tabs[r.active].text == m.tabs[idx].text
            &&& m.closed.len() < MAX_CLOSED ==> r.closed == m.closed
        }),
{
    let c = m.without(idx);
    if m.closed.len() < MAX_CLOSED {
        assert(c.closed.drop_last() =~= m.closed);
    }
}

/// How many of the first `n` places `keep` picks.
pub open spec fn tally(keep: spec_fn(int) -> bool, n: int) -> int
    decreases n,
{
    if n <= 0 {
        0
    } else {
        tally(keep, n - 1) + (if keep(n - 1) {
            1int
        } else {
            0int
        })
    }
}

pub proof fn lemma_tally_grows(keep: spec_fn(int) -> bool, a: int, b: int)
    requires
        0 <= a <= b,
    ensures
        0 <= tally(keep, a) <= tally(keep, b),
        a < b && keep(a) ==> tally(keep, a) < tally(keep, b),
    decreases b,
{
    if a < b {
        lemma_tally_grows(keep, a, b - 1);
    } else if b > 0 {
        lemma_tally_grows(keep, b - 1, b - 1);
    }
}

/// Each tab that is kept stands behind the kept ones before it, and there are no others.
pub proof fn lemma_survivors_places(tabs: Seq<tab::TabModel>, keep: spec_fn(int) -> bool, i: int)
    requires
        0 <= i <= tabs.len(),
    ensures
        survivors(tabs, keep, i).len() == tally(keep, tabs.len() as int) - tally(keep, i),
        forall|k: int|
            #![trigger tabs[k]]
            i <= k < tabs.len() && keep(k) ==> survivors(tabs, keep, i)[tally(keep, k) - tally(
                keep,
                i,
            )] == tabs[k],
    decreases tabs.len() - i,
{
    if i < tabs.len() {
        lemma_survivors_places(tabs, keep, i + 1);
        let rest = survivors(tabs, keep, i + 1);
        let all = survivors(tabs, keep, i);
        assert forall|k: int| #![trigger tabs[k]] i <= k < tabs.len() && keep(k) implies all[tally(
            keep,
            k,
        ) - tally(keep, i)] == tabs[k] by {
            if k > i {
                lemma_tally_grows(keep, i + 1, k);
                lemma_tally_grows(keep, k, tabs.len() as int);
                assert(rest[tally(keep, k) - tally(keep, i + 1)] == tabs[k]);
            }
        }
    }
}

/// Closing a tab behind the one in front leaves the same tab in front. Closing the tab in
/// front brings its right neighbour to the front, or the new last tab when it was the last.
/// Whichever tab goes, the place in front stays, unless there is none such any more: it is
/// then the last. Closing the only tab leaves a new, empty one.
pub proof fn law_close_brings_the_neighbour_to_the_front(m: TabsModel, idx: int)
    requires
        m.wf(),
        0 <= idx < m.tabs.len(),
        !m.tabs[idx].pinned,
    ensures
        ({
            let c = m.without(idx);
            let n = m.tabs.len();
            &&& m.active < idx ==> c.active == m.active && c.tabs[c.active] == m.tabs[m.active]
            &&& idx == m.active && idx + 1 < n ==> c.tabs[c.active] == m.tabs[idx + 1]
            &&& idx == m.active && idx + 1 == n && n > 1 ==> c.tabs[c.active] == m.tabs[n - 2]
            &&& n > 1 ==> c.active == (if m.active < n - 1 {
                m.active
            } else {
                n - 2
            })
            &&& n == 1 ==> c.tabs == seq![tab::scratch_tab()] && c.active == 0
        }),
{
    if m.tabs.len() == 1 {
        assert(m.tabs.remove(idx) =~= Seq::<tab::TabModel>::empty());
    }
}

/// Closing takes away that tab alone: the tabs before it stay in their places, those behind
/// it move up by one. A pinned tab, or one that is not there, is not closed.
pub proof fn law_close_takes_one_tab(m: TabsModel, idx: int, i: int)
    requires
        m.wf(),
        0 <= i < m.tabs.len(),
    ensures
        ({
            let c = m.without(idx);
            &&& (idx < 0 || m.tabs.len() <= idx || m.tabs[idx].pinned) ==> c == m
            &&& 0 <= idx < m.tabs.len() && !m.tabs[idx].pinned && m.tabs.len() > 1 ==> {
                &&& c.tabs.len() == m.tabs.len() - 1
                &&& i < idx ==> c.tabs[i] == m.tabs[i]
                &&& idx < i ==> c.tabs[i - 1] == m.tabs[i]
            }
        }),
{
}

/// A closed tab with a file or text is on top of the reopen stack, with its file, its text
/// and its caret, above the entries that were there. The stack holds twenty; beyond that the
/// oldest goes. An empty untitled tab leaves no entry.
pub proof fn law_closed_tab_can_be_reopened(m: TabsModel, idx: int)
    requires
        m.wf(),
        0 <= idx < m.tabs.len(),
        !m.tabs[idx].pinned,
    ensures
        ({
            let c = m.without(idx).closed;
            let t = m.tabs[idx];
            if t.doc.path is None && t.text.len() == 0 {
                c == m.closed
            } else {
                &&& c.len() == (if m.closed.len() < 20 {
                    m.closed.len() + 1
                } else {
                    20
                })
                &&& c.last().path == t.doc.path
                &&& c.last().text == t.text
                &&& t.rope_cursor matches Some(at) ==> c.last().cursor == at
                &&& t.rope_cursor is None ==> c.last().cursor == 0
                &&& m.closed.len() < 20 ==> c.drop_last() == m.closed
                &&& m.closed.len() == 20 ==> c.drop_last() == m.closed.skip(1)
            }
        }),
{
    let t = m.tabs[idx];
    let c = m.without(idx).closed;
    if t.doc.path is Some || t.text.len() > 0 {
        let more = m.closed.push(TabsModel::closed_entry(t));
        if m.closed.len() < 20 {
            assert(c.drop_last() =~= m.closed);
        } else {
            assert(more.remove(0).drop_last() =~= m.closed.skip(1));
        }
    }
}

/// A reopened tab shows its text over its file as it is now, or untitled where there is no
/// file, and with the rope editor its caret is where it was.
pub proof fn law_reopened_tab(closed: ClosedModel, opened: Option<Opened>, rope: bool)
    ensures
        ({
            let t = reopened_tab(closed, opened, rope);
            &&& t.text == closed.text
            &&& opened matches Some(o) ==> t.doc == o.doc@ && t.disk_mtime == o.mtime
            &&& opened is None ==> t.doc.path is None && t.doc.text.len() == 0
            &&& rope ==> t.rope_cursor == Some(closed.cursor)
            &&& !rope ==> t.rope_cursor is None
            &&& !t.pinned
        }),
{
}

/// A new tab, or one that is opened, comes last and to the front; the others stay.
pub proof fn law_opened_tab_is_last_and_in_front(m: TabsModel, t: tab::TabModel, i: int)
    requires
        m.wf(),
        0 <= i < m.tabs.len(),
    ensures
        m.with_tab(t).tabs.len() == m.tabs.len() + 1,
        m.with_tab(t).tabs[i] == m.tabs[i],
        m.with_tab(t).tabs.last() == t,
        m.with_tab(t).active == m.tabs.len(),
        m.with_tab(t).closed == m.closed,
        m.with_new() == m.with_tab(tab::scratch_tab()),
        m.with_new().tabs.last().text.len() == 0,
        m.with_new().tabs.last().doc.path is None,
{
}

/// Bringing a tab to the front, or cycling, leaves the tabs as they are: only the one in
/// front is another. Cycling goes to the right neighbour, from the last to the first, and
/// back the other way.
pub proof fn law_cycle_visits_neighbours(m: TabsModel)
    requires
        m.wf(),
    ensures
        ({
            let n = m.tabs.len();
            &&& m.cycled_next() == m.focused(if m.active < n - 1 {
                m.active + 1
            } else {
                0
            })
            &&& m.cycled_prev() == m.focused(if m.active > 0 {
                m.active - 1
            } else {
                n - 1
            })
        }),
        forall|i: int|
            (#[trigger] m.focused(i)).tabs == m.tabs && m.focused(i).active == i && m.focused(
                i,
            ).closed == m.closed,
{
    lemma_next_index(m.active, m.tabs.len() as int);
}

/// Pinning turns one tab's pin over and changes nothing else; doing it twice changes
/// nothing at all.
pub proof fn law_pin_changes_one_pin(m: TabsModel, i: int, k: int)
    requires
        m.wf(),
        0 <= k < m.tabs.len(),
    ensures
        ({
            let p = m.pin_toggled(i);
            &&& p.tabs.len() == m.tabs.len()
            &&& p.active == m.active
            &&& p.closed == m.closed
            &&& k != i ==> p.tabs[k] == m.tabs[k]
            &&& k == i ==> p.tabs[k].pinned != m.tabs[k].pinned && p.tabs[k] == (tab::TabModel {
                pinned: p.tabs[k].pinned,
                ..m.tabs[k]
            })
            &&& p.pin_toggled(i) == m
        }),
{
    let p = m.pin_toggled(i);
    if 0 <= i < m.tabs.len() {
        assert(p.pin_toggled(i).tabs =~= m.tabs);
    }
}

/// A tab that is dragged lands on the place it was dropped on, and the other tabs keep
/// their order. A pinned tab, and one dropped outside, stays.
pub proof fn law_dragged_tab_lands(m: TabsModel, src: int, target: int, i: int, j: int)
    requires
        m.wf(),
        0 <= i < j < m.tabs.len(),
        i != src,
        j != src,
    ensures
        ({
            let d = m.moved(src, target);
            &&& d.closed == m.closed
            &&& 0 <= src < m.tabs.len() && 0 <= target < m.tabs.len() && !m.tabs[src].pinned ==> {
                &&& d.tabs[target] == m.tabs[src]
                &&& exists|p: int, q: int|
                    0 <= p < q < d.tabs.len() && #[trigger] d.tabs[p] == m.tabs[i]
                        && #[trigger] d.tabs[q] == m.tabs[j]
            }
            &&& src < 0 || m.tabs.len() <= src || target < 0 || m.tabs.len() <= target
                || m.tabs[src].pinned ==> d == m
        }),
{
    let d = m.moved(src, target);
    if m.can_move(src, target) {
        law_move_follows_elements(m.tabs, src, target, i);
        law_move_follows_elements(m.tabs, src, target, j);
        let p = index_after_move(src, target, i);
        let q = index_after_move(src, target, j);
        assert(d.tabs[p] == m.tabs[i]);
        assert(d.tabs[q] == m.tabs[j]);
    } else {
        assert(d.tabs[i] == m.tabs[i] && d.tabs[j] == m.tabs[j]);
    }
}

/// "Close others" keeps the chosen tab and the pinned ones, in their order, and no other.
pub proof fn law_close_others_keeps_exactly(m: TabsModel, keep: int)
    requires
        m.wf(),
        0 <= keep < m.tabs.len(),
    ensures
        ({
            let stays = |i: int| i == keep || m.tabs[i].pinned;
            let left = m.only(keep).tabs;
            &&& left.len() == tally(stays, m.tabs.len() as int)
            &&& forall|i: int|
                0 <= i < m.tabs.len() && (i == keep || m.tabs[i].pinned) ==> left[tally(stays, i)]
                    == #[trigger] m.tabs[i]
            &&& m.only(keep).closed == m.closed
        }),
{
    let stays = |i: int| i == keep || m.tabs[i].pinned;
    assert(keep_one(m.tabs, keep) =~= stays);
    lemma_survivors_places(m.tabs, stays, 0);
}

/// "Close to the right" keeps the tabs as far as the chosen one and the pinned ones behind
/// it, in their order, and no other. A tab in front that is not behind the chosen one stays
/// in front; otherwise the place in front stays, or is the last where there are fewer tabs.
pub proof fn law_close_right_keeps_exactly(m: TabsModel, after: int)
    requires
        m.wf(),
        0 <= after,
    ensures
        ({
            let stays = |i: int| i <= after || m.tabs[i].pinned;
            let c = m.without_after(after);
            &&& c.tabs.len() == tally(stays, m.tabs.len() as int)
            &&& forall|i: int|
                0 <= i < m.tabs.len() && (i <= after || m.tabs[i].pinned) ==> c.tabs[tally(stays, i)]
                    == #[trigger] m.tabs[i]
            &&& c.closed == m.closed
            &&& m.active <= after ==> c.tabs[c.active] == m.tabs[m.active]
            &&& c.active == (if m.active < c.tabs.len() {
                m.active
            } else {
                c.tabs.len() - 1
            })
        }),
{
    let stays = |i: int| i <= after || m.tabs[i].pinned;
    let keep = keep_upto(m.tabs, after);
    assert(keep =~= stays);
    lemma_survivors_places(m.tabs, keep, 0);
    lemma_tally_grows(keep, 0, m.tabs.len() as int);
    assert(keep(0));
    let k = if m.active <= after { m.active + 1 } else { 0 };
    lemma_survivors_prefix(m.tabs, keep, 0, k);
}

/// "Close all" keeps the pinned tabs, in their order, and no other; where none is pinned a
/// new, empty tab is left. The first is in front.
pub proof fn law_close_all_keeps_the_pinned(m: TabsModel)
    requires
        m.wf(),
    ensures
        ({
            let stays = |i: int| m.tabs[i].pinned;
            let c = m.only_pinned();
            let left = tally(stays, m.tabs.len() as int);
            &&& left == 0 ==> c.tabs == seq![tab::scratch_tab()]
            &&& left > 0 ==> c.tabs.len() == left
            &&& forall|i: int|
                0 <= i < m.tabs.len() && m.tabs[i].pinned ==> c.tabs[tally(stays, i)]
                    == #[trigger] m.tabs[i]
            &&& c.active == 0
            &&& c.closed == m.closed
        }),
{
    let stays = |i: int| m.tabs[i].pinned;
    assert(keep_pinned(m.tabs) =~= stays);
    lemma_survivors_places(m.tabs, stays, 0);
    assert forall|i: int| 0 <= i < m.tabs.len() && m.tabs[i].pinned implies
        m.only_pinned().tabs[tally(stays, i)] == #[trigger] m.tabs[i] by {
        lemma_tally_grows(stays, i, m.tabs.len() as int);
        lemma_tally_grows(stays, 0, i);
    }
}

/// Whatever is done to well-formed tabs leaves them well-formed: a tab in front, and
/// no more closed tabs than the limit.
pub proof fn law_tabs_stay_well_formed(m: TabsModel, i: int, j: int, t: tab::TabModel)
    requires
        m.wf(),
    ensures
        m.with_new().wf(),
        m.with_tab(t).wf(),
        m.cycled_next().wf(),
        m.cycled_prev().wf(),
        m.pin_toggled(i).wf(),
        m.moved(i, j).wf(),
        m.only(i).wf(),
        0 <= i ==> m.without_after(i).wf(),
        m.only_pinned().wf(),
        m.without(i).wf(),
{
    law_cycle_back(m);
    law_move_keeps_front(m, i, j);
    if 0 <= i < m.tabs.len() {
        law_kept_tab_is_in_front(m, i);
    }
    if 0 <= i {
        let g = keep_upto(m.tabs, i);
        lemma_survivors(m.tabs, g, 0);
        assert(g(0));
        assert(survivors(m.tabs, g, 0).contains(m.tabs[0]));
    }
}

} // verus!

//! The tab strip: what each chip shows, where a dragged tab lands, and what the
//! clicks of a frame do.
use vstd::prelude::*;
use vstd::string::*;
use crate::tab;
use crate::tab::tab_display_label;
use crate::tabs;
use crate::tabs::{CloseOutcome, TabSet, TabsModel};

verus! {

/// What one chip of the strip shows.
pub struct Chip {
    /// Its text.
    pub label: String,
    /// It is the tab in front: accented, with the pin toggle.
    pub selected: bool,
    /// Anchored: a pin before its title, a dimmed handle, no drag, no close button.
    pub pinned: bool,
    /// What its pin toggle says.
    pub pin_label: String,
}

impl Chip {
    /// Whether it has a pin toggle.
    pub open spec fn spec_has_pin_toggle(&self) -> bool {
        self.selected
    }

    /// Only the tab in front has a pin toggle.
    pub fn has_pin_toggle(&self) -> (b: bool)
        ensures
            b == self.spec_has_pin_toggle(),
    {
        self.selected
    }

    /// Whether it can be dragged, and closed by its button or the middle mouse key.
    pub open spec fn spec_movable(&self) -> bool {
        !self.pinned
    }

    /// A tab that is not pinned can be dragged, and closed by its button or the
    /// middle mouse key.
    pub fn movable(&self) -> (b: bool)
        ensures
            b == self.spec_movable(),
    {
        !self.pinned
    }
}

/// A chip shows a tab.
pub open spec fn shows(c: Chip, t: tab::TabModel, selected: bool) -> bool {
    &&& c.label@ == tab::label_of(t.title(), t.pinned)
    &&& c.selected == selected
    &&& c.pinned == t.pinned
    &&& c.pin_label@ == (if t.pinned {
        "Unpin tab"@
    } else {
        "Pin tab"@
    })
}

/// A chip shows the tab's name, with a star while it is dirty and the pin before all while it is
/// pinned; the chip of the tab in front can be pinned, and only one that is not pinned can be
/// dragged or closed.
pub proof fn law_chip_shows_the_tab(c: Chip, t: tab::TabModel, selected: bool)
    requires
        shows(c, t, selected),
    ensures
        !t.pinned ==> c.label@ == t.title(),
        t.pinned ==> c.label@.skip(1) == t.title() && c.label@[0] == tab::PIN_GLYPH,
        c.spec_has_pin_toggle() <==> selected,
        c.spec_movable() <==> !t.pinned,
        t.pinned ==> c.pin_label@ == "Unpin tab"@,
        !t.pinned ==> c.pin_label@ == "Pin tab"@,
{
    tab::law_pin_shows_in_label(t.title());
}

/// The chips of the strip, one for each tab, from left to right.
pub fn chips(tabs: &TabSet) -> (v: Vec<Chip>)
    ensures
        v@.len() == tabs@.tabs.len(),
        forall|i: int|
            0 <= i < v@.len() ==> shows(#[trigger] v@[i], tabs@.tabs[i], i == tabs@.active),
{
    let mut v: Vec<Chip> = Vec::new();
    let mut i: usize = 0;
    while i < tabs.tabs.len()
        invariant
            i == v@.len() <= tabs@.tabs.len(),
            tabs@.tabs.len() == tabs.tabs@.len(),
            forall|k: int|
                0 <= k < v@.len() ==> shows(#[trigger] v@[k], tabs@.tabs[k], k == tabs@.active),
        decreases tabs.tabs@.len() - i,
    {
        let t = &tabs.tabs[i];
        let title = t.title();
        let label = tab_display_label(title.as_str(), t.pinned);
        let pin_label = if t.pinned {
            "Unpin tab".to_string()
        } else {
            "Pin tab".to_string()
        };
        let c = Chip { label, selected: i == tabs.active, pinned: t.pinned, pin_label };
        assert(shows(c, tabs@.tabs[i as int], i == tabs@.active));
        v.push(c);
        i += 1;
    }
    v
}

/// Where a chip lies with respect to the place a tab was dropped on.
#[derive(Clone, Copy, Debug, PartialEq, Eq, Structural)]
pub struct DropSite {
    /// The place lies on the chip.
    pub hit: bool,
    /// How far the chip's centre is from it along the strip: a distance that is not
    /// negative, by the bits of its binary form, which grow with it.
    pub distance_bits: u32,
}

/// `t` is the chip that a drop goes to: the first that was hit or, where none was,
/// the first of the nearest.
pub open spec fn is_drop_target(sites: Seq<DropSite>, t: int) -> bool {
    &&& 0 <= t < sites.len()
    &&& if exists|i: int| 0 <= i < sites.len() && (#[trigger] sites[i]).hit {
        sites[t].hit && forall|i: int| 0 <= i < t ==> !(#[trigger] sites[i]).hit
    } else {
        &&& forall|i: int|
            0 <= i < sites.len() ==> sites[t].distance_bits <= (#[trigger] sites[i]).distance_bits
        &&& forall|i: int|
            0 <= i < t ==> sites[t].distance_bits < (#[trigger] sites[i]).distance_bits
    }
}

/// The reorder that dropping the tab at `src` asks for: to the place of the chip
/// that was hit or, for a drop into a gap or past an end, of the nearest chip.
/// `None` when that is its own place.
pub fn resolve_drop(src: usize, sites: &Vec<DropSite>) -> (r: Option<(usize, usize)>)
    ensures
        match r {
            Some((s, t)) => s == src && t != src && is_drop_target(sites@, t as int),
            None => sites@.len() == 0 || is_drop_target(sites@, src as int),
        },
{
    let n: usize = sites.len();
    if n == 0 {
        return None;
    }
    let mut i: usize = 0;
    let mut best: usize = 0;
    while i < n
        invariant
            i <= n == sites@.len(),
            n > 0,
            best < n,
            i > 0 ==> best < i,
            forall|k: int| 0 <= k < i ==> !(#[trigger] sites@[k]).hit,
            forall|k: int|
                0 <= k < i ==> sites@[best as int].distance_bits <= (
                #[trigger] sites@[k]).distance_bits,
            forall|k: int|
                0 <= k < best ==> sites@[best as int].distance_bits < (
                #[trigger] sites@[k]).distance_bits,
        decreases n - i,
    {
        if sites[i].hit {
            assert(is_drop_target(sites@, i as int));
            return if i == src {
                None
            } else {
                Some((src, i))
            };
        }
        if i == 0 || sites[i].distance_bits < sites[best].distance_bits {
            best = i;
        }
        i += 1;
    }
    assert(is_drop_target(sites@, best as int));
    if best == src {
        None
    } else {
        Some((src, best))
    }
}

/// A drop has one target.
pub proof fn law_drop_target_is_unique(sites: Seq<DropSite>, t: int, u: int)
    requires
        is_drop_target(sites, t),
        is_drop_target(sites, u),
    ensures
        t == u,
{
    let a = if t < u {
        t
    } else {
        u
    };
    let b = if t < u {
        u
    } else {
        t
    };
    if a < b {
        if exists|i: int| 0 <= i < sites.len() && (#[trigger] sites[i]).hit {
            assert(!sites[a].hit);
        } else {
            assert(sites[b].distance_bits < sites[a].distance_bits);
            assert(sites[a].distance_bits <= sites[b].distance_bits);
        }
    }
}

/// The gap that a drag in flight points at: before the first chip whose centre is
/// past the pointer, or behind the last chip.
pub fn insertion_gap(past_pointer: &Vec<bool>) -> (g: usize)
    ensures
        g <= past_pointer@.len(),
        forall|i: int| 0 <= i < g ==> !#[trigger] past_pointer@[i],
        g < past_pointer@.len() ==> past_pointer@[g as int],
{
    let mut i: usize = 0;
    while i < past_pointer.len()
        invariant
            i <= past_pointer@.len(),
            forall|k: int| 0 <= k < i ==> !#[trigger] past_pointer@[k],
        decreases past_pointer@.len() - i,
    {
        if past_pointer[i] {
            return i;
        }
        i += 1;
    }
    i
}

/// What was clicked on the tab strip in one frame.
#[derive(Clone, Copy, Debug)]
pub struct StripClicks {
    /// A tab was clicked.
    pub switch_to: Option<usize>,
    /// A tab was to be closed.
    pub close: Option<usize>,
    /// All but one tab were to be closed.
    pub close_others: Option<usize>,
    /// All tabs to the right of one were to be closed.
    pub close_to_right: Option<usize>,
    /// All tabs were to be closed.
    pub close_all: bool,
    /// A tab was to be pinned or unpinned.
    pub toggle_pin: Option<usize>,
    /// A tab was dropped on the place of another.
    pub reorder: Option<(usize, usize)>,
    /// A new tab was asked for.
    pub add_tab: bool,
}

/// The tabs after the clicks, each taken in turn.
pub open spec fn after_clicks(m: TabsModel, c: StripClicks) -> TabsModel {
    let m1 = match c.switch_to {
        Some(i) => m.focused(i as int),
        None => m,
    };
    let m2 = match c.close {
        Some(i) => m1.without(i as int),
        None => m1,
    };
    let m3 = match c.close_others {
        Some(i) => m2.only(i as int),
        None => m2,
    };
    let m4 = match c.close_to_right {
        Some(i) => m3.without_after(i as int),
        None => m3,
    };
    let m5 = if c.close_all {
        m4.only_pinned()
    } else {
        m4
    };
    let m6 = match c.toggle_pin {
        Some(i) => m5.pin_toggled(i as int),
        None => m5,
    };
    let m7 = match c.reorder {
        Some((src, target)) => m6.moved(src as int, target as int),
        None => m6,
    };
    if c.add_tab {
        m7.with_new()
    } else {
        m7
    }
}

/// A frame in which one thing was clicked does that one thing; one without a click does nothing.
pub proof fn law_one_click_does_one_thing(m: TabsModel, i: usize, j: usize)
    ensures
        ({
            let idle = StripClicks {
                switch_to: None,
                close: None,
                close_others: None,
                close_to_right: None,
                close_all: false,
                toggle_pin: None,
                reorder: None,
                add_tab: false,
            };
            &&& after_clicks(m, idle) == m
            &&& after_clicks(m, StripClicks { switch_to: Some(i), ..idle }) == m.focused(i as int)
            &&& after_clicks(m, StripClicks { close: Some(i), ..idle }) == m.without(i as int)
            &&& after_clicks(m, StripClicks { close_others: Some(i), ..idle }) == m.only(i as int)
            &&& after_clicks(m, StripClicks { close_to_right: Some(i), ..idle })
                == m.without_after(i as int)
            &&& after_clicks(m, StripClicks { close_all: true, ..idle }) == m.only_pinned()
            &&& after_clicks(m, StripClicks { toggle_pin: Some(i), ..idle }) == m.pin_toggled(
                i as int,
            )
            &&& after_clicks(m, StripClicks { reorder: Some((i, j)), ..idle }) == m.moved(
                i as int,
                j as int,
            )
            &&& after_clicks(m, StripClicks { add_tab: true, ..idle }) == m.with_new()
        }),
{
}

/// A tab that was clicked is in front before anything else of the frame is done.
pub proof fn law_switch_comes_first(m: TabsModel, c: StripClicks, i: usize)
    requires
        c.switch_to == Some(i),
    ensures
        after_clicks(m, c) == after_clicks(
            m.focused(i as int),
            StripClicks { switch_to: None, ..c },
        ),
{
}

/// A new tab comes after what was closed: it is in front in the end.
pub proof fn law_new_tab_comes_last(m: TabsModel, c: StripClicks, i: usize)
    requires
        c.add_tab,
        c.close == Some(i),
        c.switch_to is None,
        c.close_others is None,
        c.close_to_right is None,
        !c.close_all,
        c.toggle_pin is None,
        c.reorder is None,
    ensures
        after_clicks(m, c) == m.without(i as int).with_new(),
{
}

/// A drop on a chip goes to that chip, the first where several were hit; a drop beside all of
/// them goes to the nearest.
pub proof fn law_drop_goes_to_the_hit_or_the_nearest(sites: Seq<DropSite>, t: int, i: int)
    requires
        is_drop_target(sites, t),
        0 <= i < sites.len(),
    ensures
        0 <= t < sites.len(),
        sites[i].hit ==> sites[t].hit && t <= i,
        !sites[t].hit ==> !sites[i].hit && sites[t].distance_bits <= sites[i].distance_bits,
        !sites[t].hit && sites[i].distance_bits == sites[t].distance_bits ==> t <= i,
{
}

/// The outcome of a close among the clicks.
pub open spec fn close_outcome_of(m: TabsModel, c: StripClicks, r: Option<CloseOutcome>) -> bool {
    let m1 = match c.switch_to {
        Some(i) => m.focused(i as int),
        None => m,
    };
    match (c.close, r) {
        (None, None) => true,
        (Some(i), Some(CloseOutcome::Absent)) => i >= m1.tabs.len(),
        (Some(i), Some(CloseOutcome::Pinned)) => i < m1.tabs.len() && m1.tabs[i as int].pinned,
        (Some(i), Some(CloseOutcome::Closed(place))) => m1.can_close(i as int) && match place {
            Some((p, cur)) => {
                let entry = TabsModel::closed_entry(m1.tabs[i as int]);
                entry.path == Some(p@) && entry.cursor == cur
            },
            None => m1.tabs[i as int].doc.path is None,
        },
        _ => false,
    }
}

/// A click on a close button is answered by what became of that tab: a pinned one stays, one that
/// is not there is not closed, and a closed one names its file. No click has no answer.
pub proof fn law_close_click_is_answered(m: TabsModel, c: StripClicks, r: Option<CloseOutcome>)
    requires
        c.switch_to is None,
        close_outcome_of(m, c, r),
    ensures
        r is None <==> c.close is None,
        c.close matches Some(i) ==> {
            &&& r->0 is Absent <==> i >= m.tabs.len()
            &&& r->0 is Pinned <==> i < m.tabs.len() && m.tabs[i as int].pinned
            &&& r->0 is Closed <==> i < m.tabs.len() && !m.tabs[i as int].pinned
            &&& r->0 matches CloseOutcome::Closed(Some((p, _))) ==> m.tabs[i as int].doc.path
                == Some(p@)
            &&& r->0 matches CloseOutcome::Closed(None) ==> m.tabs[i as int].doc.path is None
        },
{
}

/// Do what was clicked on the strip: switch, close, close others, close to the
/// right, close all, pin, reorder, add, in this order.
pub fn apply_clicks(tabs: &mut TabSet, c: &StripClicks) -> (r: Option<CloseOutcome>)
    requires
        old(tabs).wf(),
        c.switch_to matches Some(i) ==> i < old(tabs)@.tabs.len(),
    ensures
        final(tabs).wf(),
        final(tabs)@ == after_clicks(old(tabs)@, *c),
        close_outcome_of(old(tabs)@, *c, r),
{
    match c.switch_to {
        Some(i) => {
            tabs.active = i;
        },
        None => {},
    }
    let r = match c.close {
        Some(i) => Some(tabs.close_tab(i)),
        None => None,
    };
    match c.close_others {
        Some(i) => {
            tabs.close_all_tabs_except(i);
        },
        None => {},
    }
    match c.close_to_right {
        Some(i) => {
            tabs.close_tabs_after(i);
        },
        None => {},
    }
    if c.close_all {
        tabs.close_all_tabs();
    }
    match c.toggle_pin {
        Some(i) => {
            tabs.toggle_pin(i);
        },
        None => {},
    }
    match c.reorder {
        Some((src, target)) => {
            tabs.move_tab(src, target);
        },
        None => {},
    }
    if c.add_tab {
        tabs.new_tab();
    }
    r
}

} // verus!

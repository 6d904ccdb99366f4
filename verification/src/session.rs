//! What survives a restart: the list of open files and the unsaved content.
use vstd::prelude::*;
use vstd::relations::*;
use vstd::seq_lib::*;
use vstd::string::*;
use crate::lines;
use crate::lines::{find_lead, read_lines, text_of};
use crate::tab;
use crate::tab::clone_opt;
use crate::tabs;
use crate::tabs::TabSet;
use crate::text::{chars_of, str_eq, string_of};

verus! {

/// The order of strings: by the first character in which they differ, a prefix
/// before what it begins.
pub open spec fn str_le(a: Seq<char>, b: Seq<char>) -> bool
    decreases a.len(),
{
    if a.len() == 0 {
        true
    } else if b.len() == 0 {
        false
    } else if a[0] == b[0] {
        str_le(a.drop_first(), b.drop_first())
    } else {
        (a[0] as int) < (b[0] as int)
    }
}

/// The order of strings, as a relation.
pub open spec fn by_name() -> spec_fn(Seq<char>, Seq<char>) -> bool {
    |a: Seq<char>, b: Seq<char>| str_le(a, b)
}

proof fn lemma_str_le_reflexive(a: Seq<char>)
    ensures
        str_le(a, a),
    decreases a.len(),
{
    if a.len() > 0 {
        lemma_str_le_reflexive(a.drop_first());
    }
}

proof fn lemma_str_le_total(a: Seq<char>, b: Seq<char>)
    ensures
        str_le(a, b) || str_le(b, a),
        str_le(a, b) && str_le(b, a) ==> a == b,
    decreases a.len(),
{
    if a.len() > 0 && b.len() > 0 && a[0] == b[0] {
        lemma_str_le_total(a.drop_first(), b.drop_first());
        if str_le(a, b) && str_le(b, a) {
            assert(a =~= seq![a[0]] + a.drop_first());
            assert(b =~= seq![b[0]] + b.drop_first());
        }
    } else if a.len() == 0 && b.len() == 0 {
        assert(a =~= b);
    }
}

proof fn lemma_str_le_transitive(a: Seq<char>, b: Seq<char>, c: Seq<char>)
    requires
        str_le(a, b),
        str_le(b, c),
    ensures
        str_le(a, c),
    decreases a.len(),
{
    if a.len() > 0 && b.len() > 0 && c.len() > 0 && a[0] == b[0] && b[0] == c[0] {
        lemma_str_le_transitive(a.drop_first(), b.drop_first(), c.drop_first());
    }
}

/// The order of strings is total.
pub proof fn lemma_by_name_is_total()
    ensures
        total_ordering(by_name()),
{
    let r = by_name();
    assert forall|a: Seq<char>| #[trigger] r(a, a) by {
        lemma_str_le_reflexive(a);
    }
    assert forall|a: Seq<char>, b: Seq<char>| #[trigger] r(a, b) && #[trigger] r(b, a) implies a
        == b by {
        lemma_str_le_total(a, b);
    }
    assert forall|a: Seq<char>, b: Seq<char>, c: Seq<char>| #[trigger]
        r(a, b) && #[trigger] r(b, c) implies r(a, c) by {
        lemma_str_le_transitive(a, b, c);
    }
    assert forall|a: Seq<char>, b: Seq<char>| #[trigger] r(a, b) || #[trigger] r(b, a) by {
        lemma_str_le_total(a, b);
    }
}

/// Names that agree up to a character are ordered by that character, and a name comes before
/// the longer ones that it begins.
pub proof fn law_names_go_by_the_first_difference(
    same: Seq<char>,
    x: char,
    y: char,
    a: Seq<char>,
    b: Seq<char>,
)
    requires
        (x as int) < (y as int),
    ensures
        str_le(same + seq![x] + a, same + seq![y] + b),
        !str_le(same + seq![y] + b, same + seq![x] + a),
        str_le(same, same + a),
        a.len() > 0 ==> !str_le(same + a, same),
    decreases same.len(),
{
    let p = same + seq![x] + a;
    let q = same + seq![y] + b;
    if same.len() == 0 {
        assert(p[0] == x && q[0] == y);
    } else {
        let rest = same.drop_first();
        law_names_go_by_the_first_difference(rest, x, y, a, b);
        assert(p.drop_first() =~= rest + seq![x] + a);
        assert(q.drop_first() =~= rest + seq![y] + b);
        assert((same + a).drop_first() =~= rest + a);
        assert(p[0] == same[0] && q[0] == same[0] && (same + a)[0] == same[0]);
    }
}

fn is_le(a: &Vec<char>, b: &Vec<char>) -> (r: bool)
    ensures
        r == str_le(a@, b@),
{
    let mut i: usize = 0;
    assert(a@.skip(0) =~= a@);
    assert(b@.skip(0) =~= b@);
    while i < a.len() && i < b.len()
        invariant
            i <= a@.len(),
            i <= b@.len(),
            str_le(a@, b@) == str_le(a@.skip(i as int), b@.skip(i as int)),
        decreases a@.len() - i,
    {
        assert(a@.skip(i as int).drop_first() =~= a@.skip(i + 1));
        assert(b@.skip(i as int).drop_first() =~= b@.skip(i + 1));
        let x: char = a[i];
        let y: char = b[i];
        if x != y {
            return x < y;
        }
        assert(a@[i as int] == b@[i as int]);
        i += 1;
    }
    i == a.len()
}

/// Put `x` into a sorted vector.
fn insert_sorted(v: &mut Vec<Vec<char>>, x: Vec<char>)
    requires
        sorted_by(lines::views(old(v)@), by_name()),
    ensures
        sorted_by(lines::views(final(v)@), by_name()),
        lines::views(final(v)@).to_multiset() == lines::views(old(v)@).push(x@).to_multiset(),
{
    let ghost before = lines::views(v@);
    let mut i: usize = 0;
    while i < v.len() && is_le(&v[i], &x)
        invariant
            before == lines::views(v@),
            i <= v@.len(),
            forall|k: int| 0 <= k < i ==> str_le(#[trigger] before[k], x@),
        decreases v@.len() - i,
    {
        assert(before[i as int] == v@[i as int]@);
        i += 1;
    }
    proof {
        lemma_by_name_is_total();
        let r = by_name();
        let after = before.insert(i as int, x@);
        if i < before.len() {
            assert(before[i as int] == v@[i as int]@);
            lemma_str_le_total(before[i as int], x@);
        }
        assert forall|a: int, b: int| 0 <= a < b < after.len() implies #[trigger] r(
            after[a],
            after[b],
        ) by {
            let u = if a < i {
                a
            } else {
                a - 1
            };
            let w = if b < i {
                b
            } else {
                b - 1
            };
            if a != i && b != i {
                assert(r(before[u], before[w]));
            } else if b == i {
                assert(str_le(before[a], x@));
            } else {
                assert(str_le(x@, before[i as int]));
                if w > i {
                    assert(r(before[i as int], before[w]));
                    lemma_str_le_transitive(x@, before[i as int], before[w]);
                }
            }
        }
        broadcast use group_to_multiset_ensures;

        assert(before.insert(i as int, x@).to_multiset() =~= before.push(x@).to_multiset());
    }
    v.insert(i, x);
    assert(lines::views(v@) =~= before.insert(i as int, x@));
}

/// The files of the first `n` tabs, in tab order.
pub open spec fn paths_upto(tabs: Seq<tab::TabModel>, n: int) -> Seq<Seq<char>>
    decreases n,
{
    if n <= 0 {
        Seq::empty()
    } else {
        match tabs[n - 1].doc.path {
            Some(p) => paths_upto(tabs, n - 1).push(p),
            None => paths_upto(tabs, n - 1),
        }
    }
}

/// The files of the tabs, in tab order.
pub open spec fn paths(tabs: Seq<tab::TabModel>) -> Seq<Seq<char>> {
    paths_upto(tabs, tabs.len() as int)
}

/// The signature of the open files: their paths, sorted, one to a line.
pub open spec fn signature(tabs: Seq<tab::TabModel>) -> Seq<char> {
    lines::join(paths(tabs).sort_by(by_name()))
}

/// A stable signature of the open files, to notice when they change.
pub fn session_signature(open: &TabSet) -> (s: String)
    ensures
        s@ == signature(open@.tabs),
{
    let mut v: Vec<Vec<char>> = Vec::new();
    let mut i: usize = 0;
    let ghost m = open@.tabs;
    assert(lines::views(v@) =~= Seq::<Seq<char>>::empty());
    while i < open.tabs.len()
        invariant
            m == open@.tabs,
            m.len() == open.tabs@.len(),
            i <= m.len(),
            sorted_by(lines::views(v@), by_name()),
            lines::views(v@).to_multiset() == paths_upto(m, i as int).to_multiset(),
        decreases m.len() - i,
    {
        assert(open.tabs@[i as int]@ == m[i as int]);
        match &open.tabs[i].doc.path {
            Some(p) => {
                let ghost before = lines::views(v@);
                let x = chars_of(p.as_str());
                insert_sorted(&mut v, x);
                proof {
                    broadcast use group_to_multiset_ensures;

                    assert(before.push(p@).to_multiset() =~= paths_upto(m, i as int).push(
                        p@,
                    ).to_multiset());
                }
            },
            None => {},
        }
        i += 1;
    }
    proof {
        lemma_by_name_is_total();
        paths(m).lemma_sort_by_ensures(by_name());
        lemma_sorted_unique(lines::views(v@), paths(m).sort_by(by_name()), by_name());
    }
    text_of(&v, false)
}

/// The open files are those of the tabs, in their order: each tab with a file has its place
/// behind those of the tabs before it, and there are no others.
pub proof fn law_paths_are_those_of_the_tabs(tabs: Seq<tab::TabModel>)
    ensures
        ({
            let filed = |i: int| tabs[i].doc.path is Some;
            &&& paths(tabs).len() == tabs::tally(filed, tabs.len() as int)
            &&& forall|i: int|
                0 <= i < tabs.len() && (#[trigger] tabs[i]).doc.path is Some ==> paths(
                    tabs,
                )[tabs::tally(filed, i)] == tabs[i].doc.path->0
        }),
{
    lemma_paths_upto(tabs, tabs.len() as int);
}

proof fn lemma_paths_upto(tabs: Seq<tab::TabModel>, n: int)
    requires
        0 <= n <= tabs.len(),
    ensures
        ({
            let filed = |i: int| tabs[i].doc.path is Some;
            &&& paths_upto(tabs, n).len() == tabs::tally(filed, n)
            &&& forall|i: int|
                0 <= i < n && (#[trigger] tabs[i]).doc.path is Some ==> 0 <= tabs::tally(filed, i)
                    < paths_upto(tabs, n).len() && paths_upto(tabs, n)[tabs::tally(filed, i)]
                    == tabs[i].doc.path->0
        }),
    decreases n,
{
    if n > 0 {
        lemma_paths_upto(tabs, n - 1);
    }
}

/// The signature tells sessions apart: where it is the same, the same files are open, for
/// paths that are not empty and hold no line feed.
pub proof fn law_signature_tells_files_apart(a: Seq<tab::TabModel>, b: Seq<tab::TabModel>)
    requires
        forall|i: int|
            0 <= i < paths(a).len() ==> (#[trigger] paths(a)[i]).len() > 0 && lines::one_line(
                paths(a)[i],
            ),
        forall|i: int|
            0 <= i < paths(b).len() ==> (#[trigger] paths(b)[i]).len() > 0 && lines::one_line(
                paths(b)[i],
            ),
        signature(a) == signature(b),
    ensures
        paths(a).to_multiset() == paths(b).to_multiset(),
{
    lemma_signature_lines(a);
    lemma_signature_lines(b);
    let x = paths(a).sort_by(by_name());
    let y = paths(b).sort_by(by_name());
    assert(x =~= y);
}

proof fn lemma_signature_lines(a: Seq<tab::TabModel>)
    requires
        forall|i: int|
            0 <= i < paths(a).len() ==> (#[trigger] paths(a)[i]).len() > 0 && lines::one_line(
                paths(a)[i],
            ),
    ensures
        ({
            let x = paths(a).sort_by(by_name());
            &&& x.to_multiset() == paths(a).to_multiset()
            &&& signature(a).len() == 0 ==> x.len() == 0
            &&& signature(a).len() > 0 ==> x == lines::split(signature(a))
        }),
{
    let x = paths(a).sort_by(by_name());
    lemma_by_name_is_total();
    paths(a).lemma_sort_by_ensures(by_name());
    broadcast use group_to_multiset_ensures;

    assert forall|i: int| 0 <= i < x.len() implies (#[trigger] x[i]).len() > 0 && lines::one_line(
        x[i],
    ) by {
        assert(x.contains(x[i]));
        assert(x.to_multiset().count(x[i]) > 0);
        assert(paths(a).to_multiset().count(x[i]) > 0);
        assert(paths(a).contains(x[i]));
        let k = choose|k: int| 0 <= k < paths(a).len() && paths(a)[k] == x[i];
        assert(paths(a)[k].len() > 0);
    }
    if x.len() > 0 {
        assert(lines::all_one_line(x));
        lines::law_split_join(x);
        if signature(a).len() == 0 {
            assert(x[0].len() > 0);
            assert(lines::split(signature(a))[0].len() == 0);
        }
    }
}

/// The signature depends on which files are open, not on the order of their tabs.
pub proof fn law_signature_ignores_order(a: Seq<tab::TabModel>, b: Seq<tab::TabModel>)
    requires
        paths(a).to_multiset() == paths(b).to_multiset(),
    ensures
        signature(a) == signature(b),
{
    lemma_by_name_is_total();
    paths(a).lemma_sort_by_ensures(by_name());
    paths(b).lemma_sort_by_ensures(by_name());
    lemma_sorted_unique(paths(a).sort_by(by_name()), paths(b).sort_by(by_name()), by_name());
}

/// Whether the list of open files is written: when the session is to be restored and the
/// files are other than those that were written last.
pub fn session_due(restore_session: bool, sig: &str, last: &str) -> (b: bool)
    ensures
        b == (restore_session && sig@ != last@),
{
    restore_session && !str_eq(sig, last)
}

/// The files of the open tabs, in tab order.
pub fn open_paths(open: &TabSet) -> (v: Vec<String>)
    ensures
        str_views(v@) == paths(open@.tabs),
{
    let mut v: Vec<String> = Vec::new();
    let mut i: usize = 0;
    let ghost m = open@.tabs;
    assert(str_views(v@) =~= Seq::<Seq<char>>::empty());
    while i < open.tabs.len()
        invariant
            m == open@.tabs,
            m.len() == open.tabs@.len(),
            i <= m.len(),
            str_views(v@) == paths_upto(m, i as int),
        decreases m.len() - i,
    {
        assert(open.tabs@[i as int]@ == m[i as int]);
        match &open.tabs[i].doc.path {
            Some(p) => {
                let ghost before = str_views(v@);
                v.push(p.clone());
                assert(str_views(v@) =~= before.push(p@));
            },
            None => {},
        }
        i += 1;
    }
    v
}

/// The contents of a sequence of strings.
pub open spec fn str_views(v: Seq<String>) -> Seq<Seq<char>> {
    Seq::new(v.len(), |i: int| v[i]@)
}

/// The text of the session file: one path to a line.
pub fn session_text(files: &Vec<String>) -> (s: String)
    ensures
        s@ == lines::join(str_views(files@)),
{
    let mut v: Vec<Vec<char>> = Vec::new();
    let mut i: usize = 0;
    assert(lines::views(v@) =~= str_views(files@).take(0));
    while i < files.len()
        invariant
            i <= files@.len(),
            lines::views(v@) == str_views(files@).take(i as int),
        decreases files@.len() - i,
    {
        let x = chars_of(files[i].as_str());
        proof {
            lines::lemma_views_push(v@, x);
            let t = str_views(files@);
            assert(t.take(i + 1) =~= t.take(i as int).push(t[i as int]));
        }
        v.push(x);
        i += 1;
    }
    assert(str_views(files@).take(i as int) =~= str_views(files@));
    text_of(&v, false)
}

/// The lines of the first `n` that are not blank.
pub open spec fn filled_upto(v: Seq<Seq<char>>, n: int) -> Seq<Seq<char>>
    decreases n,
{
    if n <= 0 {
        Seq::empty()
    } else if lines::blank(v[n - 1]) {
        filled_upto(v, n - 1)
    } else {
        filled_upto(v, n - 1).push(v[n - 1])
    }
}

/// The paths that a session file lists: its lines that are not blank.
pub open spec fn listed(s: Seq<char>) -> Seq<Seq<char>> {
    filled_upto(lines::text_lines(s), lines::text_lines(s).len() as int)
}

/// The paths that the text of a session file lists.
pub fn parse_session(text: &str) -> (v: Vec<String>)
    ensures
        str_views(v@) == listed(text@),
{
    let (body, _) = read_lines(text);
    let mut v: Vec<String> = Vec::new();
    let mut i: usize = 0;
    let ghost t = lines::text_lines(text@);
    assert(t == lines::views(body@));
    assert(str_views(v@) =~= Seq::<Seq<char>>::empty());
    while i < body.len()
        invariant
            t == lines::views(body@),
            i <= body@.len(),
            str_views(v@) == filled_upto(t, i as int),
        decreases body@.len() - i,
    {
        assert(t[i as int] == body@[i as int]@);
        let n: usize = body[i].len();
        if find_lead(&body[i]) < n {
            let ghost before = str_views(v@);
            let p = string_of(&body[i], 0, n);
            v.push(p);
            assert(p@ =~= t[i as int]);
            assert(str_views(v@) =~= before.push(t[i as int]));
        } else {
            proof {
                lines::lemma_lead_from(t[i as int], 0);
            }
        }
        i += 1;
    }
    v
}

/// A session file lists its lines that hold something visible, and nothing else.
pub proof fn law_listed_are_the_filled_lines(s: Seq<char>, p: Seq<char>)
    ensures
        listed(s).contains(p) <==> !lines::blank(p) && lines::text_lines(s).contains(p),
{
    lemma_filled_contains(lines::text_lines(s), lines::text_lines(s).len() as int, p);
    let v = lines::text_lines(s);
    assert(v.take(v.len() as int) =~= v);
}

proof fn lemma_filled_contains(v: Seq<Seq<char>>, n: int, p: Seq<char>)
    requires
        0 <= n <= v.len(),
    ensures
        filled_upto(v, n).contains(p) <==> !lines::blank(p) && v.take(n).contains(p),
    decreases n,
{
    if n > 0 {
        lemma_filled_contains(v, n - 1, p);
        let before = filled_upto(v, n - 1);
        let now = filled_upto(v, n);
        let l = v[n - 1];
        assert(v.take(n) =~= v.take(n - 1).push(l));
        lemma_push_contains(v.take(n - 1), l, p);
        lemma_push_contains(before, l, p);
    }
}

proof fn lemma_push_contains(v: Seq<Seq<char>>, l: Seq<char>, p: Seq<char>)
    ensures
        v.push(l).contains(p) <==> v.contains(p) || l == p,
{
    let w = v.push(l);
    if v.contains(p) {
        let k = choose|k: int| 0 <= k < v.len() && v[k] == p;
        assert(w[k] == p);
    }
    if l == p {
        assert(w[v.len() as int] == p);
    }
    if w.contains(p) {
        let k = choose|k: int| 0 <= k < w.len() && w[k] == p;
        assert(k < v.len() ==> v[k] == p);
    }
}

/// A path that a session file can list: not blank, on one line, and not ending in a
/// carriage return.
pub open spec fn listable(p: Seq<char>) -> bool {
    &&& !lines::blank(p)
    &&& lines::one_line(p)
    &&& p.last() != '\r'
}

/// Reading the session file back gives the paths that were written.
pub proof fn law_session_file_round_trip(v: Seq<Seq<char>>)
    requires
        forall|i: int| 0 <= i < v.len() ==> listable(#[trigger] v[i]),
    ensures
        listed(lines::join(v)) == v,
{
    let s = lines::join(v);
    if v.len() == 0 {
        assert(listed(s) =~= v);
    } else {
        assert(lines::all_one_line(v)) by {
            assert forall|i: int| 0 <= i < v.len() implies lines::one_line(#[trigger] v[i]) by {
                assert(listable(v[i]));
            }
        }
        assert(listable(v[v.len() - 1]));
        lines::lemma_body_rebuild(v, false);
        assert(lines::rebuild(v, false) == s);
        assert(v.last().len() > 0);
        if v.len() > 1 {
            assert(s.len() > 0);
        }
        let t = lines::text_lines(s);
        assert forall|i: int| 0 <= i < v.len() implies t[i] == v[i] by {
            assert(listable(v[i]));
        }
        assert(t =~= v);
        lemma_filled_all(v, v.len() as int);
    }
}

proof fn lemma_filled_all(v: Seq<Seq<char>>, n: int)
    requires
        0 <= n <= v.len(),
        forall|i: int| 0 <= i < v.len() ==> listable(#[trigger] v[i]),
    ensures
        filled_upto(v, n) == v.take(n),
    decreases n,
{
    if n > 0 {
        lemma_filled_all(v, n - 1);
        assert(listable(v[n - 1]));
        assert(v.take(n) =~= v.take(n - 1).push(v[n - 1]));
    } else {
        assert(filled_upto(v, n) =~= v.take(n));
    }
}

/// One tab in the session manifest.
pub struct TabSnapshot {
    /// Its file, if it has one.
    pub path: Option<String>,
    /// It has unsaved edits.
    pub dirty: bool,
    /// The name under which its content was backed up.
    pub backup: Option<String>,
    /// Its caret.
    pub cursor: usize,
}

/// What the manifest says of a tab whose content was backed up under `written`, if
/// it was.
pub open spec fn snapshot_of(s: TabSnapshot, t: tab::TabModel, written: Option<String>) -> bool {
    &&& tab::opt_view(s.path) == t.doc.path
    &&& s.dirty == t.dirty()
    &&& tab::opt_view(s.backup) == (if t.unsaved() {
        tab::opt_view(written)
    } else {
        None
    })
    &&& s.cursor == tabs::TabsModel::closed_entry(t).cursor
}

/// The manifest keeps of a tab its file, whether it has unsaved edits, its caret, and, for
/// one whose content would be lost, the backup that was written; no other tab names one.
pub proof fn law_snapshot_keeps(s: TabSnapshot, t: tab::TabModel, written: Option<String>)
    requires
        snapshot_of(s, t, written),
    ensures
        tab::opt_view(s.path) == t.doc.path,
        s.dirty <==> t.text != t.doc.text,
        t.text != t.doc.text || (t.doc.path is None && t.text.len() > 0) ==> tab::opt_view(s.backup)
            == tab::opt_view(written),
        t.text == t.doc.text && (t.doc.path is Some || t.text.len() == 0) ==> s.backup is None,
        t.rope_cursor matches Some(c) ==> s.cursor == c,
        t.rope_cursor is None ==> s.cursor == 0,
{
}

/// The session manifest.
pub struct Manifest {
    /// The tabs, from left to right.
    pub tabs: Vec<TabSnapshot>,
    /// The tab in front.
    pub active: usize,
}

/// Which tabs need their content backed up: those with unsaved edits and the
/// untitled ones with text.
pub fn backup_plan(open: &TabSet) -> (v: Vec<bool>)
    ensures
        v@.len() == open@.tabs.len(),
        forall|i: int| 0 <= i < v@.len() ==> #[trigger] v@[i] == open@.tabs[i].unsaved(),
{
    let mut v: Vec<bool> = Vec::new();
    let mut i: usize = 0;
    while i < open.tabs.len()
        invariant
            i == v@.len() <= open.tabs@.len(),
            open@.tabs.len() == open.tabs@.len(),
            forall|k: int| 0 <= k < v@.len() ==> #[trigger] v@[k] == open@.tabs[k].unsaved(),
        decreases open.tabs@.len() - i,
    {
        v.push(open.tabs[i].is_unsaved());
        i += 1;
    }
    v
}

/// The manifest of the open tabs. `written` names, for each tab, the backup that was
/// written of it; a tab that needs none gets none, and one whose backup could not
/// be written has none either.
pub fn snapshot_session_backups(open: &TabSet, written: &Vec<Option<String>>) -> (m: Manifest)
    requires
        open.wf(),
        written@.len() == open@.tabs.len(),
    ensures
        m.active == open@.active,
        m.tabs@.len() == open@.tabs.len(),
        forall|i: int|
            0 <= i < m.tabs@.len() ==> snapshot_of(
                #[trigger] m.tabs@[i],
                open@.tabs[i],
                written@[i],
            ),
{
    let mut v: Vec<TabSnapshot> = Vec::new();
    let mut i: usize = 0;
    while i < open.tabs.len()
        invariant
            i == v@.len() <= open.tabs@.len(),
            open@.tabs.len() == open.tabs@.len() == written@.len(),
            forall|k: int|
                0 <= k < v@.len() ==> snapshot_of(#[trigger] v@[k], open@.tabs[k], written@[k]),
        decreases open.tabs@.len() - i,
    {
        let t = &open.tabs[i];
        let cursor: usize = match t.rope_cursor {
            Some(c) => c,
            None => 0,
        };
        let backup = if t.is_unsaved() {
            clone_opt(&written[i])
        } else {
            None
        };
        let s = TabSnapshot { path: clone_opt(&t.doc.path), dirty: t.is_dirty(), backup, cursor };
        assert(snapshot_of(s, open@.tabs[i as int], written@[i as int]));
        v.push(s);
        i += 1;
    }
    Manifest { tabs: v, active: open.active }
}

/// Whether some tab holds unsaved content.
pub fn has_unsaved(open: &TabSet) -> (b: bool)
    ensures
        b == (exists|i: int| 0 <= i < open@.tabs.len() && (#[trigger] open@.tabs[i]).unsaved()),
{
    let mut i: usize = 0;
    while i < open.tabs.len()
        invariant
            i <= open.tabs@.len(),
            open@.tabs.len() == open.tabs@.len(),
            forall|k: int| 0 <= k < i ==> !(#[trigger] open@.tabs[k]).unsaved(),
        decreases open.tabs@.len() - i,
    {
        if open.tabs[i].is_unsaved() {
            assert(open@.tabs[i as int].unsaved());
            return true;
        }
        i += 1;
    }
    false
}

/// Whether the periodic backup runs now: it is switched on, its interval has
/// passed, something is unsaved, and that has changed since the last backup.
pub fn backup_due(enabled: bool, due: bool, unsaved: bool, sig: u64, last_sig: u64) -> (b: bool)
    ensures
        b == (enabled && due && unsaved && sig != last_sig),
{
    enabled && due && unsaved && sig != last_sig
}

/// Whether a periodic job is due: it never ran, or `interval` has passed since.
pub fn interval_passed(elapsed_ms: Option<u64>, interval_ms: u64) -> (b: bool)
    ensures
        b == (match elapsed_ms {
            Some(e) => e >= interval_ms,
            None => true,
        }),
{
    match elapsed_ms {
        Some(e) => e >= interval_ms,
        None => true,
    }
}

/// How long, in milliseconds, between two backups of unsaved content.
pub const BACKUP_INTERVAL_MS: u64 = 4000;

/// How long, in milliseconds, between two automatic saves.
pub const AUTOSAVE_INTERVAL_MS: u64 = 3000;

/// Whether automatic saving writes tab `t`: it belongs to a file and is dirty.
pub open spec fn autosaved(t: tab::TabModel) -> bool {
    t.doc.path is Some && t.dirty()
}

/// Automatic saving writes edits to the file they belong to, and never asks for one: an
/// untitled tab is left, and so is one that shows the saved text.
pub proof fn law_autosave_writes_edits_to_their_file(t: tab::TabModel)
    ensures
        autosaved(t) <==> t.doc.path is Some && t.text != t.doc.text,
{
}

/// The tabs that automatic saving writes, in order: dirty ones that belong to a
/// file. An untitled tab is never saved by itself.
pub fn autosave_plan(open: &TabSet) -> (v: Vec<usize>)
    ensures
        forall|k: int|
            0 <= k < v@.len() ==> #[trigger] v@[k] < open@.tabs.len() && autosaved(
                open@.tabs[v@[k] as int],
            ),
        forall|i: int|
            0 <= i < open@.tabs.len() && autosaved(#[trigger] open@.tabs[i]) ==> exists|k: int|
                0 <= k < v@.len() && #[trigger] v@[k] == i,
        forall|j: int, k: int| 0 <= j < k < v@.len() ==> #[trigger] v@[j] < #[trigger] v@[k],
{
    let mut v: Vec<usize> = Vec::new();
    let mut i: usize = 0;
    while i < open.tabs.len()
        invariant
            i <= open.tabs@.len(),
            open@.tabs.len() == open.tabs@.len(),
            forall|k: int|
                0 <= k < v@.len() ==> #[trigger] v@[k] < i && autosaved(
                    open@.tabs[v@[k] as int],
                ),
            forall|j: int|
                0 <= j < i && autosaved(#[trigger] open@.tabs[j]) ==> exists|k: int|
                    0 <= k < v@.len() && #[trigger] v@[k] == j,
            forall|j: int, k: int| 0 <= j < k < v@.len() ==> #[trigger] v@[j] < #[trigger] v@[k],
        decreases open.tabs@.len() - i,
    {
        if open.tabs[i].doc.path.is_some() && open.tabs[i].is_dirty() {
            let ghost before = v@;
            v.push(i);
            proof {
                assert(autosaved(open@.tabs[i as int]));
                assert forall|j: int|
                    0 <= j < i + 1 && autosaved(#[trigger] open@.tabs[j]) implies exists|k: int|
                    0 <= k < v@.len() && #[trigger] v@[k] == j by {
                    if j < i {
                        let k = choose|k: int| 0 <= k < before.len() && #[trigger] before[k] == j;
                        assert(v@[k] == j);
                    } else {
                        assert(v@[before.len() as int] == j);
                    }
                }
            }
        }
        i += 1;
    }
    v
}

} // verus!

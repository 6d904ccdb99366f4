//! Restoring tabs at launch: from the session manifest, from the list of files, and
//! from the command line.
use vstd::prelude::*;
use vstd::string::*;
use crate::session;
use crate::find;
use crate::tab;
use crate::tab::{EditorTab, Opened};
use crate::tabs;
use crate::tabs::TabSet;

verus! {

/// What was found of a tab's backed-up content.
pub enum Backup {
    /// The manifest names none.
    Absent,
    /// It could not be read.
    Unreadable,
    /// The content.
    Content(String),
}

/// One entry of the session manifest, with what was found of it on disk.
pub struct RestoreEntry {
    /// Its path passed the restore guard: it exists, is local, and lies under one of
    /// the directories of the last session.
    pub safe: bool,
    /// Its backed-up content.
    pub backup: Backup,
    /// Its file, where there is one and it could be read.
    pub opened: Option<Opened>,
    /// The identity of its file for the host's file system.
    pub key: String,
}

/// The directories under which the first `n` paths of a session may lie: the parents of
/// those among them that are no network paths, in order.
pub open spec fn roots_upto(
    parents: Seq<Option<Seq<char>>>,
    unc: Seq<bool>,
    n: int,
) -> Seq<Seq<char>>
    decreases n,
{
    if n <= 0 {
        Seq::empty()
    } else {
        let before = roots_upto(parents, unc, n - 1);
        match parents[n - 1] {
            Some(p) => if unc[n - 1] {
                before
            } else {
                before.push(p)
            },
            None => before,
        }
    }
}

/// The directories under which a path may lie to be restored: for each path that the
/// session lists, `parents` holds its parent, where it has one, and `unc` says whether it
/// is a network path. Those are left out, so that none of them vouches for itself.
pub fn restore_roots(parents: &Vec<Option<String>>, unc: &Vec<bool>) -> (v: Vec<String>)
    requires
        parents@.len() == unc@.len(),
    ensures
        session::str_views(v@) == roots_upto(
            key_views(parents@),
            unc@,
            parents@.len() as int,
        ),
{
    let ghost all = key_views(parents@);
    let mut v: Vec<String> = Vec::new();
    assert(session::str_views(v@) =~= Seq::<Seq<char>>::empty());
    let mut i: usize = 0;
    while i < parents.len()
        invariant
            i <= parents@.len() == unc@.len(),
            all == key_views(parents@),
            session::str_views(v@) == roots_upto(all, unc@, i as int),
        decreases parents@.len() - i,
    {
        assert(all[i as int] == tab::opt_view(parents@[i as int]));
        match &parents[i] {
            Some(p) => if !unc[i] {
                let ghost before = session::str_views(v@);
                v.push(p.as_str().to_string());
                assert(session::str_views(v@) =~= before.push(p@));
            },
            None => {},
        }
        i += 1;
    }
    v
}

/// A directory is a root exactly when it is the parent of a listed path that is no network
/// path.
pub proof fn law_roots_are_local_parents(
    parents: Seq<Option<Seq<char>>>,
    unc: Seq<bool>,
    n: int,
    d: Seq<char>,
)
    requires
        0 <= n <= parents.len(),
        parents.len() == unc.len(),
    ensures
        roots_upto(parents, unc, n).contains(d) <==> exists|i: int|
            0 <= i < n && !unc[i] && #[trigger] parents[i] == Some(d),
    decreases n,
{
    if n > 0 {
        law_roots_are_local_parents(parents, unc, n - 1, d);
        let before = roots_upto(parents, unc, n - 1);
        let now = roots_upto(parents, unc, n);
        if parents[n - 1] is Some && !unc[n - 1] {
            assert(now.last() == parents[n - 1]->0);
            assert forall|x: Seq<char>| now.contains(x) <==> before.contains(x) || x
                == parents[n - 1]->0 by {
                if before.contains(x) {
                    let j = choose|j: int| 0 <= j < before.len() && before[j] == x;
                    assert(now[j] == x);
                }
                if now.contains(x) {
                    let j = choose|j: int| 0 <= j < now.len() && now[j] == x;
                    assert(j < before.len() ==> before[j] == x);
                }
                if x == parents[n - 1]->0 {
                    assert(now[now.len() - 1] == x);
                }
            }
        }
    }
}

/// The tab that an entry restores to, if any. Backed-up content is always restored;
/// a file without it only when the session is to be restored. A path that did not
/// pass the guard is never used.
pub open spec fn candidate(e: RestoreEntry, restore_session: bool) -> Option<tab::TabModel> {
    let file = if e.safe {
        e.opened
    } else {
        None
    };
    match e.backup {
        Backup::Content(c) => Some(tab::backup_tab(file, c@)),
        _ => if restore_session {
            match file {
                Some(o) => Some(tab::fresh_tab(o.doc@, o.doc@.text, o.mtime)),
                None => None,
            }
        } else {
            None
        },
    }
}

/// The tabs restored so far.
#[verifier::ext_equal]
pub struct RestoredModel {
    /// The tabs.
    pub tabs: Seq<tab::TabModel>,
    /// The file identity of each, where it belongs to a file.
    pub keys: Seq<Option<Seq<char>>>,
    /// For each entry, the tab it went to.
    pub placed: Seq<Option<int>>,
}

/// The first tab with this key.
pub open spec fn tab_with_key(keys: Seq<Option<Seq<char>>>, key: Seq<char>, i: int) -> Option<int>
    decreases keys.len() - i,
{
    if i >= keys.len() {
        None
    } else if keys[i] == Some(key) {
        Some(i)
    } else {
        tab_with_key(keys, key, i + 1)
    }
}

/// One more entry: a file that a tab already holds is merged into that tab, anything
/// else gets a tab of its own.
pub open spec fn with_entry(
    r: RestoredModel,
    e: RestoreEntry,
    restore_session: bool,
) -> RestoredModel {
    match candidate(e, restore_session) {
        None => RestoredModel { placed: r.placed.push(None), ..r },
        Some(t) => {
            let key = if t.doc.path is Some {
                Some(e.key@)
            } else {
                None
            };
            let at = match key {
                Some(k) => tab_with_key(r.keys, k, 0),
                None => None,
            };
            match at {
                Some(j) => RestoredModel {
                    tabs: r.tabs.update(j, tab::merged(r.tabs[j], t)),
                    placed: r.placed.push(Some(j)),
                    ..r
                },
                None => RestoredModel {
                    tabs: r.tabs.push(t),
                    keys: r.keys.push(key),
                    placed: r.placed.push(Some(r.tabs.len() as int)),
                },
            }
        },
    }
}

/// The tabs that the first `n` entries restore to.
pub open spec fn restored_upto(
    entries: Seq<RestoreEntry>,
    restore_session: bool,
    n: int,
) -> RestoredModel
    decreases n,
{
    if n <= 0 {
        RestoredModel { tabs: Seq::empty(), keys: Seq::empty(), placed: Seq::empty() }
    } else {
        with_entry(restored_upto(entries, restore_session, n - 1), entries[n - 1], restore_session)
    }
}

/// The tabs that the manifest restores to.
pub open spec fn restored(entries: Seq<RestoreEntry>, restore_session: bool) -> RestoredModel {
    restored_upto(entries, restore_session, entries.len() as int)
}

/// The tab in front after a restore: the one that the manifest's active entry went
/// to, or the first.
pub open spec fn restored_active(r: RestoredModel, active: int) -> int {
    if 0 <= active < r.placed.len() {
        match r.placed[active] {
            Some(j) => j,
            None => 0,
        }
    } else {
        0
    }
}

proof fn lemma_tab_with_key(keys: Seq<Option<Seq<char>>>, key: Seq<char>, i: int)
    requires
        0 <= i <= keys.len(),
    ensures
        match tab_with_key(keys, key, i) {
            Some(j) => i <= j < keys.len() && keys[j] == Some(key),
            None => forall|j: int| i <= j < keys.len() ==> #[trigger] keys[j] != Some(key),
        },
    decreases keys.len() - i,
{
    if i < keys.len() && keys[i] != Some(key) {
        lemma_tab_with_key(keys, key, i + 1);
    }
}

/// The keys belong to the tabs, entries were placed on tabs, and no file has two
/// tabs.
pub open spec fn restored_ok(r: RestoredModel, n: int) -> bool {
    &&& r.tabs.len() == r.keys.len()
    &&& r.placed.len() == n
    &&& forall|i: int|
        0 <= i < r.placed.len() ==> (#[trigger] r.placed[i] matches Some(j) ==> 0 <= j
            < r.tabs.len())
    &&& forall|i: int, j: int|
        #![trigger r.keys[i], r.keys[j]]
        0 <= i < j < r.keys.len() && r.keys[i] is Some ==> r.keys[i] != r.keys[j]
    &&& forall|i: int| 0 <= i < r.keys.len() ==> (#[trigger] r.keys[i] is Some <==> r.tabs[i].doc.path is Some)
}

proof fn lemma_restored_ok(entries: Seq<RestoreEntry>, restore_session: bool, n: int)
    requires
        0 <= n <= entries.len(),
    ensures
        restored_ok(restored_upto(entries, restore_session, n), n),
    decreases n,
{
    if n > 0 {
        lemma_restored_ok(entries, restore_session, n - 1);
        let r = restored_upto(entries, restore_session, n - 1);
        let e = entries[n - 1];
        lemma_tab_with_key(r.keys, e.key@, 0);
        let next = with_entry(r, e, restore_session);
        match candidate(e, restore_session) {
            None => {},
            Some(t) => {
                let at = if t.doc.path is Some {
                    tab_with_key(r.keys, e.key@, 0)
                } else {
                    None
                };
                match at {
                    Some(j) => {
                        assert(r.keys[j] is Some);
                        assert forall|i: int| 0 <= i < next.keys.len() implies (
                        #[trigger] next.keys[i] is Some <==> next.tabs[i].doc.path is Some) by {
                            assert(r.keys[i] is Some <==> r.tabs[i].doc.path is Some);
                        }
                    },
                    None => {
                        assert forall|i: int| 0 <= i < next.keys.len() implies (
                        #[trigger] next.keys[i] is Some <==> next.tabs[i].doc.path is Some) by {
                            if i < r.keys.len() {
                                assert(r.keys[i] is Some <==> r.tabs[i].doc.path is Some);
                            }
                        }
                    },
                }
            },
        }
    }
}

/// After a restore every file has one tab, and the tab in front is one of them.
pub proof fn law_restore_one_tab_per_file(
    entries: Seq<RestoreEntry>,
    restore_session: bool,
    active: int,
)
    ensures
        restored_ok(restored(entries, restore_session), entries.len() as int),
        restored(entries, restore_session).tabs.len() > 0 ==> 0 <= restored_active(
            restored(entries, restore_session),
            active,
        ) < restored(entries, restore_session).tabs.len(),
{
    lemma_restored_ok(entries, restore_session, entries.len() as int);
}

/// An entry whose path did not pass the guard never opens a file: it restores its
/// backed-up content as an untitled tab, or nothing.
pub proof fn law_unsafe_path_is_never_opened(e: RestoreEntry, restore_session: bool)
    requires
        !e.safe,
    ensures
        match candidate(e, restore_session) {
            Some(t) => t.doc.path is None && e.backup is Content && t.text == e.backup->Content_0@,
            None => !(e.backup is Content),
        },
{
}

/// With "restore session" off nothing but backed-up content comes back, and all of
/// it does.
pub proof fn law_only_unsaved_content_without_session(e: RestoreEntry)
    ensures
        candidate(e, false) is Some <==> e.backup is Content,
        e.backup matches Backup::Content(c) ==> candidate(e, false)->0.text == c@,
{
}

/// An entry stays where it was placed, and a tab with unsaved content keeps that content,
/// whatever entries follow.
proof fn lemma_later_entries(entries: Seq<RestoreEntry>, restore_session: bool, n: int, m: int)
    requires
        0 <= n <= m <= entries.len(),
    ensures
        ({
            let a = restored_upto(entries, restore_session, n);
            let b = restored_upto(entries, restore_session, m);
            &&& a.tabs.len() <= b.tabs.len()
            &&& forall|i: int| 0 <= i < n ==> #[trigger] b.placed[i] == a.placed[i]
            &&& forall|j: int|
                0 <= j < a.tabs.len() && a.tabs[j].dirty() ==> (#[trigger] b.tabs[j]).dirty()
                    && b.tabs[j].text == a.tabs[j].text
        }),
    decreases m - n,
{
    if n < m {
        lemma_later_entries(entries, restore_session, n, m - 1);
        lemma_restored_ok(entries, restore_session, m - 1);
        let r = restored_upto(entries, restore_session, m - 1);
        lemma_restored_ok(entries, restore_session, n);
        lemma_tab_with_key(r.keys, entries[m - 1].key@, 0);
    }
}

/// The unsaved content of a restored tab is that of an entry that was placed on it.
proof fn lemma_unsaved_comes_from_an_entry(
    entries: Seq<RestoreEntry>,
    restore_session: bool,
    n: int,
    j: int,
) -> (i: int)
    requires
        0 <= n <= entries.len(),
        0 <= j < restored_upto(entries, restore_session, n).tabs.len(),
        restored_upto(entries, restore_session, n).tabs[j].dirty(),
    ensures
        0 <= i < n,
        restored_upto(entries, restore_session, n).placed[i] == Some(j),
        candidate(entries[i], restore_session) matches Some(t) && t.dirty() && t.text
            == restored_upto(entries, restore_session, n).tabs[j].text,
    decreases n,
{
    lemma_restored_ok(entries, restore_session, n - 1);
    let r = restored_upto(entries, restore_session, n - 1);
    let e = entries[n - 1];
    lemma_tab_with_key(r.keys, e.key@, 0);
    assert(restored_upto(entries, restore_session, n) == with_entry(r, e, restore_session));
    if j < r.tabs.len() && r.tabs[j].dirty() {
        lemma_unsaved_comes_from_an_entry(entries, restore_session, n - 1, j)
    } else {
        n - 1
    }
}

/// Unsaved content is never lost in a restore: the tab that an entry with backed-up content
/// differing from its file went to holds unsaved content, its own or that of another entry
/// of the same file.
pub proof fn law_restore_keeps_unsaved_content(
    entries: Seq<RestoreEntry>,
    restore_session: bool,
    n: int,
)
    requires
        0 <= n < entries.len(),
        candidate(entries[n], restore_session) matches Some(t) && t.dirty(),
    ensures
        ({
            let r = restored(entries, restore_session);
            r.placed[n] matches Some(j) && 0 <= j < r.tabs.len() && r.tabs[j].dirty() && exists|
                i: int,
            |
                #![trigger r.placed[i]]
                0 <= i < entries.len() && r.placed[i] == Some(j) && (candidate(
                    entries[i],
                    restore_session,
                ) matches Some(t) && t.dirty() && t.text == r.tabs[j].text)
        }),
{
    let all = entries.len() as int;
    lemma_restored_ok(entries, restore_session, n);
    lemma_restored_ok(entries, restore_session, n + 1);
    let before = restored_upto(entries, restore_session, n);
    lemma_tab_with_key(before.keys, entries[n].key@, 0);
    let after = restored_upto(entries, restore_session, n + 1);
    assert(after == with_entry(before, entries[n], restore_session));
    let j = after.placed[n]->0;
    assert(after.tabs[j].dirty());
    lemma_later_entries(entries, restore_session, n + 1, all);
    let r = restored(entries, restore_session);
    assert(r.placed[n] == after.placed[n]);
    assert(r.tabs[j].dirty());
    let i = lemma_unsaved_comes_from_an_entry(entries, restore_session, all, j);
    assert(r.placed[i] == Some(j));
}

/// The identities of the restored tabs are identities of entries.
proof fn lemma_keys_come_from_entries(
    entries: Seq<RestoreEntry>,
    restore_session: bool,
    n: int,
    j: int,
)
    requires
        0 <= n <= entries.len(),
        0 <= j < restored_upto(entries, restore_session, n).keys.len(),
        restored_upto(entries, restore_session, n).keys[j] is Some,
    ensures
        exists|i: int|
            0 <= i < n && restored_upto(entries, restore_session, n).keys[j] == Some(
                (#[trigger] entries[i]).key@,
            ),
    decreases n,
{
    let r = restored_upto(entries, restore_session, n - 1);
    assert(restored_upto(entries, restore_session, n) == with_entry(
        r,
        entries[n - 1],
        restore_session,
    ));
    if j < r.keys.len() {
        lemma_keys_come_from_entries(entries, restore_session, n - 1, j);
    }
}

/// An entry that brings a tab which shares no file with another entry: untitled, or of a
/// file that no other entry names.
pub open spec fn alone(entries: Seq<RestoreEntry>, restore_session: bool, i: int) -> bool {
    candidate(entries[i], restore_session) matches Some(t) && (t.doc.path is None || forall|k: int|
        0 <= k < entries.len() && k != i ==> (#[trigger] entries[k]).key@ != entries[i].key@)
}

/// An entry whose tab shares no file with another has that tab to itself.
proof fn lemma_own_tab(entries: Seq<RestoreEntry>, restore_session: bool, i: int, n: int)
    requires
        0 <= i < n <= entries.len(),
        alone(entries, restore_session, i),
    ensures
        ({
            let r = restored_upto(entries, restore_session, n);
            r.placed[i] matches Some(j) && 0 <= j < r.tabs.len() && r.tabs[j] == candidate(
                entries[i],
                restore_session,
            )->0 && (r.keys[j] is Some ==> r.keys[j] == Some(entries[i].key@))
        }),
    decreases n,
{
    lemma_restored_ok(entries, restore_session, n - 1);
    let r = restored_upto(entries, restore_session, n - 1);
    let e = entries[n - 1];
    lemma_tab_with_key(r.keys, e.key@, 0);
    assert(restored_upto(entries, restore_session, n) == with_entry(r, e, restore_session));
    if n - 1 == i {
        match tab_with_key(r.keys, e.key@, 0) {
            Some(j) => {
                lemma_keys_come_from_entries(entries, restore_session, n - 1, j);
            },
            None => {},
        }
    } else {
        lemma_own_tab(entries, restore_session, i, n - 1);
    }
}

/// Unsaved content survives a restart: when each unsaved tab's content was backed up and is
/// read back, an untitled tab, and one whose file no other tab shows, comes back with its
/// text, whether or not the session is restored.
pub proof fn law_unsaved_content_survives_a_restart(
    tabs: Seq<tab::TabModel>,
    entries: Seq<RestoreEntry>,
    restore_session: bool,
    i: int,
)
    requires
        entries.len() == tabs.len(),
        forall|k: int|
            0 <= k < tabs.len() && (#[trigger] tabs[k]).unsaved() ==> (
            entries[k].backup matches Backup::Content(c) && c@ == tabs[k].text),
        0 <= i < tabs.len(),
        tabs[i].unsaved(),
        alone(entries, restore_session, i),
    ensures
        ({
            let r = restored(entries, restore_session);
            r.placed[i] matches Some(j) && 0 <= j < r.tabs.len() && r.tabs[j].text
                == tabs[i].text
        }),
{
    lemma_own_tab(entries, restore_session, i, entries.len() as int);
}

/// Backed-up content has a tab in the restored session.
pub proof fn lemma_content_is_placed(
    entries: Seq<RestoreEntry>,
    restore_session: bool,
    k: int,
)
    requires
        0 <= k < entries.len(),
        entries[k].backup is Content,
    ensures
        ({
            let r = restored(entries, restore_session);
            r.placed[k] matches Some(j) && 0 <= j < r.tabs.len()
        }),
{
    let all = entries.len() as int;
    lemma_restored_ok(entries, restore_session, k);
    lemma_restored_ok(entries, restore_session, all);
    let before = restored_upto(entries, restore_session, k);
    assert(restored_upto(entries, restore_session, k + 1) == with_entry(
        before,
        entries[k],
        restore_session,
    ));
    lemma_later_entries(entries, restore_session, k + 1, all);
}

/// Each entry that restores to a tab is placed on one, of its own file; the others are
/// placed on none.
proof fn lemma_entry_place(
    entries: Seq<RestoreEntry>,
    restore_session: bool,
    i: int,
    n: int,
)
    requires
        0 <= i < n <= entries.len(),
    ensures
        ({
            let r = restored_upto(entries, restore_session, n);
            match candidate(entries[i], restore_session) {
                Some(t) => r.placed[i] matches Some(j) && 0 <= j < r.tabs.len() && r.keys[j] == (
                if t.doc.path is Some {
                    Some(entries[i].key@)
                } else {
                    None
                }),
                None => r.placed[i] is None,
            }
        }),
    decreases n,
{
    lemma_restored_ok(entries, restore_session, n - 1);
    let r = restored_upto(entries, restore_session, n - 1);
    let e = entries[n - 1];
    lemma_tab_with_key(r.keys, e.key@, 0);
    assert(restored_upto(entries, restore_session, n) == with_entry(r, e, restore_session));
    if i < n - 1 {
        lemma_entry_place(entries, restore_session, i, n - 1);
    }
}

/// The tab that was in front comes back in front: where the active entry restores to a tab,
/// the tab in front is of that entry's file, or untitled as it was, and it is that entry's
/// own tab when no other entry names the file. Only where the active entry restores to
/// nothing, or there is none, is the first tab in front.
pub proof fn law_restore_brings_back_the_front(
    entries: Seq<RestoreEntry>,
    restore_session: bool,
    active: int,
)
    requires
        restored(entries, restore_session).tabs.len() > 0,
    ensures
        ({
            let r = restored(entries, restore_session);
            let front = restored_active(r, active);
            &&& 0 <= front < r.tabs.len()
            &&& 0 <= active < entries.len() ==> (match candidate(entries[active], restore_session) {
                Some(t) => {
                    &&& r.placed[active] == Some(front)
                    &&& r.keys[front] == (if t.doc.path is Some {
                        Some(entries[active].key@)
                    } else {
                        None
                    })
                    &&& r.tabs[front].doc.path is Some <==> t.doc.path is Some
                    &&& alone(entries, restore_session, active) ==> r.tabs[front] == t
                },
                None => front == 0,
            })
            &&& active < 0 || entries.len() <= active ==> front == 0
        }),
{
    let n = entries.len() as int;
    let r = restored(entries, restore_session);
    lemma_restored_ok(entries, restore_session, n);
    if 0 <= active < n {
        lemma_entry_place(entries, restore_session, active, n);
        if alone(entries, restore_session, active) {
            lemma_own_tab(entries, restore_session, active, n);
        }
        let front = restored_active(r, active);
        assert(r.keys[front] is Some <==> r.tabs[front].doc.path is Some);
    }
}

/// Two entries share a tab exactly when they name the same file; every entry that restores
/// to a tab has one, and the others have none.
pub proof fn law_restore_shares_tabs_by_file(
    entries: Seq<RestoreEntry>,
    restore_session: bool,
    i: int,
    k: int,
)
    requires
        0 <= i < k < entries.len(),
    ensures
        ({
            let r = restored(entries, restore_session);
            let a = candidate(entries[i], restore_session);
            let b = candidate(entries[k], restore_session);
            &&& r.placed[i] is Some <==> a is Some
            &&& r.placed[k] is Some <==> b is Some
            &&& a is Some && b is Some ==> (r.placed[i] == r.placed[k] <==> a->0.doc.path is Some
                && b->0.doc.path is Some && entries[i].key@ == entries[k].key@)
        }),
{
    let n = entries.len() as int;
    let r = restored(entries, restore_session);
    let a = candidate(entries[i], restore_session);
    let b = candidate(entries[k], restore_session);
    lemma_entry_place(entries, restore_session, i, n);
    lemma_entry_place(entries, restore_session, k, n);
    lemma_restored_ok(entries, restore_session, n);
    if a is Some && b is Some {
        let p = r.placed[i]->0;
        let q = r.placed[k]->0;
        assert(p < q ==> r.keys[p] is Some ==> r.keys[p] != r.keys[q]);
        assert(q < p ==> r.keys[q] is Some ==> r.keys[q] != r.keys[p]);
        if b->0.doc.path is None {
            lemma_restored_ok(entries, restore_session, k);
            let before = restored_upto(entries, restore_session, k);
            assert(restored_upto(entries, restore_session, k + 1) == with_entry(
                before,
                entries[k],
                restore_session,
            ));
            lemma_later_entries(entries, restore_session, k, n);
            lemma_later_entries(entries, restore_session, k + 1, n);
            lemma_entry_place(entries, restore_session, i, k);
        }
    }
}

/// Every restored tab is that of an entry.
proof fn lemma_tab_has_an_entry(
    entries: Seq<RestoreEntry>,
    restore_session: bool,
    n: int,
    j: int,
) -> (i: int)
    requires
        0 <= n <= entries.len(),
        0 <= j < restored_upto(entries, restore_session, n).tabs.len(),
    ensures
        0 <= i < n,
        restored_upto(entries, restore_session, n).placed[i] == Some(j),
    decreases n,
{
    lemma_restored_ok(entries, restore_session, n - 1);
    let before = restored_upto(entries, restore_session, n - 1);
    let e = entries[n - 1];
    lemma_tab_with_key(before.keys, e.key@, 0);
    assert(restored_upto(entries, restore_session, n) == with_entry(before, e, restore_session));
    if j < before.tabs.len() {
        lemma_tab_has_an_entry(entries, restore_session, n - 1, j)
    } else {
        n - 1
    }
}

/// The tabs come back in the order of the manifest: every tab is that of an entry, and when
/// an entry's tab stands behind another, an earlier entry brought that other.
pub proof fn law_restore_keeps_the_order(
    entries: Seq<RestoreEntry>,
    restore_session: bool,
    j: int,
    k: int,
)
    requires
        0 <= j < restored(entries, restore_session).tabs.len(),
        0 <= k < entries.len(),
    ensures
        ({
            let r = restored(entries, restore_session);
            &&& exists|i: int| 0 <= i < entries.len() && #[trigger] r.placed[i] == Some(j)
            &&& r.placed[k] is Some && j < r.placed[k]->0 ==> exists|i: int|
                0 <= i < k && #[trigger] r.placed[i] == Some(j)
        }),
{
    let n = entries.len() as int;
    let r = restored(entries, restore_session);
    let w = lemma_tab_has_an_entry(entries, restore_session, n, j);
    assert(r.placed[w] == Some(j));
    match r.placed[k] {
        Some(q) => {
            lemma_restored_ok(entries, restore_session, k);
            let before = restored_upto(entries, restore_session, k);
            lemma_tab_with_key(before.keys, entries[k].key@, 0);
            assert(restored_upto(entries, restore_session, k + 1) == with_entry(
                before,
                entries[k],
                restore_session,
            ));
            lemma_later_entries(entries, restore_session, k + 1, n);
            lemma_later_entries(entries, restore_session, k, n);
            if j < q {
                assert(j < before.tabs.len());
                let i = lemma_tab_has_an_entry(entries, restore_session, k, j);
                assert(r.placed[i] == Some(j));
            }
        },
        None => {},
    }
}

/// A file that passed the guard comes back when the session is restored: with its text as
/// it is on disk, or with the backed-up content over it. Untitled content comes back
/// untitled.
pub proof fn law_restored_tab_shows(e: RestoreEntry, restore_session: bool)
    ensures
        e.safe && e.opened is Some && !(e.backup is Content) ==> (candidate(e, restore_session)
            is Some <==> restore_session),
        candidate(e, restore_session) matches Some(t) ==> {
            &&& e.backup matches Backup::Content(c) ==> t.text == c@
            &&& !(e.backup is Content) ==> restore_session && e.safe && e.opened is Some && t.text
                == e.opened->0.doc@.text && !t.dirty()
            &&& e.safe && e.opened is Some ==> t.doc == e.opened->0.doc@ && t.disk_mtime
                == e.opened->0.mtime
            &&& !e.safe || e.opened is None ==> t.doc.path is None
            &&& !t.pinned
        },
{
}

/// Whether two optional strings are the given key.
fn is_key(k: &Option<String>, key: &String) -> (b: bool)
    ensures
        b == (tab::opt_view(*k) == Some(key@)),
{
    match k {
        Some(x) => *x == *key,
        None => false,
    }
}

/// The contents of a sequence of keys.
pub open spec fn key_views(v: Seq<Option<String>>) -> Seq<Option<Seq<char>>> {
    Seq::new(v.len(), |i: int| tab::opt_view(v[i]))
}

/// The first tab whose file has the given identity.
pub fn find_key(keys: &Vec<Option<String>>, key: &String) -> (r: Option<usize>)
    ensures
        match r {
            Some(i) => tab_with_key(key_views(keys@), key@, 0) == Some(i as int) && i < keys@.len(),
            None => tab_with_key(key_views(keys@), key@, 0) is None,
        },
{
    let mut i: usize = 0;
    while i < keys.len()
        invariant
            i <= keys@.len(),
            tab_with_key(key_views(keys@), key@, 0) == tab_with_key(
                key_views(keys@),
                key@,
                i as int,
            ),
        decreases keys@.len() - i,
    {
        if is_key(&keys[i], key) {
            return Some(i);
        }
        i += 1;
    }
    None
}

/// The tab that an entry restores to.
fn make_candidate(
    safe: bool,
    backup: Backup,
    opened: Option<Opened>,
    key: &String,
    restore_session: bool,
) -> (r: Option<EditorTab>)
    ensures
        ({
            let e = RestoreEntry { safe, backup, opened, key: *key };
            match r {
                Some(t) => candidate(e, restore_session) == Some(t@),
                None => candidate(e, restore_session) is None,
            }
        }),
{
    let file = if safe {
        opened
    } else {
        None
    };
    match backup {
        Backup::Content(c) => Some(EditorTab::from_backup(file, c)),
        _ => {
            if restore_session {
                match file {
                    Some(o) => Some(EditorTab::from_opened(o)),
                    None => None,
                }
            } else {
                None
            }
        },
    }
}

/// The contents of a sequence of places.
pub open spec fn place_views(v: Seq<Option<usize>>) -> Seq<Option<int>> {
    Seq::new(
        v.len(),
        |i: int|
            match v[i] {
                Some(j) => Some(j as int),
                None => None,
            },
    )
}

/// Restore the tabs of the session manifest, and say which comes to the front.
/// `None` when there is nothing to restore.
pub fn restore_tabs_from_manifest(
    entries: Vec<RestoreEntry>,
    active: usize,
    restore_session: bool,
) -> (r: Option<(Vec<EditorTab>, usize)>)
    ensures
        match r {
            Some((v, front)) => {
                let m = restored(entries@, restore_session);
                &&& tabs::models(v@) == m.tabs
                &&& v@.len() > 0
                &&& front == restored_active(m, active as int)
                &&& front < v@.len()
            },
            None => restored(entries@, restore_session).tabs.len() == 0,
        },
{
    let ghost all = entries@;
    let mut rest = entries;
    let mut out: Vec<EditorTab> = Vec::new();
    let mut keys: Vec<Option<String>> = Vec::new();
    let mut placed: Vec<Option<usize>> = Vec::new();
    let ghost mut n: int = 0;
    proof {
        let r = restored_upto(all, restore_session, 0);
        assert(tabs::models(out@) =~= r.tabs);
        assert(key_views(keys@) =~= r.keys);
        assert(place_views(placed@) =~= r.placed);
        assert(all.skip(0) =~= all);
    }
    while rest.len() > 0
        invariant
            0 <= n <= all.len(),
            rest@ == all.skip(n),
            tabs::models(out@) == restored_upto(all, restore_session, n).tabs,
            key_views(keys@) == restored_upto(all, restore_session, n).keys,
            place_views(placed@) == restored_upto(all, restore_session, n).placed,
        decreases rest@.len(),
    {
        let ghost r = restored_upto(all, restore_session, n);
        let e = rest.remove(0);
        proof {
            assert(e == all[n]);
            assert(rest@ =~= all.skip(n + 1));
            lemma_restored_ok(all, restore_session, n);
            lemma_tab_with_key(r.keys, e.key@, 0);
        }
        let RestoreEntry { safe, backup, opened, key } = e;
        match make_candidate(safe, backup, opened, &key, restore_session) {
            None => {
                placed.push(None);
                assert(place_views(placed@) =~= r.placed.push(None));
            },
            Some(t) => {
                let has_path: bool = t.doc.path.is_some();
                let at = if has_path {
                    find_key(&keys, &key)
                } else {
                    None
                };
                match at {
                    Some(j) => {
                        let ghost tm = t@;
                        EditorTab::merge_restored_duplicate(&mut out[j], t);
                        placed.push(Some(j));
                        proof {
                            assert(tabs::models(out@) =~= r.tabs.update(
                                j as int,
                                tab::merged(r.tabs[j as int], tm),
                            ));
                            assert(place_views(placed@) =~= r.placed.push(Some(j as int)));
                        }
                    },
                    None => {
                        let idx: usize = out.len();
                        let ghost tm = t@;
                        let k = if has_path {
                            Some(key)
                        } else {
                            None
                        };
                        keys.push(k);
                        out.push(t);
                        placed.push(Some(idx));
                        proof {
                            assert(tabs::models(out@) =~= r.tabs.push(tm));
                            assert(key_views(keys@) =~= r.keys.push(tab::opt_view(k)));
                            assert(place_views(placed@) =~= r.placed.push(Some(idx as int)));
                        }
                    },
                }
            },
        }
        proof {
            n = n + 1;
        }
    }
    proof {
        lemma_restored_ok(all, restore_session, n);
        assert(all.skip(n).len() == all.len() - n);
    }
    if out.len() == 0 {
        return None;
    }
    let front: usize = if active < placed.len() {
        match placed[active] {
            Some(j) => j,
            None => 0,
        }
    } else {
        0
    };
    proof {
        assert(place_views(placed@).len() == placed@.len());
        if active < placed@.len() {
            assert(place_views(placed@)[active as int] == restored(all, restore_session).placed[active as int]);
        }
    }
    Some((out, front))
}

/// One file named on the command line, with what came of opening it.
pub struct CliFile {
    /// The path, as it was given.
    pub path: String,
    /// The file, or why it could not be read.
    pub loaded: Result<Opened, String>,
}

/// The tabs of the first `n` files that could be read.
pub open spec fn cli_tabs(files: Seq<CliFile>, n: int) -> Seq<tab::TabModel>
    decreases n,
{
    if n <= 0 {
        Seq::empty()
    } else {
        match files[n - 1].loaded {
            Ok(o) => cli_tabs(files, n - 1).push(tab::fresh_tab(o.doc@, o.doc@.text, o.mtime)),
            Err(_) => cli_tabs(files, n - 1),
        }
    }
}

/// The notice that opening the first `n` files leaves: of the last that failed, or
/// the one that was there before.
pub open spec fn cli_toast(
    files: Seq<CliFile>,
    before: Option<Seq<char>>,
    n: int,
) -> Option<Seq<char>>
    decreases n,
{
    if n <= 0 {
        before
    } else {
        match files[n - 1].loaded {
            Ok(_) => cli_toast(files, before, n - 1),
            Err(e) => Some("could not open "@ + files[n - 1].path@ + ": "@ + e@),
        }
    }
}

/// Open the files named on the command line, in order. A file that cannot be read is
/// left out, with a notice.
pub fn open_cli_files(files: Vec<CliFile>, toast: Option<String>) -> (r: (
    Vec<EditorTab>,
    Option<String>,
))
    ensures
        tabs::models(r.0@) == cli_tabs(files@, files@.len() as int),
        tab::opt_view(r.1) == cli_toast(files@, tab::opt_view(toast), files@.len() as int),
{
    let ghost all = files@;
    let ghost before = tab::opt_view(toast);
    let mut rest = files;
    let mut out: Vec<EditorTab> = Vec::new();
    let mut notice = toast;
    let ghost mut n: int = 0;
    assert(tabs::models(out@) =~= cli_tabs(all, 0));
    assert(all.skip(0) =~= all);
    while rest.len() > 0
        invariant
            0 <= n <= all.len(),
            rest@ == all.skip(n),
            tabs::models(out@) == cli_tabs(all, n),
            tab::opt_view(notice) == cli_toast(all, before, n),
        decreases rest@.len(),
    {
        let f = rest.remove(0);
        proof {
            assert(f == all[n]);
            assert(rest@ =~= all.skip(n + 1));
        }
        match f.loaded {
            Ok(o) => {
                let t = EditorTab::from_opened(o);
                let ghost m = tabs::models(out@);
                out.push(t);
                assert(tabs::models(out@) =~= m.push(t@));
            },
            Err(e) => {
                let mut s = "could not open ".to_string();
                s.append(f.path.as_str());
                s.append(": ");
                s.append(e.as_str());
                notice = Some(s);
            },
        }
        proof {
            n = n + 1;
        }
    }
    assert(all.skip(n).len() == all.len() - n);
    (out, notice)
}

/// One file of the paths-only session list.
pub struct ListedFile {
    /// Its path passed the restore guard.
    pub safe: bool,
    /// The file, where it could be read.
    pub opened: Option<Opened>,
}

/// The tabs of the first `n` listed files that passed the guard and could be read.
pub open spec fn listed_tabs(files: Seq<ListedFile>, n: int) -> Seq<tab::TabModel>
    decreases n,
{
    if n <= 0 {
        Seq::empty()
    } else {
        match files[n - 1].opened {
            Some(o) => if files[n - 1].safe {
                listed_tabs(files, n - 1).push(tab::fresh_tab(o.doc@, o.doc@.text, o.mtime))
            } else {
                listed_tabs(files, n - 1)
            },
            None => listed_tabs(files, n - 1),
        }
    }
}

/// Open the files of the paths-only session list: those that passed the guard and
/// can be read.
pub fn open_listed_files(files: Vec<ListedFile>) -> (out: Vec<EditorTab>)
    ensures
        tabs::models(out@) == listed_tabs(files@, files@.len() as int),
{
    let ghost all = files@;
    let mut rest = files;
    let mut out: Vec<EditorTab> = Vec::new();
    let ghost mut n: int = 0;
    assert(tabs::models(out@) =~= listed_tabs(all, 0));
    assert(all.skip(0) =~= all);
    while rest.len() > 0
        invariant
            0 <= n <= all.len(),
            rest@ == all.skip(n),
            tabs::models(out@) == listed_tabs(all, n),
        decreases rest@.len(),
    {
        let f = rest.remove(0);
        proof {
            assert(f == all[n]);
            assert(rest@ =~= all.skip(n + 1));
        }
        if f.safe {
            match f.opened {
                Some(o) => {
                    let t = EditorTab::from_opened(o);
                    let ghost m = tabs::models(out@);
                    out.push(t);
                    assert(tabs::models(out@) =~= m.push(t@));
                },
                None => {},
            }
        }
        proof {
            n = n + 1;
        }
    }
    assert(all.skip(n).len() == all.len() - n);
    out
}

/// Which source the tabs at launch come from.
#[derive(Clone, Copy, Debug, PartialEq, Eq, Structural)]
pub enum LaunchSource {
    /// The files named on the command line.
    CommandLine,
    /// The session manifest.
    Manifest,
    /// The paths-only session list.
    List,
    /// None: a new, empty tab.
    Scratch,
}

/// Where the tabs at launch come from: the command line before the manifest, the
/// manifest before the list, and a new tab where all are empty. The manifest is
/// read only by a real launch with backups on, the list only with "restore session"
/// on.
pub fn launch_source(
    cli_opened: usize,
    real_launch: bool,
    session_backup: bool,
    manifest_tabs: usize,
    restore_session: bool,
    listed: usize,
) -> (s: LaunchSource)
    ensures
        s == (if cli_opened > 0 {
            LaunchSource::CommandLine
        } else if real_launch && session_backup && manifest_tabs > 0 {
            LaunchSource::Manifest
        } else if restore_session && listed > 0 {
            LaunchSource::List
        } else {
            LaunchSource::Scratch
        }),
{
    if cli_opened > 0 {
        LaunchSource::CommandLine
    } else if real_launch && session_backup && manifest_tabs > 0 {
        LaunchSource::Manifest
    } else if restore_session && listed > 0 {
        LaunchSource::List
    } else {
        LaunchSource::Scratch
    }
}

/// The tabs at launch.
pub open spec fn launch_tabs(tabs: Seq<tab::TabModel>, front: int) -> tabs::TabsModel {
    tabs::TabsModel {
        tabs: tabs::or_scratch(tabs),
        active: tabs::last_at_most(front, tabs::or_scratch(tabs).len() as int),
        closed: Seq::empty(),
    }
}

/// Every file of the command line that could be read has a tab that shows what was read, in the
/// order of the command line, and no other tab is opened.
pub proof fn law_cli_opens_each_readable_file(files: Seq<CliFile>, n: int)
    requires
        0 <= n <= files.len(),
    ensures
        ({
            let read = |i: int| files[i].loaded is Ok;
            let t = cli_tabs(files, n);
            &&& t.len() == tabs::tally(read, n)
            &&& forall|i: int| 0 <= i < n && (#[trigger] files[i]).loaded is Ok ==> {
                let o = files[i].loaded->Ok_0;
                let shown = t[tabs::tally(read, i)];
                &&& shown.doc == o.doc@
                &&& shown.text == o.doc@.text
                &&& shown.disk_mtime == o.mtime
                &&& !shown.pinned
            }
        }),
    decreases n,
{
    let read = |i: int| files[i].loaded is Ok;
    if n > 0 {
        law_cli_opens_each_readable_file(files, n - 1);
        assert forall|i: int| 0 <= i < n && (#[trigger] files[i]).loaded is Ok implies {
            let o = files[i].loaded->Ok_0;
            let shown = cli_tabs(files, n)[tabs::tally(read, i)];
            &&& shown.doc == o.doc@
            &&& shown.text == o.doc@.text
            &&& shown.disk_mtime == o.mtime
            &&& !shown.pinned
        } by {
            if i < n - 1 {
                tabs::lemma_tally_grows(read, i, n - 1);
                assert(cli_tabs(files, n)[tabs::tally(read, i)] == cli_tabs(files, n - 1)[tabs::tally(
                    read,
                    i,
                )]);
            }
        }
    }
}

/// Every listed file that passed the guard and could be read has a tab that shows what was read,
/// in the order of the list, and no other tab is opened.
pub proof fn law_list_opens_each_safe_file(files: Seq<ListedFile>, n: int)
    requires
        0 <= n <= files.len(),
    ensures
        ({
            let good = |i: int| files[i].safe && files[i].opened is Some;
            let t = listed_tabs(files, n);
            &&& t.len() == tabs::tally(good, n)
            &&& forall|i: int|
                0 <= i < n && (#[trigger] files[i]).safe && files[i].opened is Some ==> {
                    let o = files[i].opened->0;
                    let shown = t[tabs::tally(good, i)];
                    &&& shown.doc == o.doc@
                    &&& shown.text == o.doc@.text
                    &&& shown.disk_mtime == o.mtime
                    &&& !shown.pinned
                }
        }),
    decreases n,
{
    let good = |i: int| files[i].safe && files[i].opened is Some;
    if n > 0 {
        law_list_opens_each_safe_file(files, n - 1);
        assert forall|i: int|
            0 <= i < n && (#[trigger] files[i]).safe && files[i].opened is Some implies {
            let o = files[i].opened->0;
            let shown = listed_tabs(files, n)[tabs::tally(good, i)];
            &&& shown.doc == o.doc@
            &&& shown.text == o.doc@.text
            &&& shown.disk_mtime == o.mtime
            &&& !shown.pinned
        } by {
            if i < n - 1 {
                tabs::lemma_tally_grows(good, i, n - 1);
                assert(listed_tabs(files, n)[tabs::tally(good, i)] == listed_tabs(
                    files,
                    n - 1,
                )[tabs::tally(good, i)]);
            }
        }
    }
}

/// The notice is of the last file that could not be read, and names it and the reason; where all
/// could be read, the notice from before stays.
pub proof fn law_cli_notice_is_of_the_last_failure(
    files: Seq<CliFile>,
    before: Option<Seq<char>>,
    n: int,
    k: int,
)
    requires
        0 <= k < n <= files.len(),
        forall|i: int| k < i < n ==> (#[trigger] files[i]).loaded is Ok,
    ensures
        ({
            let t = cli_toast(files, before, n);
            &&& files[k].loaded is Err ==> t is Some && find::contains(t->0, files[k].path@)
                && find::contains(t->0, files[k].loaded->Err_0@)
            &&& k == 0 && files[0].loaded is Ok ==> t == before
        }),
    decreases n,
{
    if n > k + 1 {
        assert(files[n - 1].loaded is Ok);
        law_cli_notice_is_of_the_last_failure(files, before, n - 1, k);
    } else {
        match files[k].loaded {
            Err(e) => {
                let p = files[k].path@;
                find::lemma_stands_between("could not open "@, p, ": "@ + e@);
                find::lemma_stands_between("could not open "@ + p + ": "@, e@, Seq::empty());
                let t = "could not open "@ + p + ": "@ + e@;
                assert("could not open "@ + p + (": "@ + e@) =~= t);
                assert("could not open "@ + p + ": "@ + e@ + Seq::<char>::empty() =~= t);
            },
            Ok(_) => {
                assert(k == 0 ==> cli_toast(files, before, 0) == before);
            },
        }
    }
}

/// The tabs at a launch are those that were found, with the wanted one in front, or the last
/// where it is not there; where none was found it is one new, empty tab. Nothing was closed yet.
pub proof fn law_launch_shows_what_was_found(t: Seq<tab::TabModel>, front: int)
    requires
        front >= 0,
    ensures
        ({
            let m = launch_tabs(t, front);
            &&& t.len() > 0 ==> m.tabs == t
            &&& 0 <= front < t.len() ==> m.active == front
            &&& front >= t.len() > 0 ==> m.active == t.len() - 1
            &&& t.len() == 0 ==> m.tabs.len() == 1 && m.active == 0 && m.tabs[0].text.len() == 0
                && m.tabs[0].doc.path is None
            &&& m.closed.len() == 0
        }),
{
}

/// The tab set of a launch: the tabs that were opened or restored, with `front`, or
/// the last, in front; a new, empty tab when there are none.
pub fn launch(tabs: Vec<EditorTab>, front: usize) -> (s: TabSet)
    ensures
        s.wf(),
        s@ == launch_tabs(tabs::models(tabs@), front as int),
{
    let mut v = tabs;
    let ghost m = tabs::models(v@);
    if v.len() == 0 {
        v.push(EditorTab::scratch());
        assert(tabs::models(v@) =~= seq![tab::scratch_tab()]);
    }
    let n: usize = v.len();
    let active: usize = if front < n {
        front
    } else {
        n - 1
    };
    let s = TabSet { tabs: v, active, closed: Vec::new() };
    assert(s@.closed =~= Seq::<tabs::ClosedModel>::empty());
    assert(tabs::models(v@) == tabs::or_scratch(m));
    s
}

/// The first file named on the command line that could be read is in front.
pub proof fn law_first_cli_file_in_front(files: Seq<CliFile>, k: int)
    requires
        0 <= k < files.len(),
        files[k].loaded is Ok,
        forall|i: int| 0 <= i < k ==> (#[trigger] files[i]).loaded is Err,
    ensures
        ({
            let o = files[k].loaded->Ok_0;
            let m = launch_tabs(cli_tabs(files, files.len() as int), 0);
            m.tabs[m.active] == tab::fresh_tab(o.doc@, o.doc@.text, o.mtime)
        }),
{
    lemma_first_cli_file(files, k, files.len() as int);
}

proof fn lemma_first_cli_file(files: Seq<CliFile>, k: int, n: int)
    requires
        0 <= k < files.len(),
        n <= files.len(),
        files[k].loaded is Ok,
        forall|i: int| 0 <= i < k ==> (#[trigger] files[i]).loaded is Err,
    ensures
        n <= k ==> cli_tabs(files, n).len() == 0,
        n > k ==> cli_tabs(files, n).len() > 0 && cli_tabs(files, n)[0] == tab::fresh_tab(
            files[k].loaded->Ok_0.doc@,
            files[k].loaded->Ok_0.doc@.text,
            files[k].loaded->Ok_0.mtime,
        ),
    decreases n,
{
    if n > 0 {
        lemma_first_cli_file(files, k, n - 1);
        if n - 1 < k {
            assert(files[n - 1].loaded is Err);
        }
    }
}

/// Whether the welcome window opens at launch: on the first run only, and not when a
/// file was named or files were opened before.
pub fn welcome_on_launch(first_run_completed: bool, cli_files: usize, recent_files: usize) -> (b:
    bool)
    ensures
        b == (!first_run_completed && cli_files == 0 && recent_files == 0),
{
    !first_run_completed && cli_files == 0 && recent_files == 0
}

/// The notice for a configuration that could not be read.
pub fn config_error_toast(err: &Option<String>) -> (t: Option<String>)
    ensures
        match (*err, t) {
            (Some(e), Some(s)) => s@ == "config: "@ + e@ + " (using defaults)"@,
            (None, None) => true,
            _ => false,
        },
{
    match err {
        Some(e) => {
            let mut s = "config: ".to_string();
            s.append(e.as_str());
            s.append(" (using defaults)");
            Some(s)
        },
        None => None,
    }
}

} // verus!

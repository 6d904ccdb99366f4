//! Files on disk: opening, noticing outside changes, saving.
use vstd::prelude::*;
use vstd::string::*;
use crate::restore;
use crate::restore::find_key;
use crate::find;
use crate::tab;
use crate::tab::{EditorTab, Opened, Stamp, TabModel};
use crate::tabs;
use crate::tabs::TabSet;
use crate::text::chars_of;

verus! {

/// How many frames lie between two looks at the open files on disk.
pub const DISK_POLL_INTERVAL_FRAMES: u64 = 30;

/// A look at the disk is due at frame `current` when the last was at frame `last`.
pub open spec fn poll_due(current: u64, last: u64, interval: u64) -> bool {
    last == u64::MAX || current < last || current - last >= interval
}

/// Whether the open files are looked at this frame: when they never were (`last` is
/// the greatest number), when `interval` frames have passed, or when the frame
/// counter started over.
pub fn should_poll_disk(current: u64, last: u64, interval: u64) -> (b: bool)
    ensures
        b == poll_due(current, last, interval),
{
    if last == u64::MAX {
        return true;
    }
    if current < last {
        return true;
    }
    current - last >= interval
}

/// Polling does not stall: it is due once the interval has passed, and stays due until
/// it is done, however long that takes.
pub proof fn law_poll_stays_due(last: u64, interval: u64, current: u64, later: u64)
    requires
        current <= later,
        last <= current,
    ensures
        current >= last + interval ==> poll_due(current, last, interval),
        poll_due(current, last, interval) ==> poll_due(later, last, interval),
{
}

/// Between two looks lies the interval: none is due earlier. One is due at the start, and when
/// the frame counter started over.
pub proof fn law_poll_waits_for_the_interval(last: u64, interval: u64, current: u64)
    ensures
        last < u64::MAX && last <= current < last + interval ==> !poll_due(current, last, interval),
        last == u64::MAX ==> poll_due(current, last, interval),
        current < last ==> poll_due(current, last, interval),
{
}

/// What an outside change of a tab's file calls for.
#[derive(Clone, Copy, Debug, PartialEq, Eq, Structural)]
pub enum DiskVerdict {
    /// Nothing: no file, no modification time, or the one that is known.
    Unchanged,
    /// Read it again: the tab still shows what was on disk.
    Reload,
    /// Ask: the tab holds edits of its own.
    Warn,
}

/// What a tab's file, last modified at `mtime`, calls for.
pub open spec fn disk_verdict(t: TabModel, mtime: Option<Stamp>) -> DiskVerdict {
    if t.doc.path is None || mtime is None || mtime == t.disk_mtime {
        DiskVerdict::Unchanged
    } else if t.text == t.disk_text {
        DiskVerdict::Reload
    } else {
        DiskVerdict::Warn
    }
}

/// What each tab's file calls for. `mtimes` holds when each was last modified, as
/// far as that is known.
pub fn disk_verdicts(open: &TabSet, mtimes: &Vec<Option<Stamp>>) -> (v: Vec<DiskVerdict>)
    requires
        mtimes@.len() == open@.tabs.len(),
    ensures
        v@.len() == open@.tabs.len(),
        forall|i: int|
            0 <= i < v@.len() ==> #[trigger] v@[i] == disk_verdict(open@.tabs[i], mtimes@[i]),
{
    let mut v: Vec<DiskVerdict> = Vec::new();
    let mut i: usize = 0;
    while i < open.tabs.len()
        invariant
            i == v@.len() <= open.tabs@.len(),
            open@.tabs.len() == open.tabs@.len() == mtimes@.len(),
            forall|k: int|
                0 <= k < v@.len() ==> #[trigger] v@[k] == disk_verdict(open@.tabs[k], mtimes@[k]),
        decreases open.tabs@.len() - i,
    {
        let t = &open.tabs[i];
        let known: bool = match (mtimes[i], t.disk_mtime) {
            (Some(a), Some(b)) => a == b,
            (Some(_), None) => false,
            (None, _) => true,
        };
        let verdict = if t.doc.path.is_none() || known {
            DiskVerdict::Unchanged
        } else if t.text == t.disk_text {
            DiskVerdict::Reload
        } else {
            DiskVerdict::Warn
        };
        assert(verdict == disk_verdict(open@.tabs[i as int], mtimes@[i as int]));
        v.push(verdict);
        i += 1;
    }
    v
}

/// A stamp, or the one before it where none is known.
pub open spec fn newer_stamp(known: Option<Stamp>, before: Option<Stamp>) -> Option<Stamp> {
    if known is Some {
        known
    } else {
        before
    }
}

/// A tab whose file was read again: it shows the file, and is clean.
pub open spec fn reloaded(t: TabModel, fresh: Seq<char>, mtime: Option<Stamp>) -> TabModel {
    let u = t.with_text(fresh);
    TabModel {
        doc: tab::DocumentModel { text: fresh, ..t.doc },
        disk_text: fresh,
        disk_mtime: newer_stamp(mtime, t.disk_mtime),
        external_change: false,
        ..u
    }.rebased()
}

/// Show the file as it is on disk now, in a tab without edits of its own.
pub fn reload_tab(t: &mut EditorTab, fresh: String, mtime: Option<Stamp>)
    ensures
        final(t)@ == reloaded(old(t)@, fresh@, mtime),
{
    t.doc.text = fresh.clone();
    t.disk_text = fresh.clone();
    t.set_text(fresh);
    if mtime.is_some() {
        t.disk_mtime = mtime;
    }
    t.external_change = false;
    t.reset_change_baselines();
}

/// A reload leaves a clean tab that no banner is shown for, and that the same look at
/// the disk finds unchanged.
pub proof fn law_reload_settles(t: TabModel, fresh: Seq<char>, mtime: Option<Stamp>)
    ensures
        !reloaded(t, fresh, mtime).dirty(),
        !reloaded(t, fresh, mtime).external_change,
        disk_verdict(reloaded(t, fresh, mtime), mtime) is Unchanged,
{
}

/// A file is read again by itself only where the tab shows what was on disk, so that no edit
/// is lost; where the tab holds edits, the user is asked. A file that nothing happened to,
/// and a tab without a file, call for nothing.
pub proof fn law_only_untouched_tabs_reload(t: TabModel, mtime: Option<Stamp>)
    ensures
        ({
            let v = disk_verdict(t, mtime);
            let changed = t.doc.path is Some && mtime is Some && mtime != t.disk_mtime;
            &&& v is Reload <==> changed && t.text == t.disk_text
            &&& v is Warn <==> changed && t.text != t.disk_text
            &&& v is Unchanged <==> !changed
        }),
{
}

/// A tab whose file was read again shows the file, and its lines count as unchanged; its
/// path, its marks and its pin stay, and so does the known time where none was read.
pub proof fn law_reload_shows_the_file(t: TabModel, fresh: Seq<char>, mtime: Option<Stamp>)
    ensures
        ({
            let r = reloaded(t, fresh, mtime);
            &&& r.text == fresh
            &&& r.doc == (tab::DocumentModel { text: fresh, ..t.doc })
            &&& r.disk_text == fresh
            &&& r.session_baseline == fresh
            &&& r.saved_baseline == fresh
            &&& mtime is Some ==> r.disk_mtime == mtime
            &&& mtime is None ==> r.disk_mtime == t.disk_mtime
            &&& r.edit_gen != t.edit_gen
            &&& !r.rope_live
            &&& r.pinned == t.pinned
            &&& r.bookmarks == t.bookmarks
            &&& r.doc_id == t.doc_id
        }),
{
}

/// The tabs after a look at the disk: those whose file is to be read again are left
/// for that, those with edits of their own are flagged.
pub open spec fn flagged(
    tabs: Seq<TabModel>,
    verdicts: Seq<DiskVerdict>,
) -> Seq<TabModel> {
    Seq::new(
        tabs.len(),
        |i: int|
            if verdicts[i] is Warn {
                TabModel { external_change: true, ..tabs[i] }
            } else {
                tabs[i]
            },
    )
}

/// Flag the tabs whose file changed under their unsaved edits. The flag stays until it
/// is resolved: the known modification time is not moved.
pub fn flag_external_changes(open: &mut TabSet, verdicts: &Vec<DiskVerdict>)
    requires
        old(open).wf(),
        verdicts@.len() == old(open)@.tabs.len(),
    ensures
        final(open).wf(),
        final(open)@ == (tabs::TabsModel {
            tabs: flagged(old(open)@.tabs, verdicts@),
            ..old(open)@
        }),
{
    let ghost before = open@;
    let mut i: usize = 0;
    let n: usize = open.tabs.len();
    while i < n
        invariant
            n == open.tabs@.len() == before.tabs.len() == verdicts@.len(),
            i <= n,
            open@.active == before.active,
            open@.closed == before.closed,
            forall|k: int|
                0 <= k < n ==> #[trigger] open@.tabs[k] == (if k < i {
                    flagged(before.tabs, verdicts@)[k]
                } else {
                    before.tabs[k]
                }),
        decreases n - i,
    {
        assert(open@.tabs[i as int] == before.tabs[i as int]);
        assert(open.tabs@[i as int]@ == before.tabs[i as int]);
        let ghost now = open@;
        if verdicts[i] == DiskVerdict::Warn {
            open.tabs[i].external_change = true;
        }
        proof {
            assert forall|k: int| 0 <= k < n implies #[trigger] open@.tabs[k] == (if k < i + 1 {
                flagged(before.tabs, verdicts@)[k]
            } else {
                before.tabs[k]
            }) by {
                if k != i {
                    assert(open@.tabs[k] == now.tabs[k]);
                }
            }
        }
        i += 1;
    }
    assert(open@.tabs =~= flagged(before.tabs, verdicts@));
}

/// A look at the disk flags the tabs whose file changed under their edits, and touches
/// nothing else: no text, and not the time that is known of any file.
pub proof fn law_look_at_disk_only_flags(tabs: Seq<TabModel>, verdicts: Seq<DiskVerdict>, i: int)
    requires
        0 <= i < tabs.len(),
    ensures
        flagged(tabs, verdicts).len() == tabs.len(),
        verdicts[i] is Warn ==> flagged(tabs, verdicts)[i].external_change,
        !(verdicts[i] is Warn) ==> flagged(tabs, verdicts)[i] == tabs[i],
        flagged(tabs, verdicts)[i] == (TabModel {
            external_change: flagged(tabs, verdicts)[i].external_change,
            ..tabs[i]
        }),
{
}

/// A tab whose "changed on disk" banner was answered with "Reload": the file, where it
/// could be read, replaces the edits; the banner goes either way.
pub open spec fn answered_reload(
    t: TabModel,
    fresh: Option<Seq<char>>,
    mtime: Option<Stamp>,
) -> TabModel {
    match (t.doc.path, fresh) {
        (Some(_), Some(f)) => reloaded(t, f, mtime),
        _ => TabModel { external_change: false, ..t },
    }
}

/// Answer the banner with "Reload". Gives the status line when the file was read.
pub fn answer_reload(t: &mut EditorTab, fresh: Option<String>, mtime: Option<Stamp>) -> (s: Option<
    String,
>)
    ensures
        final(t)@ == answered_reload(old(t)@, tab::opt_view(fresh), mtime),
        match s {
            Some(x) => old(t)@.doc.path is Some && fresh is Some && x@ == "reloaded "@
                + old(t)@.doc.path->0 + " from disk"@,
            None => old(t)@.doc.path is None || fresh is None,
        },
{
    let mut status: Option<String> = None;
    match &t.doc.path {
        Some(p) => {
            if fresh.is_some() {
                let mut line = "reloaded ".to_string();
                line.append(p.as_str());
                line.append(" from disk");
                status = Some(line);
            }
        },
        None => {},
    }
    if t.doc.path.is_some() {
        match fresh {
            Some(f) => {
                reload_tab(t, f, mtime);
            },
            None => {},
        }
    }
    t.external_change = false;
    status
}

/// A tab whose banner was answered with "Keep my version": the edits stay, and the
/// file's modification time counts as known.
pub open spec fn answered_keep(t: TabModel, mtime: Option<Stamp>) -> TabModel {
    TabModel {
        disk_mtime: if t.doc.path is Some {
            newer_stamp(mtime, t.disk_mtime)
        } else {
            t.disk_mtime
        },
        external_change: false,
        ..t
    }
}

/// Answer the banner with "Keep my version".
pub fn answer_keep(t: &mut EditorTab, mtime: Option<Stamp>)
    ensures
        final(t)@ == answered_keep(old(t)@, mtime),
{
    if t.doc.path.is_some() && mtime.is_some() {
        t.disk_mtime = mtime;
    }
    t.external_change = false;
}

/// Keeping one's version keeps the text, and the same look at the disk asks no more.
pub proof fn law_keep_settles(t: TabModel, mtime: Option<Stamp>)
    ensures
        answered_keep(t, mtime).text == t.text,
        answered_keep(t, mtime).doc == t.doc,
        disk_verdict(answered_keep(t, mtime), mtime) is Unchanged,
{
}

/// "Reload" puts the file in the place of the edits where it could be read, and leaves the
/// edits where it could not; the banner goes either way. "Keep my version" leaves the edits,
/// the document and what was on disk.
pub proof fn law_answers_to_the_banner(
    t: TabModel,
    fresh: Option<Seq<char>>,
    mtime: Option<Stamp>,
)
    ensures
        ({
            let r = answered_reload(t, fresh, mtime);
            &&& !r.external_change
            &&& fresh matches Some(f) ==> (t.doc.path is Some ==> r.text == f && !r.dirty())
            &&& t.doc.path is None || fresh is None ==> r == (TabModel {
                external_change: false,
                ..t
            })
        }),
        ({
            let k = answered_keep(t, mtime);
            &&& !k.external_change
            &&& k == (TabModel { external_change: false, disk_mtime: k.disk_mtime, ..t })
            &&& t.doc.path is None || mtime is None ==> k.disk_mtime == t.disk_mtime
        }),
{
}

/// The status line of a silent reload.
pub fn reload_status(path: &str) -> (s: String)
    ensures
        s@ == "reloaded "@ + path@ + " (external edit)"@,
{
    let mut s = "reloaded ".to_string();
    s.append(path);
    s.append(" (external edit)");
    s
}

/// Bring the tab of a file that is open already to the front. `keys` holds the identity
/// of each tab's file. `None`: the file is not open, and nothing changed.
pub fn focus_if_open(open: &mut TabSet, path: &str, key: &String, keys: &Vec<Option<String>>) -> (r:
    Option<String>)
    requires
        old(open).wf(),
        keys@.len() == old(open)@.tabs.len(),
    ensures
        final(open).wf(),
        match restore::tab_with_key(restore::key_views(keys@), key@, 0) {
            Some(i) => final(open)@ == old(open)@.focused(i) && r is Some && r->0@
                == "already open: "@ + path@,
            None => final(open)@ == old(open)@ && r is None,
        },
{
    match find_key(keys, key) {
        Some(i) => {
            open.active = i;
            let mut s = "already open: ".to_string();
            s.append(path);
            Some(s)
        },
        None => None,
    }
}

/// The tab of a file just opened, with the caret where it was left, if that is known.
pub open spec fn opened_tab(o: Opened, cursor: Option<usize>) -> TabModel {
    let t = tab::fresh_tab(o.doc@, o.doc@.text, o.mtime);
    match cursor {
        Some(c) => TabModel {
            rope_cursor: Some(
                if c <= t.text.len() {
                    c
                } else {
                    t.text.len() as usize
                },
            ),
            ..t
        },
        None => t,
    }
}

/// A file that was opened is shown as it was read, clean; its caret is where it was left, or
/// at the end of the text where it was left beyond it.
pub proof fn law_opened_file_is_shown(o: Opened, cursor: Option<usize>)
    requires
        o.doc@.text.len() <= usize::MAX,
    ensures
        ({
            let t = opened_tab(o, cursor);
            &&& t.doc == o.doc@
            &&& t.text == o.doc@.text
            &&& !t.dirty()
            &&& t.disk_mtime == o.mtime
            &&& cursor is None ==> t.rope_cursor is None
            &&& cursor matches Some(c) ==> (t.rope_cursor matches Some(at) && at <= t.text.len()
                && at <= c && (at == c || at == t.text.len()))
        }),
{
}

/// What opening a file says.
pub enum OpenReport {
    /// It is open: the status line.
    Opened(String),
    /// It could not be read: the notice.
    Failed(String),
}

/// Open a file in a new tab in front, or say why it could not be read. `cursor` is
/// where its caret was left, when that is to be restored.
pub fn finish_open(
    open: &mut TabSet,
    path: &str,
    loaded: Result<Opened, String>,
    cursor: Option<usize>,
) -> (r: OpenReport)
    requires
        old(open).wf(),
    ensures
        final(open).wf(),
        match loaded {
            Ok(o) => final(open)@ == old(open)@.with_tab(opened_tab(o, cursor))
                && (r matches OpenReport::Opened(s) && s@ == "opened "@ + path@),
            Err(e) => final(open)@ == old(open)@ && (r matches OpenReport::Failed(s) && s@
                == "open failed: "@ + e@),
        },
{
    match loaded {
        Ok(o) => {
            let mut t = EditorTab::from_opened(o);
            match cursor {
                Some(c) => {
                    let n: usize = chars_of(t.text.as_str()).len();
                    t.rope_cursor = Some(
                        if c <= n {
                            c
                        } else {
                            n
                        },
                    );
                },
                None => {},
            }
            open.push_tab(t);
            let mut s = "opened ".to_string();
            s.append(path);
            OpenReport::Opened(s)
        },
        Err(e) => {
            let mut s = "open failed: ".to_string();
            s.append(e.as_str());
            OpenReport::Failed(s)
        },
    }
}

/// No two tabs hold one file.
pub open spec fn one_tab_per_file(keys: Seq<Option<Seq<char>>>) -> bool {
    forall|i: int, j: int|
        #![trigger keys[i], keys[j]]
        0 <= i < j < keys.len() && keys[i] is Some ==> keys[i] != keys[j]
}

/// Opening a file keeps one tab per file: a file that is open is brought to the front,
/// and another one adds its identity to those that are open.
pub proof fn law_open_keeps_one_tab_per_file(keys: Seq<Option<Seq<char>>>, key: Seq<char>)
    requires
        one_tab_per_file(keys),
    ensures
        restore::tab_with_key(keys, key, 0) is None ==> one_tab_per_file(keys.push(Some(key))),
        restore::tab_with_key(keys, key, 0) matches Some(i) ==> 0 <= i < keys.len() && keys[i]
            == Some(key),
{
    lemma_first_key(keys, key, 0);
}

proof fn lemma_first_key(keys: Seq<Option<Seq<char>>>, key: Seq<char>, i: int)
    requires
        0 <= i <= keys.len(),
    ensures
        match restore::tab_with_key(keys, key, i) {
            Some(j) => i <= j < keys.len() && keys[j] == Some(key),
            None => forall|j: int| i <= j < keys.len() ==> #[trigger] keys[j] != Some(key),
        },
    decreases keys.len() - i,
{
    if i < keys.len() && keys[i] != Some(key) {
        lemma_first_key(keys, key, i + 1);
    }
}

/// A file is looked for among the tabs from the left: the first of its tabs is found, and
/// where none is found no tab holds it.
pub proof fn law_open_file_is_found(keys: Seq<Option<Seq<char>>>, key: Seq<char>)
    ensures
        restore::tab_with_key(keys, key, 0) is Some <==> keys.contains(Some(key)),
        restore::tab_with_key(keys, key, 0) matches Some(i) ==> 0 <= i < keys.len() && keys[i]
            == Some(key) && forall|j: int| 0 <= j < i ==> #[trigger] keys[j] != Some(key),
{
    lemma_first_key(keys, key, 0);
    lemma_first_key_is_first(keys, key, 0);
    if restore::tab_with_key(keys, key, 0) is Some {
        assert(keys[restore::tab_with_key(keys, key, 0)->0] == Some(key));
    }
}

proof fn lemma_first_key_is_first(keys: Seq<Option<Seq<char>>>, key: Seq<char>, i: int)
    requires
        0 <= i <= keys.len(),
    ensures
        restore::tab_with_key(keys, key, i) matches Some(k) ==> forall|j: int|
            i <= j < k ==> #[trigger] keys[j] != Some(key),
    decreases keys.len() - i,
{
    if i < keys.len() && keys[i] != Some(key) {
        lemma_first_key_is_first(keys, key, i + 1);
    }
}

/// Where a save goes.
#[derive(Clone, Copy, Debug, PartialEq, Eq, Structural)]
pub enum SaveStep {
    /// To the tab's file.
    Write,
    /// To a file that the user is asked for.
    AskPath,
}

/// A tab about to be saved: its text, tidied as the settings ask (`cleaned`), is shown
/// and is the document's text.
pub open spec fn prepared(t: TabModel, cleaned: Seq<char>) -> TabModel {
    let u = if cleaned != t.text {
        t.with_text(cleaned)
    } else {
        t
    };
    TabModel { doc: tab::DocumentModel { text: cleaned, ..t.doc }, ..u }
}

/// Take the tidied text into the tab and its document, and say where to write it.
pub fn prepare_save(t: &mut EditorTab, cleaned: String) -> (step: SaveStep)
    ensures
        final(t)@ == prepared(old(t)@, cleaned@),
        step == (if old(t)@.doc.path is None {
            SaveStep::AskPath
        } else {
            SaveStep::Write
        }),
{
    t.doc.text = cleaned.clone();
    if cleaned != t.text {
        t.set_text(cleaned);
    }
    if t.doc.path.is_none() {
        SaveStep::AskPath
    } else {
        SaveStep::Write
    }
}

/// What the status line and the notice say of a save.
pub struct SaveReport {
    /// The status line, where it changes.
    pub status: Option<String>,
    /// The notice, where there is one.
    pub toast: Option<String>,
}

/// The notice of a save that lost characters.
pub open spec fn lossy_toast(encoding: Seq<char>) -> Seq<char> {
    "Saved, but some characters can't be written as "@ + encoding
        + " — they were replaced. Convert the file to UTF-8 to keep them."@
}

/// The notice of a save that failed.
pub open spec fn failed_toast() -> Seq<char> {
    "Couldn't save the file. Check that you have permission to write here and that the disk isn't full, then try again."@
}

/// What a report says: of a save as `name` that went through, losing characters or
/// not, or of one that failed.
pub open spec fn report_says(
    r: SaveReport,
    name: Seq<char>,
    encoding: Seq<char>,
    written: Result<bool, ()>,
) -> bool {
    match written {
        Ok(lossy) => {
            &&& tab::opt_view(r.status) == Some("saved "@ + name)
            &&& tab::opt_view(r.toast) == (if lossy {
                Some(lossy_toast(encoding))
            } else {
                None
            })
        },
        Err(_) => r.status is None && tab::opt_view(r.toast) == Some(failed_toast()),
    }
}

/// A report of a save names the file and is silent otherwise, or warns by the name of the encoding
/// that lost characters; a save that failed says so and claims nothing saved.
pub proof fn law_report_tells_how_the_save_went(
    r: SaveReport,
    name: Seq<char>,
    encoding: Seq<char>,
    written: Result<bool, ()>,
)
    requires
        report_says(r, name, encoding, written),
    ensures
        r.status is Some <==> written is Ok,
        r.status matches Some(s) ==> find::contains(s@, name),
        r.toast is None <==> written == Ok::<bool, ()>(false),
        written == Ok::<bool, ()>(true) ==> r.toast is Some && find::contains(
            r.toast->0@,
            encoding,
        ),
{
    find::lemma_stands_between("saved "@, name, Seq::empty());
    assert("saved "@ + name + Seq::<char>::empty() =~= "saved "@ + name);
    find::lemma_stands_between(
        "Saved, but some characters can't be written as "@,
        encoding,
        " — they were replaced. Convert the file to UTF-8 to keep them."@,
    );
}

fn save_report(name: &str, encoding: &str, written: Result<bool, ()>) -> (r: SaveReport)
    ensures
        report_says(r, name@, encoding@, written),
{
    match written {
        Ok(lossy) => {
            let mut status = "saved ".to_string();
            status.append(name);
            let toast = if lossy {
                let mut s = "Saved, but some characters can't be written as ".to_string();
                s.append(encoding);
                s.append(" — they were replaced. Convert the file to UTF-8 to keep them.");
                Some(s)
            } else {
                None
            };
            SaveReport { status: Some(status), toast }
        },
        Err(_) => SaveReport {
            status: None,
            toast: Some(
                "Couldn't save the file. Check that you have permission to write here and that the disk isn't full, then try again.".to_string(),
            ),
        },
    }
}

/// A tab after its file was written (`Ok`, with whether characters were lost) or not.
pub open spec fn after_save(t: TabModel, written: Result<bool, ()>, mtime: Option<Stamp>) -> TabModel {
    match written {
        Ok(_) => TabModel {
            disk_text: t.text,
            disk_mtime: newer_stamp(mtime, t.disk_mtime),
            ..t
        }.change_saved(),
        Err(_) => t,
    }
}

/// Record that the tab's file was written, or was not.
pub fn finish_save(t: &mut EditorTab, written: Result<bool, ()>, mtime: Option<Stamp>) -> (r:
    SaveReport)
    ensures
        final(t)@ == after_save(old(t)@, written, mtime),
        report_says(r, old(t)@.doc.name, old(t)@.doc.encoding, written),
{
    let r = save_report(t.doc.name.as_str(), t.doc.encoding.as_str(), written);
    match written {
        Ok(_) => {
            t.disk_text = t.text.clone();
            if mtime.is_some() {
                t.disk_mtime = mtime;
            }
            t.mark_change_saved();
        },
        Err(_) => {},
    }
    r
}

/// A save leaves the tab clean, keeps its tidied text, and is no outside change.
pub proof fn law_save_leaves_clean(
    t: TabModel,
    cleaned: Seq<char>,
    lossy: bool,
    mtime: Option<Stamp>,
)
    ensures
        ({
            let s = after_save(prepared(t, cleaned), Ok(lossy), mtime);
            &&& !s.dirty()
            &&& s.text == cleaned
            &&& s.disk_text == cleaned
            &&& s.saved_baseline == cleaned
            &&& disk_verdict(s, mtime) is Unchanged
        }),
{
}

/// Preparing a save takes the tidied text into the tab and its document, and changes nothing
/// else of it but the generation. A save that failed leaves the tab as it was, so that the
/// next look at the disk and the change bar still hold; one that went through keeps the known
/// time where none could be read.
pub proof fn law_save_records_what_was_written(
    t: TabModel,
    cleaned: Seq<char>,
    lossy: bool,
    mtime: Option<Stamp>,
)
    ensures
        ({
            let p = prepared(t, cleaned);
            &&& p.text == cleaned
            &&& p.doc == (tab::DocumentModel { text: cleaned, ..t.doc })
            &&& p == (TabModel {
                text: cleaned,
                doc: p.doc,
                edit_gen: p.edit_gen,
                rope_live: p.rope_live,
                ..t
            })
            &&& cleaned == t.text ==> p.edit_gen == t.edit_gen && p.rope_live == t.rope_live
            &&& cleaned != t.text ==> p.edit_gen != t.edit_gen && !p.rope_live
        }),
        after_save(t, Err(()), mtime) == t,
        ({
            let s = after_save(t, Ok(lossy), mtime);
            &&& s.text == t.text
            &&& s.doc == t.doc
            &&& s.disk_text == t.text
            &&& s.saved_baseline == t.text
            &&& s.session_baseline == t.session_baseline
            &&& mtime is None ==> s.disk_mtime == t.disk_mtime
            &&& mtime is Some ==> s.disk_mtime == mtime
        }),
{
}

/// "Save as" gives the tab its new file, under its new name, and leaves it clean; one that
/// failed leaves the file it had. The text stays either way.
pub proof fn law_save_as_gives_a_new_place(
    t: TabModel,
    path: Seq<char>,
    name: Seq<char>,
    lossy: bool,
)
    ensures
        ({
            let s = after_save_as(t, path, name, Ok(lossy));
            &&& s.doc.path == Some(path)
            &&& s.doc.name == name
            &&& s.text == t.text
            &&& !s.dirty()
            &&& s.saved_baseline == t.text
            &&& s.doc.eol == t.doc.eol
            &&& s.doc.encoding == t.doc.encoding
        }),
        ({
            let f = after_save_as(t, path, name, Err(()));
            &&& f.doc.path == t.doc.path
            &&& f.doc.name == t.doc.name
            &&& f.text == t.text
            &&& f.saved_baseline == t.saved_baseline
        }),
{
}

/// A tab after "save as": its text is the document's, and on success its lines count
/// as saved and the document has its new place.
pub open spec fn after_save_as(
    t: TabModel,
    path: Seq<char>,
    name: Seq<char>,
    written: Result<bool, ()>,
) -> TabModel {
    let u = TabModel { doc: tab::DocumentModel { text: t.text, ..t.doc }, ..t };
    match written {
        Ok(_) => TabModel {
            doc: tab::DocumentModel { path: Some(path), name, ..u.doc },
            ..u
        }.change_saved(),
        Err(_) => u,
    }
}

/// Record that the tab was written to `path`, under the name `name`, or was not.
pub fn save_as_active(t: &mut EditorTab, path: String, name: String, written: Result<bool, ()>) -> (r:
    SaveReport)
    ensures
        final(t)@ == after_save_as(old(t)@, path@, name@, written),
        report_says(r, path@, old(t)@.doc.encoding, written),
{
    let r = save_report(path.as_str(), t.doc.encoding.as_str(), written);
    t.doc.text = t.text.clone();
    match written {
        Ok(_) => {
            t.doc.path = Some(path);
            t.doc.name = name;
            t.mark_change_saved();
        },
        Err(_) => {},
    }
    r
}

/// Take what the plugins' save hooks made of the text. Gives the status line when they
/// left a message.
pub fn apply_save_hooks(t: &mut EditorTab, hooked: Option<(String, Option<String>)>) -> (s: Option<
    String,
>)
    ensures
        match hooked {
            Some((text, note)) => final(t)@ == (if text@ != old(t)@.text {
                old(t)@.with_text(text@)
            } else {
                old(t)@
            }) && tab::opt_view(s) == tab::opt_view(note),
            None => final(t)@ == old(t)@ && s is None,
        },
{
    match hooked {
        Some((text, note)) => {
            if text != t.text {
                t.set_text(text);
            }
            note
        },
        None => None,
    }
}

} // verus!

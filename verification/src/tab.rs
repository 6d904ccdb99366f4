//! One open document and the state its tab keeps.
use std::collections::BTreeSet;
use vstd::prelude::*;
use vstd::string::*;

verus! {

/// How a document ends its lines.
#[derive(Clone, Copy, Debug, PartialEq, Eq, Structural)]
pub enum Eol {
    /// A line feed.
    Lf,
    /// A carriage return and a line feed.
    Crlf,
    /// A carriage return.
    Cr,
}

impl Eol {
    /// The line ending after this one when the status bar cycles through them.
    pub open spec fn spec_next(self) -> Eol {
        match self {
            Eol::Lf => Eol::Crlf,
            Eol::Crlf => Eol::Cr,
            Eol::Cr => Eol::Lf,
        }
    }

    /// Cycle LF, CRLF, CR.
    pub fn next(self) -> (e: Eol)
        ensures
            e == self.spec_next(),
    {
        match self {
            Eol::Lf => Eol::Crlf,
            Eol::Crlf => Eol::Cr,
            Eol::Cr => Eol::Lf,
        }
    }
}

/// Three clicks on the line-ending segment lead back to the first, from LF by way of CRLF and
/// CR.
pub proof fn law_eol_cycle(e: Eol)
    ensures
        e.spec_next() != e,
        e.spec_next().spec_next().spec_next() == e,
        e is Lf <==> e.spec_next() is Crlf,
        e is Crlf <==> e.spec_next() is Cr,
{
}

/// When a file was last modified, as its file system reports it.
#[derive(Clone, Copy, Debug, PartialEq, Eq, Structural)]
pub struct Stamp {
    /// Whole seconds since the epoch.
    pub secs: i64,
    /// The rest, in nanoseconds.
    pub nanos: u32,
}

/// The saved side of a tab: what was last read from or written to its file.
pub struct Document {
    /// The file, as it is displayed; a scratch document has none.
    pub path: Option<String>,
    /// The name its tab shows.
    pub name: String,
    /// The saved text.
    pub text: String,
    /// Too large to edit: browsed only.
    pub read_only_large: bool,
    /// How its lines end.
    pub eol: Eol,
    /// The name of its encoding.
    pub encoding: String,
    /// Its language, by file extension.
    pub language: Option<String>,
}

/// What a [`Document`] holds.
#[verifier::ext_equal]
pub struct DocumentModel {
    pub path: Option<Seq<char>>,
    pub name: Seq<char>,
    pub text: Seq<char>,
    pub read_only_large: bool,
    pub eol: Eol,
    pub encoding: Seq<char>,
    pub language: Option<Seq<char>>,
}

/// The contents of an optional string.
pub open spec fn opt_view(s: Option<String>) -> Option<Seq<char>> {
    match s {
        Some(x) => Some(x@),
        None => None,
    }
}

/// A copy of an optional string.
pub fn clone_opt(s: &Option<String>) -> (r: Option<String>)
    ensures
        opt_view(r) == opt_view(*s),
{
    match s {
        Some(x) => Some(x.clone()),
        None => None,
    }
}

impl View for Document {
    type V = DocumentModel;

    open spec fn view(&self) -> DocumentModel {
        DocumentModel {
            path: opt_view(self.path),
            name: self.name@,
            text: self.text@,
            read_only_large: self.read_only_large,
            eol: self.eol,
            encoding: self.encoding@,
            language: opt_view(self.language),
        }
    }
}

/// The document of a new, empty tab.
pub open spec fn scratch_document() -> DocumentModel {
    DocumentModel {
        path: None,
        name: "untitled"@,
        text: Seq::empty(),
        read_only_large: false,
        eol: Eol::Lf,
        encoding: "UTF-8"@,
        language: None,
    }
}

impl Document {
    /// The document of a new, empty tab.
    pub fn scratch() -> (d: Document)
        ensures
            d@ == scratch_document(),
    {
        Document {
            path: None,
            name: "untitled".to_string(),
            text: String::new(),
            read_only_large: false,
            eol: Eol::Lf,
            encoding: "UTF-8".to_string(),
            language: None,
        }
    }
}

/// One open document and its editable text.
pub struct EditorTab {
    /// The saved side.
    pub doc: Document,
    /// The text as it is being edited.
    pub text: String,
    /// Stable identity for the panes of the grid; zero until one is assigned.
    pub doc_id: u64,
    /// Anchored: not closed, not moved.
    pub pinned: bool,
    /// The file's modification time when it was last read or written.
    pub disk_mtime: Option<Stamp>,
    /// The exact text last read from or written to disk.
    pub disk_text: String,
    /// The caret of the rope editor, once it has drawn the tab.
    pub rope_cursor: Option<usize>,
    /// Whether the rope editor holds a buffer built from `text`.
    pub rope_live: bool,
    /// The bookmarked lines, counted from zero.
    pub bookmarks: BTreeSet<usize>,
    /// Counts the changes of `text`.
    pub edit_gen: u64,
    /// The file changed on disk while the tab holds unsaved edits.
    pub external_change: bool,
    /// The text when the tab was opened or reloaded.
    pub session_baseline: String,
    /// The text at the last save.
    pub saved_baseline: String,
    /// The generation that the per-line change states were computed for.
    pub change_gen: Option<u64>,
}

/// What an [`EditorTab`] holds.
#[verifier::ext_equal]
pub struct TabModel {
    pub doc: DocumentModel,
    pub text: Seq<char>,
    pub doc_id: u64,
    pub pinned: bool,
    pub disk_mtime: Option<Stamp>,
    pub disk_text: Seq<char>,
    pub rope_cursor: Option<usize>,
    pub rope_live: bool,
    pub bookmarks: Set<usize>,
    pub edit_gen: u64,
    pub external_change: bool,
    pub session_baseline: Seq<char>,
    pub saved_baseline: Seq<char>,
    pub change_gen: Option<u64>,
}

impl View for EditorTab {
    type V = TabModel;

    open spec fn view(&self) -> TabModel {
        TabModel {
            doc: self.doc@,
            text: self.text@,
            doc_id: self.doc_id,
            pinned: self.pinned,
            disk_mtime: self.disk_mtime,
            disk_text: self.disk_text@,
            rope_cursor: self.rope_cursor,
            rope_live: self.rope_live,
            bookmarks: self.bookmarks@,
            edit_gen: self.edit_gen,
            external_change: self.external_change,
            session_baseline: self.session_baseline@,
            saved_baseline: self.saved_baseline@,
            change_gen: self.change_gen,
        }
    }
}

/// The next edit generation: one more, starting over after the greatest.
pub open spec fn next_gen(g: u64) -> u64 {
    if g == u64::MAX {
        0
    } else {
        (g + 1) as u64
    }
}

impl TabModel {
    /// A tab is dirty when its text is not the saved one.
    pub open spec fn dirty(self) -> bool {
        self.text != self.doc.text
    }

    /// A tab whose content would be lost with it: dirty, or untitled with text.
    pub open spec fn unsaved(self) -> bool {
        self.dirty() || (self.doc.path is None && self.text.len() > 0)
    }

    /// A tab after its text was replaced from outside the editor.
    pub open spec fn with_text(self, text: Seq<char>) -> TabModel {
        TabModel { text, rope_live: false, edit_gen: next_gen(self.edit_gen), ..self }
    }

    /// A tab after its text was replaced in place by an editing command.
    pub open spec fn edited(self, text: Seq<char>) -> TabModel {
        TabModel { text, edit_gen: next_gen(self.edit_gen), ..self }
    }

    /// A tab after its lines count as saved.
    pub open spec fn change_saved(self) -> TabModel {
        TabModel { saved_baseline: self.text, change_gen: None, ..self }
    }

    /// A tab after its text became the clean reference.
    pub open spec fn rebased(self) -> TabModel {
        TabModel {
            session_baseline: self.text,
            saved_baseline: self.text,
            change_gen: None,
            ..self
        }
    }

    /// The title: the document's name, marked while it is dirty.
    pub open spec fn title(self) -> Seq<char> {
        if self.dirty() {
            "* "@ + self.doc.name
        } else {
            self.doc.name
        }
    }
}

/// A tab that shows `text` over the document `doc`.
pub open spec fn fresh_tab(
    doc: DocumentModel,
    text: Seq<char>,
    mtime: Option<Stamp>,
) -> TabModel {
    TabModel {
        doc,
        text,
        doc_id: 0,
        pinned: false,
        disk_mtime: mtime,
        disk_text: doc.text,
        rope_cursor: None,
        rope_live: false,
        bookmarks: Set::empty(),
        edit_gen: 0,
        external_change: false,
        session_baseline: doc.text,
        saved_baseline: doc.text,
        change_gen: None,
    }
}

/// A new, empty tab.
pub open spec fn scratch_tab() -> TabModel {
    fresh_tab(scratch_document(), Seq::empty(), None)
}

/// A file as it was found on disk.
pub struct Opened {
    /// Its document.
    pub doc: Document,
    /// When it was last modified, where that is known.
    pub mtime: Option<Stamp>,
}

/// A tab that holds `content` over the file it belongs to, or over nothing when the
/// file could not be read.
pub open spec fn backup_tab(opened: Option<Opened>, content: Seq<char>) -> TabModel {
    match opened {
        Some(o) => fresh_tab(o.doc@, content, o.mtime),
        None => fresh_tab(scratch_document(), content, None),
    }
}

/// Two restored copies of one file made one: the copy with unsaved content is
/// kept, and a kept copy that differs from the file is flagged.
pub open spec fn merged(existing: TabModel, candidate: TabModel) -> TabModel {
    let kept = if candidate.dirty() && !existing.dirty() {
        candidate
    } else {
        existing
    };
    if kept.dirty() {
        TabModel { external_change: true, ..kept }
    } else {
        kept
    }
}

impl EditorTab {
    fn fresh(doc: Document, text: String, mtime: Option<Stamp>) -> (t: EditorTab)
        ensures
            t@ == fresh_tab(doc@, text@, mtime),
    {
        let disk_text = doc.text.clone();
        let session_baseline = doc.text.clone();
        let saved_baseline = doc.text.clone();
        EditorTab {
            doc,
            text,
            doc_id: 0,
            pinned: false,
            disk_mtime: mtime,
            disk_text,
            rope_cursor: None,
            rope_live: false,
            bookmarks: BTreeSet::new(),
            edit_gen: 0,
            external_change: false,
            session_baseline,
            saved_baseline,
            change_gen: None,
        }
    }

    /// A new, empty tab.
    pub fn scratch() -> (t: EditorTab)
        ensures
            t@ == scratch_tab(),
            !t@.dirty(),
    {
        let t = EditorTab::fresh(Document::scratch(), String::new(), None);
        assert(t@ =~= scratch_tab());
        t
    }

    /// The tab of a file that was just read: clean, and its content is the
    /// baseline of the change bar.
    pub fn from_opened(opened: Opened) -> (t: EditorTab)
        ensures
            t@ == fresh_tab(opened.doc@, opened.doc@.text, opened.mtime),
            !t@.dirty(),
    {
        let text = opened.doc.text.clone();
        EditorTab::fresh(opened.doc, text, opened.mtime)
    }

    /// The tab of restored, unsaved content. `opened` is the file it belongs to, as
    /// it is on disk now; without one (no path, or the file is gone) the content
    /// restores as an untitled tab.
    pub fn from_backup(opened: Option<Opened>, content: String) -> (t: EditorTab)
        ensures
            t@ == backup_tab(opened, content@),
    {
        match opened {
            Some(o) => EditorTab::fresh(o.doc, content, o.mtime),
            None => EditorTab::fresh(Document::scratch(), content, None),
        }
    }

    /// Collapse a second restored copy of an open file into its tab. The copy with
    /// unsaved content is kept, and a kept copy that differs from the file on disk
    /// raises `external_change`.
    pub fn merge_restored_duplicate(existing: &mut EditorTab, candidate: EditorTab)
        ensures
            final(existing)@ == merged(old(existing)@, candidate@),
    {
        if candidate.is_dirty() && !existing.is_dirty() {
            *existing = candidate;
        }
        if existing.is_dirty() {
            existing.external_change = true;
        }
    }

    /// Whether the text differs from the saved one.
    pub fn is_dirty(&self) -> (b: bool)
        ensures
            b == self@.dirty(),
    {
        self.text != self.doc.text
    }

    /// Whether the tab's content would be lost with it.
    pub fn is_unsaved(&self) -> (b: bool)
        ensures
            b == self@.unsaved(),
    {
        self.is_dirty() || (self.doc.path.is_none() && !self.text.as_str().is_empty())
    }

    /// Replace the text from outside the editor; the rope editor's buffer is
    /// dropped with the old text.
    pub fn set_text(&mut self, new: String)
        ensures
            final(self)@ == old(self)@.with_text(new@),
    {
        self.text = new;
        self.rope_live = false;
        self.bump();
    }

    /// Replace the text in place.
    pub fn edit(&mut self, new: String)
        ensures
            final(self)@ == old(self)@.edited(new@),
    {
        self.text = new;
        self.bump();
    }

    /// Count a change of the text.
    pub fn bump(&mut self)
        ensures
            final(self)@ == (TabModel { edit_gen: next_gen(old(self)@.edit_gen), ..old(self)@ }),
    {
        self.edit_gen = if self.edit_gen == u64::MAX {
            0
        } else {
            self.edit_gen + 1
        };
    }

    /// The rope editor drew the tab, with its caret at `cursor`, and maybe changed the text.
    pub fn rope_drawn(&mut self, cursor: usize, changed: Option<String>)
        ensures
            final(self)@ == ({
                let t = TabModel {
                    rope_live: true,
                    rope_cursor: Some(cursor),
                    ..old(self)@
                };
                match changed {
                    Some(new) => t.edited(new@),
                    None => t,
                }
            }),
    {
        self.rope_live = true;
        self.rope_cursor = Some(cursor);
        match changed {
            Some(new) => {
                self.edit(new);
            },
            None => {},
        }
    }

    /// Take the text as saved: edited lines turn from "unsaved" to "saved".
    pub fn mark_change_saved(&mut self)
        ensures
            final(self)@ == old(self)@.change_saved(),
    {
        self.saved_baseline = self.text.clone();
        self.change_gen = None;
    }

    /// Take the text as the clean reference of the change bar.
    pub fn reset_change_baselines(&mut self)
        ensures
            final(self)@ == old(self)@.rebased(),
    {
        self.session_baseline = self.text.clone();
        self.saved_baseline = self.text.clone();
        self.change_gen = None;
    }

    /// The document's name, with `* ` before it while the tab is dirty.
    pub fn title(&self) -> (s: String)
        ensures
            s@ == self@.title(),
    {
        if self.is_dirty() {
            let mut s = "* ".to_string();
            s.append(self.doc.name.as_str());
            s
        } else {
            self.doc.name.clone()
        }
    }
}

/// Merging restored copies never drops unsaved content: a dirty copy's text is the
/// merged tab's text, and the merged tab says that it differs from the file.
pub proof fn law_merge_keeps_unsaved(existing: TabModel, candidate: TabModel)
    ensures
        existing.dirty() ==> merged(existing, candidate).text == existing.text,
        !existing.dirty() && candidate.dirty() ==> merged(existing, candidate).text
            == candidate.text,
        existing.dirty() || candidate.dirty() ==> merged(existing, candidate).dirty() && merged(
            existing,
            candidate,
        ).external_change,
{
}

/// Merging two clean copies changes nothing and raises no banner.
pub proof fn law_merge_clean_is_identity(existing: TabModel, candidate: TabModel)
    requires
        !existing.dirty(),
        !candidate.dirty(),
    ensures
        merged(existing, candidate) == existing,
{
}

/// Merging keeps one of the two copies whole: the one that is open already, unless only the
/// other has unsaved content. Nothing but the flag is changed on it.
pub proof fn law_merge_keeps_one_copy(existing: TabModel, candidate: TabModel)
    ensures
        ({
            let m = merged(existing, candidate);
            let kept = if existing.text == existing.doc.text && candidate.text
                != candidate.doc.text {
                candidate
            } else {
                existing
            };
            &&& m.external_change == (kept.external_change || kept.text != kept.doc.text)
            &&& m == (TabModel { external_change: m.external_change, ..kept })
        }),
{
}

/// Changing a tab's text changes its text and its generation: its file, its marks, its pin,
/// and what the text is held against stay. A text from outside drops the rope editor's
/// buffer, an edit in place does not.
pub proof fn law_new_text_changes_the_text_alone(t: TabModel, s: Seq<char>)
    ensures
        t.edited(s) == (TabModel { text: s, edit_gen: t.edited(s).edit_gen, ..t }),
        t.with_text(s) == (TabModel { rope_live: false, ..t.edited(s) }),
        t.edited(s).edit_gen != t.edit_gen,
{
}

/// Each change gets a generation of its own: as many changes as there are numbers pass before
/// one comes again.
pub proof fn law_generations_count_up(g: u64)
    ensures
        g < u64::MAX ==> next_gen(g) == g + 1,
        g == u64::MAX ==> next_gen(g) == 0,
{
}

/// A tab is dirty from the first character that differs from the saved text until its text
/// is that text again.
pub proof fn law_dirty_while_the_text_differs(t: TabModel, s: Seq<char>)
    ensures
        t.edited(s).dirty() <==> s != t.doc.text,
        t.with_text(s).dirty() <==> s != t.doc.text,
        !t.edited(s).edited(t.doc.text).dirty(),
{
}

/// Content that a tab alone holds is unsaved: text that differs from the saved one, and any
/// text of an untitled tab. A tab of a file that shows the saved text, and an empty untitled
/// tab, hold none.
pub proof fn law_unsaved_is_what_would_be_lost(t: TabModel)
    ensures
        t.text != t.doc.text ==> t.unsaved(),
        t.doc.path is None && t.text.len() > 0 ==> t.unsaved(),
        t.doc.path is Some && t.text == t.doc.text ==> !t.unsaved(),
        t.doc.path is None && t.text.len() == 0 && t.doc.text.len() == 0 ==> !t.unsaved(),
{
    if t.text.len() == 0 && t.doc.text.len() == 0 {
        assert(t.text =~= t.doc.text);
    }
}

/// The title is the document's name, behind a star and a space exactly while the tab is
/// dirty.
pub proof fn law_title_is_the_name(t: TabModel)
    ensures
        t.text == t.doc.text ==> t.title() == t.doc.name,
        t.text != t.doc.text ==> t.title() == seq!['*', ' '] + t.doc.name,
{
    reveal_strlit("* ");
    assert("* "@ =~= seq!['*', ' ']);
}

/// A new tab shows the text it is given over its document, unpinned, unmarked and with no
/// caret; what it is held against is the document's text.
pub proof fn law_new_tab_starts_plain(doc: DocumentModel, text: Seq<char>, mtime: Option<Stamp>)
    ensures
        ({
            let t = fresh_tab(doc, text, mtime);
            &&& t.doc == doc
            &&& t.text == text
            &&& t.disk_mtime == mtime
            &&& t.disk_text == doc.text
            &&& t.session_baseline == doc.text
            &&& t.saved_baseline == doc.text
            &&& t.dirty() <==> text != doc.text
            &&& !t.pinned
            &&& !t.external_change
            &&& t.bookmarks == Set::<usize>::empty()
            &&& t.rope_cursor is None
        }),
        scratch_tab().text.len() == 0,
        scratch_tab().doc.path is None,
        scratch_tab().doc.eol is Lf,
        !scratch_tab().doc.read_only_large,
        scratch_tab().doc.language is None,
        !scratch_tab().dirty(),
        !scratch_tab().unsaved(),
{
}

/// After a save the lines count as saved but still as edited since the tab was opened; after
/// a reset they count as neither. The text itself stays.
pub proof fn law_baselines(t: TabModel)
    ensures
        t.change_saved().saved_baseline == t.text,
        t.change_saved().session_baseline == t.session_baseline,
        t.rebased().saved_baseline == t.text,
        t.rebased().session_baseline == t.text,
        t.change_saved().change_gen is None,
        t.rebased().change_gen is None,
        t.change_saved() == (TabModel {
            saved_baseline: t.text,
            session_baseline: t.session_baseline,
            ..t.rebased()
        }),
        t.rebased().text == t.text,
        t.rebased().doc == t.doc,
        t.rebased().disk_text == t.disk_text,
        t.rebased().pinned == t.pinned,
        t.rebased().bookmarks == t.bookmarks,
{
}

/// What a tab's label starts with while the tab is pinned.
pub const PIN_GLYPH: char = '📌';

/// The label of a tab: its title, behind the pin glyph while it is pinned.
pub open spec fn label_of(title: Seq<char>, pinned: bool) -> Seq<char> {
    if pinned {
        seq![PIN_GLYPH] + title
    } else {
        title
    }
}

/// The label a tab shows. A pinned tab's starts with the pin glyph, so that it can be
/// told at a glance.
pub fn tab_display_label(title: &str, pinned: bool) -> (label: String)
    ensures
        label@ == label_of(title@, pinned),
{
    let mut label = String::new();
    if pinned {
        label.push(PIN_GLYPH);
    }
    label.append(title);
    assert(label@ =~= label_of(title@, pinned));
    label
}

/// A pinned tab can be told from its label: it ends in the title and is not the title.
pub proof fn law_pin_shows_in_label(title: Seq<char>)
    ensures
        label_of(title, true) != label_of(title, false),
        label_of(title, true).first() == PIN_GLYPH,
        label_of(title, true).skip(1) == title,
        label_of(title, false) == title,
{
    assert(label_of(title, true).len() == title.len() + 1);
    assert(label_of(title, true).skip(1) =~= title);
}

} // verus!

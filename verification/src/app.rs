//! The editor's state and the commands that change it.
use std::collections::BTreeSet;
use vstd::prelude::*;
use vstd::string::*;
use crate::bookmarks;
use crate::bookmarks::{pick_bookmark, toggle_bookmark};
use crate::plugins::{PluginManager, PluginManagerTab};
use crate::reporting::{IntakeModel, IssueIntake};
use crate::session;
use crate::shortcuts::Surfaces;
use crate::tab;
use crate::tab::{EditorTab, Eol};
use crate::tabs;
use crate::tabs::{pinned_status_line, CloseOutcome, TabSet};
use crate::theme;
use crate::theme::next_theme;

verus! {

broadcast use vstd::laws_cmp::group_laws_cmp;

/// The commands that the palette lists.
#[derive(Clone, Copy, Debug, PartialEq, Eq, Structural)]
pub enum BuiltinCommand {
    NewFile,
    OpenFile,
    OpenFolder,
    OpenRecentFolder,
    Save,
    ReportIssue,
    ConvertToMarkdown,
    ExportAsHtml,
    SetLineEndingsLf,
    SetLineEndingsCrlf,
    SetLineEndingsCr,
    CloseActiveTab,
    CloseAllTabs,
    CycleTabNext,
    CycleTabPrev,
    ToggleSplitView,
    ToggleMinimap,
    ToggleZen,
    ToggleMarkdownPreview,
    ToggleDiffView,
    ToggleSpellcheck,
    ToggleWordWrap,
    ToggleLineNumbers,
    ToggleChangeBar,
    OpenSettings,
    OpenFind,
    OpenPalette,
    CycleTheme,
    StartLsp,
    FoldAll,
    ExpandAll,
    OpenPluginManager,
    SortLines,
    SortLinesUnique,
    TrimTrailingWhitespace,
    EnsureFinalNewline,
    ConvertIndentToSpaces,
    ConvertIndentToTabs,
    RevealInExplorer,
    CopyFilePath,
    JumpMatchingBracket,
    InsertDateTime,
    DuplicateSelection,
    Copy,
    Cut,
    Paste,
    Undo,
    Redo,
    ToggleBookmark,
    NextBookmark,
    PrevBookmark,
    GoToSymbol,
}

/// A clipboard or history action for the editor that has the focus.
#[derive(Clone, Copy, Debug, PartialEq, Eq, Structural)]
pub enum EditorAction {
    Copy,
    Cut,
    Paste,
    Undo,
    Redo,
}

/// A rewrite of the whole buffer.
#[derive(Clone, Copy, Debug, PartialEq, Eq, Structural)]
pub enum Transform {
    SortLines,
    SortLinesUnique,
    TrimTrailingWhitespace,
    EnsureFinalNewline,
    IndentToSpaces,
    IndentToTabs,
}

/// What is left to do outside the state after a command.
pub enum Effect {
    /// Nothing.
    Nothing,
    /// Ask for a file and open it.
    OpenDialog,
    /// Ask for a folder and open it.
    PickFolder,
    /// Save the tab in front.
    Save,
    /// Convert the tab in front to Markdown and ask where to write it.
    ConvertToMarkdown,
    /// Render the tab in front as HTML and ask where to write it.
    ExportHtml,
    /// Write the settings, and say so.
    SaveConfig,
    /// Write the settings; what the command said stays on the status line.
    SaveConfigQuietly,
    /// A tab was closed. For a tab with a file: remember the caret, and write the
    /// settings.
    TabClosed(Option<(String, usize)>),
    /// Start the language server of the tab in front.
    StartLsp,
    /// Find the regions of the tab in front and fold them.
    FoldAll,
    /// Give the plugin manager, which is shown now, its default folders.
    OpenPluginManager,
    /// Rewrite the tab in front.
    Transform(Transform),
    /// Show the folder of the tab in front.
    RevealFolder,
    /// Put the path of the tab in front on the clipboard.
    CopyPath,
    /// Bring a line into view, counted from zero.
    GotoLine(usize),
}

/// The settings that commands turn over.
#[derive(Clone, Copy)]
pub struct Toggles {
    pub grid_enabled: bool,
    pub show_minimap: bool,
    pub spellcheck: bool,
    pub word_wrap: bool,
    pub show_line_numbers: bool,
    pub show_change_bar: bool,
}

/// Requests that wait for the editor to be drawn.
#[derive(Clone, Copy)]
pub struct Requests {
    pub jump_bracket: bool,
    pub insert_datetime: bool,
    pub dup_selection: bool,
    pub editor_action: Option<EditorAction>,
}

/// What is typed into the overlays.
pub struct Queries {
    pub palette: String,
    pub goto: String,
    pub goto_symbol: String,
    pub fuzzy: String,
    /// The row of the file finder that is selected.
    pub fuzzy_selected: usize,
}

/// What [`Queries`] hold.
#[verifier::ext_equal]
pub struct QueriesModel {
    pub palette: Seq<char>,
    pub goto: Seq<char>,
    pub goto_symbol: Seq<char>,
    pub fuzzy: Seq<char>,
    pub fuzzy_selected: usize,
}

impl View for Queries {
    type V = QueriesModel;

    open spec fn view(&self) -> QueriesModel {
        QueriesModel {
            palette: self.palette@,
            goto: self.goto@,
            goto_symbol: self.goto_symbol@,
            fuzzy: self.fuzzy@,
            fuzzy_selected: self.fuzzy_selected,
        }
    }
}

/// The editor.
pub struct ScribeApp {
    /// The tabs.
    pub open: TabSet,
    /// What is open.
    pub surfaces: Surfaces,
    /// What is typed into the overlays.
    pub queries: Queries,
    /// The settings that commands turn over.
    pub toggles: Toggles,
    /// The chosen theme.
    pub theme: String,
    /// The first lines of the regions that are folded.
    pub folds: BTreeSet<usize>,
    /// The window of the plugin manager.
    pub plugin_manager: PluginManager,
    /// The window for reporting an issue.
    pub issue_intake: IssueIntake,
    /// Requests that wait for the editor.
    pub requests: Requests,
    /// The status line.
    pub status: String,
    /// The notice that pops up.
    pub toast: Option<String>,
}

/// What a [`ScribeApp`] holds.
#[verifier::ext_equal]
pub struct AppModel {
    pub open: tabs::TabsModel,
    pub surfaces: Surfaces,
    pub queries: QueriesModel,
    pub toggles: Toggles,
    pub theme: Seq<char>,
    pub folds: Set<usize>,
    pub plugin_manager: PluginManager,
    pub issue_intake: IntakeModel,
    pub requests: Requests,
    pub status: Seq<char>,
    pub toast: Option<Seq<char>>,
}

impl View for ScribeApp {
    type V = AppModel;

    open spec fn view(&self) -> AppModel {
        AppModel {
            open: self.open@,
            surfaces: self.surfaces,
            queries: self.queries@,
            toggles: self.toggles,
            theme: self.theme@,
            folds: self.folds@,
            plugin_manager: self.plugin_manager,
            issue_intake: self.issue_intake@,
            requests: self.requests,
            status: self.status@,
            toast: tab::opt_view(self.toast),
        }
    }
}

/// What a command takes from outside the state.
pub struct Around {
    /// The line of the caret, counted from zero.
    pub line0: usize,
    /// The bundled themes, in order.
    pub themes: Vec<String>,
    /// The folder that the file of the tab in front is in.
    pub folder: Option<String>,
}

/// The name of a line ending, as it is shown.
pub open spec fn eol_label(e: Eol) -> Seq<char> {
    match e {
        Eol::Lf => "LF"@,
        Eol::Crlf => "CRLF"@,
        Eol::Cr => "CR"@,
    }
}

/// The name of a line ending, as it is shown.
pub fn eol_name(e: Eol) -> (s: &'static str)
    ensures
        s@ == eol_label(e),
{
    match e {
        Eol::Lf => "LF",
        Eol::Crlf => "CRLF",
        Eol::Cr => "CR",
    }
}

/// "on" or "off".
pub open spec fn on_off(b: bool) -> Seq<char> {
    if b {
        "on"@
    } else {
        "off"@
    }
}

fn on_off_name(b: bool) -> (s: &'static str)
    ensures
        s@ == on_off(b),
{
    if b {
        "on"
    } else {
        "off"
    }
}

impl AppModel {
    /// The tabs are well formed.
    pub open spec fn wf(self) -> bool {
        self.open.wf()
    }

    /// The tab in front.
    pub open spec fn front(self) -> tab::TabModel {
        self.open.tabs[self.open.active]
    }

    /// With the tab in front replaced.
    pub open spec fn with_front(self, t: tab::TabModel) -> AppModel {
        AppModel {
            open: tabs::TabsModel { tabs: self.open.tabs.update(self.open.active, t), ..self.open },
            ..self
        }
    }

    /// With another status line.
    pub open spec fn said(self, status: Seq<char>) -> AppModel {
        AppModel { status, ..self }
    }

    /// With a notice.
    pub open spec fn noted(self, toast: Seq<char>) -> AppModel {
        AppModel { toast: Some(toast), ..self }
    }

    /// After the line ending of the tab in front was chosen.
    pub open spec fn eol_set(self, e: Eol) -> AppModel {
        let t = self.front();
        self.with_front(
            tab::TabModel { doc: tab::DocumentModel { eol: e, ..t.doc }, ..t },
        ).said("line endings set to "@ + eol_label(e) + " — save to apply"@)
    }

    /// After the tab in front was closed; a pinned one stays and the status line says
    /// why.
    pub open spec fn front_closed(self) -> AppModel {
        if self.front().pinned {
            self.said(tabs::pinned_status())
        } else {
            AppModel { open: self.open.without(self.open.active), ..self }
        }
    }

    /// After all tabs were closed, pinned or not.
    pub open spec fn all_closed(self) -> AppModel {
        AppModel {
            open: tabs::TabsModel { tabs: seq![tab::scratch_tab()], active: 0, ..self.open },
            ..self
        }
    }

    /// After the next bundled theme was chosen.
    pub open spec fn theme_cycled(self, themes: Seq<Seq<char>>) -> AppModel {
        if themes.len() == 0 {
            self
        } else {
            let next = themes[theme::after(
                theme::place_of(themes, self.theme, 0),
                themes.len() as int,
            )];
            AppModel { theme: next, ..self }.said("theme: "@ + next)
        }
    }

    /// After the line of the caret was marked, or its mark removed.
    pub open spec fn marked(self, line0: usize) -> AppModel {
        let t = self.front();
        self.with_front(
            tab::TabModel { bookmarks: bookmarks::toggled(t.bookmarks, line0), ..t },
        ).said(bookmarks::toggle_status(t.bookmarks, line0))
    }

    /// After a bookmark was looked for.
    pub open spec fn looked_for_mark(self) -> AppModel {
        if self.front().bookmarks == Set::<usize>::empty() {
            self.said("no bookmarks in this buffer"@)
        } else {
            self
        }
    }

    /// After the grid was turned over: what is said of it.
    pub open spec fn grid_said(self) -> AppModel {
        self.said("multi-note grid: "@ + on_off(!self.toggles.grid_enabled))
    }

    /// After the minimap was turned over: what is said of it.
    pub open spec fn minimap_said(self) -> AppModel {
        self.said("minimap: "@ + on_off(!self.toggles.show_minimap))
    }

    /// With the plugin manager shown, on the pane that was in front.
    pub open spec fn plugins_shown(self) -> AppModel {
        AppModel { plugin_manager: PluginManager { open: true, ..self.plugin_manager }, ..self }
    }

    /// With the window for a new issue report shown.
    pub open spec fn report_started(self) -> AppModel {
        AppModel { issue_intake: IntakeModel::fresh(true), ..self }
    }

    /// After the folds were removed.
    pub open spec fn all_expanded(self) -> AppModel {
        AppModel { folds: Set::empty(), ..self }.said("expanded all"@)
    }
}

/// Two states are the same where all their parts are.
pub proof fn lemma_same_state(a: AppModel, b: AppModel)
    requires
        a.open == b.open,
        a.surfaces == b.surfaces,
        a.queries == b.queries,
        a.toggles == b.toggles,
        a.theme == b.theme,
        a.folds == b.folds,
        a.plugin_manager == b.plugin_manager,
        a.issue_intake == b.issue_intake,
        a.requests == b.requests,
        a.status == b.status,
        a.toast == b.toast,
    ensures
        a == b,
{
}

/// A change of the tab in front leaves every other tab, and which one is in front.
pub proof fn law_front_change_leaves_the_others(m: AppModel, t: tab::TabModel, i: int)
    requires
        m.wf(),
        0 <= i < m.open.tabs.len(),
    ensures
        m.with_front(t).wf(),
        m.with_front(t).front() == t,
        m.front() == m.open.tabs[m.open.active],
        i != m.open.active ==> m.with_front(t).open.tabs[i] == m.open.tabs[i],
        m.with_front(t).open.tabs.len() == m.open.tabs.len(),
        m.with_front(t).open.active == m.open.active,
        m.with_front(t).open.closed == m.open.closed,
        m.with_front(t) == (AppModel { open: m.with_front(t).open, ..m }),
{
}

/// What is said changes the status line alone, a notice the notice alone.
pub proof fn law_messages_change_nothing_else(m: AppModel, s: Seq<char>)
    ensures
        m.said(s).status == s,
        m.said(s).said(m.status) == m,
        m.noted(s).toast == Some(s),
        m.noted(s) == (AppModel { toast: Some(s), ..m }),
        m.said(s).toast == m.toast,
{
}

/// What a command opens and closes.
pub open spec fn surfaces_for(s: Surfaces, cmd: BuiltinCommand) -> Surfaces {
    match cmd {
        BuiltinCommand::OpenRecentFolder => Surfaces { recent_folders_open: true, ..s },
        BuiltinCommand::ToggleZen => s.zen_toggled(),
        BuiltinCommand::ToggleMarkdownPreview => Surfaces {
            md_preview_open: !s.md_preview_open,
            ..s
        },
        BuiltinCommand::ToggleDiffView => Surfaces { diff_view_open: !s.diff_view_open, ..s },
        BuiltinCommand::OpenSettings => Surfaces { settings_open: true, ..s },
        BuiltinCommand::OpenFind => Surfaces { find_open: true, focus_find: true, ..s },
        BuiltinCommand::OpenPalette => Surfaces { palette_open: true, focus_palette: true, ..s },
        BuiltinCommand::GoToSymbol => Surfaces {
            goto_symbol_open: true,
            focus_goto_symbol: true,
            ..s
        },
        _ => s,
    }
}

/// The settings that a command turns over.
pub open spec fn toggles_for(g: Toggles, cmd: BuiltinCommand) -> Toggles {
    match cmd {
        BuiltinCommand::ToggleSplitView => Toggles { grid_enabled: !g.grid_enabled, ..g },
        BuiltinCommand::ToggleMinimap => Toggles { show_minimap: !g.show_minimap, ..g },
        BuiltinCommand::ToggleSpellcheck => Toggles { spellcheck: !g.spellcheck, ..g },
        BuiltinCommand::ToggleWordWrap => Toggles { word_wrap: !g.word_wrap, ..g },
        BuiltinCommand::ToggleLineNumbers => Toggles {
            show_line_numbers: !g.show_line_numbers,
            ..g
        },
        BuiltinCommand::ToggleChangeBar => Toggles { show_change_bar: !g.show_change_bar, ..g },
        _ => g,
    }
}

/// What a command asks of the editor.
pub open spec fn requests_for(q: Requests, cmd: BuiltinCommand) -> Requests {
    match cmd {
        BuiltinCommand::JumpMatchingBracket => Requests { jump_bracket: true, ..q },
        BuiltinCommand::InsertDateTime => Requests { insert_datetime: true, ..q },
        BuiltinCommand::DuplicateSelection => Requests { dup_selection: true, ..q },
        BuiltinCommand::Copy => Requests { editor_action: Some(EditorAction::Copy), ..q },
        BuiltinCommand::Cut => Requests { editor_action: Some(EditorAction::Cut), ..q },
        BuiltinCommand::Paste => Requests { editor_action: Some(EditorAction::Paste), ..q },
        BuiltinCommand::Undo => Requests { editor_action: Some(EditorAction::Undo), ..q },
        BuiltinCommand::Redo => Requests { editor_action: Some(EditorAction::Redo), ..q },
        _ => q,
    }
}

/// What a command does to the tabs, the texts and the lines.
pub open spec fn content_after(
    m: AppModel,
    cmd: BuiltinCommand,
    line0: usize,
    themes: Seq<Seq<char>>,
    folder: Option<Seq<char>>,
) -> AppModel {
    match cmd {
        BuiltinCommand::NewFile => AppModel { open: m.open.with_new(), ..m },
        BuiltinCommand::SetLineEndingsLf => m.eol_set(Eol::Lf),
        BuiltinCommand::SetLineEndingsCrlf => m.eol_set(Eol::Crlf),
        BuiltinCommand::SetLineEndingsCr => m.eol_set(Eol::Cr),
        BuiltinCommand::CloseActiveTab => m.front_closed(),
        BuiltinCommand::CloseAllTabs => m.all_closed(),
        BuiltinCommand::CycleTabNext => AppModel { open: m.open.cycled_next(), ..m },
        BuiltinCommand::CycleTabPrev => AppModel { open: m.open.cycled_prev(), ..m },
        BuiltinCommand::ToggleSplitView => m.grid_said(),
        BuiltinCommand::ToggleMinimap => m.minimap_said(),
        BuiltinCommand::OpenPalette => AppModel {
            queries: QueriesModel { palette: Seq::empty(), ..m.queries },
            ..m
        },
        BuiltinCommand::CycleTheme => m.theme_cycled(themes),
        BuiltinCommand::ExpandAll => m.all_expanded(),
        BuiltinCommand::OpenPluginManager => m.plugins_shown(),
        BuiltinCommand::ReportIssue => m.report_started(),
        BuiltinCommand::RevealInExplorer => if folder is None {
            m.noted("This tab has no saved file to reveal."@)
        } else {
            m
        },
        BuiltinCommand::CopyFilePath => if m.front().doc.path is None {
            m.noted("This tab has no saved file path."@)
        } else {
            m
        },
        BuiltinCommand::ToggleBookmark => m.marked(line0),
        BuiltinCommand::NextBookmark => m.looked_for_mark(),
        BuiltinCommand::PrevBookmark => m.looked_for_mark(),
        BuiltinCommand::GoToSymbol => AppModel {
            queries: QueriesModel { goto_symbol: Seq::empty(), ..m.queries },
            ..m
        },
        _ => m,
    }
}

/// The state after a command.
pub open spec fn after_command(
    m: AppModel,
    cmd: BuiltinCommand,
    line0: usize,
    themes: Seq<Seq<char>>,
    folder: Option<Seq<char>>,
) -> AppModel {
    AppModel {
        surfaces: surfaces_for(m.surfaces, cmd),
        toggles: toggles_for(m.toggles, cmd),
        requests: requests_for(m.requests, cmd),
        ..content_after(m, cmd, line0, themes, folder)
    }
}

/// Each setting has the one command that turns it over: twice is never, and no command turns
/// over another.
pub proof fn law_each_setting_has_its_command(g: Toggles, cmd: BuiltinCommand)
    ensures
        ({
            let t = toggles_for(g, cmd);
            &&& toggles_for(t, cmd) == g
            &&& t.grid_enabled != g.grid_enabled <==> cmd is ToggleSplitView
            &&& t.show_minimap != g.show_minimap <==> cmd is ToggleMinimap
            &&& t.spellcheck != g.spellcheck <==> cmd is ToggleSpellcheck
            &&& t.word_wrap != g.word_wrap <==> cmd is ToggleWordWrap
            &&& t.show_line_numbers != g.show_line_numbers <==> cmd is ToggleLineNumbers
            &&& t.show_change_bar != g.show_change_bar <==> cmd is ToggleChangeBar
        }),
{
}

/// A clipboard or history command asks the editor for that action, and the others leave what
/// was asked for.
pub proof fn law_each_action_has_its_command(q: Requests, cmd: BuiltinCommand)
    ensures
        ({
            let r = requests_for(q, cmd);
            &&& cmd is Copy ==> r.editor_action == Some(EditorAction::Copy)
            &&& cmd is Cut ==> r.editor_action == Some(EditorAction::Cut)
            &&& cmd is Paste ==> r.editor_action == Some(EditorAction::Paste)
            &&& cmd is Undo ==> r.editor_action == Some(EditorAction::Undo)
            &&& cmd is Redo ==> r.editor_action == Some(EditorAction::Redo)
            &&& !(cmd is Copy || cmd is Cut || cmd is Paste || cmd is Undo || cmd is Redo)
                ==> r.editor_action == q.editor_action
            &&& r.jump_bracket <==> q.jump_bracket || cmd is JumpMatchingBracket
            &&& r.insert_datetime <==> q.insert_datetime || cmd is InsertDateTime
            &&& r.dup_selection <==> q.dup_selection || cmd is DuplicateSelection
        }),
{
}

/// Each window and mode has the one command that opens it or turns it over; the field that is
/// opened to type into gets the keyboard.
pub proof fn law_each_window_has_its_command(s: Surfaces, cmd: BuiltinCommand)
    ensures
        ({
            let t = surfaces_for(s, cmd);
            &&& t.recent_folders_open <==> s.recent_folders_open || cmd is OpenRecentFolder
            &&& t.settings_open <==> s.settings_open || cmd is OpenSettings
            &&& t.palette_open <==> s.palette_open || cmd is OpenPalette
            &&& t.focus_palette <==> s.focus_palette || cmd is OpenPalette
            &&& t.goto_symbol_open <==> s.goto_symbol_open || cmd is GoToSymbol
            &&& t.focus_goto_symbol <==> s.focus_goto_symbol || cmd is GoToSymbol
            &&& t.md_preview_open != s.md_preview_open <==> cmd is ToggleMarkdownPreview
            &&& t.diff_view_open != s.diff_view_open <==> cmd is ToggleDiffView
            &&& t.zen_mode != s.zen_mode <==> cmd is ToggleZen
            &&& cmd is OpenFind ==> t.find_open && t.focus_find
            &&& !(cmd is OpenFind || cmd is ToggleZen) ==> t.find_open == s.find_open
            &&& t.recent_open == s.recent_open
            &&& t.fuzzy_open == s.fuzzy_open
            &&& t.goto_open == s.goto_open
            &&& t.cheatsheet_open == s.cheatsheet_open
            &&& t.welcome_open == s.welcome_open
            &&& t.fold_view == s.fold_view
        }),
{
}

/// No command loses a text by itself: but for those that close tabs, every tab keeps its text,
/// its saved text and its file, in its place, and but for a new one there are no more tabs.
pub proof fn law_commands_keep_the_texts(
    m: AppModel,
    cmd: BuiltinCommand,
    line0: usize,
    themes: Seq<Seq<char>>,
    folder: Option<Seq<char>>,
    i: int,
)
    requires
        m.wf(),
        !(cmd is CloseActiveTab),
        !(cmd is CloseAllTabs),
        0 <= i < m.open.tabs.len(),
    ensures
        ({
            let a = after_command(m, cmd, line0, themes, folder).open;
            &&& a.wf()
            &&& a.tabs[i].text == m.open.tabs[i].text
            &&& a.tabs[i].doc.text == m.open.tabs[i].doc.text
            &&& a.tabs[i].doc.path == m.open.tabs[i].doc.path
            &&& a.tabs[i].pinned == m.open.tabs[i].pinned
            &&& a.closed == m.open.closed
            &&& a.tabs.len() == m.open.tabs.len() + (if cmd is NewFile {
                1int
            } else {
                0int
            })
            &&& !(cmd is NewFile || cmd is CycleTabNext || cmd is CycleTabPrev) ==> a.active
                == m.open.active
        }),
{
    tabs::law_cycle_back(m.open);
    lemma_open_after_command(m, cmd, line0, themes, folder);
    lemma_content_keeps_tabs(m, cmd, line0, themes, folder);
}

/// A command leaves the tabs that its content part leaves.
proof fn lemma_open_after_command(
    m: AppModel,
    cmd: BuiltinCommand,
    line0: usize,
    themes: Seq<Seq<char>>,
    folder: Option<Seq<char>>,
)
    ensures
        after_command(m, cmd, line0, themes, folder).open == content_after(
            m,
            cmd,
            line0,
            themes,
            folder,
        ).open,
{
}

/// The commands that change tabs, by what they change.
proof fn lemma_content_keeps_tabs(
    m: AppModel,
    cmd: BuiltinCommand,
    line0: usize,
    themes: Seq<Seq<char>>,
    folder: Option<Seq<char>>,
)
    requires
        !(cmd is CloseActiveTab),
        !(cmd is CloseAllTabs),
    ensures
        ({
            let a = content_after(m, cmd, line0, themes, folder).open;
            ||| cmd is NewFile && a == m.open.with_new()
            ||| cmd is CycleTabNext && a == m.open.cycled_next()
            ||| cmd is CycleTabPrev && a == m.open.cycled_prev()
            ||| cmd is SetLineEndingsLf && a == m.eol_set(Eol::Lf).open
            ||| cmd is SetLineEndingsCrlf && a == m.eol_set(Eol::Crlf).open
            ||| cmd is SetLineEndingsCr && a == m.eol_set(Eol::Cr).open
            ||| cmd is ToggleBookmark && a == m.marked(line0).open
            ||| !(cmd is NewFile) && a == m.open
        }),
{
}

/// The line-ending commands give the document in front that line ending, and change nothing
/// else of it.
pub proof fn law_line_ending_commands(m: AppModel, e: Eol)
    requires
        m.wf(),
    ensures
        ({
            let a = m.eol_set(e);
            &&& a.front().doc.eol == e
            &&& a.front().doc == (tab::DocumentModel { eol: e, ..m.front().doc })
            &&& a.front() == (tab::TabModel { doc: a.front().doc, ..m.front() })
            &&& forall|i: int|
                0 <= i < m.open.tabs.len() && i != m.open.active ==> a.open.tabs[i]
                    == #[trigger] m.open.tabs[i]
        }),
        forall|line0: usize, themes: Seq<Seq<char>>, folder: Option<Seq<char>>|
            #![trigger content_after(m, BuiltinCommand::SetLineEndingsLf, line0, themes, folder)]
            content_after(m, BuiltinCommand::SetLineEndingsLf, line0, themes, folder).front().doc.eol
                is Lf,
        forall|line0: usize, themes: Seq<Seq<char>>, folder: Option<Seq<char>>|
            #![trigger content_after(m, BuiltinCommand::SetLineEndingsCrlf, line0, themes, folder)]
            content_after(
                m,
                BuiltinCommand::SetLineEndingsCrlf,
                line0,
                themes,
                folder,
            ).front().doc.eol is Crlf,
        forall|line0: usize, themes: Seq<Seq<char>>, folder: Option<Seq<char>>|
            #![trigger content_after(m, BuiltinCommand::SetLineEndingsCr, line0, themes, folder)]
            content_after(m, BuiltinCommand::SetLineEndingsCr, line0, themes, folder).front().doc.eol
                is Cr,
{
}

/// Closing the tab in front closes that one, unless it is pinned: it then stays, and the
/// status line says so. Closing all leaves one new, empty tab, and the reopen stack as it was.
pub proof fn law_closing_commands(m: AppModel)
    requires
        m.wf(),
    ensures
        m.front().pinned ==> m.front_closed().open == m.open && m.front_closed().status
            == tabs::pinned_status(),
        !m.front().pinned ==> m.front_closed().open == m.open.without(m.open.active)
            && m.front_closed().status == m.status,
        m.all_closed().open.tabs == seq![tab::scratch_tab()],
        m.all_closed().open.active == 0,
        m.all_closed().open.closed == m.open.closed,
{
}

/// Marking a line turns its mark over and leaves the other marks and the text; looking for a
/// mark changes nothing but, where there is none, the status line.
pub proof fn law_bookmark_commands(m: AppModel, line0: usize, other: usize)
    requires
        m.wf(),
    ensures
        ({
            let a = m.marked(line0);
            &&& a.front().bookmarks.contains(line0) <==> !m.front().bookmarks.contains(line0)
            &&& other != line0 ==> (a.front().bookmarks.contains(other)
                <==> m.front().bookmarks.contains(other))
            &&& a.front() == (tab::TabModel { bookmarks: a.front().bookmarks, ..m.front() })
        }),
        m.looked_for_mark().open == m.open,
        m.front().bookmarks.contains(other) ==> m.looked_for_mark() == m,
{
}

/// A theme command goes to the theme behind the present one in the list, and from the last to
/// the first; a list without themes changes nothing.
pub proof fn law_theme_command(m: AppModel, themes: Seq<Seq<char>>, i: int)
    requires
        0 <= i < themes.len(),
        themes[i] == m.theme,
        forall|k: int| 0 <= k < i ==> #[trigger] themes[k] != m.theme,
    ensures
        i + 1 < themes.len() ==> m.theme_cycled(themes).theme == themes[i + 1],
        i + 1 == themes.len() ==> m.theme_cycled(themes).theme == themes[0],
        m.theme_cycled(Seq::empty()) == m,
        m.theme_cycled(themes).open == m.open,
{
    theme::lemma_place_of_first(themes, m.theme, 0, i);
}

/// "Report an issue" opens the window on an empty report of a bug, without diagnostics;
/// "expand all" leaves no fold; the plugin manager opens on the pane that was in front.
pub proof fn law_window_commands(m: AppModel)
    ensures
        m.report_started().issue_intake.open,
        m.report_started() == (AppModel { issue_intake: m.report_started().issue_intake, ..m }),
        m.all_expanded().folds == Set::<usize>::empty(),
        m.all_expanded().open == m.open,
        m.plugins_shown().plugin_manager.open,
        m.plugins_shown().plugin_manager.tab == m.plugin_manager.tab,
        m.plugins_shown().open == m.open,
{
}

/// The work that a command leaves outside the state, whatever the state is.
pub open spec fn outside_effect(cmd: BuiltinCommand) -> Effect {
    match cmd {
        BuiltinCommand::OpenFile => Effect::OpenDialog,
        BuiltinCommand::OpenFolder => Effect::PickFolder,
        BuiltinCommand::Save => Effect::Save,
        BuiltinCommand::ConvertToMarkdown => Effect::ConvertToMarkdown,
        BuiltinCommand::ExportAsHtml => Effect::ExportHtml,
        BuiltinCommand::ToggleSplitView => Effect::SaveConfigQuietly,
        BuiltinCommand::ToggleMinimap => Effect::SaveConfigQuietly,
        BuiltinCommand::ToggleSpellcheck => Effect::SaveConfig,
        BuiltinCommand::ToggleWordWrap => Effect::SaveConfig,
        BuiltinCommand::ToggleLineNumbers => Effect::SaveConfig,
        BuiltinCommand::ToggleChangeBar => Effect::SaveConfig,
        BuiltinCommand::StartLsp => Effect::StartLsp,
        BuiltinCommand::FoldAll => Effect::FoldAll,
        BuiltinCommand::OpenPluginManager => Effect::OpenPluginManager,
        BuiltinCommand::SortLines => Effect::Transform(Transform::SortLines),
        BuiltinCommand::SortLinesUnique => Effect::Transform(Transform::SortLinesUnique),
        BuiltinCommand::TrimTrailingWhitespace => Effect::Transform(
            Transform::TrimTrailingWhitespace,
        ),
        BuiltinCommand::EnsureFinalNewline => Effect::Transform(Transform::EnsureFinalNewline),
        BuiltinCommand::ConvertIndentToSpaces => Effect::Transform(Transform::IndentToSpaces),
        BuiltinCommand::ConvertIndentToTabs => Effect::Transform(Transform::IndentToTabs),
        _ => Effect::Nothing,
    }
}

/// Whether an effect is what a command leaves to do outside the state.
pub open spec fn effect_of(
    m: AppModel,
    cmd: BuiltinCommand,
    line0: usize,
    folder: Option<Seq<char>>,
    themes: Seq<Seq<char>>,
    e: Effect,
) -> bool {
    match cmd {
        BuiltinCommand::CloseActiveTab => close_ok(m.front(), e),
        BuiltinCommand::CycleTheme => e == (if themes.len() == 0 {
            Effect::Nothing
        } else {
            Effect::SaveConfigQuietly
        }),
        BuiltinCommand::RevealInExplorer => e == (if folder is None {
            Effect::Nothing
        } else {
            Effect::RevealFolder
        }),
        BuiltinCommand::CopyFilePath => e == (if m.front().doc.path is None {
            Effect::Nothing
        } else {
            Effect::CopyPath
        }),
        BuiltinCommand::NextBookmark => jump_ok(m.front().bookmarks, line0, true, e),
        BuiltinCommand::PrevBookmark => jump_ok(m.front().bookmarks, line0, false, e),
        _ => e == outside_effect(cmd),
    }
}

/// Whether an effect is what closing a tab leaves to do: nothing for a pinned one, else
/// its file and its caret.
pub open spec fn close_ok(t: tab::TabModel, e: Effect) -> bool {
    if t.pinned {
        e == Effect::Nothing
    } else {
        e matches Effect::TabClosed(place) && match place {
            Some((p, c)) => {
                let entry = tabs::TabsModel::closed_entry(t);
                entry.path == Some(p@) && entry.cursor == c
            },
            None => t.doc.path is None,
        }
    }
}

/// Whether an effect is the jump to the next or previous bookmark.
pub open spec fn jump_ok(marks: Set<usize>, line0: usize, forward: bool, e: Effect) -> bool {
    if marks == Set::<usize>::empty() {
        e == Effect::Nothing
    } else {
        e matches Effect::GotoLine(b) && if forward {
            bookmarks::is_next(marks, line0 as int, b)
        } else {
            bookmarks::is_previous(marks, line0 as int, b)
        }
    }
}

/// What closing a tab leaves to do names the file that it held and the place of its caret; a
/// pinned tab, which stays, leaves nothing.
pub proof fn law_closing_remembers_the_place(t: tab::TabModel, e: Effect)
    requires
        close_ok(t, e),
    ensures
        t.pinned ==> e is Nothing,
        !t.pinned ==> (e matches Effect::TabClosed(place) && match place {
            Some((file, at)) => t.doc.path == Some(file@) && (match t.rope_cursor {
                Some(c) => at == c,
                None => at == 0,
            }),
            None => t.doc.path is None,
        }),
{
}

/// A jump to a bookmark goes to a marked line; without marks nothing is left to do.
pub proof fn law_bookmark_jump_goes_to_a_mark(
    marks: Set<usize>,
    line0: usize,
    forward: bool,
    e: Effect,
)
    requires
        jump_ok(marks, line0, forward, e),
    ensures
        e matches Effect::GotoLine(b) ==> marks.contains(b),
        e is GotoLine || e is Nothing,
        e is Nothing ==> marks == Set::<usize>::empty(),
{
}

/// Each command that rewrites the text leaves that rewrite to do, and no other.
pub proof fn law_each_rewrite_has_its_command(cmd: BuiltinCommand)
    ensures
        outside_effect(cmd) == Effect::Transform(Transform::SortLines) <==> cmd is SortLines,
        outside_effect(cmd) == Effect::Transform(Transform::SortLinesUnique)
            <==> cmd is SortLinesUnique,
        outside_effect(cmd) == Effect::Transform(Transform::TrimTrailingWhitespace)
            <==> cmd is TrimTrailingWhitespace,
        outside_effect(cmd) == Effect::Transform(Transform::EnsureFinalNewline)
            <==> cmd is EnsureFinalNewline,
        outside_effect(cmd) == Effect::Transform(Transform::IndentToSpaces)
            <==> cmd is ConvertIndentToSpaces,
        outside_effect(cmd) == Effect::Transform(Transform::IndentToTabs)
            <==> cmd is ConvertIndentToTabs,
        outside_effect(cmd) is Save <==> cmd is Save,
        outside_effect(cmd) is OpenDialog <==> cmd is OpenFile,
        outside_effect(cmd) is PickFolder <==> cmd is OpenFolder,
        outside_effect(cmd) is ConvertToMarkdown <==> cmd is ConvertToMarkdown,
        outside_effect(cmd) is ExportHtml <==> cmd is ExportAsHtml,
        outside_effect(cmd) is StartLsp <==> cmd is StartLsp,
        outside_effect(cmd) is FoldAll <==> cmd is FoldAll,
{
}

/// A command that turns a setting over has the settings written, so that it lasts.
pub proof fn law_turned_settings_are_written(g: Toggles, cmd: BuiltinCommand)
    requires
        toggles_for(g, cmd) != g,
    ensures
        outside_effect(cmd) is SaveConfig || outside_effect(cmd) is SaveConfigQuietly,
{
}

/// What a command leaves to do that depends on the state: a theme is written where there is one to
/// go to, a folder shown and a path copied where there is one, and a notice is left where there is
/// none. Nothing else of the state changes with these two.
pub proof fn law_commands_on_a_file_need_one(
    m: AppModel,
    line0: usize,
    folder: Option<Seq<char>>,
    themes: Seq<Seq<char>>,
    e: Effect,
)
    ensures
        effect_of(m, BuiltinCommand::RevealInExplorer, line0, folder, themes, e) ==> (
        e is RevealFolder <==> folder is Some) && (e is Nothing <==> folder is None),
        effect_of(m, BuiltinCommand::CopyFilePath, line0, folder, themes, e) ==> (e is CopyPath
            <==> m.front().doc.path is Some) && (e is Nothing <==> m.front().doc.path is None),
        effect_of(m, BuiltinCommand::CycleTheme, line0, folder, themes, e) ==> (
        e is SaveConfigQuietly <==> themes.len() > 0) && (e is Nothing <==> themes.len() == 0),
        folder is Some ==> content_after(
            m,
            BuiltinCommand::RevealInExplorer,
            line0,
            themes,
            folder,
        ) == m,
        folder is None ==> content_after(
            m,
            BuiltinCommand::RevealInExplorer,
            line0,
            themes,
            folder,
        ).toast is Some,
        m.front().doc.path is Some ==> content_after(
            m,
            BuiltinCommand::CopyFilePath,
            line0,
            themes,
            folder,
        ) == m,
        m.front().doc.path is None ==> content_after(
            m,
            BuiltinCommand::CopyFilePath,
            line0,
            themes,
            folder,
        ).toast is Some,
{
}

/// The status line says "on" when a setting was turned on and "off" when it was turned off.
pub proof fn law_turned_settings_are_said(m: AppModel)
    ensures
        ({
            let g = toggles_for(m.toggles, BuiltinCommand::ToggleSplitView);
            &&& g.grid_enabled ==> m.grid_said().status == "multi-note grid: "@ + "on"@
            &&& !g.grid_enabled ==> m.grid_said().status == "multi-note grid: "@ + "off"@
        }),
        ({
            let g = toggles_for(m.toggles, BuiltinCommand::ToggleMinimap);
            &&& g.show_minimap ==> m.minimap_said().status == "minimap: "@ + "on"@
            &&& !g.show_minimap ==> m.minimap_said().status == "minimap: "@ + "off"@
        }),
{
}

/// The status line after the buffer was rewritten.
pub open spec fn transform_status(t: Transform) -> Seq<char> {
    match t {
        Transform::SortLines => "sorted lines (A-Z)"@,
        Transform::SortLinesUnique => "sorted lines (unique)"@,
        Transform::TrimTrailingWhitespace => "trimmed trailing whitespace"@,
        Transform::EnsureFinalNewline => "ensured a final newline"@,
        Transform::IndentToSpaces => "converted indentation to spaces"@,
        Transform::IndentToTabs => "converted indentation to tabs"@,
    }
}

impl ScribeApp {
    /// The tabs are well formed.
    pub open spec fn wf(&self) -> bool {
        self@.wf()
    }

    /// Put a message on the status line.
    pub(crate) fn say(&mut self, s: String)
        ensures
            final(self)@ == old(self)@.said(s@),
    {
        self.status = s;
    }

    /// Let a notice pop up.
    pub(crate) fn note(&mut self, s: String)
        ensures
            final(self)@ == old(self)@.noted(s@),
    {
        self.toast = Some(s);
    }

    /// Choose the line ending of the tab in front. It applies with the next save.
    pub fn set_active_eol(&mut self, eol: Eol)
        requires
            old(self).wf(),
        ensures
            final(self).wf(),
            final(self)@ == old(self)@.eol_set(eol),
    {
        let ghost before = self@;
        let active: usize = self.open.active;
        self.open.tabs[active].doc.eol = eol;
        assert(self@.open.tabs =~= before.eol_set(eol).open.tabs);
        let mut s = "line endings set to ".to_string();
        s.append(eol_name(eol));
        s.append(" — save to apply");
        self.say(s);
    }

    /// Close the tab in front; a pinned one stays.
    pub fn close_active(&mut self) -> (e: Effect)
        requires
            old(self).wf(),
        ensures
            final(self).wf(),
            final(self)@ == old(self)@.front_closed(),
            close_ok(old(self)@.front(), e),
    {
        let active: usize = self.open.active;
        match self.open.close_tab(active) {
            CloseOutcome::Absent => Effect::Nothing,
            CloseOutcome::Pinned => {
                self.say(pinned_status_line());
                Effect::Nothing
            },
            CloseOutcome::Closed(place) => Effect::TabClosed(place),
        }
    }

    /// Close all tabs, pinned or not, and leave one empty tab.
    fn close_every_tab(&mut self)
        requires
            old(self).wf(),
        ensures
            final(self).wf(),
            final(self)@ == old(self)@.all_closed(),
    {
        let mut tabs: Vec<EditorTab> = Vec::new();
        tabs.push(EditorTab::scratch());
        self.open.tabs = tabs;
        self.open.active = 0;
        assert(self@.open.tabs =~= seq![tab::scratch_tab()]);
    }

    /// Choose the bundled theme after the present one.
    pub fn cycle_theme(&mut self, themes: &Vec<String>) -> (changed: bool)
        ensures
            final(self)@ == old(self)@.theme_cycled(session::str_views(themes@)),
            changed == (themes@.len() > 0),
    {
        match next_theme(themes, self.theme.as_str()) {
            Some(next) => {
                let mut s = "theme: ".to_string();
                s.append(next.as_str());
                self.theme = next;
                self.say(s);
                true
            },
            None => false,
        }
    }

    /// Mark the line of the caret in the tab in front, or remove its mark.
    pub fn mark_line(&mut self, line0: usize)
        requires
            old(self).wf(),
            line0 < usize::MAX,
        ensures
            final(self).wf(),
            final(self)@ == old(self)@.marked(line0),
    {
        let ghost before = self@;
        let active: usize = self.open.active;
        let s = toggle_bookmark(&mut self.open.tabs[active].bookmarks, line0);
        assert(self@.open.tabs =~= before.marked(line0).open.tabs);
        self.say(s);
    }

    /// Look for the next or previous bookmark of the tab in front.
    pub fn jump_bookmark(&mut self, line0: usize, forward: bool) -> (e: Effect)
        requires
            old(self).wf(),
            line0 < usize::MAX,
        ensures
            final(self).wf(),
            final(self)@ == old(self)@.looked_for_mark(),
            jump_ok(old(self)@.front().bookmarks, line0, forward, e),
    {
        let ghost marks = self@.front().bookmarks;
        let active: usize = self.open.active;
        let dir: i32 = if forward {
            1
        } else {
            -1
        };
        match pick_bookmark(&self.open.tabs[active].bookmarks, line0, dir) {
            Some(b) => {
                assert(marks.contains(b));
                Effect::GotoLine(b)
            },
            None => {
                assert(marks =~= Set::<usize>::empty());
                self.say("no bookmarks in this buffer".to_string());
                Effect::Nothing
            },
        }
    }

    /// Remove the folds.
    pub fn expand_all(&mut self)
        ensures
            final(self)@ == old(self)@.all_expanded(),
    {
        self.folds = BTreeSet::new();
        self.say("expanded all".to_string());
    }

    /// Bring a pane of the plugin manager to the front.
    pub fn show_plugin_pane(&mut self, tab: PluginManagerTab)
        ensures
            final(self)@ == (AppModel {
                plugin_manager: PluginManager { tab, ..old(self)@.plugin_manager },
                ..old(self)@
            }),
    {
        self.plugin_manager = PluginManager { tab, ..self.plugin_manager };
    }

    /// Close the plugin manager. The pane in front stays in front for the next time.
    pub fn close_plugin_manager(&mut self)
        ensures
            final(self)@ == (AppModel {
                plugin_manager: PluginManager { open: false, ..old(self)@.plugin_manager },
                ..old(self)@
            }),
    {
        self.plugin_manager = PluginManager { open: false, ..self.plugin_manager };
    }

    /// What a command does to the tabs, the texts and the lines.
    #[verifier::rlimit(20)]
    fn execute_content(&mut self, cmd: BuiltinCommand, around: &Around) -> (e: Effect)
        requires
            old(self).wf(),
            around.line0 < usize::MAX,
        ensures
            final(self).wf(),
            final(self)@ == content_after(
                old(self)@,
                cmd,
                around.line0,
                session::str_views(around.themes@),
                tab::opt_view(around.folder),
            ),
            effect_of(
                old(self)@,
                cmd,
                around.line0,
                tab::opt_view(around.folder),
                session::str_views(around.themes@),
                e,
            ),
    {
        match cmd {
            BuiltinCommand::NewFile => {
                self.open.new_tab();
                Effect::Nothing
            },
            BuiltinCommand::SetLineEndingsLf => {
                self.set_active_eol(Eol::Lf);
                Effect::Nothing
            },
            BuiltinCommand::SetLineEndingsCrlf => {
                self.set_active_eol(Eol::Crlf);
                Effect::Nothing
            },
            BuiltinCommand::SetLineEndingsCr => {
                self.set_active_eol(Eol::Cr);
                Effect::Nothing
            },
            BuiltinCommand::CloseActiveTab => self.close_active(),
            BuiltinCommand::CloseAllTabs => {
                self.close_every_tab();
                Effect::Nothing
            },
            BuiltinCommand::CycleTabNext => {
                self.open.cycle_next();
                Effect::Nothing
            },
            BuiltinCommand::CycleTabPrev => {
                self.open.cycle_prev();
                Effect::Nothing
            },
            BuiltinCommand::ToggleSplitView => {
                let mut s = "multi-note grid: ".to_string();
                s.append(on_off_name(!self.toggles.grid_enabled));
                self.say(s);
                Effect::SaveConfigQuietly
            },
            BuiltinCommand::ToggleMinimap => {
                let mut s = "minimap: ".to_string();
                s.append(on_off_name(!self.toggles.show_minimap));
                self.say(s);
                Effect::SaveConfigQuietly
            },
            BuiltinCommand::OpenPalette => {
                self.queries.palette = String::new();
                Effect::Nothing
            },
            BuiltinCommand::OpenPluginManager => {
                self.plugin_manager = PluginManager { open: true, ..self.plugin_manager };
                Effect::OpenPluginManager
            },
            BuiltinCommand::ReportIssue => {
                self.issue_intake.open_fresh();
                Effect::Nothing
            },
            BuiltinCommand::CycleTheme => if self.cycle_theme(&around.themes) {
                Effect::SaveConfigQuietly
            } else {
                Effect::Nothing
            },
            BuiltinCommand::ExpandAll => {
                self.expand_all();
                Effect::Nothing
            },
            BuiltinCommand::RevealInExplorer => if around.folder.is_some() {
                Effect::RevealFolder
            } else {
                self.note("This tab has no saved file to reveal.".to_string());
                Effect::Nothing
            },
            BuiltinCommand::CopyFilePath => {
                let active: usize = self.open.active;
                if self.open.tabs[active].doc.path.is_some() {
                    Effect::CopyPath
                } else {
                    self.note("This tab has no saved file path.".to_string());
                    Effect::Nothing
                }
            },
            BuiltinCommand::ToggleBookmark => {
                self.mark_line(around.line0);
                Effect::Nothing
            },
            BuiltinCommand::NextBookmark => self.jump_bookmark(around.line0, true),
            BuiltinCommand::PrevBookmark => self.jump_bookmark(around.line0, false),
            BuiltinCommand::GoToSymbol => {
                self.queries.goto_symbol = String::new();
                Effect::Nothing
            },
            _ => outside_work(cmd),
        }
    }

    /// Carry out a command of the palette on the state, and say what is left to do
    /// outside it.
    pub fn execute_builtin(&mut self, cmd: BuiltinCommand, around: &Around) -> (e: Effect)
        requires
            old(self).wf(),
            around.line0 < usize::MAX,
        ensures
            final(self).wf(),
            final(self)@ == after_command(
                old(self)@,
                cmd,
                around.line0,
                session::str_views(around.themes@),
                tab::opt_view(around.folder),
            ),
            effect_of(
                old(self)@,
                cmd,
                around.line0,
                tab::opt_view(around.folder),
                session::str_views(around.themes@),
                e,
            ),
    {
        let surfaces = surfaces_after_command(self.surfaces, cmd);
        let toggles = toggles_after_command(self.toggles, cmd);
        let requests = requests_after_command(self.requests, cmd);
        let e = self.execute_content(cmd, around);
        self.surfaces = surfaces;
        self.toggles = toggles;
        self.requests = requests;
        e
    }
}

fn surfaces_after_command(s: Surfaces, cmd: BuiltinCommand) -> (r: Surfaces)
    ensures
        r == surfaces_for(s, cmd),
{
    match cmd {
        BuiltinCommand::OpenRecentFolder => Surfaces { recent_folders_open: true, ..s },
        BuiltinCommand::ToggleZen => {
            let mut t = s;
            t.toggle_zen();
            t
        },
        BuiltinCommand::ToggleMarkdownPreview => Surfaces {
            md_preview_open: !s.md_preview_open,
            ..s
        },
        BuiltinCommand::ToggleDiffView => Surfaces { diff_view_open: !s.diff_view_open, ..s },
        BuiltinCommand::OpenSettings => Surfaces { settings_open: true, ..s },
        BuiltinCommand::OpenFind => Surfaces { find_open: true, focus_find: true, ..s },
        BuiltinCommand::OpenPalette => Surfaces { palette_open: true, focus_palette: true, ..s },
        BuiltinCommand::GoToSymbol => Surfaces {
            goto_symbol_open: true,
            focus_goto_symbol: true,
            ..s
        },
        _ => s,
    }
}

fn toggles_after_command(g: Toggles, cmd: BuiltinCommand) -> (r: Toggles)
    ensures
        r == toggles_for(g, cmd),
{
    match cmd {
        BuiltinCommand::ToggleSplitView => Toggles { grid_enabled: !g.grid_enabled, ..g },
        BuiltinCommand::ToggleMinimap => Toggles { show_minimap: !g.show_minimap, ..g },
        BuiltinCommand::ToggleSpellcheck => Toggles { spellcheck: !g.spellcheck, ..g },
        BuiltinCommand::ToggleWordWrap => Toggles { word_wrap: !g.word_wrap, ..g },
        BuiltinCommand::ToggleLineNumbers => Toggles {
            show_line_numbers: !g.show_line_numbers,
            ..g
        },
        BuiltinCommand::ToggleChangeBar => Toggles { show_change_bar: !g.show_change_bar, ..g },
        _ => g,
    }
}

fn requests_after_command(q: Requests, cmd: BuiltinCommand) -> (r: Requests)
    ensures
        r == requests_for(q, cmd),
{
    match cmd {
        BuiltinCommand::JumpMatchingBracket => Requests { jump_bracket: true, ..q },
        BuiltinCommand::InsertDateTime => Requests { insert_datetime: true, ..q },
        BuiltinCommand::DuplicateSelection => Requests { dup_selection: true, ..q },
        BuiltinCommand::Copy => Requests { editor_action: Some(EditorAction::Copy), ..q },
        BuiltinCommand::Cut => Requests { editor_action: Some(EditorAction::Cut), ..q },
        BuiltinCommand::Paste => Requests { editor_action: Some(EditorAction::Paste), ..q },
        BuiltinCommand::Undo => Requests { editor_action: Some(EditorAction::Undo), ..q },
        BuiltinCommand::Redo => Requests { editor_action: Some(EditorAction::Redo), ..q },
        _ => q,
    }
}

/// The work that a command leaves outside the state, whatever the state is.
fn outside_work(cmd: BuiltinCommand) -> (e: Effect)
    ensures
        e == outside_effect(cmd),
{
    match cmd {
        BuiltinCommand::OpenFile => Effect::OpenDialog,
        BuiltinCommand::OpenFolder => Effect::PickFolder,
        BuiltinCommand::Save => Effect::Save,
        BuiltinCommand::ConvertToMarkdown => Effect::ConvertToMarkdown,
        BuiltinCommand::ExportAsHtml => Effect::ExportHtml,
        BuiltinCommand::ToggleSplitView => Effect::SaveConfigQuietly,
        BuiltinCommand::ToggleMinimap => Effect::SaveConfigQuietly,
        BuiltinCommand::ToggleSpellcheck => Effect::SaveConfig,
        BuiltinCommand::ToggleWordWrap => Effect::SaveConfig,
        BuiltinCommand::ToggleLineNumbers => Effect::SaveConfig,
        BuiltinCommand::ToggleChangeBar => Effect::SaveConfig,
        BuiltinCommand::StartLsp => Effect::StartLsp,
        BuiltinCommand::FoldAll => Effect::FoldAll,
        BuiltinCommand::OpenPluginManager => Effect::OpenPluginManager,
        BuiltinCommand::SortLines => Effect::Transform(Transform::SortLines),
        BuiltinCommand::SortLinesUnique => Effect::Transform(Transform::SortLinesUnique),
        BuiltinCommand::TrimTrailingWhitespace => Effect::Transform(
            Transform::TrimTrailingWhitespace,
        ),
        BuiltinCommand::EnsureFinalNewline => Effect::Transform(Transform::EnsureFinalNewline),
        BuiltinCommand::ConvertIndentToSpaces => Effect::Transform(Transform::IndentToSpaces),
        BuiltinCommand::ConvertIndentToTabs => Effect::Transform(Transform::IndentToTabs),
        _ => Effect::Nothing,
    }
}

} // verus!

//! The actions at the end of a frame, and what the editor says about them.
use std::collections::BTreeSet;
use vstd::prelude::*;
use vstd::string::*;
use crate::app;
use crate::app::{
    AppModel, Around, BuiltinCommand, EditorAction, Effect, QueriesModel, Requests, ScribeApp,
    Toggles, Transform,
};
use crate::plugins::PluginManager;
use crate::reporting::{IntakeModel, IssueIntake};
use crate::session;
use crate::shortcuts;
use crate::shortcuts::{take_keys, Key, KeyInput, Pending, Surfaces};
use crate::tab;
use crate::tab::{EditorTab, Opened};
use crate::tabs;
use crate::tabs::TabSet;
use crate::text;
use crate::text::decimal_string;

verus! {

broadcast use vstd::laws_cmp::group_laws_cmp;

/// One action at the end of a frame.
#[derive(Clone, Copy, Debug, PartialEq, Eq, Structural)]
pub enum Step {
    New,
    OpenDialog,
    Save,
    PluginCommand,
    Builtin(BuiltinCommand),
    SaveConfig,
    OpenFolder,
    CloseActive,
    ToggleGrid,
    CycleNext,
    CyclePrev,
    OpenReplace,
    ToggleComment,
    ToggleFullscreen,
    MoveLineUp,
    MoveLineDown,
    DuplicateLine,
    JoinLines,
    CycleTheme,
    FontZoom(i8),
    ReopenTab,
    ToggleBookmark,
    NextBookmark,
    PrevBookmark,
    ToggleMinimap,
    FoldAll,
    ExpandAll,
    OpenFuzzy,
    OpenDropped,
    OpenFromTree,
    CloseTree,
    StartLsp,
    OpenConfig,
    RestoreConfig,
    DismissConfig,
}

/// What the widgets of the frame ask for, beside the keys.
#[derive(Clone, Copy)]
pub struct Clicked {
    /// A plugin's command was chosen.
    pub plugin_command: bool,
    /// A command of the palette was chosen.
    pub builtin: Option<BuiltinCommand>,
    /// A setting was changed.
    pub save_config: bool,
    /// Files were dropped on the window.
    pub dropped: bool,
    /// A file of the tree was chosen.
    pub from_tree: bool,
    /// The tree was closed.
    pub close_tree: bool,
    /// The language server was asked for.
    pub start_lsp: bool,
    /// The banner's "open the settings file".
    pub open_config: bool,
    /// The banner's "restore defaults".
    pub restore_config: bool,
    /// The banner's "dismiss".
    pub dismiss_config: bool,
}

impl Clicked {
    /// Nothing was clicked.
    pub open spec fn idle(self) -> bool {
        &&& !self.plugin_command
        &&& self.builtin is None
        &&& !self.save_config
        &&& !self.dropped
        &&& !self.from_tree
        &&& !self.close_tree
        &&& !self.start_lsp
        &&& !self.open_config
        &&& !self.restore_config
        &&& !self.dismiss_config
    }
}

/// One step, if it is asked for.
pub open spec fn step_if(asked: bool, s: Step) -> Seq<Step> {
    if asked {
        seq![s]
    } else {
        Seq::empty()
    }
}

/// Opening, saving and the chosen commands.
pub open spec fn file_steps(a: Pending, c: Clicked) -> Seq<Step> {
    step_if(a.new, Step::New)
        + step_if(a.open, Step::OpenDialog)
        + step_if(a.save, Step::Save)
        + step_if(c.plugin_command, Step::PluginCommand)
        + (match c.builtin {
        Some(b) => seq![Step::Builtin(b)],
        None => Seq::empty(),
    })
        + step_if(c.save_config, Step::SaveConfig)
        + step_if(a.open_folder, Step::OpenFolder)
}

/// The tabs, the grid, the find bar and the window.
pub open spec fn tab_steps(a: Pending, c: Clicked) -> Seq<Step> {
    step_if(a.close_active_tab, Step::CloseActive)
        + step_if(a.toggle_grid, Step::ToggleGrid)
        + step_if(a.cycle_tab_next, Step::CycleNext)
        + step_if(a.cycle_tab_prev, Step::CyclePrev)
        + step_if(a.open_replace, Step::OpenReplace)
        + step_if(a.toggle_comment, Step::ToggleComment)
        + step_if(a.toggle_fullscreen, Step::ToggleFullscreen)
}

/// The lines, the theme and the font size.
pub open spec fn line_steps(a: Pending, c: Clicked) -> Seq<Step> {
    step_if(a.move_line_up, Step::MoveLineUp)
        + step_if(a.move_line_down, Step::MoveLineDown)
        + step_if(a.duplicate_line, Step::DuplicateLine)
        + step_if(a.join_lines, Step::JoinLines)
        + step_if(a.cycle_theme, Step::CycleTheme)
        + (match a.font_zoom {
        Some(z) => seq![Step::FontZoom(z)],
        None => Seq::empty(),
    })
        + step_if(a.reopen_tab, Step::ReopenTab)
}

/// The bookmarks, the minimap, the folds and the file finder.
pub open spec fn mark_steps(a: Pending, c: Clicked) -> Seq<Step> {
    step_if(a.toggle_bookmark, Step::ToggleBookmark)
        + step_if(a.next_bookmark, Step::NextBookmark)
        + step_if(a.prev_bookmark, Step::PrevBookmark)
        + step_if(a.toggle_minimap, Step::ToggleMinimap)
        + step_if(a.fold_all, Step::FoldAll)
        + step_if(a.expand_all, Step::ExpandAll)
        + step_if(a.open_fuzzy, Step::OpenFuzzy)
}

/// Dropped files, the tree, the language server and the settings banner.
pub open spec fn late_steps(a: Pending, c: Clicked) -> Seq<Step> {
    step_if(c.dropped, Step::OpenDropped)
        + step_if(c.from_tree, Step::OpenFromTree)
        + step_if(c.close_tree, Step::CloseTree)
        + step_if(c.start_lsp, Step::StartLsp)
        + step_if(c.open_config, Step::OpenConfig)
        + step_if(c.restore_config, Step::RestoreConfig)
        + step_if(c.dismiss_config, Step::DismissConfig)
}

/// The actions at the end of a frame, in the order in which they are carried out.
pub open spec fn steps_of(a: Pending, c: Clicked) -> Seq<Step> {
    file_steps(a, c) + tab_steps(a, c) + line_steps(a, c) + mark_steps(a, c) + late_steps(a, c)
}

fn push_if(v: &mut Vec<Step>, asked: bool, s: Step)
    ensures
        final(v)@ == old(v)@ + step_if(asked, s),
{
    if asked {
        v.push(s);
    }
    assert(v@ =~= old(v)@ + step_if(asked, s));
}

fn list_file_steps(a: &Pending, c: &Clicked) -> (v: Vec<Step>)
    ensures
        v@ == file_steps(*a, *c),
{
    let mut v: Vec<Step> = Vec::new();
    push_if(&mut v, a.new, Step::New);
    assert(v@ =~= step_if(a.new, Step::New));
    push_if(&mut v, a.open, Step::OpenDialog);
    push_if(&mut v, a.save, Step::Save);
    push_if(&mut v, c.plugin_command, Step::PluginCommand);
    let ghost before = v@;
    match c.builtin {
        Some(b) => {
            v.push(Step::Builtin(b));
            assert(v@ =~= before + seq![Step::Builtin(b)]);
        },
        None => {
            assert(v@ =~= before + Seq::<Step>::empty());
        },
    }
    push_if(&mut v, c.save_config, Step::SaveConfig);
    push_if(&mut v, a.open_folder, Step::OpenFolder);
    v
}

fn list_tab_steps(a: &Pending, c: &Clicked) -> (v: Vec<Step>)
    ensures
        v@ == tab_steps(*a, *c),
{
    let mut v: Vec<Step> = Vec::new();
    push_if(&mut v, a.close_active_tab, Step::CloseActive);
    assert(v@ =~= step_if(a.close_active_tab, Step::CloseActive));
    push_if(&mut v, a.toggle_grid, Step::ToggleGrid);
    push_if(&mut v, a.cycle_tab_next, Step::CycleNext);
    push_if(&mut v, a.cycle_tab_prev, Step::CyclePrev);
    push_if(&mut v, a.open_replace, Step::OpenReplace);
    push_if(&mut v, a.toggle_comment, Step::ToggleComment);
    push_if(&mut v, a.toggle_fullscreen, Step::ToggleFullscreen);
    v
}

fn list_line_steps(a: &Pending, c: &Clicked) -> (v: Vec<Step>)
    ensures
        v@ == line_steps(*a, *c),
{
    let mut v: Vec<Step> = Vec::new();
    push_if(&mut v, a.move_line_up, Step::MoveLineUp);
    assert(v@ =~= step_if(a.move_line_up, Step::MoveLineUp));
    push_if(&mut v, a.move_line_down, Step::MoveLineDown);
    push_if(&mut v, a.duplicate_line, Step::DuplicateLine);
    push_if(&mut v, a.join_lines, Step::JoinLines);
    push_if(&mut v, a.cycle_theme, Step::CycleTheme);
    let ghost before = v@;
    match a.font_zoom {
        Some(z) => {
            v.push(Step::FontZoom(z));
            assert(v@ =~= before + seq![Step::FontZoom(z)]);
        },
        None => {
            assert(v@ =~= before + Seq::<Step>::empty());
        },
    }
    push_if(&mut v, a.reopen_tab, Step::ReopenTab);
    v
}

fn list_mark_steps(a: &Pending, c: &Clicked) -> (v: Vec<Step>)
    ensures
        v@ == mark_steps(*a, *c),
{
    let mut v: Vec<Step> = Vec::new();
    push_if(&mut v, a.toggle_bookmark, Step::ToggleBookmark);
    assert(v@ =~= step_if(a.toggle_bookmark, Step::ToggleBookmark));
    push_if(&mut v, a.next_bookmark, Step::NextBookmark);
    push_if(&mut v, a.prev_bookmark, Step::PrevBookmark);
    push_if(&mut v, a.toggle_minimap, Step::ToggleMinimap);
    push_if(&mut v, a.fold_all, Step::FoldAll);
    push_if(&mut v, a.expand_all, Step::ExpandAll);
    push_if(&mut v, a.open_fuzzy, Step::OpenFuzzy);
    v
}

fn list_late_steps(a: &Pending, c: &Clicked) -> (v: Vec<Step>)
    ensures
        v@ == late_steps(*a, *c),
{
    let mut v: Vec<Step> = Vec::new();
    push_if(&mut v, c.dropped, Step::OpenDropped);
    assert(v@ =~= step_if(c.dropped, Step::OpenDropped));
    push_if(&mut v, c.from_tree, Step::OpenFromTree);
    push_if(&mut v, c.close_tree, Step::CloseTree);
    push_if(&mut v, c.start_lsp, Step::StartLsp);
    push_if(&mut v, c.open_config, Step::OpenConfig);
    push_if(&mut v, c.restore_config, Step::RestoreConfig);
    push_if(&mut v, c.dismiss_config, Step::DismissConfig);
    v
}

/// The actions at the end of a frame, in the order in which they are carried out.
pub fn deferred_steps(a: &Pending, c: &Clicked) -> (v: Vec<Step>)
    ensures
        v@ == steps_of(*a, *c),
{
    let mut v = list_file_steps(a, c);
    let mut tabs = list_tab_steps(a, c);
    let mut lines = list_line_steps(a, c);
    let mut marks = list_mark_steps(a, c);
    let mut late = list_late_steps(a, c);
    v.append(&mut tabs);
    v.append(&mut lines);
    v.append(&mut marks);
    v.append(&mut late);
    v
}

/// A frame in which nothing is asked for changes nothing.
pub proof fn law_idle_frame_has_no_steps(c: Clicked)
    requires
        c.idle(),
    ensures
        steps_of(Pending::spec_none(), c) == Seq::<Step>::empty(),
{
    assert(steps_of(Pending::spec_none(), c) =~= Seq::<Step>::empty());
}

/// What is asked for is done, and nothing else is: a step is carried out exactly when its key
/// or its widget asked for it.
pub proof fn law_every_asked_step_is_done(a: Pending, c: Clicked, x: Step)
    ensures
        steps_of(a, c).contains(x) <==> step_asked(a, c, x),
{
    let p = file_steps(a, c);
    let q = tab_steps(a, c);
    let r = line_steps(a, c);
    let s = mark_steps(a, c);
    let t = late_steps(a, c);
    lemma_in_concat(p, q, x);
    lemma_in_concat(p + q, r, x);
    lemma_in_concat(p + q + r, s, x);
    lemma_in_concat(p + q + r + s, t, x);
    lemma_file_steps(a, c, x);
    lemma_tab_steps(a, c, x);
    lemma_line_steps(a, c, x);
    lemma_mark_steps(a, c, x);
    lemma_late_steps(a, c, x);
}

/// A tab that is to be saved and closed in one frame is saved before it is closed.
pub proof fn law_save_comes_before_close(a: Pending, c: Clicked)
    requires
        a.save,
        a.close_active_tab,
    ensures
        exists|p: int, q: int|
            0 <= p < q < steps_of(a, c).len() && #[trigger] steps_of(a, c)[p] == Step::Save
                && #[trigger] steps_of(a, c)[q] == Step::CloseActive,
{
    lemma_file_steps(a, c, Step::Save);
    lemma_tab_steps(a, c, Step::CloseActive);
    let f = file_steps(a, c);
    let t = tab_steps(a, c);
    let p = choose|p: int| 0 <= p < f.len() && f[p] == Step::Save;
    let q = choose|q: int| 0 <= q < t.len() && t[q] == Step::CloseActive;
    assert(steps_of(a, c)[p] == Step::Save);
    assert(steps_of(a, c)[f.len() + q] == Step::CloseActive);
}

/// Whether a step is asked for: by its key, or by its widget.
pub open spec fn step_asked(a: Pending, c: Clicked, x: Step) -> bool {
    match x {
        Step::New => a.new,
        Step::OpenDialog => a.open,
        Step::Save => a.save,
        Step::PluginCommand => c.plugin_command,
        Step::Builtin(b) => c.builtin == Some(b),
        Step::SaveConfig => c.save_config,
        Step::OpenFolder => a.open_folder,
        Step::CloseActive => a.close_active_tab,
        Step::ToggleGrid => a.toggle_grid,
        Step::CycleNext => a.cycle_tab_next,
        Step::CyclePrev => a.cycle_tab_prev,
        Step::OpenReplace => a.open_replace,
        Step::ToggleComment => a.toggle_comment,
        Step::ToggleFullscreen => a.toggle_fullscreen,
        Step::MoveLineUp => a.move_line_up,
        Step::MoveLineDown => a.move_line_down,
        Step::DuplicateLine => a.duplicate_line,
        Step::JoinLines => a.join_lines,
        Step::CycleTheme => a.cycle_theme,
        Step::FontZoom(z) => a.font_zoom == Some(z),
        Step::ReopenTab => a.reopen_tab,
        Step::ToggleBookmark => a.toggle_bookmark,
        Step::NextBookmark => a.next_bookmark,
        Step::PrevBookmark => a.prev_bookmark,
        Step::ToggleMinimap => a.toggle_minimap,
        Step::FoldAll => a.fold_all,
        Step::ExpandAll => a.expand_all,
        Step::OpenFuzzy => a.open_fuzzy,
        Step::OpenDropped => c.dropped,
        Step::OpenFromTree => c.from_tree,
        Step::CloseTree => c.close_tree,
        Step::StartLsp => c.start_lsp,
        Step::OpenConfig => c.open_config,
        Step::RestoreConfig => c.restore_config,
        Step::DismissConfig => c.dismiss_config,
    }
}

proof fn lemma_in_concat(a: Seq<Step>, b: Seq<Step>, x: Step)
    ensures
        (a + b).contains(x) <==> a.contains(x) || b.contains(x),
{
    let c = a + b;
    if a.contains(x) {
        let k = choose|k: int| 0 <= k < a.len() && a[k] == x;
        assert(c[k] == x);
    }
    if b.contains(x) {
        let k = choose|k: int| 0 <= k < b.len() && b[k] == x;
        assert(c[a.len() + k] == x);
    }
    if c.contains(x) {
        let k = choose|k: int| 0 <= k < c.len() && c[k] == x;
        assert(k < a.len() ==> a[k] == x);
        assert(k >= a.len() ==> b[k - a.len()] == x);
    }
}

proof fn lemma_in_step_if(asked: bool, s: Step, x: Step)
    ensures
        step_if(asked, s).contains(x) <==> asked && x == s,
{
    if asked {
        assert(step_if(asked, s)[0] == s);
    }
}

proof fn lemma_seven(
    p: Seq<Step>,
    q: Seq<Step>,
    r: Seq<Step>,
    s: Seq<Step>,
    t: Seq<Step>,
    u: Seq<Step>,
    v: Seq<Step>,
    x: Step,
)
    ensures
        (p + q + r + s + t + u + v).contains(x) <==> p.contains(x) || q.contains(x) || r.contains(x)
            || s.contains(x) || t.contains(x) || u.contains(x) || v.contains(x),
{
    lemma_in_concat(p, q, x);
    lemma_in_concat(p + q, r, x);
    lemma_in_concat(p + q + r, s, x);
    lemma_in_concat(p + q + r + s, t, x);
    lemma_in_concat(p + q + r + s + t, u, x);
    lemma_in_concat(p + q + r + s + t + u, v, x);
}

proof fn lemma_file_steps(a: Pending, c: Clicked, x: Step)
    ensures
        file_steps(a, c).contains(x) <==> step_asked(a, c, x) && (x is New || x is OpenDialog
            || x is Save || x is PluginCommand || x is Builtin || x is SaveConfig
            || x is OpenFolder),
{
    let b = match c.builtin {
        Some(b) => seq![Step::Builtin(b)],
        None => Seq::empty(),
    };
    lemma_seven(
        step_if(a.new, Step::New),
        step_if(a.open, Step::OpenDialog),
        step_if(a.save, Step::Save),
        step_if(c.plugin_command, Step::PluginCommand),
        b,
        step_if(c.save_config, Step::SaveConfig),
        step_if(a.open_folder, Step::OpenFolder),
        x,
    );
    lemma_in_step_if(a.new, Step::New, x);
    lemma_in_step_if(a.open, Step::OpenDialog, x);
    lemma_in_step_if(a.save, Step::Save, x);
    lemma_in_step_if(c.plugin_command, Step::PluginCommand, x);
    lemma_in_step_if(c.save_config, Step::SaveConfig, x);
    lemma_in_step_if(a.open_folder, Step::OpenFolder, x);
    if let Some(k) = c.builtin {
        assert(b[0] == Step::Builtin(k));
    }
}

proof fn lemma_tab_steps(a: Pending, c: Clicked, x: Step)
    ensures
        tab_steps(a, c).contains(x) <==> step_asked(a, c, x) && (x is CloseActive || x is ToggleGrid
            || x is CycleNext || x is CyclePrev || x is OpenReplace || x is ToggleComment
            || x is ToggleFullscreen),
{
    lemma_seven(
        step_if(a.close_active_tab, Step::CloseActive),
        step_if(a.toggle_grid, Step::ToggleGrid),
        step_if(a.cycle_tab_next, Step::CycleNext),
        step_if(a.cycle_tab_prev, Step::CyclePrev),
        step_if(a.open_replace, Step::OpenReplace),
        step_if(a.toggle_comment, Step::ToggleComment),
        step_if(a.toggle_fullscreen, Step::ToggleFullscreen),
        x,
    );
    lemma_in_step_if(a.close_active_tab, Step::CloseActive, x);
    lemma_in_step_if(a.toggle_grid, Step::ToggleGrid, x);
    lemma_in_step_if(a.cycle_tab_next, Step::CycleNext, x);
    lemma_in_step_if(a.cycle_tab_prev, Step::CyclePrev, x);
    lemma_in_step_if(a.open_replace, Step::OpenReplace, x);
    lemma_in_step_if(a.toggle_comment, Step::ToggleComment, x);
    lemma_in_step_if(a.toggle_fullscreen, Step::ToggleFullscreen, x);
}

proof fn lemma_line_steps(a: Pending, c: Clicked, x: Step)
    ensures
        line_steps(a, c).contains(x) <==> step_asked(a, c, x) && (x is MoveLineUp
            || x is MoveLineDown || x is DuplicateLine || x is JoinLines || x is CycleTheme
            || x is FontZoom || x is ReopenTab),
{
    let z = match a.font_zoom {
        Some(z) => seq![Step::FontZoom(z)],
        None => Seq::empty(),
    };
    lemma_seven(
        step_if(a.move_line_up, Step::MoveLineUp),
        step_if(a.move_line_down, Step::MoveLineDown),
        step_if(a.duplicate_line, Step::DuplicateLine),
        step_if(a.join_lines, Step::JoinLines),
        step_if(a.cycle_theme, Step::CycleTheme),
        z,
        step_if(a.reopen_tab, Step::ReopenTab),
        x,
    );
    lemma_in_step_if(a.move_line_up, Step::MoveLineUp, x);
    lemma_in_step_if(a.move_line_down, Step::MoveLineDown, x);
    lemma_in_step_if(a.duplicate_line, Step::DuplicateLine, x);
    lemma_in_step_if(a.join_lines, Step::JoinLines, x);
    lemma_in_step_if(a.cycle_theme, Step::CycleTheme, x);
    lemma_in_step_if(a.reopen_tab, Step::ReopenTab, x);
    if let Some(k) = a.font_zoom {
        assert(z[0] == Step::FontZoom(k));
    }
}

proof fn lemma_mark_steps(a: Pending, c: Clicked, x: Step)
    ensures
        mark_steps(a, c).contains(x) <==> step_asked(a, c, x) && (x is ToggleBookmark
            || x is NextBookmark || x is PrevBookmark || x is ToggleMinimap || x is FoldAll
            || x is ExpandAll || x is OpenFuzzy),
{
    lemma_seven(
        step_if(a.toggle_bookmark, Step::ToggleBookmark),
        step_if(a.next_bookmark, Step::NextBookmark),
        step_if(a.prev_bookmark, Step::PrevBookmark),
        step_if(a.toggle_minimap, Step::ToggleMinimap),
        step_if(a.fold_all, Step::FoldAll),
        step_if(a.expand_all, Step::ExpandAll),
        step_if(a.open_fuzzy, Step::OpenFuzzy),
        x,
    );
    lemma_in_step_if(a.toggle_bookmark, Step::ToggleBookmark, x);
    lemma_in_step_if(a.next_bookmark, Step::NextBookmark, x);
    lemma_in_step_if(a.prev_bookmark, Step::PrevBookmark, x);
    lemma_in_step_if(a.toggle_minimap, Step::ToggleMinimap, x);
    lemma_in_step_if(a.fold_all, Step::FoldAll, x);
    lemma_in_step_if(a.expand_all, Step::ExpandAll, x);
    lemma_in_step_if(a.open_fuzzy, Step::OpenFuzzy, x);
}

proof fn lemma_late_steps(a: Pending, c: Clicked, x: Step)
    ensures
        late_steps(a, c).contains(x) <==> step_asked(a, c, x) && (x is OpenDropped
            || x is OpenFromTree || x is CloseTree || x is StartLsp || x is OpenConfig
            || x is RestoreConfig || x is DismissConfig),
{
    lemma_seven(
        step_if(c.dropped, Step::OpenDropped),
        step_if(c.from_tree, Step::OpenFromTree),
        step_if(c.close_tree, Step::CloseTree),
        step_if(c.start_lsp, Step::StartLsp),
        step_if(c.open_config, Step::OpenConfig),
        step_if(c.restore_config, Step::RestoreConfig),
        step_if(c.dismiss_config, Step::DismissConfig),
        x,
    );
    lemma_in_step_if(c.dropped, Step::OpenDropped, x);
    lemma_in_step_if(c.from_tree, Step::OpenFromTree, x);
    lemma_in_step_if(c.close_tree, Step::CloseTree, x);
    lemma_in_step_if(c.start_lsp, Step::StartLsp, x);
    lemma_in_step_if(c.open_config, Step::OpenConfig, x);
    lemma_in_step_if(c.restore_config, Step::RestoreConfig, x);
    lemma_in_step_if(c.dismiss_config, Step::DismissConfig, x);
}

/// The command of the palette that a step carries out.
pub open spec fn command_of(s: Step) -> Option<BuiltinCommand> {
    match s {
        Step::New => Some(BuiltinCommand::NewFile),
        Step::OpenDialog => Some(BuiltinCommand::OpenFile),
        Step::Save => Some(BuiltinCommand::Save),
        Step::Builtin(b) => Some(b),
        Step::CloseActive => Some(BuiltinCommand::CloseActiveTab),
        Step::ToggleGrid => Some(BuiltinCommand::ToggleSplitView),
        Step::CycleNext => Some(BuiltinCommand::CycleTabNext),
        Step::CyclePrev => Some(BuiltinCommand::CycleTabPrev),
        Step::CycleTheme => Some(BuiltinCommand::CycleTheme),
        Step::ToggleBookmark => Some(BuiltinCommand::ToggleBookmark),
        Step::NextBookmark => Some(BuiltinCommand::NextBookmark),
        Step::PrevBookmark => Some(BuiltinCommand::PrevBookmark),
        Step::ToggleMinimap => Some(BuiltinCommand::ToggleMinimap),
        Step::FoldAll => Some(BuiltinCommand::FoldAll),
        Step::ExpandAll => Some(BuiltinCommand::ExpandAll),
        Step::StartLsp => Some(BuiltinCommand::StartLsp),
        _ => None,
    }
}

/// The command of the palette that a step carries out.
fn step_command(s: Step) -> (c: Option<BuiltinCommand>)
    ensures
        c == command_of(s),
{
    match s {
        Step::New => Some(BuiltinCommand::NewFile),
        Step::OpenDialog => Some(BuiltinCommand::OpenFile),
        Step::Save => Some(BuiltinCommand::Save),
        Step::Builtin(b) => Some(b),
        Step::CloseActive => Some(BuiltinCommand::CloseActiveTab),
        Step::ToggleGrid => Some(BuiltinCommand::ToggleSplitView),
        Step::CycleNext => Some(BuiltinCommand::CycleTabNext),
        Step::CyclePrev => Some(BuiltinCommand::CycleTabPrev),
        Step::CycleTheme => Some(BuiltinCommand::CycleTheme),
        Step::ToggleBookmark => Some(BuiltinCommand::ToggleBookmark),
        Step::NextBookmark => Some(BuiltinCommand::NextBookmark),
        Step::PrevBookmark => Some(BuiltinCommand::PrevBookmark),
        Step::ToggleMinimap => Some(BuiltinCommand::ToggleMinimap),
        Step::FoldAll => Some(BuiltinCommand::FoldAll),
        Step::ExpandAll => Some(BuiltinCommand::ExpandAll),
        Step::StartLsp => Some(BuiltinCommand::StartLsp),
        _ => None,
    }
}

/// The state after the keys of one frame were taken.
pub open spec fn keys_taken(m: AppModel, i: &KeyInput) -> AppModel {
    AppModel {
        surfaces: shortcuts::surfaces_after(m.surfaces, i),
        queries: QueriesModel {
            palette: if i.shift_chord(Key::P) {
                Seq::empty()
            } else {
                m.queries.palette
            },
            goto: if i.chord(Key::G) {
                Seq::empty()
            } else {
                m.queries.goto
            },
            goto_symbol: if i.shift_chord(Key::O) {
                Seq::empty()
            } else {
                m.queries.goto_symbol
            },
            ..m.queries
        },
        requests: Requests {
            jump_bracket: m.requests.jump_bracket || i.plain_chord(Key::M),
            ..m.requests
        },
        ..m
    }
}

/// What the focused editor is asked to do.
pub enum EditorEvent {
    /// Copy the selection.
    Copy,
    /// Cut the selection.
    Cut,
    /// Insert this text.
    Paste(String),
    /// The chord for undoing (without Shift) or redoing (with Shift).
    UndoKey {
        shift: bool,
    },
}

impl ScribeApp {
    /// With these tabs open, and nothing else but, where it is asked for, the welcome
    /// window.
    pub(crate) fn with_tabs(
        open: TabSet,
        theme: String,
        toggles: Toggles,
        welcome: bool,
        status: String,
        toast: Option<String>,
    ) -> (s: ScribeApp)
        requires
            open.wf(),
        ensures
            s.wf(),
            s@ == (AppModel {
                open: open@,
                surfaces: Surfaces { welcome_open: welcome, ..Surfaces::spec_closed() },
                queries: QueriesModel {
                    palette: Seq::empty(),
                    goto: Seq::empty(),
                    goto_symbol: Seq::empty(),
                    fuzzy: Seq::empty(),
                    fuzzy_selected: 0,
                },
                toggles,
                theme: theme@,
                folds: Set::empty(),
                plugin_manager: PluginManager::spec_closed(),
                issue_intake: IntakeModel::fresh(false),
                requests: Requests {
                    jump_bracket: false,
                    insert_datetime: false,
                    dup_selection: false,
                    editor_action: None,
                },
                status: status@,
                toast: tab::opt_view(toast),
            }),
    {
        let surfaces = Surfaces { welcome_open: welcome, ..Surfaces::closed() };
        ScribeApp {
            open,
            surfaces,
            queries: app::Queries {
                palette: String::new(),
                goto: String::new(),
                goto_symbol: String::new(),
                fuzzy: String::new(),
                fuzzy_selected: 0,
            },
            toggles,
            theme,
            folds: BTreeSet::new(),
            plugin_manager: PluginManager::closed(),
            issue_intake: IssueIntake::new(),
            requests: Requests {
                jump_bracket: false,
                insert_datetime: false,
                dup_selection: false,
                editor_action: None,
            },
            status,
            toast,
        }
    }

    /// Take the keys of one frame: the overlays that open start with an empty query, and
    /// the jump to the matching bracket waits for the editor.
    pub fn take_frame_keys(&mut self, i: &KeyInput) -> (r: (Pending, Option<bool>))
        ensures
            final(self)@ == keys_taken(old(self)@, i),
            r.0 == shortcuts::actions_asked(old(self)@.surfaces, i),
            r.1 == shortcuts::find_step_asked(old(self)@.surfaces, i),
    {
        let a = take_keys(&mut self.surfaces, i);
        if a.clear_palette {
            self.queries.palette = String::new();
        }
        if a.clear_goto {
            self.queries.goto = String::new();
        }
        if a.clear_symbols {
            self.queries.goto_symbol = String::new();
        }
        if a.actions.jump_bracket {
            self.requests = Requests { jump_bracket: true, ..self.requests };
        }
        (a.actions, a.find_step)
    }

    /// Carry out a step that is a command of the palette, as the palette does, and say what
    /// is left to do outside the state. Other steps are left alone.
    pub fn run_step(&mut self, step: Step, around: &Around) -> (e: Option<Effect>)
        requires
            old(self).wf(),
            around.line0 < usize::MAX,
        ensures
            final(self).wf(),
            match command_of(step) {
                Some(cmd) => {
                    &&& final(self)@ == app::after_command(
                        old(self)@,
                        cmd,
                        around.line0,
                        session::str_views(around.themes@),
                        tab::opt_view(around.folder),
                    )
                    &&& e matches Some(x) && app::effect_of(
                        old(self)@,
                        cmd,
                        around.line0,
                        tab::opt_view(around.folder),
                        session::str_views(around.themes@),
                        x,
                    )
                },
                None => e is None && final(self)@ == old(self)@,
            },
    {
        match step_command(step) {
            Some(cmd) => Some(self.execute_builtin(cmd, around)),
            None => None,
        }
    }

    /// Open a file that was picked in the dialog: in a tab of its own, in front.
    pub fn open_picked(&mut self, path: &str, opened: Result<Opened, String>)
        requires
            old(self).wf(),
        ensures
            final(self).wf(),
            final(self)@ == match opened {
                Ok(o) => (AppModel {
                    open: old(self)@.open.with_tab(
                        tab::fresh_tab(o.doc@, o.doc@.text, o.mtime),
                    ),
                    ..old(self)@
                }).said("opened "@ + path@),
                Err(e) => old(self)@.noted("open failed: "@ + e@),
            },
    {
        match opened {
            Ok(o) => {
                self.open.push_tab(EditorTab::from_opened(o));
                let mut s = "opened ".to_string();
                s.append(path);
                self.status = s;
            },
            Err(e) => {
                let mut s = "open failed: ".to_string();
                s.append(e.as_str());
                self.toast = Some(s);
            },
        }
    }

    /// Rewrite the whole text of the tab in front. A buffer that is browsed only, and a
    /// text that would not change, are left alone.
    pub fn apply_buffer_transform(&mut self, t: Transform, new: String)
        requires
            old(self).wf(),
        ensures
            final(self).wf(),
            final(self)@ == (if old(self)@.front().doc.read_only_large || new@
                == old(self)@.front().text {
                old(self)@
            } else {
                old(self)@.with_front(old(self)@.front().with_text(new@)).said(
                    app::transform_status(t),
                )
            }),
    {
        let active: usize = self.open.active;
        if self.open.tabs[active].doc.read_only_large {
            return;
        }
        if new == self.open.tabs[active].text {
            return;
        }
        let ghost before = self@;
        let ghost text = new@;
        self.open.tabs[active].set_text(new);
        assert(self@.open.tabs =~= before.with_front(before.front().with_text(text)).open.tabs);
        self.status = match t {
            Transform::SortLines => "sorted lines (A-Z)".to_string(),
            Transform::SortLinesUnique => "sorted lines (unique)".to_string(),
            Transform::TrimTrailingWhitespace => "trimmed trailing whitespace".to_string(),
            Transform::EnsureFinalNewline => "ensured a final newline".to_string(),
            Transform::IndentToSpaces => "converted indentation to spaces".to_string(),
            Transform::IndentToTabs => "converted indentation to tabs".to_string(),
        };
    }

    /// Take what a plugin's command left of the text of the tab in front, and what it
    /// had to say.
    pub fn finish_plugin_command(&mut self, ran: Result<(String, Option<String>), String>)
        requires
            old(self).wf(),
        ensures
            final(self).wf(),
            final(self)@ == match ran {
                Ok((t, notice)) => {
                    let m = old(self)@.with_front(old(self)@.front().with_text(t@));
                    match notice {
                        Some(n) => m.said(n@),
                        None => m,
                    }
                },
                Err(e) => old(self)@.noted("plugin error: "@ + e@),
            },
    {
        match ran {
            Ok((t, notice)) => {
                let active: usize = self.open.active;
                let ghost before = self@;
                let ghost text = t@;
                self.open.tabs[active].set_text(t);
                assert(self@.open.tabs =~= before.with_front(
                    before.front().with_text(text),
                ).open.tabs);
                match notice {
                    Some(n) => {
                        self.status = n;
                    },
                    None => {},
                }
            },
            Err(e) => {
                let mut s = "plugin error: ".to_string();
                s.append(e.as_str());
                self.toast = Some(s);
            },
        }
    }

    /// Say that the path of the tab in front is on the clipboard, or why it is not.
    pub fn finish_copy_path(&mut self, path: &str, copied: Result<(), String>)
        ensures
            final(self)@ == match copied {
                Ok(_) => old(self)@.said("copied path: "@ + path@),
                Err(e) => old(self)@.noted("could not copy path: "@ + e@),
            },
    {
        match copied {
            Ok(_) => {
                let mut s = "copied path: ".to_string();
                s.append(path);
                self.status = s;
            },
            Err(e) => {
                let mut s = "could not copy path: ".to_string();
                s.append(e.as_str());
                self.toast = Some(s);
            },
        }
    }

    /// Fold the regions that start on these lines, and show the folded view.
    pub fn fold_all(&mut self, starts: &Vec<usize>)
        ensures
            final(self)@ == (AppModel {
                folds: starts@.to_set(),
                surfaces: Surfaces { fold_view: true, ..old(self)@.surfaces },
                ..old(self)@
            }).said("folded "@ + text::decimal(starts@.len()) + " region(s)"@),
    {
        self.fold_regions(starts);
        let mut s = "folded ".to_string();
        let n = decimal_string(starts.len());
        s.append(n.as_str());
        s.append(" region(s)");
        self.status = s;
        self.surfaces = Surfaces { fold_view: true, ..self.surfaces };
    }

    /// Fold the regions that start on these lines.
    pub fn fold_regions(&mut self, starts: &Vec<usize>)
        ensures
            final(self)@ == (AppModel { folds: starts@.to_set(), ..old(self)@ }),
    {
        let mut folds: BTreeSet<usize> = BTreeSet::new();
        let mut i: usize = 0;
        while i < starts.len()
            invariant
                i <= starts@.len(),
                folds@ =~= starts@.take(i as int).to_set(),
            decreases starts@.len() - i,
        {
            proof {
                lemma_set_push(starts@, i as int);
            }
            folds.insert(starts[i]);
            i += 1;
        }
        assert(starts@.take(i as int) =~= starts@);
        self.folds = folds;
    }

    /// Fold the region that starts on a line, or unfold it.
    pub fn toggle_fold(&mut self, line: usize)
        ensures
            final(self)@ == (AppModel {
                folds: if old(self)@.folds.contains(line) {
                    old(self)@.folds.remove(line)
                } else {
                    old(self)@.folds.insert(line)
                },
                ..old(self)@
            }),
    {
        let ghost before = self.folds@;
        if !self.folds.remove(&line) {
            assert(!before.contains(line));
            self.folds.insert(line);
            assert(self.folds@ =~= before.insert(line));
        }
    }

    /// Open the find bar at its replace field.
    pub fn open_replace(&mut self)
        ensures
            final(self)@ == (AppModel {
                surfaces: Surfaces { find_open: true, focus_replace: true, ..old(self)@.surfaces },
                ..old(self)@
            }),
    {
        self.surfaces = Surfaces { find_open: true, focus_replace: true, ..self.surfaces };
    }

    /// Open the file finder, with an empty query and its first row selected.
    pub fn open_fuzzy(&mut self)
        ensures
            final(self)@ == (AppModel {
                surfaces: Surfaces { fuzzy_open: true, focus_fuzzy: true, ..old(self)@.surfaces },
                queries: QueriesModel {
                    fuzzy: Seq::empty(),
                    fuzzy_selected: 0,
                    ..old(self)@.queries
                },
                ..old(self)@
            }),
    {
        self.surfaces = Surfaces { fuzzy_open: true, focus_fuzzy: true, ..self.surfaces };
        self.queries.fuzzy = String::new();
        self.queries.fuzzy_selected = 0;
    }

    /// Take the clipboard or history action that a command asked for, and say what the
    /// editor has to do. `clipboard` is read only for pasting; where that fails, a notice
    /// says so.
    pub fn drain_pending_editor_action(&mut self, clipboard: Result<String, String>) -> (e: Option<
        EditorEvent,
    >)
        ensures
            ({
                let m = AppModel {
                    requests: Requests { editor_action: None, ..old(self)@.requests },
                    ..old(self)@
                };
                match old(self)@.requests.editor_action {
                    None => e is None && final(self)@ == old(self)@,
                    Some(EditorAction::Copy) => e == Some(EditorEvent::Copy) && final(self)@ == m,
                    Some(EditorAction::Cut) => e == Some(EditorEvent::Cut) && final(self)@ == m,
                    Some(EditorAction::Paste) => match clipboard {
                        Ok(t) => e == Some(EditorEvent::Paste(t)) && final(self)@ == m,
                        Err(why) => e is None && final(self)@ == m.noted(
                            "paste unavailable: "@ + why@,
                        ),
                    },
                    Some(EditorAction::Undo) => e == Some(EditorEvent::UndoKey { shift: false })
                        && final(self)@ == m,
                    Some(EditorAction::Redo) => e == Some(EditorEvent::UndoKey { shift: true })
                        && final(self)@ == m,
                }
            }),
    {
        match self.requests.editor_action {
            None => None,
            Some(action) => {
                self.requests = Requests { editor_action: None, ..self.requests };
                match action {
                    EditorAction::Copy => Some(EditorEvent::Copy),
                    EditorAction::Cut => Some(EditorEvent::Cut),
                    EditorAction::Paste => match clipboard {
                        Ok(t) => Some(EditorEvent::Paste(t)),
                        Err(why) => {
                            let mut s = "paste unavailable: ".to_string();
                            s.append(why.as_str());
                            self.toast = Some(s);
                            None
                        },
                    },
                    EditorAction::Undo => Some(EditorEvent::UndoKey { shift: false }),
                    EditorAction::Redo => Some(EditorEvent::UndoKey { shift: true }),
                }
            },
        }
    }
}

proof fn lemma_set_push(s: Seq<usize>, i: int)
    requires
        0 <= i < s.len(),
    ensures
        s.take(i + 1).to_set() == s.take(i).to_set().insert(s[i]),
{
    let a = s.take(i + 1);
    let b = s.take(i);
    assert forall|x: usize| a.to_set().contains(x) <==> b.to_set().insert(s[i]).contains(x) by {
        if a.contains(x) {
            let k = choose|k: int| 0 <= k < a.len() && a[k] == x;
            if k < i {
                assert(b[k] == x);
            }
        }
        if b.contains(x) {
            let k = choose|k: int| 0 <= k < b.len() && b[k] == x;
            assert(a[k] == x);
        }
        if x == s[i] {
            assert(a[i] == x);
        }
    }
    assert(a.to_set() =~= b.to_set().insert(s[i]));
}

/// Folding a region twice leaves the folds as they were; so does unfolding.
pub proof fn law_fold_twice(folds: Set<usize>, line: usize)
    ensures
        ({
            let once = if folds.contains(line) {
                folds.remove(line)
            } else {
                folds.insert(line)
            };
            let twice = if once.contains(line) {
                once.remove(line)
            } else {
                once.insert(line)
            };
            twice == folds
        }),
{
    assert(folds.remove(line).insert(line) =~= folds || !folds.contains(line));
    assert(folds.insert(line).remove(line) =~= folds || folds.contains(line));
}

/// What a tab is converted to.
#[derive(Clone, Copy, Debug, PartialEq, Eq, Structural)]
pub enum Conversion {
    Markdown,
    Html,
}

impl ScribeApp {
    /// Say that a converted copy was written, or why not.
    pub fn finish_conversion(&mut self, c: Conversion, path: &str, written: Result<(), String>)
        ensures
            final(self)@ == match (c, written) {
                (Conversion::Markdown, Ok(_)) => old(self)@.said(
                    "converted to Markdown → "@ + path@,
                ),
                (Conversion::Html, Ok(_)) => old(self)@.said("exported HTML → "@ + path@),
                (Conversion::Markdown, Err(e)) => old(self)@.noted("convert failed: "@ + e@),
                (Conversion::Html, Err(e)) => old(self)@.noted("export failed: "@ + e@),
            },
    {
        match written {
            Ok(_) => {
                let mut s = match c {
                    Conversion::Markdown => "converted to Markdown → ".to_string(),
                    Conversion::Html => "exported HTML → ".to_string(),
                };
                s.append(path);
                self.status = s;
            },
            Err(e) => {
                let mut s = match c {
                    Conversion::Markdown => "convert failed: ".to_string(),
                    Conversion::Html => "export failed: ".to_string(),
                };
                s.append(e.as_str());
                self.toast = Some(s);
            },
        }
    }

    /// Say which folder is shown.
    pub fn folder_opened(&mut self, path: &str)
        ensures
            final(self)@ == old(self)@.said("folder: "@ + path@),
    {
        let mut s = "folder: ".to_string();
        s.append(path);
        self.status = s;
    }

    /// Say that the settings are the defaults again.
    pub fn settings_restored(&mut self)
        ensures
            final(self)@ == old(self)@.said("config restored to defaults"@),
    {
        self.status = "config restored to defaults".to_string();
    }

    /// A command was carried out from the palette: it closes.
    pub fn close_palette(&mut self)
        ensures
            final(self)@ == (AppModel {
                surfaces: Surfaces { palette_open: false, ..old(self)@.surfaces },
                ..old(self)@
            }),
    {
        self.surfaces = Surfaces { palette_open: false, ..self.surfaces };
    }
}

/// The name that a converted copy is offered under: the file's name with the new
/// extension, or "untitled" for a tab without a file.
pub fn suggested_name(stem: Option<&str>, extension: &str) -> (s: String)
    ensures
        s@ == (match stem {
            Some(n) => n@,
            None => "untitled"@,
        }) + "."@ + extension@,
{
    let mut s = match stem {
        Some(n) => n.to_string(),
        None => "untitled".to_string(),
    };
    s.append(".");
    s.append(extension);
    s
}

} // verus!

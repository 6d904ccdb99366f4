//! The decisions of one frame: closing, fonts, what is drawn where, and the windows.
use vstd::prelude::*;
use vstd::string::*;
use crate::app::{AppModel, QueriesModel, ScribeApp};
use crate::find;
use crate::find::fuzzy_move_selection;
use crate::shortcuts::Surfaces;
use crate::tab;
use crate::text;
use crate::text::{decimal_string, str_eq};
use crate::theme;
use crate::theme::{use_rope_editor, OsTheme};

verus! {

/// A window that is being closed: it is hidden for one frame before it goes, so that
/// nothing of it stays on the screen.
#[derive(Clone, Copy, Debug, PartialEq, Eq, Structural)]
pub struct Closing {
    /// The close button was pressed.
    pub wanted: bool,
    /// The window is hidden and goes in the next frame.
    pub hidden: bool,
}

/// What a frame does about closing.
#[derive(Clone, Copy, Debug, PartialEq, Eq, Structural)]
pub enum CloseStep {
    /// Nothing: the frame is drawn.
    Stay,
    /// Hide the window and draw nothing. A close that the system began is called off.
    Hide {
        call_off: bool,
    },
    /// Close the window for good, and draw nothing.
    Destroy,
}

/// The state of closing after a frame.
pub open spec fn closing_after(c: Closing, system_close: bool) -> Closing {
    if !c.hidden && (system_close || c.wanted) {
        Closing { wanted: false, hidden: true }
    } else {
        c
    }
}

impl Closing {
    /// Look at the requests to close at the start of a frame.
    pub fn step(&mut self, system_close: bool) -> (s: CloseStep)
        ensures
            s == (if old(self).hidden {
                CloseStep::Destroy
            } else if system_close || old(self).wanted {
                CloseStep::Hide { call_off: system_close }
            } else {
                CloseStep::Stay
            }),
            *final(self) == closing_after(*old(self), system_close),
    {
        if self.hidden {
            return CloseStep::Destroy;
        }
        if system_close || self.wanted {
            *self = Closing { wanted: false, hidden: true };
            return CloseStep::Hide { call_off: system_close };
        }
        CloseStep::Stay
    }
}

/// A window goes only in a frame after one in which it was hidden, and goes in the very
/// next one.
pub proof fn law_hidden_before_destroyed(c: Closing, a: bool, b: bool)
    ensures
        !c.hidden && (a || c.wanted) ==> closing_after(c, a).hidden && closing_after(
            closing_after(c, a),
            b,
        ).hidden,
        !c.hidden && !a && !c.wanted ==> closing_after(c, a) == c,
{
}

/// The fonts in use. New ones are live only in the frame after they were set, so what was
/// laid out with the old ones is dropped in both.
pub struct FontSwitch {
    /// The families in use.
    pub applied: String,
    /// New fonts were set in the frame before.
    pub pending: bool,
}

/// What a [`FontSwitch`] holds.
#[verifier::ext_equal]
pub struct FontSwitchModel {
    pub applied: Seq<char>,
    pub pending: bool,
}

impl View for FontSwitch {
    type V = FontSwitchModel;

    open spec fn view(&self) -> FontSwitchModel {
        FontSwitchModel { applied: self.applied@, pending: self.pending }
    }
}

impl FontSwitchModel {
    /// After the start of a frame.
    pub open spec fn started(self) -> FontSwitchModel {
        FontSwitchModel { pending: false, ..self }
    }

    /// After the families were looked at.
    pub open spec fn looked_at(self, key: Seq<char>) -> FontSwitchModel {
        FontSwitchModel { applied: key, pending: self.pending || key != self.applied }
    }
}

/// When the families change, the layouts are dropped in that frame and at the start of the
/// next, and not after that.
pub proof fn law_new_fonts_drop_layouts_twice(m: FontSwitchModel, key: Seq<char>)
    requires
        key != m.applied,
    ensures
        ({
            let first = m.started().looked_at(key);
            let second = first.started().looked_at(key);
            first.pending && !second.pending && second.applied == key
        }),
{
}

impl FontSwitch {
    /// The start of a frame: whether the layouts have to be dropped because new fonts
    /// are live now.
    pub fn frame_starts(&mut self) -> (drop_layouts: bool)
        ensures
            drop_layouts == old(self)@.pending,
            final(self)@ == old(self)@.started(),
    {
        let drop_layouts: bool = self.pending;
        self.pending = false;
        drop_layouts
    }

    /// Whether new fonts have to be set (and the layouts dropped) because the families
    /// changed.
    pub fn families_are(&mut self, key: String) -> (set_fonts: bool)
        ensures
            set_fonts == (key@ != old(self)@.applied),
            final(self)@ == old(self)@.looked_at(key@),
    {
        if str_eq(key.as_str(), self.applied.as_str()) {
            return false;
        }
        self.applied = key;
        self.pending = true;
        true
    }
}

/// Whether the theme has to be looked up anew because the system changed to dark or
/// light.
pub fn follows_system_change(follow: bool, now: OsTheme, last: Option<OsTheme>) -> (b: bool)
    ensures
        b == (follow && last != Some(now)),
{
    follow && match last {
        Some(l) => l != now,
        None => true,
    }
}

/// Fonts that stay the same drop no layouts.
pub proof fn law_same_fonts_keep_layouts(m: FontSwitchModel)
    ensures
        m.started().looked_at(m.applied) == m.started(),
        !m.started().pending,
        m.started().applied == m.applied,
{
}

/// Where the tab strip stands.
#[derive(Clone, Copy, Debug, PartialEq, Eq, Structural)]
pub enum TabBarPosition {
    Top,
    Bottom,
    Left,
    Right,
}

/// What decides which parts of the window are drawn.
#[derive(Clone, Copy)]
pub struct ChromeState {
    pub zen: bool,
    pub fullscreen: bool,
    /// The window has no frame of the system's.
    pub frameless: bool,
    /// The toolbar belongs in the title bar.
    pub toolbar_in_titlebar: bool,
    pub grid_enabled: bool,
    pub tab_bar: TabBarPosition,
    pub show_minimap: bool,
    pub show_line_numbers: bool,
    pub fold_view: bool,
    /// The tab in front is browsed only.
    pub read_only: bool,
    pub md_preview_open: bool,
    /// The tab in front holds Markdown.
    pub markdown: bool,
    pub diff_view_open: bool,
}

/// Which parts of the window are drawn.
#[derive(Clone, Copy, Debug, PartialEq, Eq, Structural)]
pub struct ChromePlan {
    pub titlebar: bool,
    pub toolbar_in_titlebar: bool,
    pub toolbar_row: bool,
    pub tab_strip: Option<TabBarPosition>,
    pub status: bool,
    pub minimap: bool,
    pub gutter: bool,
    pub md_preview: bool,
    pub diff: bool,
}

/// Which parts of the window are drawn: zen and the full screen hide the chrome, the full
/// screen the title bar too; the grid has no tab strip.
pub open spec fn chrome(s: ChromeState) -> ChromePlan {
    let hidden = s.zen || s.fullscreen;
    ChromePlan {
        titlebar: s.frameless && !s.fullscreen,
        toolbar_in_titlebar: s.toolbar_in_titlebar && s.frameless,
        toolbar_row: !hidden && !(s.toolbar_in_titlebar && s.frameless),
        tab_strip: if hidden || s.grid_enabled {
            None
        } else {
            Some(s.tab_bar)
        },
        status: !hidden,
        minimap: s.show_minimap && !s.read_only && !hidden,
        gutter: s.show_line_numbers && !s.fold_view && !s.read_only && !hidden,
        md_preview: s.md_preview_open && s.markdown && !hidden,
        diff: s.diff_view_open && !hidden,
    }
}

/// Which parts of the window are drawn.
pub fn chrome_plan(s: &ChromeState) -> (p: ChromePlan)
    ensures
        p == chrome(*s),
{
    let hidden: bool = s.zen || s.fullscreen;
    let in_titlebar: bool = s.toolbar_in_titlebar && s.frameless;
    ChromePlan {
        titlebar: s.frameless && !s.fullscreen,
        toolbar_in_titlebar: in_titlebar,
        toolbar_row: !hidden && !in_titlebar,
        tab_strip: if hidden || s.grid_enabled {
            None
        } else {
            Some(s.tab_bar)
        },
        status: !hidden,
        minimap: s.show_minimap && !s.read_only && !hidden,
        gutter: s.show_line_numbers && !s.fold_view && !s.read_only && !hidden,
        md_preview: s.md_preview_open && s.markdown && !hidden,
        diff: s.diff_view_open && !hidden,
    }
}

/// The full screen shows the editor alone; zen shows it alone but for the title bar, by
/// which the window is moved.
pub proof fn law_zen_and_fullscreen_show_the_editor(s: ChromeState)
    requires
        s.zen || s.fullscreen,
    ensures
        ({
            let p = chrome(s);
            &&& !p.toolbar_row
            &&& p.tab_strip is None
            &&& !p.status
            &&& !p.minimap
            &&& !p.gutter
            &&& !p.md_preview
            &&& !p.diff
            &&& s.fullscreen ==> !p.titlebar
            &&& !s.fullscreen ==> p.titlebar == s.frameless
        }),
{
}

/// Outside zen and the full screen everything that is asked for is drawn: the status bar, the
/// toolbar in one of its places, the tab strip where the grid is off, and each of the others
/// where it is switched on and the text allows it.
pub proof fn law_chrome_shows_what_is_asked_for(s: ChromeState)
    requires
        !s.zen,
        !s.fullscreen,
    ensures
        ({
            let p = chrome(s);
            &&& p.status
            &&& p.titlebar == s.frameless
            &&& p.toolbar_row != p.toolbar_in_titlebar
            &&& p.toolbar_in_titlebar <==> s.toolbar_in_titlebar && s.frameless
            &&& s.grid_enabled ==> p.tab_strip is None
            &&& !s.grid_enabled ==> p.tab_strip == Some(s.tab_bar)
            &&& p.minimap <==> s.show_minimap && !s.read_only
            &&& p.gutter <==> s.show_line_numbers && !s.fold_view && !s.read_only
            &&& p.md_preview <==> s.md_preview_open && s.markdown
            &&& p.diff == s.diff_view_open
        }),
{
}

/// The toolbar is drawn in one place at most.
pub proof fn law_one_toolbar(s: ChromeState)
    ensures
        !(chrome(s).toolbar_row && chrome(s).toolbar_in_titlebar),
{
}

/// Whether a language is Markdown.
pub fn is_markdown(language: Option<&str>) -> (b: bool)
    ensures
        b == (match language {
            Some(l) => l@ == "md"@ || l@ == "markdown"@,
            None => false,
        }),
{
    match language {
        Some(l) => str_eq(l, "md") || str_eq(l, "markdown"),
        None => false,
    }
}

/// What can be pressed in the welcome window in one frame.
#[derive(Clone, Copy)]
pub struct WelcomeClicks {
    pub new: bool,
    pub open: bool,
    pub open_folder: bool,
    pub recent: bool,
    pub settings: bool,
    pub shortcuts: bool,
    /// "Don't show this again".
    pub never_again: bool,
    /// The window was closed.
    pub closed: bool,
}

/// Whether anything was pressed in the welcome window.
pub open spec fn answered(c: WelcomeClicks) -> bool {
    c.new || c.open || c.open_folder || c.recent || c.settings || c.shortcuts || c.never_again
        || c.closed
}

/// The welcome window goes away at any of its buttons, and stays while none was pressed.
pub proof fn law_any_button_answers_the_welcome(c: WelcomeClicks)
    ensures
        c.new ==> answered(c),
        c.open ==> answered(c),
        c.open_folder ==> answered(c),
        c.recent ==> answered(c),
        c.settings ==> answered(c),
        c.shortcuts ==> answered(c),
        c.never_again ==> answered(c),
        c.closed ==> answered(c),
        answered(c) ==> c.new || c.open || c.open_folder || c.recent || c.settings || c.shortcuts
            || c.never_again || c.closed,
{
}

/// What the welcome window leaves to do.
#[derive(Clone, Copy, Debug, PartialEq, Eq, Structural)]
pub struct WelcomeEffects {
    /// Ask for a file and open it.
    pub open_dialog: bool,
    /// Ask for a folder and show it.
    pub pick_folder: bool,
    /// Remember that the first run is over, and write the settings.
    pub first_run_over: bool,
}

/// What was pressed in a frame in the file finder.
#[derive(Clone, Copy)]
pub struct FinderKeys {
    pub up: bool,
    pub down: bool,
    pub enter: bool,
}

impl ScribeApp {
    /// Take what was pressed in the welcome window. Any answer closes it.
    pub fn answer_welcome(&mut self, c: &WelcomeClicks) -> (e: WelcomeEffects)
        requires
            old(self).wf(),
        ensures
            final(self).wf(),
            final(self)@ == (AppModel {
                open: if c.new {
                    old(self)@.open.with_new()
                } else {
                    old(self)@.open
                },
                surfaces: Surfaces {
                    recent_open: old(self)@.surfaces.recent_open || c.recent,
                    settings_open: old(self)@.surfaces.settings_open || c.settings,
                    cheatsheet_open: old(self)@.surfaces.cheatsheet_open || c.shortcuts,
                    welcome_open: old(self)@.surfaces.welcome_open && !answered(*c),
                    ..old(self)@.surfaces
                },
                ..old(self)@
            }),
            e == (WelcomeEffects {
                open_dialog: c.open,
                pick_folder: c.open_folder,
                first_run_over: c.never_again,
            }),
    {
        if c.new {
            self.open.new_tab();
        }
        let s = self.surfaces;
        let done: bool = c.new || c.open || c.open_folder || c.recent || c.settings || c.shortcuts
            || c.never_again || c.closed;
        self.surfaces =
        Surfaces {
            recent_open: s.recent_open || c.recent,
            settings_open: s.settings_open || c.settings,
            cheatsheet_open: s.cheatsheet_open || c.shortcuts,
            welcome_open: s.welcome_open && !done,
            ..s
        };
        WelcomeEffects {
            open_dialog: c.open,
            pick_folder: c.open_folder,
            first_run_over: c.never_again,
        }
    }

    /// Move the selection of the file finder. Gives the row that Enter opens.
    pub fn finder_keys(&mut self, rows: usize, k: FinderKeys) -> (chosen: Option<usize>)
        ensures
            final(self)@ == (AppModel {
                queries: QueriesModel {
                    fuzzy_selected: if rows == 0 {
                        0
                    } else {
                        find::moved_selection(
                            old(self)@.queries.fuzzy_selected as int,
                            rows as int,
                            k.up,
                            k.down,
                        ) as usize
                    },
                    ..old(self)@.queries
                },
                ..old(self)@
            }),
            chosen == (if rows > 0 && k.enter {
                Some(final(self)@.queries.fuzzy_selected)
            } else {
                None
            }),
    {
        if rows == 0 {
            self.queries.fuzzy_selected = 0;
            return None;
        }
        let row: usize = fuzzy_move_selection(self.queries.fuzzy_selected, rows, k.up, k.down);
        self.queries.fuzzy_selected = row;
        if k.enter {
            Some(row)
        } else {
            None
        }
    }

    /// The end of the file finder's frame: another query selects the first row again, and
    /// a chosen file or its close button closes it.
    pub fn finder_done(&mut self, query_changed: bool, chosen: bool, closed: bool)
        ensures
            final(self)@ == (AppModel {
                queries: QueriesModel {
                    fuzzy_selected: if query_changed {
                        0
                    } else {
                        old(self)@.queries.fuzzy_selected
                    },
                    ..old(self)@.queries
                },
                surfaces: Surfaces {
                    fuzzy_open: old(self)@.surfaces.fuzzy_open && !chosen && !closed,
                    ..old(self)@.surfaces
                },
                ..old(self)@
            }),
    {
        if query_changed {
            self.queries.fuzzy_selected = 0;
        }
        let s = self.surfaces;
        self.surfaces = Surfaces { fuzzy_open: s.fuzzy_open && !chosen && !closed, ..s };
    }

    /// The end of the line prompt's frame: it closes when the line could be read, or by its
    /// button. Gives the line to go to.
    pub fn goto_done(&mut self, asked: bool, line: Option<usize>, closed: bool) -> (go: Option<
        usize,
    >)
        ensures
            go == (if asked {
                line
            } else {
                None
            }),
            final(self)@ == (AppModel {
                surfaces: Surfaces {
                    goto_open: old(self)@.surfaces.goto_open && !closed && go is None,
                    ..old(self)@.surfaces
                },
                ..old(self)@
            }),
    {
        let go = if asked {
            line
        } else {
            None
        };
        let s = self.surfaces;
        self.surfaces = Surfaces { goto_open: s.goto_open && !closed && go.is_none(), ..s };
        go
    }

    /// Say which line was gone to.
    pub fn went_to_line(&mut self, line: usize)
        ensures
            final(self)@ == old(self)@.said("go to line "@ + text::decimal(line as nat)),
    {
        let n = decimal_string(line);
        let mut s = "go to line ".to_string();
        s.append(n.as_str());
        self.status = s;
    }

    /// Whether any window is open that keeps the arrow keys from the file tree.
    pub fn any_window_open(&self) -> (b: bool)
        ensures
            b == (self@.surfaces.owns_keyboard() || self@.surfaces.recent_open
                || self@.surfaces.recent_folders_open || self@.surfaces.cheatsheet_open
                || self@.surfaces.welcome_open),
    {
        self.surfaces.modal_owns_keyboard() || self.surfaces.recent_open
            || self.surfaces.recent_folders_open || self.surfaces.cheatsheet_open
            || self.surfaces.welcome_open
    }

    /// Press the line-ending segment of the status bar.
    pub fn cycle_eol(&mut self)
        requires
            old(self).wf(),
        ensures
            final(self).wf(),
            ({
                let t = old(self)@.front();
                let next = t.doc.eol.spec_next();
                final(self)@ == old(self)@.with_front(
                    tab::TabModel { doc: tab::DocumentModel { eol: next, ..t.doc }, ..t },
                ).said("line-ending: "@ + crate::app::eol_label(next))
            }),
    {
        let ghost before = self@;
        let active: usize = self.open.active;
        let next = self.open.tabs[active].doc.eol.next();
        self.open.tabs[active].doc.eol = next;
        proof {
            let t = before.front();
            let with = before.with_front(
                tab::TabModel { doc: tab::DocumentModel { eol: next, ..t.doc }, ..t },
            );
            assert(self@.open.tabs =~= with.open.tabs);
        }
        let mut s = "line-ending: ".to_string();
        s.append(crate::app::eol_name(next));
        self.status = s;
    }

    /// Say that the settings were written, or why not.
    pub fn settings_saved(&mut self, saved: Result<(), String>)
        ensures
            final(self)@ == match saved {
                Ok(_) => old(self)@.said("settings saved"@),
                Err(e) => old(self)@.noted("could not save settings: "@ + e@),
            },
    {
        match saved {
            Ok(_) => {
                self.status = "settings saved".to_string();
            },
            Err(e) => {
                let mut s = "could not save settings: ".to_string();
                s.append(e.as_str());
                self.toast = Some(s);
            },
        }
    }

    /// Leave the status line to what was said already when the settings were written, or
    /// say why they were not.
    pub fn settings_saved_quietly(&mut self, saved: Result<(), String>)
        ensures
            final(self)@ == match saved {
                Ok(_) => old(self)@,
                Err(e) => old(self)@.noted("could not save settings: "@ + e@),
            },
    {
        match saved {
            Ok(_) => {},
            Err(e) => {
                let mut s = "could not save settings: ".to_string();
                s.append(e.as_str());
                self.toast = Some(s);
            },
        }
    }

    /// The settings file changed: whether what is in it is taken over. A file that cannot
    /// be read is reported, and one that says what is in force already is passed over.
    pub fn settings_changed_on_disk(&mut self, error: Option<String>, same: bool) -> (take: bool)
        ensures
            take == (error is None && !same),
            final(self)@ == match error {
                Some(e) => old(self)@.noted("config: "@ + e@ + " (kept previous on disk)"@),
                None => if same {
                    old(self)@
                } else {
                    old(self)@.said("config reloaded"@)
                },
            },
    {
        match error {
            Some(e) => {
                let mut s = "config: ".to_string();
                s.append(e.as_str());
                s.append(" (kept previous on disk)");
                self.toast = Some(s);
                false
            },
            None => {
                if !same {
                    self.status = "config reloaded".to_string();
                }
                !same
            },
        }
    }
}

/// Whether a middle-click scrolls by itself after this frame, and whether it began just
/// now: a middle press begins it over the editor and ends it anywhere, another button ends
/// it too.
pub fn autoscroll_step(active: bool, middle: bool, other: bool, over_editor: bool) -> (r: (
    bool,
    bool,
))
    ensures
        r.0 == (if middle {
            !active && over_editor
        } else {
            active && !other
        }),
        r.1 == (middle && !active && over_editor),
{
    if middle {
        let begins: bool = !active && over_editor;
        (begins, begins)
    } else {
        (active && !other, false)
    }
}

/// Whether a change in the settings folder concerns the settings: when one of the files
/// is a TOML file.
pub fn concerns_settings(extensions: &Vec<Option<String>>) -> (b: bool)
    ensures
        b == exists|i: int| 0 <= i < extensions@.len() && tab::opt_view(#[trigger] extensions@[i]) == Some("toml"@),
{
    let mut i: usize = 0;
    while i < extensions.len()
        invariant
            i <= extensions@.len(),
            forall|k: int| 0 <= k < i ==> tab::opt_view(#[trigger] extensions@[k]) != Some("toml"@),
        decreases extensions@.len() - i,
    {
        match &extensions[i] {
            Some(e) => {
                if str_eq(e.as_str(), "toml") {
                    assert(tab::opt_view(extensions@[i as int]) == Some("toml"@));
                    return true;
                }
            },
            None => {},
        }
        i += 1;
    }
    false
}

/// Where a theme comes from.
#[derive(Clone, Copy, Debug, PartialEq, Eq, Structural)]
pub enum ThemeSource {
    /// The user's own file of that name.
    UserFile,
    /// The bundled theme of that name.
    Bundled,
    /// The house theme.
    Fallback,
}

/// Where a theme comes from: the user's file if it can be read, else the bundled one, else
/// the house theme, so that a wrong name never blanks the window.
pub fn theme_source(user_file_reads: bool, bundled: bool) -> (s: ThemeSource)
    ensures
        s == (if user_file_reads {
            ThemeSource::UserFile
        } else if bundled {
            ThemeSource::Bundled
        } else {
            ThemeSource::Fallback
        }),
{
    if user_file_reads {
        ThemeSource::UserFile
    } else if bundled {
        ThemeSource::Bundled
    } else {
        ThemeSource::Fallback
    }
}

/// The grid layout that is written with the settings: the present one while the grid is
/// on, else the one kept from before.
pub fn layout_to_save(grid_enabled: bool, present: Option<String>, kept: Option<String>) -> (r:
    Option<String>)
    ensures
        r == (if grid_enabled {
            present
        } else {
            kept
        }),
{
    if grid_enabled {
        present
    } else {
        kept
    }
}

/// The banner for settings that could not be read.
pub fn settings_banner(error: &str) -> (s: String)
    ensures
        s@ == "Config has errors: "@ + error@,
{
    let mut s = "Config has errors: ".to_string();
    s.append(error);
    s
}

/// What the middle of the window shows.
#[derive(Clone, Copy, Debug, PartialEq, Eq, Structural)]
pub enum Central {
    /// Several notes side by side.
    Grid,
    /// The text with its regions folded.
    Folds,
    /// A text that is too large to edit.
    Browse,
    /// The editor for long texts.
    Rope,
    /// The editor.
    Text,
}

/// What the middle of the window shows: the grid before everything, the folds before the
/// editors, and an editor by the length of the text.
pub fn central_view(
    has_grid: bool,
    fold_view: bool,
    read_only: bool,
    experimental_rope: bool,
    bytes: usize,
    rope_threshold: usize,
) -> (c: Central)
    ensures
        c == (if has_grid {
            Central::Grid
        } else if fold_view {
            Central::Folds
        } else if read_only {
            Central::Browse
        } else if theme::rope_wanted(experimental_rope, bytes, rope_threshold) {
            Central::Rope
        } else {
            Central::Text
        }),
{
    if has_grid {
        Central::Grid
    } else if fold_view {
        Central::Folds
    } else if read_only {
        Central::Browse
    } else if use_rope_editor(experimental_rope, bytes, rope_threshold) {
        Central::Rope
    } else {
        Central::Text
    }
}

/// How the caret is drawn.
#[derive(Clone, Copy, Debug, PartialEq, Eq, Structural)]
pub enum CaretStyle {
    Bar,
    Block,
    Underline,
}

/// The caret that is painted over the text widget's own: a block or an underline in the
/// visible part of the blink, a bar only where it is to be wider than the widget's.
pub fn painted_caret(
    style: CaretStyle,
    wide: bool,
    collapsed: bool,
    focused: bool,
    visible: bool,
) -> (r: Option<CaretStyle>)
    ensures
        r == (if collapsed && focused && (if style == CaretStyle::Bar {
            wide
        } else {
            visible
        }) {
            Some(style)
        } else {
            None
        }),
{
    let shown: bool = if style == CaretStyle::Bar {
        wide
    } else {
        visible
    };
    if collapsed && focused && shown {
        Some(style)
    } else {
        None
    }
}

/// The moving effects: which are asked for, and which are drawn.
#[derive(Clone, Copy, Debug, PartialEq, Eq, Structural)]
pub struct Effects {
    pub scanlines: bool,
    pub mesh: bool,
    pub vhs: bool,
    pub flicker: bool,
    pub caret_trail: bool,
    pub boot_glitch: bool,
}

/// The effects that are drawn: none while motion is switched off, and the glitch only as the
/// program starts. Gives also whether another frame has to follow for them.
pub fn drawn_effects(motion: bool, asked: Effects, trail_left: bool, starting: bool) -> (r: (
    Effects,
    bool,
))
    ensures
        r.0 == (Effects {
            scanlines: motion && asked.scanlines,
            mesh: motion && asked.mesh,
            vhs: motion && asked.vhs,
            flicker: motion && asked.flicker,
            caret_trail: motion && asked.caret_trail,
            boot_glitch: motion && asked.boot_glitch && starting,
        }),
        r.1 == (motion && (asked.scanlines || asked.mesh || asked.vhs || asked.flicker || (
        asked.caret_trail && trail_left) || (asked.boot_glitch && starting))),
{
    let drawn = Effects {
        scanlines: motion && asked.scanlines,
        mesh: motion && asked.mesh,
        vhs: motion && asked.vhs,
        flicker: motion && asked.flicker,
        caret_trail: motion && asked.caret_trail,
        boot_glitch: motion && asked.boot_glitch && starting,
    };
    let again: bool = drawn.scanlines || drawn.mesh || drawn.vhs || drawn.flicker || (
    drawn.caret_trail && trail_left) || drawn.boot_glitch;
    (drawn, again)
}

/// Whether the window is resized by its border: one without the system's frame that fills
/// neither the desktop nor the screen.
pub fn resizes_by_border(frameless: bool, maximized: bool, fullscreen: bool) -> (b: bool)
    ensures
        b == (frameless && !maximized && !fullscreen),
{
    frameless && !maximized && !fullscreen
}

impl ScribeApp {
    /// The end of the symbol list's frame: it closes when a symbol was chosen (`chosen` is
    /// its line, counted from zero), which is said, or when Enter found none.
    pub fn symbol_done(&mut self, chosen: Option<usize>, entered: bool)
        requires
            chosen matches Some(l) ==> l < usize::MAX,
        ensures
            ({
                let m = AppModel {
                    surfaces: Surfaces {
                        goto_symbol_open: old(self)@.surfaces.goto_symbol_open && chosen is None
                            && !entered,
                        ..old(self)@.surfaces
                    },
                    ..old(self)@
                };
                final(self)@ == (match chosen {
                    Some(l) => m.said("go to line "@ + text::decimal((l + 1) as nat)),
                    None => m,
                })
            }),
    {
        let s = self.surfaces;
        self.surfaces = Surfaces {
            goto_symbol_open: s.goto_symbol_open && chosen.is_none() && !entered,
            ..s
        };
        match chosen {
            Some(l) => {
                self.went_to_line(l + 1);
            },
            None => {},
        }
    }

    /// Open the settings.
    pub fn open_settings(&mut self)
        ensures
            final(self)@ == (AppModel {
                surfaces: Surfaces { settings_open: true, ..old(self)@.surfaces },
                ..old(self)@
            }),
    {
        self.surfaces = Surfaces { settings_open: true, ..self.surfaces };
    }
}

} // verus!

//! The quick-access toolbar.
use vstd::prelude::*;
use vstd::string::*;
use crate::app;
use crate::app::{AppModel, BuiltinCommand, QueriesModel, ScribeApp, Toggles};
use crate::session;
use crate::shortcuts::{Pending, Surfaces};
use crate::text::str_eq;

verus! {

/// What a toolbar can hold.
#[derive(Clone, Copy, Debug, PartialEq, Eq, Structural)]
pub enum Tool {
    /// A line between two groups.
    Separator,
    /// A new file.
    New,
    /// Open a file.
    Open,
    /// Open a folder.
    OpenFolder,
    /// Save.
    Save,
    /// Save under another name.
    SaveAs,
    /// The find bar.
    Find,
    /// The command palette.
    Palette,
    /// The grid.
    Split,
    /// The minimap.
    Minimap,
    /// Word wrap.
    Wrap,
    /// The folded view.
    Fold,
    /// Line numbers.
    LineNumbers,
    /// The spellchecker.
    Spellcheck,
    /// The language server.
    Lsp,
}

/// The tool that a name in the settings stands for.
pub open spec fn tool_named(id: Seq<char>) -> Option<Tool> {
    if id == "sep"@ {
        Some(Tool::Separator)
    } else if id == "new"@ {
        Some(Tool::New)
    } else if id == "open"@ {
        Some(Tool::Open)
    } else if id == "openfolder"@ {
        Some(Tool::OpenFolder)
    } else if id == "save"@ {
        Some(Tool::Save)
    } else if id == "saveas"@ {
        Some(Tool::SaveAs)
    } else if id == "find"@ {
        Some(Tool::Find)
    } else if id == "palette"@ {
        Some(Tool::Palette)
    } else if id == "split"@ {
        Some(Tool::Split)
    } else if id == "minimap"@ {
        Some(Tool::Minimap)
    } else if id == "wrap"@ {
        Some(Tool::Wrap)
    } else if id == "fold"@ {
        Some(Tool::Fold)
    } else if id == "linenumbers"@ {
        Some(Tool::LineNumbers)
    } else if id == "spellcheck"@ {
        Some(Tool::Spellcheck)
    } else if id == "lsp"@ {
        Some(Tool::Lsp)
    } else {
        None
    }
}

/// The tool that a name in the settings stands for; an unknown name stands for none.
pub fn tool_of(id: &str) -> (t: Option<Tool>)
    ensures
        t == tool_named(id@),
{
    if str_eq(id, "sep") {
        Some(Tool::Separator)
    } else if str_eq(id, "new") {
        Some(Tool::New)
    } else if str_eq(id, "open") {
        Some(Tool::Open)
    } else if str_eq(id, "openfolder") {
        Some(Tool::OpenFolder)
    } else if str_eq(id, "save") {
        Some(Tool::Save)
    } else if str_eq(id, "saveas") {
        Some(Tool::SaveAs)
    } else if str_eq(id, "find") {
        Some(Tool::Find)
    } else if str_eq(id, "palette") {
        Some(Tool::Palette)
    } else if str_eq(id, "split") {
        Some(Tool::Split)
    } else if str_eq(id, "minimap") {
        Some(Tool::Minimap)
    } else if str_eq(id, "wrap") {
        Some(Tool::Wrap)
    } else if str_eq(id, "fold") {
        Some(Tool::Fold)
    } else if str_eq(id, "linenumbers") {
        Some(Tool::LineNumbers)
    } else if str_eq(id, "spellcheck") {
        Some(Tool::Spellcheck)
    } else if str_eq(id, "lsp") {
        Some(Tool::Lsp)
    } else {
        None
    }
}

/// What is left to do after a tool was pressed.
#[derive(Clone, Copy, Debug, PartialEq, Eq, Structural)]
pub enum ToolEffect {
    /// Nothing.
    Nothing,
    /// Save the tab in front under another name.
    SaveAs,
    /// Write the settings at the end of the frame.
    SaveConfig,
    /// Start the language server at the end of the frame.
    StartLsp,
}

/// Whether a tool is drawn as switched on.
pub open spec fn lit(m: AppModel, t: Tool) -> bool {
    match t {
        Tool::Split => m.toggles.grid_enabled,
        Tool::Minimap => m.toggles.show_minimap,
        Tool::Wrap => m.toggles.word_wrap,
        Tool::Fold => m.surfaces.fold_view,
        Tool::LineNumbers => m.toggles.show_line_numbers,
        Tool::Spellcheck => m.toggles.spellcheck,
        _ => false,
    }
}

/// Whether a tool is a switch.
pub open spec fn is_switch(t: Tool) -> bool {
    t == Tool::Split || t == Tool::Minimap || t == Tool::Wrap || t == Tool::Fold || t
        == Tool::LineNumbers || t == Tool::Spellcheck
}

/// The settings after a tool was pressed.
pub open spec fn toggles_pressed(g: Toggles, t: Tool) -> Toggles {
    match t {
        Tool::Split => Toggles { grid_enabled: !g.grid_enabled, ..g },
        Tool::Minimap => Toggles { show_minimap: !g.show_minimap, ..g },
        Tool::Wrap => Toggles { word_wrap: !g.word_wrap, ..g },
        Tool::LineNumbers => Toggles { show_line_numbers: !g.show_line_numbers, ..g },
        Tool::Spellcheck => Toggles { spellcheck: !g.spellcheck, ..g },
        _ => g,
    }
}

/// What is open after a tool was pressed.
pub open spec fn surfaces_pressed(s: Surfaces, t: Tool) -> Surfaces {
    match t {
        Tool::Find => Surfaces { find_open: true, focus_find: true, ..s },
        Tool::Palette => Surfaces { palette_open: true, focus_palette: true, ..s },
        Tool::Fold => Surfaces { fold_view: !s.fold_view, ..s },
        _ => s,
    }
}

/// The state after a tool was pressed.
pub open spec fn after_press(m: AppModel, t: Tool) -> AppModel {
    AppModel {
        surfaces: surfaces_pressed(m.surfaces, t),
        toggles: toggles_pressed(m.toggles, t),
        queries: if t == Tool::Palette {
            QueriesModel { palette: Seq::empty(), ..m.queries }
        } else {
            m.queries
        },
        ..m
    }
}

/// The actions for the end of the frame after a tool was pressed.
pub open spec fn asked_by_press(act: Pending, t: Tool) -> Pending {
    match t {
        Tool::New => Pending { new: true, ..act },
        Tool::Open => Pending { open: true, ..act },
        Tool::OpenFolder => Pending { open_folder: true, ..act },
        Tool::Save => Pending { save: true, ..act },
        _ => act,
    }
}

/// What is left to do after a tool was pressed.
pub open spec fn press_effect(t: Tool) -> ToolEffect {
    match t {
        Tool::SaveAs => ToolEffect::SaveAs,
        Tool::Split => ToolEffect::SaveConfig,
        Tool::Minimap => ToolEffect::SaveConfig,
        Tool::Wrap => ToolEffect::SaveConfig,
        Tool::LineNumbers => ToolEffect::SaveConfig,
        Tool::Spellcheck => ToolEffect::SaveConfig,
        Tool::Lsp => ToolEffect::StartLsp,
        _ => ToolEffect::Nothing,
    }
}

impl AppModel {
    /// With the palette open, its query empty and its field focused.
    pub open spec fn palette_opened(self) -> AppModel {
        AppModel {
            surfaces: Surfaces { palette_open: true, focus_palette: true, ..self.surfaces },
            queries: QueriesModel { palette: Seq::empty(), ..self.queries },
            ..self
        }
    }
}

impl ScribeApp {
    /// Whether a tool is drawn as switched on.
    pub fn tool_lit(&self, t: Tool) -> (b: bool)
        ensures
            b == lit(self@, t),
    {
        match t {
            Tool::Split => self.toggles.grid_enabled,
            Tool::Minimap => self.toggles.show_minimap,
            Tool::Wrap => self.toggles.word_wrap,
            Tool::Fold => self.surfaces.fold_view,
            Tool::LineNumbers => self.toggles.show_line_numbers,
            Tool::Spellcheck => self.toggles.spellcheck,
            _ => false,
        }
    }

    /// Open the command palette from its button.
    pub fn open_palette(&mut self)
        ensures
            final(self)@ == old(self)@.palette_opened(),
    {
        self.surfaces = Surfaces { palette_open: true, focus_palette: true, ..self.surfaces };
        self.queries.palette = String::new();
    }

    /// Open the settings from the gear, or close them.
    pub fn toggle_settings(&mut self)
        ensures
            final(self)@ == (AppModel {
                surfaces: Surfaces {
                    settings_open: !old(self)@.surfaces.settings_open,
                    ..old(self)@.surfaces
                },
                ..old(self)@
            }),
    {
        self.surfaces = Surfaces { settings_open: !self.surfaces.settings_open, ..self.surfaces };
    }

    /// Press a tool.
    pub fn press_tool(&mut self, t: Tool, act: &mut Pending) -> (e: ToolEffect)
        ensures
            final(self)@ == after_press(old(self)@, t),
            *final(act) == asked_by_press(*old(act), t),
            e == press_effect(t),
    {
        let g = self.toggles;
        match t {
            Tool::New => {
                *act = Pending { new: true, ..*act };
                ToolEffect::Nothing
            },
            Tool::Open => {
                *act = Pending { open: true, ..*act };
                ToolEffect::Nothing
            },
            Tool::OpenFolder => {
                *act = Pending { open_folder: true, ..*act };
                ToolEffect::Nothing
            },
            Tool::Save => {
                *act = Pending { save: true, ..*act };
                ToolEffect::Nothing
            },
            Tool::SaveAs => ToolEffect::SaveAs,
            Tool::Find => {
                self.surfaces = Surfaces { find_open: true, focus_find: true, ..self.surfaces };
                ToolEffect::Nothing
            },
            Tool::Palette => {
                self.open_palette();
                ToolEffect::Nothing
            },
            Tool::Split => {
                self.toggles = Toggles { grid_enabled: !g.grid_enabled, ..g };
                ToolEffect::SaveConfig
            },
            Tool::Minimap => {
                self.toggles = Toggles { show_minimap: !g.show_minimap, ..g };
                ToolEffect::SaveConfig
            },
            Tool::Wrap => {
                self.toggles = Toggles { word_wrap: !g.word_wrap, ..g };
                ToolEffect::SaveConfig
            },
            Tool::Fold => {
                self.surfaces = Surfaces { fold_view: !self.surfaces.fold_view, ..self.surfaces };
                ToolEffect::Nothing
            },
            Tool::LineNumbers => {
                self.toggles = Toggles { show_line_numbers: !g.show_line_numbers, ..g };
                ToolEffect::SaveConfig
            },
            Tool::Spellcheck => {
                self.toggles = Toggles { spellcheck: !g.spellcheck, ..g };
                ToolEffect::SaveConfig
            },
            Tool::Lsp => ToolEffect::StartLsp,
            Tool::Separator => ToolEffect::Nothing,
        }
    }
}

/// Pressing a switch turns it over and no other one, and pressing it twice leaves the
/// state as it was.
pub proof fn law_switches_are_independent(m: AppModel, t: Tool, u: Tool)
    requires
        is_switch(t),
    ensures
        lit(after_press(m, t), t) == !lit(m, t),
        u != t ==> lit(after_press(m, t), u) == lit(m, u),
        after_press(after_press(m, t), t) == m,
{
    lemma_press_twice(m, t);
    lemma_press_turns_one(m, t, u);
}

/// A tool is lit only by a setting or a view that is on: with all of them off none is lit, and a
/// tool that is no switch never is.
pub proof fn law_only_switches_are_lit(m: AppModel, t: Tool)
    ensures
        lit(m, t) ==> is_switch(t),
        lit(m, Tool::Split) <==> m.toggles.grid_enabled,
        lit(m, Tool::Minimap) <==> m.toggles.show_minimap,
        lit(m, Tool::Wrap) <==> m.toggles.word_wrap,
        lit(m, Tool::Fold) <==> m.surfaces.fold_view,
        lit(m, Tool::LineNumbers) <==> m.toggles.show_line_numbers,
        lit(m, Tool::Spellcheck) <==> m.toggles.spellcheck,
{
}

proof fn lemma_press_twice(m: AppModel, t: Tool)
    requires
        is_switch(t),
    ensures
        after_press(after_press(m, t), t) == m,
{
    lemma_toggles_twice(m.toggles, t);
    lemma_surfaces_twice(m.surfaces, t);
    app::lemma_same_state(after_press(after_press(m, t), t), m);
}

proof fn lemma_toggles_twice(g: Toggles, t: Tool)
    ensures
        toggles_pressed(toggles_pressed(g, t), t) == g,
{
}

proof fn lemma_surfaces_twice(s: Surfaces, t: Tool)
    requires
        is_switch(t),
    ensures
        surfaces_pressed(surfaces_pressed(s, t), t) == s,
{
    if t == Tool::Fold {
        let once = Surfaces { fold_view: !s.fold_view, ..s };
        assert(surfaces_pressed(s, t) == once);
        assert(surfaces_pressed(once, t) == (Surfaces { fold_view: s.fold_view, ..s }));
    } else {
        assert(surfaces_pressed(s, t) == s);
    }
}

proof fn lemma_press_turns_one(m: AppModel, t: Tool, u: Tool)
    requires
        is_switch(t),
    ensures
        lit(after_press(m, t), t) == !lit(m, t),
        u != t ==> lit(after_press(m, t), u) == lit(m, u),
{
}

/// No two names stand for one tool.
pub proof fn law_each_tool_has_one_name(a: Seq<char>, b: Seq<char>)
    requires
        tool_named(a) is Some,
        tool_named(a) == tool_named(b),
    ensures
        a == b,
{
}

/// A tool does to the settings and the windows what its command of the palette does.
pub proof fn law_tools_agree_with_commands(g: Toggles, s: Surfaces)
    ensures
        toggles_pressed(g, Tool::Split) == app::toggles_for(g, BuiltinCommand::ToggleSplitView),
        toggles_pressed(g, Tool::Minimap) == app::toggles_for(g, BuiltinCommand::ToggleMinimap),
        toggles_pressed(g, Tool::Wrap) == app::toggles_for(g, BuiltinCommand::ToggleWordWrap),
        toggles_pressed(g, Tool::LineNumbers) == app::toggles_for(
            g,
            BuiltinCommand::ToggleLineNumbers,
        ),
        toggles_pressed(g, Tool::Spellcheck) == app::toggles_for(
            g,
            BuiltinCommand::ToggleSpellcheck,
        ),
        surfaces_pressed(s, Tool::Find) == app::surfaces_for(s, BuiltinCommand::OpenFind),
        surfaces_pressed(s, Tool::Palette) == app::surfaces_for(s, BuiltinCommand::OpenPalette),
        surfaces_pressed(s, Tool::Fold).fold_view == !s.fold_view,
{
}

/// The tools that open and save ask for that at the end of the frame, and no other tool asks for
/// anything.
pub proof fn law_tools_ask_for_their_action(act: Pending, t: Tool)
    ensures
        ({
            let a = asked_by_press(act, t);
            &&& a.new <==> act.new || t == Tool::New
            &&& a.open <==> act.open || t == Tool::Open
            &&& a.open_folder <==> act.open_folder || t == Tool::OpenFolder
            &&& a.save <==> act.save || t == Tool::Save
            &&& a.close_active_tab == act.close_active_tab
            &&& a.toggle_grid == act.toggle_grid
            &&& a.toggle_comment == act.toggle_comment
            &&& a.open_replace == act.open_replace
            &&& a.font_zoom == act.font_zoom
        }),
{
}

/// A tool that turns a setting over has the settings written; "save as" and the language server
/// are left to be done, and no other tool leaves anything.
pub proof fn law_tools_leave_their_work(g: Toggles, t: Tool)
    ensures
        toggles_pressed(g, t) != g <==> press_effect(t) == ToolEffect::SaveConfig,
        press_effect(t) == ToolEffect::SaveAs <==> t == Tool::SaveAs,
        press_effect(t) == ToolEffect::StartLsp <==> t == Tool::Lsp,
{
}

/// The palette opens empty and ready to type into, from its tool as from its button; no tool
/// touches the tabs or what is said.
pub proof fn law_palette_tool_opens_it_empty(m: AppModel, t: Tool)
    ensures
        after_press(m, Tool::Palette).queries.palette.len() == 0,
        m.palette_opened().queries.palette.len() == 0,
        m.palette_opened().surfaces.palette_open && m.palette_opened().surfaces.focus_palette,
        m.palette_opened().open == m.open,
        t != Tool::Palette ==> after_press(m, t).queries == m.queries,
        after_press(m, t).open == m.open,
        after_press(m, t).status == m.status,
{
}

/// How the toolbar is laid out.
pub struct ToolbarPlan {
    /// The items on the bar.
    pub shown: Vec<String>,
    /// The items that did not fit, in the dropdown.
    pub overflow: Vec<String>,
    /// Whether there is a dropdown.
    pub dropdown: bool,
    /// Whether a line parts the items that did not fit from the parked ones.
    pub separator: bool,
    /// Whether the dropdown says that it is empty.
    pub hint: bool,
}

/// Lay out the toolbar: the first `visible` items on the bar, the rest in the dropdown,
/// and the parked ones (`menu_len` of them) behind those. The dropdown is there when it is
/// switched on or needed.
pub fn toolbar_plan(items: &Vec<String>, visible: usize, menu_len: usize, show_dropdown: bool) -> (p:
    ToolbarPlan)
    requires
        visible <= items@.len(),
    ensures
        session::str_views(p.shown@) == session::str_views(items@).take(visible as int),
        session::str_views(p.overflow@) == session::str_views(items@).skip(visible as int),
        p.dropdown == (show_dropdown || visible < items@.len()),
        p.separator == (visible < items@.len() && menu_len > 0),
        p.hint == (p.dropdown && visible == items@.len() && menu_len == 0),
{
    let n: usize = items.len();
    let ghost all = session::str_views(items@);
    let mut shown: Vec<String> = Vec::new();
    let mut overflow: Vec<String> = Vec::new();
    let mut i: usize = 0;
    while i < n
        invariant
            n == items@.len(),
            visible <= n,
            i <= n,
            all == session::str_views(items@),
            session::str_views(shown@) == all.take(if i < visible {
                i as int
            } else {
                visible as int
            }),
            session::str_views(overflow@) == all.subrange(
                visible as int,
                if i < visible {
                    visible as int
                } else {
                    i as int
                },
            ),
        decreases n - i,
    {
        let s = items[i].clone();
        assert(s@ == all[i as int]);
        if i < visible {
            let ghost before = session::str_views(shown@);
            shown.push(s);
            assert(session::str_views(shown@) =~= before.push(all[i as int]));
            assert(all.take(i + 1) =~= all.take(i as int).push(all[i as int]));
        } else {
            let ghost before = session::str_views(overflow@);
            overflow.push(s);
            assert(session::str_views(overflow@) =~= before.push(all[i as int]));
            assert(all.subrange(visible as int, i + 1) =~= all.subrange(
                visible as int,
                i as int,
            ).push(all[i as int]));
        }
        i += 1;
    }
    assert(all.skip(visible as int) =~= all.subrange(visible as int, n as int));
    let forced: bool = visible < n;
    let dropdown: bool = show_dropdown || forced;
    ToolbarPlan {
        shown,
        overflow,
        dropdown,
        separator: forced && menu_len > 0,
        hint: dropdown && !forced && menu_len == 0,
    }
}

/// Every item can be reached: it is on the bar, or in a dropdown that is there.
pub proof fn law_every_tool_is_reachable(items: Seq<Seq<char>>, visible: int, i: int)
    requires
        0 <= visible <= items.len(),
        0 <= i < items.len(),
    ensures
        i < visible ==> items.take(visible)[i] == items[i],
        i >= visible ==> visible < items.len() && items.skip(visible)[i - visible] == items[i],
{
}

} // verus!

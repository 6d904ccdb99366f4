//! What the keys of one frame ask for: which surfaces open and close, and which
//! actions are put off until the frame has been drawn.
use vstd::prelude::*;

verus! {

/// The keys that shortcuts are made of.
#[derive(Clone, Copy, Debug, PartialEq, Eq, Structural)]
pub enum Key {
    N,
    O,
    S,
    F,
    Period,
    V,
    P,
    W,
    Backslash,
    H,
    Slash,
    M,
    F11,
    T,
    OpenBracket,
    CloseBracket,
    Plus,
    Equals,
    Minus,
    Num0,
    R,
    ArrowUp,
    ArrowDown,
    D,
    J,
    Tab,
    F1,
    G,
    F2,
    F3,
    Escape,
}

/// The keys of one frame.
pub struct KeyInput {
    /// Whether the command key (Ctrl, or Cmd on a Mac) is held.
    pub command: bool,
    /// Whether Shift is held.
    pub shift: bool,
    /// Whether Alt is held.
    pub alt: bool,
    /// The keys that went down.
    pub pressed: Vec<Key>,
    /// The direction of the wheel: 1 up, -1 down, 0 at rest.
    pub wheel: i8,
    /// Whether the window fills the screen.
    pub fullscreen: bool,
    /// Whether the completion list is open.
    pub completing: bool,
}

impl KeyInput {
    /// Whether a key went down.
    pub open spec fn down(&self, k: Key) -> bool {
        self.pressed@.contains(k)
    }

    /// Whether a key went down with the command key held.
    pub open spec fn chord(&self, k: Key) -> bool {
        self.command && self.down(k)
    }

    /// Whether a key went down with the command key held and Shift not.
    pub open spec fn plain_chord(&self, k: Key) -> bool {
        self.command && !self.shift && self.down(k)
    }

    /// Whether a key went down with the command key and Shift held.
    pub open spec fn shift_chord(&self, k: Key) -> bool {
        self.command && self.shift && self.down(k)
    }

    fn is_down(&self, k: Key) -> (b: bool)
        ensures
            b == self.down(k),
    {
        let mut i: usize = 0;
        while i < self.pressed.len()
            invariant
                i <= self.pressed@.len(),
                forall|j: int| 0 <= j < i ==> #[trigger] self.pressed@[j] != k,
            decreases self.pressed@.len() - i,
        {
            if self.pressed[i] == k {
                assert(self.pressed@[i as int] == k);
                return true;
            }
            i += 1;
        }
        false
    }
}

/// The windows, bars and modes that are open, and the fields that want the keyboard.
#[derive(Clone, Copy)]
pub struct Surfaces {
    pub find_open: bool,
    pub focus_find: bool,
    pub focus_replace: bool,
    pub find_in_files_open: bool,
    pub focus_find_in_files: bool,
    pub zen_mode: bool,
    pub md_preview_open: bool,
    pub diff_view_open: bool,
    pub palette_open: bool,
    pub focus_palette: bool,
    pub cheatsheet_open: bool,
    pub goto_open: bool,
    pub focus_goto: bool,
    pub goto_symbol_open: bool,
    pub focus_goto_symbol: bool,
    pub recent_open: bool,
    pub recent_folders_open: bool,
    pub welcome_open: bool,
    pub fuzzy_open: bool,
    pub focus_fuzzy: bool,
    pub settings_open: bool,
    pub fold_view: bool,
}

impl Surfaces {
    /// Nothing open.
    pub open spec fn spec_closed() -> Surfaces {
        Surfaces {
            find_open: false,
            focus_find: false,
            focus_replace: false,
            find_in_files_open: false,
            focus_find_in_files: false,
            zen_mode: false,
            md_preview_open: false,
            diff_view_open: false,
            palette_open: false,
            focus_palette: false,
            cheatsheet_open: false,
            goto_open: false,
            focus_goto: false,
            goto_symbol_open: false,
            focus_goto_symbol: false,
            recent_open: false,
            recent_folders_open: false,
            welcome_open: false,
            fuzzy_open: false,
            focus_fuzzy: false,
            settings_open: false,
            fold_view: false,
        }
    }

    /// Nothing open.
    pub fn closed() -> (s: Surfaces)
        ensures
            s == Surfaces::spec_closed(),
    {
        Surfaces {
            find_open: false,
            focus_find: false,
            focus_replace: false,
            find_in_files_open: false,
            focus_find_in_files: false,
            zen_mode: false,
            md_preview_open: false,
            diff_view_open: false,
            palette_open: false,
            focus_palette: false,
            cheatsheet_open: false,
            goto_open: false,
            focus_goto: false,
            goto_symbol_open: false,
            focus_goto_symbol: false,
            recent_open: false,
            recent_folders_open: false,
            welcome_open: false,
            fuzzy_open: false,
            focus_fuzzy: false,
            settings_open: false,
            fold_view: false,
        }
    }

    /// Whether a modal with a text field or with arrow-key navigation owns the
    /// keyboard. The passive ones (welcome, cheatsheet, recent files) do not.
    pub open spec fn owns_keyboard(self) -> bool {
        self.find_open || self.palette_open || self.settings_open || self.fuzzy_open
            || self.goto_open || self.goto_symbol_open
    }

    /// Whether a modal owns the keyboard, so that completion has to stay closed.
    pub fn modal_owns_keyboard(&self) -> (b: bool)
        ensures
            b == self.owns_keyboard(),
    {
        self.find_open || self.palette_open || self.settings_open || self.fuzzy_open
            || self.goto_open || self.goto_symbol_open
    }

    /// Whether a bar or window is open that keeps the editor from taking the keyboard by
    /// itself.
    pub fn overlay_open(&self) -> (b: bool)
        ensures
            b == (self.find_open || self.palette_open || self.settings_open),
    {
        self.find_open || self.palette_open || self.settings_open
    }

    /// Zen turned over: entering it closes the find bars.
    pub open spec fn zen_toggled(self) -> Surfaces {
        if self.zen_mode {
            Surfaces { zen_mode: false, ..self }
        } else {
            Surfaces { zen_mode: true, find_open: false, find_in_files_open: false, ..self }
        }
    }

    /// Turn zen over.
    pub fn toggle_zen(&mut self)
        ensures
            *final(self) == old(self).zen_toggled(),
    {
        *self = if self.zen_mode {
            Surfaces { zen_mode: false, ..*self }
        } else {
            Surfaces { zen_mode: true, find_open: false, find_in_files_open: false, ..*self }
        };
    }
}

/// The actions that wait until the frame has been drawn.
#[derive(Clone, Copy)]
pub struct Pending {
    pub new: bool,
    pub open: bool,
    pub open_folder: bool,
    pub save: bool,
    pub close_active_tab: bool,
    pub toggle_grid: bool,
    pub cycle_tab_next: bool,
    pub cycle_tab_prev: bool,
    pub open_replace: bool,
    pub toggle_comment: bool,
    pub toggle_fullscreen: bool,
    pub move_line_up: bool,
    pub move_line_down: bool,
    pub duplicate_line: bool,
    pub jump_bracket: bool,
    pub join_lines: bool,
    pub cycle_theme: bool,
    pub toggle_minimap: bool,
    pub open_fuzzy: bool,
    pub fold_all: bool,
    pub expand_all: bool,
    /// `Some(1)` larger, `Some(-1)` smaller, `Some(0)` back to the default size.
    pub font_zoom: Option<i8>,
    pub reopen_tab: bool,
    pub toggle_bookmark: bool,
    pub next_bookmark: bool,
    pub prev_bookmark: bool,
}

impl Pending {
    /// No action.
    pub open spec fn spec_none() -> Pending {
        Pending {
            new: false,
            open: false,
            open_folder: false,
            save: false,
            close_active_tab: false,
            toggle_grid: false,
            cycle_tab_next: false,
            cycle_tab_prev: false,
            open_replace: false,
            toggle_comment: false,
            toggle_fullscreen: false,
            move_line_up: false,
            move_line_down: false,
            duplicate_line: false,
            jump_bracket: false,
            join_lines: false,
            cycle_theme: false,
            toggle_minimap: false,
            open_fuzzy: false,
            fold_all: false,
            expand_all: false,
            font_zoom: None,
            reopen_tab: false,
            toggle_bookmark: false,
            next_bookmark: false,
            prev_bookmark: false,
        }
    }

    /// No action.
    pub fn none() -> (p: Pending)
        ensures
            p == Pending::spec_none(),
    {
        Pending {
            new: false,
            open: false,
            open_folder: false,
            save: false,
            close_active_tab: false,
            toggle_grid: false,
            cycle_tab_next: false,
            cycle_tab_prev: false,
            open_replace: false,
            toggle_comment: false,
            toggle_fullscreen: false,
            move_line_up: false,
            move_line_down: false,
            duplicate_line: false,
            jump_bracket: false,
            join_lines: false,
            cycle_theme: false,
            toggle_minimap: false,
            open_fuzzy: false,
            fold_all: false,
            expand_all: false,
            font_zoom: None,
            reopen_tab: false,
            toggle_bookmark: false,
            next_bookmark: false,
            prev_bookmark: false,
        }
    }
}

/// Whether this frame's keys enter zen.
pub open spec fn enters_zen(s: Surfaces, i: &KeyInput) -> bool {
    i.plain_chord(Key::Period) && !s.zen_mode
}

/// Whether zen is on when Escape is looked at.
pub open spec fn zen_at_escape(s: Surfaces, i: &KeyInput) -> bool {
    s.zen_mode != i.plain_chord(Key::Period)
}

/// Whether Escape closes the overlays: zen and the full screen are left first.
pub open spec fn escape_closes(s: Surfaces, i: &KeyInput) -> bool {
    i.down(Key::Escape) && !zen_at_escape(s, i) && !i.fullscreen
}

/// The surfaces after this frame's keys.
pub open spec fn surfaces_after(s: Surfaces, i: &KeyInput) -> Surfaces {
    let entered = enters_zen(s, i);
    let closes = escape_closes(s, i);
    Surfaces {
        find_open: (s.find_open || i.plain_chord(Key::F)) && !entered && !closes,
        focus_find: s.focus_find || i.plain_chord(Key::F),
        find_in_files_open: (s.find_in_files_open || i.shift_chord(Key::F)) && !entered,
        focus_find_in_files: s.focus_find_in_files || (i.shift_chord(Key::F)
            && !s.find_in_files_open),
        zen_mode: zen_at_escape(s, i) && !i.down(Key::Escape),
        md_preview_open: s.md_preview_open != i.shift_chord(Key::V),
        palette_open: (s.palette_open || i.shift_chord(Key::P)) && !closes,
        focus_palette: s.focus_palette || i.shift_chord(Key::P),
        cheatsheet_open: (s.cheatsheet_open != i.down(Key::F1)) && !closes,
        goto_open: (s.goto_open || i.chord(Key::G)) && !closes,
        focus_goto: s.focus_goto || i.chord(Key::G),
        goto_symbol_open: (s.goto_symbol_open || i.shift_chord(Key::O)) && !closes,
        focus_goto_symbol: s.focus_goto_symbol || i.shift_chord(Key::O),
        recent_open: (s.recent_open || i.plain_chord(Key::R)) && !closes,
        recent_folders_open: s.recent_folders_open && !closes,
        welcome_open: s.welcome_open && !closes,
        fuzzy_open: s.fuzzy_open && !closes,
        ..s
    }
}

/// The change of the font size that this frame's keys and wheel ask for.
pub open spec fn zoom_asked(i: &KeyInput) -> Option<i8> {
    if !i.command {
        None
    } else if i.wheel > 0 {
        Some(1i8)
    } else if i.wheel < 0 {
        Some(-1i8)
    } else if i.down(Key::Num0) {
        Some(0i8)
    } else if i.down(Key::Minus) {
        Some(-1i8)
    } else if i.down(Key::Plus) || i.down(Key::Equals) {
        Some(1i8)
    } else {
        None
    }
}

/// The actions that this frame's keys ask for.
pub open spec fn actions_asked(s: Surfaces, i: &KeyInput) -> Pending {
    Pending {
        new: i.chord(Key::N),
        open: i.plain_chord(Key::O),
        open_folder: false,
        save: i.chord(Key::S),
        close_active_tab: i.chord(Key::W),
        toggle_grid: i.chord(Key::Backslash),
        cycle_tab_next: i.plain_chord(Key::Tab) && !i.completing,
        cycle_tab_prev: i.shift_chord(Key::Tab) && !i.completing,
        open_replace: i.chord(Key::H),
        toggle_comment: i.chord(Key::Slash),
        toggle_fullscreen: i.down(Key::F11) || (i.down(Key::Escape) && !zen_at_escape(s, i)
            && i.fullscreen),
        move_line_up: i.alt && i.down(Key::ArrowUp),
        move_line_down: i.alt && i.down(Key::ArrowDown),
        duplicate_line: i.shift_chord(Key::D),
        jump_bracket: i.plain_chord(Key::M),
        join_lines: i.chord(Key::J),
        cycle_theme: i.shift_chord(Key::T),
        toggle_minimap: i.shift_chord(Key::M),
        open_fuzzy: i.plain_chord(Key::P),
        fold_all: i.shift_chord(Key::OpenBracket),
        expand_all: i.shift_chord(Key::CloseBracket),
        font_zoom: zoom_asked(i),
        reopen_tab: i.shift_chord(Key::R),
        toggle_bookmark: i.chord(Key::F2),
        next_bookmark: i.down(Key::F2) && !i.command && !i.shift,
        prev_bookmark: i.down(Key::F2) && !i.command && i.shift,
    }
}

/// The step through the matches that F3 asks for while the find bar is open: `true`
/// forward, `false` back.
pub open spec fn find_step_asked(s: Surfaces, i: &KeyInput) -> Option<bool> {
    if (s.find_open || i.plain_chord(Key::F)) && !enters_zen(s, i) && i.down(Key::F3) {
        Some(!i.shift)
    } else {
        None
    }
}

/// What the keys of one frame ask for, beside the surfaces that they open and close.
pub struct Asked {
    /// The actions for the end of the frame.
    pub actions: Pending,
    /// A step through the matches: `true` forward, `false` back.
    pub find_step: Option<bool>,
    /// The palette starts with an empty query.
    pub clear_palette: bool,
    /// The line prompt starts empty.
    pub clear_goto: bool,
    /// The symbol list starts with an empty query.
    pub clear_symbols: bool,
}

/// Take the keys of one frame.
pub fn take_keys(s: &mut Surfaces, i: &KeyInput) -> (a: Asked)
    ensures
        *final(s) == surfaces_after(*old(s), i),
        a.actions == actions_asked(*old(s), i),
        a.find_step == find_step_asked(*old(s), i),
        a.clear_palette == i.shift_chord(Key::P),
        a.clear_goto == i.chord(Key::G),
        a.clear_symbols == i.shift_chord(Key::O),
{
    let was = *s;
    let cmd: bool = i.command;
    let plain: bool = cmd && !i.shift;
    let shifted: bool = cmd && i.shift;
    let find: bool = plain && i.is_down(Key::F);
    let find_in_files: bool = shifted && i.is_down(Key::F);
    let zen: bool = plain && i.is_down(Key::Period);
    let palette: bool = shifted && i.is_down(Key::P);
    let goto: bool = cmd && i.is_down(Key::G);
    let symbols: bool = shifted && i.is_down(Key::O);
    let bookmark: bool = i.is_down(Key::F2);
    let escape: bool = i.is_down(Key::Escape);
    // Zen first: entering it closes the find bars, also one that opened just now.
    let entered: bool = zen && !was.zen_mode;
    let zen_on: bool = was.zen_mode != zen;
    let finding: bool = (was.find_open || find) && !entered;
    // Escape leaves zen, else the full screen, else it closes the overlays.
    let leaves_fullscreen: bool = escape && !zen_on && i.fullscreen;
    let closes: bool = escape && !zen_on && !i.fullscreen;
    *s =
    Surfaces {
        find_open: finding && !closes,
        focus_find: was.focus_find || find,
        find_in_files_open: (was.find_in_files_open || find_in_files) && !entered,
        focus_find_in_files: was.focus_find_in_files || (find_in_files && !was.find_in_files_open),
        zen_mode: zen_on && !escape,
        md_preview_open: was.md_preview_open != (shifted && i.is_down(Key::V)),
        palette_open: (was.palette_open || palette) && !closes,
        focus_palette: was.focus_palette || palette,
        cheatsheet_open: (was.cheatsheet_open != i.is_down(Key::F1)) && !closes,
        goto_open: (was.goto_open || goto) && !closes,
        focus_goto: was.focus_goto || goto,
        goto_symbol_open: (was.goto_symbol_open || symbols) && !closes,
        focus_goto_symbol: was.focus_goto_symbol || symbols,
        recent_open: (was.recent_open || (plain && i.is_down(Key::R))) && !closes,
        recent_folders_open: was.recent_folders_open && !closes,
        welcome_open: was.welcome_open && !closes,
        fuzzy_open: was.fuzzy_open && !closes,
        ..was
    };
    let zoom: Option<i8> = if !cmd {
        None
    } else if i.wheel > 0 {
        Some(1i8)
    } else if i.wheel < 0 {
        Some(-1i8)
    } else if i.is_down(Key::Num0) {
        Some(0i8)
    } else if i.is_down(Key::Minus) {
        Some(-1i8)
    } else if i.is_down(Key::Plus) || i.is_down(Key::Equals) {
        Some(1i8)
    } else {
        None
    };
    let actions = Pending {
        new: cmd && i.is_down(Key::N),
        open: plain && i.is_down(Key::O),
        open_folder: false,
        save: cmd && i.is_down(Key::S),
        close_active_tab: cmd && i.is_down(Key::W),
        toggle_grid: cmd && i.is_down(Key::Backslash),
        cycle_tab_next: plain && i.is_down(Key::Tab) && !i.completing,
        cycle_tab_prev: shifted && i.is_down(Key::Tab) && !i.completing,
        open_replace: cmd && i.is_down(Key::H),
        toggle_comment: cmd && i.is_down(Key::Slash),
        toggle_fullscreen: i.is_down(Key::F11) || leaves_fullscreen,
        move_line_up: i.alt && i.is_down(Key::ArrowUp),
        move_line_down: i.alt && i.is_down(Key::ArrowDown),
        duplicate_line: shifted && i.is_down(Key::D),
        jump_bracket: plain && i.is_down(Key::M),
        join_lines: cmd && i.is_down(Key::J),
        cycle_theme: shifted && i.is_down(Key::T),
        toggle_minimap: shifted && i.is_down(Key::M),
        open_fuzzy: plain && i.is_down(Key::P),
        fold_all: shifted && i.is_down(Key::OpenBracket),
        expand_all: shifted && i.is_down(Key::CloseBracket),
        font_zoom: zoom,
        reopen_tab: shifted && i.is_down(Key::R),
        toggle_bookmark: bookmark && cmd,
        next_bookmark: bookmark && !cmd && !i.shift,
        prev_bookmark: bookmark && !cmd && i.shift,
    };
    let find_step: Option<bool> = if finding && i.is_down(Key::F3) {
        Some(!i.shift)
    } else {
        None
    };
    Asked {
        actions,
        find_step,
        clear_palette: palette,
        clear_goto: goto,
        clear_symbols: symbols,
    }
}

/// A shortcut that Shift distinguishes never does both things at once: find in the file
/// and in all files, open a file and go to a symbol, the file finder and the palette,
/// recent files and reopening a tab, the matching bracket and the minimap, the next tab
/// and the one before.
pub proof fn law_shift_tells_chords_apart(s: Surfaces, i: &KeyInput)
    ensures
        ({
            let a = actions_asked(s, i);
            let t = surfaces_after(s, i);
            &&& !(a.open && t.goto_symbol_open && !s.goto_symbol_open)
            &&& !(a.open_fuzzy && t.palette_open && !s.palette_open)
            &&& !(a.reopen_tab && t.recent_open && !s.recent_open)
            &&& !(a.jump_bracket && a.toggle_minimap)
            &&& !(a.cycle_tab_next && a.cycle_tab_prev)
            &&& !(t.find_open && !s.find_open && t.find_in_files_open && !s.find_in_files_open)
        }),
{
}

/// Each action is asked for by its own key and chord, and by no other. With the command key:
/// N, S, W, the backslash, H, the slash and J whatever Shift is; O, M, P and Tab without
/// Shift; D, T, M, R, Tab and the brackets with Shift. With Alt: the arrows. F11 by itself.
/// While completions are listed Tab is theirs.
pub proof fn law_each_action_has_its_keys(s: Surfaces, i: &KeyInput)
    ensures
        ({
            let a = actions_asked(s, i);
            let on = |k: Key| i.pressed@.contains(k);
            let plain = i.command && !i.shift;
            let shifted = i.command && i.shift;
            &&& a.new <==> i.command && on(Key::N)
            &&& a.open <==> plain && on(Key::O)
            &&& a.save <==> i.command && on(Key::S)
            &&& a.close_active_tab <==> i.command && on(Key::W)
            &&& a.toggle_grid <==> i.command && on(Key::Backslash)
            &&& a.open_replace <==> i.command && on(Key::H)
            &&& a.toggle_comment <==> i.command && on(Key::Slash)
            &&& a.join_lines <==> i.command && on(Key::J)
            &&& a.jump_bracket <==> plain && on(Key::M)
            &&& a.open_fuzzy <==> plain && on(Key::P)
            &&& a.cycle_tab_next <==> plain && on(Key::Tab) && !i.completing
            &&& a.cycle_tab_prev <==> shifted && on(Key::Tab) && !i.completing
            &&& a.duplicate_line <==> shifted && on(Key::D)
            &&& a.cycle_theme <==> shifted && on(Key::T)
            &&& a.toggle_minimap <==> shifted && on(Key::M)
            &&& a.reopen_tab <==> shifted && on(Key::R)
            &&& a.fold_all <==> shifted && on(Key::OpenBracket)
            &&& a.expand_all <==> shifted && on(Key::CloseBracket)
            &&& a.move_line_up <==> i.alt && on(Key::ArrowUp)
            &&& a.move_line_down <==> i.alt && on(Key::ArrowDown)
            &&& a.toggle_bookmark <==> i.command && on(Key::F2)
            &&& a.next_bookmark <==> !i.command && !i.shift && on(Key::F2)
            &&& a.prev_bookmark <==> !i.command && i.shift && on(Key::F2)
            &&& on(Key::F11) ==> a.toggle_fullscreen
            &&& a.toggle_fullscreen ==> on(Key::F11) || (on(Key::Escape) && i.fullscreen)
        }),
{
}

/// Each window opens, or turns over, by its own chord; while no Escape comes, what was open
/// stays open.
pub proof fn law_each_window_has_its_keys(s: Surfaces, i: &KeyInput)
    requires
        !i.pressed@.contains(Key::Escape),
    ensures
        ({
            let t = surfaces_after(s, i);
            let on = |k: Key| i.pressed@.contains(k);
            let plain = i.command && !i.shift;
            let shifted = i.command && i.shift;
            let entering = plain && on(Key::Period) && !s.zen_mode;
            &&& t.zen_mode != s.zen_mode <==> plain && on(Key::Period)
            &&& t.find_open <==> (s.find_open || (plain && on(Key::F))) && !entering
            &&& t.find_in_files_open <==> (s.find_in_files_open || (shifted && on(Key::F)))
                && !entering
            &&& t.md_preview_open != s.md_preview_open <==> shifted && on(Key::V)
            &&& t.palette_open <==> s.palette_open || (shifted && on(Key::P))
            &&& t.goto_symbol_open <==> s.goto_symbol_open || (shifted && on(Key::O))
            &&& t.goto_open <==> s.goto_open || (i.command && on(Key::G))
            &&& t.recent_open <==> s.recent_open || (plain && on(Key::R))
            &&& t.cheatsheet_open != s.cheatsheet_open <==> on(Key::F1)
            &&& t.recent_folders_open == s.recent_folders_open
            &&& t.welcome_open == s.welcome_open
            &&& t.fuzzy_open == s.fuzzy_open
            &&& t.settings_open == s.settings_open
            &&& t.diff_view_open == s.diff_view_open
            &&& t.fold_view == s.fold_view
        }),
{
}

/// What opens to be typed into gets the keyboard.
pub proof fn law_opened_fields_get_the_keyboard(s: Surfaces, i: &KeyInput)
    ensures
        ({
            let t = surfaces_after(s, i);
            &&& t.find_open && !s.find_open ==> t.focus_find
            &&& t.find_in_files_open && !s.find_in_files_open ==> t.focus_find_in_files
            &&& t.palette_open && !s.palette_open ==> t.focus_palette
            &&& t.goto_open && !s.goto_open ==> t.focus_goto
            &&& t.goto_symbol_open && !s.goto_symbol_open ==> t.focus_goto_symbol
            &&& s.focus_find ==> t.focus_find
            &&& s.focus_palette ==> t.focus_palette
        }),
{
}

/// The size of the font changes only with the command key: the wheel goes before the keys, up
/// is larger and down smaller, and zero goes back to the default before minus and plus.
pub proof fn law_zoom_keys(i: &KeyInput)
    ensures
        !i.command ==> zoom_asked(i) is None,
        i.command && i.wheel > 0 ==> zoom_asked(i) == Some(1i8),
        i.command && i.wheel < 0 ==> zoom_asked(i) == Some(-1i8),
        i.command && i.wheel == 0 ==> {
            let on = |k: Key| i.pressed@.contains(k);
            &&& on(Key::Num0) ==> zoom_asked(i) == Some(0i8)
            &&& !on(Key::Num0) && on(Key::Minus) ==> zoom_asked(i) == Some(-1i8)
            &&& !on(Key::Num0) && !on(Key::Minus) && (on(Key::Plus) || on(Key::Equals))
                ==> zoom_asked(i) == Some(1i8)
            &&& !on(Key::Num0) && !on(Key::Minus) && !on(Key::Plus) && !on(Key::Equals)
                ==> zoom_asked(i) is None
        },
{
}

/// F3 steps through the matches while the find bar is open, forward, or back with Shift.
pub proof fn law_find_step_keys(s: Surfaces, i: &KeyInput)
    ensures
        find_step_asked(s, i) is Some ==> i.pressed@.contains(Key::F3),
        s.find_open && (s.zen_mode || !i.pressed@.contains(Key::Period)) ==> (find_step_asked(s, i)
            is Some <==> i.pressed@.contains(Key::F3)),
        find_step_asked(s, i) matches Some(forward) ==> forward != i.shift,
        !s.find_open && !i.pressed@.contains(Key::F) ==> find_step_asked(s, i) is None,
{
}

/// The keyboard belongs to a window with a field or a list: the find bar, the palette, the
/// settings, the file finder, the line prompt and the symbol list. The windows that are only
/// looked at leave it to the editor.
pub proof fn law_modals_own_the_keyboard(s: Surfaces)
    ensures
        s.find_open || s.palette_open || s.settings_open || s.fuzzy_open || s.goto_open
            || s.goto_symbol_open ==> s.owns_keyboard(),
        s.owns_keyboard() ==> (Surfaces {
            welcome_open: false,
            cheatsheet_open: false,
            recent_open: false,
            recent_folders_open: false,
            ..s
        }).owns_keyboard(),
        !Surfaces::spec_closed().owns_keyboard(),
        !(Surfaces {
            welcome_open: true,
            cheatsheet_open: true,
            recent_open: true,
            ..Surfaces::spec_closed()
        }).owns_keyboard(),
{
}

/// Leaving zen brings back no find bar and closes nothing.
pub proof fn law_zen_turns_over(s: Surfaces)
    ensures
        s.zen_toggled().zen_mode != s.zen_mode,
        s.zen_mode ==> s.zen_toggled() == (Surfaces { zen_mode: false, ..s }),
        !s.zen_mode ==> !s.zen_toggled().find_open && !s.zen_toggled().find_in_files_open,
        s.zen_toggled().palette_open == s.palette_open,
        s.zen_toggled().settings_open == s.settings_open,
{
}

/// F2 does one thing: with the command key it marks a line, and never also jumps.
pub proof fn law_bookmark_keys_do_one_thing(s: Surfaces, i: &KeyInput)
    ensures
        ({
            let a = actions_asked(s, i);
            &&& a.toggle_bookmark ==> !a.next_bookmark && !a.prev_bookmark
            &&& !(a.next_bookmark && a.prev_bookmark)
        }),
{
}

/// One press of Escape leaves zen, or else the full screen, or else closes the overlays;
/// what is left for the next press stays as it was.
pub proof fn law_escape_takes_one_step(s: Surfaces, i: &KeyInput)
    requires
        i.pressed@ == seq![Key::Escape],
        i.wheel == 0,
    ensures
        ({
            let a = actions_asked(s, i);
            let t = surfaces_after(s, i);
            if s.zen_mode {
                t == (Surfaces { zen_mode: false, ..s }) && a == Pending::spec_none()
            } else if i.fullscreen {
                t == s && a == (Pending { toggle_fullscreen: true, ..Pending::spec_none() })
            } else {
                &&& !t.find_open
                &&& !t.palette_open
                &&& !t.cheatsheet_open
                &&& !t.goto_open
                &&& !t.goto_symbol_open
                &&& !t.recent_open
                &&& !t.recent_folders_open
                &&& !t.welcome_open
                &&& !t.fuzzy_open
                &&& t.settings_open == s.settings_open
                &&& t.find_in_files_open == s.find_in_files_open
            }
        }),
{
    if s.zen_mode {
        lemma_escape_leaves_zen(s, i);
    } else if i.fullscreen {
        lemma_escape_leaves_full_screen(s, i);
    } else {
        lemma_escape_closes_overlays(s, i);
    }
}

/// Where one key went down, no other did.
pub proof fn lemma_only_key(i: &KeyInput, k: Key, x: Key)
    requires
        i.pressed@ == seq![k],
    ensures
        i.down(x) == (x == k),
{
    assert(i.pressed@[0] == k);
    if i.down(x) {
        let j = choose|j: int| 0 <= j < i.pressed@.len() && i.pressed@[j] == x;
        assert(j == 0);
    }
}

/// Where only Escape went down, the other keys ask for nothing.
proof fn lemma_escape_asks_little(s: Surfaces, i: &KeyInput)
    requires
        i.pressed@ == seq![Key::Escape],
        i.wheel == 0,
    ensures
        i.down(Key::Escape),
        zen_at_escape(s, i) == s.zen_mode,
        actions_asked(s, i) == (Pending {
            toggle_fullscreen: !s.zen_mode && i.fullscreen,
            ..Pending::spec_none()
        }),
{
    assert forall|k: Key| i.down(k) == (k == Key::Escape) by {
        lemma_only_key(i, Key::Escape, k);
    }
}

/// In zen, Escape leaves zen and nothing else.
proof fn lemma_escape_leaves_zen(s: Surfaces, i: &KeyInput)
    requires
        i.pressed@ == seq![Key::Escape],
        i.wheel == 0,
        s.zen_mode,
    ensures
        surfaces_after(s, i) == (Surfaces { zen_mode: false, ..s }),
        actions_asked(s, i) == Pending::spec_none(),
{
    lemma_escape_asks_little(s, i);
    lemma_escape_only_escapes(s, i);
}

/// In the full screen, Escape leaves the full screen and nothing else.
proof fn lemma_escape_leaves_full_screen(s: Surfaces, i: &KeyInput)
    requires
        i.pressed@ == seq![Key::Escape],
        i.wheel == 0,
        !s.zen_mode,
        i.fullscreen,
    ensures
        surfaces_after(s, i) == s,
        actions_asked(s, i) == (Pending { toggle_fullscreen: true, ..Pending::spec_none() }),
{
    lemma_escape_asks_little(s, i);
    lemma_escape_only_escapes(s, i);
}

/// Otherwise Escape closes the overlays.
proof fn lemma_escape_closes_overlays(s: Surfaces, i: &KeyInput)
    requires
        i.pressed@ == seq![Key::Escape],
        i.wheel == 0,
        !s.zen_mode,
        !i.fullscreen,
    ensures
        ({
            let t = surfaces_after(s, i);
            &&& !t.find_open
            &&& !t.palette_open
            &&& !t.cheatsheet_open
            &&& !t.goto_open
            &&& !t.goto_symbol_open
            &&& !t.recent_open
            &&& !t.recent_folders_open
            &&& !t.welcome_open
            &&& !t.fuzzy_open
            &&& t.settings_open == s.settings_open
            &&& t.find_in_files_open == s.find_in_files_open
        }),
{
    lemma_escape_asks_little(s, i);
    lemma_escape_only_escapes(s, i);
}

/// Where only Escape went down, the surfaces change by it alone.
proof fn lemma_escape_only_escapes(s: Surfaces, i: &KeyInput)
    requires
        i.pressed@ == seq![Key::Escape],
    ensures
        ({
            let closes = !s.zen_mode && !i.fullscreen;
            surfaces_after(s, i) == (Surfaces {
                find_open: s.find_open && !closes,
                zen_mode: false,
                palette_open: s.palette_open && !closes,
                cheatsheet_open: s.cheatsheet_open && !closes,
                goto_open: s.goto_open && !closes,
                goto_symbol_open: s.goto_symbol_open && !closes,
                recent_open: s.recent_open && !closes,
                recent_folders_open: s.recent_folders_open && !closes,
                welcome_open: s.welcome_open && !closes,
                fuzzy_open: s.fuzzy_open && !closes,
                ..s
            })
        }),
{
    lemma_only_key(i, Key::Escape, Key::Escape);
    lemma_only_key(i, Key::Escape, Key::F);
    lemma_only_key(i, Key::Escape, Key::Period);
    lemma_only_key(i, Key::Escape, Key::V);
    lemma_only_key(i, Key::Escape, Key::P);
    lemma_only_key(i, Key::Escape, Key::F1);
    lemma_only_key(i, Key::Escape, Key::G);
    lemma_only_key(i, Key::Escape, Key::O);
    lemma_only_key(i, Key::Escape, Key::R);
}

/// Entering zen leaves nothing but the editor: no find bar stays open.
pub proof fn law_zen_closes_find_bars(s: Surfaces, i: &KeyInput)
    requires
        !s.zen_mode,
        surfaces_after(s, i).zen_mode,
    ensures
        !surfaces_after(s, i).find_open,
        !surfaces_after(s, i).find_in_files_open,
{
}

} // verus!

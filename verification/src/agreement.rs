//! The shortcut of a command and its entry in the palette: two ways to one change.
use vstd::prelude::*;
use crate::actions::{
    command_of, file_steps, keys_taken, late_steps, line_steps, mark_steps, step_if, steps_of,
    tab_steps, Clicked, Step,
};
use crate::app;
use crate::app::{AppModel, BuiltinCommand, Effect, QueriesModel, Requests};
use crate::shortcuts;
use crate::shortcuts::{Key, KeyInput, Surfaces};

verus! {

/// The command of the palette that a key, going down alone, is the shortcut of.
pub open spec fn shortcut_of(i: &KeyInput, k: Key) -> Option<BuiltinCommand> {
    if k == Key::F2 {
        if i.command {
            Some(BuiltinCommand::ToggleBookmark)
        } else if i.shift {
            Some(BuiltinCommand::PrevBookmark)
        } else {
            Some(BuiltinCommand::NextBookmark)
        }
    } else if !i.command {
        None
    } else {
        match k {
            Key::N => Some(BuiltinCommand::NewFile),
            Key::O => if i.shift {
                Some(BuiltinCommand::GoToSymbol)
            } else {
                Some(BuiltinCommand::OpenFile)
            },
            Key::S => Some(BuiltinCommand::Save),
            Key::W => Some(BuiltinCommand::CloseActiveTab),
            Key::Backslash => Some(BuiltinCommand::ToggleSplitView),
            Key::M => if i.shift {
                Some(BuiltinCommand::ToggleMinimap)
            } else {
                Some(BuiltinCommand::JumpMatchingBracket)
            },
            Key::Tab => if i.completing {
                None
            } else if i.shift {
                Some(BuiltinCommand::CycleTabPrev)
            } else {
                Some(BuiltinCommand::CycleTabNext)
            },
            Key::F => if i.shift {
                None
            } else {
                Some(BuiltinCommand::OpenFind)
            },
            Key::Period => if i.shift {
                None
            } else {
                Some(BuiltinCommand::ToggleZen)
            },
            Key::V => if i.shift {
                Some(BuiltinCommand::ToggleMarkdownPreview)
            } else {
                None
            },
            Key::P => if i.shift {
                Some(BuiltinCommand::OpenPalette)
            } else {
                None
            },
            Key::T => if i.shift {
                Some(BuiltinCommand::CycleTheme)
            } else {
                None
            },
            Key::OpenBracket => if i.shift {
                Some(BuiltinCommand::FoldAll)
            } else {
                None
            },
            Key::CloseBracket => if i.shift {
                Some(BuiltinCommand::ExpandAll)
            } else {
                None
            },
            _ => None,
        }
    }
}

/// The shortcut of a command and its entry in the palette do the same, for every command
/// that has a shortcut and in every state. Either taking the key leaves the very state that
/// the command leaves, with nothing to do at the end of the frame or outside the state; or
/// it changes nothing and asks for one step, which carries out that command.
pub proof fn law_shortcut_and_palette_agree(
    m: AppModel,
    i: &KeyInput,
    k: Key,
    c: Clicked,
    line0: usize,
    themes: Seq<Seq<char>>,
    folder: Option<Seq<char>>,
)
    requires
        i.pressed@ == seq![k],
        i.wheel == 0,
        shortcut_of(i, k) is Some,
        c.idle(),
    ensures
        ({
            let cmd = shortcut_of(i, k)->0;
            let steps = steps_of(shortcuts::actions_asked(m.surfaces, i), c);
            if at_once(cmd) {
                &&& keys_taken(m, i) == app::after_command(m, cmd, line0, themes, folder)
                &&& app::outside_effect(cmd) == Effect::Nothing
                &&& steps == Seq::<Step>::empty()
            } else {
                &&& keys_taken(m, i) == m
                &&& steps.len() == 1
                &&& command_of(steps[0]) == Some(cmd)
            }
        }),
{
    lemma_steps_of_shortcut(m.surfaces, i, k, c);
    let cmd = shortcut_of(i, k)->0;
    if at_once(cmd) {
        lemma_prompt_surfaces(m.surfaces, i, k);
        lemma_prompt_chords(i, k);
        lemma_prompt_command(m, cmd, line0, themes, folder);
        lemma_parts_agree(m, i, cmd, line0, themes, folder);
    } else {
        lemma_late_shortcut(m.surfaces, i, k);
        assert(keys_taken(m, i).queries == m.queries);
        app::lemma_same_state(keys_taken(m, i), m);
    }
}

/// Whether the shortcut of a command works while the keys are taken, and not at the end of
/// the frame.
pub open spec fn at_once(cmd: BuiltinCommand) -> bool {
    cmd is ToggleZen || cmd is ToggleMarkdownPreview || cmd is OpenFind || cmd is OpenPalette
        || cmd is GoToSymbol || cmd is JumpMatchingBracket
}

/// What the keys do to the surfaces, for each of the keys that open or close one.
proof fn lemma_surfaces_by_chord(s: Surfaces, i: &KeyInput)
    requires
        !i.down(Key::Escape),
        !i.down(Key::F1),
        !i.down(Key::G),
        !i.down(Key::R),
        !i.shift_chord(Key::F),
    ensures
        ({
            let find = i.plain_chord(Key::F);
            let zen = i.plain_chord(Key::Period);
            let palette = i.shift_chord(Key::P);
            let symbols = i.shift_chord(Key::O);
            let entered = zen && !s.zen_mode;
            shortcuts::surfaces_after(s, i) == (Surfaces {
                find_open: (s.find_open || find) && !entered,
                focus_find: s.focus_find || find,
                find_in_files_open: s.find_in_files_open && !entered,
                zen_mode: s.zen_mode != zen,
                md_preview_open: s.md_preview_open != i.shift_chord(Key::V),
                palette_open: s.palette_open || palette,
                focus_palette: s.focus_palette || palette,
                goto_symbol_open: s.goto_symbol_open || symbols,
                focus_goto_symbol: s.focus_goto_symbol || symbols,
                ..s
            })
        }),
{
}

/// The keys that taking the keys of a frame goes by, where only `k` went down.
proof fn lemma_chords(i: &KeyInput, k: Key)
    requires
        i.pressed@ == seq![k],
    ensures
        i.down(Key::Escape) == (k == Key::Escape),
        i.down(Key::F1) == (k == Key::F1),
        i.down(Key::G) == (k == Key::G),
        i.down(Key::R) == (k == Key::R),
        i.down(Key::F) == (k == Key::F),
        i.down(Key::Period) == (k == Key::Period),
        i.down(Key::V) == (k == Key::V),
        i.down(Key::P) == (k == Key::P),
        i.down(Key::O) == (k == Key::O),
        i.down(Key::M) == (k == Key::M),
{
    shortcuts::lemma_only_key(i, k, Key::Escape);
    shortcuts::lemma_only_key(i, k, Key::F1);
    shortcuts::lemma_only_key(i, k, Key::G);
    shortcuts::lemma_only_key(i, k, Key::R);
    shortcuts::lemma_only_key(i, k, Key::F);
    shortcuts::lemma_only_key(i, k, Key::Period);
    shortcuts::lemma_only_key(i, k, Key::V);
    shortcuts::lemma_only_key(i, k, Key::P);
    shortcuts::lemma_only_key(i, k, Key::O);
    shortcuts::lemma_only_key(i, k, Key::M);
}

/// A shortcut that does not work at once leaves the surfaces alone.
proof fn lemma_late_shortcut(s: Surfaces, i: &KeyInput, k: Key)
    requires
        i.pressed@ == seq![k],
        shortcut_of(i, k) is Some,
        !at_once(shortcut_of(i, k)->0),
    ensures
        shortcuts::surfaces_after(s, i) == s,
        !i.shift_chord(Key::P),
        !i.chord(Key::G),
        !i.shift_chord(Key::O),
        !i.plain_chord(Key::M),
{
    lemma_chords(i, k);
    lemma_surfaces_by_chord(s, i);
}

/// The key of the find bar.
proof fn lemma_find_key(s: Surfaces, i: &KeyInput)
    requires
        i.pressed@ == seq![Key::F],
        i.command,
        !i.shift,
    ensures
        shortcuts::surfaces_after(s, i) == app::surfaces_for(s, BuiltinCommand::OpenFind),
{
    lemma_chords(i, Key::F);
    lemma_surfaces_by_chord(s, i);
}

/// The key of zen.
proof fn lemma_zen_key(s: Surfaces, i: &KeyInput)
    requires
        i.pressed@ == seq![Key::Period],
        i.command,
        !i.shift,
    ensures
        shortcuts::surfaces_after(s, i) == app::surfaces_for(s, BuiltinCommand::ToggleZen),
{
    lemma_chords(i, Key::Period);
    lemma_surfaces_by_chord(s, i);
    if s.zen_mode {
        assert(shortcuts::surfaces_after(s, i) == (Surfaces { zen_mode: false, ..s }));
    } else {
        assert(shortcuts::surfaces_after(s, i) == (Surfaces {
            zen_mode: true,
            find_open: false,
            find_in_files_open: false,
            ..s
        }));
    }
}

/// The key of the Markdown preview.
proof fn lemma_preview_key(s: Surfaces, i: &KeyInput)
    requires
        i.pressed@ == seq![Key::V],
        i.command,
        i.shift,
    ensures
        shortcuts::surfaces_after(s, i) == app::surfaces_for(s, BuiltinCommand::ToggleMarkdownPreview),
{
    lemma_chords(i, Key::V);
    lemma_surfaces_by_chord(s, i);
}

/// The key of the palette.
proof fn lemma_palette_key(s: Surfaces, i: &KeyInput)
    requires
        i.pressed@ == seq![Key::P],
        i.command,
        i.shift,
    ensures
        shortcuts::surfaces_after(s, i) == app::surfaces_for(s, BuiltinCommand::OpenPalette),
{
    lemma_chords(i, Key::P);
    lemma_surfaces_by_chord(s, i);
}

/// The key of the symbol list.
proof fn lemma_symbols_key(s: Surfaces, i: &KeyInput)
    requires
        i.pressed@ == seq![Key::O],
        i.command,
        i.shift,
    ensures
        shortcuts::surfaces_after(s, i) == app::surfaces_for(s, BuiltinCommand::GoToSymbol),
{
    lemma_chords(i, Key::O);
    lemma_surfaces_by_chord(s, i);
}

/// The key of the matching bracket.
proof fn lemma_bracket_key(s: Surfaces, i: &KeyInput)
    requires
        i.pressed@ == seq![Key::M],
        i.command,
        !i.shift,
    ensures
        shortcuts::surfaces_after(s, i) == app::surfaces_for(s, BuiltinCommand::JumpMatchingBracket),
{
    lemma_chords(i, Key::M);
    lemma_surfaces_by_chord(s, i);
}

/// A shortcut that works at once opens and closes what its command does.
proof fn lemma_prompt_surfaces(s: Surfaces, i: &KeyInput, k: Key)
    requires
        i.pressed@ == seq![k],
        shortcut_of(i, k) is Some,
        at_once(shortcut_of(i, k)->0),
    ensures
        shortcuts::surfaces_after(s, i) == app::surfaces_for(s, shortcut_of(i, k)->0),
{
    if k == Key::F {
        lemma_find_key(s, i);
    } else if k == Key::Period {
        lemma_zen_key(s, i);
    } else if k == Key::V {
        lemma_preview_key(s, i);
    } else if k == Key::P {
        lemma_palette_key(s, i);
    } else if k == Key::O {
        lemma_symbols_key(s, i);
    } else {
        lemma_bracket_key(s, i);
    }
}

/// What a command whose shortcut works at once changes besides.
proof fn lemma_prompt_command(
    m: AppModel,
    cmd: BuiltinCommand,
    line0: usize,
    themes: Seq<Seq<char>>,
    folder: Option<Seq<char>>,
)
    requires
        at_once(cmd),
    ensures
        app::after_command(m, cmd, line0, themes, folder) == (AppModel {
            surfaces: app::surfaces_for(m.surfaces, cmd),
            queries: QueriesModel {
                palette: if cmd is OpenPalette {
                    Seq::empty()
                } else {
                    m.queries.palette
                },
                goto_symbol: if cmd is GoToSymbol {
                    Seq::empty()
                } else {
                    m.queries.goto_symbol
                },
                ..m.queries
            },
            requests: Requests {
                jump_bracket: m.requests.jump_bracket || cmd is JumpMatchingBracket,
                ..m.requests
            },
            ..m
        }),
        app::outside_effect(cmd) == Effect::Nothing,
{
    let t = app::after_command(m, cmd, line0, themes, folder);
    let q = QueriesModel {
        palette: if cmd is OpenPalette {
            Seq::empty()
        } else {
            m.queries.palette
        },
        goto_symbol: if cmd is GoToSymbol {
            Seq::empty()
        } else {
            m.queries.goto_symbol
        },
        ..m.queries
    };
    assert(t.queries == q);
    app::lemma_same_state(
        t,
        AppModel {
            surfaces: app::surfaces_for(m.surfaces, cmd),
            queries: q,
            requests: Requests {
                jump_bracket: m.requests.jump_bracket || cmd is JumpMatchingBracket,
                ..m.requests
            },
            ..m
        },
    );
}

/// Keys that open and close what a command does, and clear and ask for the same, leave the
/// state that the command leaves.
proof fn lemma_parts_agree(
    m: AppModel,
    i: &KeyInput,
    cmd: BuiltinCommand,
    line0: usize,
    themes: Seq<Seq<char>>,
    folder: Option<Seq<char>>,
)
    requires
        at_once(cmd),
        shortcuts::surfaces_after(m.surfaces, i) == app::surfaces_for(m.surfaces, cmd),
        i.shift_chord(Key::P) == (cmd is OpenPalette),
        i.shift_chord(Key::O) == (cmd is GoToSymbol),
        i.plain_chord(Key::M) == (cmd is JumpMatchingBracket),
        !i.chord(Key::G),
    ensures
        keys_taken(m, i) == app::after_command(m, cmd, line0, themes, folder),
{
    lemma_prompt_command(m, cmd, line0, themes, folder);
    let u = keys_taken(m, i);
    let t = app::after_command(m, cmd, line0, themes, folder);
    assert(u.queries == t.queries);
    app::lemma_same_state(u, t);
}

/// The chords that clear a query or ask something of the editor, by the command.
proof fn lemma_prompt_chords(i: &KeyInput, k: Key)
    requires
        i.pressed@ == seq![k],
        shortcut_of(i, k) is Some,
        at_once(shortcut_of(i, k)->0),
    ensures
        i.shift_chord(Key::P) == (shortcut_of(i, k)->0 is OpenPalette),
        i.shift_chord(Key::O) == (shortcut_of(i, k)->0 is GoToSymbol),
        i.plain_chord(Key::M) == (shortcut_of(i, k)->0 is JumpMatchingBracket),
        !i.chord(Key::G),
{
    lemma_chords(i, k);
}

/// The step that a command is carried out by.
spec fn step_of(cmd: BuiltinCommand) -> Step {
    match cmd {
        BuiltinCommand::NewFile => Step::New,
        BuiltinCommand::OpenFile => Step::OpenDialog,
        BuiltinCommand::Save => Step::Save,
        BuiltinCommand::CloseActiveTab => Step::CloseActive,
        BuiltinCommand::ToggleSplitView => Step::ToggleGrid,
        BuiltinCommand::CycleTabNext => Step::CycleNext,
        BuiltinCommand::CycleTabPrev => Step::CyclePrev,
        BuiltinCommand::CycleTheme => Step::CycleTheme,
        BuiltinCommand::ToggleBookmark => Step::ToggleBookmark,
        BuiltinCommand::NextBookmark => Step::NextBookmark,
        BuiltinCommand::PrevBookmark => Step::PrevBookmark,
        BuiltinCommand::ToggleMinimap => Step::ToggleMinimap,
        BuiltinCommand::FoldAll => Step::FoldAll,
        BuiltinCommand::ExpandAll => Step::ExpandAll,
        _ => Step::Builtin(cmd),
    }
}

/// The steps of one group, when at most one of them is asked for.
spec fn one_if(asked: bool, cmd: BuiltinCommand) -> Seq<Step> {
    step_if(asked, step_of(cmd))
}

proof fn lemma_steps_of_shortcut(s: Surfaces, i: &KeyInput, k: Key, c: Clicked)
    requires
        i.pressed@ == seq![k],
        i.wheel == 0,
        shortcut_of(i, k) is Some,
        c.idle(),
    ensures
        ({
            let cmd = shortcut_of(i, k)->0;
            let steps = steps_of(shortcuts::actions_asked(s, i), c);
            if at_once(cmd) {
                steps == Seq::<Step>::empty()
            } else {
                steps == seq![step_of(cmd)] && command_of(step_of(cmd)) == Some(cmd)
            }
        }),
{
    assert forall|x: Key| i.down(x) == (x == k) by {
        shortcuts::lemma_only_key(i, k, x);
    }
    let cmd = shortcut_of(i, k)->0;
    let a = shortcuts::actions_asked(s, i);
    let in_file = cmd is NewFile || cmd is OpenFile || cmd is Save;
    let in_tabs = cmd is CloseActiveTab || cmd is ToggleSplitView || cmd is CycleTabNext
        || cmd is CycleTabPrev;
    let in_lines = cmd is CycleTheme;
    let in_marks = cmd is ToggleBookmark || cmd is NextBookmark || cmd is PrevBookmark
        || cmd is ToggleMinimap || cmd is FoldAll || cmd is ExpandAll;
    assert(file_steps(a, c) =~= one_if(in_file, cmd));
    assert(tab_steps(a, c) =~= one_if(in_tabs, cmd));
    assert(line_steps(a, c) =~= one_if(in_lines, cmd));
    assert(mark_steps(a, c) =~= one_if(in_marks, cmd));
    assert(late_steps(a, c) =~= Seq::<Step>::empty());
    assert(steps_of(a, c) =~= step_if(!at_once(cmd), step_of(cmd)));
}

} // verus!

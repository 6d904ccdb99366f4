use std::collections::BTreeSet;

use scribe_app::actions::{
    deferred_steps, suggested_name, Clicked, Conversion, EditorEvent, Step,
};
use scribe_app::app::{
    eol_name, Around, BuiltinCommand, EditorAction, Effect, ScribeApp, Toggles, Transform,
};
use scribe_app::edit::Span;
use scribe_app::bookmarks::{navigate_bookmark, pick_bookmark, toggle_bookmark, BookmarkJump};
use scribe_app::find::{
    find_navigate, fuzzy_move_selection, line_of_offset, listed_symbols, lowered_query,
    match_counter, match_in_focus, match_label, needs_rescan, palette_label, palette_lists,
    palette_lists_plugin, search_progress, str_contains, symbol_on_enter, symbol_query, symbol_row, FileMatch, FindKey, ProjectSearch,
    SearchEvent, SearchStart, Symbol,
};
use scribe_app::fonts::{
    arrange_fonts, build_fonts, family_key_at, family_name_at, font_family_key, font_state_key,
    FontLists, FONT_FAMILY_COUNT,
};
use scribe_app::frame::{
    autoscroll_step, chrome_plan, concerns_settings, follows_system_change, is_markdown,
    layout_to_save, settings_banner, theme_source, ChromeState, CloseStep, Closing, FinderKeys,
    FontSwitch, TabBarPosition, ThemeSource, WelcomeClicks,
};
use scribe_app::launch::LaunchSettings;
use scribe_app::lines::trimmed;
use scribe_app::lsp::Servers;
use scribe_app::memo::{
    caret_to_forget, ensure_change_states, minimap_step, spell_cache_key, spell_is_scoped,
    spell_stale, symbol_step, ChangeBarStep, SpellScope, SymbolStep, TokenClass,
    CHANGE_BAR_MAX_BYTES, MAX_SYMBOL_SCAN_BYTES,
};
use scribe_app::plugins::{discovered_plugin_rows, PluginManagerTab, PluginTrust};
use scribe_app::reporting::{
    crash_consent, drain_crash_spool, ConsentAnswer, IntakeClick, IntakeOutcome, IntakeSend,
    IssueIntake, IssueKind, RememberChoice, ReportingMode, SpoolStep,
};
use scribe_app::resize::{resize_dir_at, ResizeDirection as D, WindowRect};
use scribe_app::shortcuts::{take_keys, Key, KeyInput, Pending, Surfaces};
use scribe_app::status::{
    caret_text, counts_text, diagnostics_text, error_count, gutter_digits, language_text,
    line_count, selected_chars, selection_text, spell_text, word_count,
};
use scribe_app::tab::{Document, EditorTab, Eol, Opened};
use scribe_app::theme::{
    background_overrides, effective_theme_name, next_theme, path_to_uri, use_rope_editor, OsTheme,
    Rgb,
};
use scribe_app::toolbar::{tool_of, toolbar_plan, Tool, ToolEffect};
use scribe_app::updates::{
    notice_text, now_unix, unix_or_zero, update_launch_action, LaunchKind, PromptAct,
    PromptButton, UpdateMode, UpdatePrompt, UpdateSchedule, UpdateState,
};

fn toggles() -> Toggles {
    Toggles {
        grid_enabled: false,
        show_minimap: true,
        spellcheck: false,
        word_wrap: false,
        show_line_numbers: true,
        show_change_bar: true,
    }
}

fn settings() -> LaunchSettings {
    LaunchSettings {
        theme: "wired-noir".to_string(),
        toggles: toggles(),
        session_backup: true,
        restore_session: true,
        first_run_completed: true,
        recent_files: 0,
        product: "SCR1B3".to_string(),
        tagline: "notes".to_string(),
    }
}

fn app() -> ScribeApp {
    ScribeApp::new_test(settings())
}

fn around() -> Around {
    Around {
        line0: 4,
        themes: vec!["wired-noir".to_string(), "ghost-paper".to_string()],
        folder: None,
    }
}

fn opened(path: &str, text: &str) -> Opened {
    Opened {
        doc: Document {
            path: Some(path.to_string()),
            name: path.rsplit('/').next().unwrap_or(path).to_string(),
            text: text.to_string(),
            read_only_large: false,
            eol: Eol::Lf,
            encoding: "UTF-8".to_string(),
            language: Some("rs".to_string()),
        },
        mtime: None,
    }
}

fn keys(command: bool, shift: bool, pressed: Vec<Key>) -> KeyInput {
    KeyInput {
        command,
        shift,
        alt: false,
        pressed,
        wheel: 0,
        fullscreen: false,
        completing: false,
    }
}

// Commands.

#[test]
fn a_new_app_has_one_empty_note() {
    let a = app();
    assert_eq!(a.open.tabs.len(), 1);
    assert_eq!(a.open.tabs[0].text, "");
    assert!(!a.surfaces.find_open && !a.surfaces.welcome_open);
    assert!(a.toast.is_none());
}

#[test]
fn commands_open_surfaces() {
    let mut a = app();
    a.execute_builtin(BuiltinCommand::OpenFind, &around());
    assert!(a.surfaces.find_open && a.surfaces.focus_find);
    a.execute_builtin(BuiltinCommand::ToggleZen, &around());
    assert!(a.surfaces.zen_mode && !a.surfaces.find_open);
    a.execute_builtin(BuiltinCommand::ToggleZen, &around());
    assert!(!a.surfaces.zen_mode);
    a.execute_builtin(BuiltinCommand::OpenRecentFolder, &around());
    assert!(a.surfaces.recent_folders_open);
    a.execute_builtin(BuiltinCommand::OpenSettings, &around());
    assert!(a.surfaces.settings_open);
    a.execute_builtin(BuiltinCommand::OpenPalette, &around());
    assert!(a.surfaces.palette_open && a.surfaces.focus_palette);
    a.execute_builtin(BuiltinCommand::ToggleDiffView, &around());
    assert!(a.surfaces.diff_view_open);
    a.queries.goto_symbol = "old".to_string();
    a.execute_builtin(BuiltinCommand::GoToSymbol, &around());
    assert!(a.surfaces.goto_symbol_open);
    assert_eq!(a.queries.goto_symbol, "");
}

#[test]
fn commands_turn_settings_over_and_have_them_written() {
    let mut a = app();
    let e = a.execute_builtin(BuiltinCommand::ToggleSplitView, &around());
    assert!(a.toggles.grid_enabled);
    assert!(matches!(e, Effect::SaveConfigQuietly));
    a.execute_builtin(BuiltinCommand::ToggleMinimap, &around());
    assert!(!a.toggles.show_minimap);
    let e = a.execute_builtin(BuiltinCommand::ToggleSpellcheck, &around());
    assert!(matches!(e, Effect::SaveConfig));
    assert!(a.toggles.spellcheck);
    a.execute_builtin(BuiltinCommand::ToggleWordWrap, &around());
    assert!(a.toggles.word_wrap);
    a.execute_builtin(BuiltinCommand::ToggleLineNumbers, &around());
    assert!(!a.toggles.show_line_numbers);
    a.execute_builtin(BuiltinCommand::ToggleChangeBar, &around());
    assert!(!a.toggles.show_change_bar);
}

#[test]
fn commands_work_on_the_tabs() {
    let mut a = app();
    a.execute_builtin(BuiltinCommand::NewFile, &around());
    assert_eq!((a.open.tabs.len(), a.open.active), (2, 1));
    a.execute_builtin(BuiltinCommand::CycleTabNext, &around());
    assert_eq!(a.open.active, 0);
    a.execute_builtin(BuiltinCommand::CycleTabPrev, &around());
    assert_eq!(a.open.active, 1);
    a.execute_builtin(BuiltinCommand::SetLineEndingsCrlf, &around());
    assert_eq!(a.open.tabs[1].doc.eol, Eol::Crlf);
    assert_eq!(a.status, "line endings set to CRLF — save to apply");
    a.open.toggle_pin(1);
    let e = a.execute_builtin(BuiltinCommand::CloseActiveTab, &around());
    assert!(matches!(e, Effect::Nothing));
    assert_eq!(a.status, "Note is pinned — unpin it to close");
    assert_eq!(a.open.tabs.len(), 2);
    a.execute_builtin(BuiltinCommand::CloseAllTabs, &around());
    assert_eq!((a.open.tabs.len(), a.open.active), (1, 0));
    a.open_picked("/t/a.rs", Ok(opened("/t/a.rs", "x")));
    let e = a.execute_builtin(BuiltinCommand::CloseActiveTab, &around());
    assert!(matches!(e, Effect::TabClosed(Some((p, 0))) if p == "/t/a.rs"));
}

#[test]
fn the_theme_cycles_through_the_bundled_ones() {
    let mut a = app();
    let e = a.execute_builtin(BuiltinCommand::CycleTheme, &around());
    assert!(matches!(e, Effect::SaveConfigQuietly));
    assert_eq!(a.theme, "ghost-paper");
    assert_eq!(a.status, "theme: ghost-paper");
    a.execute_builtin(BuiltinCommand::CycleTheme, &around());
    assert_eq!(a.theme, "wired-noir");
    let none = Around { line0: 0, themes: Vec::new(), folder: None };
    let e = a.execute_builtin(BuiltinCommand::CycleTheme, &none);
    assert!(matches!(e, Effect::Nothing));
    let names = around().themes;
    assert_eq!(next_theme(&names, "unknown").as_deref(), Some("ghost-paper"));
}

#[test]
fn commands_that_need_a_file_say_so() {
    let mut a = app();
    let e = a.execute_builtin(BuiltinCommand::RevealInExplorer, &around());
    assert!(matches!(e, Effect::Nothing));
    assert_eq!(a.toast.as_deref(), Some("This tab has no saved file to reveal."));
    let e = a.execute_builtin(BuiltinCommand::CopyFilePath, &around());
    assert!(matches!(e, Effect::Nothing));
    assert_eq!(a.toast.as_deref(), Some("This tab has no saved file path."));
    a.open_picked("/t/a.rs", Ok(opened("/t/a.rs", "x")));
    let mut w = around();
    w.folder = Some("/t".to_string());
    assert!(matches!(
        a.execute_builtin(BuiltinCommand::RevealInExplorer, &w),
        Effect::RevealFolder
    ));
    assert!(matches!(
        a.execute_builtin(BuiltinCommand::CopyFilePath, &w),
        Effect::CopyPath
    ));
    a.finish_copy_path("/t/a.rs", Ok(()));
    assert_eq!(a.status, "copied path: /t/a.rs");
    a.finish_copy_path("/t/a.rs", Err("busy".to_string()));
    assert_eq!(a.toast.as_deref(), Some("could not copy path: busy"));
}

#[test]
fn commands_leave_the_rest_to_the_shell() {
    let mut a = app();
    let w = around();
    assert!(matches!(a.execute_builtin(BuiltinCommand::OpenFile, &w), Effect::OpenDialog));
    assert!(matches!(a.execute_builtin(BuiltinCommand::OpenFolder, &w), Effect::PickFolder));
    assert!(matches!(a.execute_builtin(BuiltinCommand::Save, &w), Effect::Save));
    assert!(matches!(a.execute_builtin(BuiltinCommand::ReportIssue, &w), Effect::Nothing));
    assert!(matches!(a.execute_builtin(BuiltinCommand::FoldAll, &w), Effect::FoldAll));
    assert!(matches!(a.execute_builtin(BuiltinCommand::StartLsp, &w), Effect::StartLsp));
    assert!(matches!(
        a.execute_builtin(BuiltinCommand::SortLines, &w),
        Effect::Transform(Transform::SortLines)
    ));
    assert!(matches!(
        a.execute_builtin(BuiltinCommand::ConvertIndentToTabs, &w),
        Effect::Transform(Transform::IndentToTabs)
    ));
}

#[test]
fn editor_actions_are_taken_once() {
    let mut a = app();
    a.execute_builtin(BuiltinCommand::Redo, &around());
    assert_eq!(a.requests.editor_action, Some(EditorAction::Redo));
    let e = a.drain_pending_editor_action(Ok(String::new()));
    assert!(matches!(e, Some(EditorEvent::UndoKey { shift: true })));
    assert!(a.drain_pending_editor_action(Ok(String::new())).is_none());
    a.execute_builtin(BuiltinCommand::Paste, &around());
    let e = a.drain_pending_editor_action(Ok("clip".to_string()));
    assert!(matches!(e, Some(EditorEvent::Paste(t)) if t == "clip"));
    a.execute_builtin(BuiltinCommand::Paste, &around());
    assert!(a.drain_pending_editor_action(Err("no display".to_string())).is_none());
    assert_eq!(a.toast.as_deref(), Some("paste unavailable: no display"));
}

#[test]
fn bookmarks_are_set_and_found() {
    let mut a = app();
    let w = around();
    a.execute_builtin(BuiltinCommand::NextBookmark, &w);
    assert_eq!(a.status, "no bookmarks in this buffer");
    a.execute_builtin(BuiltinCommand::ToggleBookmark, &w);
    assert_eq!(a.status, "bookmark added: line 5");
    assert!(matches!(
        a.execute_builtin(BuiltinCommand::NextBookmark, &w),
        Effect::GotoLine(4)
    ));
    a.execute_builtin(BuiltinCommand::ToggleBookmark, &w);
    assert_eq!(a.status, "bookmark removed: line 5");
}

#[test]
fn the_next_bookmark_wraps_around() {
    let marks: BTreeSet<usize> = vec![2, 5, 9].into_iter().collect();
    assert_eq!(pick_bookmark(&marks, 5, 1), Some(9));
    assert_eq!(pick_bookmark(&marks, 9, 1), Some(2));
    assert_eq!(pick_bookmark(&marks, 5, -1), Some(2));
    assert_eq!(pick_bookmark(&marks, 2, -1), Some(9));
    assert_eq!(pick_bookmark(&BTreeSet::new(), 0, 1), None);
    assert!(matches!(navigate_bookmark(&marks, 0, 1), BookmarkJump::Line(3)));
    let mut m = marks.clone();
    toggle_bookmark(&mut m, 5);
    toggle_bookmark(&mut m, 5);
    assert_eq!(m, marks);
}

#[test]
fn a_transform_changes_the_text_or_says_nothing() {
    let mut a = app();
    a.open_picked("/t/a.rs", Ok(opened("/t/a.rs", "b\na\n")));
    assert_eq!(a.status, "opened /t/a.rs");
    a.apply_buffer_transform(Transform::SortLines, "a\nb\n".to_string());
    assert_eq!(a.open.tabs[1].text, "a\nb\n");
    assert_eq!(a.status, "sorted lines (A-Z)");
    a.apply_buffer_transform(Transform::SortLinesUnique, "a\nb\n".to_string());
    assert_eq!(a.status, "sorted lines (A-Z)");
    a.open.tabs[1].doc.read_only_large = true;
    a.apply_buffer_transform(Transform::TrimTrailingWhitespace, "c".to_string());
    assert_eq!(a.open.tabs[1].text, "a\nb\n");
}

#[test]
fn a_plugin_rewrites_the_note_or_fails() {
    let mut a = app();
    a.finish_plugin_command(Ok(("HELLO".to_string(), Some("done".to_string()))));
    assert_eq!(a.open.tabs[0].text, "HELLO");
    assert_eq!(a.status, "done");
    a.finish_plugin_command(Err("boom".to_string()));
    assert_eq!(a.toast.as_deref(), Some("plugin error: boom"));
    a.open_picked("/x", Err("denied".to_string()));
    assert_eq!(a.toast.as_deref(), Some("open failed: denied"));
}

#[test]
fn regions_fold_and_expand() {
    let mut a = app();
    a.fold_all(&vec![3, 7, 3]);
    assert_eq!(a.folds.iter().copied().collect::<Vec<usize>>(), vec![3, 7]);
    assert!(a.surfaces.fold_view);
    assert_eq!(a.status, "folded 3 region(s)");
    a.toggle_fold(3);
    assert!(!a.folds.contains(&3));
    a.toggle_fold(3);
    assert!(a.folds.contains(&3));
    a.execute_builtin(BuiltinCommand::ExpandAll, &around());
    assert!(a.folds.is_empty());
    assert_eq!(a.status, "expanded all");
}

#[test]
fn converted_copies_are_named_and_reported() {
    assert_eq!(suggested_name(Some("notes"), "md"), "notes.md");
    assert_eq!(suggested_name(None, "html"), "untitled.html");
    let mut a = app();
    a.finish_conversion(Conversion::Markdown, "/t/n.md", Ok(()));
    assert_eq!(a.status, "converted to Markdown → /t/n.md");
    a.finish_conversion(Conversion::Html, "/t/n.html", Ok(()));
    assert_eq!(a.status, "exported HTML → /t/n.html");
    a.finish_conversion(Conversion::Markdown, "/t/n.md", Err("full".to_string()));
    assert_eq!(a.toast.as_deref(), Some("convert failed: full"));
    a.finish_conversion(Conversion::Html, "/t/n.html", Err("full".to_string()));
    assert_eq!(a.toast.as_deref(), Some("export failed: full"));
}

// Keys.

#[test]
fn find_and_find_in_files_differ_by_shift() {
    let mut s = Surfaces::closed();
    take_keys(&mut s, &keys(true, false, vec![Key::F]));
    assert!(s.find_open && s.focus_find && !s.find_in_files_open);
    let mut s = Surfaces::closed();
    take_keys(&mut s, &keys(true, true, vec![Key::F]));
    assert!(!s.find_open && s.find_in_files_open);
}

#[test]
fn shift_tells_the_chords_apart() {
    let mut s = Surfaces::closed();
    let a = take_keys(&mut s, &keys(true, true, vec![Key::O]));
    assert!(!a.actions.open && s.goto_symbol_open);
    let mut s = Surfaces::closed();
    let a = take_keys(&mut s, &keys(true, false, vec![Key::O]));
    assert!(a.actions.open && !s.goto_symbol_open);
    let mut s = Surfaces::closed();
    let a = take_keys(&mut s, &keys(true, true, vec![Key::R]));
    assert!(a.actions.reopen_tab && !s.recent_open);
    let mut s = Surfaces::closed();
    let a = take_keys(&mut s, &keys(true, false, vec![Key::F2]));
    assert!(a.actions.toggle_bookmark && !a.actions.next_bookmark);
    let a = take_keys(&mut s, &keys(false, true, vec![Key::F2]));
    assert!(a.actions.prev_bookmark && !a.actions.next_bookmark);
}

#[test]
fn escape_leaves_one_thing_at_a_time() {
    let mut s = Surfaces::closed();
    s.zen_mode = true;
    s.palette_open = true;
    let esc = keys(false, false, vec![Key::Escape]);
    take_keys(&mut s, &esc);
    assert!(!s.zen_mode && s.palette_open);
    let mut full = keys(false, false, vec![Key::Escape]);
    full.fullscreen = true;
    let a = take_keys(&mut s, &full);
    assert!(a.actions.toggle_fullscreen && s.palette_open);
    s.settings_open = true;
    take_keys(&mut s, &esc);
    assert!(!s.palette_open && s.settings_open);
}

#[test]
fn zoom_comes_from_keys_and_wheel() {
    let mut s = Surfaces::closed();
    let mut i = keys(true, false, vec![Key::Plus]);
    assert_eq!(take_keys(&mut s, &i).actions.font_zoom, Some(1));
    i.pressed = vec![Key::Minus, Key::Num0];
    assert_eq!(take_keys(&mut s, &i).actions.font_zoom, Some(0));
    i.wheel = -1;
    assert_eq!(take_keys(&mut s, &i).actions.font_zoom, Some(-1));
    i.command = false;
    assert_eq!(take_keys(&mut s, &i).actions.font_zoom, None);
}

#[test]
fn f3_steps_only_with_the_find_bar_open() {
    let mut s = Surfaces::closed();
    assert_eq!(take_keys(&mut s, &keys(false, false, vec![Key::F3])).find_step, None);
    s.find_open = true;
    assert_eq!(take_keys(&mut s, &keys(false, false, vec![Key::F3])).find_step, Some(true));
    assert_eq!(take_keys(&mut s, &keys(false, true, vec![Key::F3])).find_step, Some(false));
}

#[test]
fn tabs_do_not_cycle_while_completing() {
    let mut s = Surfaces::closed();
    let mut i = keys(true, false, vec![Key::Tab]);
    assert!(take_keys(&mut s, &i).actions.cycle_tab_next);
    i.completing = true;
    assert!(!take_keys(&mut s, &i).actions.cycle_tab_next);
}

#[test]
fn opening_the_palette_clears_its_query() {
    let mut a = app();
    a.queries.palette = "old".to_string();
    a.take_frame_keys(&keys(true, true, vec![Key::P]));
    assert!(a.surfaces.palette_open);
    assert_eq!(a.queries.palette, "");
    assert!(a.surfaces.modal_owns_keyboard());
    a.close_palette();
    assert!(!a.surfaces.modal_owns_keyboard());
    assert!(!a.any_window_open());
    a.surfaces.welcome_open = true;
    assert!(a.any_window_open() && !a.surfaces.modal_owns_keyboard());
}

#[test]
fn deferred_actions_keep_their_order() {
    let idle = Clicked {
        plugin_command: false,
        builtin: None,
        save_config: false,
        dropped: false,
        from_tree: false,
        close_tree: false,
        start_lsp: false,
        open_config: false,
        restore_config: false,
        dismiss_config: false,
    };
    assert!(deferred_steps(&Pending::none(), &idle).is_empty());
    let mut p = Pending::none();
    p.fold_all = true;
    p.new = true;
    p.font_zoom = Some(-1);
    p.toggle_grid = true;
    let c = Clicked { builtin: Some(BuiltinCommand::Save), dismiss_config: true, ..idle };
    assert_eq!(
        deferred_steps(&p, &c),
        vec![
            Step::New,
            Step::Builtin(BuiltinCommand::Save),
            Step::ToggleGrid,
            Step::FontZoom(-1),
            Step::FoldAll,
            Step::DismissConfig,
        ]
    );
    let mut a = app();
    let e = a.run_step(Step::ToggleGrid, &around());
    assert!(matches!(e, Some(Effect::SaveConfigQuietly)));
    assert!(a.toggles.grid_enabled);
    assert_eq!(a.status, "multi-note grid: on");
    a.run_step(Step::ToggleMinimap, &around());
    assert_eq!(a.status, "minimap: off");
    assert!(a.run_step(Step::OpenReplace, &around()).is_none());
    assert!(!a.surfaces.find_open);
    a.open_replace();
    assert!(a.surfaces.find_open && a.surfaces.focus_replace);
    a.queries.fuzzy = "x".to_string();
    a.open_fuzzy();
    assert!(a.surfaces.fuzzy_open);
    assert_eq!(a.queries.fuzzy, "");
    a.folder_opened("/t");
    assert_eq!(a.status, "folder: /t");
    a.settings_restored();
    assert_eq!(a.status, "config restored to defaults");
}

/// The state, as far as a test can compare it.
fn shown(a: &ScribeApp) -> (Vec<bool>, Vec<String>, Vec<usize>) {
    let s = &a.surfaces;
    let t = &a.toggles;
    let q = &a.requests;
    let flags = vec![
        s.find_open,
        s.focus_find,
        s.find_in_files_open,
        s.zen_mode,
        s.md_preview_open,
        s.palette_open,
        s.focus_palette,
        s.goto_symbol_open,
        s.focus_goto_symbol,
        s.fold_view,
        t.grid_enabled,
        t.show_minimap,
        q.jump_bracket,
    ];
    let words = vec![
        a.theme.clone(),
        a.status.clone(),
        a.toast.clone().unwrap_or_default(),
        a.queries.palette.clone(),
        a.queries.goto_symbol.clone(),
    ];
    let mut counts = vec![a.open.tabs.len(), a.open.active];
    counts.extend(a.open.tabs.iter().flat_map(|t| t.bookmarks.iter().copied()));
    (flags, words, counts)
}

#[test]
fn a_shortcut_does_what_its_palette_entry_does() {
    let idle = Clicked {
        plugin_command: false,
        builtin: None,
        save_config: false,
        dropped: false,
        from_tree: false,
        close_tree: false,
        start_lsp: false,
        open_config: false,
        restore_config: false,
        dismiss_config: false,
    };
    let table = vec![
        (true, false, Key::N, BuiltinCommand::NewFile),
        (true, false, Key::O, BuiltinCommand::OpenFile),
        (true, true, Key::O, BuiltinCommand::GoToSymbol),
        (true, false, Key::S, BuiltinCommand::Save),
        (true, false, Key::W, BuiltinCommand::CloseActiveTab),
        (true, false, Key::Backslash, BuiltinCommand::ToggleSplitView),
        (true, false, Key::M, BuiltinCommand::JumpMatchingBracket),
        (true, true, Key::M, BuiltinCommand::ToggleMinimap),
        (true, false, Key::Tab, BuiltinCommand::CycleTabNext),
        (true, true, Key::Tab, BuiltinCommand::CycleTabPrev),
        (true, false, Key::F, BuiltinCommand::OpenFind),
        (true, false, Key::Period, BuiltinCommand::ToggleZen),
        (true, true, Key::V, BuiltinCommand::ToggleMarkdownPreview),
        (true, true, Key::P, BuiltinCommand::OpenPalette),
        (true, true, Key::T, BuiltinCommand::CycleTheme),
        (true, true, Key::OpenBracket, BuiltinCommand::FoldAll),
        (true, true, Key::CloseBracket, BuiltinCommand::ExpandAll),
        (true, false, Key::F2, BuiltinCommand::ToggleBookmark),
        (false, false, Key::F2, BuiltinCommand::NextBookmark),
        (false, true, Key::F2, BuiltinCommand::PrevBookmark),
    ];
    for (command, shift, key, cmd) in table {
        // Also where the bars are open already and something is typed into them.
        for busy in [false, true] {
            let mut by_key = app();
            by_key.open.new_tab();
            by_key.surfaces.find_open = busy;
            by_key.surfaces.palette_open = busy;
            by_key.surfaces.goto_symbol_open = busy;
            by_key.queries.palette = "typed".to_string();
            by_key.queries.goto_symbol = "typed".to_string();
            let mut by_entry = app();
            by_entry.open.new_tab();
            by_entry.surfaces = by_key.surfaces;
            by_entry.queries.palette = "typed".to_string();
            by_entry.queries.goto_symbol = "typed".to_string();

            let (asked, _) = by_key.take_frame_keys(&keys(command, shift, vec![key]));
            for step in deferred_steps(&asked, &idle) {
                assert!(by_key.run_step(step, &around()).is_some());
            }
            by_entry.execute_builtin(cmd, &around());
            assert_eq!(shown(&by_key), shown(&by_entry), "{cmd:?}");
        }
    }
}

#[test]
fn a_new_app_waits_for_nothing() {
    let a = app();
    assert!(!a.requests.jump_bracket && !a.requests.insert_datetime);
    assert!(!a.requests.dup_selection && a.requests.editor_action.is_none());
    assert_eq!(a.queries.palette, "");
    assert_eq!(a.queries.fuzzy_selected, 0);
}

// The plugin manager.

fn open_manager() -> ScribeApp {
    let mut a = app();
    let e = a.execute_builtin(BuiltinCommand::OpenPluginManager, &around());
    assert!(matches!(e, Effect::OpenPluginManager));
    a
}

/// The headers of the manager's panes.
fn headers() -> Vec<&'static str> {
    [PluginManagerTab::Loaded, PluginManagerTab::Registry, PluginManagerTab::Install]
        .iter()
        .map(|t| t.header())
        .collect()
}

#[test]
fn plugin_manager_opens_on_loaded_tab() {
    let a = open_manager();
    assert!(a.plugin_manager.open, "manager must be open");
    assert_eq!(a.plugin_manager.tab, PluginManagerTab::Loaded, "the default tab is Loaded");
    assert!(headers().contains(&"Loaded"), "Loaded tab header");
    assert!(headers().contains(&"Registry"), "Registry tab header");
    assert!(headers().contains(&"Install"), "Install tab header");
}

#[test]
fn clicking_registry_tab_switches_and_renders_load_control() {
    let mut a = open_manager();
    a.show_plugin_pane(PluginManagerTab::Registry);
    assert_eq!(
        a.plugin_manager.tab,
        PluginManagerTab::Registry,
        "clicking the Registry header must activate the Registry tab"
    );
    assert!(a.plugin_manager.open);
}

#[test]
fn clicking_install_tab_switches_and_renders_verify_surface() {
    let mut a = open_manager();
    a.show_plugin_pane(PluginManagerTab::Install);
    assert_eq!(
        a.plugin_manager.tab,
        PluginManagerTab::Install,
        "clicking the Install header must activate the Install tab"
    );
    assert!(a.plugin_manager.open);
}

#[test]
fn loaded_tab_empty_under_new_test_discovery_disabled() {
    let a = open_manager();
    assert_eq!(a.plugin_manager.tab, PluginManagerTab::Loaded);
    let trust = PluginTrust {
        require_signed: false,
        trusted: Vec::new(),
        pending: Vec::new(),
        disabled: Vec::new(),
    };
    let rows = discovered_plugin_rows(&Vec::new(), &trust);
    assert!(
        !rows.iter().any(|r| r.pending),
        "no pending-approval row is reachable under new_test (discovery disabled)"
    );
    assert!(rows.is_empty());
}

#[test]
fn what_a_command_says_outlasts_the_save() {
    let mut a = app();
    a.execute_builtin(BuiltinCommand::ToggleMinimap, &around());
    a.settings_saved_quietly(Ok(()));
    assert_eq!(a.status, "minimap: off");
    a.settings_saved_quietly(Err("full".to_string()));
    assert_eq!(a.status, "minimap: off");
    assert_eq!(a.toast.as_deref(), Some("could not save settings: full"));
    a.settings_saved(Ok(()));
    assert_eq!(a.status, "settings saved");
}

#[test]
fn tab_switch_round_trips_back_to_loaded() {
    let mut a = open_manager();
    a.show_plugin_pane(PluginManagerTab::Install);
    assert_eq!(a.plugin_manager.tab, PluginManagerTab::Install);
    a.show_plugin_pane(PluginManagerTab::Loaded);
    assert_eq!(a.plugin_manager.tab, PluginManagerTab::Loaded, "clicking Loaded must switch back");
    a.show_plugin_pane(PluginManagerTab::Registry);
    a.close_plugin_manager();
    assert!(!a.plugin_manager.open);
    // It comes back on the pane that was left.
    a.execute_builtin(BuiltinCommand::OpenPluginManager, &around());
    assert!(a.plugin_manager.open);
    assert_eq!(a.plugin_manager.tab, PluginManagerTab::Registry);
}

// The toolbar.

#[test]
fn tools_are_named() {
    assert_eq!(tool_of("saveas"), Some(Tool::SaveAs));
    assert_eq!(tool_of("sep"), Some(Tool::Separator));
    assert_eq!(tool_of("lsp"), Some(Tool::Lsp));
    assert_eq!(tool_of("nonsense"), None);
}

#[test]
fn pressing_a_switch_turns_it_over() {
    let mut a = app();
    let mut act = Pending::none();
    assert!(!a.tool_lit(Tool::Wrap));
    assert_eq!(a.press_tool(Tool::Wrap, &mut act), ToolEffect::SaveConfig);
    assert!(a.tool_lit(Tool::Wrap) && a.tool_lit(Tool::Minimap));
    assert_eq!(a.press_tool(Tool::Fold, &mut act), ToolEffect::Nothing);
    assert!(a.surfaces.fold_view);
    assert_eq!(a.press_tool(Tool::Lsp, &mut act), ToolEffect::StartLsp);
    assert_eq!(a.press_tool(Tool::SaveAs, &mut act), ToolEffect::SaveAs);
    a.press_tool(Tool::OpenFolder, &mut act);
    assert!(act.open_folder && !act.open);
    a.toggle_settings();
    assert!(a.surfaces.settings_open);
    a.open_palette();
    assert!(a.surfaces.palette_open);
}

#[test]
fn what_does_not_fit_goes_into_the_dropdown() {
    let items: Vec<String> = vec!["new", "open", "save"].into_iter().map(String::from).collect();
    let p = toolbar_plan(&items, 2, 0, false);
    assert_eq!(p.shown, vec!["new", "open"]);
    assert_eq!(p.overflow, vec!["save"]);
    assert!(p.dropdown && !p.separator && !p.hint);
    let p = toolbar_plan(&items, 3, 0, true);
    assert!(p.overflow.is_empty() && p.dropdown && p.hint);
    let p = toolbar_plan(&items, 3, 0, false);
    assert!(!p.dropdown);
    let p = toolbar_plan(&items, 1, 2, false);
    assert!(p.separator);
}

// Finding.

#[test]
fn search_steps_through_the_matches() {
    let hits = vec![Span { start: 0, end: 1 }, Span { start: 4, end: 5 }];
    let s = find_navigate("a\nb\na\n", &hits, 0, true).expect("there are matches");
    assert_eq!((s.index, s.line0), (1, 2));
    assert_eq!(s.status, "match 2 of 2");
    let s = find_navigate("a\nb\na\n", &hits, 1, true).expect("there are matches");
    assert_eq!(s.index, 0);
    let s = find_navigate("a\nb\na\n", &hits, 0, false).expect("there are matches");
    assert_eq!(s.index, 1);
    assert!(find_navigate("a", &Vec::new(), 0, true).is_none());
    assert_eq!(line_of_offset("a\nb", 99), 1);
    assert_eq!(match_in_focus(5, false, 3), 2);
    assert_eq!(match_in_focus(2, true, 3), 0);
    assert_eq!(match_counter("", 0, 0), "");
    assert_eq!(match_counter("x", 0, 0), "no matches");
    assert_eq!(match_counter("x", 1, 3), "2/3");
}

#[test]
fn a_search_is_repeated_only_when_something_changed() {
    let key = |q: &str, g: u64, d: u64| FindKey { query: q.to_string(), edit_gen: g, doc_id: d };
    assert!(needs_rescan(&None, &key("a", 1, 1)));
    assert!(!needs_rescan(&Some(key("a", 1, 1)), &key("a", 1, 1)));
    assert!(needs_rescan(&Some(key("a", 1, 1)), &key("b", 1, 1)));
    assert!(needs_rescan(&Some(key("a", 1, 1)), &key("a", 2, 1)));
    assert!(needs_rescan(&Some(key("a", 1, 1)), &key("a", 1, 2)));
}

#[test]
fn the_palette_filters_without_case() {
    assert!(str_contains("abc", ""));
    assert!(str_contains("abcabd", "abd"));
    assert!(!str_contains("abc", "abcd"));
    assert!(palette_lists("New File", "Ctrl+N", "new"));
    assert!(palette_lists("New File", "Ctrl+N", "ctrl"));
    assert!(!palette_lists("New File", "Ctrl+N", "zen"));
    assert!(palette_lists_plugin("Upper", "up.case", ""));
    assert_eq!(palette_label("New File", ""), "New File");
    assert_eq!(palette_label("New File", "Ctrl+N"), "New File  ·  Ctrl+N");
    assert_eq!(lowered_query(" FoO"), " foo");
}

#[test]
fn symbols_are_listed_and_entered() {
    let sym = |l: &str, n: usize| Symbol { label: l.to_string(), start_line: n, depth: 0 };
    let v = vec![sym("fn Alpha", 3), sym("fn beta", 9)];
    let hits = listed_symbols(&v, "beta");
    assert_eq!(hits, vec![1]);
    assert_eq!(symbol_on_enter(&v, &hits), Some(9));
    assert_eq!(listed_symbols(&v, "alpha"), vec![0]);
    assert_eq!(symbol_on_enter(&v, &listed_symbols(&v, "none")), None);
    assert_eq!(symbol_query("  FoO \t"), "foo");
    assert_eq!(trimmed("\n a b \u{00a0}"), "a b");
    assert_eq!(trimmed("   "), "");
    let deep = Symbol { label: "fn x".to_string(), start_line: 8, depth: 2 };
    assert_eq!(symbol_row(&deep), "    fn x  ·  9");
    assert_eq!(search_progress(12), "searching… 12 so far");
}

#[test]
fn the_file_finder_selection_stops_at_the_ends() {
    assert_eq!(fuzzy_move_selection(0, 3, true, false), 0);
    assert_eq!(fuzzy_move_selection(2, 3, false, true), 2);
    assert_eq!(fuzzy_move_selection(9, 3, false, false), 2);
    assert_eq!(fuzzy_move_selection(4, 0, false, true), 0);
    let mut a = app();
    let k = |down: bool, enter: bool| FinderKeys { up: false, down, enter };
    assert_eq!(a.finder_keys(3, k(true, false)), None);
    assert_eq!(a.finder_keys(3, k(false, true)), Some(1));
    assert_eq!(a.finder_keys(0, k(false, true)), None);
    a.open_fuzzy();
    a.finder_done(true, true, false);
    assert!(!a.surfaces.fuzzy_open);
}

#[test]
fn a_project_search_collects_batches() {
    let mut p = ProjectSearch { results: Vec::new(), error: None, running: false };
    assert!(matches!(p.start(false, "x", false, None), SearchStart::Refused));
    assert!(matches!(p.start(true, "", false, None), SearchStart::Idle));
    assert!(matches!(p.start(true, "x", false, None), SearchStart::Started(_)));
    assert!(p.running);
    let m = FileMatch { path: "/t/a".to_string(), line: 3, line_text: "x".to_string() };
    p.take_event(SearchEvent::Batch(vec![m]));
    assert_eq!(p.results.len(), 1);
    p.take_event(SearchEvent::Done);
    assert!(!p.running);
    assert_eq!(match_label("a", 3, "x"), "a:3  x");
}

// Looks.

#[test]
fn every_family_has_its_own_key() {
    for i in 0..FONT_FAMILY_COUNT {
        assert_eq!(font_family_key(family_name_at(i)), family_key_at(i));
    }
    assert_eq!(font_family_key("Zen Dots"), "ZenDots");
    assert_eq!(font_family_key("no such font"), "JetBrainsMono");
    assert_eq!(font_state_key("A", "B"), "A\u{0}B");
}

#[test]
fn the_chosen_fonts_lead_their_families() {
    let f = build_fonts("Fira Mono", "Teko");
    assert_eq!(
        f.monospace,
        vec![
            "FiraMono",
            "JetBrainsMono",
            "Hack",
            "Ubuntu-Light",
            "NotoEmoji-Regular",
            "emoji-icon-font",
            "phosphor",
            "NotoSansJP-Subset",
        ]
    );
    assert_eq!(
        f.proportional,
        vec![
            "Teko",
            "Ubuntu-Light",
            "phosphor",
            "NotoEmoji-Regular",
            "emoji-icon-font",
            "NotoSansJP-Subset",
        ]
    );
    let f = build_fonts("stale", "System default");
    assert_eq!(f.monospace[0], "JetBrainsMono");
    assert_eq!(f.monospace[1], "Hack");
    assert_eq!(f.proportional[0], "Ubuntu-Light");
}

#[test]
fn icons_are_added_once() {
    let base = FontLists {
        monospace: vec!["phosphor".to_string()],
        proportional: Vec::new(),
    };
    let f = arrange_fonts(base, "Doto", "none");
    assert_eq!(
        f.monospace,
        vec!["Doto", "JetBrainsMono", "phosphor", "NotoSansJP-Subset"]
    );
    assert_eq!(f.proportional, vec!["NotoSansJP-Subset"]);
}

#[test]
fn the_system_can_choose_the_theme() {
    assert_eq!(effective_theme_name("mine", false, OsTheme::Light, false), "mine");
    assert_eq!(effective_theme_name("mine", true, OsTheme::Light, true), "ghost-paper");
    assert_eq!(effective_theme_name("mine", true, OsTheme::Dark, true), "mine");
    assert_eq!(effective_theme_name("mine", true, OsTheme::Dark, false), "wired-noir");
    assert!(follows_system_change(true, OsTheme::Dark, None));
    assert!(!follows_system_change(true, OsTheme::Dark, Some(OsTheme::Dark)));
    assert!(!follows_system_change(false, OsTheme::Dark, None));
    assert_eq!(theme_source(true, true), ThemeSource::UserFile);
    assert_eq!(theme_source(false, true), ThemeSource::Bundled);
    assert_eq!(theme_source(false, false), ThemeSource::Fallback);
}

#[test]
fn linked_backgrounds_follow_the_app() {
    let red = Some(Rgb { r: 255, g: 0, b: 0 });
    let b = background_overrides(red, None, true);
    assert_eq!((b.app, b.note), (red, red));
    let b = background_overrides(red, None, false);
    assert_eq!((b.app, b.note), (red, None));
}

#[test]
fn paths_become_uris() {
    assert_eq!(path_to_uri("/home/me/a.rs"), "file:///home/me/a.rs");
    assert_eq!(path_to_uri("C:\\me\\a.rs"), "file:///C:/me/a.rs");
    assert_eq!(path_to_uri(""), "file:///");
}

#[test]
fn large_buffers_get_the_rope_editor() {
    assert!(use_rope_editor(true, 0, 0));
    assert!(use_rope_editor(false, 100, 100));
    assert!(!use_rope_editor(false, 99, 100));
    assert!(!use_rope_editor(false, usize::MAX, 0));
}

// A frame.

#[test]
fn a_window_is_hidden_before_it_goes() {
    let mut c = Closing { wanted: true, hidden: false };
    assert_eq!(c.step(false), CloseStep::Hide { call_off: false });
    assert_eq!(c.step(false), CloseStep::Destroy);
    let mut c = Closing { wanted: false, hidden: false };
    assert_eq!(c.step(false), CloseStep::Stay);
    assert_eq!(c.step(true), CloseStep::Hide { call_off: true });
}

#[test]
fn new_fonts_drop_the_layouts_twice() {
    let mut f = FontSwitch { applied: "a".to_string(), pending: false };
    assert!(!f.frame_starts());
    assert!(f.families_are("b".to_string()));
    assert!(f.frame_starts());
    assert!(!f.families_are("b".to_string()));
    assert!(!f.frame_starts());
}

#[test]
fn zen_hides_the_chrome() {
    let s = ChromeState {
        zen: false,
        fullscreen: false,
        frameless: true,
        toolbar_in_titlebar: false,
        grid_enabled: false,
        tab_bar: TabBarPosition::Bottom,
        show_minimap: true,
        show_line_numbers: true,
        fold_view: false,
        read_only: false,
        md_preview_open: true,
        markdown: true,
        diff_view_open: true,
    };
    let p = chrome_plan(&s);
    assert!(p.titlebar && p.toolbar_row && p.status && p.minimap && p.gutter && p.md_preview);
    assert_eq!(p.tab_strip, Some(TabBarPosition::Bottom));
    let zen = chrome_plan(&ChromeState { zen: true, ..s });
    assert!(zen.titlebar && !zen.toolbar_row && !zen.status && !zen.minimap && !zen.gutter);
    assert_eq!(zen.tab_strip, None);
    let full = chrome_plan(&ChromeState { fullscreen: true, ..s });
    assert!(!full.titlebar);
    let grid = chrome_plan(&ChromeState { grid_enabled: true, ..s });
    assert_eq!(grid.tab_strip, None);
    let bar = chrome_plan(&ChromeState { toolbar_in_titlebar: true, ..s });
    assert!(bar.toolbar_in_titlebar && !bar.toolbar_row);
    assert!(is_markdown(Some("md")) && is_markdown(Some("markdown")));
    assert!(!is_markdown(Some("rs")) && !is_markdown(None));
}

#[test]
fn any_answer_closes_the_welcome_window() {
    let none = WelcomeClicks {
        new: false,
        open: false,
        open_folder: false,
        recent: false,
        settings: false,
        shortcuts: false,
        never_again: false,
        closed: false,
    };
    let mut a = app();
    a.surfaces.welcome_open = true;
    a.answer_welcome(&none);
    assert!(a.surfaces.welcome_open);
    let e = a.answer_welcome(&WelcomeClicks { never_again: true, ..none });
    assert!(e.first_run_over && !a.surfaces.welcome_open);
    let e = a.answer_welcome(&WelcomeClicks { new: true, open: true, recent: true, ..none });
    assert!(e.open_dialog && a.surfaces.recent_open);
    assert_eq!(a.open.tabs.len(), 2);
}

#[test]
fn the_line_prompt_closes_when_it_is_understood() {
    let mut a = app();
    a.surfaces.goto_open = true;
    assert_eq!(a.goto_done(true, None, false), None);
    assert!(a.surfaces.goto_open);
    assert_eq!(a.goto_done(true, Some(7), false), Some(7));
    assert!(!a.surfaces.goto_open);
    a.went_to_line(7);
    assert_eq!(a.status, "go to line 7");
}

#[test]
fn settings_are_reported() {
    let mut a = app();
    a.settings_saved(Ok(()));
    assert_eq!(a.status, "settings saved");
    a.settings_saved(Err("denied".to_string()));
    assert_eq!(a.toast.as_deref(), Some("could not save settings: denied"));
    assert!(a.settings_changed_on_disk(None, false));
    assert_eq!(a.status, "config reloaded");
    assert!(!a.settings_changed_on_disk(None, true));
    assert!(!a.settings_changed_on_disk(Some("line 3".to_string()), false));
    assert_eq!(a.toast.as_deref(), Some("config: line 3 (kept previous on disk)"));
    assert_eq!(settings_banner("line 3"), "Config has errors: line 3");
    assert!(concerns_settings(&vec![None, Some("toml".to_string())]));
    assert!(!concerns_settings(&vec![Some("txt".to_string())]));
    assert_eq!(layout_to_save(true, None, Some("x".to_string())), None);
    assert_eq!(
        layout_to_save(false, None, Some("x".to_string())).as_deref(),
        Some("x")
    );
}

#[test]
fn the_line_ending_segment_cycles() {
    let mut a = app();
    a.cycle_eol();
    assert_eq!(a.open.tabs[0].doc.eol, Eol::Crlf);
    assert_eq!(a.status, "line-ending: CRLF");
    assert_eq!(eol_name(Eol::Cr), "CR");
}

#[test]
fn a_middle_click_scrolls_until_the_next() {
    assert_eq!(autoscroll_step(false, true, false, true), (true, true));
    assert_eq!(autoscroll_step(false, true, false, false), (false, false));
    assert_eq!(autoscroll_step(true, true, false, true), (false, false));
    assert_eq!(autoscroll_step(true, false, true, true), (false, false));
    assert_eq!(autoscroll_step(true, false, false, false), (true, false));
}

// The status bar.

#[test]
fn words_lines_and_characters_are_counted() {
    assert_eq!(word_count("  one two\u{00a0}three\n"), 3);
    assert_eq!(word_count(""), 0);
    assert_eq!(line_count(""), 1);
    assert_eq!(line_count("a\nb"), 2);
    assert_eq!(line_count("a\nb\n"), 2);
    let mut t = EditorTab::scratch();
    t.set_text("ab cd\n".to_string());
    assert_eq!(counts_text(&t), "1 ln · 2 w · 6 ch");
    t.doc.read_only_large = true;
    assert_eq!(counts_text(&t), "1 ln · 0 w · 0 ch");
}

#[test]
fn the_status_bar_texts() {
    assert_eq!(caret_text(4, 17), "Ln 4, Col 17");
    assert_eq!(selected_chars(3, 9), 6);
    assert_eq!(selection_text(0), None);
    assert_eq!(selection_text(1).as_deref(), Some("(1 char sel)"));
    assert_eq!(selection_text(6).as_deref(), Some("(6 chars sel)"));
    assert_eq!(spell_text(0, "ok"), "spell ok");
    assert_eq!(spell_text(3, "ok"), "spell: 3");
    assert_eq!(error_count(&vec![1, 2, 1]), 2);
    assert_eq!(diagnostics_text("!", 2, 3).as_deref(), Some("! 2e / 3"));
    assert_eq!(diagnostics_text("!", 0, 0), None);
    assert_eq!(language_text(None), "text");
    assert_eq!(language_text(Some("rs")), "rs");
    assert_eq!(gutter_digits(7), 2);
    assert_eq!(gutter_digits(1234), 4);
}

// Memos.

#[test]
fn symbols_are_scanned_after_an_edit_only() {
    let mut t = EditorTab::scratch();
    let key = match symbol_step(&t, 10, None) {
        SymbolStep::Scan(k) => k,
        _ => panic!("nothing was kept"),
    };
    assert_eq!(symbol_step(&t, 10, Some(key)), SymbolStep::Reuse);
    assert_eq!(
        symbol_step(&t, MAX_SYMBOL_SCAN_BYTES + 1, Some(key)),
        SymbolStep::NoSymbols
    );
    t.set_text("x".to_string());
    assert!(matches!(symbol_step(&t, 1, Some(key)), SymbolStep::Scan(_)));
    let (k, stale) = minimap_step(&t, 7, None);
    assert!(stale);
    assert!(!minimap_step(&t, 7, Some(k)).1);
    assert!(minimap_step(&t, 8, Some(k)).1);
}

#[test]
fn the_change_bar_is_computed_once_for_a_text() {
    let mut t = EditorTab::scratch();
    t.set_text("x".to_string());
    assert_eq!(ensure_change_states(&mut t, false, 1), ChangeBarStep::Keep);
    assert_eq!(ensure_change_states(&mut t, true, 1), ChangeBarStep::Compute);
    assert_eq!(ensure_change_states(&mut t, true, 1), ChangeBarStep::Keep);
    t.set_text("y".to_string());
    assert_eq!(
        ensure_change_states(&mut t, true, CHANGE_BAR_MAX_BYTES + 1),
        ChangeBarStep::Clear
    );
}

#[test]
fn spelling_is_checked_again_when_something_changed() {
    let scope = SpellScope { comments: true, strings: false, identifiers: false };
    let mut t = EditorTab::scratch();
    let key = spell_cache_key(&t, scope);
    assert!(spell_stale(true, &None, &key));
    assert!(!spell_stale(false, &None, &key));
    let kept = Some(spell_cache_key(&t, scope));
    assert!(!spell_stale(true, &kept, &key));
    t.doc.language = Some("rs".to_string());
    assert!(spell_stale(true, &kept, &spell_cache_key(&t, scope)));
    assert!(spell_is_scoped(&vec![TokenClass::Other, TokenClass::Comment]));
    assert!(!spell_is_scoped(&vec![TokenClass::Other]));
    assert_eq!(caret_to_forget(3, 3, Some("a".to_string())).as_deref(), Some("a"));
    assert_eq!(caret_to_forget(2, 3, Some("a".to_string())), None);
}

// Language servers.

#[test]
fn a_language_server_starts_for_a_file_only() {
    let idle = Servers { running: None, command: None, root: None };
    let mut a = app();
    assert!(a.start_lsp_for_active(&idle).is_none());
    assert_eq!(a.toast.as_deref(), Some("no language detected for this file"));
    a.open.tabs[0].doc.language = Some("rs".to_string());
    assert!(a.start_lsp_for_active(&idle).is_none());
    assert_eq!(
        a.toast.as_deref(),
        Some("save the file before starting a language server")
    );
    a.open_picked("/t/a.rs", Ok(opened("/t/a.rs", "x")));
    assert!(a.start_lsp_for_active(&idle).is_none());
    assert_eq!(a.toast.as_deref(), Some("no language server configured for .rs"));
    let running = Servers { running: Some("rs".to_string()), command: None, root: None };
    assert!(a.start_lsp_for_active(&running).is_none());
    assert_eq!(a.status, "language server already running");
    let ready = Servers {
        running: Some("py".to_string()),
        command: Some("ra".to_string()),
        root: Some("/t".to_string()),
    };
    let start = a.start_lsp_for_active(&ready).expect("it can start");
    assert_eq!(start.root_uri, "file:///t");
    assert_eq!(start.file_uri, "file:///t/a.rs");
    assert_eq!(start.language, "rs");
    a.lsp_started("ra", Ok(()));
    assert_eq!(a.status, "language server started: ra");
    a.lsp_started("ra", Err("missing".to_string()));
    assert_eq!(a.toast.as_deref(), Some("could not start ra: missing"));
}

// Updates.

#[test]
fn w8_no_automatic_update_check_on_launch_in_default_app() {
    let mut u = UpdateSchedule { did_check: false, mode: UpdateMode::Off, last_check_unix: None };
    let mut prompt =
        UpdatePrompt { show_prompt: false, state: UpdateState::Idle, skipped_version: None };
    let mut toast_pending: Option<LaunchKind> = None;
    for frame in 0..4 {
        let kind = u.maybe_remind_update(true, frame);
        if kind.is_some() {
            toast_pending = kind;
        }
        prompt.render_update_prompt(None);
    }
    assert!(
        !prompt.show_prompt,
        "no auto-update yes/no prompt may appear on a default launch"
    );
    assert!(
        toast_pending.is_none(),
        "no auto-update toast may appear on a default launch"
    );
}

#[test]
fn launch_checks_follow_the_mode() {
    assert_eq!(update_launch_action(UpdateMode::Off, true), None);
    assert_eq!(update_launch_action(UpdateMode::Manual, true), None);
    assert_eq!(update_launch_action(UpdateMode::Notify, false), None);
    assert_eq!(update_launch_action(UpdateMode::Notify, true), Some(LaunchKind::Notify));
    assert_eq!(update_launch_action(UpdateMode::Auto, false), None);
    assert_eq!(update_launch_action(UpdateMode::Auto, true), Some(LaunchKind::Auto));
    let mut u =
        UpdateSchedule { did_check: false, mode: UpdateMode::Notify, last_check_unix: None };
    assert!(u.maybe_remind_update(true, 5).is_some());
    assert_eq!(u.last_check_unix, Some(5));
    assert!(u.maybe_remind_update(true, 6).is_none());
    assert_eq!(u.last_check_unix, Some(5));
    let mut late =
        UpdateSchedule { did_check: false, mode: UpdateMode::Notify, last_check_unix: Some(3) };
    assert!(late.maybe_remind_update(false, 5).is_none());
    assert_eq!(late.last_check_unix, Some(3));
}

#[test]
fn an_update_needs_a_click() {
    let mut p = UpdatePrompt {
        show_prompt: true,
        state: UpdateState::Available("2.0".to_string()),
        skipped_version: None,
    };
    assert!(p.text("1.0").contains("2.0"));
    assert!(p.render_update_prompt(None).is_none());
    assert!(matches!(
        p.render_update_prompt(Some(PromptButton::Proceed)),
        Some(PromptAct::Download)
    ));
    assert!(notice_text("2.0", "1.0").contains("2.0"));
    assert_eq!(unix_or_zero(None), 0);
    assert_eq!(unix_or_zero(Some(7)), 7);
    // 2020-01-01.
    assert!(now_unix() > 1_577_836_800);
}

// Reports.

#[test]
fn report_issue_opens_with_default_kind_and_diagnostics_off() {
    let mut a = app();
    assert!(!a.issue_intake.open);
    a.issue_intake.kind = IssueKind::Feature;
    a.issue_intake.description = "an earlier report".to_string();
    a.issue_intake.include_diagnostics = true;
    a.issue_intake.last_outcome = Some(IntakeOutcome::Failed);
    let e = a.execute_builtin(BuiltinCommand::ReportIssue, &around());
    assert!(matches!(e, Effect::Nothing));
    assert!(a.issue_intake.open, "modal must be open");
    assert_eq!(a.issue_intake.kind, IssueKind::Bug, "the default selected kind is Bug");
    assert!(!a.issue_intake.include_diagnostics, "diagnostics must default OFF");
    assert_eq!(a.issue_intake.description, "");
    assert!(a.issue_intake.last_outcome.is_none());
}

#[test]
fn typing_description_updates_state_and_preview() {
    let mut intake = IssueIntake::new();
    intake.open_fresh();
    intake.description = "scrollbar flickers on resize".to_string();
    assert_eq!(
        intake.preview_body("App version: 1"),
        "scrollbar flickers on resize",
        "the preview must reflect the typed description verbatim"
    );
}

#[test]
fn toggling_diagnostics_checkbox_appends_block_to_preview() {
    let mut intake = IssueIntake::new();
    intake.open_fresh();
    intake.description = "a short report".to_string();
    assert!(!intake.include_diagnostics, "diagnostics start OFF");
    intake.include_diagnostics = true;
    let preview = intake.preview_body("App version: 1\nRenderer: wgpu");
    assert!(
        preview.starts_with("a short report"),
        "the preview keeps the description as its head"
    );
    assert!(
        preview.contains("App version:") && preview.contains("Renderer: wgpu"),
        "with diagnostics ON the preview must carry the non-identifying block"
    );
}

#[test]
fn cancel_closes_modal_without_outcome() {
    let mut intake = IssueIntake::new();
    intake.open_fresh();
    assert!(intake.open);
    assert!(intake.click(Some(IntakeClick::Cancel), true, false).is_none());
    assert!(!intake.open, "Cancel must close the report-issue modal");
    assert!(
        intake.last_outcome.is_none(),
        "cancelling sends nothing, so no outcome is recorded"
    );
}

#[test]
fn a_report_is_sent_by_a_click_only() {
    let mut intake = IssueIntake::new();
    intake.open_fresh();
    assert!(intake.click(None, true, false).is_none());
    assert!(intake.open);
    assert!(intake.click(Some(IntakeClick::Email), false, false).is_none());
    assert_eq!(
        intake.click(Some(IntakeClick::Email), true, false),
        Some(IntakeSend::Mail)
    );
    intake.open_fresh();
    assert_eq!(
        intake.click(Some(IntakeClick::Submit), false, false),
        Some(IntakeSend::Issue)
    );
    intake.sent(IntakeOutcome::OpenedDeepLink);
    assert_eq!(
        intake.outcome_text().as_deref(),
        Some("Opened a prefilled issue in your browser.")
    );
}

#[test]
fn crash_reports_wait_for_consent() {
    assert_eq!(drain_crash_spool(true, ReportingMode::Off), SpoolStep::Leave);
    assert_eq!(drain_crash_spool(true, ReportingMode::AskEachTime), SpoolStep::Ask);
    assert_eq!(drain_crash_spool(true, ReportingMode::Always), SpoolStep::SendAll);
    assert_eq!(drain_crash_spool(false, ReportingMode::Always), SpoolStep::Leave);
    let o = crash_consent(true, None, Some(RememberChoice::Always));
    assert!(!o.send && !o.discard && o.keep_mode.is_none());
    let o = crash_consent(true, Some(ConsentAnswer::Send), Some(RememberChoice::Always));
    assert!(o.send && o.keep_mode == Some(ReportingMode::Always));
    let o = crash_consent(true, Some(ConsentAnswer::DontSend), Some(RememberChoice::Never));
    assert!(o.discard && o.keep_mode == Some(ReportingMode::Off));
}

// Resizing.

fn win() -> WindowRect {
    WindowRect { left: 0, top: 0, right: 1000, bottom: 700 }
}

#[test]
fn interior_is_never_a_resize_zone() {
    assert_eq!(resize_dir_at(500, 350, &win(), 6, 12), None);
    assert_eq!(resize_dir_at(574, 48, &win(), 6, 12), None);
}

#[test]
fn edges_map_to_their_direction() {
    assert_eq!(resize_dir_at(500, 1, &win(), 6, 12), Some(D::North));
    assert_eq!(resize_dir_at(500, 699, &win(), 6, 12), Some(D::South));
    assert_eq!(resize_dir_at(1, 350, &win(), 6, 12), Some(D::West));
    assert_eq!(resize_dir_at(999, 350, &win(), 6, 12), Some(D::East));
}

#[test]
fn corners_take_priority_over_edges() {
    assert_eq!(resize_dir_at(2, 2, &win(), 6, 12), Some(D::NorthWest));
    assert_eq!(resize_dir_at(998, 2, &win(), 6, 12), Some(D::NorthEast));
    assert_eq!(resize_dir_at(2, 698, &win(), 6, 12), Some(D::SouthWest));
    assert_eq!(resize_dir_at(998, 698, &win(), 6, 12), Some(D::SouthEast));
    assert_eq!(resize_dir_at(8, 1, &win(), 6, 12), Some(D::NorthWest));
}

#[test]
fn outside_the_window_is_none() {
    assert_eq!(resize_dir_at(-5, 350, &win(), 6, 12), None);
    assert_eq!(resize_dir_at(500, 800, &win(), 6, 12), None);
}

#[test]
fn resize_dir_at_kills_offset_and_boundary_mutants() {
    let r = WindowRect { left: 10, top: 20, right: 110, bottom: 220 };
    let (e, c) = (8, 12);
    assert_eq!(resize_dir_at(15, 120, &r, e, c), Some(D::West));
    assert_eq!(resize_dir_at(60, 24, &r, e, c), Some(D::North));
    assert_eq!(resize_dir_at(5, 120, &r, e, c), None);
    assert_eq!(resize_dir_at(10, 120, &r, e, c), Some(D::West));
    assert_eq!(resize_dir_at(110, 120, &r, e, c), Some(D::East));
    assert_eq!(resize_dir_at(60, 20, &r, e, c), Some(D::North));
    assert_eq!(resize_dir_at(60, 220, &r, e, c), Some(D::South));
    assert_eq!(resize_dir_at(100, 24, &r, e, c), Some(D::NorthEast));
    assert_eq!(resize_dir_at(20, 214, &r, e, c), Some(D::SouthWest));
    assert_eq!(resize_dir_at(100, 214, &r, e, c), Some(D::SouthEast));
}

use scribe_app::app::{ScribeApp, Toggles};
use scribe_app::completion::{yield_to_modal, Completion};
use scribe_app::disk::SaveStep;
use scribe_app::edit::Span;
use scribe_app::frame::{
    central_view, drawn_effects, painted_caret, resizes_by_border, CaretStyle, Central, Effects,
};
use scribe_app::launch::{Found, LaunchSettings};
use scribe_app::lines::Caret;
use scribe_app::restore::{Backup, CliFile, ListedFile, RestoreEntry};
use scribe_app::session::{backup_plan, session_due, snapshot_session_backups};
use scribe_app::tab::{Document, Eol, Opened, Stamp};
use scribe_app::tabstrip::StripClicks;

fn settings() -> LaunchSettings {
    LaunchSettings {
        theme: "wired-noir".to_string(),
        toggles: Toggles {
            grid_enabled: false,
            show_minimap: true,
            spellcheck: false,
            word_wrap: false,
            show_line_numbers: true,
            show_change_bar: true,
        },
        session_backup: true,
        restore_session: true,
        first_run_completed: false,
        recent_files: 0,
        product: "Pen".to_string(),
        tagline: "a text editor".to_string(),
    }
}

fn opened(path: &str, text: &str) -> Opened {
    Opened {
        doc: Document {
            path: Some(path.to_string()),
            name: path.rsplit('/').next().unwrap_or(path).to_string(),
            text: text.to_string(),
            read_only_large: false,
            eol: Eol::Lf,
            encoding: "windows-1252".to_string(),
            language: Some("rs".to_string()),
        },
        mtime: None,
    }
}

fn with_text(text: &str) -> ScribeApp {
    let mut a = ScribeApp::new_test(settings());
    a.edit_front(text.to_string());
    a
}

fn text(a: &ScribeApp) -> &str {
    a.open.tabs[a.open.active].text.as_str()
}

fn nothing_found() -> Found {
    Found { cli: Vec::new(), manifest: None, listed: Vec::new() }
}

fn entry(path: &str, disk: &str, backup: Backup) -> RestoreEntry {
    RestoreEntry {
        safe: true,
        backup,
        opened: Some(opened(path, disk)),
        key: path.to_string(),
    }
}

fn clicks() -> StripClicks {
    StripClicks {
        switch_to: None,
        close: None,
        close_others: None,
        close_to_right: None,
        close_all: false,
        toggle_pin: None,
        reorder: None,
        add_tab: false,
    }
}

#[test]
fn a_first_launch_shows_the_welcome_window() {
    let a = ScribeApp::new(settings(), None, nothing_found());
    assert!(a.surfaces.welcome_open);
    assert!(!a.surfaces.find_open);
    assert_eq!(a.status, "Pen — a text editor");
    assert_eq!(a.toast, None);
    assert_eq!(a.open.tabs.len(), 1);
    assert_eq!(text(&a), "");
    let again = LaunchSettings { first_run_completed: true, ..settings() };
    assert!(!ScribeApp::new(again, None, nothing_found()).surfaces.welcome_open);
    let been_here = LaunchSettings { recent_files: 2, ..settings() };
    assert!(!ScribeApp::new(been_here, None, nothing_found()).surfaces.welcome_open);
}

#[test]
fn settings_that_cannot_be_read_are_reported() {
    let a = ScribeApp::new(settings(), Some("bad key".to_string()), nothing_found());
    assert_eq!(a.toast.as_deref(), Some("config: bad key (using defaults)"));
}

#[test]
fn the_command_line_comes_before_the_session() {
    let found = Found {
        cli: vec![
            CliFile { path: "/t/gone".to_string(), loaded: Err("no such file".to_string()) },
            CliFile { path: "/t/a".to_string(), loaded: Ok(opened("/t/a", "A")) },
            CliFile { path: "/t/b".to_string(), loaded: Ok(opened("/t/b", "B")) },
        ],
        manifest: Some((vec![entry("/t/c", "C", Backup::Content("edited".to_string()))], 0)),
        listed: vec![ListedFile { safe: true, opened: Some(opened("/t/d", "D")) }],
    };
    let a = ScribeApp::new(settings(), None, found);
    assert_eq!(a.open.tabs.len(), 2);
    assert_eq!(text(&a), "A");
    assert!(!a.surfaces.welcome_open);
    assert_eq!(a.toast.as_deref(), Some("could not open /t/gone: no such file"));
}

#[test]
fn unsaved_content_comes_back_without_restore_session() {
    let s = LaunchSettings { restore_session: false, ..settings() };
    let found = Found {
        cli: Vec::new(),
        manifest: Some((
            vec![
                entry("/t/clean", "x", Backup::Absent),
                entry("/t/c", "C", Backup::Content("edited".to_string())),
            ],
            1,
        )),
        listed: vec![ListedFile { safe: true, opened: Some(opened("/t/d", "D")) }],
    };
    let a = ScribeApp::new(s, None, found);
    assert_eq!(a.open.tabs.len(), 1);
    assert_eq!(text(&a), "edited");
    assert!(a.open.tabs[0].is_dirty());
}

#[test]
fn the_list_is_the_last_resort_and_opens_at_its_first_file() {
    let s = LaunchSettings { session_backup: false, ..settings() };
    let found = Found {
        cli: Vec::new(),
        manifest: Some((vec![entry("/t/c", "C", Backup::Content("edited".to_string()))], 0)),
        listed: vec![
            ListedFile { safe: false, opened: Some(opened("//host/x", "X")) },
            ListedFile { safe: true, opened: Some(opened("/t/d", "D")) },
            ListedFile { safe: true, opened: Some(opened("/t/e", "E")) },
        ],
    };
    let a = ScribeApp::new(s, None, found);
    assert_eq!(a.open.tabs.len(), 2);
    assert_eq!(text(&a), "D");
}

#[test]
fn two_entries_of_one_file_keep_the_unsaved_content() {
    let found = Found {
        cli: Vec::new(),
        manifest: Some((
            vec![
                entry("/t/c", "C", Backup::Absent),
                entry("/t/c", "C", Backup::Content("edited".to_string())),
                entry("/t/c", "C", Backup::Content("later".to_string())),
            ],
            2,
        )),
        listed: Vec::new(),
    };
    let a = ScribeApp::new(settings(), None, found);
    assert_eq!(a.open.tabs.len(), 1);
    assert_eq!(text(&a), "edited");
    assert!(a.open.tabs[0].external_change);
}

#[test]
fn comments_are_turned_over_in_front() {
    let mut a = with_text("let a;\nlet b;\n");
    a.toggle_comment_active("//", 0, 14);
    assert_eq!(text(&a), "// let a;\n// let b;\n");
    assert_eq!(a.open.tabs[0].edit_gen, 2);
    a.toggle_comment_active("//", 20, 0);
    assert_eq!(text(&a), "let a;\nlet b;\n");
    a.toggle_comment_active("//", 8, 8);
    assert_eq!(text(&a), "let a;\n// let b;\n");
    a.toggle_comment_active("//", 9, 9);
    assert_eq!(text(&a), "let a;\nlet b;\n");
    assert_eq!(a.toast, None);
    a.toggle_comment_active("", 0, 0);
    assert_eq!(a.toast.as_deref(), Some("no comment prefix for this language"));
    assert_eq!(text(&a), "let a;\nlet b;\n");
    let mut blank = with_text(" \n\n");
    blank.toggle_comment_active("#", 0, 3);
    assert_eq!(text(&blank), " \n\n");
    assert_eq!(blank.open.tabs[0].edit_gen, 1);
}

#[test]
fn a_line_moves_there_and_back_with_its_caret() {
    let mut a = with_text("one\ntwo\nthree\n");
    let mut caret: Caret = Some((2, 3));
    a.move_cursor_line(&mut caret, 1);
    assert_eq!(text(&a), "one\nthree\ntwo\n");
    assert_eq!(caret, Some((3, 3)));
    a.move_cursor_line(&mut caret, 1);
    assert_eq!(text(&a), "one\nthree\ntwo\n");
    assert_eq!(caret, Some((3, 3)));
    a.move_cursor_line(&mut caret, -1);
    assert_eq!(text(&a), "one\ntwo\nthree\n");
    assert_eq!(caret, Some((2, 3)));
    let mut unseen: Caret = None;
    a.move_cursor_line(&mut unseen, 1);
    assert_eq!(text(&a), "two\none\nthree\n");
    assert_eq!(unseen, Some((2, 1)));
}

#[test]
fn lines_are_copied_and_joined_in_front() {
    let mut a = with_text("one\n  two");
    a.duplicate_cursor_line(Some((1, 1)));
    assert_eq!(text(&a), "one\none\n  two");
    a.join_cursor_line_with_next(Some((2, 1)));
    assert_eq!(text(&a), "one\none two");
    a.join_cursor_line_with_next(Some((2, 1)));
    a.duplicate_cursor_line(Some((9, 1)));
    assert_eq!(text(&a), "one\none two");
    assert_eq!(a.open.tabs[0].edit_gen, 3);
}

#[test]
fn replacing_says_what_it_did() {
    let mut a = with_text("aXbX");
    let hits = vec![Span { start: 1, end: 2 }, Span { start: 3, end: 4 }];
    a.replace_in_active("X", "$1", &hits, false);
    assert_eq!(text(&a), "a$1bX");
    assert_eq!(a.status, "replaced 'X' -> '$1'");
    let mut a = with_text("aXbX");
    a.open.tabs[0].rope_live = true;
    a.replace_in_active("X", "é", &hits, true);
    assert!(!a.open.tabs[0].rope_live);
    assert_eq!(text(&a), "aébé");
    assert_eq!(a.status, "replaced 2 x 'X' -> 'é'");
    a.replace_in_active("Q", "", &Vec::new(), true);
    assert_eq!(a.status, "no match for 'Q'");
    a.replace_in_active("", "z", &Vec::new(), true);
    assert_eq!(a.status, "no match for 'Q'");
    assert_eq!(text(&a), "aébé");
}

#[test]
fn finding_goes_round_in_front() {
    let mut a = with_text("x\nx\nx");
    let hits =
        vec![Span { start: 0, end: 1 }, Span { start: 2, end: 3 }, Span { start: 4, end: 5 }];
    let mut idx: usize = 1;
    assert_eq!(a.find_navigate(&hits, &mut idx, true), Some(2));
    assert_eq!(idx, 2);
    assert_eq!(a.status, "match 3 of 3");
    assert_eq!(a.find_navigate(&hits, &mut idx, true), Some(0));
    assert_eq!(a.find_navigate(&hits, &mut idx, false), Some(2));
    assert_eq!(a.find_navigate(&Vec::new(), &mut idx, false), None);
    assert_eq!(idx, 2);
}

#[test]
fn edits_at_the_caret_give_the_new_caret() {
    let mut a = with_text("abcd");
    assert_eq!(a.indent_with_spaces(3, 1, 2), 3);
    assert_eq!(text(&a), "a  d");
    assert_eq!(a.indent_with_spaces(1, 1, 0), 1);
    assert_eq!(text(&a), "a  d");
    let mut a = with_text("\tx");
    assert_eq!(a.auto_indent_newline(2, 2), Some(4));
    assert_eq!(text(&a), "\tx\n\t");
    assert_eq!(a.auto_indent_newline(1, 0), None);
    let mut a = with_text("ab");
    assert_eq!(a.insert_datetime_at_caret(2, 1, "2026-01-02T03:04:05Z"), 21);
    assert_eq!(text(&a), "a2026-01-02T03:04:05Z");
    assert_eq!(a.status, "inserted 2026-01-02T03:04:05Z");
    let mut a = with_text("ab\ncd");
    assert_eq!(a.duplicate_selection(1, 1), 4);
    assert_eq!(text(&a), "ab\nab\ncd");
    assert_eq!(a.duplicate_selection(0, 2), 4);
    assert_eq!(text(&a), "abab\nab\ncd");
}

#[test]
fn a_closed_tab_is_reopened_and_said() {
    let mut a = with_text("draft");
    assert!(a.take_closed_tab().is_none());
    assert_eq!(a.status, "no closed tab to reopen");
    let mut c = clicks();
    c.close = Some(0);
    assert_eq!(a.click_tab_strip(&c), None);
    assert_eq!(text(&a), "");
    let closed = a.take_closed_tab().unwrap();
    a.reopen_closed_tab(closed, None, false);
    assert_eq!(text(&a), "draft");
    assert_eq!(a.status, "reopened closed tab");
    assert_eq!(a.open.active, 1);
}

#[test]
fn a_pinned_tab_says_why_it_stays() {
    let mut a = with_text("draft");
    let mut c = clicks();
    c.toggle_pin = Some(0);
    a.click_tab_strip(&c);
    let mut c = clicks();
    c.close = Some(0);
    c.add_tab = true;
    assert_eq!(a.click_tab_strip(&c), None);
    assert_eq!(a.status, "Note is pinned — unpin it to close");
    assert_eq!(a.open.tabs.len(), 2);
    assert!(a.open_path("/t/a", Ok(opened("/t/a", "A")), Some(9)));
    let mut c = clicks();
    c.close = Some(2);
    assert_eq!(a.click_tab_strip(&c), Some(("/t/a".to_string(), 1)));
}

#[test]
fn an_open_file_is_brought_to_the_front() {
    let mut a = ScribeApp::new_test(settings());
    assert!(a.open_path("/t/a", Ok(opened("/t/a", "A")), None));
    assert_eq!(a.status, "opened /t/a");
    assert!(!a.open_path("/t/z", Err("denied".to_string()), None));
    assert_eq!(a.toast.as_deref(), Some("open failed: denied"));
    a.open.active = 0;
    let keys = vec![None, Some("/t/a".to_string())];
    assert!(a.focus_path("/t/./a", &"/t/a".to_string(), &keys));
    assert_eq!(a.open.active, 1);
    assert_eq!(a.status, "already open: /t/./a");
    assert!(!a.focus_path("/t/b", &"/t/b".to_string(), &keys));
    assert_eq!(a.open.active, 1);
}

#[test]
fn saving_in_front_reports_and_leaves_clean() {
    let mut a = ScribeApp::new_test(settings());
    a.open_path("/t/a", Ok(opened("/t/a", "A")), None);
    a.edit_front("A  ".to_string());
    assert_eq!(a.save_active("A\n".to_string()), SaveStep::Write);
    assert_eq!(text(&a), "A\n");
    let now = Some(Stamp { secs: 7, nanos: 1 });
    a.saved_active(Ok(true), now);
    assert_eq!(a.status, "saved a");
    assert_eq!(
        a.toast.as_deref(),
        Some(
            "Saved, but some characters can't be written as windows-1252 — they were replaced. \
             Convert the file to UTF-8 to keep them."
        )
    );
    let t = &a.open.tabs[a.open.active];
    assert!(!t.is_dirty());
    assert_eq!(t.disk_text, "A\n");
    assert_eq!(t.disk_mtime, now);
    a.fire_save_hooks(Some(("B".to_string(), Some("formatted".to_string()))));
    assert_eq!(text(&a), "B");
    assert_eq!(a.status, "formatted");
    a.fire_save_hooks(None);
    assert_eq!(text(&a), "B");
    a.saved_active(Err(()), None);
    assert_eq!(
        a.toast.as_deref(),
        Some(
            "Couldn't save the file. Check that you have permission to write here and that the \
             disk isn't full, then try again."
        )
    );
}

#[test]
fn an_untitled_tab_asks_for_its_path() {
    let mut a = with_text("n");
    assert_eq!(a.save_active("n".to_string()), SaveStep::AskPath);
    a.save_as_active("/t/n.md".to_string(), "n.md".to_string(), Ok(false));
    assert_eq!(a.status, "saved /t/n.md");
    assert_eq!(a.open.tabs[0].doc.path.as_deref(), Some("/t/n.md"));
    assert_eq!(a.open.tabs[0].title(), "n.md");
}

#[test]
fn the_disk_banner_is_answered_in_front() {
    let mut a = ScribeApp::new_test(settings());
    a.open_path("/t/a", Ok(opened("/t/a", "A")), None);
    a.edit_front("mine".to_string());
    let i = a.open.active;
    a.open.tabs[i].external_change = true;
    let now = Some(Stamp { secs: 9, nanos: 0 });
    a.keep_active(now);
    assert_eq!(text(&a), "mine");
    assert!(!a.open.tabs[i].external_change);
    assert_eq!(a.open.tabs[i].disk_mtime, now);
    a.open.tabs[i].external_change = true;
    a.reload_active(Some("theirs".to_string()), now);
    assert_eq!(text(&a), "theirs");
    assert_eq!(a.status, "reloaded /t/a from disk");
    assert!(!a.open.tabs[i].external_change);
}

#[test]
fn the_session_is_written_when_its_files_change() {
    assert!(session_due(true, "/t/a", ""));
    assert!(!session_due(true, "/t/a", "/t/a"));
    assert!(!session_due(false, "/t/a", ""));
}

#[test]
fn the_middle_of_the_window_shows_one_view() {
    assert_eq!(central_view(true, true, true, true, 9, 1), Central::Grid);
    assert_eq!(central_view(false, true, true, true, 9, 1), Central::Folds);
    assert_eq!(central_view(false, false, true, true, 9, 1), Central::Browse);
    assert_eq!(central_view(false, false, false, true, 0, 0), Central::Rope);
    assert_eq!(central_view(false, false, false, false, 9, 9), Central::Rope);
    assert_eq!(central_view(false, false, false, false, 8, 9), Central::Text);
    assert_eq!(central_view(false, false, false, false, 8, 0), Central::Text);
}

#[test]
fn a_wide_bar_and_a_visible_block_are_painted() {
    let shown = |s: CaretStyle, wide: bool, visible: bool| painted_caret(s, wide, true, true, visible);
    assert_eq!(shown(CaretStyle::Bar, true, false), Some(CaretStyle::Bar));
    assert_eq!(shown(CaretStyle::Bar, false, true), None);
    assert_eq!(shown(CaretStyle::Block, false, true), Some(CaretStyle::Block));
    assert_eq!(shown(CaretStyle::Underline, true, false), None);
    assert_eq!(painted_caret(CaretStyle::Block, true, false, true, true), None);
    assert_eq!(painted_caret(CaretStyle::Block, true, true, false, true), None);
}

#[test]
fn effects_need_motion() {
    let asked = Effects {
        scanlines: false,
        mesh: false,
        vhs: false,
        flicker: false,
        caret_trail: true,
        boot_glitch: true,
    };
    let (drawn, again) = drawn_effects(false, asked, true, true);
    assert!(!drawn.caret_trail && !drawn.boot_glitch && !again);
    let (drawn, again) = drawn_effects(true, asked, false, false);
    assert!(drawn.caret_trail && !drawn.boot_glitch && !again);
    let (drawn, again) = drawn_effects(true, asked, false, true);
    assert!(drawn.boot_glitch && again);
}

#[test]
fn only_a_free_window_resizes_by_its_border() {
    assert!(resizes_by_border(true, false, false));
    assert!(!resizes_by_border(true, true, false));
    assert!(!resizes_by_border(true, false, true));
    assert!(!resizes_by_border(false, false, false));
}

#[test]
fn the_symbol_list_closes_on_a_choice_or_an_empty_enter() {
    let mut a = with_text("x");
    a.surfaces.goto_symbol_open = true;
    a.symbol_done(None, false);
    assert!(a.surfaces.goto_symbol_open);
    a.symbol_done(None, true);
    assert!(!a.surfaces.goto_symbol_open);
    a.surfaces.goto_symbol_open = true;
    a.symbol_done(Some(9), false);
    assert!(!a.surfaces.goto_symbol_open);
    assert_eq!(a.status, "go to line 10");
    assert!(!a.surfaces.overlay_open());
    a.open_settings();
    assert!(a.surfaces.overlay_open());
}

#[test]
fn completion_yields_to_a_modal() {
    let list = || Some(Completion { prefix_start: 0, items: vec!["word".to_string()], selected: 0 });
    let mut open = list();
    yield_to_modal(&mut open, false);
    assert!(open.is_some());
    yield_to_modal(&mut open, true);
    assert!(open.is_none());
}

#[test]
fn the_rope_editor_leaves_its_caret_and_text() {
    let mut a = with_text("x");
    a.open.tabs[0].rope_drawn(3, None);
    assert_eq!(a.open.tabs[0].rope_cursor, Some(3));
    assert_eq!(a.open.tabs[0].edit_gen, 1);
    a.open.tabs[0].rope_drawn(4, Some("xy".to_string()));
    assert_eq!(text(&a), "xy");
    assert!(a.open.tabs[0].rope_live);
    assert_eq!(a.open.tabs[0].edit_gen, 2);
    a.set_front("z".to_string());
    assert!(!a.open.tabs[0].rope_live);
}

#[test]
fn unsaved_notes_survive_a_restart() {
    let mut a = with_text("first note");
    a.open.new_tab();
    a.edit_front("second note".to_string());
    a.open_path("/t/a", Ok(opened("/t/a", "A")), None);
    a.edit_front("A, edited".to_string());
    a.open_path("/t/clean", Ok(opened("/t/clean", "clean")), None);
    let needed = backup_plan(&a.open);
    assert_eq!(needed, vec![true, true, true, false]);
    let written: Vec<Option<String>> =
        needed.iter().enumerate().map(|(i, n)| if *n { Some(format!("b{i}")) } else { None }).collect();
    let manifest = snapshot_session_backups(&a.open, &written);
    let entries: Vec<RestoreEntry> = manifest
        .tabs
        .iter()
        .enumerate()
        .map(|(i, t)| RestoreEntry {
            safe: t.path.is_some(),
            backup: match &t.backup {
                Some(name) => {
                    assert_eq!(name, &format!("b{i}"));
                    Backup::Content(a.open.tabs[i].text.clone())
                }
                None => Backup::Absent,
            },
            opened: t.path.as_ref().map(|p| opened(p, "on disk")),
            key: t.path.clone().unwrap_or_default(),
        })
        .collect();
    let s = LaunchSettings { restore_session: false, ..settings() };
    let found =
        Found { cli: Vec::new(), manifest: Some((entries, manifest.active)), listed: Vec::new() };
    let back = ScribeApp::new(s, None, found);
    let texts: Vec<&str> = back.open.tabs.iter().map(|t| t.text.as_str()).collect();
    assert_eq!(texts, vec!["first note", "second note", "A, edited"]);
    assert_eq!(back.open.tabs[2].doc.path.as_deref(), Some("/t/a"));
    assert_eq!(back.open.active, 0);
}

/// Open a file as the shell does: bring its tab to the front, or else read it.
fn open_file(a: &mut ScribeApp, path: &str, disk: &str) {
    let keys: Vec<Option<String>> = a.open.tabs.iter().map(|t| t.doc.path.clone()).collect();
    if !a.focus_path(path, &path.to_string(), &keys) {
        a.open_path(path, Ok(opened(path, disk)), None);
    }
}

#[test]
fn open_path_focuses_existing_tab_instead_of_duplicating() {
    let p = "/tmp/note.txt";
    let mut app = ScribeApp::new_test(settings());

    open_file(&mut app, p, "hello");
    let after_first = app.open.tabs.len();
    let first_idx = app.open.active;

    open_file(&mut app, p, "hello");
    assert_eq!(
        app.open.tabs.len(),
        after_first,
        "re-opening an already-open file must not add a tab"
    );
    assert_eq!(app.open.active, first_idx, "re-opening must focus the existing tab");

    let n = app.open.tabs.iter().filter(|t| t.doc.path.as_deref() == Some(p)).count();
    assert_eq!(n, 1, "the file must occupy exactly one tab");

    // Also from another tab.
    app.open.cycle_next();
    assert_ne!(app.open.active, first_idx);
    open_file(&mut app, p, "hello");
    assert_eq!((app.open.tabs.len(), app.open.active), (after_first, first_idx));
    assert_eq!(app.status, "already open: /tmp/note.txt");
}

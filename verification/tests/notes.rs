use scribe_app::disk::{
    answer_keep, answer_reload, apply_save_hooks, disk_verdicts, finish_open, finish_save,
    flag_external_changes, prepare_save, reload_tab, save_as_active,
    should_poll_disk, DiskVerdict, OpenReport, SaveStep, DISK_POLL_INTERVAL_FRAMES,
};
use scribe_app::grid::{
    assign_doc_ids, close_panes, grid_docs, grid_step, needs_rebuild, overflow_notice, pane_tab,
    GridStep, MAX_PANES,
};
use scribe_app::restore::{
    launch, launch_source, open_cli_files, open_listed_files, restore_roots,
    restore_tabs_from_manifest, welcome_on_launch, Backup, CliFile, LaunchSource, ListedFile,
    RestoreEntry,
};
use scribe_app::session::{
    autosave_plan, backup_due, backup_plan, has_unsaved, interval_passed, open_paths,
    parse_session, session_signature, session_text, snapshot_session_backups,
    AUTOSAVE_INTERVAL_MS, BACKUP_INTERVAL_MS,
};
use scribe_app::tab::{tab_display_label, Document, EditorTab, Eol, Opened, Stamp};
use scribe_app::tabs::{tab_index_after_move, CloseOutcome, TabSet, MAX_CLOSED};
use scribe_app::tabstrip::{
    apply_clicks, chips, insertion_gap, resolve_drop, DropSite, StripClicks,
};

fn document(path: &str, text: &str) -> Document {
    let name = path.rsplit('/').next().unwrap_or(path).to_string();
    Document {
        path: Some(path.to_string()),
        name,
        text: text.to_string(),
        read_only_large: false,
        eol: Eol::Lf,
        encoding: "UTF-8".to_string(),
        language: None,
    }
}

fn opened(path: &str, text: &str) -> Opened {
    Opened { doc: document(path, text), mtime: Some(Stamp { secs: 1, nanos: 0 }) }
}

fn note(path: &str, text: &str) -> EditorTab {
    EditorTab::from_opened(opened(path, text))
}

fn set_of(names: &[&str]) -> TabSet {
    let mut v = Vec::new();
    for n in names {
        v.push(note(n, n));
    }
    launch(v, 0)
}

fn names(s: &TabSet) -> Vec<String> {
    s.tabs.iter().map(|t| t.doc.name.clone()).collect()
}

// Opening a file.

#[test]
fn merge_keeps_unsaved_copy_and_flags_divergence() {
    let mut existing = note("/tmp/note.txt", "DISK v2");
    assert!(!existing.is_dirty());
    let candidate = EditorTab::from_backup(
        Some(opened("/tmp/note.txt", "DISK v2")),
        "OLD snapshot".to_string(),
    );
    assert!(candidate.is_dirty(), "snapshot != disk → dirty");

    EditorTab::merge_restored_duplicate(&mut existing, candidate);

    assert_eq!(
        existing.text, "OLD snapshot",
        "the unsaved snapshot content must be preserved, not dropped"
    );
    assert!(
        existing.external_change,
        "a divergent restored copy must flag external_change so the banner fires"
    );
}

#[test]
fn merge_two_clean_copies_raises_no_banner() {
    let mut existing = note("/tmp/note.txt", "same");
    let candidate = note("/tmp/note.txt", "same");

    EditorTab::merge_restored_duplicate(&mut existing, candidate);

    assert!(!existing.is_dirty());
    assert!(
        !existing.external_change,
        "two identical clean copies need no resolution banner"
    );
}

#[test]
fn s4_app_normal_open_is_not_read_only_large() {
    let mut app = TabSet::new();
    finish_open(
        &mut app,
        "/tmp/normal.rs",
        Ok(opened("/tmp/normal.rs", "fn main() {}\n")),
        None,
    );
    let active = app.active;
    assert!(
        !app.tabs[active].doc.read_only_large,
        "a normal-size file must NOT be flagged read-only-large"
    );
}

fn cli(path: &str, loaded: Result<Opened, String>) -> CliFile {
    CliFile { path: path.to_string(), loaded }
}

#[test]
fn cli_opens_all_passed_files_with_the_first_active() {
    let files = vec![
        cli("/tmp/a.txt", Ok(opened("/tmp/a.txt", "alpha body\n"))),
        cli("/tmp/b.md", Ok(opened("/tmp/b.md", "bravo body\n"))),
        cli("/tmp/c.rs", Ok(opened("/tmp/c.rs", "charlie body\n"))),
    ];
    let (tabs, toast) = open_cli_files(files, None);
    assert!(toast.is_none());
    let app = launch(tabs, 0);

    assert_eq!(app.tabs.len(), 3, "all three CLI files open as tabs");
    assert_eq!(app.active, 0, "the FIRST file is the active tab");
    assert!(app.tabs[0].text.contains("alpha"), "tab 0 = first file");
    assert!(app.tabs[1].text.contains("bravo"), "tab 1 = second file");
    assert!(app.tabs[2].text.contains("charlie"), "tab 2 = third file");
}

#[test]
fn cli_with_no_files_opens_a_single_scratch_tab() {
    let (tabs, _toast) = open_cli_files(Vec::new(), None);
    let app = launch(tabs, 0);
    assert_eq!(app.tabs.len(), 1, "no CLI files → exactly one scratch buffer");
}

#[test]
fn an_unreadable_cli_file_is_skipped_without_aborting_the_rest() {
    let files = vec![
        cli("this/path/does/not/exist-xyz.txt", Err("not found".to_string())),
        cli("/tmp/good.txt", Ok(opened("/tmp/good.txt", "real content\n"))),
    ];
    let (tabs, toast) = open_cli_files(files, None);
    let app = launch(tabs, 0);
    assert_eq!(app.tabs.len(), 1, "the readable file still opens");
    assert!(app.tabs[0].text.contains("real content"));
    assert!(toast.is_some());
}

#[test]
fn a_file_that_cannot_be_opened_is_reported() {
    let mut app = TabSet::new();
    let r = finish_open(&mut app, "/tmp/x", Err("gone".to_string()), None);
    assert!(matches!(r, OpenReport::Failed(t) if t == "open failed: gone"));
    assert_eq!(app.tabs.len(), 1);
    let r = finish_open(&mut app, "/tmp/y", Ok(opened("/tmp/y", "abc")), Some(99));
    assert!(matches!(r, OpenReport::Opened(t) if t == "opened /tmp/y"));
    assert_eq!(app.tabs[app.active].rope_cursor, Some(3));
}

// Restoring.

fn entry(path: &str, safe: bool, backup: Backup) -> RestoreEntry {
    RestoreEntry {
        safe,
        backup,
        opened: Some(opened(path, "disk")),
        key: path.to_string(),
    }
}

#[test]
fn a_file_is_restored_into_one_tab() {
    let entries = vec![
        entry("/tmp/n.txt", true, Backup::Absent),
        entry("/tmp/n.txt", true, Backup::Content("mine".to_string())),
        entry("/tmp/m.txt", true, Backup::Absent),
    ];
    let (tabs, _front) = restore_tabs_from_manifest(entries, 0, true).expect("tabs come back");
    assert_eq!(tabs.len(), 2);
    assert_eq!(tabs[0].text, "mine");
    assert!(tabs[0].external_change);
}

#[test]
fn without_session_restore_only_unsaved_content_comes_back() {
    let entries = vec![
        entry("/tmp/clean.txt", true, Backup::Absent),
        entry("/tmp/dirty.txt", true, Backup::Content("mine".to_string())),
    ];
    let (tabs, _front) = restore_tabs_from_manifest(entries, 0, false).expect("one comes back");
    assert_eq!(tabs.len(), 1);
    assert_eq!(tabs[0].text, "mine");
}

#[test]
fn listed_files_are_opened_only_from_safe_places() {
    let files = vec![
        ListedFile { safe: true, opened: Some(opened("/tmp/a", "a")) },
        ListedFile { safe: false, opened: Some(opened("/tmp/b", "b")) },
        ListedFile { safe: true, opened: None },
    ];
    let tabs = open_listed_files(files);
    assert_eq!(tabs.len(), 1);
    assert_eq!(tabs[0].text, "a");
}

#[test]
fn where_the_tabs_of_a_launch_come_from() {
    assert_eq!(launch_source(2, true, true, 3, true, 4), LaunchSource::CommandLine);
    assert_eq!(launch_source(0, true, true, 3, true, 4), LaunchSource::Manifest);
    assert_eq!(launch_source(0, false, true, 3, true, 4), LaunchSource::List);
    assert_eq!(launch_source(0, true, true, 0, false, 4), LaunchSource::Scratch);
    assert!(welcome_on_launch(false, 0, 0));
    assert!(!welcome_on_launch(true, 0, 0));
    assert!(!welcome_on_launch(false, 1, 0));
    assert!(!welcome_on_launch(false, 0, 1));
}

// Tabs.

#[test]
fn labels_start_with_the_pin() {
    assert_eq!(tab_display_label("a.txt", true), "📌a.txt");
    assert_eq!(tab_display_label("a.txt", false), "a.txt");
    let mut t = note("/tmp/a.txt", "x");
    assert_eq!(t.title(), "a.txt");
    t.set_text("y".to_string());
    assert_eq!(t.title(), "* a.txt");
}

#[test]
fn indices_follow_a_move() {
    assert_eq!(tab_index_after_move(0, 2, 0), 2);
    assert_eq!(tab_index_after_move(0, 2, 1), 0);
    assert_eq!(tab_index_after_move(0, 2, 2), 1);
    assert_eq!(tab_index_after_move(2, 0, 0), 1);
    assert_eq!(tab_index_after_move(2, 0, 2), 0);
    assert_eq!(tab_index_after_move(1, 1, 1), 1);
    assert_eq!(tab_index_after_move(0, 2, usize::MAX), usize::MAX);
}

#[test]
fn moving_a_tab_keeps_the_one_in_front_and_leaves_pinned_ones() {
    let mut s = set_of(&["a", "b", "c"]);
    s.cycle_next();
    s.move_tab(0, 2);
    assert_eq!(names(&s), vec!["b", "c", "a"]);
    assert_eq!(s.active, 0);
    s.toggle_pin(0);
    s.move_tab(0, 1);
    assert_eq!(names(&s), vec!["b", "c", "a"]);
}

#[test]
fn tabs_cycle_in_a_circle() {
    let mut s = set_of(&["a", "b", "c"]);
    s.cycle_prev();
    assert_eq!(s.active, 2);
    s.cycle_next();
    assert_eq!(s.active, 0);
}

#[test]
fn pinned_tabs_survive_the_strip() {
    let mut s = set_of(&["a", "b", "c", "d"]);
    s.toggle_pin(1);
    s.close_all_tabs_except(3);
    assert_eq!(names(&s), vec!["b", "d"]);
    assert_eq!(s.active, 1);
    s.close_all_tabs();
    assert_eq!(names(&s), vec!["b"]);
    assert!(matches!(s.close_tab(0), CloseOutcome::Pinned));
    s.toggle_pin(0);
    s.close_all_tabs();
    assert_eq!(s.tabs.len(), 1);
    assert_eq!(s.tabs[0].doc.path, None);
}

#[test]
fn tabs_after_one_are_closed() {
    let mut s = set_of(&["a", "b", "c", "d"]);
    s.toggle_pin(2);
    s.cycle_prev();
    s.close_tabs_after(0);
    assert_eq!(names(&s), vec!["a", "c"]);
    assert_eq!(s.active, 1);
}

#[test]
fn a_closed_tab_is_reopened_with_its_text() {
    let mut s = set_of(&["/t/a", "/t/b"]);
    s.tabs[0].set_text("unsaved".to_string());
    match s.close_tab(0) {
        CloseOutcome::Closed(Some((p, c))) => assert_eq!((p.as_str(), c), ("/t/a", 0)),
        _ => panic!("the tab has a file"),
    }
    assert_eq!(names(&s), vec!["b"]);
    let closed = s.pop_closed().expect("it was kept");
    s.reopen_closed_tab(closed, Some(opened("/t/a", "/t/a")), true);
    assert_eq!(s.active, 1);
    assert_eq!(s.tabs[1].text, "unsaved");
    assert!(s.tabs[1].is_dirty());
    assert_eq!(s.tabs[1].rope_cursor, Some(0));
    assert!(s.pop_closed().is_none());
}

#[test]
fn the_reopen_stack_is_bounded_and_skips_empty_notes() {
    let mut s = TabSet::new();
    assert!(matches!(s.close_tab(0), CloseOutcome::Closed(None)));
    assert!(s.closed.is_empty());
    for i in 0..(MAX_CLOSED + 5) {
        s.push_tab(note("/t/x", &i.to_string()));
        let last = s.active;
        s.close_tab(last);
    }
    assert_eq!(s.closed.len(), MAX_CLOSED);
    assert_eq!(s.closed[0].text, "5");
    assert!(matches!(s.close_tab(99), CloseOutcome::Absent));
}

#[test]
fn the_strip_shows_its_chips_and_takes_its_clicks() {
    let mut s = set_of(&["a", "b"]);
    s.toggle_pin(0);
    let v = chips(&s);
    assert_eq!(v.len(), 2);
    assert!(v[0].selected && v[0].pinned && v[0].has_pin_toggle() && !v[0].movable());
    assert_eq!(v[0].pin_label, "Unpin tab");
    assert!(!v[1].selected && v[1].movable());
    let idle = StripClicks {
        switch_to: None,
        close: None,
        close_others: None,
        close_to_right: None,
        close_all: false,
        toggle_pin: None,
        reorder: None,
        add_tab: false,
    };
    let switch = StripClicks { switch_to: Some(1), ..idle };
    apply_clicks(&mut s, &switch);
    assert_eq!(s.active, 1);
    let add = StripClicks {
        switch_to: None,
        close: None,
        close_others: None,
        close_to_right: None,
        close_all: false,
        toggle_pin: None,
        reorder: None,
        add_tab: true,
    };
    apply_clicks(&mut s, &add);
    assert_eq!(s.tabs.len(), 3);
    assert_eq!(s.active, 2);
}

#[test]
fn a_tab_is_dropped_on_the_one_hit_or_else_the_nearest() {
    let hit = vec![
        DropSite { hit: false, distance_bits: 0 },
        DropSite { hit: true, distance_bits: 9 },
        DropSite { hit: true, distance_bits: 4 },
    ];
    assert_eq!(resolve_drop(0, &hit), Some((0, 1)));
    assert_eq!(resolve_drop(1, &hit), None);
    let missed = vec![
        DropSite { hit: false, distance_bits: 7 },
        DropSite { hit: false, distance_bits: 3 },
        DropSite { hit: false, distance_bits: 3 },
    ];
    assert_eq!(resolve_drop(0, &missed), Some((0, 1)));
    assert_eq!(resolve_drop(0, &Vec::new()), None);
    assert_eq!(insertion_gap(&vec![false, false, true, true]), 2);
    assert_eq!(insertion_gap(&vec![false, false]), 2);
}

#[test]
fn line_endings_cycle_in_three() {
    assert_eq!(Eol::Lf.next(), Eol::Crlf);
    assert_eq!(Eol::Crlf.next(), Eol::Cr);
    assert_eq!(Eol::Cr.next(), Eol::Lf);
}

// Disk.

#[test]
fn the_disk_is_polled_every_so_many_frames() {
    assert!(should_poll_disk(5, u64::MAX, DISK_POLL_INTERVAL_FRAMES));
    assert!(!should_poll_disk(29, 0, 30));
    assert!(should_poll_disk(30, 0, 30));
}

#[test]
fn a_changed_file_reloads_a_clean_tab_and_warns_of_a_dirty_one() {
    let later = Some(Stamp { secs: 9, nanos: 0 });
    let mut s = set_of(&["/t/a", "/t/b"]);
    s.tabs[1].set_text("mine".to_string());
    let v = disk_verdicts(&s, &vec![later, later]);
    assert_eq!(v, vec![DiskVerdict::Reload, DiskVerdict::Warn]);
    flag_external_changes(&mut s, &v);
    assert!(!s.tabs[0].external_change);
    assert!(s.tabs[1].external_change);
    reload_tab(&mut s.tabs[0], "fresh".to_string(), later);
    assert_eq!(s.tabs[0].text, "fresh");
    assert!(!s.tabs[0].is_dirty());
    answer_keep(&mut s.tabs[1], later);
    assert_eq!(s.tabs[1].text, "mine");
    let v = disk_verdicts(&s, &vec![later, later]);
    assert_eq!(v, vec![DiskVerdict::Unchanged, DiskVerdict::Unchanged]);
}

#[test]
fn reloading_from_the_banner_discards_the_edits() {
    let mut t = note("/t/a", "disk");
    t.set_text("mine".to_string());
    t.external_change = true;
    let status = answer_reload(&mut t, Some("newer".to_string()), Some(Stamp { secs: 2, nanos: 0 }));
    assert!(status.is_some());
    assert_eq!(t.text, "newer");
    assert!(!t.external_change);
    t.external_change = true;
    assert!(answer_reload(&mut t, None, None).is_none());
    assert!(!t.external_change);
}

#[test]
fn a_save_leaves_the_tab_clean() {
    let mut t = note("/t/a.txt", "x");
    t.set_text("x  ".to_string());
    assert_eq!(prepare_save(&mut t, "x\n".to_string()), SaveStep::Write);
    assert_eq!(t.text, "x\n");
    let r = finish_save(&mut t, Ok(false), Some(Stamp { secs: 3, nanos: 0 }));
    assert_eq!(r.status.as_deref(), Some("saved a.txt"));
    assert!(r.toast.is_none());
    assert!(!t.is_dirty());
    assert_eq!(t.disk_text, "x\n");
    let r = finish_save(&mut t, Ok(true), None);
    assert!(r.toast.expect("characters were lost").contains("UTF-8"));
    let r = finish_save(&mut t, Err(()), None);
    assert!(r.status.is_none() && r.toast.is_some());
}

#[test]
fn an_untitled_note_asks_where_to_save() {
    let mut t = EditorTab::scratch();
    t.set_text("hi".to_string());
    assert!(t.is_unsaved());
    assert_eq!(prepare_save(&mut t, "hi".to_string()), SaveStep::AskPath);
    let r = save_as_active(&mut t, "/t/n.txt".to_string(), "n.txt".to_string(), Ok(false));
    assert_eq!(r.status.as_deref(), Some("saved /t/n.txt"));
    assert_eq!(t.doc.path.as_deref(), Some("/t/n.txt"));
    assert!(!t.is_dirty());
    let s = apply_save_hooks(&mut t, Some(("HI".to_string(), Some("shouted".to_string()))));
    assert_eq!(s.as_deref(), Some("shouted"));
    assert_eq!(t.text, "HI");
}

// The session.

#[test]
fn the_session_signature_ignores_the_order() {
    let a = set_of(&["/t/a", "/t/b"]);
    let b = set_of(&["/t/b", "/t/a"]);
    assert_eq!(session_signature(&a), session_signature(&b));
    assert_ne!(session_signature(&a), session_signature(&set_of(&["/t/a"])));
    assert_eq!(open_paths(&a), vec!["/t/a", "/t/b"]);
}

#[test]
fn the_list_of_files_reads_back() {
    let files = vec!["/t/a".to_string(), "/t/b c".to_string()];
    assert_eq!(parse_session(&session_text(&files)), files);
    assert_eq!(parse_session("\n  \n/t/x\n"), vec!["/t/x"]);
}

#[test]
fn unsaved_content_is_backed_up() {
    let mut s = set_of(&["/t/a", "/t/b"]);
    assert!(!has_unsaved(&s));
    s.tabs[1].set_text("mine".to_string());
    assert!(has_unsaved(&s));
    assert_eq!(backup_plan(&s), vec![false, true]);
    let m = snapshot_session_backups(&s, &vec![None, Some("key-1".to_string())]);
    assert_eq!(m.tabs.len(), 2);
    assert!(!m.tabs[0].dirty && m.tabs[1].dirty);
    assert_eq!(m.tabs[1].backup.as_deref(), Some("key-1"));
    assert_eq!(autosave_plan(&s), vec![1]);
}

#[test]
fn backups_are_written_when_due_and_changed() {
    assert!(backup_due(true, true, true, 1, 2));
    assert!(!backup_due(true, true, true, 2, 2));
    assert!(!backup_due(false, true, true, 1, 2));
    assert!(!backup_due(true, false, true, 1, 2));
    assert!(interval_passed(None, BACKUP_INTERVAL_MS));
    assert!(interval_passed(Some(4000), BACKUP_INTERVAL_MS));
    assert!(!interval_passed(Some(2999), AUTOSAVE_INTERVAL_MS));
}

// The grid.

#[test]
fn every_note_gets_an_identity_of_its_own() {
    let mut s = set_of(&["a", "b", "c"]);
    let mut next: u64 = 1;
    assign_doc_ids(&mut s, &mut next);
    assert_eq!(grid_docs(&s), vec![1, 2, 3]);
    assert_eq!(next, 4);
    s.push_tab(note("d", "d"));
    assign_doc_ids(&mut s, &mut next);
    assert_eq!(grid_docs(&s), vec![1, 2, 3, 4]);
    assert_eq!(pane_tab(&s, 3), Some(2));
    assert_eq!(pane_tab(&s, 77), None);
}

#[test]
fn the_grid_is_built_restored_and_dropped() {
    let docs = vec![1, 2];
    assert_eq!(grid_step(true, false, &None, &docs), GridStep::Build);
    assert_eq!(grid_step(true, false, &Some(vec![2, 1]), &docs), GridStep::Restore);
    assert_eq!(grid_step(true, false, &Some(vec![2, 3]), &docs), GridStep::Build);
    assert_eq!(grid_step(false, true, &None, &docs), GridStep::Drop);
    assert_eq!(grid_step(true, true, &None, &docs), GridStep::Keep);
    assert!(!needs_rebuild(&vec![2, 1], &docs));
    assert!(needs_rebuild(&vec![1], &docs));
}

#[test]
fn the_grid_shows_the_first_notes_only() {
    let mut s = set_of(&["a", "b", "c", "d", "e", "f", "g", "h"]);
    let mut next: u64 = 1;
    assign_doc_ids(&mut s, &mut next);
    assert_eq!(grid_docs(&s).len(), MAX_PANES);
    assert_eq!(
        overflow_notice(6, 8).as_deref(),
        Some("Grid shows the first 6 notes; 2 more stay open as tabs. Close a pane to show another.")
    );
    assert!(overflow_notice(6, 6).is_none());
}

#[test]
fn closing_panes_closes_their_notes() {
    let mut s = set_of(&["a", "b", "c"]);
    let mut next: u64 = 1;
    assign_doc_ids(&mut s, &mut next);
    s.cycle_prev();
    close_panes(&mut s, &vec![3, 1]);
    assert_eq!(names(&s), vec!["b"]);
    assert_eq!(s.active, 0);
    close_panes(&mut s, &vec![2]);
    assert_eq!(s.tabs.len(), 1);
    assert_eq!(s.tabs[0].doc.path, None);
}

#[test]
fn roots_come_from_local_paths_only() {
    let parents = vec![
        Some("/home/a".to_string()),
        Some("//server/share".to_string()),
        None,
        Some("/home/b".to_string()),
        Some("/home/a".to_string()),
    ];
    let unc = vec![false, true, false, false, false];
    assert_eq!(restore_roots(&parents, &unc), vec!["/home/a", "/home/b", "/home/a"]);
    assert!(restore_roots(&Vec::new(), &Vec::new()).is_empty());
    assert!(restore_roots(&vec![Some("//x".to_string())], &vec![true]).is_empty());
}

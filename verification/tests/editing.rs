use scribe_app::brackets::{bracket_jump_target, matching_bracket_char_indices};
use scribe_app::caret::{
    leading_blanks, line_rows, marks_brackets, occurrence_query, other_occurrences,
    take_caret_requests, trailing_blanks, whitespace_mark, SCAN_CAP,
};
use scribe_app::app::Requests;
use scribe_app::comment::{toggle_comment, CommentToggle};
use scribe_app::completion::{
    accept_completion, open_completion, take_list_keys, wants_completion, Completion, ListKeys,
};
use scribe_app::edit::{
    apply_indent, auto_indent_newline, duplicate_selection, indent_with_spaces, insert_at_caret,
    newline_with_indent, replace_in_active, replace_spans, spans_fit, Span,
};
use scribe_app::highlight::{
    append_split, highlight_line, highlight_note, lines_with_ends, Look, Piece,
};
use scribe_app::lines::{
    cursor_line0, duplicate_cursor_line, join_cursor_line_with_next, move_cursor_line, trimmed,
};
use scribe_app::multi_cursor::{
    caret_step, mc_collect_edit_ops, CaretStep, EditKey, EditOp, InputEvent,
};
use scribe_app::tab::EditorTab;
use scribe_app::text::{
    byte_to_char_index, char_to_byte, chars_of, decimal_string, is_boundary,
    line_col_from_char_index, splice_chars, str_eq,
};

fn tab_with(text: &str) -> EditorTab {
    let mut t = EditorTab::scratch();
    t.set_text(text.to_string());
    t
}

#[test]
fn char_and_byte_offsets_agree_on_wide_text() {
    let s = "aé漢😀z";
    assert_eq!(char_to_byte(s, 0), 0);
    assert_eq!(char_to_byte(s, 1), 1);
    assert_eq!(char_to_byte(s, 2), 3);
    assert_eq!(char_to_byte(s, 3), 6);
    assert_eq!(char_to_byte(s, 4), 10);
    assert_eq!(char_to_byte(s, 5), 11);
    assert_eq!(char_to_byte(s, 99), 11);
    for ci in 0..=5 {
        assert_eq!(byte_to_char_index(s, char_to_byte(s, ci)), ci);
    }
}

#[test]
fn an_offset_inside_a_character_falls_back_to_its_start() {
    let s = "aé漢";
    assert_eq!(byte_to_char_index(s, 2), 1);
    assert_eq!(byte_to_char_index(s, 4), 2);
    assert_eq!(byte_to_char_index(s, 5), 2);
    assert_eq!(byte_to_char_index(s, 600), 3);
    assert!(is_boundary(s, 1));
    assert!(!is_boundary(s, 2));
    assert!(is_boundary(s, 6));
    assert!(!is_boundary(s, 7));
}

#[test]
fn small_text_helpers() {
    assert_eq!(chars_of("aé"), vec!['a', 'é']);
    assert!(str_eq("abc", "abc"));
    assert!(!str_eq("abc", "abd"));
    assert!(!str_eq("abc", "ab"));
    assert_eq!(decimal_string(0), "0");
    assert_eq!(decimal_string(1_204_700), "1204700");
    assert_eq!(splice_chars("héllo", 1, 2, "a"), "hallo");
    assert_eq!(splice_chars("ab", 2, 9, "c"), "abc");
}

#[test]
fn line_and_column_count_from_one() {
    assert_eq!(line_col_from_char_index("", 0), (1, 1));
    assert_eq!(line_col_from_char_index("ab\ncd", 0), (1, 1));
    assert_eq!(line_col_from_char_index("ab\ncd", 2), (1, 3));
    assert_eq!(line_col_from_char_index("ab\ncd", 3), (2, 1));
    assert_eq!(line_col_from_char_index("ab\ncd", 99), (2, 3));
}

#[test]
fn brackets_match_across_nesting() {
    let s = "fn a() { [x(1), y] }";
    assert_eq!(matching_bracket_char_indices(s, 5), Some((4, 5)));
    assert_eq!(matching_bracket_char_indices(s, 8), Some((7, 19)));
    assert_eq!(matching_bracket_char_indices(s, 20), Some((7, 19)));
    assert_eq!(matching_bracket_char_indices(s, 9), Some((9, 17)));
    assert_eq!(matching_bracket_char_indices("no", 1), None);
    assert_eq!(matching_bracket_char_indices("(", 1), None);
}

#[test]
fn the_bracket_left_of_the_caret_is_preferred() {
    // `)` is left of the caret and `(` right of it.
    assert_eq!(matching_bracket_char_indices("(a)(b)", 3), Some((0, 2)));
}

#[test]
fn jumping_goes_to_the_other_bracket_and_back() {
    let s = "(abc)";
    let there = bracket_jump_target(s, 0);
    assert!(there.is_some());
    assert_eq!(bracket_jump_target("abc", 1), None);
}

#[test]
fn indent_replaces_the_range_by_spaces() {
    assert_eq!(apply_indent("ab", 1, 1, 4), ("a    b".to_string(), 5));
    assert_eq!(apply_indent("abcd", 1, 3, 2), ("a  d".to_string(), 3));
    assert_eq!(apply_indent("ab", 1, 1, 0), ("ab".to_string(), 1));
    assert_eq!(apply_indent("abcd", 1, 3, 0), ("ad".to_string(), 1));
    assert_eq!(
        indent_with_spaces("abcd", 3, 1, 2),
        ("a  d".to_string(), 3)
    );
}

#[test]
fn a_new_line_keeps_the_indentation() {
    assert_eq!(
        newline_with_indent("    x = 1", 9),
        ("    x = 1\n    ".to_string(), 14)
    );
    assert_eq!(
        newline_with_indent("\tx\n\t\ty", 6),
        ("\tx\n\t\ty\n\t\t".to_string(), 9)
    );
    assert_eq!(newline_with_indent("ab", 1), ("a\nb".to_string(), 2));
}

#[test]
fn enter_is_left_to_the_editor_without_indentation() {
    assert_eq!(auto_indent_newline("ab", 1, 1), None);
    assert_eq!(
        auto_indent_newline("  ab", 4, 4),
        Some(("  ab\n  ".to_string(), 7))
    );
}

#[test]
fn inserting_replaces_the_selection() {
    assert_eq!(
        insert_at_caret("abcdef", 4, 1, "XY"),
        ("aXYef".to_string(), 3)
    );
    assert_eq!(insert_at_caret("ab", 2, 2, "!"), ("ab!".to_string(), 3));
}

#[test]
fn duplicating_a_selection_puts_the_copy_behind_it() {
    let (text, caret) = duplicate_selection("hello", 0, 2);
    assert_eq!(text, "hehello");
    assert_eq!(caret, 4);
}

#[test]
fn replacing_spans_from_the_end_keeps_the_offsets() {
    let spans = vec![Span { start: 0, end: 2 }, Span { start: 4, end: 6 }];
    assert!(spans_fit("aaXXaa", &spans));
    assert_eq!(replace_spans("aaXXaa", &spans, "b"), "bXXb");
    assert_eq!(replace_spans("aaXXaa", &Vec::new(), "b"), "aaXXaa");
    assert!(!spans_fit("é", &vec![Span { start: 0, end: 1 }]));
}

#[test]
fn replace_one_and_replace_all_report_what_they_did() {
    let hits = vec![Span { start: 0, end: 1 }, Span { start: 2, end: 3 }];
    let one = replace_in_active("axa", "a", "b", &hits, false).expect("a pattern was given");
    assert_eq!(one.text.as_deref(), Some("bxa"));
    let all = replace_in_active("axa", "a", "b", &hits, true).expect("a pattern was given");
    assert_eq!(all.text.as_deref(), Some("bxb"));
    assert_ne!(one.status, all.status);
    assert!(replace_in_active("axa", "", "b", &hits, true).is_none());
}

#[test]
fn lines_move_up_and_down_and_back() {
    let s = "one\ntwo\nthree\n";
    let (down, caret) = move_cursor_line(s, Some((1, 2)), 1).expect("there is a line below");
    assert_eq!(down, "two\none\nthree\n");
    assert_eq!(caret, (2, 2));
    let (back, caret) = move_cursor_line(&down, Some(caret), -1).expect("there is a line above");
    assert_eq!(back, s);
    assert_eq!(caret, (1, 2));
    assert!(move_cursor_line(s, Some((1, 1)), -1).is_none());
    assert!(move_cursor_line(s, Some((3, 1)), 1).is_none());
}

#[test]
fn a_line_is_duplicated_and_lines_are_joined() {
    assert_eq!(
        duplicate_cursor_line("one\ntwo\n", Some((1, 1))).as_deref(),
        Some("one\none\ntwo\n")
    );
    assert_eq!(
        join_cursor_line_with_next("one  \n   two\n", Some((1, 1))).as_deref(),
        Some("one two\n")
    );
    assert!(join_cursor_line_with_next("one\n", Some((1, 1))).is_none());
    assert_eq!(cursor_line0(None), 0);
    assert_eq!(cursor_line0(Some((7, 3))), 6);
}

#[test]
fn commenting_twice_gives_the_text_back() {
    let s = "a\n  b\n\nc\n";
    let once = match toggle_comment(s, "//", 0, s.len()) {
        CommentToggle::Changed(t) => t,
        _ => panic!("the text changes"),
    };
    assert_ne!(once, s);
    let twice = match toggle_comment(&once, "//", once.len(), 0) {
        CommentToggle::Changed(t) => t,
        _ => panic!("the text changes back"),
    };
    assert_eq!(twice, s);
    assert!(matches!(toggle_comment(s, "", 0, 0), CommentToggle::NoPrefix));
}

fn changed(r: CommentToggle) -> Option<String> {
    match r {
        CommentToggle::Changed(t) => Some(t),
        _ => None,
    }
}

#[test]
fn only_the_touched_lines_are_commented() {
    let s = "one\ntwo\nthree\n";
    // A bare caret: its line, wherever in it.
    assert_eq!(changed(toggle_comment(s, "#", 0, 0)).as_deref(), Some("# one\ntwo\nthree\n"));
    assert_eq!(changed(toggle_comment(s, "#", 5, 5)).as_deref(), Some("one\n# two\nthree\n"));
    assert_eq!(changed(toggle_comment(s, "#", 7, 7)).as_deref(), Some("one\n# two\nthree\n"));
    // A selection, from either end.
    assert_eq!(changed(toggle_comment(s, "#", 1, 5)).as_deref(), Some("# one\n# two\nthree\n"));
    assert_eq!(changed(toggle_comment(s, "#", 5, 1)).as_deref(), Some("# one\n# two\nthree\n"));
    // Whole lines up to the start of the next, which is not selected.
    assert_eq!(changed(toggle_comment(s, "#", 0, 8)).as_deref(), Some("# one\n# two\nthree\n"));
    // Behind the last line there is nothing to comment.
    assert!(matches!(toggle_comment(s, "#", 14, 14), CommentToggle::Nothing));
    assert!(matches!(toggle_comment("", "#", 0, 0), CommentToggle::Nothing));
    assert!(matches!(toggle_comment("a\n \nb", "#", 2, 2), CommentToggle::Nothing));
}

#[test]
fn comments_come_off_when_all_touched_lines_have_them() {
    let s = "# one\ntwo\n#three\n";
    assert_eq!(changed(toggle_comment(s, "#", 0, 0)).as_deref(), Some("one\ntwo\n#three\n"));
    assert_eq!(
        changed(toggle_comment(s, "#", 0, 8)).as_deref(),
        Some("# # one\n# two\n#three\n")
    );
    assert_eq!(changed(toggle_comment(s, "#", 12, 12)).as_deref(), Some("# one\ntwo\nthree\n"));
    // Line ends of lines that are not touched stay.
    assert_eq!(changed(toggle_comment("a\r\nb\r\n", "#", 3, 3)).as_deref(), Some("a\r\n# b\n"));
}

#[test]
fn the_completion_list_opens_only_with_words() {
    assert!(open_completion(None).is_none());
    assert!(open_completion(Some((3, Vec::new()))).is_none());
    let c = open_completion(Some((3, vec!["alpha".to_string()]))).expect("there is a word");
    assert_eq!((c.prefix_start, c.selected), (3, 0));
    assert!(wants_completion(false, true));
    assert!(!wants_completion(true, true));
}

#[test]
fn the_completion_selection_stays_on_the_list() {
    let keys = |down: bool, up: bool| ListKeys { down, up, accept: false, escape: false };
    let mut c = open_completion(Some((0, vec!["a".to_string(), "b".to_string()])));
    take_list_keys(&mut c, keys(true, false));
    take_list_keys(&mut c, keys(true, false));
    assert_eq!(c.as_ref().map(|c| c.selected), Some(1));
    take_list_keys(&mut c, keys(false, true));
    take_list_keys(&mut c, keys(false, true));
    assert_eq!(c.as_ref().map(|c| c.selected), Some(0));
    let accept = take_list_keys(
        &mut c,
        ListKeys { down: false, up: false, accept: true, escape: false },
    );
    assert!(accept);
    take_list_keys(
        &mut c,
        ListKeys { down: false, up: false, accept: false, escape: true },
    );
    assert!(c.is_none());
    assert!(!take_list_keys(&mut c, keys(true, false)));
}

#[test]
fn accepting_a_word_replaces_the_typed_part() {
    let mut t = tab_with("let al = 1;");
    let gen = t.edit_gen;
    let c = Completion { prefix_start: 4, items: vec!["alpha".to_string()], selected: 0 };
    accept_completion(&mut t, c, Some(6));
    assert_eq!(t.text, "let alpha = 1;");
    assert_eq!(t.edit_gen, gen + 1);
}

#[test]
fn a_stale_completion_changes_no_text() {
    // Byte 2 lies inside the second character.
    let mut t = tab_with("aé");
    let c = Completion { prefix_start: 2, items: vec!["x".to_string()], selected: 0 };
    accept_completion(&mut t, c, Some(2));
    assert_eq!(t.text, "aé");
    // A start behind the caret.
    let c = Completion { prefix_start: 3, items: vec!["x".to_string()], selected: 0 };
    accept_completion(&mut t, c, Some(0));
    assert_eq!(t.text, "aé");
    // No caret, and no selected word.
    let gen = t.edit_gen;
    let c = Completion { prefix_start: 0, items: vec!["x".to_string()], selected: 0 };
    accept_completion(&mut t, c, None);
    let c = Completion { prefix_start: 0, items: vec!["x".to_string()], selected: 5 };
    accept_completion(&mut t, c, Some(1));
    assert_eq!((t.text.as_str(), t.edit_gen), ("aé", gen));
}

#[test]
fn bare_edits_go_to_every_caret_and_the_rest_to_the_editor() {
    let key = |key: EditKey, pressed: bool, modified: bool| InputEvent::Key {
        key,
        pressed,
        modified,
    };
    let events = vec![
        InputEvent::Text("x".to_string()),
        InputEvent::Text(String::new()),
        key(EditKey::Backspace, true, false),
        key(EditKey::Backspace, true, true),
        key(EditKey::Delete, false, false),
        key(EditKey::Delete, true, false),
        InputEvent::Other,
        key(EditKey::Enter, true, false),
    ];
    let (ops, left) = mc_collect_edit_ops(&events);
    assert_eq!(left, vec![1, 3, 4, 6]);
    assert_eq!(ops.len(), 4);
    assert!(matches!(&ops[0], EditOp::Insert(s) if s == "x"));
    assert!(matches!(&ops[1], EditOp::Backspace));
    assert!(matches!(&ops[2], EditOp::Delete));
    assert!(matches!(&ops[3], EditOp::Insert(s) if s == "\n"));
}

#[test]
fn escape_collapses_only_several_carets() {
    assert_eq!(caret_step(true, true, false, 3), CaretStep::Collapse);
    assert_eq!(caret_step(false, true, false, 3), CaretStep::Nothing);
    assert_eq!(caret_step(false, false, true, 0), CaretStep::SelectNext);
    assert_eq!(caret_step(true, false, false, 1), CaretStep::Replay);
    assert_eq!(caret_step(true, false, false, 0), CaretStep::Nothing);
}

#[test]
fn a_line_is_cut_at_its_links() {
    let line = "see http://a.b ok";
    let links = vec![Span { start: 4, end: 14 }];
    let spans = Some(vec![Span { start: 0, end: 8 }, Span { start: 8, end: 17 }]);
    let v = highlight_line(line, &spans, &links);
    assert_eq!(
        v,
        vec![
            Piece { start: 0, end: 4, look: Look::Span(0) },
            Piece { start: 4, end: 8, look: Look::Link },
            Piece { start: 8, end: 14, look: Look::Link },
            Piece { start: 14, end: 17, look: Look::Span(1) },
        ]
    );
}

#[test]
fn what_the_spans_leave_over_is_plain() {
    let v = highlight_line("abc def\n", &Some(vec![Span { start: 0, end: 3 }]), &Vec::new());
    assert_eq!(
        v,
        vec![
            Piece { start: 0, end: 3, look: Look::Span(0) },
            Piece { start: 3, end: 8, look: Look::Plain },
        ]
    );
    let whole = highlight_line("abc", &None, &Vec::new());
    assert_eq!(whole, vec![Piece { start: 0, end: 3, look: Look::Plain }]);
    assert!(highlight_line("", &None, &Vec::new()).is_empty());
}

#[test]
fn a_span_inside_a_character_is_not_drawn() {
    let mut out = Vec::new();
    append_split(&mut out, "é", 0, 1, Look::Plain, &Vec::new());
    assert!(out.is_empty());
    append_split(&mut out, "é", 0, 2, Look::Plain, &Vec::new());
    assert_eq!(out.len(), 1);
}

#[test]
fn a_note_is_cut_into_lines_with_their_ends() {
    let s = "a\n\nbc";
    assert_eq!(lines_with_ends(s), vec!["a\n", "\n", "bc"]);
    assert!(lines_with_ends("").is_empty());
    assert_eq!(lines_with_ends(s).concat(), s);
    let v = highlight_note(s, &vec![vec![Span { start: 0, end: 2 }]], &Vec::new());
    assert_eq!(v.len(), 3);
    assert_eq!(v[0].1, vec![Piece { start: 0, end: 2, look: Look::Span(0) }]);
    assert_eq!(v[2].1, vec![Piece { start: 0, end: 2, look: Look::Plain }]);
}

#[test]
fn only_a_word_on_one_line_has_its_occurrences_marked() {
    assert_eq!(
        occurrence_query("foo bar foo", 3, 0, true).as_deref(),
        Some("foo")
    );
    assert!(occurrence_query("foo bar", 0, 3, false).is_none());
    assert!(occurrence_query("foo bar", 2, 2, true).is_none());
    assert!(occurrence_query("a  b", 1, 3, true).is_none());
    assert!(occurrence_query("a\nb", 0, 3, true).is_none());
    let hits = vec![Span { start: 0, end: 3 }, Span { start: 8, end: 11 }];
    assert_eq!(other_occurrences(&hits, 0), vec![Span { start: 8, end: 11 }]);
    assert!(marks_brackets(true, true, SCAN_CAP));
    assert!(!marks_brackets(true, true, SCAN_CAP + 1));
    assert!(!marks_brackets(true, false, 1));
}

#[test]
fn blanks_at_both_ends_of_a_row() {
    let row = chars_of("  a\t ");
    assert_eq!(leading_blanks(&row), 2);
    assert_eq!(trailing_blanks(&row), Some(3));
    assert_eq!(trailing_blanks(&chars_of("ab")), None);
    assert_eq!(trailing_blanks(&chars_of("")), None);
    assert_eq!(whitespace_mark(' '), Some("·"));
    assert_eq!(whitespace_mark('\t'), Some("→"));
    assert_eq!(whitespace_mark('x'), None);
}

#[test]
fn wrapped_rows_share_a_line_number() {
    assert_eq!(line_rows(&vec![false, true, true, false]), vec![0, 2, 3]);
    assert!(line_rows(&Vec::new()).is_empty());
}

#[test]
fn caret_requests_are_taken_once() {
    let mut q = Requests {
        jump_bracket: true,
        insert_datetime: true,
        dup_selection: false,
        editor_action: None,
    };
    let none = take_caret_requests(&mut q, true);
    assert!(!none.jump_bracket && !none.insert_datetime);
    let c = take_caret_requests(&mut q, false);
    assert!(c.jump_bracket && c.insert_datetime && !c.dup_selection);
    let again = take_caret_requests(&mut q, false);
    assert!(!again.jump_bracket && !again.insert_datetime);
}

#[test]
fn white_space_is_what_unicode_says() {
    let spaces = "\u{9}\u{a}\u{b}\u{c}\u{d} \u{85}\u{a0}\u{1680}\u{2000}\u{2001}\u{2002}\u{2003}\
                  \u{2004}\u{2005}\u{2006}\u{2007}\u{2008}\u{2009}\u{200a}\u{2028}\u{2029}\u{202f}\
                  \u{205f}\u{3000}";
    assert_eq!(spaces.chars().count(), 25);
    assert_eq!(trimmed(spaces), "");
    let others = ['\u{8}', '\u{e}', '\u{180e}', '\u{1fff}', '\u{200b}', '\u{2060}', '\u{feff}', 'x'];
    for c in others {
        assert_eq!(trimmed(&format!(" {c} ")), c.to_string());
    }
    // What the property says of every character, not of these alone.
    for v in 0..0x11_0000u32 {
        if let Some(c) = char::from_u32(v) {
            assert_eq!(c.is_whitespace(), spaces.contains(c));
        }
    }
}

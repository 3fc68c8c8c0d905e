use editor_core::text_buffer::{Cursor, Language, LineTextBuffer, Selection};

fn lines(v: &[&str]) -> Vec<String> {
    v.iter().map(|s| s.to_string()).collect()
}

#[test]
fn round_trip_reproduces_text() {
    for text in ["This\nis\na simple\nfile\n", "one line", "", "\n", "a\n\nb"] {
        let buffer = LineTextBuffer::new(text.to_string());
        assert_eq!(buffer.get_content("\n".to_string()), text);
    }
}

#[test]
fn trailing_newline_gives_empty_last_line() {
    let buffer = LineTextBuffer::new("a\nb\n".to_string());
    assert_eq!(buffer.lines, lines(&["a", "b", ""]));
    let empty = LineTextBuffer::new(String::new());
    assert_eq!(empty.get_lines_length(), 0);
}

#[test]
fn content_joined_with_crlf() {
    let buffer = LineTextBuffer::new("a\nbc\n".to_string());
    assert_eq!(buffer.get_content("\r\n".to_string()), "a\r\nbc\r\n");
}

#[test]
fn multibyte_row_length_counts_bytes() {
    let buffer = LineTextBuffer::new("héllo\nx".to_string());
    assert_eq!(buffer.get_row_length(0), 6);
    assert!(buffer.is_valid_cursor(Cursor { row: 0, column: 3 }));
    assert!(!buffer.is_valid_cursor(Cursor { row: 0, column: 2 }));
    assert!(!buffer.is_valid_cursor(Cursor { row: 2, column: 0 }));
}

#[test]
fn insert_scenario_into_first_line() {
    let mut buffer = LineTextBuffer::new("This\nis\na simple\nfile\n".to_string());
    assert_eq!(buffer.lines, lines(&["This", "is", "a simple", "file", ""]));
    let c = buffer.insert_text("3".to_string(), Cursor { row: 0, column: 0 });
    assert_eq!(buffer.lines, lines(&["3This", "is", "a simple", "file", ""]));
    assert_eq!(c, Cursor { row: 0, column: 1 });
}

#[test]
fn multi_line_remove_scenario() {
    let mut buffer = LineTextBuffer::new("This\nis\na\nsimple\nfile\n".to_string());
    let (text, c) = buffer.remove_text(Selection {
        start: Cursor { row: 1, column: 1 },
        end: Cursor { row: 4, column: 1 },
    });
    assert_eq!(buffer.lines, lines(&["This", "iile", ""]));
    assert_eq!(text, "s\na\nsimple\nf");
    assert_eq!(c, Cursor { row: 1, column: 1 });
}

#[test]
fn empty_insert_keeps_cursor() {
    let mut buffer = LineTextBuffer::new("abc".to_string());
    let c = buffer.insert_text(String::new(), Cursor { row: 0, column: 2 });
    assert_eq!(c, Cursor { row: 0, column: 2 });
    assert_eq!(buffer.lines, lines(&["abc"]));
}

#[test]
fn empty_selection_removes_nothing() {
    let mut buffer = LineTextBuffer::new("abc".to_string());
    let at = Cursor { row: 0, column: 1 };
    let (text, c) = buffer.remove_text(Selection { start: at, end: at });
    assert_eq!(text, "");
    assert_eq!(c, at);
    assert_eq!(buffer.lines, lines(&["abc"]));
}

#[test]
fn removing_inserted_range_restores_text() {
    let mut buffer = LineTextBuffer::new("first\nsecond\n".to_string());
    let start = Cursor { row: 1, column: 3 };
    let end = buffer.insert_text("X\nYY\nZ".to_string(), start);
    assert_eq!(end, Cursor { row: 3, column: 1 });
    assert_eq!(buffer.lines, lines(&["first", "secX", "YY", "Zond", ""]));
    let (text, c) = buffer.remove_text(Selection { start, end });
    assert_eq!(text, "X\nYY\nZ");
    assert_eq!(c, start);
    assert_eq!(buffer.lines, lines(&["first", "second", ""]));
}

#[test]
fn selected_text_spans_lines() {
    let buffer = LineTextBuffer::new("ab\ncd\nef".to_string());
    let sel = Selection { start: Cursor { row: 0, column: 1 }, end: Cursor { row: 2, column: 1 } };
    assert!(buffer.is_valid_selection(sel));
    assert_eq!(buffer.get_selected_text(sel), "b\ncd\ne");
    let backwards = Selection { start: sel.end, end: sel.start };
    assert!(!buffer.is_valid_selection(backwards));
}

#[test]
fn undo_then_redo_walks_the_history() {
    let mut buffer = LineTextBuffer::new("one\ntwo\n".to_string());
    let initial = buffer.lines.clone();
    let c1 = buffer.insert_text("A\nB".to_string(), Cursor { row: 0, column: 1 });
    let after_first = buffer.lines.clone();
    let (removed, _) = buffer.remove_text(Selection {
        start: Cursor { row: 1, column: 0 },
        end: Cursor { row: 2, column: 2 },
    });
    assert_eq!(removed, "Bne\ntw");
    let after_second = buffer.lines.clone();

    assert_eq!(buffer.undo(), Some(Cursor { row: 2, column: 2 }));
    assert_eq!(buffer.lines, after_first);
    assert_eq!(buffer.undo(), Some(Cursor { row: 0, column: 1 }));
    assert_eq!(buffer.lines, initial);
    assert_eq!(buffer.undo(), None);
    assert_eq!(buffer.lines, initial);

    assert_eq!(buffer.redo(), Some(c1));
    assert_eq!(buffer.lines, after_first);
    assert_eq!(buffer.redo(), Some(Cursor { row: 1, column: 0 }));
    assert_eq!(buffer.lines, after_second);
    assert_eq!(buffer.redo(), None);
}

#[test]
fn new_edit_clears_redo() {
    let mut buffer = LineTextBuffer::new("x".to_string());
    buffer.insert_text("1".to_string(), Cursor { row: 0, column: 1 });
    assert!(buffer.undo().is_some());
    buffer.insert_text("2".to_string(), Cursor { row: 0, column: 0 });
    assert_eq!(buffer.redo(), None);
    assert_eq!(buffer.lines, lines(&["2x"]));
}

#[test]
fn undo_on_fresh_buffer_is_no_op() {
    let mut buffer = LineTextBuffer::from_file("a\n".to_string(), "/tmp/a.txt".to_string());
    assert_eq!(buffer.undo(), None);
    assert_eq!(buffer.redo(), None);
    assert_eq!(buffer.lines, lines(&["a", ""]));
    assert_eq!(buffer.file_path, Some("/tmp/a.txt".to_string()));
    assert_eq!(buffer.language, Language::PlainText);
}

#[test]
fn n_undos_walk_back_through_every_state() {
    let mut buffer = LineTextBuffer::new("start\n".to_string());
    let mut states = vec![buffer.lines.clone()];
    let mut cursors = vec![];
    for k in 0..5 {
        if k % 2 == 0 {
            let at = Cursor { row: 0, column: 1 };
            buffer.insert_text(format!("{}\n", k), at);
            cursors.push(at);
        } else {
            let sel = Selection { start: Cursor { row: 0, column: 0 }, end: Cursor { row: 1, column: 1 } };
            buffer.remove_text(sel);
            cursors.push(sel.end);
        }
        states.push(buffer.lines.clone());
    }
    for k in (0..5).rev() {
        assert_eq!(buffer.undo(), Some(cursors[k]));
        assert_eq!(buffer.lines, states[k]);
    }
    assert_eq!(buffer.undo(), None);
    for k in 1..=5 {
        assert!(buffer.redo().is_some());
        assert_eq!(buffer.lines, states[k]);
    }
    assert_eq!(buffer.redo(), None);
}

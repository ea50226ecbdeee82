use garedit::buffer::{Document, SaveError};
use garedit::command::EditCommand;
use garedit::cursor::Position;
use garedit::newline::NewlineStyle;
use garedit::selection::Selection;

fn typed(text: &str) -> Document {
    let mut doc = Document::new();
    doc.apply(EditCommand::InsertText(text.to_string()));
    doc
}

#[test]
fn positions_and_selections() {
    assert_eq!(Position::origin(), Position::new(0, 0));
    assert_eq!(Position::default(), Position::origin());
    let s = Selection::new(Position::new(2, 1), Position::new(0, 4));
    assert_eq!(s.normalized(), (Position::new(0, 4), Position::new(2, 1)));
    assert!(!s.is_collapsed());
    assert!(Selection::new(s.anchor, s.anchor).is_collapsed());
}

#[test]
fn cursors_are_moved_into_the_text() {
    let mut doc = Document::from_text("ab\ncdef");
    doc.set_cursor(Position::new(9, 9));
    assert_eq!(doc.cursor(), Position::new(1, 4));
    doc.set_cursor(Position::new(0, 9));
    assert_eq!(doc.cursor(), Position::new(0, 2));
    doc.set_selection(Some(Selection::new(Position::new(0, 7), Position::new(7, 0))));
    assert_eq!(
        doc.selection(),
        Some(Selection::new(Position::new(0, 2), Position::new(1, 0)))
    );
    doc.clear_selection();
    assert_eq!(doc.selection(), None);
}

#[test]
fn moving_left_and_right_crosses_lines() {
    let mut doc = Document::from_text("ab\nc");
    doc.set_cursor(Position::new(0, 2));
    doc.apply(EditCommand::MoveRight);
    assert_eq!(doc.cursor(), Position::new(1, 0));
    doc.apply(EditCommand::MoveLeft);
    assert_eq!(doc.cursor(), Position::new(0, 2));
    doc.apply(EditCommand::MoveLineStart);
    doc.apply(EditCommand::MoveLeft);
    assert_eq!(doc.cursor(), Position::origin());
    assert!(!doc.is_dirty());
}

#[test]
fn moving_by_pages_stops_at_the_ends() {
    let mut doc = Document::from_text("one\ntwo\nthree\nfour");
    doc.apply(EditCommand::MoveLineEnd);
    doc.apply(EditCommand::MovePageDown(2));
    assert_eq!(doc.cursor(), Position::new(2, 3));
    doc.apply(EditCommand::MovePageDown(9));
    assert_eq!(doc.cursor(), Position::new(3, 3));
    doc.apply(EditCommand::MovePageUp(99));
    assert_eq!(doc.cursor(), Position::new(0, 3));
}

#[test]
fn backspace_takes_back_a_typed_char() {
    let mut doc = Document::from_text("ab");
    doc.set_cursor(Position::new(0, 1));
    doc.apply(EditCommand::InsertChar('é'));
    assert_eq!(doc.to_text(), "aéb");
    doc.apply(EditCommand::Backspace);
    assert_eq!(doc.to_text(), "ab");
    assert_eq!(doc.cursor(), Position::new(0, 1));
}

#[test]
fn typing_replaces_the_selection() {
    let mut doc = Document::from_text("one two");
    doc.set_selection(Some(Selection::new(Position::new(0, 7), Position::new(0, 4))));
    doc.apply(EditCommand::InsertText("x\ny".to_string()));
    assert_eq!(doc.to_text(), "one x\ny");
    assert_eq!(doc.cursor(), Position::new(1, 1));
    assert_eq!(doc.selection(), None);
}

#[test]
fn idle_edits_are_not_recorded() {
    let mut doc = Document::from_text("a");
    doc.apply(EditCommand::Backspace);
    assert!(!doc.is_dirty());
    assert!(!doc.undo());
    doc.apply(EditCommand::InsertText(String::new()));
    assert!(!doc.undo());
    assert!(!doc.redo());
}

#[test]
fn undo_restores_every_step_and_redo_makes_it_again() {
    let mut doc = Document::new();
    let mut states = vec![doc.to_text()];
    for c in ['a', 'b', 'c'] {
        doc.apply(EditCommand::InsertChar(c));
        states.push(doc.to_text());
    }
    for i in (0..3).rev() {
        assert!(doc.undo());
        assert_eq!(doc.to_text(), states[i]);
    }
    assert!(!doc.undo());
    for i in 1..4 {
        assert!(doc.redo());
        assert_eq!(doc.to_text(), states[i]);
    }
    assert!(!doc.redo());
}

#[test]
fn a_new_edit_ends_what_could_be_redone() {
    let mut doc = typed("a");
    doc.undo();
    doc.apply(EditCommand::InsertChar('b'));
    assert!(!doc.redo());
    assert_eq!(doc.to_text(), "b");
}

#[test]
fn history_is_limited() {
    let mut doc = Document::new();
    assert_eq!(doc.history_limit(), 512);
    doc.set_history_limit(2);
    for c in ['a', 'b', 'c'] {
        doc.apply(EditCommand::InsertChar(c));
    }
    assert!(doc.undo());
    assert!(doc.undo());
    assert!(!doc.undo());
    assert_eq!(doc.to_text(), "a");
    doc.set_history_limit(0);
    assert_eq!(doc.history_limit(), 1);
}

#[test]
fn deleting_the_only_line_empties_it() {
    let mut doc = Document::from_text("abc");
    doc.apply(EditCommand::DeleteLine);
    assert_eq!(doc.to_text(), "");
    assert!(doc.is_dirty());
    let mut empty = Document::new();
    empty.apply(EditCommand::DeleteLine);
    assert!(!empty.is_dirty());
}

#[test]
fn saving_needs_a_path() {
    let mut doc = typed("x");
    match doc.save() {
        Err(error) => {
            assert_eq!(error, SaveError::NoPath);
            assert_eq!(error.message(), "document has no associated path");
        }
        Ok(_) => panic!("saved without a path"),
    }
    doc.set_path(Some("/tmp/x".to_string()));
    let request = doc.save().unwrap();
    assert_eq!(request.path, "/tmp/x");
    assert_eq!(request.text, "x");
    assert!(doc.is_dirty());
    doc.mark_saved("/tmp/x".to_string());
    assert!(!doc.is_dirty());
    assert_eq!(doc.path(), Some("/tmp/x"));
}

#[test]
fn opening_undoes_saving() {
    let mut doc = typed("a\nb\n");
    doc.set_newline_style(NewlineStyle::Crlf);
    let request = doc.save_as("/tmp/y".to_string());
    assert_eq!(request.text, "a\r\nb\r\n");
    let again = Document::open_path(request.path, &request.text);
    assert_eq!(again.lines(), doc.lines());
    assert_eq!(again.newline_style(), NewlineStyle::Crlf);
    assert_eq!(again.path(), Some("/tmp/y"));
    assert!(!again.is_dirty());
}

#[test]
fn another_line_ending_is_a_change() {
    let mut doc = Document::from_text("a");
    doc.set_newline_style(NewlineStyle::Lf);
    assert!(!doc.is_dirty());
    doc.set_newline_style(NewlineStyle::Crlf);
    assert!(doc.is_dirty());
    doc.mark_clean();
    assert!(!doc.is_dirty());
    doc.mark_dirty();
    assert!(doc.is_dirty());
}

#[test]
fn words_are_deleted_across_lines() {
    let mut doc = Document::from_text("one\ntwo");
    doc.set_cursor(Position::new(1, 0));
    doc.apply(EditCommand::DeleteWordBackward);
    assert_eq!(doc.to_text(), "two");
    let mut next = Document::from_text("one\ntwo");
    next.set_cursor(Position::new(0, 3));
    next.apply(EditCommand::DeleteWordForward);
    assert_eq!(next.to_text(), "one");
}

#[test]
fn clones_are_independent() {
    let mut doc = typed("a");
    let copy = doc.clone();
    doc.apply(EditCommand::InsertChar('b'));
    assert_eq!(copy.to_text(), "a");
    assert_eq!(Document::default().line_count(), 1);
}

#[test]
fn typing_in_pieces_adds_up() {
    let start = || {
        let mut doc = Document::from_text("one\ntwo");
        doc.set_cursor(Position::new(1, 1));
        doc
    };
    let mut pieces = start();
    pieces.apply(EditCommand::InsertText("ab\nc".to_string()));
    pieces.apply(EditCommand::InsertText("d\nef".to_string()));
    let mut whole = start();
    whole.apply(EditCommand::InsertText("ab\ncd\nef".to_string()));
    assert_eq!(pieces.to_text(), "one\ntab\ncd\nefwo");
    assert_eq!(pieces.lines(), whole.lines());
    assert_eq!(pieces.cursor(), Position::new(3, 2));
    assert_eq!(whole.cursor(), Position::new(3, 2));
    let mut flat = start();
    flat.apply(EditCommand::InsertText("xyz".to_string()));
    assert_eq!(flat.cursor(), Position::new(1, 4));
}

#[test]
fn delete_is_a_step_right_and_backspace() {
    for (line, column) in [(0, 0), (0, 1), (0, 2), (1, 0), (1, 1)] {
        let mut deleted = Document::from_text("ab\ncd");
        deleted.set_cursor(Position::new(line, column));
        let mut stepped = deleted.clone();
        deleted.apply(EditCommand::Delete);
        stepped.apply(EditCommand::MoveRight);
        stepped.apply(EditCommand::Backspace);
        assert_eq!(deleted.lines(), stepped.lines());
        assert_eq!(deleted.cursor(), Position::new(line, column));
        assert_eq!(stepped.cursor(), Position::new(line, column));
        assert!(deleted.is_dirty());
    }
    let mut end = Document::from_text("ab\ncd");
    end.set_cursor(Position::new(1, 2));
    end.apply(EditCommand::Delete);
    assert_eq!(end.to_text(), "ab\ncd");
    assert!(!end.is_dirty());
}

#[test]
fn backspace_takes_back_a_line_break() {
    let mut doc = Document::from_text("ab");
    doc.set_cursor(Position::new(0, 1));
    doc.apply(EditCommand::Newline);
    assert_eq!(doc.to_text(), "a\nb");
    doc.apply(EditCommand::Backspace);
    assert_eq!(doc.to_text(), "ab");
    assert_eq!(doc.cursor(), Position::new(0, 1));
    assert!(doc.is_dirty());
}

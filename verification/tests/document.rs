use garedit::buffer::Document;
use garedit::command::EditCommand;
use garedit::cursor::Position;
use garedit::newline::NewlineStyle;
use garedit::selection::Selection;

#[test]
fn inserts_text_and_newline() {
    let mut doc = Document::new();
    doc.apply(EditCommand::InsertText("hello".to_string()));
    doc.apply(EditCommand::Newline);
    doc.apply(EditCommand::InsertText("world".to_string()));
    assert_eq!(doc.line_count(), 2);
    assert_eq!(doc.line(0), Some("hello"));
    assert_eq!(doc.line(1), Some("world"));
}

#[test]
fn backspace_merges_lines() {
    let mut doc = Document::from_text("ab\ncd");
    doc.set_cursor(Position::new(1, 0));
    doc.apply(EditCommand::Backspace);
    assert_eq!(doc.line_count(), 1);
    assert_eq!(doc.line(0), Some("abcd"));
    assert_eq!(doc.cursor(), Position::new(0, 2));
}

#[test]
fn delete_merges_next_line() {
    let mut doc = Document::from_text("ab\ncd");
    doc.set_cursor(Position::new(0, 2));
    doc.apply(EditCommand::Delete);
    assert_eq!(doc.line_count(), 1);
    assert_eq!(doc.line(0), Some("abcd"));
}

#[test]
fn deletes_multiline_selection() {
    let mut doc = Document::from_text("alpha\nbravo\ncharlie");
    doc.set_selection(Some(Selection::new(
        Position::new(0, 2),
        Position::new(2, 3),
    )));
    doc.apply(EditCommand::InsertChar('X'));
    assert_eq!(doc.line_count(), 1);
    assert_eq!(doc.line(0), Some("alXrlie"));
}

#[test]
fn undo_redo_round_trip() {
    let mut doc = Document::new();
    doc.mark_clean();
    doc.apply(EditCommand::InsertText("hello".to_string()));
    assert!(doc.is_dirty());
    doc.apply(EditCommand::Undo);
    assert_eq!(doc.to_text(), "");
    assert!(!doc.is_dirty());
    doc.apply(EditCommand::Redo);
    assert_eq!(doc.to_text(), "hello");
    assert!(doc.is_dirty());
}

#[test]
fn moves_by_words_over_punctuation() {
    let mut doc = Document::from_text("foo::bar baz");
    doc.apply(EditCommand::MoveWordRight);
    assert_eq!(doc.cursor(), Position::new(0, 5));
    doc.apply(EditCommand::MoveWordRight);
    assert_eq!(doc.cursor(), Position::new(0, 9));
    doc.apply(EditCommand::MoveWordLeft);
    assert_eq!(doc.cursor(), Position::new(0, 5));
    doc.apply(EditCommand::MoveWordLeft);
    assert_eq!(doc.cursor(), Position::new(0, 0));
}

#[test]
fn deletes_words() {
    let mut doc = Document::from_text("alpha beta  gamma");
    doc.set_cursor(Position::new(0, 17));
    doc.apply(EditCommand::DeleteWordBackward);
    assert_eq!(doc.to_text(), "alpha beta  ");
    doc.apply(EditCommand::DeleteWordBackward);
    assert_eq!(doc.to_text(), "alpha ");

    let mut doc = Document::from_text("alpha beta");
    doc.set_cursor(Position::new(0, 0));
    doc.apply(EditCommand::DeleteWordForward);
    assert_eq!(doc.to_text(), "beta");
}

#[test]
fn deletes_current_line() {
    let mut doc = Document::from_text("one\ntwo\nthree");
    doc.set_cursor(Position::new(1, 2));
    doc.apply(EditCommand::DeleteLine);
    assert_eq!(doc.to_text(), "one\nthree");
    assert_eq!(doc.cursor(), Position::new(1, 0));
}

#[test]
fn saves_and_opens_with_newline_normalization() {
    let mut doc = Document::from_text("alpha\nbeta");
    doc.set_newline_style(NewlineStyle::Crlf);
    let request = doc.save_as("newline-style.txt".to_string());
    assert_eq!(request.text, "alpha\r\nbeta");
    doc.mark_saved(request.path.clone());
    assert!(!doc.is_dirty());

    let reopened = Document::open_path(request.path.clone(), &request.text);
    assert_eq!(reopened.to_text(), "alpha\nbeta");
    assert_eq!(reopened.newline_style(), NewlineStyle::Crlf);
    assert_eq!(reopened.path(), Some("newline-style.txt"));
    assert!(!reopened.is_dirty());
}

//! Documents: lines of text with a cursor, a selection and an edit history.
use crate::command::EditCommand;
use crate::cursor::Position;
#[allow(unused_imports)]
use crate::cursor::not_after;
#[allow(unused_imports)]
use crate::model::{
    above, applied, below, broken_at, char_inserted, clamped, clamped_sel, covers_text, doc_wf,
    edited, erased_back, erased_forward, far_above, far_below, fresh_doc, in_bounds, is_edit,
    left_of, lemma_clamped, lemma_far_above, lemma_far_below, lemma_newest, lemma_popped,
    lemma_pushed, lemma_selection_removed, lemma_without_range, lemma_word_after, lemma_word_before,
    line_deleted, moved, newest, newline_inserted, range_removed, recorded, redone, right_of,
    selection_removed, text_inserted, text_wf, undone, without_range, word_after, word_before,
    DocModel, TextModel,
};
use crate::newline::{
    detect_newline_style, join_lines, normalize_newlines, split_lines, NewlineStyle,
};
#[allow(unused_imports)]
use crate::newline::{delimiter_text, joined, normalized, shown_style, split};
use crate::selection::Selection;
#[allow(unused_imports)]
use crate::selection::opt_sel;
use crate::text::{copy_opt, copy_texts, opt_equal, slice, texts_equal, to_chars};
#[allow(unused_imports)]
use crate::text::{opt_text, texts};
use crate::word::{next_word_boundary_in_line, prev_word_boundary_in_line};
use vstd::prelude::*;

verus! {

/// How many changes a new document remembers.
pub const DEFAULT_HISTORY_LIMIT: usize = 512;

/// The number of characters of a line.
pub fn line_char_count(line: &str) -> (out: usize)
    ensures
        out == line@.len(),
{
    line.unicode_len()
}

/// The state of a document at one moment.
#[derive(Debug)]
struct Snapshot {
    lines: Vec<String>,
    cursor: Position,
    selection: Option<Selection>,
    dirty: bool,
    path: Option<String>,
    newline_style: NewlineStyle,
}

impl Snapshot {
    spec fn model(self) -> TextModel {
        TextModel {
            lines: texts(self.lines@),
            cursor: self.cursor@,
            selection: opt_sel(self.selection),
            dirty: self.dirty,
            path: opt_text(self.path),
            newline_style: self.newline_style,
        }
    }

    fn copy(&self) -> (out: Self)
        ensures
            out.model() == self.model(),
    {
        Snapshot {
            lines: copy_texts(&self.lines),
            cursor: self.cursor,
            selection: self.selection,
            dirty: self.dirty,
            path: copy_opt(&self.path),
            newline_style: self.newline_style,
        }
    }

    fn same_as(&self, other: &Snapshot) -> (yes: bool)
        ensures
            yes == (self.model() == other.model()),
    {
        texts_equal(&self.lines, &other.lines) && self.cursor == other.cursor && self.selection
            == other.selection && self.dirty == other.dirty && opt_equal(&self.path, &other.path)
            && self.newline_style == other.newline_style
    }

    fn clamp_position(&self, position: Position) -> (out: Position)
        requires
            self.lines@.len() > 0,
        ensures
            out@ == clamped(self.model().lines, position@),
    {
        let max_line: usize = self.lines.len() - 1;
        let line: usize = if position.line < max_line {
            position.line
        } else {
            max_line
        };
        let max_column: usize = line_char_count(self.lines[line].as_str());
        let column: usize = if position.column < max_column {
            position.column
        } else {
            max_column
        };
        Position::new(line, column)
    }

    /// Removes the text between two positions and puts the cursor there.
    fn remove_range(&mut self, start: Position, end: Position)
        requires
            in_bounds(old(self).model().lines, start@),
            in_bounds(old(self).model().lines, end@),
            not_after(start@, end@),
            old(self).selection is None,
        ensures
            final(self).model() == range_removed(old(self).model(), start@, end@),
    {
        let ghost before = texts(self.lines@);
        let total: usize = self.lines.len();
        let prefix = slice(self.lines[start.line].as_str(), 0, start.column);
        let last_len: usize = line_char_count(self.lines[end.line].as_str());
        let suffix = slice(self.lines[end.line].as_str(), end.column, last_len);
        let mut merged = prefix;
        merged.append(suffix.as_str());
        let ghost line = merged@;
        let mut tail = self.lines.split_off(end.line + 1);
        self.lines.truncate(start.line);
        self.lines.push(merged);
        self.lines.append(&mut tail);
        self.cursor = start;
        self.dirty = true;
        proof {
            assert(before[start.line as int].subrange(0, start.column as int)
                =~= before[start.line as int].take(start.column as int));
            assert(before[end.line as int].subrange(end.column as int, last_len as int)
                =~= before[end.line as int].skip(end.column as int));
            assert(texts(self.lines@) =~= without_range(before, start@, end@));
        }
    }

    /// Drops the selection and removes the text under it; says whether there
    /// was any.
    fn delete_selection_if_needed(&mut self) -> (removed: bool)
        requires
            text_wf(old(self).model()),
        ensures
            final(self).model() == selection_removed(old(self).model()),
            text_wf(final(self).model()),
            final(self).selection is None,
            removed == covers_text(old(self).model()),
    {
        proof {
            lemma_selection_removed(self.model());
        }
        match self.selection {
            None => false,
            Some(selection) => {
                self.selection = None;
                let (start, end) = selection.normalized();
                if start == end {
                    self.cursor = start;
                    false
                } else {
                    self.remove_range(start, end);
                    true
                }
            },
        }
    }

    fn insert_char(&mut self, ch: char)
        requires
            text_wf(old(self).model()),
        ensures
            final(self).model() == char_inserted(old(self).model(), ch),
            text_wf(final(self).model()),
    {
        self.delete_selection_if_needed();
        let ghost u = self.model();
        let at: usize = self.cursor.line;
        let column: usize = self.cursor.column;
        let len: usize = line_char_count(self.lines[at].as_str());
        let mut line = slice(self.lines[at].as_str(), 0, column);
        let tail = slice(self.lines[at].as_str(), column, len);
        line.push(ch);
        line.append(tail.as_str());
        let new_len: usize = line_char_count(line.as_str());
        let ghost text = line@;
        self.lines[at] = line;
        self.cursor.column = column + 1;
        self.dirty = true;
        proof {
            assert(text =~= u.lines[at as int].insert(column as int, ch));
            assert(texts(self.lines@) =~= u.lines.update(at as int, text));
        }
    }

    fn insert_newline(&mut self)
        requires
            text_wf(old(self).model()),
        ensures
            final(self).model() == newline_inserted(old(self).model()),
            text_wf(final(self).model()),
    {
        self.delete_selection_if_needed();
        let ghost u = self.model();
        let at: usize = self.cursor.line;
        let column: usize = self.cursor.column;
        let len: usize = line_char_count(self.lines[at].as_str());
        let head = slice(self.lines[at].as_str(), 0, column);
        let tail = slice(self.lines[at].as_str(), column, len);
        let ghost head_text = head@;
        let ghost tail_text = tail@;
        let total: usize = self.lines.len();
        self.lines[at] = head;
        self.lines.insert(at + 1, tail);
        self.cursor.line = at + 1;
        self.cursor.column = 0;
        self.dirty = true;
        proof {
            assert(head_text =~= u.lines[at as int].take(column as int));
            assert(tail_text =~= u.lines[at as int].skip(column as int));
            assert(texts(self.lines@) =~= broken_at(u.lines, u.cursor));
        }
    }

    fn insert_text(&mut self, text: &str)
        requires
            text_wf(old(self).model()),
        ensures
            final(self).model() == text_inserted(old(self).model(), text@),
            text_wf(final(self).model()),
    {
        let chars = to_chars(text);
        let ghost start = self.model();
        let mut i: usize = 0;
        while i < chars.len()
            invariant
                chars@ == text@,
                i <= chars@.len(),
                text_wf(self.model()),
                self.model() == text_inserted(start, chars@.take(i as int)),
            decreases chars@.len() - i,
        {
            proof {
                assert(chars@.take(i + 1).drop_last() == chars@.take(i as int));
                assert(chars@.take(i + 1).last() == chars@[i as int]);
            }
            if chars[i] == '\n' {
                self.insert_newline();
            } else {
                self.insert_char(chars[i]);
            }
            i += 1;
        }
        proof {
            assert(chars@.take(i as int) == chars@);
        }
    }

    /// The position one character to the left.
    fn left(&self) -> (out: Position)
        requires
            text_wf(self.model()),
        ensures
            out@ == left_of(self.model().lines, self.model().cursor),
    {
        if self.cursor.column > 0 {
            Position::new(self.cursor.line, self.cursor.column - 1)
        } else if self.cursor.line > 0 {
            let line: usize = self.cursor.line - 1;
            Position::new(line, line_char_count(self.lines[line].as_str()))
        } else {
            self.cursor
        }
    }

    /// The position one character to the right.
    fn right(&self) -> (out: Position)
        requires
            text_wf(self.model()),
        ensures
            out@ == right_of(self.model().lines, self.model().cursor),
    {
        let line_len: usize = line_char_count(self.lines[self.cursor.line].as_str());
        let last: usize = self.lines.len() - 1;
        if self.cursor.column < line_len {
            Position::new(self.cursor.line, self.cursor.column + 1)
        } else if self.cursor.line < last {
            Position::new(self.cursor.line + 1, 0)
        } else {
            self.cursor
        }
    }

    fn erase_back(&mut self, to: Position)
        requires
            text_wf(old(self).model()),
            old(self).selection is None,
            in_bounds(old(self).model().lines, to@),
            not_after(to@, old(self).cursor@),
        ensures
            final(self).model() == erased_back(old(self).model(), to@),
            text_wf(final(self).model()),
    {
        if to != self.cursor {
            proof {
                lemma_without_range(self.model().lines, to@, self.cursor@);
            }
            self.remove_range(to, self.cursor);
        }
    }

    fn erase_forward(&mut self, to: Position)
        requires
            text_wf(old(self).model()),
            old(self).selection is None,
            in_bounds(old(self).model().lines, to@),
            not_after(old(self).cursor@, to@),
        ensures
            final(self).model() == erased_forward(old(self).model(), to@),
            text_wf(final(self).model()),
    {
        if to != self.cursor {
            proof {
                lemma_without_range(self.model().lines, self.cursor@, to@);
            }
            self.remove_range(self.cursor, to);
        }
    }

    fn backspace(&mut self)
        requires
            text_wf(old(self).model()),
        ensures
            final(self).model() == edited(old(self).model(), EditCommand::Backspace),
            text_wf(final(self).model()),
    {
        if self.delete_selection_if_needed() {
            return;
        }
        let to = self.left();
        self.erase_back(to);
    }

    fn delete(&mut self)
        requires
            text_wf(old(self).model()),
        ensures
            final(self).model() == edited(old(self).model(), EditCommand::Delete),
            text_wf(final(self).model()),
    {
        if self.delete_selection_if_needed() {
            return;
        }
        let to = self.right();
        self.erase_forward(to);
    }

    fn delete_word_backward(&mut self)
        requires
            text_wf(old(self).model()),
        ensures
            final(self).model() == edited(old(self).model(), EditCommand::DeleteWordBackward),
            text_wf(final(self).model()),
    {
        if self.delete_selection_if_needed() {
            return;
        }
        let to = self.previous_word_boundary(self.cursor);
        proof {
            lemma_word_before(self.model().lines, self.cursor@);
        }
        self.erase_back(to);
    }

    fn delete_word_forward(&mut self)
        requires
            text_wf(old(self).model()),
        ensures
            final(self).model() == edited(old(self).model(), EditCommand::DeleteWordForward),
            text_wf(final(self).model()),
    {
        if self.delete_selection_if_needed() {
            return;
        }
        let to = self.next_word_boundary(self.cursor);
        proof {
            lemma_word_after(self.model().lines, self.cursor@);
        }
        self.erase_forward(to);
    }

    fn delete_line(&mut self)
        requires
            text_wf(old(self).model()),
        ensures
            final(self).model() == line_deleted(old(self).model()),
            text_wf(final(self).model()),
    {
        if self.delete_selection_if_needed() {
            return;
        }
        let ghost u = self.model();
        if self.lines.len() == 1 {
            if !self.lines[0].as_str().is_empty() {
                self.lines[0] = String::new();
                self.cursor = Position::origin();
                self.dirty = true;
                proof {
                    assert(texts(self.lines@) =~= seq![Seq::<char>::empty()]);
                }
            }
            return;
        }
        let gone = self.lines.remove(self.cursor.line);
        if self.cursor.line >= self.lines.len() {
            self.cursor.line = self.lines.len() - 1;
        }
        self.cursor.column = 0;
        self.dirty = true;
        proof {
            assert(texts(self.lines@) =~= u.lines.remove(u.cursor.line));
        }
    }

    fn previous_word_boundary(&self, from: Position) -> (out: Position)
        requires
            in_bounds(self.model().lines, from@),
        ensures
            out@ == word_before(self.model().lines, from@),
    {
        let mut line: usize = from.line;
        let mut column: usize = from.column;
        loop
            invariant
                in_bounds(self.model().lines, Position { line, column }@),
                word_before(self.model().lines, Position { line, column }@) == word_before(
                    self.model().lines,
                    from@,
                ),
            decreases line,
        {
            if column > 0 {
                let new_column: usize = prev_word_boundary_in_line(
                    self.lines[line].as_str(),
                    column,
                );
                return Position::new(line, new_column);
            }
            if line == 0 {
                return Position::origin();
            }
            line -= 1;
            column = line_char_count(self.lines[line].as_str());
        }
    }

    fn next_word_boundary(&self, from: Position) -> (out: Position)
        requires
            in_bounds(self.model().lines, from@),
        ensures
            out@ == word_after(self.model().lines, from@),
    {
        let mut line: usize = from.line;
        let mut column: usize = from.column;
        loop
            invariant
                in_bounds(self.model().lines, Position { line, column }@),
                word_after(self.model().lines, Position { line, column }@) == word_after(
                    self.model().lines,
                    from@,
                ),
            decreases self.lines@.len() - line,
        {
            let line_len: usize = line_char_count(self.lines[line].as_str());
            if column < line_len {
                let new_column: usize = next_word_boundary_in_line(
                    self.lines[line].as_str(),
                    column,
                );
                return Position::new(line, new_column);
            }
            let last: usize = self.lines.len() - 1;
            if line >= last {
                return Position::new(line, line_len);
            }
            line += 1;
            column = 0;
        }
    }

    fn move_up(&mut self)
        requires
            text_wf(old(self).model()),
        ensures
            final(self).model() == moved(
                old(self).model(),
                above(old(self).model().lines, old(self).model().cursor),
            ),
            text_wf(final(self).model()),
    {
        if self.cursor.line == 0 {
            return;
        }
        let line: usize = self.cursor.line - 1;
        let max_column: usize = line_char_count(self.lines[line].as_str());
        self.cursor.line = line;
        if self.cursor.column > max_column {
            self.cursor.column = max_column;
        }
    }

    fn move_down(&mut self)
        requires
            text_wf(old(self).model()),
        ensures
            final(self).model() == moved(
                old(self).model(),
                below(old(self).model().lines, old(self).model().cursor),
            ),
            text_wf(final(self).model()),
    {
        let last: usize = self.lines.len() - 1;
        if self.cursor.line >= last {
            return;
        }
        let line: usize = self.cursor.line + 1;
        let max_column: usize = line_char_count(self.lines[line].as_str());
        self.cursor.line = line;
        if self.cursor.column > max_column {
            self.cursor.column = max_column;
        }
    }

    fn move_page_up(&mut self, lines: usize)
        requires
            text_wf(old(self).model()),
        ensures
            final(self).model() == moved(
                old(self).model(),
                far_above(old(self).model().lines, old(self).model().cursor, lines as nat),
            ),
            text_wf(final(self).model()),
    {
        let mut left: usize = lines;
        let ghost start = self.model();
        while left > 0 && self.cursor.line > 0
            invariant
                text_wf(self.model()),
                self.model() == moved(start, self.model().cursor),
                far_above(start.lines, self.model().cursor, left as nat) == far_above(
                    start.lines,
                    start.cursor,
                    lines as nat,
                ),
            decreases left,
        {
            self.move_up();
            left -= 1;
        }
        proof {
            lemma_far_above(start.lines, self.model().cursor, left as nat);
        }
    }

    fn move_page_down(&mut self, lines: usize)
        requires
            text_wf(old(self).model()),
        ensures
            final(self).model() == moved(
                old(self).model(),
                far_below(old(self).model().lines, old(self).model().cursor, lines as nat),
            ),
            text_wf(final(self).model()),
    {
        let mut left: usize = lines;
        let ghost start = self.model();
        let last: usize = self.lines.len() - 1;
        while left > 0 && self.cursor.line < last
            invariant
                last == start.lines.len() - 1,
                text_wf(self.model()),
                self.model() == moved(start, self.model().cursor),
                far_below(start.lines, self.model().cursor, left as nat) == far_below(
                    start.lines,
                    start.cursor,
                    lines as nat,
                ),
            decreases left,
        {
            self.move_down();
            left -= 1;
        }
        proof {
            lemma_far_below(start.lines, self.model().cursor, left as nat);
        }
    }

    /// Carries out an editing command on the text.
    fn edit(&mut self, command: &EditCommand)
        requires
            text_wf(old(self).model()),
            is_edit(*command),
        ensures
            final(self).model() == edited(old(self).model(), *command),
            text_wf(final(self).model()),
    {
        match command {
            EditCommand::InsertChar(ch) => self.insert_char(*ch),
            EditCommand::InsertText(text) => self.insert_text(text.as_str()),
            EditCommand::Newline => self.insert_newline(),
            EditCommand::Backspace => self.backspace(),
            EditCommand::Delete => self.delete(),
            EditCommand::DeleteWordBackward => self.delete_word_backward(),
            EditCommand::DeleteWordForward => self.delete_word_forward(),
            EditCommand::DeleteLine => self.delete_line(),
            _ => {},
        }
    }
}

/// The models of a list of snapshots.
spec fn models(v: Seq<Snapshot>) -> Seq<TextModel> {
    Seq::new(v.len(), |i: int| v[i].model())
}

fn copy_snapshots(v: &Vec<Snapshot>) -> (out: Vec<Snapshot>)
    ensures
        models(out@) == models(v@),
{
    let mut out: Vec<Snapshot> = Vec::new();
    for i in 0..v.len()
        invariant
            out@.len() == i,
            forall|j: int| 0 <= j < i ==> out@[j].model() == #[trigger] v@[j].model(),
    {
        out.push(v[i].copy());
    }
    assert(models(out@) =~= models(v@));
    out
}

/// Keeps the newest `limit` snapshots.
fn keep_newest(v: &mut Vec<Snapshot>, limit: usize)
    ensures
        models(final(v)@) == newest(models(old(v)@), limit as nat),
{
    let ghost before = v@;
    if v.len() > limit {
        let overflow: usize = v.len() - limit;
        let kept = v.split_off(overflow);
        *v = kept;
        assert(models(v@) =~= models(before).skip(overflow as int));
    }
}

/// The states before and after the present one.
#[derive(Debug)]
struct History {
    undo: Vec<Snapshot>,
    redo: Vec<Snapshot>,
    limit: usize,
}

impl History {
    fn new(limit: usize) -> (out: Self)
        ensures
            out.undo@.len() == 0,
            out.redo@.len() == 0,
            out.limit == if limit < 1 {
                1
            } else {
                limit
            },
    {
        History {
            undo: Vec::new(),
            redo: Vec::new(),
            limit: if limit < 1 {
                1
            } else {
                limit
            },
        }
    }

    fn copy(&self) -> (out: Self)
        ensures
            models(out.undo@) == models(self.undo@),
            models(out.redo@) == models(self.redo@),
            out.limit == self.limit,
    {
        History {
            undo: copy_snapshots(&self.undo),
            redo: copy_snapshots(&self.redo),
            limit: self.limit,
        }
    }

    fn push_undo(&mut self, snapshot: Snapshot)
        ensures
            models(final(self).undo@) == newest(
                models(old(self).undo@).push(snapshot.model()),
                old(self).limit as nat,
            ),
            final(self).redo == old(self).redo,
            final(self).limit == old(self).limit,
    {
        let ghost before = self.undo@;
        self.undo.push(snapshot);
        assert(models(self.undo@) =~= models(before).push(snapshot.model()));
        keep_newest(&mut self.undo, self.limit);
    }

    fn trim_to_limit(&mut self)
        ensures
            models(final(self).undo@) == newest(models(old(self).undo@), old(self).limit as nat),
            models(final(self).redo@) == newest(models(old(self).redo@), old(self).limit as nat),
            final(self).limit == old(self).limit,
    {
        keep_newest(&mut self.undo, self.limit);
        keep_newest(&mut self.redo, self.limit);
    }
}

/// What has to be written where to save a document.
#[derive(Debug)]
pub struct SaveRequest {
    pub path: String,
    pub text: String,
}

/// Why a document cannot be saved.
#[derive(Debug, Clone, Copy, PartialEq, Eq, Structural)]
pub enum SaveError {
    NoPath,
}

impl SaveError {
    /// The error in words.
    pub fn message(self) -> (out: &'static str)
        ensures
            out@ == "document has no associated path"@,
    {
        "document has no associated path"
    }
}

/// Mutable text document with cursor/selection state.
#[derive(Debug)]
pub struct Document {
    state: Snapshot,
    history: History,
}

impl View for Document {
    type V = DocModel;

    closed spec fn view(&self) -> DocModel {
        DocModel {
            text: self.state.model(),
            undo: models(self.history.undo@),
            redo: models(self.history.redo@),
            limit: self.history.limit as nat,
        }
    }
}

impl Clone for Document {
    fn clone(&self) -> (out: Self)
        ensures
            out@ == self@,
    {
        Document { state: self.state.copy(), history: self.history.copy() }
    }
}

impl Default for Document {
    fn default() -> (out: Self)
        ensures
            out@ == fresh_doc(seq![Seq::<char>::empty()], NewlineStyle::Lf, None),
            out.wf(),
    {
        Document::new()
    }
}

impl Document {
    /// Cursor, selection and history are consistent with the text.
    pub open spec fn wf(&self) -> bool {
        doc_wf(self@)
    }

    /// An empty document.
    pub fn new() -> (out: Self)
        ensures
            out@ == fresh_doc(seq![Seq::<char>::empty()], NewlineStyle::Lf, None),
            out.wf(),
    {
        proof {
            reveal_strlit("");
            assert(""@ =~= Seq::empty());
        }
        Document::from_normalized_text("", NewlineStyle::Lf, None)
    }

    /// A document that holds a text, whatever its line endings.
    pub fn from_text(text: &str) -> (out: Self)
        ensures
            out@ == fresh_doc(split(normalized(text@)), NewlineStyle::Lf, None),
            out.wf(),
    {
        let plain = normalize_newlines(text);
        Document::from_normalized_text(plain.as_str(), NewlineStyle::Lf, None)
    }

    /// The document of a file: its path and what was read from it.
    pub fn open_path(path: String, raw: &str) -> (out: Self)
        ensures
            out@ == fresh_doc(split(normalized(raw@)), shown_style(raw@), Some(path@)),
            out.wf(),
    {
        let newline_style = detect_newline_style(raw);
        let plain = normalize_newlines(raw);
        Document::from_normalized_text(plain.as_str(), newline_style, Some(path))
    }

    fn from_normalized_text(text: &str, newline_style: NewlineStyle, path: Option<String>) -> (out:
        Self)
        ensures
            out@ == fresh_doc(split(text@), newline_style, opt_text(path)),
            out.wf(),
    {
        let lines = split_lines(text);
        let out = Document {
            state: Snapshot {
                lines,
                cursor: Position::origin(),
                selection: None,
                dirty: false,
                path,
                newline_style,
            },
            history: History::new(DEFAULT_HISTORY_LIMIT),
        };
        proof {
            assert(out@.undo =~= Seq::empty());
            assert(out@.redo =~= Seq::empty());
        }
        out
    }

    /// The text with `\n` between the lines.
    pub fn to_text(&self) -> (out: String)
        ensures
            out@ == joined(self@.text.lines, seq!['\n']),
    {
        join_lines(&self.state.lines, NewlineStyle::Lf.delimiter())
    }

    /// The text as it is written to a file.
    pub fn serialized_text(&self) -> (out: String)
        ensures
            out@ == joined(self@.text.lines, delimiter_text(self@.text.newline_style)),
    {
        join_lines(&self.state.lines, self.state.newline_style.delimiter())
    }

    /// The number of lines.
    pub fn line_count(&self) -> (out: usize)
        ensures
            out == self@.text.lines.len(),
    {
        self.state.lines.len()
    }

    /// The line with the given index.
    pub fn line(&self, line: usize) -> (out: Option<&str>)
        ensures
            match out {
                Some(s) => line < self@.text.lines.len() && s@ == self@.text.lines[line as int],
                None => line >= self@.text.lines.len(),
            },
    {
        if line < self.state.lines.len() {
            Some(self.state.lines[line].as_str())
        } else {
            None
        }
    }

    /// All lines.
    pub fn lines(&self) -> (out: &[String])
        ensures
            texts(out@) == self@.text.lines,
    {
        self.state.lines.as_slice()
    }

    /// Where the cursor stands.
    pub fn cursor(&self) -> (out: Position)
        ensures
            out@ == self@.text.cursor,
    {
        self.state.cursor
    }

    /// Moves the cursor to the nearest position in the text.
    pub fn set_cursor(&mut self, position: Position)
        requires
            old(self).wf(),
        ensures
            final(self)@ == (DocModel {
                text: moved(old(self)@.text, clamped(old(self)@.text.lines, position@)),
                ..old(self)@
            }),
            final(self).wf(),
    {
        proof {
            lemma_clamped(self@.text.lines, position@);
        }
        self.state.cursor = self.state.clamp_position(position);
    }

    /// The selection.
    pub fn selection(&self) -> (out: Option<Selection>)
        ensures
            opt_sel(out) == self@.text.selection,
    {
        self.state.selection
    }

    /// Selects a span, with both endpoints moved into the text.
    pub fn set_selection(&mut self, selection: Option<Selection>)
        requires
            old(self).wf(),
        ensures
            final(self)@ == (DocModel {
                text: TextModel {
                    selection: clamped_sel(old(self)@.text.lines, opt_sel(selection)),
                    ..old(self)@.text
                },
                ..old(self)@
            }),
            final(self).wf(),
    {
        match selection {
            Some(sel) => {
                proof {
                    lemma_clamped(self@.text.lines, sel.anchor@);
                    lemma_clamped(self@.text.lines, sel.active@);
                }
                let anchor = self.state.clamp_position(sel.anchor);
                let active = self.state.clamp_position(sel.active);
                self.state.selection = Some(Selection::new(anchor, active));
            },
            None => {
                self.state.selection = None;
            },
        }
    }

    /// Drops the selection.
    pub fn clear_selection(&mut self)
        requires
            old(self).wf(),
        ensures
            final(self)@ == (DocModel {
                text: TextModel { selection: None, ..old(self)@.text },
                ..old(self)@
            }),
            final(self).wf(),
    {
        self.state.selection = None;
    }

    /// The file that the document belongs to.
    pub fn path(&self) -> (out: Option<&str>)
        ensures
            match out {
                Some(s) => self@.text.path == Some(s@),
                None => self@.text.path is None,
            },
    {
        match &self.state.path {
            Some(path) => Some(path.as_str()),
            None => None,
        }
    }

    /// Names the file that the document belongs to.
    pub fn set_path(&mut self, path: Option<String>)
        requires
            old(self).wf(),
        ensures
            final(self)@ == (DocModel {
                text: TextModel { path: opt_text(path), ..old(self)@.text },
                ..old(self)@
            }),
            final(self).wf(),
    {
        self.state.path = path;
    }

    /// The line ending that the document is written with.
    pub fn newline_style(&self) -> (out: NewlineStyle)
        ensures
            out == self@.text.newline_style,
    {
        self.state.newline_style
    }

    /// Chooses the line ending; another one than before is a change to save.
    pub fn set_newline_style(&mut self, newline_style: NewlineStyle)
        requires
            old(self).wf(),
        ensures
            final(self)@ == (DocModel {
                text: TextModel {
                    newline_style,
                    dirty: old(self)@.text.dirty || old(self)@.text.newline_style != newline_style,
                    ..old(self)@.text
                },
                ..old(self)@
            }),
            final(self).wf(),
    {
        if self.state.newline_style != newline_style {
            self.state.newline_style = newline_style;
            self.state.dirty = true;
        }
    }

    /// How many changes can be undone at most.
    pub fn history_limit(&self) -> (out: usize)
        ensures
            out == self@.limit,
    {
        self.history.limit
    }

    /// Limits the history; at least one change is always remembered.
    pub fn set_history_limit(&mut self, limit: usize)
        requires
            old(self).wf(),
        ensures
            ({
                let kept: nat = if limit < 1 {
                    1
                } else {
                    limit as nat
                };
                final(self)@ == (DocModel {
                    undo: newest(old(self)@.undo, kept),
                    redo: newest(old(self)@.redo, kept),
                    limit: kept,
                    ..old(self)@
                })
            }),
            final(self).wf(),
    {
        self.history.limit = if limit < 1 {
            1
        } else {
            limit
        };
        proof {
            lemma_newest(self@.undo, self.history.limit as nat);
            lemma_newest(self@.redo, self.history.limit as nat);
        }
        self.history.trim_to_limit();
    }

    /// Whether there are changes to save.
    pub fn is_dirty(&self) -> (out: bool)
        ensures
            out == self@.text.dirty,
    {
        self.state.dirty
    }

    /// States that there is nothing to save.
    pub fn mark_clean(&mut self)
        requires
            old(self).wf(),
        ensures
            final(self)@ == (DocModel {
                text: TextModel { dirty: false, ..old(self)@.text },
                ..old(self)@
            }),
            final(self).wf(),
    {
        self.state.dirty = false;
    }

    /// States that there are changes to save.
    pub fn mark_dirty(&mut self)
        requires
            old(self).wf(),
        ensures
            final(self)@ == (DocModel {
                text: TextModel { dirty: true, ..old(self)@.text },
                ..old(self)@
            }),
            final(self).wf(),
    {
        self.state.dirty = true;
    }

    /// What has to be written to save the document to its own file.
    pub fn save(&self) -> (out: Result<SaveRequest, SaveError>)
        ensures
            match out {
                Ok(request) => self@.text.path == Some(request.path@) && request.text@ == joined(
                    self@.text.lines,
                    delimiter_text(self@.text.newline_style),
                ),
                Err(error) => error is NoPath && self@.text.path is None,
            },
    {
        match copy_opt(&self.state.path) {
            Some(path) => Ok(self.save_as(path)),
            None => Err(SaveError::NoPath),
        }
    }

    /// What has to be written to save the document to a given file.
    pub fn save_as(&self, path: String) -> (out: SaveRequest)
        ensures
            out.path@ == path@,
            out.text@ == joined(self@.text.lines, delimiter_text(self@.text.newline_style)),
    {
        SaveRequest { path, text: self.serialized_text() }
    }

    /// Takes note that the document was written to a file.
    pub fn mark_saved(&mut self, path: String)
        requires
            old(self).wf(),
        ensures
            final(self)@ == (DocModel {
                text: TextModel { path: Some(path@), dirty: false, ..old(self)@.text },
                ..old(self)@
            }),
            final(self).wf(),
    {
        self.state.path = Some(path);
        self.mark_clean();
    }

    /// Takes back the last change; says whether there was one.
    pub fn undo(&mut self) -> (changed: bool)
        requires
            old(self).wf(),
        ensures
            final(self)@ == undone(old(self)@),
            changed == (old(self)@.undo.len() > 0),
            final(self).wf(),
    {
        let ghost before = self@;
        match self.history.undo.pop() {
            None => false,
            Some(previous) => {
                let current = self.state.copy();
                let ghost redo = models(self.history.redo@);
                self.history.redo.push(current);
                self.state = previous;
                proof {
                    assert(self@.undo =~= before.undo.drop_last());
                    assert(self@.redo =~= before.redo.push(before.text));
                    lemma_popped(before.undo);
                    lemma_pushed(before.redo, before.text);
                }
                true
            },
        }
    }

    /// Makes the last change again that was taken back; says whether there was
    /// one.
    pub fn redo(&mut self) -> (changed: bool)
        requires
            old(self).wf(),
        ensures
            final(self)@ == redone(old(self)@),
            changed == (old(self)@.redo.len() > 0),
            final(self).wf(),
    {
        let ghost before = self@;
        match self.history.redo.pop() {
            None => false,
            Some(next) => {
                let current = self.state.copy();
                self.history.push_undo(current);
                self.state = next;
                proof {
                    assert(self@.redo =~= before.redo.drop_last());
                    lemma_popped(before.redo);
                    lemma_pushed(before.undo, before.text);
                    lemma_newest(before.undo.push(before.text), before.limit);
                }
                true
            },
        }
    }

    /// Carries out a command.
    pub fn apply(&mut self, command: EditCommand)
        requires
            old(self).wf(),
        ensures
            final(self)@ == applied(old(self)@, command),
            final(self).wf(),
    {
        match command {
            EditCommand::MoveLeft => {
                self.state.cursor = self.state.left();
            },
            EditCommand::MoveRight => {
                self.state.cursor = self.state.right();
            },
            EditCommand::MoveWordLeft => {
                proof {
                    lemma_word_before(self@.text.lines, self@.text.cursor);
                }
                self.state.cursor = self.state.previous_word_boundary(self.state.cursor);
            },
            EditCommand::MoveWordRight => {
                proof {
                    lemma_word_after(self@.text.lines, self@.text.cursor);
                }
                self.state.cursor = self.state.next_word_boundary(self.state.cursor);
            },
            EditCommand::MoveUp => self.state.move_up(),
            EditCommand::MoveDown => self.state.move_down(),
            EditCommand::MovePageUp(lines) => self.state.move_page_up(lines),
            EditCommand::MovePageDown(lines) => self.state.move_page_down(lines),
            EditCommand::MoveLineStart => {
                self.state.cursor.column = 0;
            },
            EditCommand::MoveLineEnd => {
                self.state.cursor.column = line_char_count(
                    self.state.lines[self.state.cursor.line].as_str(),
                );
            },
            EditCommand::Undo => {
                self.undo();
            },
            EditCommand::Redo => {
                self.redo();
            },
            _ => self.apply_edit(command),
        }
    }

    /// Carries out an editing command and remembers the state before it, if
    /// the command changed anything.
    #[verifier::rlimit(40)]
    fn apply_edit(&mut self, command: EditCommand)
        requires
            old(self).wf(),
            is_edit(command),
        ensures
            final(self)@ == recorded(old(self)@, edited(old(self)@.text, command)),
            final(self).wf(),
    {
        let ghost start = self@;
        let before = self.state.copy();
        self.state.edit(&command);
        if !self.state.same_as(&before) {
            self.history.push_undo(before);
            self.history.redo.clear();
            proof {
                assert(self@.redo =~= Seq::empty());
                lemma_pushed(start.undo, start.text);
                lemma_newest(start.undo.push(start.text), start.limit);
            }
        }
    }
}

} // verus!

//! The mathematical model of a document: what each command does to it.
use crate::command::EditCommand;
#[allow(unused_imports)]
use crate::cursor::{not_after, start_pos, Pos};
#[allow(unused_imports)]
use crate::newline::NewlineStyle;
#[allow(unused_imports)]
use crate::selection::{sel_end, sel_start, Sel};
#[allow(unused_imports)]
use crate::word::{law_word_left_moves, law_word_right_moves, within, word_left, word_right};
use vstd::prelude::*;

verus! {

/// The text of a document with its cursor, selection and file data.
#[verifier::ext_equal]
pub struct TextModel {
    pub lines: Seq<Seq<char>>,
    pub cursor: Pos,
    pub selection: Option<Sel>,
    pub dirty: bool,
    pub path: Option<Seq<char>>,
    pub newline_style: NewlineStyle,
}

/// A document: its present state and the states that undo and redo lead to.
/// The last element of each list is the next one to be restored.
#[verifier::ext_equal]
pub struct DocModel {
    pub text: TextModel,
    pub undo: Seq<TextModel>,
    pub redo: Seq<TextModel>,
    pub limit: nat,
}

/// The position lies in the text: on a line, not past its end.
pub open spec fn in_bounds(lines: Seq<Seq<char>>, p: Pos) -> bool {
    0 <= p.line < lines.len() && 0 <= p.column <= lines[p.line].len()
}

/// There is at least one line, and cursor and selection lie in the text.
pub open spec fn text_wf(t: TextModel) -> bool {
    &&& t.lines.len() > 0
    &&& in_bounds(t.lines, t.cursor)
    &&& t.selection matches Some(s) ==> in_bounds(t.lines, s.anchor) && in_bounds(t.lines, s.active)
}

/// All states of the list are well formed.
pub open spec fn texts_wf(states: Seq<TextModel>) -> bool {
    forall|i: int| 0 <= i < states.len() ==> text_wf(#[trigger] states[i])
}

/// Every state is well formed, and undo remembers at most `limit` states.
pub open spec fn doc_wf(d: DocModel) -> bool {
    &&& text_wf(d.text)
    &&& texts_wf(d.undo)
    &&& texts_wf(d.redo)
    &&& 1 <= d.limit
    &&& d.undo.len() <= d.limit
}

/// The nearest position in the text: the line first, then the column.
pub open spec fn clamped(lines: Seq<Seq<char>>, p: Pos) -> Pos {
    let line = if p.line < lines.len() {
        p.line
    } else {
        lines.len() - 1
    };
    Pos { line, column: within(lines[line], p.column) }
}

/// A selection with both endpoints moved into the text.
pub open spec fn clamped_sel(lines: Seq<Seq<char>>, s: Option<Sel>) -> Option<Sel> {
    match s {
        Some(sel) => Some(
            Sel { anchor: clamped(lines, sel.anchor), active: clamped(lines, sel.active) },
        ),
        None => None,
    }
}

/// The last position of the text.
pub open spec fn end_pos(lines: Seq<Seq<char>>) -> Pos {
    Pos { line: lines.len() - 1, column: lines.last().len() as int }
}

/// The text without what stands between `a` and `b`: the start of the line of
/// `a` and the end of the line of `b` become one line.
pub open spec fn without_range(lines: Seq<Seq<char>>, a: Pos, b: Pos) -> Seq<Seq<char>> {
    lines.take(a.line).push(lines[a.line].take(a.column) + lines[b.line].skip(b.column))
        + lines.skip(b.line + 1)
}

/// The text with the line of `p` cut in two at `p`.
pub open spec fn broken_at(lines: Seq<Seq<char>>, p: Pos) -> Seq<Seq<char>> {
    lines.take(p.line).push(lines[p.line].take(p.column)).push(lines[p.line].skip(p.column))
        + lines.skip(p.line + 1)
}

/// One character to the left, crossing to the end of the line above.
pub open spec fn left_of(lines: Seq<Seq<char>>, p: Pos) -> Pos {
    if p.column > 0 {
        Pos { column: p.column - 1, ..p }
    } else if p.line > 0 {
        Pos { line: p.line - 1, column: lines[p.line - 1].len() as int }
    } else {
        p
    }
}

/// One character to the right, crossing to the start of the line below.
pub open spec fn right_of(lines: Seq<Seq<char>>, p: Pos) -> Pos {
    if p.column < lines[p.line].len() {
        Pos { column: p.column + 1, ..p }
    } else if p.line + 1 < lines.len() {
        Pos { line: p.line + 1, column: 0 }
    } else {
        p
    }
}

/// One line up, not past the end of that line.
pub open spec fn above(lines: Seq<Seq<char>>, p: Pos) -> Pos {
    if p.line > 0 {
        Pos { line: p.line - 1, column: within(lines[p.line - 1], p.column) }
    } else {
        p
    }
}

/// One line down, not past the end of that line.
pub open spec fn below(lines: Seq<Seq<char>>, p: Pos) -> Pos {
    if p.line + 1 < lines.len() {
        Pos { line: p.line + 1, column: within(lines[p.line + 1], p.column) }
    } else {
        p
    }
}

/// `n` lines up.
pub open spec fn far_above(lines: Seq<Seq<char>>, p: Pos, n: nat) -> Pos
    decreases n,
{
    if n == 0 {
        p
    } else {
        far_above(lines, above(lines, p), (n - 1) as nat)
    }
}

/// `n` lines down.
pub open spec fn far_below(lines: Seq<Seq<char>>, p: Pos, n: nat) -> Pos
    decreases n,
{
    if n == 0 {
        p
    } else {
        far_below(lines, below(lines, p), (n - 1) as nat)
    }
}

/// One word to the left; at the start of a line, from the end of the nearest
/// line above that is not empty.
pub open spec fn word_before(lines: Seq<Seq<char>>, p: Pos) -> Pos
    decreases p.line,
{
    if p.column > 0 {
        Pos { column: word_left(lines[p.line], p.column), ..p }
    } else if p.line <= 0 {
        start_pos()
    } else {
        word_before(lines, Pos { line: p.line - 1, column: lines[p.line - 1].len() as int })
    }
}

/// One word to the right; at the end of a line, from the start of the nearest
/// line below that is not empty, or to the end of the text.
pub open spec fn word_after(lines: Seq<Seq<char>>, p: Pos) -> Pos
    decreases lines.len() - p.line,
{
    if p.column < lines[p.line].len() {
        Pos { column: word_right(lines[p.line], p.column), ..p }
    } else if p.line + 1 >= lines.len() {
        Pos { column: lines[p.line].len() as int, ..p }
    } else {
        word_after(lines, Pos { line: p.line + 1, column: 0 })
    }
}

/// The text between `a` and `b` is removed and the cursor stands there.
pub open spec fn range_removed(t: TextModel, a: Pos, b: Pos) -> TextModel {
    TextModel {
        lines: without_range(t.lines, a, b),
        cursor: a,
        selection: None,
        dirty: true,
        ..t
    }
}

/// Whether the selection covers any text.
pub open spec fn covers_text(t: TextModel) -> bool {
    t.selection matches Some(s) && s.anchor != s.active
}

/// The selection is dropped and the text under it removed; a selection that
/// covers nothing only moves the cursor to it.
pub open spec fn selection_removed(t: TextModel) -> TextModel {
    match t.selection {
        None => t,
        Some(s) => if s.anchor == s.active {
            TextModel { cursor: s.anchor, selection: None, ..t }
        } else {
            range_removed(t, sel_start(s), sel_end(s))
        },
    }
}

/// A character typed at the cursor, in place of the selection.
pub open spec fn char_inserted(t: TextModel, c: char) -> TextModel {
    let u = selection_removed(t);
    TextModel {
        lines: u.lines.update(u.cursor.line, u.lines[u.cursor.line].insert(u.cursor.column, c)),
        cursor: Pos { column: u.cursor.column + 1, ..u.cursor },
        dirty: true,
        ..u
    }
}

/// The line broken at the cursor, in place of the selection.
pub open spec fn newline_inserted(t: TextModel) -> TextModel {
    let u = selection_removed(t);
    TextModel {
        lines: broken_at(u.lines, u.cursor),
        cursor: Pos { line: u.cursor.line + 1, column: 0 },
        dirty: true,
        ..u
    }
}

/// A text typed character by character; `\n` breaks the line.
pub open spec fn text_inserted(t: TextModel, s: Seq<char>) -> TextModel
    decreases s.len(),
{
    if s.len() == 0 {
        t
    } else {
        let u = text_inserted(t, s.drop_last());
        if s.last() == '\n' {
            newline_inserted(u)
        } else {
            char_inserted(u, s.last())
        }
    }
}

/// The selection is removed; where it covered nothing, the text from the
/// cursor back to `to` is removed instead.
pub open spec fn erased_back(t: TextModel, to: Pos) -> TextModel {
    let u = selection_removed(t);
    if covers_text(t) || to == u.cursor {
        u
    } else {
        range_removed(u, to, u.cursor)
    }
}

/// The selection is removed; where it covered nothing, the text from the
/// cursor on to `to` is removed instead.
pub open spec fn erased_forward(t: TextModel, to: Pos) -> TextModel {
    let u = selection_removed(t);
    if covers_text(t) || to == u.cursor {
        u
    } else {
        range_removed(u, u.cursor, to)
    }
}

/// The selection is removed; where it covered nothing, the line of the cursor
/// is removed instead. The last line that is left is emptied.
pub open spec fn line_deleted(t: TextModel) -> TextModel {
    let u = selection_removed(t);
    if covers_text(t) {
        u
    } else if u.lines.len() == 1 {
        if u.lines[0].len() == 0 {
            u
        } else {
            TextModel {
                lines: seq![Seq::<char>::empty()],
                cursor: start_pos(),
                dirty: true,
                ..u
            }
        }
    } else {
        TextModel {
            lines: u.lines.remove(u.cursor.line),
            cursor: Pos {
                line: if u.cursor.line < u.lines.len() - 1 {
                    u.cursor.line
                } else {
                    u.lines.len() - 2
                },
                column: 0,
            },
            dirty: true,
            ..u
        }
    }
}

/// The cursor moved, and nothing else.
pub open spec fn moved(t: TextModel, to: Pos) -> TextModel {
    TextModel { cursor: to, ..t }
}

/// The newest `limit` states of a list.
pub open spec fn newest(states: Seq<TextModel>, limit: nat) -> Seq<TextModel> {
    if states.len() > limit {
        states.skip(states.len() - limit)
    } else {
        states
    }
}

/// The text replaced by an edit. A real change can be undone and ends what
/// could be redone; an edit without effect leaves the history alone.
pub open spec fn recorded(d: DocModel, t: TextModel) -> DocModel {
    if t == d.text {
        d
    } else {
        DocModel {
            text: t,
            undo: newest(d.undo.push(d.text), d.limit),
            redo: Seq::empty(),
            ..d
        }
    }
}

/// The last change taken back.
pub open spec fn undone(d: DocModel) -> DocModel {
    if d.undo.len() == 0 {
        d
    } else {
        DocModel {
            text: d.undo.last(),
            undo: d.undo.drop_last(),
            redo: d.redo.push(d.text),
            ..d
        }
    }
}

/// The last change that was taken back, made again.
pub open spec fn redone(d: DocModel) -> DocModel {
    if d.redo.len() == 0 {
        d
    } else {
        DocModel {
            text: d.redo.last(),
            undo: newest(d.undo.push(d.text), d.limit),
            redo: d.redo.drop_last(),
            ..d
        }
    }
}

/// The commands that change the text, and so go through the history.
pub open spec fn is_edit(command: EditCommand) -> bool {
    match command {
        EditCommand::InsertChar(_) => true,
        EditCommand::InsertText(_) => true,
        EditCommand::Newline => true,
        EditCommand::Backspace => true,
        EditCommand::Delete => true,
        EditCommand::DeleteWordBackward => true,
        EditCommand::DeleteWordForward => true,
        EditCommand::DeleteLine => true,
        _ => false,
    }
}

/// What an editing command makes of the text.
pub open spec fn edited(t: TextModel, command: EditCommand) -> TextModel {
    let u = selection_removed(t);
    match command {
        EditCommand::InsertChar(c) => char_inserted(t, c),
        EditCommand::InsertText(s) => text_inserted(t, s@),
        EditCommand::Newline => newline_inserted(t),
        EditCommand::Backspace => erased_back(t, left_of(u.lines, u.cursor)),
        EditCommand::Delete => erased_forward(t, right_of(u.lines, u.cursor)),
        EditCommand::DeleteWordBackward => erased_back(t, word_before(u.lines, u.cursor)),
        EditCommand::DeleteWordForward => erased_forward(t, word_after(u.lines, u.cursor)),
        EditCommand::DeleteLine => line_deleted(t),
        _ => t,
    }
}

/// Where a moving command takes the cursor.
pub open spec fn destination(t: TextModel, command: EditCommand) -> Pos {
    match command {
        EditCommand::MoveLeft => left_of(t.lines, t.cursor),
        EditCommand::MoveRight => right_of(t.lines, t.cursor),
        EditCommand::MoveWordLeft => word_before(t.lines, t.cursor),
        EditCommand::MoveWordRight => word_after(t.lines, t.cursor),
        EditCommand::MoveUp => above(t.lines, t.cursor),
        EditCommand::MoveDown => below(t.lines, t.cursor),
        EditCommand::MovePageUp(n) => far_above(t.lines, t.cursor, n as nat),
        EditCommand::MovePageDown(n) => far_below(t.lines, t.cursor, n as nat),
        EditCommand::MoveLineStart => Pos { column: 0, ..t.cursor },
        EditCommand::MoveLineEnd => Pos {
            column: t.lines[t.cursor.line].len() as int,
            ..t.cursor
        },
        _ => t.cursor,
    }
}

/// What a command makes of a document.
pub open spec fn applied(d: DocModel, command: EditCommand) -> DocModel {
    match command {
        EditCommand::Undo => undone(d),
        EditCommand::Redo => redone(d),
        _ => if is_edit(command) {
            recorded(d, edited(d.text, command))
        } else {
            DocModel { text: moved(d.text, destination(d.text, command)), ..d }
        },
    }
}

/// A new document around the given lines: clean, cursor at the start, no
/// history.
pub open spec fn fresh_doc(
    lines: Seq<Seq<char>>,
    style: NewlineStyle,
    path: Option<Seq<char>>,
) -> DocModel {
    DocModel {
        text: TextModel {
            lines,
            cursor: start_pos(),
            selection: None,
            dirty: false,
            path,
            newline_style: style,
        },
        undo: Seq::empty(),
        redo: Seq::empty(),
        limit: 512,
    }
}

// ---------------------------------------------------------------------------
// Everything stays in bounds.

pub proof fn lemma_clamped(lines: Seq<Seq<char>>, p: Pos)
    requires
        lines.len() > 0,
        0 <= p.line,
        0 <= p.column,
    ensures
        in_bounds(lines, clamped(lines, p)),
        in_bounds(lines, p) ==> clamped(lines, p) == p,
{
}

pub proof fn lemma_without_range(lines: Seq<Seq<char>>, a: Pos, b: Pos)
    requires
        in_bounds(lines, a),
        in_bounds(lines, b),
        not_after(a, b),
    ensures
        in_bounds(without_range(lines, a, b), a),
        without_range(lines, a, b).len() == lines.len() - (b.line - a.line),
        without_range(lines, a, b)[a.line] == lines[a.line].take(a.column) + lines[b.line].skip(
            b.column,
        ),
{
}

pub proof fn lemma_selection_removed(t: TextModel)
    requires
        text_wf(t),
    ensures
        text_wf(selection_removed(t)),
        selection_removed(t).selection is None,
{
    if let Some(s) = t.selection {
        if s.anchor != s.active {
            lemma_without_range(t.lines, sel_start(s), sel_end(s));
        }
    }
}

pub proof fn lemma_word_before(lines: Seq<Seq<char>>, p: Pos)
    requires
        in_bounds(lines, p),
    ensures
        in_bounds(lines, word_before(lines, p)),
        not_after(word_before(lines, p), p),
    decreases p.line,
{
    if p.column > 0 {
        law_word_left_moves(lines[p.line], p.column);
    } else if p.line > 0 {
        lemma_word_before(
            lines,
            Pos { line: p.line - 1, column: lines[p.line - 1].len() as int },
        );
    }
}

pub proof fn lemma_word_after(lines: Seq<Seq<char>>, p: Pos)
    requires
        in_bounds(lines, p),
    ensures
        in_bounds(lines, word_after(lines, p)),
        not_after(p, word_after(lines, p)),
    decreases lines.len() - p.line,
{
    if p.column < lines[p.line].len() {
        law_word_right_moves(lines[p.line], p.column);
    } else if p.line + 1 < lines.len() {
        lemma_word_after(lines, Pos { line: p.line + 1, column: 0 });
    }
}

pub proof fn lemma_far_above(lines: Seq<Seq<char>>, p: Pos, n: nat)
    requires
        in_bounds(lines, p),
    ensures
        in_bounds(lines, far_above(lines, p, n)),
        p.line == 0 ==> far_above(lines, p, n) == p,
    decreases n,
{
    if n > 0 {
        lemma_far_above(lines, above(lines, p), (n - 1) as nat);
    }
}

pub proof fn lemma_far_below(lines: Seq<Seq<char>>, p: Pos, n: nat)
    requires
        in_bounds(lines, p),
    ensures
        in_bounds(lines, far_below(lines, p, n)),
        p.line + 1 == lines.len() ==> far_below(lines, p, n) == p,
    decreases n,
{
    if n > 0 {
        lemma_far_below(lines, below(lines, p), (n - 1) as nat);
    }
}

pub proof fn lemma_text_inserted(t: TextModel, s: Seq<char>)
    requires
        text_wf(t),
    ensures
        text_wf(text_inserted(t, s)),
    decreases s.len(),
{
    if s.len() > 0 {
        lemma_text_inserted(t, s.drop_last());
        lemma_selection_removed(text_inserted(t, s.drop_last()));
    }
}

/// An editing command leaves the text well formed.
pub proof fn law_edits_stay_in_bounds(t: TextModel, command: EditCommand)
    requires
        text_wf(t),
    ensures
        text_wf(edited(t, command)),
{
    let u = selection_removed(t);
    lemma_selection_removed(t);
    lemma_word_before(u.lines, u.cursor);
    lemma_word_after(u.lines, u.cursor);
    match command {
        EditCommand::InsertText(s) => lemma_text_inserted(t, s@),
        EditCommand::Backspace => lemma_without_range(u.lines, left_of(u.lines, u.cursor), u.cursor),
        EditCommand::Delete => lemma_without_range(
            u.lines,
            u.cursor,
            right_of(u.lines, u.cursor),
        ),
        EditCommand::DeleteWordBackward => lemma_without_range(
            u.lines,
            word_before(u.lines, u.cursor),
            u.cursor,
        ),
        EditCommand::DeleteWordForward => lemma_without_range(
            u.lines,
            u.cursor,
            word_after(u.lines, u.cursor),
        ),
        _ => {},
    }
}

/// A moving command takes the cursor to a position in the text.
pub proof fn law_moves_stay_in_bounds(t: TextModel, command: EditCommand)
    requires
        text_wf(t),
    ensures
        in_bounds(t.lines, destination(t, command)),
{
    lemma_word_before(t.lines, t.cursor);
    lemma_word_after(t.lines, t.cursor);
    match command {
        EditCommand::MovePageUp(n) => lemma_far_above(t.lines, t.cursor, n as nat),
        EditCommand::MovePageDown(n) => lemma_far_below(t.lines, t.cursor, n as nat),
        _ => {},
    }
}

pub proof fn lemma_newest(states: Seq<TextModel>, limit: nat)
    requires
        texts_wf(states),
    ensures
        texts_wf(newest(states, limit)),
        newest(states, limit).len() <= limit,
{
    let out = newest(states, limit);
    assert forall|i: int| 0 <= i < out.len() implies text_wf(#[trigger] out[i]) by {
        if states.len() > limit {
            assert(out[i] == states[i + (states.len() - limit)]);
        }
    }
}

pub proof fn lemma_pushed(states: Seq<TextModel>, t: TextModel)
    requires
        texts_wf(states),
        text_wf(t),
    ensures
        texts_wf(states.push(t)),
{
    let out = states.push(t);
    assert forall|i: int| 0 <= i < out.len() implies text_wf(#[trigger] out[i]) by {
        if i < states.len() {
            assert(out[i] == states[i]);
        }
    }
}

pub proof fn lemma_popped(states: Seq<TextModel>)
    requires
        texts_wf(states),
        states.len() > 0,
    ensures
        texts_wf(states.drop_last()),
        text_wf(states.last()),
{
    let out = states.drop_last();
    assert forall|i: int| 0 <= i < out.len() implies text_wf(#[trigger] out[i]) by {
        assert(out[i] == states[i]);
    }
}

/// Every command keeps the document well formed: cursor, selection and all
/// remembered states stay in bounds, and the history stays within its limit.
pub proof fn law_commands_keep_documents_well_formed(d: DocModel, command: EditCommand)
    requires
        doc_wf(d),
    ensures
        doc_wf(applied(d, command)),
{
    lemma_pushed(d.undo, d.text);
    lemma_pushed(d.redo, d.text);
    lemma_newest(d.undo.push(d.text), d.limit);
    if is_edit(command) {
        law_edits_stay_in_bounds(d.text, command);
    } else {
        law_moves_stay_in_bounds(d.text, command);
    }
    if d.undo.len() > 0 {
        lemma_popped(d.undo);
    }
    if d.redo.len() > 0 {
        lemma_popped(d.redo);
    }
}

} // verus!

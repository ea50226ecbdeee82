//! What holds of documents whatever the commands: editing seen as a change of
//! one long text, taking back and making again, saving and opening.
use crate::command::EditCommand;
#[allow(unused_imports)]
use crate::cursor::{not_after, start_pos, Pos};
#[allow(unused_imports)]
use crate::model::{
    applied, char_inserted, covers_text, doc_wf, edited, end_pos, far_above, far_below, fresh_doc,
    in_bounds, is_edit, law_commands_keep_documents_well_formed, left_of, lemma_selection_removed,
    lemma_text_inserted, lemma_without_range, lemma_word_after, lemma_word_before, moved, newest,
    newline_inserted, range_removed, redone, right_of, selection_removed, text_inserted, text_wf,
    undone, without_range, word_after, word_before, DocModel, TextModel,
};
#[allow(unused_imports)]
use crate::newline::{
    delimiter_text, joined, law_reading_undoes_writing, law_style_is_recognized, lemma_joined_front,
    lemma_joined_glue, normalized, plain_lines, shown_style, split, NewlineStyle,
};
#[allow(unused_imports)]
use crate::selection::{sel_end, sel_start, Sel};
#[allow(unused_imports)]
use crate::word::{law_word_left_moves, law_word_right_moves, word_left, word_right};
use vstd::prelude::*;

verus! {

/// The document as one text.
pub open spec fn flat(lines: Seq<Seq<char>>) -> Seq<char> {
    joined(lines, seq!['\n'])
}

/// The text before a position.
pub open spec fn text_before(lines: Seq<Seq<char>>, p: Pos) -> Seq<char> {
    flat(lines.take(p.line).push(lines[p.line].take(p.column)))
}

/// The text after a position.
pub open spec fn text_after(lines: Seq<Seq<char>>, p: Pos) -> Seq<char> {
    flat(seq![lines[p.line].skip(p.column)] + lines.skip(p.line + 1))
}

/// The text between two positions.
pub open spec fn text_between(lines: Seq<Seq<char>>, a: Pos, b: Pos) -> Seq<char> {
    if a.line == b.line {
        lines[a.line].subrange(a.column, b.column)
    } else {
        flat(
            (seq![lines[a.line].skip(a.column)] + lines.subrange(a.line + 1, b.line)).push(
                lines[b.line].take(b.column),
            ),
        )
    }
}

/// A position cuts the text in two.
pub proof fn law_position_cuts_text(lines: Seq<Seq<char>>, p: Pos)
    requires
        in_bounds(lines, p),
    ensures
        flat(lines) == text_before(lines, p) + text_after(lines, p),
{
    let line = lines[p.line];
    lemma_joined_glue(
        lines.take(p.line),
        line.take(p.column),
        line.skip(p.column),
        lines.skip(p.line + 1),
        seq!['\n'],
    );
    assert(line.take(p.column) + line.skip(p.column) =~= line);
    assert(lines.take(p.line).push(line) + lines.skip(p.line + 1) =~= lines);
}

/// Two positions cut the text in three.
pub proof fn law_range_cuts_text(lines: Seq<Seq<char>>, a: Pos, b: Pos)
    requires
        in_bounds(lines, a),
        in_bounds(lines, b),
        not_after(a, b),
    ensures
        text_before(lines, b) == text_before(lines, a) + text_between(lines, a, b),
        flat(lines) == text_before(lines, a) + text_between(lines, a, b) + text_after(lines, b),
{
    let sep = seq!['\n'];
    law_position_cuts_text(lines, b);
    let first = lines[a.line];
    if a.line == b.line {
        lemma_joined_glue(
            lines.take(a.line),
            first.take(a.column),
            first.subrange(a.column, b.column),
            Seq::empty(),
            sep,
        );
        assert(first.take(a.column) + first.subrange(a.column, b.column) =~= first.take(b.column));
        let whole = lines.take(a.line).push(first.take(b.column));
        assert(whole + Seq::<Seq<char>>::empty() =~= whole);
        let piece = first.subrange(a.column, b.column);
        assert(seq![piece] + Seq::<Seq<char>>::empty() =~= seq![piece]);
        assert(joined(seq![piece], sep) == piece);
    } else {
        let rest = lines.subrange(a.line + 1, b.line).push(lines[b.line].take(b.column));
        lemma_joined_glue(
            lines.take(a.line),
            first.take(a.column),
            first.skip(a.column),
            rest,
            sep,
        );
        assert(first.take(a.column) + first.skip(a.column) =~= first);
        assert(lines.take(a.line).push(first) + rest =~= lines.take(b.line).push(
            lines[b.line].take(b.column),
        ));
        assert(seq![first.skip(a.column)] + rest =~= (seq![first.skip(a.column)]
            + lines.subrange(a.line + 1, b.line)).push(lines[b.line].take(b.column)));
    }
}

/// Removing a range leaves what stands before and after it, with the cursor
/// in between.
pub proof fn law_removing_leaves_the_rest(lines: Seq<Seq<char>>, a: Pos, b: Pos)
    requires
        in_bounds(lines, a),
        in_bounds(lines, b),
        not_after(a, b),
    ensures
        flat(without_range(lines, a, b)) == text_before(lines, a) + text_after(lines, b),
        text_before(without_range(lines, a, b), a) == text_before(lines, a),
        text_after(without_range(lines, a, b), a) == text_after(lines, b),
{
    let head = lines[a.line].take(a.column);
    let tail = lines[b.line].skip(b.column);
    lemma_joined_glue(lines.take(a.line), head, tail, lines.skip(b.line + 1), seq!['\n']);
    let out = without_range(lines, a, b);
    assert(out.take(a.line) =~= lines.take(a.line));
    assert(out[a.line].take(a.column) =~= head);
    assert(out[a.line].skip(a.column) =~= tail);
    assert(out.skip(a.line + 1) =~= lines.skip(b.line + 1));
}

proof fn lemma_char_inserted(t: TextModel, c: char)
    requires
        text_wf(t),
        t.selection is None,
    ensures
        text_before(char_inserted(t, c).lines, char_inserted(t, c).cursor) == text_before(
            t.lines,
            t.cursor,
        ).push(c),
        text_after(char_inserted(t, c).lines, char_inserted(t, c).cursor) == text_after(
            t.lines,
            t.cursor,
        ),
{
    let p = t.cursor;
    let u = char_inserted(t, c);
    let line = t.lines[p.line];
    let sep = seq!['\n'];
    assert(u.lines.take(p.line) =~= t.lines.take(p.line));
    assert(u.lines[p.line].take(p.column + 1) =~= line.take(p.column) + seq![c]);
    assert(u.lines[p.line].skip(p.column + 1) =~= line.skip(p.column));
    assert(u.lines.skip(p.line + 1) =~= t.lines.skip(p.line + 1));
    lemma_joined_glue(t.lines.take(p.line), line.take(p.column), seq![c], Seq::empty(), sep);
    let grown = t.lines.take(p.line).push(line.take(p.column) + seq![c]);
    assert(grown + Seq::<Seq<char>>::empty() =~= grown);
    assert(seq![seq![c]] + Seq::<Seq<char>>::empty() =~= seq![seq![c]]);
    assert(joined(seq![seq![c]], sep) == seq![c]);
    assert(text_before(t.lines, p) + seq![c] =~= text_before(t.lines, p).push(c));
}

proof fn lemma_newline_inserted(t: TextModel)
    requires
        text_wf(t),
        t.selection is None,
    ensures
        text_before(newline_inserted(t).lines, newline_inserted(t).cursor) == text_before(
            t.lines,
            t.cursor,
        ).push('\n'),
        text_after(newline_inserted(t).lines, newline_inserted(t).cursor) == text_after(
            t.lines,
            t.cursor,
        ),
{
    let p = t.cursor;
    let u = newline_inserted(t);
    let line = t.lines[p.line];
    let sep = seq!['\n'];
    let head = t.lines.take(p.line).push(line.take(p.column));
    assert(u.lines.take(p.line + 1) =~= head);
    assert(u.lines[p.line + 1].take(0) =~= Seq::empty());
    assert(u.lines[p.line + 1].skip(0) =~= line.skip(p.column));
    assert(u.lines.skip(p.line + 2) =~= t.lines.skip(p.line + 1));
    assert(head.push(Seq::<char>::empty()).drop_last() =~= head);
    assert(joined(head, sep) + sep + Seq::<char>::empty() =~= joined(head, sep).push('\n'));
}

/// Typing a text puts it between what stood before the cursor and what stood
/// after it, and leaves the cursor at its end.
pub proof fn law_typing_inserts_the_text(t: TextModel, s: Seq<char>)
    requires
        text_wf(t),
        t.selection is None,
    ensures
        text_before(text_inserted(t, s).lines, text_inserted(t, s).cursor) == text_before(
            t.lines,
            t.cursor,
        ) + s,
        text_after(text_inserted(t, s).lines, text_inserted(t, s).cursor) == text_after(
            t.lines,
            t.cursor,
        ),
        flat(text_inserted(t, s).lines) == text_before(t.lines, t.cursor) + s + text_after(
            t.lines,
            t.cursor,
        ),
        text_inserted(t, s).selection is None,
    decreases s.len(),
{
    lemma_text_inserted(t, s);
    let before = text_before(t.lines, t.cursor);
    if s.len() == 0 {
        assert(before + s =~= before);
    } else {
        let init = s.drop_last();
        let u = text_inserted(t, init);
        law_typing_inserts_the_text(t, init);
        lemma_text_inserted(t, init);
        if s.last() == '\n' {
            lemma_newline_inserted(u);
        } else {
            lemma_char_inserted(u, s.last());
        }
        assert((before + init).push(s.last()) =~= before + s);
    }
    law_position_cuts_text(text_inserted(t, s).lines, text_inserted(t, s).cursor);
}

/// How many line breaks a text holds.
pub open spec fn line_breaks(s: Seq<char>) -> nat
    decreases s.len(),
{
    if s.len() == 0 {
        0
    } else {
        line_breaks(s.drop_last()) + if s.last() == '\n' {
            1nat
        } else {
            0nat
        }
    }
}

/// How many characters stand after the last line break of a text.
pub open spec fn after_last_break(s: Seq<char>) -> nat
    decreases s.len(),
{
    if s.len() == 0 || s.last() == '\n' {
        0
    } else {
        after_last_break(s.drop_last()) + 1
    }
}

/// Where a text ends that starts at a position.
pub open spec fn end_from(p: Pos, s: Seq<char>) -> Pos {
    Pos {
        line: p.line + line_breaks(s),
        column: if line_breaks(s) == 0 {
            p.column + s.len()
        } else {
            after_last_break(s) as int
        },
    }
}

/// Typing moves the cursor down by the line breaks of the text and puts it
/// behind what follows the last of them. Typing nothing changes nothing, and
/// anything else is a change to save; the file and the line ending stay.
pub proof fn law_typing_moves_the_cursor(t: TextModel, s: Seq<char>)
    requires
        text_wf(t),
        t.selection is None,
    ensures
        text_inserted(t, s).cursor == end_from(t.cursor, s),
        s.len() == 0 ==> text_inserted(t, s) == t,
        s.len() > 0 ==> text_inserted(t, s).dirty,
        text_inserted(t, s).selection is None,
        text_inserted(t, s).path == t.path,
        text_inserted(t, s).newline_style == t.newline_style,
    decreases s.len(),
{
    if s.len() > 0 {
        let init = s.drop_last();
        law_typing_moves_the_cursor(t, init);
        if line_breaks(init) == 0 {
            lemma_without_breaks(init);
        }
    }
}

proof fn lemma_without_breaks(s: Seq<char>)
    requires
        line_breaks(s) == 0,
    ensures
        after_last_break(s) == s.len(),
    decreases s.len(),
{
    if s.len() > 0 {
        lemma_without_breaks(s.drop_last());
    }
}

/// Typing a text in two pieces is the same as typing it at once.
pub proof fn law_typing_in_pieces_adds_up(t: TextModel, a: Seq<char>, b: Seq<char>)
    ensures
        text_inserted(text_inserted(t, a), b) == text_inserted(t, a + b),
    decreases b.len(),
{
    if b.len() == 0 {
        assert(a + b =~= a);
    } else {
        law_typing_in_pieces_adds_up(t, a, b.drop_last());
        assert((a + b).drop_last() =~= a + b.drop_last());
        assert((a + b).last() == b.last());
    }
}

/// The command that inserts a text puts it between what stood before the cursor
/// and what stood after it, and leaves the cursor at its end.
pub proof fn law_insert_command_inserts_the_text(d: DocModel, s: String)
    requires
        doc_wf(d),
        d.text.selection is None,
    ensures
        ({
            let u = applied(d, EditCommand::InsertText(s)).text;
            &&& flat(u.lines) == text_before(d.text.lines, d.text.cursor) + s@ + text_after(
                d.text.lines,
                d.text.cursor,
            )
            &&& u.cursor == end_from(d.text.cursor, s@)
            &&& u.selection is None
            &&& s@.len() > 0 ==> u.dirty
        }),
        s@.len() == 0 ==> applied(d, EditCommand::InsertText(s)) == d,
{
    law_typing_inserts_the_text(d.text, s@);
    law_typing_moves_the_cursor(d.text, s@);
}

/// Inserting a text by two commands leaves the same text, cursor and flags as
/// inserting it by one.
pub proof fn law_insert_commands_add_up(d: DocModel, a: String, b: String, whole: String)
    requires
        whole@ == a@ + b@,
    ensures
        applied(applied(d, EditCommand::InsertText(a)), EditCommand::InsertText(b)).text == applied(
            d,
            EditCommand::InsertText(whole),
        ).text,
{
    law_typing_in_pieces_adds_up(d.text, a@, b@);
}

/// Typing over a selection replaces the selected text.
pub proof fn law_typing_replaces_the_selection(t: TextModel, sel: Sel, s: Seq<char>)
    requires
        text_wf(t),
        t.selection == Some(sel),
        s.len() > 0,
    ensures
        flat(text_inserted(t, s).lines) == text_before(t.lines, sel_start(sel)) + s + text_after(
            t.lines,
            sel_end(sel),
        ),
{
    let u = selection_removed(t);
    lemma_selection_removed(t);
    lemma_first_char_drops_selection(t, s);
    law_typing_inserts_the_text(u, s);
    if sel.anchor != sel.active {
        law_removing_leaves_the_rest(t.lines, sel_start(sel), sel_end(sel));
    }
}

proof fn lemma_first_char_drops_selection(t: TextModel, s: Seq<char>)
    requires
        text_wf(t),
        s.len() > 0,
    ensures
        text_inserted(t, s) == text_inserted(selection_removed(t), s),
    decreases s.len(),
{
    let u = selection_removed(t);
    lemma_selection_removed(t);
    if s.len() == 1 {
        assert(s.drop_last().len() == 0);
        assert(selection_removed(u) == u);
    } else {
        lemma_first_char_drops_selection(t, s.drop_last());
    }
}

/// One step to the left passes exactly one character of the text.
pub proof fn law_left_passes_one_char(lines: Seq<Seq<char>>, p: Pos)
    requires
        in_bounds(lines, p),
        p != start_pos(),
    ensures
        in_bounds(lines, left_of(lines, p)),
        text_before(lines, left_of(lines, p)) == text_before(lines, p).drop_last(),
{
    let q = left_of(lines, p);
    law_range_cuts_text(lines, q, p);
    let between = text_between(lines, q, p);
    if p.column == 0 {
        let above = lines[q.line];
        assert(above.skip(above.len() as int) =~= Seq::empty());
        assert(lines[p.line].take(0) =~= Seq::empty());
        assert(lines.subrange(p.line, p.line) =~= Seq::empty());
        let two = seq![Seq::<char>::empty(), Seq::<char>::empty()];
        assert((seq![above.skip(above.len() as int)] + lines.subrange(q.line + 1, p.line)).push(
            lines[p.line].take(0),
        ) =~= two);
        lemma_joined_front(two, seq!['\n']);
        assert(two.skip(1) =~= seq![Seq::<char>::empty()]);
        assert(joined(seq![Seq::<char>::empty()], seq!['\n']) =~= Seq::empty());
        assert(between =~= seq!['\n']);
    } else {
        assert(between.len() == 1);
    }
    assert(text_before(lines, p).drop_last() =~= text_before(lines, q));
}

/// A step to the right and a step to the left cancel out, except at the ends
/// of the text.
pub proof fn law_left_and_right_cancel(lines: Seq<Seq<char>>, p: Pos)
    requires
        in_bounds(lines, p),
    ensures
        right_of(lines, p) != p ==> left_of(lines, right_of(lines, p)) == p,
        left_of(lines, p) != p ==> right_of(lines, left_of(lines, p)) == p,
{
}

/// Without a selection, backspace removes the one character before the cursor
/// and nothing at the start of the text.
pub proof fn law_backspace_removes_one_char(t: TextModel)
    requires
        text_wf(t),
        t.selection is None,
    ensures
        t.cursor == start_pos() ==> edited(t, EditCommand::Backspace) == t,
        t.cursor != start_pos() ==> flat(edited(t, EditCommand::Backspace).lines) == text_before(
            t.lines,
            t.cursor,
        ).drop_last() + text_after(t.lines, t.cursor),
{
    if t.cursor != start_pos() {
        law_left_passes_one_char(t.lines, t.cursor);
        law_removing_leaves_the_rest(t.lines, left_of(t.lines, t.cursor), t.cursor);
    }
}

/// Without a selection, delete removes the one character after the cursor and
/// nothing at the end of the text.
pub proof fn law_delete_removes_one_char(t: TextModel)
    requires
        text_wf(t),
        t.selection is None,
    ensures
        right_of(t.lines, t.cursor) == t.cursor ==> edited(t, EditCommand::Delete) == t,
        right_of(t.lines, t.cursor) != t.cursor ==> flat(edited(t, EditCommand::Delete).lines)
            == text_before(t.lines, t.cursor) + text_after(t.lines, t.cursor).skip(1),
{
    let p = t.cursor;
    let q = right_of(t.lines, p);
    if q != p {
        law_left_and_right_cancel(t.lines, p);
        law_left_passes_one_char(t.lines, q);
        law_removing_leaves_the_rest(t.lines, p, q);
        law_position_cuts_text(t.lines, p);
        law_position_cuts_text(t.lines, q);
        let whole = flat(t.lines);
        assert(text_after(t.lines, q) =~= whole.skip(text_before(t.lines, q).len() as int));
        assert(text_after(t.lines, p) =~= whole.skip(text_before(t.lines, p).len() as int));
        assert(text_after(t.lines, p).skip(1) =~= text_after(t.lines, q));
    }
}

/// Backspace takes a typed character, or a line break, back again.
pub proof fn law_backspace_undoes_typing(t: TextModel, c: char)
    requires
        text_wf(t),
        t.selection is None,
    ensures
        edited(char_inserted(t, c), EditCommand::Backspace) == (TextModel { dirty: true, ..t }),
        edited(newline_inserted(t), EditCommand::Backspace) == (TextModel { dirty: true, ..t }),
{
    let p = t.cursor;
    let line = t.lines[p.line];
    let u = char_inserted(t, c);
    assert(u.lines[p.line].take(p.column) + u.lines[p.line].skip(p.column + 1) =~= line);
    assert(without_range(u.lines, p, u.cursor) =~= t.lines);
    let v = newline_inserted(t);
    let q = left_of(v.lines, v.cursor);
    assert(v.lines[p.line] =~= line.take(p.column));
    assert(q == p);
    assert(v.lines[p.line].take(p.column) + v.lines[p.line + 1].skip(0) =~= line);
    assert(without_range(v.lines, p, v.cursor) =~= t.lines);
}

/// The command that goes back over a character takes back what the commands for
/// a character and for a line break typed.
pub proof fn law_backspace_command_undoes_typing(d: DocModel, c: char)
    requires
        doc_wf(d),
        d.text.selection is None,
    ensures
        applied(applied(d, EditCommand::InsertChar(c)), EditCommand::Backspace).text == (TextModel {
            dirty: true,
            ..d.text
        }),
        applied(applied(d, EditCommand::Newline), EditCommand::Backspace).text == (TextModel {
            dirty: true,
            ..d.text
        }),
{
    law_backspace_undoes_typing(d.text, c);
}

/// Without a selection, delete does what a step to the right and backspace do,
/// and the cursor stays. At the end of the text it does nothing at all.
pub proof fn law_delete_is_right_and_backspace(d: DocModel)
    requires
        doc_wf(d),
        d.text.selection is None,
    ensures
        ({
            let deleted = applied(d, EditCommand::Delete);
            if d.text.cursor == end_pos(d.text.lines) {
                deleted == d
            } else {
                &&& deleted.text == applied(
                    applied(d, EditCommand::MoveRight),
                    EditCommand::Backspace,
                ).text
                &&& deleted.text.cursor == d.text.cursor
                &&& deleted.text.dirty
            }
        }),
{
    let p = d.text.cursor;
    let q = right_of(d.text.lines, p);
    law_left_and_right_cancel(d.text.lines, p);
    if p == end_pos(d.text.lines) {
        assert(q == p);
    } else {
        assert(q != p);
    }
}

/// Cutting the selected text out and pasting it again restores the text.
pub proof fn law_paste_undoes_cut(t: TextModel, sel: Sel)
    requires
        text_wf(t),
        t.selection == Some(sel),
        sel.anchor != sel.active,
    ensures
        flat(
            text_inserted(
                selection_removed(t),
                text_between(t.lines, sel_start(sel), sel_end(sel)),
            ).lines,
        ) == flat(t.lines),
{
    let a = sel_start(sel);
    let b = sel_end(sel);
    lemma_selection_removed(t);
    law_removing_leaves_the_rest(t.lines, a, b);
    law_typing_inserts_the_text(selection_removed(t), text_between(t.lines, a, b));
    law_range_cuts_text(t.lines, a, b);
}

/// Whatever changes the lines leaves the document dirty.
pub proof fn law_changes_are_to_be_saved(t: TextModel, command: EditCommand)
    requires
        text_wf(t),
        edited(t, command).lines != t.lines,
    ensures
        edited(t, command).dirty,
{
    if let EditCommand::InsertText(s) = command {
        if s@.len() > 0 {
            assert(text_inserted(t, s@).dirty);
        }
    }
}

/// Moving the cursor changes nothing else: not the text, the selection, the
/// file data or the history.
pub proof fn law_moves_change_only_the_cursor(d: DocModel, command: EditCommand)
    requires
        !is_edit(command),
        !(command is Undo),
        !(command is Redo),
    ensures
        applied(d, command) == (DocModel {
            text: moved(d.text, applied(d, command).text.cursor),
            ..d
        }),
{
}

/// Undo after an edit that changed something restores the state before it, and
/// redo then restores the state after it, history included.
pub proof fn law_undo_and_redo_an_edit(d: DocModel, command: EditCommand)
    requires
        doc_wf(d),
        is_edit(command),
        edited(d.text, command) != d.text,
    ensures
        undone(applied(d, command)).text == d.text,
        redone(undone(applied(d, command))) == applied(d, command),
{
    let after = applied(d, command);
    assert(after.undo.last() == d.text);
    law_redo_undoes_undo(after);
}

/// Redo takes an undo back.
pub proof fn law_redo_undoes_undo(d: DocModel)
    requires
        d.undo.len() > 0,
        d.undo.len() <= d.limit,
    ensures
        redone(undone(d)) == d,
{
    let u = undone(d);
    assert(u.undo.push(u.text) =~= d.undo);
    assert(u.redo.drop_last() =~= d.redo);
    assert(redone(u) =~= d);
}

/// Undo takes a redo back. Only when the history is full is its oldest state
/// lost on the way.
pub proof fn law_undo_undoes_redo(d: DocModel)
    requires
        doc_wf(d),
        d.redo.len() > 0,
    ensures
        undone(redone(d)).text == d.text,
        undone(redone(d)).redo == d.redo,
        d.undo.len() < d.limit ==> undone(redone(d)) == d,
{
    let r = redone(d);
    assert(r.undo.last() == d.text);
    assert(r.redo.push(r.text) =~= d.redo);
    if d.undo.len() < d.limit {
        assert(r.undo.drop_last() =~= d.undo);
        assert(undone(r) =~= d);
    }
}

/// An edit without effect leaves the whole document as it was.
pub proof fn law_idle_edits_are_not_recorded(d: DocModel, command: EditCommand)
    requires
        is_edit(command),
        edited(d.text, command) == d.text,
    ensures
        applied(d, command) == d,
{
}

/// A document whose lines hold no line ends is the same after it was saved and
/// opened again: the same lines and the same line ending, clean, under the
/// path it was saved to. A single line shows no line ending and comes back
/// with `Lf`.
pub proof fn law_opening_undoes_saving(t: TextModel, path: Seq<char>)
    requires
        text_wf(t),
        plain_lines(t.lines),
        t.newline_style is Lf || t.lines.len() > 1,
    ensures
        ({
            let written = joined(t.lines, delimiter_text(t.newline_style));
            fresh_doc(split(normalized(written)), shown_style(written), Some(path))
        }) == fresh_doc(t.lines, t.newline_style, Some(path)),
{
    law_reading_undoes_writing(t.lines, t.newline_style);
    law_style_is_recognized(t.lines, t.newline_style);
}

/// The text of a document that holds no `\r` and no stray `\n` makes the same
/// document again.
pub proof fn law_text_round_trip(t: TextModel)
    requires
        text_wf(t),
        plain_lines(t.lines),
    ensures
        split(normalized(flat(t.lines))) == t.lines,
{
    law_reading_undoes_writing(t.lines, NewlineStyle::Lf);
}

// ---------------------------------------------------------------------------
// Words across lines.

/// From the start of a line, a step back by one word lands in the nearest line
/// above that holds anything, one word before its end; where there is none, at
/// the start of the text. The line `l` is that line, or the first one.
pub proof fn law_word_back_crosses_empty_lines(lines: Seq<Seq<char>>, p: Pos) -> (l: int)
    requires
        in_bounds(lines, p),
        p.column == 0,
        p.line > 0,
    ensures
        0 <= l < p.line,
        forall|k: int| l < k < p.line ==> (#[trigger] lines[k]).len() == 0,
        lines[l].len() > 0 ==> word_before(lines, p) == (Pos {
            line: l,
            column: word_left(lines[l], lines[l].len() as int),
        }),
        lines[l].len() == 0 ==> l == 0 && word_before(lines, p) == (Pos { line: 0, column: 0 }),
    decreases p.line,
{
    reveal_with_fuel(word_before, 2);
    let above = p.line - 1;
    if lines[above].len() > 0 || above == 0 {
        if lines[above].len() == 0 {
            assert(word_before(lines, Pos { line: 0, column: 0 }) == start_pos());
        }
        above
    } else {
        law_word_back_crosses_empty_lines(lines, Pos { line: above, column: 0 })
    }
}

/// Within a line, a step by one word stays in it.
pub proof fn law_words_stay_in_the_line(lines: Seq<Seq<char>>, p: Pos)
    requires
        in_bounds(lines, p),
    ensures
        p.column > 0 ==> word_before(lines, p) == (Pos {
            line: p.line,
            column: word_left(lines[p.line], p.column),
        }),
        p.column < lines[p.line].len() ==> word_after(lines, p) == (Pos {
            line: p.line,
            column: word_right(lines[p.line], p.column),
        }),
        p == start_pos() ==> word_before(lines, p) == p,
        p == end_pos(lines) ==> word_after(lines, p) == p,
{
}

/// From the end of a line, a step forward by one word lands in the nearest line
/// below that holds anything, one word from its start; where there is none, at
/// the end of the text. The line `l` is that line, or the last one.
pub proof fn law_word_on_crosses_empty_lines(lines: Seq<Seq<char>>, p: Pos) -> (l: int)
    requires
        in_bounds(lines, p),
        p.column == lines[p.line].len(),
        p.line + 1 < lines.len(),
    ensures
        p.line < l < lines.len(),
        forall|k: int| p.line < k < l ==> (#[trigger] lines[k]).len() == 0,
        lines[l].len() > 0 ==> word_after(lines, p) == (Pos {
            line: l,
            column: word_right(lines[l], 0),
        }),
        lines[l].len() == 0 ==> l == lines.len() - 1 && word_after(lines, p) == (Pos {
            line: l,
            column: 0,
        }),
    decreases lines.len() - p.line,
{
    reveal_with_fuel(word_after, 2);
    let below = p.line + 1;
    if lines[below].len() > 0 || below + 1 >= lines.len() {
        if lines[below].len() == 0 {
            assert(word_after(lines, Pos { line: below, column: 0 }) == (Pos {
                line: below,
                column: 0,
            }));
        }
        below
    } else {
        law_word_on_crosses_empty_lines(lines, Pos { line: below, column: 0 })
    }
}

/// Where the moving commands take the cursor: by words to the neighbouring word
/// boundary, by characters to the neighbouring position, within the line to its
/// ends.
pub proof fn law_moves_go_where_they_say(d: DocModel)
    requires
        doc_wf(d),
    ensures
        ({
            let lines = d.text.lines;
            let p = d.text.cursor;
            &&& applied(d, EditCommand::MoveWordLeft).text.cursor == word_before(lines, p)
            &&& applied(d, EditCommand::MoveWordRight).text.cursor == word_after(lines, p)
            &&& applied(d, EditCommand::MoveLineStart).text.cursor == (Pos {
                line: p.line,
                column: 0,
            })
            &&& applied(d, EditCommand::MoveLineEnd).text.cursor == (Pos {
                line: p.line,
                column: lines[p.line].len() as int,
            })
            &&& p != start_pos() ==> text_before(
                lines,
                applied(d, EditCommand::MoveLeft).text.cursor,
            ) == text_before(lines, p).drop_last()
            &&& p == start_pos() ==> applied(d, EditCommand::MoveLeft) == d
            &&& p == end_pos(lines) ==> applied(d, EditCommand::MoveRight) == d
            &&& p != end_pos(lines) ==> applied(
                applied(d, EditCommand::MoveRight),
                EditCommand::MoveLeft,
            ) == d && applied(d, EditCommand::MoveRight).text.cursor != p
        }),
{
    let p = d.text.cursor;
    if p != start_pos() {
        law_left_passes_one_char(d.text.lines, p);
    }
    law_left_and_right_cancel(d.text.lines, p);
}

/// A step down and a step up: the line changes by one, not past the ends of the
/// text, and the column stays as far as the line reaches.
pub proof fn law_up_and_down_keep_the_column(d: DocModel)
    requires
        doc_wf(d),
    ensures
        ({
            let lines = d.text.lines;
            let p = d.text.cursor;
            let up = applied(d, EditCommand::MoveUp).text.cursor;
            let down = applied(d, EditCommand::MoveDown).text.cursor;
            &&& p.line == 0 ==> up == p
            &&& p.line > 0 ==> up.line == p.line - 1 && up.column <= p.column && up.column
                <= lines[up.line].len() && (up.column == p.column || up.column
                == lines[up.line].len())
            &&& p.line + 1 == lines.len() ==> down == p
            &&& p.line + 1 < lines.len() ==> down.line == p.line + 1 && down.column <= p.column
                && down.column <= lines[down.line].len() && (down.column == p.column || down.column
                == lines[down.line].len())
        }),
{
}

proof fn lemma_page_up(lines: Seq<Seq<char>>, p: Pos, n: nat)
    requires
        in_bounds(lines, p),
    ensures
        ({
            let q = far_above(lines, p, n);
            &&& q.line == if n < p.line {
                p.line - n
            } else {
                0
            }
            &&& 0 <= q.column <= p.column
            &&& forall|k: int| q.line <= k < p.line ==> q.column <= (#[trigger] lines[k]).len()
            &&& q.column == p.column || exists|k: int|
                q.line <= k < p.line && q.column == (#[trigger] lines[k]).len()
        }),
    decreases n,
{
    if n > 0 {
        let next = crate::model::above(lines, p);
        lemma_page_up(lines, next, (n - 1) as nat);
        let q = far_above(lines, p, n);
        if p.line > 0 {
            assert(next.column <= lines[next.line].len());
            assert forall|k: int| q.line <= k < p.line implies q.column <= (
            #[trigger] lines[k]).len() by {
                if k == next.line {
                } else {
                    assert(q.line <= k < next.line);
                }
            }
        }
    }
}

proof fn lemma_page_down(lines: Seq<Seq<char>>, p: Pos, n: nat)
    requires
        in_bounds(lines, p),
    ensures
        ({
            let q = far_below(lines, p, n);
            &&& q.line == if p.line + n < lines.len() {
                p.line + n
            } else {
                lines.len() - 1
            }
            &&& 0 <= q.column <= p.column
            &&& forall|k: int| p.line < k <= q.line ==> q.column <= (#[trigger] lines[k]).len()
            &&& q.column == p.column || exists|k: int|
                p.line < k <= q.line && q.column == (#[trigger] lines[k]).len()
        }),
    decreases n,
{
    if n > 0 {
        let next = crate::model::below(lines, p);
        lemma_page_down(lines, next, (n - 1) as nat);
        let q = far_below(lines, p, n);
        if p.line + 1 < lines.len() {
            assert(next.column <= lines[next.line].len());
            assert forall|k: int| p.line < k <= q.line implies q.column <= (
            #[trigger] lines[k]).len() by {
                if k == next.line {
                } else {
                    assert(next.line < k <= q.line);
                }
            }
        }
    }
}

/// Paging moves by so many lines, not past the ends of the text; the column is
/// the old one, or the end of the shortest line on the way.
pub proof fn law_paging_moves_by_lines(d: DocModel, n: usize)
    requires
        doc_wf(d),
    ensures
        ({
            let lines = d.text.lines;
            let p = d.text.cursor;
            let up = applied(d, EditCommand::MovePageUp(n)).text.cursor;
            let down = applied(d, EditCommand::MovePageDown(n)).text.cursor;
            &&& up.line == if n < p.line {
                p.line - n
            } else {
                0
            }
            &&& down.line == if p.line + n < lines.len() {
                p.line + n
            } else {
                lines.len() - 1
            }
            &&& up.column <= p.column
            &&& down.column <= p.column
            &&& forall|k: int| up.line <= k < p.line ==> up.column <= (#[trigger] lines[k]).len()
            &&& forall|k: int| p.line < k <= down.line ==> down.column <= (
            #[trigger] lines[k]).len()
            &&& up.column == p.column || exists|k: int|
                up.line <= k < p.line && up.column == (#[trigger] lines[k]).len()
            &&& down.column == p.column || exists|k: int|
                p.line < k <= down.line && down.column == (#[trigger] lines[k]).len()
        }),
{
    lemma_page_up(d.text.lines, d.text.cursor, n as nat);
    lemma_page_down(d.text.lines, d.text.cursor, n as nat);
}

// ---------------------------------------------------------------------------
// Editing, command by command.

/// `u` is `t` with a text put in place of what stood between `a` and `b`: the
/// rest of the text is untouched, the cursor stands behind what was put there,
/// nothing is selected, and there is something to save.
pub open spec fn put_between(t: TextModel, a: Pos, b: Pos, s: Seq<char>, u: TextModel) -> bool {
    &&& flat(u.lines) == text_before(t.lines, a) + s + text_after(t.lines, b)
    &&& u.lines.len() == t.lines.len() - (b.line - a.line) + line_breaks(s)
    &&& u.cursor == end_from(a, s)
    &&& u.selection is None
    &&& u.dirty
    &&& u.path == t.path
    &&& u.newline_style == t.newline_style
}

/// Where an edit starts: at the start of the selection, else at the cursor.
pub open spec fn edit_start(t: TextModel) -> Pos {
    match t.selection {
        Some(s) => sel_start(s),
        None => t.cursor,
    }
}

/// Where what an edit replaces ends: at the end of the selection, else at the
/// cursor.
pub open spec fn edit_end(t: TextModel) -> Pos {
    match t.selection {
        Some(s) => sel_end(s),
        None => t.cursor,
    }
}

/// Typing in place of the selection, or at the cursor.
pub proof fn law_typing_puts_the_text(t: TextModel, s: Seq<char>)
    requires
        text_wf(t),
        s.len() > 0,
    ensures
        put_between(t, edit_start(t), edit_end(t), s, text_inserted(t, s)),
{
    let u = selection_removed(t);
    lemma_selection_removed(t);
    lemma_first_char_drops_selection(t, s);
    law_typing_inserts_the_text(u, s);
    law_typing_moves_the_cursor(u, s);
    lemma_typed_line_count(u, s);
    if let Some(sel) = t.selection {
        if sel.anchor != sel.active {
            law_removing_leaves_the_rest(t.lines, sel_start(sel), sel_end(sel));
            lemma_without_range(t.lines, sel_start(sel), sel_end(sel));
        }
    }
}

proof fn lemma_typed_line_count(t: TextModel, s: Seq<char>)
    requires
        text_wf(t),
        t.selection is None,
    ensures
        text_inserted(t, s).lines.len() == t.lines.len() + line_breaks(s),
    decreases s.len(),
{
    if s.len() > 0 {
        lemma_typed_line_count(t, s.drop_last());
        lemma_text_inserted(t, s.drop_last());
        law_typing_inserts_the_text(t, s.drop_last());
    }
}

/// The typing commands put what they carry in place of the selection, or at the
/// cursor.
pub proof fn law_typing_commands_replace_the_selection(d: DocModel, c: char, s: String)
    requires
        doc_wf(d),
        c != '\n',
        s@.len() > 0,
    ensures
        ({
            let t = d.text;
            let a = edit_start(t);
            let b = edit_end(t);
            &&& put_between(t, a, b, seq![c], applied(d, EditCommand::InsertChar(c)).text)
            &&& put_between(t, a, b, seq!['\n'], applied(d, EditCommand::Newline).text)
            &&& put_between(t, a, b, s@, applied(d, EditCommand::InsertText(s)).text)
        }),
{
    law_typing_puts_the_text(d.text, s@);
    law_typing_puts_the_text(d.text, seq![c]);
    law_typing_puts_the_text(d.text, seq!['\n']);
    assert(seq![c].drop_last() =~= Seq::empty());
    assert(seq!['\n'].drop_last() =~= Seq::empty());
    assert(text_inserted(d.text, seq![c].drop_last()) == d.text);
    assert(text_inserted(d.text, seq!['\n'].drop_last()) == d.text);
    assert(text_inserted(d.text, seq![c]) == char_inserted(d.text, c));
    assert(text_inserted(d.text, seq!['\n']) == newline_inserted(d.text));
}

proof fn lemma_removed(t: TextModel, a: Pos, b: Pos)
    requires
        text_wf(t),
        in_bounds(t.lines, a),
        in_bounds(t.lines, b),
        not_after(a, b),
    ensures
        put_between(t, a, b, Seq::empty(), range_removed(t, a, b)),
{
    law_removing_leaves_the_rest(t.lines, a, b);
    lemma_without_range(t.lines, a, b);
    assert(text_before(t.lines, a) + Seq::<char>::empty() + text_after(t.lines, b) =~= text_before(
        t.lines,
        a,
    ) + text_after(t.lines, b));
}

/// Every deleting command removes exactly the selected text, if there is any.
pub proof fn law_deleting_takes_the_selection(d: DocModel, command: EditCommand)
    requires
        doc_wf(d),
        covers_text(d.text),
        command is Backspace || command is Delete || command is DeleteWordBackward
            || command is DeleteWordForward || command is DeleteLine,
    ensures
        put_between(
            d.text,
            sel_start(d.text.selection->0),
            sel_end(d.text.selection->0),
            Seq::empty(),
            applied(d, command).text,
        ),
{
    let s = d.text.selection->0;
    lemma_removed(d.text, sel_start(s), sel_end(s));
}

/// Without a selection, backspace removes the character before the cursor, and
/// deleting a word back everything from the word boundary before it.
pub proof fn law_deleting_back(d: DocModel)
    requires
        doc_wf(d),
        d.text.selection is None,
        d.text.cursor != start_pos(),
    ensures
        put_between(
            d.text,
            left_of(d.text.lines, d.text.cursor),
            d.text.cursor,
            Seq::empty(),
            applied(d, EditCommand::Backspace).text,
        ),
        put_between(
            d.text,
            word_before(d.text.lines, d.text.cursor),
            d.text.cursor,
            Seq::empty(),
            applied(d, EditCommand::DeleteWordBackward).text,
        ),
{
    let p = d.text.cursor;
    law_left_passes_one_char(d.text.lines, p);
    lemma_removed(d.text, left_of(d.text.lines, p), p);
    lemma_word_before(d.text.lines, p);
    lemma_removed(d.text, word_before(d.text.lines, p), p);
    if p.column > 0 {
        law_word_left_moves(d.text.lines[p.line], p.column);
    } else {
        let l = law_word_back_crosses_empty_lines(d.text.lines, p);
    }
}

/// Without a selection, delete removes the character after the cursor, and
/// deleting a word forward everything up to the word boundary after it. The
/// cursor stays.
pub proof fn law_deleting_forward(d: DocModel)
    requires
        doc_wf(d),
        d.text.selection is None,
        d.text.cursor != end_pos(d.text.lines),
    ensures
        put_between(
            d.text,
            d.text.cursor,
            right_of(d.text.lines, d.text.cursor),
            Seq::empty(),
            applied(d, EditCommand::Delete).text,
        ),
        put_between(
            d.text,
            d.text.cursor,
            word_after(d.text.lines, d.text.cursor),
            Seq::empty(),
            applied(d, EditCommand::DeleteWordForward).text,
        ),
{
    let p = d.text.cursor;
    lemma_removed(d.text, p, right_of(d.text.lines, p));
    lemma_word_after(d.text.lines, p);
    lemma_removed(d.text, p, word_after(d.text.lines, p));
    if p.column < d.text.lines[p.line].len() {
        law_word_right_moves(d.text.lines[p.line], p.column);
    } else {
        let l = law_word_on_crosses_empty_lines(d.text.lines, p);
    }
}

/// Without a selection, at an end of the text there is nothing to delete beyond
/// it, and nothing changes.
pub proof fn law_nothing_to_delete_beyond_the_ends(d: DocModel)
    requires
        doc_wf(d),
        d.text.selection is None,
    ensures
        d.text.cursor == start_pos() ==> applied(d, EditCommand::Backspace) == d && applied(
            d,
            EditCommand::DeleteWordBackward,
        ) == d,
        d.text.cursor == end_pos(d.text.lines) ==> applied(d, EditCommand::Delete) == d && applied(
            d,
            EditCommand::DeleteWordForward,
        ) == d,
{
}

/// Without a selection, deleting the line takes away the line of the cursor and
/// no other; the last line that is left becomes empty. The cursor stands at the
/// start of the line that took its place, or of the last line.
pub proof fn law_deleting_the_line(d: DocModel)
    requires
        doc_wf(d),
        d.text.selection is None,
    ensures
        ({
            let t = d.text;
            let u = applied(d, EditCommand::DeleteLine).text;
            &&& t.lines.len() > 1 ==> {
                &&& u.lines.len() == t.lines.len() - 1
                &&& forall|k: int| 0 <= k < t.cursor.line ==> u.lines[k] == #[trigger] t.lines[k]
                &&& forall|k: int|
                    t.cursor.line < k < t.lines.len() ==> u.lines[k - 1] == #[trigger] t.lines[k]
                &&& u.cursor.column == 0
                &&& u.cursor.line == t.cursor.line || (u.cursor.line == t.cursor.line - 1
                    && t.cursor.line == t.lines.len() - 1)
                &&& 0 <= u.cursor.line < u.lines.len()
                &&& u.dirty
            }
            &&& t.lines.len() == 1 && t.lines[0].len() > 0 ==> u.lines.len() == 1
                && u.lines[0].len() == 0 && u.cursor == start_pos() && u.dirty
            &&& t.lines.len() == 1 && t.lines[0].len() == 0 ==> u == t
        }),
{
}

/// A selection that covers nothing counts as a cursor: the edit happens there.
pub proof fn law_empty_selections_are_cursors(d: DocModel, p: Pos, command: EditCommand)
    requires
        doc_wf(d),
        d.text.selection == Some(Sel { anchor: p, active: p }),
        is_edit(command),
        command matches EditCommand::InsertText(s) ==> s@.len() > 0,
    ensures
        edited(d.text, command) == edited(
            TextModel { cursor: p, selection: None, ..d.text },
            command,
        ),
        applied(d, command).text == edited(d.text, command),
{
    let bare = TextModel { cursor: p, selection: None, ..d.text };
    assert(selection_removed(d.text) == bare);
    assert(selection_removed(bare) == bare);
    if let EditCommand::InsertText(s) = command {
        lemma_first_char_drops_selection(d.text, s@);
    }
}

// ---------------------------------------------------------------------------
// History.

/// Undo after an edit that changed something brings the state before it back,
/// and redo the state after it; with nothing to take back, undo and redo change
/// nothing.
pub proof fn law_undo_and_redo_commands(d: DocModel, command: EditCommand)
    requires
        doc_wf(d),
        is_edit(command),
        applied(d, command) != d,
    ensures
        applied(applied(d, command), EditCommand::Undo).text == d.text,
        applied(applied(applied(d, command), EditCommand::Undo), EditCommand::Redo) == applied(
            d,
            command,
        ),
        applied(applied(d, command), EditCommand::Redo) == applied(d, command),
        d.undo.len() == 0 ==> applied(d, EditCommand::Undo) == d,
        d.redo.len() == 0 ==> applied(d, EditCommand::Redo) == d,
        d.undo.len() < d.limit ==> applied(applied(d, command), EditCommand::Undo).undo == d.undo,
{
    law_undo_and_redo_an_edit(d, command);
    let after = applied(d, command);
    if d.undo.len() < d.limit {
        assert(after.undo == d.undo.push(d.text));
        assert(after.undo.drop_last() =~= d.undo);
    }
}

/// Two edits are taken back one after the other, as long as the history holds
/// both.
pub proof fn law_edits_are_undone_in_order(d: DocModel, first: EditCommand, second: EditCommand)
    requires
        doc_wf(d),
        is_edit(first),
        is_edit(second),
        applied(d, first) != d,
        applied(applied(d, first), second) != applied(d, first),
        d.limit >= 2,
    ensures
        ({
            let two = applied(applied(d, first), second);
            let one = applied(two, EditCommand::Undo);
            &&& one.text == applied(d, first).text
            &&& applied(one, EditCommand::Undo).text == d.text
        }),
{
    law_commands_keep_documents_well_formed(d, first);
    law_undo_and_redo_commands(applied(d, first), second);
    let middle = applied(d, first);
    let two = applied(middle, second);
    assert(middle.undo.last() == d.text);
    let all = middle.undo.push(middle.text);
    assert(two.undo == newest(all, d.limit));
    assert(two.undo.len() >= 2);
    assert(two.undo.drop_last().last() == d.text);
}

/// The history keeps the latest states and forgets the oldest beyond its limit.
pub proof fn law_history_keeps_the_latest(states: Seq<TextModel>, limit: nat, k: int)
    requires
        0 <= k < states.len(),
        k < limit,
    ensures
        newest(states, limit).len() == if states.len() < limit {
            states.len()
        } else {
            limit
        },
        newest(states, limit)[newest(states, limit).len() - 1 - k] == states[states.len() - 1 - k],
{
}

/// Undo, redo and moving leave the text to save or not to save as the state
/// they lead to says; no command but the editing ones makes new states.
pub proof fn law_undo_moves_between_states(d: DocModel)
    requires
        d.undo.len() > 0,
    ensures
        applied(d, EditCommand::Undo).text == d.undo.last(),
        applied(d, EditCommand::Undo).redo.last() == d.text,
        applied(d, EditCommand::Undo).undo.len() == d.undo.len() - 1,
{
}

} // verus!

//! What the operations of the editor amount to for the user, operation by
//! operation: which match a search selects, what is written and read, what a
//! paste replaces, which tab is shown.
use crate::command::EditCommand;
#[allow(unused_imports)]
use crate::cursor::{not_after, start_pos, Pos};
#[allow(unused_imports)]
use crate::display::shown_document;
#[allow(unused_imports)]
use crate::ipc::Command;
#[allow(unused_imports)]
use crate::keys::{binding, edit, motion, Action, KeyEvent};
#[allow(unused_imports)]
use crate::laws::{
    edit_end, edit_start, flat, law_deleting_back, law_deleting_forward,
    law_deleting_takes_the_selection, law_paste_undoes_cut, law_range_cuts_text,
    law_typing_puts_the_text, put_between, text_after, text_before, text_between,
};
#[allow(unused_imports)]
use crate::model::{
    applied, covers_text, destination, doc_wf, end_pos, is_edit, law_moves_stay_in_bounds, left_of,
    lemma_clamped, right_of, text_inserted, text_wf, DocModel, TextModel,
};
#[allow(unused_imports)]
use crate::newline::{
    joined, law_join_undoes_split, law_reading_undoes_writing, law_style_is_recognized, normalized,
    plain_lines, shown_style, split, NewlineStyle,
};
#[allow(unused_imports)]
use crate::number::{decimal, law_parse_undoes_decimal, parsed};
#[allow(unused_imports)]
use crate::palette::{fitting, PaletteCommand};
#[allow(unused_imports)]
use crate::paths::{full_path, law_same_path_is_an_equivalence, same_path, typed_path};
#[allow(unused_imports)]
use crate::prompt::{go_to, prompt_step, GoToModel, PendingAction, PromptKind, PromptModel};
#[allow(unused_imports)]
use crate::search::{
    backward_match, first_after, forward_match, last_before, law_found_text_is_the_query,
    law_search_is_complete, lemma_backward_match, lemma_forward_match, next_match, stands_after,
    stands_at, stands_before, Hit, SearchModel,
};
#[allow(unused_imports)]
use crate::selection::{law_normalized_is_ordered, sel_end, sel_start, Sel};
#[allow(unused_imports)]
use crate::state::{
    copy_finished, copy_requested, cut_to_line_end, cut_to_line_start, distinct_paths, editor_wf,
    file_document, file_opened, first_holding, found, go_to_submitted, jumped, key_handled,
    last_top, lemma_neighbour, lemma_tab_from, open_requested, other_paths, page_step,
    palette_action, palette_run, paste_arrived, paste_notified, paste_request_finished, pasted,
    performed, recent_pick, remembered, remote_applied, row_moved, save_finished, selected,
    selecting, submitted, unsaved, user_moved, window_handled, written, ContextModel, EditorModel,
    EffectModel, InputEvent, RecentPick, RemoteModel, TabModel, MAX_RECENT_FILES,
};
#[allow(unused_imports)]
use crate::text::{has_substring, lowered, trimmed};
use vstd::prelude::*;

verus! {

// ---------------------------------------------------------------------------
// Searching.

/// Where a search starts: behind the match found last, before it when going
/// back, and at the cursor when nothing was found yet.
pub open spec fn starts_from(e: EditorModel, reverse: bool, from: Pos) -> bool {
    e.search matches Some(s) && match s.last_match {
        None => from == e.document.text.cursor,
        Some(hit) => from == (if reverse {
            hit.start
        } else {
            hit.end
        }),
    }
}

/// The document shows the match at `p` of a query: it is selected, the cursor
/// stands behind it, and the search goes on from there.
pub open spec fn shows_match(e: EditorModel, p: Pos, query: Seq<char>) -> bool {
    let end = Pos { line: p.line, column: p.column + query.len() };
    &&& e.document.text.selection == Some(Sel { anchor: p, active: end })
    &&& e.document.text.cursor == end
    &&& e.search matches Some(s) && s.query == query && s.last_match == Some(Hit { start: p, end })
}

/// The characters of the query stand in the text from `p` on, in one line.
pub open spec fn reads_at(lines: Seq<Seq<char>>, query: Seq<char>, p: Pos) -> bool {
    &&& 0 <= p.line < lines.len()
    &&& 0 <= p.column
    &&& p.column + query.len() <= lines[p.line].len()
    &&& forall|k: int|
        0 <= k < query.len() ==> lines[p.line][p.column + k] == #[trigger] query[k]
}

/// `a` does not come after `b` when reading.
pub open spec fn in_order(a: Pos, b: Pos) -> bool {
    if a.line == b.line {
        a.column <= b.column
    } else {
        a.line < b.line
    }
}

/// The place behind a query that stands at `p`.
pub open spec fn behind(query: Seq<char>, p: Pos) -> Pos {
    Pos { line: p.line, column: p.column + query.len() }
}

/// The first place at or after `from` that reads like the query.
pub open spec fn first_reading(
    lines: Seq<Seq<char>>,
    query: Seq<char>,
    from: Pos,
    p: Pos,
) -> bool {
    &&& reads_at(lines, query, p)
    &&& in_order(from, p)
    &&& forall|q: Pos| #[trigger] reads_at(lines, query, q) && in_order(from, q) ==> in_order(p, q)
}

/// The last place that reads like the query and ends at or before `from`.
pub open spec fn last_reading(
    lines: Seq<Seq<char>>,
    query: Seq<char>,
    from: Pos,
    p: Pos,
) -> bool {
    &&& reads_at(lines, query, p)
    &&& in_order(behind(query, p), from)
    &&& forall|q: Pos| #[trigger]
        reads_at(lines, query, q) && in_order(behind(query, q), from) ==> in_order(q, p)
}

proof fn lemma_reads_at(lines: Seq<Seq<char>>, query: Seq<char>, p: Pos)
    ensures
        reads_at(lines, query, p) == stands_at(lines, query, p),
{
    if 0 <= p.line < lines.len() && 0 <= p.column && p.column + query.len()
        <= lines[p.line].len() {
        let part = lines[p.line].subrange(p.column, p.column + query.len());
        if reads_at(lines, query, p) {
            assert forall|k: int| 0 <= k < query.len() implies part[k] == query[k] by {
                assert(lines[p.line][p.column + k] == query[k]);
            }
            assert(part =~= query);
        }
        if part == query {
            assert forall|k: int| 0 <= k < query.len() implies lines[p.line][p.column + k]
                == #[trigger] query[k] by {
                assert(part[k] == query[k]);
            }
        }
    }
}

proof fn lemma_first_reading(lines: Seq<Seq<char>>, query: Seq<char>, from: Pos, p: Pos)
    requires
        first_reading(lines, query, from, p),
    ensures
        first_after(lines, query, from, p),
{
    lemma_reads_at(lines, query, p);
    assert forall|q: Pos| #[trigger] stands_after(lines, query, from, q) implies not_after(p, q) by {
        lemma_reads_at(lines, query, q);
    }
}

proof fn lemma_last_reading(lines: Seq<Seq<char>>, query: Seq<char>, from: Pos, p: Pos)
    requires
        last_reading(lines, query, from, p),
    ensures
        last_before(lines, query, from, p),
{
    lemma_reads_at(lines, query, p);
    assert forall|q: Pos| #[trigger] stands_before(lines, query, from, q) implies not_after(
        q,
        p,
    ) by {
        lemma_reads_at(lines, query, q);
    }
}

proof fn lemma_shows_match(e: EditorModel, reverse: bool, visible: int, from: Pos, p: Pos)
    requires
        editor_wf(e),
        starts_from(e, reverse, from),
        e.search->0.query.len() > 0,
        next_match(e.document.text.lines, e.search->0.query, from, reverse) is Some,
        next_match(e.document.text.lines, e.search->0.query, from, reverse)->0.start == p,
    ensures
        shows_match(found(e, reverse, visible), p, e.search->0.query),
{
    let lines = e.document.text.lines;
    let query = e.search->0.query;
    let hit = next_match(lines, query, from, reverse)->0;
    law_found_text_is_the_query(lines, query, from, reverse);
    lemma_clamped(lines, hit.start);
    lemma_clamped(lines, hit.end);
}

/// A search forward selects the first occurrence at or after the place where it
/// starts: the cursor, or the end of the match found last. Where there is none,
/// it goes round and selects the first occurrence of the text.
pub proof fn law_find_takes_the_next_occurrence(e: EditorModel, visible: int, from: Pos, p: Pos)
    requires
        editor_wf(e),
        starts_from(e, false, from),
        e.search->0.query.len() > 0,
    ensures
        ({
            let lines = e.document.text.lines;
            let query = e.search->0.query;
            let after = found(e, false, visible);
            &&& first_reading(lines, query, from, p) ==> shows_match(after, p, query)
            &&& (forall|q: Pos| #[trigger] reads_at(lines, query, q) ==> !in_order(from, q))
                && first_reading(lines, query, Pos { line: 0, column: 0 }, p) ==> shows_match(
                after,
                p,
                query,
            )
        }),
{
    let lines = e.document.text.lines;
    let query = e.search->0.query;
    if first_reading(lines, query, from, p) {
        lemma_first_reading(lines, query, from, p);
        lemma_forward_match(lines, query, from, p);
        lemma_shows_match(e, false, visible, from, p);
    }
    if (forall|q: Pos| #[trigger] reads_at(lines, query, q) ==> !in_order(from, q))
        && first_reading(lines, query, Pos { line: 0, column: 0 }, p) {
        if forward_match(lines, query, from) is Some {
            let q = choose|q: Pos| first_after(lines, query, from, q);
            assert(stands_after(lines, query, from, q));
            lemma_reads_at(lines, query, q);
        }
        lemma_first_reading(lines, query, start_pos(), p);
        lemma_forward_match(lines, query, start_pos(), p);
        lemma_shows_match(e, false, visible, from, p);
    }
}

/// A search back selects the last occurrence that ends at or before the place
/// where it starts: the cursor, or the start of the match found last. Where
/// there is none, it goes round and selects the last occurrence of the text.
pub proof fn law_find_back_takes_the_previous_occurrence(
    e: EditorModel,
    visible: int,
    from: Pos,
    p: Pos,
)
    requires
        editor_wf(e),
        starts_from(e, true, from),
        e.search->0.query.len() > 0,
    ensures
        ({
            let lines = e.document.text.lines;
            let query = e.search->0.query;
            let after = found(e, true, visible);
            let end = Pos { line: lines.len() - 1, column: lines[lines.len() - 1].len() as int };
            &&& last_reading(lines, query, from, p) ==> shows_match(after, p, query)
            &&& (forall|q: Pos| #[trigger]
                reads_at(lines, query, q) ==> !in_order(behind(query, q), from)) && last_reading(
                lines,
                query,
                end,
                p,
            ) ==> shows_match(after, p, query)
        }),
{
    let lines = e.document.text.lines;
    let query = e.search->0.query;
    let end = end_pos(lines);
    if last_reading(lines, query, from, p) {
        lemma_last_reading(lines, query, from, p);
        lemma_backward_match(lines, query, from, p);
        lemma_shows_match(e, true, visible, from, p);
    }
    if (forall|q: Pos| #[trigger]
        reads_at(lines, query, q) ==> !in_order(behind(query, q), from)) && last_reading(
        lines,
        query,
        end,
        p,
    ) {
        if backward_match(lines, query, from) is Some {
            let q = choose|q: Pos| last_before(lines, query, from, q);
            assert(stands_before(lines, query, from, q));
            lemma_reads_at(lines, query, q);
        }
        lemma_last_reading(lines, query, end, p);
        lemma_backward_match(lines, query, end, p);
        lemma_shows_match(e, true, visible, from, p);
    }
}

/// A search finds something as soon as the query stands anywhere: then some
/// place that reads like it is selected.
pub proof fn law_find_succeeds_where_it_can(
    e: EditorModel,
    reverse: bool,
    visible: int,
    q: Pos,
) -> (p: Pos)
    requires
        editor_wf(e),
        e.search is Some,
        e.search->0.query.len() > 0,
        reads_at(e.document.text.lines, e.search->0.query, q),
    ensures
        reads_at(e.document.text.lines, e.search->0.query, p),
        shows_match(found(e, reverse, visible), p, e.search->0.query),
{
    let lines = e.document.text.lines;
    let s = e.search->0;
    let from = match s.last_match {
        None => e.document.text.cursor,
        Some(hit) => if reverse {
            hit.start
        } else {
            hit.end
        },
    };
    lemma_reads_at(lines, s.query, q);
    law_search_is_complete(lines, s.query, from, reverse);
    assert(stands_at(lines, s.query, q));
    let hit = next_match(lines, s.query, from, reverse)->0;
    law_found_text_is_the_query(lines, s.query, from, reverse);
    lemma_reads_at(lines, s.query, hit.start);
    lemma_shows_match(e, reverse, visible, from, hit.start);
    hit.start
}

/// Where the query stands nowhere, a search changes nothing but the message.
pub proof fn law_vain_searches_change_nothing(e: EditorModel, reverse: bool, visible: int)
    requires
        editor_wf(e),
        e.search matches Some(s) && s.query.len() > 0 && forall|q: Pos|
            !#[trigger] reads_at(e.document.text.lines, s.query, q),
    ensures
        found(e, reverse, visible) == (EditorModel {
            status: Some("no match for '"@ + e.search->0.query + "'"@),
            ..e
        }),
{
    let lines = e.document.text.lines;
    let s = e.search->0;
    let from = if reverse {
        match s.last_match {
            Some(hit) => hit.start,
            None => e.document.text.cursor,
        }
    } else {
        match s.last_match {
            Some(hit) => hit.end,
            None => e.document.text.cursor,
        }
    };
    if next_match(lines, s.query, from, reverse) is Some {
        law_found_text_is_the_query(lines, s.query, from, reverse);
        let hit = next_match(lines, s.query, from, reverse)->0;
        lemma_reads_at(lines, s.query, hit.start);
    }
}

/// A search never edits: the lines, the file and the history stay, and so do
/// the tabs, the recent files and the clipboard.
pub proof fn law_searching_edits_nothing(e: EditorModel, reverse: bool, visible: int)
    ensures
        ({
            let after = found(e, reverse, visible);
            &&& after.document.text.lines == e.document.text.lines
            &&& after.document.text.dirty == e.document.text.dirty
            &&& after.document.text.path == e.document.text.path
            &&& after.document.undo == e.document.undo
            &&& after.document.redo == e.document.redo
            &&& after.tabs == e.tabs
            &&& after.active == e.active
            &&& after.prompt == e.prompt
            &&& after.recent == e.recent
            &&& after.local_clipboard == e.local_clipboard
            &&& after.should_quit == e.should_quit
        }),
{
}

/// F3 searches on and Shift+F3 back, if there is something to search for; else
/// it asks for it.
#[verifier::rlimit(60)]
pub proof fn law_f3_repeats_the_search(e: EditorModel, event: KeyEvent, cx: ContextModel)
    requires
        event.key is F3,
    ensures
        binding(event) == (Action::FindAgain { reverse: event.modifiers.shift }),
        ({
            let reverse = event.modifiers.shift;
            let (after, effect) = performed(e, Action::FindAgain { reverse }, cx);
            let asked = e.search matches Some(s) && trimmed(s.query).len() > 0;
            &&& effect is Nothing
            &&& asked ==> after == found(e, reverse, cx.visible)
            &&& !asked ==> after == (EditorModel { prompt: after.prompt, ..e }) && (
            after.prompt matches Some(p) && p.kind == PromptKind::FindQuery && p.input.len() == 0)
        }),
{
}

/// Enter hands in what was typed, without the white space around it, together
/// with the highlighted row of the palette; in the search prompt, Shift+Enter
/// searches back.
#[verifier::rlimit(60)]
pub proof fn law_enter_hands_in_the_input(e: EditorModel, event: KeyEvent, cx: ContextModel)
    requires
        e.prompt matches Some(p) && !(p.kind is ConfirmDiscard),
        event.key is Return,
    ensures
        ({
            let p = e.prompt->0;
            let (after, effect, reveal) = key_handled(e, event, cx);
            &&& !reveal
            &&& (after, effect) == submitted(
                e,
                p.kind,
                trimmed(p.input),
                p.kind is FindQuery && event.modifiers.shift,
                if p.kind is CommandPalette {
                    Some(p.selection_index as usize)
                } else {
                    None
                },
                cx,
            )
        }),
{
    let p = e.prompt->0;
    assert(EditorModel { prompt: Some(p), ..e } == e);
    assert(prompt_step(p, event).0 == p);
}

/// A query handed in is searched for. The same text as before goes on from its
/// last match; another one starts at the cursor. The prompt stays open. An empty
/// query only gives a message.
#[verifier::rlimit(60)]
pub proof fn law_queries_are_searched_for(
    e: EditorModel,
    input: Seq<char>,
    reverse: bool,
    row: Option<usize>,
    cx: ContextModel,
    s: SearchModel,
)
    requires
        s.query == input,
        (e.search matches Some(old) && old.query == input) ==> s == e.search->0,
        !(e.search matches Some(old) && old.query == input) ==> s.last_match is None,
    ensures
        ({
            let (after, effect) = submitted(e, PromptKind::FindQuery, input, reverse, row, cx);
            &&& effect is Nothing
            &&& after.prompt == e.prompt
            &&& input.len() > 0 ==> after == found(
                EditorModel { search: Some(s), ..e },
                reverse,
                cx.visible,
            )
            &&& input.len() == 0 ==> after == (EditorModel {
                status: Some("search query is empty"@),
                ..e
            })
        }),
{
    law_searching_edits_nothing(EditorModel { search: Some(s), ..e }, reverse, cx.visible);
}

// ---------------------------------------------------------------------------
// Files.

/// The document of a file that was read holds its text with every line end as
/// `\n`; it is clean, nothing is selected, and the cursor stands at the start.
/// The document of a file that does not exist is empty.
pub proof fn law_reading_a_file(path: Seq<char>, raw: Seq<char>)
    ensures
        ({
            let d = file_document(path, Some(raw));
            let none = file_document(path, None);
            &&& flat(d.text.lines) == normalized(raw)
            &&& forall|i: int|
                0 <= i < d.text.lines.len() ==> !(#[trigger] d.text.lines[i]).contains('\n')
            &&& d.text.path == Some(path)
            &&& !d.text.dirty
            &&& d.text.cursor == start_pos()
            &&& d.text.selection is None
            &&& d.undo.len() == 0
            &&& d.redo.len() == 0
            &&& d.text.newline_style == if has_substring(raw, seq!['\r', '\n']) {
                NewlineStyle::Crlf
            } else {
                NewlineStyle::Lf
            }
            &&& doc_wf(d)
            &&& none.text.lines == seq![Seq::<char>::empty()]
            &&& none.text.path == Some(path)
            &&& !none.text.dirty
            &&& none.text.newline_style == NewlineStyle::Lf
            &&& doc_wf(none)
        }),
{
    law_join_undoes_split(normalized(raw));
}

/// A text written for a document makes the same lines and the same line ending
/// again when it is read. A single line shows no line ending.
pub open spec fn writes_the_document(text: Seq<char>, d: DocModel) -> bool {
    &&& split(normalized(text)) == d.text.lines
    &&& d.text.newline_style is Lf || d.text.lines.len() > 1 ==> shown_style(text)
        == d.text.newline_style
    &&& forall|path: Seq<char>|
        (#[trigger] file_document(path, Some(text))).text.lines == d.text.lines
}

proof fn lemma_writes_the_document(d: DocModel)
    requires
        doc_wf(d),
        plain_lines(d.text.lines),
    ensures
        writes_the_document(written(d), d),
{
    law_reading_undoes_writing(d.text.lines, d.text.newline_style);
    if d.text.newline_style is Lf || d.text.lines.len() > 1 {
        law_style_is_recognized(d.text.lines, d.text.newline_style);
    }
}

/// A file to save to, handed in, closes the prompt and has the whole text
/// written to it. Until that is done nothing else changes; an empty path only
/// gives a message.
#[verifier::rlimit(60)]
pub proof fn law_save_as_writes_the_whole_text(
    e: EditorModel,
    input: Seq<char>,
    reverse: bool,
    row: Option<usize>,
    cx: ContextModel,
)
    requires
        editor_wf(e),
        plain_lines(e.document.text.lines),
    ensures
        ({
            let (after, effect) = submitted(e, PromptKind::SaveAsPath, input, reverse, row, cx);
            let closed = EditorModel { prompt: None, ..e };
            &&& input.len() > 0 ==> after == closed && (effect matches EffectModel::Save {
                path,
                text,
            } && path == typed_path(input, cx.home, cx.cwd) && writes_the_document(
                text,
                e.document,
            ))
            &&& input.len() == 0 ==> effect is Nothing && after == (EditorModel {
                status: Some("path is empty"@),
                ..closed
            })
        }),
{
    lemma_writes_the_document(e.document);
}

/// Saving has the whole text written to the file of the document; without one
/// the user is asked for a file, and nothing is written.
#[verifier::rlimit(60)]
pub proof fn law_save_writes_the_whole_text(e: EditorModel, cx: ContextModel)
    requires
        editor_wf(e),
        plain_lines(e.document.text.lines),
    ensures
        ({
            let (after, effect) = performed(e, Action::Save, cx);
            &&& after.document == e.document
            &&& after.tabs == e.tabs
            &&& e.document.text.path is Some ==> after == e && (effect matches EffectModel::Save {
                path,
                text,
            } && Some(path) == e.document.text.path && writes_the_document(text, e.document))
            &&& e.document.text.path is None ==> effect is Nothing && (after.prompt matches Some(p)
                && p.kind is SaveAsPath && p.input.len() == 0)
        }),
{
    lemma_writes_the_document(e.document);
}

/// After a file was written, the document belongs to it and is clean, the file
/// is the latest of the recent ones, and neither the text nor the cursor nor
/// the history has changed.
pub proof fn law_finished_saves_mark_the_document(e: EditorModel, path: Seq<char>)
    ensures
        ({
            let after = save_finished(e, path, None);
            &&& after.document.text == (TextModel {
                path: Some(path),
                dirty: false,
                ..e.document.text
            })
            &&& after.document.undo == e.document.undo
            &&& after.document.redo == e.document.redo
            &&& after.recent[0] == path
            &&& after.status == Some("saved "@ + path)
            &&& after.tabs == e.tabs
            &&& after.prompt == e.prompt
        }),
{
}

/// A file that was read stands in a new tab at the end, which is shown from its
/// top; it is the latest of the recent files.
pub proof fn law_opened_files_are_shown(
    e: EditorModel,
    path: Seq<char>,
    document: DocModel,
    existed: bool,
)
    requires
        editor_wf(e),
        document.text.path == Some(path),
    ensures
        ({
            let after = file_opened(e, path, document, existed);
            &&& after.tabs.len() == e.tabs.len() + 1
            &&& after.active == e.tabs.len()
            &&& after.document == document
            &&& after.viewport == 0
            &&& after.search is None
            &&& after.drag_anchor is None
            &&& after.recent[0] == path
            &&& after.status == Some(
                if existed {
                    "opened "@ + path
                } else {
                    "new file "@ + path
                },
            )
            &&& after.should_quit == e.should_quit
        }),
{
}

/// Asking for a file that some tab already shows goes to that tab, without
/// reading anything; asking for another one changes nothing yet and has it
/// read. No document changes either way.
pub proof fn law_opening_shows_the_wanted_file(
    e: EditorModel,
    path: Seq<char>,
    cx: ContextModel,
    i: int,
)
    requires
        editor_wf(e),
        0 <= i < e.tabs.len(),
    ensures
        ({
            let (after, effect) = open_requested(e, path, cx);
            let target = full_path(path, cx.cwd);
            &&& shown_document(after, i) == shown_document(e, i)
            &&& effect is Nothing ==> (after.document.text.path matches Some(shown) && same_path(
                full_path(shown, cx.cwd),
                target,
            )) && after.status == Some("switched to "@ + path)
            &&& !(effect is Nothing) ==> after == e && effect == (EffectModel::Open { path })
            &&& (shown_document(e, i).text.path matches Some(shown) && same_path(
                full_path(shown, cx.cwd),
                target,
            )) ==> effect is Nothing
        }),
{
    lemma_tab_from(e, full_path(path, cx.cwd), cx.cwd, 0);
}

/// A file to open, handed in, closes the prompt and is asked for; an empty path
/// only gives a message.
#[verifier::rlimit(60)]
pub proof fn law_typed_files_are_opened(
    e: EditorModel,
    input: Seq<char>,
    reverse: bool,
    row: Option<usize>,
    cx: ContextModel,
)
    ensures
        ({
            let (after, effect) = submitted(e, PromptKind::OpenPath, input, reverse, row, cx);
            let closed = EditorModel { prompt: None, ..e };
            &&& input.len() > 0 ==> (after, effect) == open_requested(
                closed,
                typed_path(input, cx.home, cx.cwd),
                cx,
            )
            &&& input.len() == 0 ==> effect is Nothing && after == (EditorModel {
                status: Some("path is empty"@),
                ..closed
            })
        }),
{
}

// ---------------------------------------------------------------------------
// Recent files.

proof fn lemma_others_without(recent: Seq<Seq<char>>, path: Seq<char>)
    requires
        forall|i: int| 0 <= i < recent.len() ==> !same_path(#[trigger] recent[i], path),
    ensures
        other_paths(recent, path) == recent,
    decreases recent.len(),
{
    if recent.len() > 0 {
        assert forall|i: int| 0 <= i < recent.drop_last().len() implies !same_path(
            #[trigger] recent.drop_last()[i],
            path,
        ) by {
            assert(recent.drop_last()[i] == recent[i]);
        }
        lemma_others_without(recent.drop_last(), path);
        assert(!same_path(recent[recent.len() - 1], path));
        assert(recent.drop_last().push(recent.last()) =~= recent);
    } else {
        assert(recent =~= Seq::empty());
    }
}

proof fn lemma_others_with(recent: Seq<Seq<char>>, path: Seq<char>, k: int)
    requires
        distinct_paths(recent),
        0 <= k < recent.len(),
        same_path(recent[k], path),
    ensures
        other_paths(recent, path) == recent.remove(k),
    decreases recent.len(),
{
    let init = recent.drop_last();
    assert forall|i: int| 0 <= i < recent.len() && i != k implies !same_path(
        #[trigger] recent[i],
        path,
    ) by {
        if same_path(recent[i], path) {
            law_same_path_is_an_equivalence(recent[i], path, recent[k]);
            law_same_path_is_an_equivalence(recent[k], path, recent[i]);
            if i < k {
                assert(!same_path(recent[i], recent[k]));
            } else {
                assert(!same_path(recent[k], recent[i]));
            }
        }
    }
    if k == recent.len() - 1 {
        assert forall|i: int| 0 <= i < init.len() implies !same_path(#[trigger] init[i], path) by {
            assert(init[i] == recent[i]);
        }
        lemma_others_without(init, path);
        assert(recent.remove(k) =~= init);
    } else {
        assert forall|i: int, j: int| 0 <= i < j < init.len() implies !same_path(
            #[trigger] init[i],
            #[trigger] init[j],
        ) by {
            assert(init[i] == recent[i] && init[j] == recent[j]);
        }
        lemma_others_with(init, path, k);
        assert(!same_path(recent[recent.len() - 1], path));
        assert(init.remove(k).push(recent.last()) =~= recent.remove(k));
    }
}

/// A file used again moves to the front and the others keep their order; a new
/// one comes to the front, and only when the list is full is the last forgotten.
pub proof fn law_remembering_moves_to_the_front(recent: Seq<Seq<char>>, path: Seq<char>, k: int)
    requires
        distinct_paths(recent),
        recent.len() <= MAX_RECENT_FILES,
    ensures
        0 <= k < recent.len() && same_path(recent[k], path) ==> remembered(recent, path) == seq![
            path,
        ] + recent.remove(k),
        (forall|i: int| 0 <= i < recent.len() ==> !same_path(#[trigger] recent[i], path))
            ==> remembered(recent, path) == seq![path] + (if recent.len() < MAX_RECENT_FILES {
            recent
        } else {
            recent.drop_last()
        }),
{
    if 0 <= k < recent.len() && same_path(recent[k], path) {
        lemma_others_with(recent, path, k);
    }
    if forall|i: int| 0 <= i < recent.len() ==> !same_path(#[trigger] recent[i], path) {
        lemma_others_without(recent, path);
        if recent.len() == MAX_RECENT_FILES {
            assert((seq![path] + recent).take(MAX_RECENT_FILES as int) =~= seq![path]
                + recent.drop_last());
        }
    }
}

proof fn lemma_first_holding(recent: Seq<Seq<char>>, query: Seq<char>)
    ensures
        match first_holding(recent, query) {
            Some(path) => exists|k: int|
                0 <= k < recent.len() && #[trigger] recent[k] == path && has_substring(
                    lowered(path),
                    query,
                ) && forall|j: int|
                    0 <= j < k ==> !has_substring(lowered(#[trigger] recent[j]), query),
            None => forall|j: int|
                0 <= j < recent.len() ==> !has_substring(lowered(#[trigger] recent[j]), query),
        },
    decreases recent.len(),
{
    if recent.len() > 0 && !has_substring(lowered(recent[0]), query) {
        let rest = recent.skip(1);
        lemma_first_holding(rest, query);
        match first_holding(rest, query) {
            Some(path) => {
                let k = choose|k: int|
                    0 <= k < rest.len() && #[trigger] rest[k] == path && has_substring(
                        lowered(path),
                        query,
                    ) && forall|j: int|
                        0 <= j < k ==> !has_substring(lowered(#[trigger] rest[j]), query);
                assert(recent[k + 1] == path);
                assert forall|j: int| 0 <= j < k + 1 implies !has_substring(
                    lowered(#[trigger] recent[j]),
                    query,
                ) by {
                    if j > 0 {
                        assert(rest[j - 1] == recent[j]);
                    }
                }
            },
            None => {
                assert forall|j: int| 0 <= j < recent.len() implies !has_substring(
                    lowered(#[trigger] recent[j]),
                    query,
                ) by {
                    if j > 0 {
                        assert(rest[j - 1] == recent[j]);
                    }
                }
            },
        }
    } else if recent.len() > 0 {
        assert(recent[0] == first_holding(recent, query)->0);
    }
}

/// A recent file is picked by its number in the list, counted from one; any
/// other number is out of range.
pub proof fn law_recent_files_go_by_number(recent: Seq<Seq<char>>, n: nat)
    requires
        recent.len() > 0,
        n <= usize::MAX,
    ensures
        1 <= n <= recent.len() ==> recent_pick(recent, decimal(n)) == RecentPick::File(
            recent[n - 1],
        ),
        !(1 <= n <= recent.len()) ==> recent_pick(recent, decimal(n)) == RecentPick::OutOfRange(n),
{
    law_parse_undoes_decimal(n);
    crate::number::lemma_decimal_digits(n);
}

/// A recent file is picked by a part of its path, whatever the case: the first
/// in the list that holds it. No input picks the latest file.
pub proof fn law_recent_files_go_by_name(recent: Seq<Seq<char>>, input: Seq<char>)
    requires
        recent.len() > 0,
        parsed(input) is None,
    ensures
        input.len() == 0 ==> recent_pick(recent, input) == RecentPick::File(recent[0]),
        input.len() > 0 ==> match recent_pick(recent, input) {
            RecentPick::File(path) => exists|k: int|
                0 <= k < recent.len() && #[trigger] recent[k] == path && has_substring(
                    lowered(path),
                    lowered(input),
                ) && forall|j: int|
                    0 <= j < k ==> !has_substring(lowered(#[trigger] recent[j]), lowered(input)),
            RecentPick::NoMatch => forall|j: int|
                0 <= j < recent.len() ==> !has_substring(
                    lowered(#[trigger] recent[j]),
                    lowered(input),
                ),
            _ => false,
        },
{
    lemma_first_holding(recent, lowered(input));
}

/// A recent file that is picked is asked for; where none is, only the message
/// changes.
#[verifier::rlimit(60)]
pub proof fn law_picked_recent_files_are_opened(
    e: EditorModel,
    input: Seq<char>,
    reverse: bool,
    row: Option<usize>,
    cx: ContextModel,
    path: Seq<char>,
)
    ensures
        ({
            let (after, effect) = submitted(e, PromptKind::OpenRecent, input, reverse, row, cx);
            let closed = EditorModel { prompt: None, ..e };
            let pick = recent_pick(e.recent, input);
            &&& pick == RecentPick::File(path) ==> (after, effect) == open_requested(
                closed,
                path,
                cx,
            )
            &&& !(pick is File) ==> effect is Nothing && after == (EditorModel {
                status: after.status,
                ..closed
            }) && after.status is Some
            &&& e.recent.len() == 0 ==> pick is NoFiles
        }),
{
}

// ---------------------------------------------------------------------------
// The clipboard.

/// Copying and cutting put exactly the selected text aside, for pasting and for
/// other programs, and change no document; with nothing selected they only say
/// so.
#[verifier::rlimit(60)]
pub proof fn law_copying_takes_the_selected_text(
    e: EditorModel,
    cut: bool,
    cx: ContextModel,
    s: Seq<char>,
)
    requires
        editor_wf(e),
        covers_text(e.document.text) ==> flat(e.document.text.lines) == text_before(
            e.document.text.lines,
            sel_start(e.document.text.selection->0),
        ) + s + text_after(e.document.text.lines, sel_end(e.document.text.selection->0)),
    ensures
        ({
            let (after, effect) = performed(
                e,
                if cut {
                    Action::Cut
                } else {
                    Action::Copy
                },
                cx,
            );
            &&& covers_text(e.document.text) ==> after == (EditorModel {
                local_clipboard: Some(s),
                selection_text: Some(s),
                ..e
            }) && effect == (EffectModel::OwnClipboard { cut, chars: s.len() })
            &&& !covers_text(e.document.text) ==> after == (EditorModel {
                status: Some("nothing selected"@),
                ..e
            }) && effect is Nothing
        }),
{
    if covers_text(e.document.text) {
        let lines = e.document.text.lines;
        let sel = e.document.text.selection->0;
        let a = sel_start(sel);
        let b = sel_end(sel);
        law_normalized_is_ordered(sel);
        law_range_cuts_text(lines, a, b);
        let before = text_before(lines, a);
        let rest = text_after(lines, b);
        let mid = text_between(lines, a, b);
        let whole = flat(lines);
        assert(whole.len() == before.len() + s.len() + rest.len());
        assert(mid.len() == s.len());
        assert((before + s + rest).subrange(before.len() as int, (before.len() + s.len()) as int)
            =~= s);
        assert((before + mid + rest).subrange(
            before.len() as int,
            (before.len() + s.len()) as int,
        ) =~= mid);
    }
}

/// Once other programs were told, a cut takes exactly the selected text away
/// and a copy changes no document; if telling them failed, only the message
/// changes.
pub proof fn law_finished_cuts_take_the_selection_away(
    e: EditorModel,
    chars: nat,
    error: Seq<char>,
)
    requires
        editor_wf(e),
        covers_text(e.document.text),
    ensures
        put_between(
            e.document.text,
            sel_start(e.document.text.selection->0),
            sel_end(e.document.text.selection->0),
            Seq::empty(),
            copy_finished(e, true, chars, None).document.text,
        ),
        copy_finished(e, true, chars, None) == (EditorModel {
            document: copy_finished(e, true, chars, None).document,
            status: Some("cut "@ + decimal(chars) + " chars"@),
            ..e
        }),
        copy_finished(e, false, chars, None) == (EditorModel {
            status: Some("copied "@ + decimal(chars) + " chars"@),
            ..e
        }),
        copy_finished(e, true, chars, Some(error)) == (EditorModel {
            status: Some("cut failed: "@ + error),
            ..e
        }),
        copy_finished(e, false, chars, Some(error)) == (EditorModel {
            status: Some("copy failed: "@ + error),
            ..e
        }),
{
    law_deleting_takes_the_selection(e.document, EditCommand::Delete);
}

/// `after` is `e` with a text pasted: in place of the selection, or at the
/// cursor, with the rest of the document untouched; and it can be undone.
pub open spec fn shows_paste(e: EditorModel, text: Seq<char>, after: EditorModel) -> bool {
    &&& put_between(
        e.document.text,
        edit_start(e.document.text),
        edit_end(e.document.text),
        text,
        after.document.text,
    )
    &&& applied(after.document, EditCommand::Undo).text == e.document.text
    &&& after.document.limit == e.document.limit
    &&& after.tabs == e.tabs
    &&& after.active == e.active
    &&& after.status == Some("pasted "@ + decimal(text.len()) + " chars"@)
    &&& after.prompt == e.prompt
    &&& after.search == e.search
    &&& after.should_quit == e.should_quit
}

proof fn lemma_pasted(e: EditorModel, text: Seq<char>)
    requires
        editor_wf(e),
        text.len() > 0,
    ensures
        shows_paste(e, text, pasted(e, text)),
{
    law_typing_puts_the_text(e.document.text, text);
    let t = e.document.text;
    let u = text_inserted(t, text);
    if u == t {
        lemma_typing_is_a_change(t, text);
    }
    let after = pasted(e, text).document;
    assert(after.undo.last() == t);
}

proof fn lemma_typing_is_a_change(t: TextModel, s: Seq<char>)
    requires
        text_wf(t),
        s.len() > 0,
    ensures
        text_inserted(t, s) != t,
{
    law_typing_puts_the_text(t, s);
    let u = text_inserted(t, s);
    if u == t {
        assert(t.selection is None);
        crate::laws::law_position_cuts_text(t.lines, t.cursor);
        let before = text_before(t.lines, t.cursor);
        let rest = text_after(t.lines, t.cursor);
        assert((before + s + rest).len() == before.len() + s.len() + rest.len());
        assert((before + rest).len() == before.len() + rest.len());
    }
}

/// A text that arrives from the clipboard replaces the selection, or goes in at
/// the cursor, and is kept for pasting again. An empty one falls back to what
/// was copied here last.
pub proof fn law_pasting_replaces_the_selection(e: EditorModel, text: Seq<char>)
    requires
        editor_wf(e),
    ensures
        text.len() > 0 ==> shows_paste(e, text, paste_arrived(e, text)) && paste_arrived(
            e,
            text,
        ).local_clipboard == Some(text),
        text.len() == 0 ==> (match e.local_clipboard {
            Some(own) => own.len() > 0 && shows_paste(e, own, paste_arrived(e, text)) || own.len()
                == 0 && paste_arrived(e, text) == (EditorModel {
                status: Some("clipboard is empty"@),
                ..e
            }),
            None => paste_arrived(e, text) == (EditorModel {
                status: Some("clipboard is empty"@),
                ..e
            }),
        }),
{
    if text.len() > 0 {
        lemma_pasted(EditorModel { local_clipboard: Some(text), ..e }, text);
    } else if let Some(own) = e.local_clipboard {
        if own.len() > 0 {
            lemma_pasted(e, own);
        }
    }
}

/// Asking for the clipboard is remembered until an answer comes; if asking
/// failed, what was copied here last is pasted instead.
pub proof fn law_failed_paste_requests_fall_back(
    e: EditorModel,
    selection: u32,
    error: Seq<char>,
)
    requires
        editor_wf(e),
    ensures
        paste_request_finished(e, selection, None) == (EditorModel {
            pending_paste: Some(selection),
            ..e
        }),
        match e.local_clipboard {
            Some(own) => own.len() > 0 && shows_paste(
                e,
                own,
                paste_request_finished(e, selection, Some(error)),
            ) || own.len() == 0 && paste_request_finished(e, selection, Some(error)) == (
            EditorModel { status: Some("paste request failed: "@ + error), ..e }),
            None => paste_request_finished(e, selection, Some(error)) == (EditorModel {
                status: Some("paste request failed: "@ + error),
                ..e
            }),
        },
{
    if let Some(own) = e.local_clipboard {
        if own.len() > 0 {
            lemma_pasted(e, own);
        }
    }
}

/// An answer is taken only if it was asked for and comes from the clipboard that
/// was asked; then the text is read, or, if the owner has none, what was copied
/// here last is pasted.
pub proof fn law_only_wanted_answers_are_pasted(e: EditorModel, selection: u32, property: u32)
    requires
        editor_wf(e),
    ensures
        ({
            let (after, effect) = paste_notified(e, selection, property);
            &&& after.pending_paste is None
            &&& e.pending_paste is None ==> after == e && effect is Nothing
            &&& e.pending_paste is Some && e.pending_paste != Some(selection) ==> after == (
            EditorModel { pending_paste: None, ..e }) && effect is Nothing
            &&& e.pending_paste == Some(selection) && property != 0 ==> after == (EditorModel {
                pending_paste: None,
                ..e
            }) && effect == (EffectModel::ReadProperty { property })
            &&& e.pending_paste == Some(selection) && property == 0 ==> effect is Nothing && match e.local_clipboard {
                Some(own) => own.len() > 0 && shows_paste(e, own, after) || own.len() == 0
                    && after.document == e.document,
                None => after.document == e.document,
            }
        }),
{
    let waiting = EditorModel { pending_paste: None, ..e };
    if let Some(own) = e.local_clipboard {
        if own.len() > 0 {
            lemma_pasted(waiting, own);
        }
    }
}

/// Pasting asks for the clipboard, and the middle button for the primary
/// selection; while an answer is awaited nothing more is asked for. Nothing
/// changes before the answer.
#[verifier::rlimit(60)]
pub proof fn law_pasting_asks_once(e: EditorModel, cx: ContextModel)
    ensures
        performed(e, Action::Paste, cx).0 == e,
        performed(e, Action::Paste, cx).1 == if e.pending_paste is Some {
            EffectModel::Nothing
        } else {
            EffectModel::RequestPaste { selection: cx.clipboard }
        },
        window_handled(e, InputEvent::PressMiddle, cx).0 == e,
        window_handled(e, InputEvent::PressMiddle, cx).1.effect == if e.pending_paste is Some {
            EffectModel::Nothing
        } else {
            EffectModel::RequestPaste { selection: cx.primary }
        },
        window_handled(e, InputEvent::SelectionClear, cx).0 == (EditorModel {
            pending_paste: None,
            ..e
        }),
{
}

/// What was cut and is pasted again at once leaves the text as it was.
pub proof fn law_cut_and_paste_restore_the_text(e: EditorModel, s: Seq<char>)
    requires
        editor_wf(e),
        covers_text(e.document.text),
        selected(e.document) == Some(s),
    ensures
        ({
            let (asked, _) = copy_requested(e, true);
            let cut = copy_finished(asked, true, s.len(), None);
            &&& cut.local_clipboard == Some(s)
            &&& flat(paste_arrived(cut, s).document.text.lines) == flat(e.document.text.lines)
        }),
{
    let t = e.document.text;
    let sel = t.selection->0;
    law_normalized_is_ordered(sel);
    law_deleting_takes_the_selection(e.document, EditCommand::Delete);
    law_paste_undoes_cut(t, sel);
    law_range_cuts_text(t.lines, sel_start(sel), sel_end(sel));
    if s.len() == 0 {
        let before = text_before(t.lines, sel_start(sel));
        let rest = text_after(t.lines, sel_end(sel));
        lemma_covering_is_some(t);
    }
}

proof fn lemma_covering_is_some(t: TextModel)
    requires
        text_wf(t),
        covers_text(t),
    ensures
        text_between(t.lines, sel_start(t.selection->0), sel_end(t.selection->0)).len() > 0,
{
    let a = sel_start(t.selection->0);
    let b = sel_end(t.selection->0);
    law_normalized_is_ordered(t.selection->0);
    if a.line != b.line {
        let pieces = (seq![t.lines[a.line].skip(a.column)] + t.lines.subrange(
            a.line + 1,
            b.line,
        )).push(t.lines[b.line].take(b.column));
        assert(pieces.len() >= 2);
        assert(joined(pieces, seq!['\n']).len() > 0);
    }
}

// ---------------------------------------------------------------------------
// Moving and selecting.

/// `after` is `d` with the cursor moved by the user. Extending moves the cursor
/// as the motion does and selects from where the selection was begun; moving
/// without extending drops the selection, and a motion back or on from a
/// selection goes to its start or its end.
pub open spec fn shows_motion(
    d: DocModel,
    command: EditCommand,
    extend: bool,
    after: DocModel,
) -> bool {
    let t = d.text;
    let u = after.text;
    let to = applied(d, command).text.cursor;
    let back = command is MoveLeft || command is MoveWordLeft || command is MoveUp
        || command is MovePageUp;
    let on = command is MoveRight || command is MoveWordRight || command is MoveDown
        || command is MovePageDown;
    let anchor = match t.selection {
        Some(s) => s.anchor,
        None => t.cursor,
    };
    &&& u == (TextModel { cursor: u.cursor, selection: u.selection, ..t })
    &&& after == (DocModel { text: u, ..d })
    &&& extend ==> u.cursor == to && u.selection == if anchor == to {
        None
    } else {
        Some(Sel { anchor, active: to })
    }
    &&& !extend ==> u.selection is None && u.cursor == if t.selection is Some && back {
        sel_start(t.selection->0)
    } else if t.selection is Some && on {
        sel_end(t.selection->0)
    } else {
        to
    }
}

proof fn lemma_motion(d: DocModel, command: EditCommand, extend: bool)
    requires
        doc_wf(d),
        !is_edit(command),
        !(command is Undo),
        !(command is Redo),
    ensures
        shows_motion(d, command, extend, user_moved(d, command, extend)),
{
    let t = d.text;
    let bare = TextModel { selection: None, ..t };
    law_moves_stay_in_bounds(t, command);
    lemma_clamped(t.lines, destination(t, command));
    lemma_clamped(t.lines, t.cursor);
    if let Some(s) = t.selection {
        lemma_clamped(t.lines, s.anchor);
        lemma_clamped(t.lines, s.active);
    }
    assert(destination(bare, command) == destination(t, command));
}

/// A motion of the user moves the cursor and selects as `shows_motion` says, and
/// changes nothing else.
#[verifier::rlimit(60)]
pub proof fn law_motions_select_or_move(
    e: EditorModel,
    action: Action,
    cx: ContextModel,
    command: EditCommand,
    extend: bool,
)
    requires
        editor_wf(e),
        motion(action, page_step(cx.visible) as usize) == Some((command, extend)),
    ensures
        performed(e, action, cx).1 is Nothing,
        performed(e, action, cx).0 == (EditorModel {
            document: performed(e, action, cx).0.document,
            ..e
        }),
        shows_motion(e.document, command, extend, performed(e, action, cx).0.document),
{
    lemma_motion(e.document, command, extend);
}

/// The motions of the keys are those of their names, and a page is one line less
/// than the window shows, but at least one.
pub proof fn law_motions_are_what_they_are_called(extend: bool, page: usize, visible: int)
    ensures
        motion(Action::Left { extend }, page) == Some((EditCommand::MoveLeft, extend)),
        motion(Action::Right { extend }, page) == Some((EditCommand::MoveRight, extend)),
        motion(Action::Up { extend }, page) == Some((EditCommand::MoveUp, extend)),
        motion(Action::Down { extend }, page) == Some((EditCommand::MoveDown, extend)),
        motion(Action::WordLeft { extend }, page) == Some((EditCommand::MoveWordLeft, extend)),
        motion(Action::WordRight { extend }, page) == Some((EditCommand::MoveWordRight, extend)),
        motion(Action::LineStart { extend }, page) == Some((EditCommand::MoveLineStart, extend)),
        motion(Action::LineEnd { extend }, page) == Some((EditCommand::MoveLineEnd, extend)),
        motion(Action::PageUp { extend }, page) == Some((EditCommand::MovePageUp(page), extend)),
        motion(Action::PageDown { extend }, page) == Some(
            (EditCommand::MovePageDown(page), extend),
        ),
        visible > 1 ==> page_step(visible) == visible - 1,
        visible <= 1 ==> page_step(visible) == 1,
{
}

/// Selecting everything puts the cursor at the end and selects from the start;
/// an empty text has nothing to select.
#[verifier::rlimit(60)]
pub proof fn law_select_all_spans_the_text(e: EditorModel, cx: ContextModel)
    requires
        editor_wf(e),
    ensures
        ({
            let lines = e.document.text.lines;
            let end = Pos { line: lines.len() - 1, column: lines[lines.len() - 1].len() as int };
            let after = performed(e, Action::SelectAll, cx).0;
            let first = Pos { line: 0, column: 0 };
            &&& after == (EditorModel { document: after.document, ..e })
            &&& after.document.text == (TextModel {
                cursor: end,
                selection: if end == first {
                    None
                } else {
                    Some(Sel { anchor: first, active: end })
                },
                ..e.document.text
            })
        }),
{
    lemma_clamped(e.document.text.lines, end_pos(e.document.text.lines));
    lemma_clamped(e.document.text.lines, start_pos());
}

proof fn lemma_cut_to_line_start(d: DocModel)
    requires
        doc_wf(d),
    ensures
        ({
            let t = d.text;
            let c = t.cursor;
            let left = cut_to_line_start(d).text;
            &&& c.column > 0 ==> put_between(t, Pos { line: c.line, column: 0 }, c, Seq::empty(), left)
            &&& c.column == 0 && c.line > 0 && t.selection is None ==> put_between(
                t,
                left_of(t.lines, c),
                c,
                Seq::empty(),
                left,
            )
            &&& c == start_pos() ==> left == t
        }),
{
    let t = d.text;
    let c = t.cursor;
    let first = Pos { line: c.line, column: 0 };
    lemma_clamped(t.lines, first);
    lemma_clamped(t.lines, c);
    if c.column > 0 {
        let over = selecting(d, Some(Sel { anchor: first, active: c }));
        law_deleting_takes_the_selection(over, EditCommand::Delete);
    } else if c.line > 0 && t.selection is None {
        law_deleting_back(d);
    }
}

proof fn lemma_cut_to_line_end(d: DocModel)
    requires
        doc_wf(d),
    ensures
        ({
            let t = d.text;
            let c = t.cursor;
            let len = t.lines[c.line].len() as int;
            let right = cut_to_line_end(d).text;
            &&& c.column < len ==> put_between(
                t,
                c,
                Pos { line: c.line, column: len },
                Seq::empty(),
                right,
            )
            &&& c.column == len && t.selection is None && c != end_pos(t.lines) ==> put_between(
                t,
                c,
                right_of(t.lines, c),
                Seq::empty(),
                right,
            )
            &&& t.selection is None && c == end_pos(t.lines) ==> right == t
        }),
{
    let t = d.text;
    let c = t.cursor;
    let len = t.lines[c.line].len() as int;
    let last = Pos { line: c.line, column: len };
    lemma_clamped(t.lines, last);
    lemma_clamped(t.lines, c);
    if c.column < len {
        let over = selecting(d, Some(Sel { anchor: c, active: last }));
        law_deleting_takes_the_selection(over, EditCommand::Delete);
    } else if t.selection is None && c != end_pos(t.lines) {
        law_deleting_forward(d);
    }
}

/// Deleting to the start of the line takes what stands before the cursor, and
/// at the start of the line the line end before it.
#[verifier::rlimit(60)]
pub proof fn law_lines_are_cut_before_the_cursor(e: EditorModel, cx: ContextModel)
    requires
        editor_wf(e),
    ensures
        ({
            let t = e.document.text;
            let c = t.cursor;
            let left = performed(e, Action::DeleteToLineStart, cx).0.document.text;
            &&& c.column > 0 ==> put_between(t, Pos { line: c.line, column: 0 }, c, Seq::empty(), left)
            &&& c.column == 0 && c.line > 0 && t.selection is None ==> put_between(
                t,
                left_of(t.lines, c),
                c,
                Seq::empty(),
                left,
            )
            &&& c == start_pos() ==> left == t
        }),
{
    lemma_cut_to_line_start(e.document);
}

/// Deleting to the end of the line takes what stands behind the cursor, and at
/// the end of the line the line end itself.
#[verifier::rlimit(60)]
pub proof fn law_lines_are_cut_behind_the_cursor(e: EditorModel, cx: ContextModel)
    requires
        editor_wf(e),
    ensures
        ({
            let t = e.document.text;
            let c = t.cursor;
            let len = t.lines[c.line].len() as int;
            let right = performed(e, Action::DeleteToLineEnd, cx).0.document.text;
            &&& c.column < len ==> put_between(
                t,
                c,
                Pos { line: c.line, column: len },
                Seq::empty(),
                right,
            )
            &&& c.column == len && t.selection is None && c != end_pos(t.lines) ==> put_between(
                t,
                c,
                right_of(t.lines, c),
                Seq::empty(),
                right,
            )
            &&& t.selection is None && c == end_pos(t.lines) ==> right == t
        }),
{
    lemma_cut_to_line_end(e.document);
}

/// The Tab key puts as many blanks as a tab is wide in place of the selection,
/// or at the cursor.
#[verifier::rlimit(60)]
pub proof fn law_tab_inserts_blanks(e: EditorModel, cx: ContextModel)
    requires
        editor_wf(e),
    ensures
        put_between(
            e.document.text,
            edit_start(e.document.text),
            edit_end(e.document.text),
            Seq::new(e.tab_width, |i: int| ' '),
            performed(e, Action::InsertTab, cx).0.document.text,
        ),
        performed(e, Action::InsertTab, cx).0 == (EditorModel {
            document: performed(e, Action::InsertTab, cx).0.document,
            ..e
        }),
{
    law_typing_puts_the_text(e.document.text, Seq::new(e.tab_width, |i: int| ' '));
}

/// The editing keys do what their commands do to the document, and nothing to
/// the rest of the editor.
#[verifier::rlimit(60)]
pub proof fn law_edits_reach_the_document(
    e: EditorModel,
    action: Action,
    command: EditCommand,
    cx: ContextModel,
)
    requires
        edit(action) == Some(command),
    ensures
        performed(e, action, cx).0 == (EditorModel {
            document: applied(e.document, command),
            ..e
        }),
        performed(e, action, cx).1 is Nothing,
{
}

// ---------------------------------------------------------------------------
// Tabs.

/// Going to a tab shows its document and search as they were left, from the
/// same line as far as the text reaches; going nowhere changes nothing. Pressing
/// a tab goes to it.
#[verifier::rlimit(60)]
pub proof fn law_going_to_a_tab_shows_it(e: EditorModel, index: usize, cx: ContextModel)
    requires
        editor_wf(e),
    ensures
        ({
            let (after, step) = window_handled(e, InputEvent::PressTab { index }, cx);
            &&& step.effect is Nothing
            &&& index < e.tabs.len() && index != e.active ==> {
                &&& after.active == index
                &&& after.document == e.tabs[index as int].document
                &&& after.search == e.tabs[index as int].search
                &&& after.viewport <= e.tabs[index as int].viewport
                &&& e.tabs[index as int].viewport <= last_top(
                    e.tabs[index as int].document,
                    cx.visible,
                ) ==> after.viewport == e.tabs[index as int].viewport
                &&& after.prompt is None
                &&& after.drag_anchor is None
                &&& after.tabs.len() == e.tabs.len()
                &&& after.tabs[e.active] == (TabModel {
                    document: e.document,
                    viewport: e.viewport,
                    search: e.search,
                })
                &&& after.recent == e.recent
                &&& after.status == e.status
                &&& after.local_clipboard == e.local_clipboard
                &&& after.should_quit == e.should_quit
            }
            &&& index >= e.tabs.len() || index == e.active ==> after == e
        }),
{
}

/// Switching goes to the tab on the right or on the left, and from the last to
/// the first or from the first to the last; the message says which it is.
#[verifier::rlimit(60)]
pub proof fn law_switching_goes_round(e: EditorModel, forward: bool, cx: ContextModel)
    requires
        editor_wf(e),
    ensures
        ({
            let n = e.tabs.len() as int;
            let (after, effect) = performed(e, Action::SwitchTab { forward }, cx);
            &&& effect is Nothing
            &&& n == 1 ==> after == e
            &&& n > 1 ==> {
                &&& after.active == if forward {
                    if e.active == n - 1 {
                        0
                    } else {
                        e.active + 1
                    }
                } else if e.active == 0 {
                    n - 1
                } else {
                    e.active - 1
                }
                &&& after.document == e.tabs[after.active].document
                &&& after.search == e.tabs[after.active].search
                &&& after.status == Some(
                    "tab "@ + decimal((after.active + 1) as nat) + "/"@ + decimal(e.tabs.len()),
                )
            }
        }),
{
    lemma_neighbour(e, forward);
}

/// A new tab stands behind the others and holds an empty, clean document
/// without a file.
#[verifier::rlimit(60)]
pub proof fn law_new_tabs_are_empty(e: EditorModel, cx: ContextModel, i: int)
    requires
        editor_wf(e),
        0 <= i < e.tabs.len(),
    ensures
        ({
            let (after, effect) = performed(e, Action::NewTab, cx);
            &&& effect is Nothing
            &&& after.tabs.len() == e.tabs.len() + 1
            &&& after.active == e.tabs.len()
            &&& after.document.text.lines == seq![Seq::<char>::empty()]
            &&& after.document.text.path is None
            &&& !after.document.text.dirty
            &&& after.document.undo.len() == 0
            &&& after.document.redo.len() == 0
            &&& after.search is None
            &&& after.viewport == 0
            &&& after.prompt is None
            &&& after.status == Some("new tab"@)
            &&& shown_document(after, i) == shown_document(e, i)
            &&& after.recent == e.recent
            &&& after.should_quit == e.should_quit
        }),
{
}

// ---------------------------------------------------------------------------
// Leaving.

/// Leaving is granted exactly when no document that is shown or kept has
/// changes to save; else the user is asked, and nothing is lost.
#[verifier::rlimit(60)]
pub proof fn law_leaving_is_granted_when_all_is_saved(e: EditorModel, cx: ContextModel)
    requires
        editor_wf(e),
    ensures
        ({
            let dirty = exists|i: int|
                0 <= i < e.tabs.len() && (#[trigger] shown_document(e, i)).text.dirty;
            let quit = performed(e, Action::Quit, cx).0;
            let closed = window_handled(e, InputEvent::CloseRequested, cx).0;
            let remote = remote_applied(e, Command::Quit, cx);
            &&& quit == closed
            &&& !dirty ==> quit == (EditorModel { should_quit: true, ..e })
            &&& dirty ==> (quit.prompt matches Some(p) && p.kind == (PromptKind::ConfirmDiscard {
                next: PendingAction::Quit,
            })) && quit == (EditorModel { prompt: quit.prompt, ..e })
            &&& dirty ==> remote.0 == e && (remote.1 matches RemoteModel::Reply { response, redraw }
                && !response.success && response.error is Some && !redraw)
            &&& !dirty ==> remote.0 == (EditorModel { should_quit: true, ..e }) && (
            remote.1 matches RemoteModel::Reply { response, redraw } && response.success && redraw)
        }),
{
    if unsaved(e) {
        if e.document.text.dirty {
            assert(shown_document(e, e.active).text.dirty);
        } else {
            let i = choose|i: int|
                0 <= i < e.tabs.len() && i != e.active && (#[trigger] e.tabs[i]).document.text.dirty;
            assert(shown_document(e, i).text.dirty);
        }
    }
}

/// Escape first drops a selection and changes nothing else; without one it asks
/// to leave.
#[verifier::rlimit(60)]
pub proof fn law_escape_drops_the_selection_first(e: EditorModel, cx: ContextModel)
    requires
        editor_wf(e),
    ensures
        e.document.text.selection is Some ==> performed(e, Action::Escape, cx).0 == (EditorModel {
            document: DocModel {
                text: TextModel { selection: None, ..e.document.text },
                ..e.document
            },
            ..e
        }),
        e.document.text.selection is None ==> performed(e, Action::Escape, cx) == performed(
            e,
            Action::Quit,
            cx,
        ),
{
}

// ---------------------------------------------------------------------------
// Going to a line.

/// Going to a line and a column, counted from one, puts the cursor there, or at
/// the nearest place there is: the last line, the end of the line. Nothing is
/// selected then, and the text stays.
pub proof fn law_jumping_lands_at_the_nearest_place(
    e: EditorModel,
    line: int,
    column: int,
    visible: int,
)
    requires
        editor_wf(e),
        e.viewport >= 0,
        line >= 1,
        column >= 1,
    ensures
        ({
            let lines = e.document.text.lines;
            let after = jumped(e, line, column, visible);
            let to = after.document.text.cursor;
            &&& to.line == if line <= lines.len() {
                line - 1
            } else {
                lines.len() - 1
            }
            &&& to.column == if column - 1 <= lines[to.line].len() {
                column - 1
            } else {
                lines[to.line].len() as int
            }
            &&& after.document.text == (TextModel { cursor: to, selection: None, ..e.document.text })
            &&& after == (EditorModel {
                document: after.document,
                viewport: after.viewport,
                ..e
            })
            &&& after.viewport <= to.line
            &&& to.line < after.viewport + visible || to.line == after.viewport
        }),
{
}

/// A line to go to, handed in: the cursor goes there, and the message says where
/// it stands; an input that names no line only gives a message.
pub proof fn law_lines_handed_in_are_gone_to(
    e: EditorModel,
    input: Seq<char>,
    visible: int,
    line: nat,
    column: nat,
)
    ensures
        ({
            let after = go_to_submitted(e, input, visible);
            let to = after.document.text.cursor;
            &&& go_to(input) == (GoToModel::At { line, column }) ==> after == (EditorModel {
                status: Some(
                    "jumped to "@ + decimal((to.line + 1) as nat) + ":"@ + decimal(
                        (to.column + 1) as nat,
                    ),
                ),
                ..jumped(e, line as int, column as int, visible)
            })
            &&& !(go_to(input) is At) ==> after == (EditorModel { status: after.status, ..e })
                && after.status is Some
        }),
{
}

/// A line handed in to the prompt closes it.
#[verifier::rlimit(60)]
pub proof fn law_line_prompts_are_closed(
    e: EditorModel,
    input: Seq<char>,
    reverse: bool,
    row: Option<usize>,
    cx: ContextModel,
)
    ensures
        submitted(e, PromptKind::GoToLine, input, reverse, row, cx) == (
            go_to_submitted(EditorModel { prompt: None, ..e }, input, cx.visible),
            EffectModel::Nothing,
        ),
{
}

// ---------------------------------------------------------------------------
// Prompts.

/// What a prompt that was just opened asks for and suggests.
pub open spec fn asks(after: EditorModel, e: EditorModel, kind: PromptKind, seed: Seq<char>) -> bool {
    &&& after == (EditorModel { prompt: after.prompt, ..e })
    &&& after.prompt matches Some(p) && p.kind == kind && p.input == seed && p.selection_index == 0
}

/// The actions that ask for a file or a command open the prompt for it; saving
/// under another name suggests the file of the document.
#[verifier::rlimit(60)]
pub proof fn law_prompts_ask_for_files_and_commands(e: EditorModel, cx: ContextModel)
    ensures
        ({
            let none = Seq::<char>::empty();
            &&& asks(performed(e, Action::OpenFile, cx).0, e, PromptKind::OpenPath, none)
            &&& asks(performed(e, Action::OpenRecent, cx).0, e, PromptKind::OpenRecent, none)
            &&& asks(performed(e, Action::CommandPalette, cx).0, e, PromptKind::CommandPalette, none)
            &&& asks(
                performed(e, Action::SaveAs, cx).0,
                e,
                PromptKind::SaveAsPath,
                match e.document.text.path {
                    Some(path) => path,
                    None => none,
                },
            )
        }),
{
}

/// Going to a line suggests the line of the cursor.
#[verifier::rlimit(60)]
pub proof fn law_prompts_ask_for_lines(e: EditorModel, cx: ContextModel)
    ensures
        asks(
            performed(e, Action::GoToLine, cx).0,
            e,
            PromptKind::GoToLine,
            decimal((e.document.text.cursor.line + 1) as nat),
        ),
{
}

/// Searching suggests the last query, which the first key replaces.
#[verifier::rlimit(60)]
pub proof fn law_prompts_ask_for_queries(e: EditorModel, cx: ContextModel)
    ensures
        ({
            let after = performed(e, Action::FindPrompt, cx).0;
            &&& asks(
                after,
                e,
                PromptKind::FindQuery,
                match e.search {
                    Some(s) => trimmed(s.query),
                    None => Seq::empty(),
                },
            )
            &&& after.prompt->0.replace_on_type == (e.search matches Some(s) && trimmed(
                s.query,
            ).len() > 0)
        }),
{
    if let Some(s) = e.search {
        if trimmed(s.query).len() == 0 {
            assert(trimmed(s.query) =~= Seq::empty());
        }
    }
}

/// Moving down the palette goes to the next row, and from the last to the
/// first; moving up undoes it.
pub proof fn law_palette_rows_go_round(e: EditorModel, p: PromptModel)
    requires
        e.prompt == Some(p),
        p.kind is CommandPalette,
        0 <= p.selection_index < fitting(p.input, covers_text(e.document.text)).len(),
    ensures
        ({
            let rows = fitting(p.input, covers_text(e.document.text)).len() as int;
            let down = row_moved(e, true);
            let up = row_moved(e, false);
            &&& down == (EditorModel { prompt: down.prompt, ..e })
            &&& down.prompt == Some(
                PromptModel {
                    selection_index: if p.selection_index == rows - 1 {
                        0
                    } else {
                        p.selection_index + 1
                    },
                    ..p
                },
            )
            &&& row_moved(down, false) == e
            &&& row_moved(up, true) == e
        }),
{
    let rows = fitting(p.input, covers_text(e.document.text)).len() as int;
    let i = p.selection_index;
    vstd::arithmetic::div_mod::lemma_small_mod(i as nat, rows as nat);
    if i == rows - 1 {
        vstd::arithmetic::div_mod::lemma_mod_self_0(rows);
    } else {
        vstd::arithmetic::div_mod::lemma_small_mod((i + 1) as nat, rows as nat);
    }
    if i == 0 {
        vstd::arithmetic::div_mod::lemma_mod_add_multiples_vanish(-1, rows);
        vstd::arithmetic::div_mod::lemma_small_mod((rows - 1) as nat, rows as nat);
        vstd::arithmetic::div_mod::lemma_mod_self_0(rows);
    } else {
        vstd::arithmetic::div_mod::lemma_small_mod((i - 1) as nat, rows as nat);
    }
    if rows > 1 {
        vstd::arithmetic::div_mod::lemma_mod_add_multiples_vanish(-1, rows);
        vstd::arithmetic::div_mod::lemma_small_mod((rows - 1) as nat, rows as nat);
    }
    assert(row_moved(row_moved(e, true), false).prompt->0 == p);
    assert(row_moved(row_moved(e, false), true).prompt->0 == p);
}

/// The palette runs the highlighted command, or the last one where there are
/// fewer, and closes; where no command fits, only the message changes.
#[verifier::rlimit(60)]
pub proof fn law_the_highlighted_command_is_run(
    e: EditorModel,
    input: Seq<char>,
    reverse: bool,
    row: usize,
    cx: ContextModel,
)
    ensures
        ({
            let (after, effect) = submitted(
                e,
                PromptKind::CommandPalette,
                input,
                reverse,
                Some(row),
                cx,
            );
            let closed = EditorModel { prompt: None, ..e };
            let list = fitting(trimmed(input), covers_text(e.document.text));
            &&& list.len() > row ==> (after, effect) == palette_run(closed, list[row as int], cx)
            &&& 0 < list.len() <= row ==> (after, effect) == palette_run(
                closed,
                list[list.len() - 1],
                cx,
            )
            &&& list.len() == 0 ==> effect is Nothing && after == (EditorModel {
                status: Some("no command matching '"@ + trimmed(input) + "'"@),
                ..closed
            })
        }),
{
}

/// Every command of the palette does what the key for it does; the three session
/// commands ask for the session to be written, read or removed.
#[verifier::rlimit(60)]
pub proof fn law_palette_commands_do_what_they_say(
    e: EditorModel,
    command: PaletteCommand,
    cx: ContextModel,
)
    ensures
        palette_run(e, PaletteCommand::SaveSession, cx) == (e, EffectModel::SaveSession),
        palette_run(e, PaletteCommand::RestoreSession, cx) == (e, EffectModel::RestoreSession),
        palette_run(e, PaletteCommand::ClearSession, cx) == (e, EffectModel::ClearSession),
        !(command is SaveSession || command is RestoreSession || command is ClearSession)
            ==> palette_run(e, command, cx) == performed(e, palette_action(command), cx),
{
}

/// The actions of the palette commands are those of their names.
pub proof fn law_palette_actions_are_what_they_are_called()
    ensures
        palette_action(PaletteCommand::OpenFile) == Action::OpenFile,
        palette_action(PaletteCommand::OpenRecent) == Action::OpenRecent,
        palette_action(PaletteCommand::Save) == Action::Save,
        palette_action(PaletteCommand::SaveAs) == Action::SaveAs,
        palette_action(PaletteCommand::NewTab) == Action::NewTab,
        palette_action(PaletteCommand::NextTab) == (Action::SwitchTab { forward: true }),
        palette_action(PaletteCommand::PrevTab) == (Action::SwitchTab { forward: false }),
        palette_action(PaletteCommand::Find) == Action::FindPrompt,
        palette_action(PaletteCommand::FindNext) == (Action::FindAgain { reverse: false }),
        palette_action(PaletteCommand::FindPrev) == (Action::FindAgain { reverse: true }),
        palette_action(PaletteCommand::GoToLine) == Action::GoToLine,
        palette_action(PaletteCommand::Copy) == Action::Copy,
        palette_action(PaletteCommand::Cut) == Action::Cut,
        palette_action(PaletteCommand::Paste) == Action::Paste,
        palette_action(PaletteCommand::Quit) == Action::Quit,
{
}

} // verus!

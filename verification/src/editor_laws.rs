//! What holds of the editor as a whole.
use crate::command::EditCommand;
#[allow(unused_imports)]
use crate::cursor::{start_pos, Pos};
#[allow(unused_imports)]
use crate::display::shown_document;
#[allow(unused_imports)]
use crate::keys::{binding, edit, motion, Action, Key, KeyEvent};
#[allow(unused_imports)]
use crate::laws::{flat, law_opening_undoes_saving};
#[allow(unused_imports)]
use crate::layout::at_least;
#[allow(unused_imports)]
use crate::model::{
    applied, covers_text, doc_wf, end_pos, law_commands_keep_documents_well_formed, lemma_clamped,
    lemma_newest, lemma_pushed, lemma_text_inserted, DocModel, TextModel,
};
#[allow(unused_imports)]
use crate::newline::plain_lines;
#[allow(unused_imports)]
use crate::number::{decimal, is_digit, law_parse_undoes_decimal, lemma_decimal_digits};
#[allow(unused_imports)]
use crate::palette::{palette_choice, PaletteChoice, PaletteCommand};
#[allow(unused_imports)]
use crate::paths::{full_path, typed_path};
#[allow(unused_imports)]
use crate::prompt::{
    colon_at, go_to, lemma_colon_at, prompt_step, GoToModel, PromptKind, PromptStep,
};
#[allow(unused_imports)]
use crate::search::{law_found_text_is_the_query, next_match, search_origin};
#[allow(unused_imports)]
use crate::selection::{sel_end, sel_start, Sel};
#[allow(unused_imports)]
use crate::state::{
    activated, all_selected, anchor_of, blanks, controlled, copy_requested, cut_to_line_end, cut_to_line_start,
    editor_wf, event_handled, file_document, file_opened, found, go_to_submitted, key_handled,
    law_revealed_cursor_is_visible, lemma_neighbour, neighbour, open_requested, page_step,
    palette_action, palette_run, performed, persisted, placing, query_set, recent_pick,
    save_finished, save_requested, selected, selecting, submitted, tab_added, tab_of_path, tabs_wf,
    typed, unsaved, user_moved, with_prompt, ContextModel, EditorModel, EffectModel, InputEvent,
    RecentPick,
};
#[allow(unused_imports)]
use crate::text::trimmed;
use vstd::prelude::*;

verus! {

// ---------------------------------------------------------------------------
// Documents stay well formed.

proof fn lemma_selecting(d: DocModel, s: Option<Sel>)
    requires
        doc_wf(d),
        s matches Some(sel) ==> 0 <= sel.anchor.line && 0 <= sel.anchor.column && 0
            <= sel.active.line && 0 <= sel.active.column,
    ensures
        doc_wf(selecting(d, s)),
{
    if let Some(sel) = s {
        lemma_clamped(d.text.lines, sel.anchor);
        lemma_clamped(d.text.lines, sel.active);
    }
}

proof fn lemma_placing(d: DocModel, p: Pos)
    requires
        doc_wf(d),
        0 <= p.line,
        0 <= p.column,
    ensures
        doc_wf(placing(d, p)),
{
    lemma_clamped(d.text.lines, p);
}

proof fn lemma_typed(d: DocModel, text: Seq<char>)
    requires
        doc_wf(d),
    ensures
        doc_wf(typed(d, text)),
{
    lemma_text_inserted(d.text, text);
    lemma_pushed(d.undo, d.text);
    lemma_newest(d.undo.push(d.text), d.limit);
}

proof fn lemma_user_moved(d: DocModel, command: EditCommand, extend: bool)
    requires
        doc_wf(d),
    ensures
        doc_wf(user_moved(d, command, extend)),
{
    if extend {
        let after = applied(d, command);
        law_commands_keep_documents_well_formed(d, command);
        if anchor_of(d) != after.text.cursor {
            lemma_selecting(
                after,
                Some(Sel { anchor: anchor_of(d), active: after.text.cursor }),
            );
        }
    } else {
        let bare = selecting(d, None);
        law_commands_keep_documents_well_formed(bare, command);
        if d.text.selection is Some {
            lemma_placing(bare, sel_start(d.text.selection->0));
            lemma_placing(bare, sel_end(d.text.selection->0));
        }
    }
}

proof fn lemma_all_selected(d: DocModel)
    requires
        doc_wf(d),
    ensures
        doc_wf(all_selected(d)),
{
    let end = end_pos(d.text.lines);
    lemma_placing(d, end);
    lemma_selecting(placing(d, end), Some(Sel { anchor: start_pos(), active: end }));
}

proof fn lemma_cut_line(d: DocModel)
    requires
        doc_wf(d),
    ensures
        doc_wf(cut_to_line_start(d)),
        doc_wf(cut_to_line_end(d)),
{
    let c = d.text.cursor;
    let len = d.text.lines[c.line].len() as int;
    let back = Some(Sel { anchor: Pos { column: 0, ..c }, active: c });
    let on = Some(Sel { anchor: c, active: Pos { column: len, ..c } });
    lemma_selecting(d, back);
    lemma_selecting(d, on);
    law_commands_keep_documents_well_formed(selecting(d, back), EditCommand::Delete);
    law_commands_keep_documents_well_formed(selecting(d, on), EditCommand::Delete);
    law_commands_keep_documents_well_formed(d, EditCommand::Delete);
    law_commands_keep_documents_well_formed(d, EditCommand::Backspace);
}

proof fn lemma_tabs(e: EditorModel, visible: int)
    requires
        editor_wf(e),
    ensures
        tabs_wf(persisted(e)),
        forall|i: int| editor_wf(#[trigger] activated(e, i, visible)),
        editor_wf(tab_added(e)),
{
    let kept = persisted(e);
    assert forall|i: int| 0 <= i < kept.len() implies doc_wf((#[trigger] kept[i]).document) by {
        assert(doc_wf(e.tabs[i].document));
    }
    assert forall|i: int| editor_wf(#[trigger] activated(e, i, visible)) by {
        if 0 <= i < e.tabs.len() {
            assert(doc_wf(e.tabs[i].document));
        }
    }
    let added = tab_added(e).tabs;
    assert forall|i: int| 0 <= i < added.len() implies doc_wf((#[trigger] added[i]).document) by {
        if i < kept.len() {
            assert(added[i] == kept[i]);
        }
    }
}

proof fn lemma_found(e: EditorModel, reverse: bool, visible: int)
    requires
        editor_wf(e),
    ensures
        editor_wf(found(e, reverse, visible)),
{
    if let Some(search) = e.search {
        let lines = e.document.text.lines;
        let from = search_origin(search, e.document.text.cursor, reverse);
        if next_match(lines, search.query, from, reverse) is Some {
            let hit = next_match(lines, search.query, from, reverse)->0;
            law_found_text_is_the_query(lines, search.query, from, reverse);
            lemma_placing(e.document, hit.end);
            lemma_selecting(
                placing(e.document, hit.end),
                Some(Sel { anchor: hit.start, active: hit.end }),
            );
        }
    }
}

proof fn lemma_open_requested(e: EditorModel, path: Seq<char>, cx: ContextModel)
    requires
        editor_wf(e),
    ensures
        editor_wf(open_requested(e, path, cx).0),
{
    lemma_tabs(e, cx.visible);
    if let Some(index) = tab_of_path(e, full_path(path, cx.cwd), cx.cwd) {
        assert(editor_wf(activated(e, index, cx.visible)));
    }
}

#[verifier::rlimit(40)]
proof fn lemma_controlled(e: EditorModel, action: Action, cx: ContextModel)
    requires
        editor_wf(e),
    ensures
        editor_wf(controlled(e, action, cx).0),
{
    match action {
        Action::InsertTab => lemma_typed(e.document, blanks(e.tab_width)),
        Action::DeleteToLineStart => lemma_cut_line(e.document),
        Action::DeleteToLineEnd => lemma_cut_line(e.document),
        Action::SelectAll => lemma_all_selected(e.document),
        Action::NewTab => lemma_tabs(e, cx.visible),
        Action::SwitchTab { forward } => {
            lemma_tabs(e, cx.visible);
            assert(editor_wf(activated(e, neighbour(e, forward), cx.visible)));
        },
        Action::FindAgain { reverse } => lemma_found(e, reverse, cx.visible),
        _ => {},
    }
}

/// Every action leaves the editor well formed.
pub proof fn law_actions_keep_the_editor_well_formed(
    e: EditorModel,
    action: Action,
    cx: ContextModel,
)
    requires
        editor_wf(e),
    ensures
        editor_wf(performed(e, action, cx).0),
{
    if let Some((command, extend)) = motion(action, page_step(cx.visible) as usize) {
        lemma_user_moved(e.document, command, extend);
    } else if let Some(command) = edit(action) {
        law_commands_keep_documents_well_formed(e.document, command);
    } else {
        lemma_controlled(e, action, cx);
    }
}

proof fn lemma_palette_run(e: EditorModel, command: PaletteCommand, cx: ContextModel)
    requires
        editor_wf(e),
    ensures
        editor_wf(palette_run(e, command, cx).0),
{
    law_actions_keep_the_editor_well_formed(e, palette_action(command), cx);
}

proof fn lemma_go_to(e: EditorModel, input: Seq<char>, visible: int)
    requires
        editor_wf(e),
    ensures
        editor_wf(go_to_submitted(e, input, visible)),
{
    if let GoToModel::At { line, column } = go_to(input) {
        lemma_placing(
            selecting(e.document, None),
            Pos { line: at_least(0, line - 1), column: at_least(0, column - 1) },
        );
    }
}

#[verifier::rlimit(40)]
proof fn lemma_submitted(
    e: EditorModel,
    kind: PromptKind,
    input: Seq<char>,
    reverse: bool,
    row: Option<usize>,
    cx: ContextModel,
)
    requires
        editor_wf(e),
    ensures
        editor_wf(submitted(e, kind, input, reverse, row, cx).0),
{
    let closed = EditorModel { prompt: None, ..e };
    assert(editor_wf(closed));
    match kind {
        PromptKind::OpenPath => lemma_open_requested(
            closed,
            typed_path(input, cx.home, cx.cwd),
            cx,
        ),
        PromptKind::SaveAsPath => {},
        PromptKind::FindQuery => lemma_found(
            EditorModel { search: Some(query_set(e.search, input)), ..e },
            reverse,
            cx.visible,
        ),
        PromptKind::GoToLine => lemma_go_to(closed, input, cx.visible),
        PromptKind::OpenRecent => {
            if let RecentPick::File(path) = recent_pick(e.recent, input) {
                lemma_open_requested(closed, path, cx);
            }
        },
        PromptKind::CommandPalette => {
            if let PaletteChoice::Run(command) = palette_choice(
                input,
                row,
                covers_text(e.document.text),
            ) {
                lemma_palette_run(closed, command, cx);
            }
        },
        PromptKind::ConfirmDiscard { next } => {},
    }
}

/// Every key leaves the editor well formed, whatever is open.
#[verifier::rlimit(40)]
pub proof fn law_keys_keep_the_editor_well_formed(e: EditorModel, event: KeyEvent, cx: ContextModel)
    requires
        editor_wf(e),
    ensures
        editor_wf(key_handled(e, event, cx).0),
{
    match e.prompt {
        None => law_actions_keep_the_editor_well_formed(e, binding(event), cx),
        Some(p) => {
            let (after, step) = prompt_step(p, event);
            let open = with_prompt(e, after);
            if let PromptStep::Submit { kind, input, reverse, selected } = step {
                lemma_submitted(open, kind, input, reverse, selected, cx);
            }
        },
    }
}

/// A key that leaves nothing to do outside leaves the cursor in sight, unless a
/// prompt took it.
#[verifier::rlimit(40)]
pub proof fn law_keys_show_the_cursor(e: EditorModel, event: KeyEvent, cx: ContextModel)
    requires
        editor_wf(e),
        e.viewport >= 0,
        forall|i: int| 0 <= i < e.tabs.len() ==> (#[trigger] e.tabs[i]).viewport >= 0,
        e.prompt is None,
        !key_handled(e, event, cx).2,
    ensures
        ({
            let after = key_handled(e, event, cx).0;
            let line = after.document.text.cursor.line;
            after.viewport <= line < after.viewport + at_least(1, cx.visible)
        }),
{
    let moved = performed(e, binding(event), cx).0;
    law_actions_keep_the_editor_well_formed(e, binding(event), cx);
    if let Action::SwitchTab { forward } = binding(event) {
        lemma_neighbour(e, forward);
    }
    if let Action::FindAgain { reverse } = binding(event) {
        lemma_found_viewport(e, reverse, cx.visible);
    }
    law_revealed_cursor_is_visible(moved, cx.visible);
}

proof fn lemma_found_viewport(e: EditorModel, reverse: bool, visible: int)
    requires
        editor_wf(e),
        e.viewport >= 0,
    ensures
        found(e, reverse, visible).viewport >= 0,
{
    lemma_found(e, reverse, visible);
}

// ---------------------------------------------------------------------------
// Tabs.

/// Going to another tab changes no document.
pub proof fn law_switching_tabs_changes_no_document(e: EditorModel, index: int, visible: int, i: int)
    requires
        editor_wf(e),
        0 <= i < e.tabs.len(),
    ensures
        shown_document(activated(e, index, visible), i) == shown_document(e, i),
        activated(e, index, visible).tabs.len() == e.tabs.len(),
{
}

/// Opening another tab, empty or with a file, changes no document that was
/// there.
pub proof fn law_new_tabs_leave_the_others_alone(
    e: EditorModel,
    path: Seq<char>,
    document: DocModel,
    existed: bool,
    i: int,
)
    requires
        editor_wf(e),
        0 <= i < e.tabs.len(),
    ensures
        shown_document(tab_added(e), i) == shown_document(e, i),
        shown_document(file_opened(e, path, document, existed), i) == shown_document(e, i),
        file_opened(e, path, document, existed).document == document,
{
}

// ---------------------------------------------------------------------------
// Nothing is lost without a question.

#[verifier::rlimit(40)]
proof fn lemma_actions_do_not_discard(e: EditorModel, action: Action, cx: ContextModel)
    requires
        unsaved(e),
        !e.should_quit,
    ensures
        !performed(e, action, cx).0.should_quit,
{
}

#[verifier::rlimit(40)]
proof fn lemma_inputs_do_not_discard(
    e: EditorModel,
    kind: PromptKind,
    input: Seq<char>,
    reverse: bool,
    row: Option<usize>,
    cx: ContextModel,
)
    requires
        unsaved(e),
        !e.should_quit,
    ensures
        !submitted(e, kind, input, reverse, row, cx).0.should_quit,
{
    let closed = EditorModel { prompt: None, ..e };
    lemma_unsaved_ignores_prompt(e, closed);
    if kind is CommandPalette {
        if let PaletteChoice::Run(command) = palette_choice(
            input,
            row,
            covers_text(e.document.text),
        ) {
            lemma_actions_do_not_discard(closed, palette_action(command), cx);
        }
    }
}

#[verifier::rlimit(40)]
proof fn lemma_keys_do_not_discard(e: EditorModel, event: KeyEvent, cx: ContextModel)
    requires
        unsaved(e),
        !e.should_quit,
        e.prompt matches Some(p) ==> !(p.kind is ConfirmDiscard),
    ensures
        !key_handled(e, event, cx).0.should_quit,
{
    match e.prompt {
        None => lemma_actions_do_not_discard(e, binding(event), cx),
        Some(p) => {
            let (after, step) = prompt_step(p, event);
            let open = with_prompt(e, after);
            lemma_unsaved_ignores_prompt(e, open);
            if let PromptStep::Submit { kind, input, reverse, selected } = step {
                lemma_inputs_do_not_discard(open, kind, input, reverse, selected, cx);
            }
        },
    }
}

/// With unsaved changes, nothing that happens to the window closes the editor
/// but an answer to the question whether they may be lost.
pub proof fn law_nothing_is_discarded_without_consent(
    e: EditorModel,
    event: InputEvent,
    cx: ContextModel,
)
    requires
        unsaved(e),
        !e.should_quit,
        e.prompt matches Some(p) ==> !(p.kind is ConfirmDiscard),
    ensures
        !event_handled(e, event, cx).0.should_quit,
{
    if let InputEvent::Key(key) = event {
        lemma_keys_do_not_discard(e, key, cx);
    }
}

proof fn lemma_unsaved_ignores_prompt(a: EditorModel, b: EditorModel)
    requires
        unsaved(a),
        a.document == b.document,
        a.tabs == b.tabs,
        a.active == b.active,
    ensures
        unsaved(b),
{
    if !a.document.text.dirty {
        let i = choose|i: int|
            0 <= i < a.tabs.len() && i != a.active && (#[trigger] a.tabs[i]).document.text.dirty;
        assert(b.tabs[i].document.text.dirty);
    }
}

/// The question whether changes may be lost is answered by Enter and `y` with
/// yes, by Escape and `n` with no, and by no other key.
pub proof fn law_discarding_takes_a_clear_answer(
    e: EditorModel,
    event: KeyEvent,
    cx: ContextModel,
)
    requires
        e.prompt matches Some(p) && p.kind is ConfirmDiscard,
        !e.should_quit,
    ensures
        ({
            let after = key_handled(e, event, cx).0;
            let yes = event.key is Return || event.key == Key::Char('y') || event.key == Key::Char(
                'Y',
            );
            let no = event.key is Escape || event.key == Key::Char('n') || event.key == Key::Char(
                'N',
            );
            &&& after.should_quit == yes
            &&& (after.prompt is None) == (yes || no)
            &&& !yes && !no ==> after == e
            &&& after.document == e.document
            &&& after.tabs == e.tabs
        }),
{
}

/// Escape closes a prompt and changes neither a document nor the tabs.
pub proof fn law_escape_leaves_a_prompt(e: EditorModel, event: KeyEvent, cx: ContextModel)
    requires
        e.prompt is Some,
        event.key is Escape,
    ensures
        ({
            let after = key_handled(e, event, cx).0;
            &&& after.prompt is None
            &&& after.document == e.document
            &&& after.tabs == e.tabs
            &&& after.search == e.search
            &&& after.should_quit == e.should_quit
        }),
{
}

// ---------------------------------------------------------------------------
// Moving, selecting and searching.

/// Moving the cursor edits nothing: the lines, the file and the history stay.
pub proof fn law_moving_edits_nothing(d: DocModel, action: Action, page: usize)
    requires
        motion(action, page) is Some,
    ensures
        ({
            let (command, extend) = motion(action, page)->0;
            let after = user_moved(d, command, extend);
            &&& after.text == (TextModel {
                cursor: after.text.cursor,
                selection: after.text.selection,
                ..d.text
            })
            &&& after.undo == d.undo
            &&& after.redo == d.redo
        }),
{
}

/// Selecting everything and copying gives the whole text, unless there is
/// none.
pub proof fn law_select_all_takes_everything(d: DocModel)
    requires
        doc_wf(d),
    ensures
        selected(all_selected(d)) == if flat(d.text.lines).len() == 0 {
            None
        } else {
            Some(flat(d.text.lines))
        },
{
    let lines = d.text.lines;
    let end = end_pos(lines);
    lemma_clamped(lines, end);
    lemma_clamped(lines, start_pos());
    if lines.len() == 1 {
        assert(flat(lines) == lines[0]);
        assert(lines[0].subrange(0, lines[0].len() as int) =~= lines[0]);
    } else {
        assert(lines[0].skip(0) =~= lines[0]);
        assert(lines[end.line].take(end.column) =~= lines[end.line]);
        assert((seq![lines[0].skip(0)] + lines.subrange(1, end.line)).push(
            lines[end.line].take(end.column),
        ) =~= lines);
        assert(flat(lines).len() > 0);
    }
}

/// After a successful search the match is selected, and what is selected reads
/// like the text that was searched for.
pub proof fn law_search_selects_the_query(e: EditorModel, reverse: bool, visible: int)
    requires
        editor_wf(e),
        e.search matches Some(s) && s.query.len() > 0 && next_match(
            e.document.text.lines,
            s.query,
            search_origin(s, e.document.text.cursor, reverse),
            reverse,
        ) is Some,
    ensures
        selected(found(e, reverse, visible).document) == Some(e.search->0.query),
        found(e, reverse, visible).search matches Some(s) && s.query == e.search->0.query
            && s.last_match is Some,
{
    let search = e.search->0;
    let lines = e.document.text.lines;
    let from = search_origin(search, e.document.text.cursor, reverse);
    let hit = next_match(lines, search.query, from, reverse)->0;
    law_found_text_is_the_query(lines, search.query, from, reverse);
    lemma_clamped(lines, hit.start);
    lemma_clamped(lines, hit.end);
}

/// Copying changes no document.
pub proof fn law_copying_changes_no_document(e: EditorModel, cut: bool)
    ensures
        copy_requested(e, cut).0.document == e.document,
        copy_requested(e, cut).0.tabs == e.tabs,
        selected(e.document) is Some ==> copy_requested(e, cut).0.local_clipboard == selected(
            e.document,
        ),
{
}

// ---------------------------------------------------------------------------
// Files.

/// What is written to save a document makes the same document again when it is
/// read, and after saving there is nothing to save.
pub proof fn law_saving_keeps_the_document(e: EditorModel)
    requires
        editor_wf(e),
        e.document.text.path is Some,
        plain_lines(e.document.text.lines),
        e.document.text.newline_style is Lf || e.document.text.lines.len() > 1,
    ensures
        ({
            let (after, effect) = save_requested(e);
            &&& after == e
            &&& effect matches EffectModel::Save { path, text } && e.document.text.path == Some(
                path,
            ) && file_document(path, Some(text)).text.lines == e.document.text.lines
                && file_document(path, Some(text)).text.newline_style
                == e.document.text.newline_style && !save_finished(
                e,
                path,
                None,
            ).document.text.dirty && save_finished(e, path, None).document.text.lines
                == e.document.text.lines
        }),
{
    law_opening_undoes_saving(e.document.text, e.document.text.path->0);
}

/// A failed save leaves everything but the message as it was.
pub proof fn law_failed_saves_change_nothing(e: EditorModel, path: Seq<char>, error: Seq<char>)
    ensures
        save_finished(e, path, Some(error)) == (EditorModel {
            status: save_finished(e, path, Some(error)).status,
            ..e
        }),
{
}

// ---------------------------------------------------------------------------
// Going to a line.

proof fn lemma_digits_stay(s: Seq<char>)
    requires
        crate::number::all_digits(s),
    ensures
        colon_at(s) == s.len(),
        trimmed(s) == s,
    decreases s.len(),
{
    if s.len() > 0 {
        assert(is_digit(s[0]));
        assert(is_digit(s.last()));
        let rest = s.skip(1);
        assert forall|i: int| 0 <= i < rest.len() implies is_digit(#[trigger] rest[i]) by {
            assert(rest[i] == s[i + 1]);
        }
        lemma_digits_stay(rest);
    }
}

/// A line number on its own leads to the start of that line.
pub proof fn law_line_numbers_are_understood(n: nat)
    requires
        0 < n <= usize::MAX,
    ensures
        go_to(decimal(n)) == (GoToModel::At { line: n, column: 1 }),
{
    lemma_decimal_digits(n);
    law_parse_undoes_decimal(n);
    lemma_digits_stay(decimal(n));
    assert(decimal(n).take(decimal(n).len() as int) =~= decimal(n));
}

/// A line number and a column number with a colon between them lead there.
pub proof fn law_lines_and_columns_are_understood(line: nat, column: nat)
    requires
        0 < line <= usize::MAX,
        0 < column <= usize::MAX,
    ensures
        go_to(decimal(line) + seq![':'] + decimal(column)) == (GoToModel::At { line, column }),
{
    let a = decimal(line);
    let b = decimal(column);
    let s = a + seq![':'] + b;
    let k = a.len() as int;
    lemma_decimal_digits(line);
    lemma_decimal_digits(column);
    law_parse_undoes_decimal(line);
    law_parse_undoes_decimal(column);
    lemma_digits_stay(a);
    lemma_digits_stay(b);
    assert forall|i: int| 0 <= i < k implies #[trigger] s[i] != ':' by {
        assert(is_digit(a[i]));
    }
    lemma_colon_at(s, k);
    assert(s.take(k) =~= a);
    assert(s.skip(k + 1) =~= b);
}

/// Going to the line that the prompt suggests stays on the line of the cursor.
pub proof fn law_suggested_line_is_the_present_one(e: EditorModel, visible: int)
    requires
        editor_wf(e),
        e.document.text.cursor.line < usize::MAX,
    ensures
        go_to_submitted(
            e,
            decimal((e.document.text.cursor.line + 1) as nat),
            visible,
        ).document.text.cursor == (Pos { line: e.document.text.cursor.line, column: 0 }),
{
    law_line_numbers_are_understood((e.document.text.cursor.line + 1) as nat);
}

} // verus!

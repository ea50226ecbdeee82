//! What holds of the window and its surroundings: what is in sight, what the
//! pointer does, how remote commands are answered, how the editor starts and how
//! a session comes back.
#[allow(unused_imports)]
use crate::cursor::Pos;
use crate::cursor::Position;
#[allow(unused_imports)]
use crate::display::shown_document;
#[allow(unused_imports)]
use crate::ipc::{Command, ResponseModel, StatusModel};
#[allow(unused_imports)]
use crate::keys::{binding, KeyEvent};
#[allow(unused_imports)]
use crate::model::{doc_wf, in_bounds, lemma_clamped, TextModel};
#[allow(unused_imports)]
use crate::newline::{law_reading_undoes_writing, law_style_is_recognized, plain_lines};
#[allow(unused_imports)]
use crate::number::decimal;
#[allow(unused_imports)]
use crate::operation_laws::shows_match;
#[allow(unused_imports)]
use crate::paths::{
    full_path, law_autosave_names_are_safe, law_same_path_is_an_equivalence, same_path,
};
#[allow(unused_imports)]
use crate::search::SearchModel;
#[allow(unused_imports)]
use crate::selection::Sel;
#[allow(unused_imports)]
use crate::session::{kept_session, kept_tab, restored_tab, SourceModel};
#[allow(unused_imports)]
use crate::state::{
    all_remembered, distinct_paths, editor_wf, event_handled, found, jumped,
    law_recent_files_are_few_and_distinct, open_requested, performed, persisted, remembered,
    remote_applied, remote_opened, revealed, start_finished, started, tabs_restored, view_clamped,
    window_answer, window_handled, written, ContextModel, EditorModel, InputEvent, RemoteModel,
    StartupModel, TabModel, WindowPurpose, MAX_RECENT_FILES,
};
#[allow(unused_imports)]
use crate::text::{has_prefix, law_trimming_is_final, trimmed};
use vstd::prelude::*;

verus! {

/// How many lines the window shows: at least one.
pub open spec fn rows(visible: int) -> int {
    if visible < 1 {
        1
    } else {
        visible
    }
}

/// The window lies on the text: it shows no empty space below the last line, if
/// there are lines enough to fill it.
pub open spec fn on_text(e: EditorModel, visible: int) -> bool {
    e.viewport == 0 || e.viewport + rows(visible) <= e.document.text.lines.len()
}

/// The line of the cursor is one of those that are shown.
pub open spec fn in_sight(e: EditorModel, visible: int) -> bool {
    e.viewport <= e.document.text.cursor.line < e.viewport + rows(visible)
}

// ---------------------------------------------------------------------------
// What is in sight.

/// Moving the window back onto the text moves nothing else, never moves it down,
/// and leaves it alone if it lies on the text already; else the last line comes
/// to stand in its last row.
pub proof fn law_the_window_is_moved_onto_the_text(e: EditorModel, visible: int)
    requires
        editor_wf(e),
        e.viewport >= 0,
    ensures
        ({
            let after = view_clamped(e, visible);
            &&& after == (EditorModel { viewport: after.viewport, ..e })
            &&& 0 <= after.viewport <= e.viewport
            &&& on_text(after, visible)
            &&& on_text(e, visible) ==> after == e
            &&& !on_text(e, visible) ==> after.viewport == 0 || after.viewport + rows(visible)
                == e.document.text.lines.len()
        }),
{
}

/// Showing the cursor moves the window no further than needed: not at all if the
/// cursor is in sight, else until its line is the first or the last row.
pub proof fn law_showing_the_cursor_moves_little(e: EditorModel, visible: int)
    requires
        editor_wf(e),
        e.viewport >= 0,
        on_text(e, visible),
    ensures
        ({
            let line = e.document.text.cursor.line;
            let after = revealed(e, visible);
            &&& after == (EditorModel { viewport: after.viewport, ..e })
            &&& in_sight(after, visible)
            &&& on_text(after, visible)
            &&& in_sight(e, visible) ==> after == e
            &&& line < e.viewport ==> after.viewport == line
            &&& line >= e.viewport + rows(visible) ==> after.viewport + rows(visible) - 1 == line
        }),
{
}

/// The wheel moves the window by a sixth of its height, at least by one line,
/// not past the ends of the text, and nothing else.
#[verifier::rlimit(60)]
pub proof fn law_the_wheel_moves_by_a_sixth(e: EditorModel, delta_y: i32, cx: ContextModel)
    requires
        editor_wf(e),
        e.viewport >= 0,
        on_text(e, cx.visible),
        cx.visible >= 0,
    ensures
        ({
            let (after, step) = window_handled(e, InputEvent::Scroll { delta_y }, cx);
            let by = if cx.visible / 6 < 1 {
                1
            } else {
                cx.visible / 6
            };
            let lowest = if e.document.text.lines.len() < rows(cx.visible) {
                0
            } else {
                e.document.text.lines.len() - rows(cx.visible)
            };
            &&& after == (EditorModel { viewport: after.viewport, ..e })
            &&& step.effect is Nothing && step.redraw
            &&& delta_y == 0 ==> after == e
            &&& delta_y < 0 ==> after.viewport == if e.viewport < by {
                0
            } else {
                e.viewport - by
            }
            &&& delta_y > 0 ==> after.viewport == if e.viewport + by > lowest {
                lowest
            } else {
                e.viewport + by
            }
        }),
{
}

/// Another size of the window moves it onto the text and changes nothing else.
#[verifier::rlimit(60)]
pub proof fn law_resizing_keeps_the_window_on_the_text(e: EditorModel, cx: ContextModel)
    requires
        editor_wf(e),
        e.viewport >= 0,
    ensures
        ({
            let (after, step) = window_handled(e, InputEvent::Resize, cx);
            &&& after == (EditorModel { viewport: after.viewport, ..e })
            &&& on_text(after, cx.visible)
            &&& on_text(e, cx.visible) ==> after == e
            &&& step.redraw && step.effect is Nothing
        }),
{
}

/// A match that was found is in sight.
pub proof fn law_matches_are_in_sight(
    e: EditorModel,
    reverse: bool,
    visible: int,
    p: Pos,
    query: Seq<char>,
)
    requires
        editor_wf(e),
        e.viewport >= 0,
        e.search matches Some(s) && s.query == query && query.len() > 0,
        shows_match(found(e, reverse, visible), p, query),
        found(e, reverse, visible) != e,
        e.document.text.selection is None,
    ensures
        in_sight(found(e, reverse, visible), visible),
{
    let after = found(e, reverse, visible);
    assert(after.document.text.selection is Some);
}

// ---------------------------------------------------------------------------
// Keys and the pointer.

/// With no prompt open, a key does what it is bound to; then the cursor is
/// shown, at once or when the work outside is done. A key that is let go does
/// nothing.
#[verifier::rlimit(60)]
pub proof fn law_keys_do_what_they_are_bound_to(
    e: EditorModel,
    event: KeyEvent,
    cx: ContextModel,
)
    requires
        e.prompt is None,
    ensures
        ({
            let (bound, effect) = performed(e, binding(event), cx);
            let (after, step) = event_handled(e, InputEvent::Key(event), cx);
            &&& event.pressed ==> {
                &&& after == (EditorModel { viewport: after.viewport, ..bound })
                &&& step.effect == effect
                &&& step.redraw
                &&& step.reveal == !(effect is Nothing)
                &&& step.reveal ==> after == bound
                &&& !step.reveal ==> after == revealed(bound, cx.visible)
            }
            &&& !event.pressed ==> after == e && step.effect is Nothing && !step.redraw
        }),
{
}

/// Every event but a key is handled as the window's events are.
#[verifier::rlimit(60)]
pub proof fn law_other_events_are_of_the_window(
    e: EditorModel,
    event: InputEvent,
    cx: ContextModel,
)
    requires
        !(event is Key),
    ensures
        event_handled(e, event, cx) == window_handled(e, event, cx),
{
}

/// The document with the cursor at a place, and what lies between an anchor and
/// that place selected.
pub open spec fn spans(t: TextModel, anchor: Pos, to: Pos, u: TextModel) -> bool {
    u == (TextModel {
        cursor: to,
        selection: if anchor == to {
            None
        } else {
            Some(Sel { anchor, active: to })
        },
        ..t
    })
}

/// Pressing on a place of the text puts the cursor there and drops the
/// selection; with Shift it selects from where the selection was begun, or from
/// the cursor. The place is in sight, and dragging starts from the same anchor.
#[verifier::rlimit(60)]
pub proof fn law_pressing_puts_the_cursor(
    e: EditorModel,
    position: Position,
    extend: bool,
    cx: ContextModel,
)
    requires
        doc_wf(e.document),
        e.viewport >= 0,
        in_bounds(e.document.text.lines, position@),
    ensures
        ({
            let t = e.document.text;
            let anchor = if !extend {
                position@
            } else {
                match t.selection {
                    Some(s) => s.anchor,
                    None => t.cursor,
                }
            };
            let (after, step) = window_handled(e, InputEvent::PressText { position, extend }, cx);
            &&& spans(t, anchor, position@, after.document.text)
            &&& after.drag_anchor == Some(anchor)
            &&& in_sight(after, cx.visible)
            &&& step.redraw && step.effect is Nothing
            &&& after == (EditorModel {
                document: after.document,
                drag_anchor: after.drag_anchor,
                viewport: after.viewport,
                ..e
            })
        }),
{
    let lines = e.document.text.lines;
    lemma_clamped(lines, position@);
    lemma_clamped(lines, e.document.text.cursor);
    if let Some(s) = e.document.text.selection {
        lemma_clamped(lines, s.anchor);
    }
}

/// Dragging over a place of the text selects from the place where the pointer
/// was pressed to that place, and letting the button go ends it.
#[verifier::rlimit(60)]
pub proof fn law_dragging_selects(e: EditorModel, over: Position, anchor: Pos, cx: ContextModel)
    requires
        doc_wf(e.document),
        e.viewport >= 0,
        e.drag_anchor == Some(anchor),
        in_bounds(e.document.text.lines, anchor),
        in_bounds(e.document.text.lines, over@),
    ensures
        ({
            let (after, step) = window_handled(e, InputEvent::Move { over: Some(over) }, cx);
            &&& spans(e.document.text, anchor, over@, after.document.text)
            &&& in_sight(after, cx.visible)
            &&& step.redraw && step.effect is Nothing
            &&& after == (EditorModel {
                document: after.document,
                viewport: after.viewport,
                ..e
            })
        }),
        window_handled(e, InputEvent::Move { over: None }, cx).0 == e,
        window_handled(e, InputEvent::ReleaseLeft, cx).0 == (EditorModel { drag_anchor: None, ..e }),
{
    lemma_clamped(e.document.text.lines, over@);
    lemma_clamped(e.document.text.lines, anchor);
}

/// Moving the pointer without a button, or pressing beside the text, changes
/// nothing.
#[verifier::rlimit(60)]
pub proof fn law_idle_pointers_change_nothing(
    e: EditorModel,
    over: Option<Position>,
    cx: ContextModel,
)
    requires
        e.drag_anchor is None,
    ensures
        window_handled(e, InputEvent::Move { over }, cx).0 == e,
        !window_handled(e, InputEvent::Move { over }, cx).1.redraw,
        window_handled(e, InputEvent::PressElsewhere, cx).0 == e,
        window_handled(e, InputEvent::Expose, cx).0 == e,
        window_handled(e, InputEvent::Expose, cx).1.redraw,
        window_handled(e, InputEvent::Other, cx).0 == e,
        !window_handled(e, InputEvent::Other, cx).1.redraw,
{
}

// ---------------------------------------------------------------------------
// Remote control.

/// A remote command to open a file does what asking for the file does; then the
/// cursor goes to the line and column, if any were given, and the window is
/// shown. A file that could not be opened is answered with the message.
#[verifier::rlimit(60)]
pub proof fn law_remote_opening(
    e: EditorModel,
    path: String,
    line: Option<usize>,
    column: Option<usize>,
    cx: ContextModel,
)
    ensures
        ({
            let (after, step) = remote_applied(e, Command::Open { path, line, column }, cx);
            let (asked, effect) = open_requested(e, full_path(path@, cx.cwd), cx);
            &&& !(effect is Nothing) ==> after == e && step == (RemoteModel::Open {
                path: full_path(path@, cx.cwd),
                line,
                column,
            })
            &&& effect is Nothing ==> (after, step) == remote_opened(
                asked,
                line,
                column,
                cx.visible,
            )
        }),
        ({
            let (after, step) = remote_opened(e, line, column, cx.visible);
            let failed = e.status matches Some(m) && has_prefix(m, "open failed:"@);
            &&& failed ==> after == e && step == (RemoteModel::Reply {
                response: ResponseModel { success: false, error: e.status, data: None },
                redraw: true,
            })
            &&& !failed ==> step == (RemoteModel::Window {
                purpose: WindowPurpose::Open,
                show: true,
            })
            &&& !failed && line is None && column is None ==> after == e
            &&& !failed && (line is Some || column is Some) ==> after == jumped(
                e,
                match line {
                    Some(n) => n as int,
                    None => 1,
                },
                match column {
                    Some(n) => n as int,
                    None => 1,
                },
                cx.visible,
            )
        }),
{
}

/// Showing, hiding and toggling ask for the window and change nothing else; the
/// state tells what there is.
#[verifier::rlimit(60)]
pub proof fn law_remote_window_commands(e: EditorModel, cx: ContextModel)
    ensures
        remote_applied(e, Command::Show, cx) == (
            e,
            RemoteModel::Window { purpose: WindowPurpose::Show, show: true },
        ),
        remote_applied(e, Command::Hide, cx) == (
            e,
            RemoteModel::Window { purpose: WindowPurpose::Hide, show: false },
        ),
        remote_applied(e, Command::Toggle, cx) == (
            e,
            RemoteModel::Window { purpose: WindowPurpose::Toggle, show: !e.window_visible },
        ),
        remote_applied(e, Command::Status, cx) == (
            e,
            RemoteModel::Reply {
                response: ResponseModel {
                    success: true,
                    error: None,
                    data: Some(
                        StatusModel {
                            visible: e.window_visible,
                            open_documents: e.tabs.len(),
                            focused_document: e.document.text.path,
                        },
                    ),
                },
                redraw: false,
            },
        ),
{
}

/// A window command succeeds exactly when the window could be shown or hidden,
/// and its failure is reported with what went wrong at its end.
pub proof fn law_window_answers(purpose: WindowPurpose, error: Seq<char>)
    ensures
        window_answer(purpose, None).0 == (ResponseModel {
            success: true,
            error: None,
            data: None,
        }),
        window_answer(purpose, None).1,
        ({
            let (response, redraw) = window_answer(purpose, Some(error));
            &&& !response.success
            &&& response.data is None
            &&& response.error matches Some(m) && m.len() > error.len() && m.skip(
                m.len() - error.len(),
            ) == error
            &&& redraw == (purpose is Open)
        }),
{
    reveal_strlit("failed to show window: ");
    reveal_strlit("failed to hide window: ");
    reveal_strlit("failed to toggle window: ");
    let m = window_answer(purpose, Some(error)).0.error->0;
    assert(m.skip(m.len() - error.len()) =~= error);
}

// ---------------------------------------------------------------------------
// The start.

/// The editor starts with one tab: the file that was asked for, or an empty
/// document without a file. Nothing is searched, selected, copied or asked.
pub proof fn law_the_start(startup: StartupModel, tab_width: nat, hidden: bool)
    ensures
        ({
            let e = started(startup, tab_width, hidden);
            &&& e.tabs.len() == 1
            &&& e.active == 0
            &&& e.tabs[0].document == e.document
            &&& startup matches StartupModel::Opened { path, document, existed } ==> e.document
                == document && e.status == Some(
                if existed {
                    "opened "@ + path
                } else {
                    "new file "@ + path
                },
            )
            &&& !(startup is Opened) ==> e.document.text.lines == seq![Seq::<char>::empty()]
                && e.document.text.path is None && !e.document.text.dirty
            &&& startup matches StartupModel::Failed { error } ==> e.status == Some(
                "open failed: "@ + error,
            )
            &&& e.tab_width == if tab_width == 0 {
                1
            } else {
                tab_width
            }
            &&& e.window_visible == !hidden
            &&& e.viewport == 0
            &&& e.recent.len() == 0
            &&& e.search is None && e.prompt is None && e.selection_text is None
                && e.local_clipboard is None && e.pending_paste is None && e.drag_anchor is None
            &&& !e.should_quit
        }),
{
}

proof fn lemma_remembered_keeps(recent: Seq<Seq<char>>, path: Seq<char>, old: Seq<char>)
    requires
        distinct_paths(recent),
        recent.len() < MAX_RECENT_FILES,
        recent.contains(old),
    ensures
        exists|r: Seq<char>| #[trigger] remembered(recent, path).contains(r) && same_path(r, old),
{
    let k = choose|k: int| 0 <= k < recent.len() && recent[k] == old;
    let out = remembered(recent, path);
    if exists|i: int| 0 <= i < recent.len() && same_path(#[trigger] recent[i], path) {
        let i = choose|i: int| 0 <= i < recent.len() && same_path(#[trigger] recent[i], path);
        crate::operation_laws::law_remembering_moves_to_the_front(recent, path, i);
        if i == k {
            assert(out[0] == path);
            law_same_path_is_an_equivalence(old, path, old);
            assert(out.contains(path) && same_path(path, old));
        } else if k < i {
            assert(out[k + 1] == old);
            law_same_path_is_an_equivalence(old, old, old);
            assert(out.contains(old));
        } else {
            assert(out[k] == old);
            law_same_path_is_an_equivalence(old, old, old);
            assert(out.contains(old));
        }
    } else {
        crate::operation_laws::law_remembering_moves_to_the_front(recent, path, 0);
        assert(out[k + 1] == old);
        law_same_path_is_an_equivalence(old, old, old);
        assert(out.contains(old));
    }
}

proof fn lemma_all_remembered(tabs: Seq<TabModel>, i: int)
    requires
        tabs.len() <= MAX_RECENT_FILES,
        0 <= i < tabs.len(),
        tabs[i].document.text.path is Some,
    ensures
        distinct_paths(all_remembered(Seq::empty(), tabs)),
        all_remembered(Seq::empty(), tabs).len() <= tabs.len(),
        exists|r: Seq<char>| #[trigger]
            all_remembered(Seq::empty(), tabs).contains(r) && same_path(
                r,
                tabs[i].document.text.path->0,
            ),
    decreases tabs.len(),
{
    let init = tabs.drop_last();
    let before = all_remembered(Seq::empty(), init);
    let all = all_remembered(Seq::empty(), tabs);
    let wanted = tabs[i].document.text.path->0;
    lemma_all_remembered_small(init);
    lemma_all_remembered_small(tabs);
    if i == tabs.len() - 1 {
        assert(all[0] == wanted);
        law_same_path_is_an_equivalence(wanted, wanted, wanted);
        assert(all.contains(wanted));
    } else {
        lemma_all_remembered(init, i);
        let r = choose|r: Seq<char>| #[trigger] before.contains(r) && same_path(r, wanted);
        match tabs.last().document.text.path {
            Some(path) => {
                lemma_remembered_keeps(before, path, r);
                let q = choose|q: Seq<char>| #[trigger] all.contains(q) && same_path(q, r);
                law_same_path_is_an_equivalence(q, r, wanted);
                assert(all.contains(q) && same_path(q, wanted));
            },
            None => {
                assert(all.contains(r));
            },
        }
    }
}

proof fn lemma_all_remembered_small(tabs: Seq<TabModel>)
    requires
        tabs.len() <= MAX_RECENT_FILES,
    ensures
        distinct_paths(all_remembered(Seq::empty(), tabs)),
        all_remembered(Seq::empty(), tabs).len() <= tabs.len(),
    decreases tabs.len(),
{
    if tabs.len() > 0 {
        let before = all_remembered(Seq::empty(), tabs.drop_last());
        lemma_all_remembered_small(tabs.drop_last());
        if let Some(path) = tabs.last().document.text.path {
            law_recent_files_are_few_and_distinct(before, path);
            crate::state::lemma_other_paths(before, path);
        }
    }
}

proof fn lemma_jumped_viewport(e: EditorModel, line: int, column: int, visible: int)
    requires
        doc_wf(e.document),
        e.viewport >= 0,
    ensures
        jumped(e, line, column, visible).viewport >= 0,
{
    lemma_clamped(
        e.document.text.lines,
        Pos {
            line: crate::layout::at_least(0, line - 1),
            column: crate::layout::at_least(0, column - 1),
        },
    );
}

/// After the start every file that is open is among the recent ones, as far as
/// the list reaches, and the cursor stands where the user asked for.
pub proof fn law_the_start_knows_its_files(
    e: EditorModel,
    line: Option<usize>,
    column: Option<usize>,
    visible: int,
    i: int,
)
    requires
        editor_wf(e),
        e.viewport >= 0,
        e.recent.len() == 0,
        e.tabs.len() <= MAX_RECENT_FILES,
        0 <= i < e.tabs.len(),
    ensures
        ({
            let after = start_finished(e, line, column, visible);
            &&& e.tabs[i].document.text.path matches Some(path) ==> exists|r: Seq<char>|
                #[trigger] after.recent.contains(r) && same_path(r, path)
            &&& line is None && column is None ==> after.document == e.document
            &&& line is Some || column is Some ==> after.document == jumped(
                e,
                match line {
                    Some(n) => n as int,
                    None => 1,
                },
                match column {
                    Some(n) => n as int,
                    None => 1,
                },
                visible,
            ).document
            &&& on_text(after, visible)
            &&& after.tabs == e.tabs && after.active == e.active && after.status == e.status
        }),
{
    assert(e.recent =~= Seq::empty());
    let known = EditorModel { recent: all_remembered(e.recent, e.tabs), ..e };
    let after = start_finished(e, line, column, visible);
    assert(after.recent == known.recent);
    if line is Some || column is Some {
        let l = crate::state::or_one(line);
        let c = crate::state::or_one(column);
        assert(jumped(known, l, c, visible).document == jumped(e, l, c, visible).document);
        lemma_jumped_viewport(known, l, c, visible);
    }
    if e.tabs[i].document.text.path is Some {
        lemma_all_remembered(e.tabs, i);
    }
}

// ---------------------------------------------------------------------------
// The session.

/// Restoring tabs shows the tab that was active when they were kept, with its
/// document and its search, from the line that was at the top as far as the text
/// reaches; an index behind the last tab stands for the last. No tabs, no
/// change.
pub proof fn law_restoring_shows_the_active_tab(
    e: EditorModel,
    tabs: Seq<TabModel>,
    active: int,
    visible: int,
)
    requires
        editor_wf(e),
        active >= 0,
        forall|i: int| 0 <= i < tabs.len() ==> doc_wf((#[trigger] tabs[i]).document) && tabs[i].viewport >= 0,
    ensures
        ({
            let after = tabs_restored(e, tabs, active, visible);
            let index = if active < tabs.len() {
                active
            } else {
                tabs.len() - 1
            };
            &&& tabs.len() == 0 ==> after == e
            &&& tabs.len() > 0 ==> {
                &&& after.tabs == tabs
                &&& after.active == index
                &&& after.document == tabs[index].document
                &&& after.search == tabs[index].search
                &&& after.viewport <= tabs[index].viewport
                &&& on_text(after, visible)
                &&& (tabs[index].viewport == 0 || tabs[index].viewport + rows(visible)
                    <= tabs[index].document.text.lines.len()) ==> after.viewport
                    == tabs[index].viewport
                &&& after.status == Some("restored "@ + decimal(tabs.len()) + " tab(s)"@)
                &&& after.prompt is None
                &&& after.drag_anchor is None
                &&& after.recent == e.recent
                &&& after.local_clipboard == e.local_clipboard
                &&& after.should_quit == e.should_quit
            }
        }),
{
}

/// What is found on disk for a tab: the text that was kept for it if it has
/// unsaved changes, else its file as it was saved.
pub open spec fn finds(tab: TabModel, source: SourceModel) -> bool {
    if tab.document.text.dirty {
        source == SourceModel::Autosave(written(tab.document))
    } else {
        tab.document.text.path is Some && source == SourceModel::File(written(tab.document))
    }
}

/// A tab that is kept and restored comes back with its lines, cursor, file and
/// unsaved changes, what was searched in it and the line at the top.
pub proof fn law_kept_tabs_come_back(tab: TabModel, index: nat, source: SourceModel)
    requires
        doc_wf(tab.document),
        plain_lines(tab.document.text.lines),
        finds(tab, source),
    ensures
        ({
            let back = restored_tab(kept_tab(tab, index), source);
            let before = tab.document.text;
            let after = back.document.text;
            &&& after.lines == before.lines
            &&& after.cursor == before.cursor
            &&& after.path == before.path
            &&& after.dirty == before.dirty
            &&& after.selection is None
            &&& !before.dirty && (before.newline_style is Lf || before.lines.len() > 1)
                ==> after.newline_style == before.newline_style
            &&& match tab.search {
                Some(s) => if trimmed(s.query).len() > 0 {
                    back.search == Some(
                        SearchModel { query: trimmed(s.query), last_match: None },
                    )
                } else {
                    back.search is None
                },
                None => back.search is None,
            }
            &&& back.viewport == if tab.viewport < before.lines.len() {
                tab.viewport
            } else {
                before.lines.len() - 1
            }
        }),
{
    let lines = tab.document.text.lines;
    law_reading_undoes_writing(lines, tab.document.text.newline_style);
    lemma_clamped(lines, tab.document.text.cursor);
    if let Some(s) = tab.search {
        law_trimming_is_final(s.query);
    }
    if tab.document.text.dirty {
        law_autosave_names_are_safe(index);
    } else if tab.document.text.newline_style is Lf || lines.len() > 1 {
        law_style_is_recognized(lines, tab.document.text.newline_style);
    }
}

/// A session that is kept and restored brings back the same tabs in the same
/// order, each with its lines, cursor, file and unsaved changes and what was
/// searched in it, and the same tab is shown.
pub proof fn law_sessions_come_back(
    e: EditorModel,
    other: EditorModel,
    sources: Seq<SourceModel>,
    visible: int,
    i: int,
)
    requires
        editor_wf(e),
        sources.len() == e.tabs.len(),
        0 <= i < e.tabs.len(),
        finds(persisted(e)[i], sources[i]),
        plain_lines(shown_document(e, i).text.lines),
    ensures
        ({
            let kept = kept_session(persisted(e), e.active);
            let tabs = Seq::new(
                kept.tabs.len(),
                |k: int| restored_tab(kept.tabs[k], sources[k]),
            );
            let back = tabs_restored(other, tabs, kept.active, visible);
            let before = shown_document(e, i).text;
            let after = shown_document(back, i).text;
            &&& back.tabs.len() == e.tabs.len()
            &&& back.active == e.active
            &&& after.lines == before.lines
            &&& after.cursor == before.cursor
            &&& after.path == before.path
            &&& after.dirty == before.dirty
            &&& after.selection is None
            &&& !before.dirty && (before.newline_style is Lf || before.lines.len() > 1)
                ==> after.newline_style == before.newline_style
        }),
{
    let tab = persisted(e)[i];
    if i != e.active {
        assert(doc_wf(e.tabs[i].document));
    }
    law_kept_tabs_come_back(tab, i as nat, sources[i]);
    let kept = kept_session(persisted(e), e.active);
    let tabs = Seq::new(kept.tabs.len(), |k: int| restored_tab(kept.tabs[k], sources[k]));
    assert(tabs[i] == restored_tab(kept_tab(tab, i as nat), sources[i]));
}

} // verus!

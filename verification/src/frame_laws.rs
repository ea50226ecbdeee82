//! Laws of what operations leave alone, and of what the user is told.
#[allow(unused_imports)]
use crate::keys::Action;
#[allow(unused_imports)]
use crate::model::{DocModel, TextModel};
#[allow(unused_imports)]
use crate::number::decimal;
#[allow(unused_imports)]
use crate::prompt::{go_to, GoToModel, PromptKind};
#[allow(unused_imports)]
use crate::state::{
    activated, copy_finished, file_opened, found, go_to_submitted, jumped, notice_text,
    paste_arrived, paste_notified, paste_request_finished, performed, recent_pick, recent_submitted,
    save_finished, submitted, tab_added, tabs_restored, window_handled, ContextModel, EditorModel,
    EffectModel, InputEvent, Notice, RecentPick, TabModel,
};
use vstd::prelude::*;

verus! {

/// Two states differ at most in what is shown: the document, the place of the
/// window in it and the message.
pub open spec fn same_but_shown(a: EditorModel, b: EditorModel) -> bool {
    &&& a.tabs == b.tabs
    &&& a.active == b.active
    &&& a.search == b.search
    &&& a.prompt == b.prompt
    &&& a.should_quit == b.should_quit
    &&& same_surroundings(a, b)
    &&& same_clipboard(a, b)
    &&& a.drag_anchor == b.drag_anchor
}

/// The settings, the recent files and the window are the same.
pub open spec fn same_surroundings(a: EditorModel, b: EditorModel) -> bool {
    &&& a.tab_width == b.tab_width
    &&& a.recent == b.recent
    &&& a.window_visible == b.window_visible
    &&& a.pending_paste == b.pending_paste
}

/// What was copied is the same.
pub open spec fn same_clipboard(a: EditorModel, b: EditorModel) -> bool {
    &&& a.selection_text == b.selection_text
    &&& a.local_clipboard == b.local_clipboard
}

/// Deleting to an end of the line leaves all but the document alone; keys that
/// are bound to nothing leave everything alone.
#[verifier::rlimit(60)]
pub proof fn law_deleting_in_the_line_leaves_the_rest(e: EditorModel, cx: ContextModel)
    ensures
        ({
            let left = performed(e, Action::DeleteToLineStart, cx);
            let right = performed(e, Action::DeleteToLineEnd, cx);
            &&& left == (
                EditorModel { document: left.0.document, ..e },
                EffectModel::Nothing,
            )
            &&& right == (
                EditorModel { document: right.0.document, ..e },
                EffectModel::Nothing,
            )
            &&& performed(e, Action::Nothing, cx) == (e, EffectModel::Nothing)
        }),
{
}

/// A search changes only the cursor, the selection, the message, the place of
/// the window and the last match; where it succeeds the message says where.
pub proof fn law_searches_leave_the_rest(e: EditorModel, reverse: bool, visible: int)
    ensures
        ({
            let after = found(e, reverse, visible);
            &&& after == (EditorModel {
                document: after.document,
                status: after.status,
                viewport: after.viewport,
                search: after.search,
                ..e
            })
            &&& after.document == (DocModel {
                text: TextModel {
                    cursor: after.document.text.cursor,
                    selection: after.document.text.selection,
                    ..e.document.text
                },
                ..e.document
            })
            &&& after.search != e.search ==> ({
                let s = after.search->0;
                let at = s.last_match->0.start;
                &&& after.search is Some && e.search is Some && s.last_match is Some
                &&& s.query == e.search->0.query
                &&& after.status == Some(
                    "match "@ + decimal((at.line + 1) as nat) + ":"@ + decimal(
                        (at.column + 1) as nat,
                    ) + " for '"@ + s.query + "'"@,
                )
            })
        }),
{
}

/// Going to a tab leaves all but the tabs alone; it ends a drag and closes the
/// prompt.
pub proof fn law_going_to_a_tab_leaves_the_rest(e: EditorModel, index: int, visible: int)
    ensures
        ({
            let after = activated(e, index, visible);
            &&& same_surroundings(after, e)
            &&& same_clipboard(after, e)
            &&& after.status == e.status
            &&& after.should_quit == e.should_quit
            &&& after.active != e.active ==> after.prompt is None && after.drag_anchor is None
            &&& after.active == e.active ==> after == e
        }),
{
}

/// New tabs leave all but the tabs alone; they end a drag and close the prompt.
pub proof fn law_new_tabs_leave_the_rest(e: EditorModel)
    ensures
        ({
            let after = tab_added(e);
            &&& same_surroundings(after, e)
            &&& same_clipboard(after, e)
            &&& after.should_quit == e.should_quit
            &&& after.prompt is None
            &&& after.drag_anchor is None
            &&& after.search is None
            &&& after.viewport == 0
        }),
{
}

/// Reading and writing files leaves what was copied, the window, the prompt and
/// the settings alone. Writing leaves the text, the cursor and the selection
/// alone, and a failure everything but the message.
pub proof fn law_files_leave_the_rest(
    e: EditorModel,
    path: Seq<char>,
    document: DocModel,
    existed: bool,
    error: Seq<char>,
)
    ensures
        ({
            let opened = file_opened(e, path, document, existed);
            let saved = save_finished(e, path, None);
            let failed = save_finished(e, path, Some(error));
            &&& same_clipboard(opened, e)
            &&& opened.tab_width == e.tab_width
            &&& opened.window_visible == e.window_visible
            &&& opened.pending_paste == e.pending_paste
            &&& opened.prompt == e.prompt
            &&& document.text.path is None ==> opened.recent == e.recent
            &&& saved == (EditorModel {
                document: saved.document,
                recent: saved.recent,
                status: saved.status,
                ..e
            })
            &&& saved.document.text.lines == e.document.text.lines
            &&& saved.document.text.cursor == e.document.text.cursor
            &&& saved.document.text.selection == e.document.text.selection
            &&& saved.document.text.newline_style == e.document.text.newline_style
            &&& failed == (EditorModel { status: Some("save failed: "@ + error), ..e })
        }),
{
}

/// Pasting changes the document and the message only, and remembers a text that
/// arrived; asking for it changes only what is waited for.
pub proof fn law_pasting_leaves_the_rest(
    e: EditorModel,
    text: Seq<char>,
    selection: u32,
    property: u32,
    error: Option<Seq<char>>,
)
    ensures
        ({
            let arrived = paste_arrived(e, text);
            let asked = paste_request_finished(e, selection, error);
            let told = paste_notified(e, selection, property).0;
            &&& arrived == (EditorModel {
                document: arrived.document,
                status: arrived.status,
                local_clipboard: arrived.local_clipboard,
                ..e
            })
            &&& text.len() > 0 ==> arrived.local_clipboard == Some(text)
            &&& text.len() == 0 ==> arrived.local_clipboard == e.local_clipboard
            &&& error is None ==> asked == (EditorModel { pending_paste: Some(selection), ..e })
            &&& error is Some ==> same_but_shown(asked, e) && asked.viewport == e.viewport
            &&& told.pending_paste is None
            &&& told == (EditorModel {
                document: told.document,
                status: told.status,
                pending_paste: None,
                ..e
            })
        }),
{
}

/// A finished copy changes only the message, a finished cut the document too.
pub proof fn law_finished_copies_leave_the_rest(
    e: EditorModel,
    cut: bool,
    chars: nat,
    error: Option<Seq<char>>,
)
    ensures
        ({
            let after = copy_finished(e, cut, chars, error);
            &&& same_but_shown(after, e)
            &&& after.viewport == e.viewport
            &&& !cut || error is Some ==> after.document == e.document
        }),
{
}

/// An input that is handed in closes its prompt, except that a search leaves it
/// open for the next one.
#[verifier::rlimit(60)]
pub proof fn law_handing_in_closes_the_prompt(
    e: EditorModel,
    kind: PromptKind,
    input: Seq<char>,
    reverse: bool,
    row: Option<usize>,
    cx: ContextModel,
)
    requires
        !(kind is CommandPalette),
    ensures
        ({
            let after = submitted(e, kind, input, reverse, row, cx).0;
            &&& kind is FindQuery ==> after.prompt == e.prompt
            &&& !(kind is FindQuery) ==> after.prompt is None
            &&& same_surroundings(after, e)
            &&& same_clipboard(after, e)
            &&& after.should_quit == e.should_quit
            &&& kind is SaveAsPath || kind is FindQuery || kind is GoToLine ==> after.tabs == e.tabs
                && after.active == e.active
            &&& kind is SaveAsPath ==> after.document == e.document
        }),
{
}

/// Jumping changes only the cursor, the selection and the place of the window.
pub proof fn law_jumping_leaves_the_rest(e: EditorModel, line: int, column: int, visible: int)
    ensures
        ({
            let after = jumped(e, line, column, visible);
            &&& same_but_shown(after, e)
            &&& after.status == e.status
            &&& after.document == (DocModel {
                text: TextModel {
                    cursor: after.document.text.cursor,
                    selection: None,
                    ..e.document.text
                },
                ..e.document
            })
        }),
{
}

/// The messages about a line that cannot be gone to name it.
pub proof fn law_messages_about_lines(e: EditorModel, input: Seq<char>, visible: int)
    ensures
        ({
            let after = go_to_submitted(e, input, visible);
            &&& go_to(input) is Empty ==> after.status == Some("line is empty"@)
            &&& go_to(input) matches GoToModel::InvalidLine(s) ==> after.status == Some(
                "invalid line: "@ + s,
            )
            &&& go_to(input) matches GoToModel::InvalidColumn(s) ==> after.status == Some(
                "invalid column: "@ + s,
            )
            &&& go_to(input) is At ==> after.status == Some(
                "jumped to "@ + decimal((after.document.text.cursor.line + 1) as nat) + ":"@
                    + decimal((after.document.text.cursor.column + 1) as nat),
            )
        }),
{
}

/// The messages about recent files say why none was opened.
pub proof fn law_messages_about_recent_files(e: EditorModel, input: Seq<char>, cx: ContextModel)
    ensures
        ({
            let (after, effect) = recent_submitted(e, input, cx);
            &&& e.recent.len() == 0 ==> after == (EditorModel {
                status: Some("no recent files"@),
                ..e
            }) && effect is Nothing
            &&& recent_pick(e.recent, input) matches RecentPick::OutOfRange(n) ==> after == (
            EditorModel { status: Some("recent index out of range: "@ + decimal(n)), ..e })
                && effect is Nothing
            &&& recent_pick(e.recent, input) is NoMatch ==> after == (EditorModel {
                status: Some("no recent file matching '"@ + input + "'"@),
                ..e
            }) && effect is Nothing
        }),
{
}

/// What goes wrong outside is told with its reason.
pub proof fn law_notices_give_the_reason(notice: Notice, error: Seq<char>)
    ensures
        ({
            let text = notice_text(notice, error);
            let good = notice is SessionSaved || notice is SessionCleared;
            &&& !good ==> text.len() > error.len() && text.skip(text.len() - error.len()) == error
            &&& notice is SessionSaved ==> text == "session saved"@
            &&& notice is SessionCleared ==> text == "session data cleared"@
        }),
{
    reveal_strlit("clipboard request failed: ");
    reveal_strlit("paste failed: ");
    reveal_strlit("autosave failed: ");
    reveal_strlit("ipc accept failed: ");
    reveal_strlit("session failed: ");
    let text = notice_text(notice, error);
    if !(notice is SessionSaved || notice is SessionCleared) {
        assert(text.skip(text.len() - error.len()) =~= error);
    }
}

/// Events of the window leave the recent files, the settings and what was copied
/// alone; only a press on a tab goes to another one, only leaving ends the
/// editor, and only what the pointer and the clipboard do reaches the document.
#[verifier::rlimit(60)]
pub proof fn law_window_events_leave_the_rest(e: EditorModel, event: InputEvent, cx: ContextModel)
    ensures
        ({
            let after = window_handled(e, event, cx).0;
            &&& after.tab_width == e.tab_width
            &&& after.recent == e.recent
            &&& after.window_visible == e.window_visible
            &&& same_clipboard(after, e)
            &&& !(event is PressTab) ==> after.tabs == e.tabs && after.active == e.active
                && after.search == e.search
            &&& !(event is CloseRequested) ==> after.should_quit == e.should_quit
            &&& !(event is CloseRequested || event is PressTab) ==> after.prompt == e.prompt
            &&& !(event is PressTab || event is PressText || event is Move
                || event is SelectionNotify) ==> after.document == e.document
            &&& !(event is SelectionNotify || event is SelectionClear) ==> after.pending_paste
                == e.pending_paste
            &&& !(event is SelectionNotify) ==> after.status == e.status
            &&& event is ReleaseLeft || event is CloseRequested ==> after.viewport == e.viewport
            &&& event is ReleaseLeft ==> after.drag_anchor is None
            &&& !(event is PressTab || event is PressText || event is ReleaseLeft)
                ==> after.drag_anchor == e.drag_anchor
        }),
{
}

/// Restoring a session leaves the recent files, what was copied, the window and
/// the settings alone; it ends a drag and closes the prompt.
pub proof fn law_restoring_leaves_the_rest(
    e: EditorModel,
    tabs: Seq<TabModel>,
    active: int,
    visible: int,
)
    ensures
        ({
            let after = tabs_restored(e, tabs, active, visible);
            &&& same_surroundings(after, e)
            &&& same_clipboard(after, e)
            &&& after.should_quit == e.should_quit
            &&& tabs.len() > 0 ==> after.prompt is None && after.drag_anchor is None
            &&& tabs.len() == 0 ==> after == e
        }),
{
}

/// The window is drawn again after every event but a move of the pointer with no
/// button held, the loss of the clipboard and what means nothing. Only the
/// middle button and an answer about the clipboard leave something to be done
/// outside.
pub proof fn law_what_is_drawn_again(e: EditorModel, event: InputEvent, cx: ContextModel)
    requires
        !(event is Key),
    ensures
        ({
            let step = window_handled(e, event, cx).1;
            let idle = event is SelectionClear || event is Other || (event is Move && e.drag_anchor
                is None);
            &&& step.redraw <==> !idle
            &&& !step.reveal
            &&& !(event is PressMiddle || event is SelectionNotify) ==> step.effect is Nothing
        }),
{
}

} // verus!

//! The mathematical model of the editor: tabs, prompt, search and clipboard,
//! and what every action makes of them.
use crate::clipboard::NO_ATOM;
use crate::command::EditCommand;
use crate::cursor::Position;
#[allow(unused_imports)]
use crate::cursor::{start_pos, Pos};
#[allow(unused_imports)]
use crate::ipc::{err_response, ok_response, Command, ResponseModel, StatusModel};
use crate::keys::KeyEvent;
#[allow(unused_imports)]
use crate::keys::{binding, edit, motion, Action};
#[allow(unused_imports)]
use crate::laws::text_between;
#[allow(unused_imports)]
use crate::layout::{at_least, at_most};
#[allow(unused_imports)]
use crate::model::{
    applied, clamped, clamped_sel, covers_text, doc_wf, end_pos, fresh_doc, moved, recorded,
    text_inserted, DocModel, TextModel,
};
#[allow(unused_imports)]
use crate::newline::{delimiter_text, joined, normalized, shown_style, split, NewlineStyle};
#[allow(unused_imports)]
use crate::number::{decimal, parsed};
#[allow(unused_imports)]
use crate::palette::{fitting, palette_choice, PaletteChoice, PaletteCommand};
#[allow(unused_imports)]
use crate::paths::{full_path, same_path, typed_path};
#[allow(unused_imports)]
use crate::prompt::{
    fresh_prompt, go_to, prompt_step, GoToModel, PendingAction, PromptKind, PromptModel, PromptStep,
};
#[allow(unused_imports)]
use crate::search::{next_match, search_origin, SearchModel};
#[allow(unused_imports)]
use crate::selection::{sel_end, sel_start, Sel};
#[allow(unused_imports)]
use crate::text::{has_prefix, has_substring, lowered, trimmed};
use vstd::prelude::*;

verus! {

/// How many files are remembered.
pub const MAX_RECENT_FILES: usize = 20;

/// A tab.
#[verifier::ext_equal]
pub struct TabModel {
    pub document: DocModel,
    pub viewport: int,
    pub search: Option<SearchModel>,
}

/// The editor. The document of the active tab is `document`; what the list of
/// tabs holds in its place is brought up to date when the tab is left.
#[verifier::ext_equal]
pub struct EditorModel {
    pub tabs: Seq<TabModel>,
    pub active: int,
    pub document: DocModel,
    pub status: Option<Seq<char>>,
    pub tab_width: nat,
    pub viewport: int,
    pub drag_anchor: Option<Pos>,
    pub recent: Seq<Seq<char>>,
    pub search: Option<SearchModel>,
    pub prompt: Option<PromptModel>,
    pub selection_text: Option<Seq<char>>,
    pub local_clipboard: Option<Seq<char>>,
    pub pending_paste: Option<u32>,
    pub window_visible: bool,
    pub should_quit: bool,
}

/// What the editor is told of its surroundings.
pub struct ContextModel {
    pub home: Option<Seq<char>>,
    pub cwd: Option<Seq<char>>,
    pub visible: int,
    pub clipboard: u32,
    pub primary: u32,
}

/// What has to be done outside the editor before an action is complete.
pub enum EffectModel {
    Nothing,
    Open { path: Seq<char> },
    Save { path: Seq<char>, text: Seq<char> },
    OwnClipboard { cut: bool, chars: nat },
    RequestPaste { selection: u32 },
    ReadProperty { property: u32 },
    SaveSession,
    RestoreSession,
    ClearSession,
}

/// No two paths of the list are the same.
pub open spec fn distinct_paths(recent: Seq<Seq<char>>) -> bool {
    forall|i: int, j: int|
        0 <= i < j < recent.len() ==> !same_path(#[trigger] recent[i], #[trigger] recent[j])
}

/// All documents in tabs are well formed.
pub open spec fn tabs_wf(tabs: Seq<TabModel>) -> bool {
    forall|i: int| 0 <= i < tabs.len() ==> doc_wf((#[trigger] tabs[i]).document)
}

/// There is an active tab, all documents are well formed, and the recent files
/// are few and distinct.
pub open spec fn editor_wf(e: EditorModel) -> bool {
    &&& 0 <= e.active < e.tabs.len()
    &&& doc_wf(e.document)
    &&& tabs_wf(e.tabs)
    &&& e.tab_width >= 1
    &&& e.recent.len() <= MAX_RECENT_FILES
    &&& distinct_paths(e.recent)
}

/// Another status message.
pub open spec fn with_status(e: EditorModel, message: Seq<char>) -> EditorModel {
    EditorModel { status: Some(message), ..e }
}

/// Another prompt.
pub open spec fn with_prompt(e: EditorModel, prompt: PromptModel) -> EditorModel {
    EditorModel { prompt: Some(prompt), ..e }
}

/// The document after a command.
pub open spec fn with_command(e: EditorModel, command: EditCommand) -> EditorModel {
    EditorModel { document: applied(e.document, command), ..e }
}

// ---------------------------------------------------------------------------
// Documents under the hands of the user.

/// A text typed or pasted into a document.
pub open spec fn typed(d: DocModel, text: Seq<char>) -> DocModel {
    recorded(d, text_inserted(d.text, text))
}

/// Another selection; endpoints outside the text are moved into it.
pub open spec fn selecting(d: DocModel, selection: Option<Sel>) -> DocModel {
    DocModel {
        text: TextModel { selection: clamped_sel(d.text.lines, selection), ..d.text },
        ..d
    }
}

/// Another cursor; a position outside the text is moved into it.
pub open spec fn placing(d: DocModel, p: Pos) -> DocModel {
    DocModel { text: moved(d.text, clamped(d.text.lines, p)), ..d }
}

/// The selection from an anchor to the cursor, if they differ.
pub open spec fn spanning(d: DocModel, anchor: Pos, active: Pos) -> DocModel {
    selecting(
        d,
        if anchor == active {
            None
        } else {
            Some(Sel { anchor, active })
        },
    )
}

/// Where an extended selection starts.
pub open spec fn anchor_of(d: DocModel) -> Pos {
    match d.text.selection {
        Some(s) => s.anchor,
        None => d.text.cursor,
    }
}

/// A motion that goes back through the text.
pub open spec fn goes_back(command: EditCommand) -> bool {
    command is MoveLeft || command is MoveWordLeft || command is MoveUp || command is MovePageUp
}

/// A motion that goes on through the text.
pub open spec fn goes_on(command: EditCommand) -> bool {
    command is MoveRight || command is MoveWordRight || command is MoveDown
        || command is MovePageDown
}

/// The cursor moved by the user. Extending keeps the anchor; without extending
/// a selection is dropped, and a motion back or on only goes to its start or
/// end.
pub open spec fn user_moved(d: DocModel, command: EditCommand, extend: bool) -> DocModel {
    if extend {
        let after = applied(d, command);
        spanning(after, anchor_of(d), after.text.cursor)
    } else if d.text.selection is Some && goes_back(command) {
        placing(selecting(d, None), sel_start(d.text.selection->0))
    } else if d.text.selection is Some && goes_on(command) {
        placing(selecting(d, None), sel_end(d.text.selection->0))
    } else {
        selecting(applied(selecting(d, None), command), None)
    }
}

/// The whole text selected, with the cursor at its end.
pub open spec fn all_selected(d: DocModel) -> DocModel {
    spanning(placing(d, end_pos(d.text.lines)), start_pos(), end_pos(d.text.lines))
}

/// The line deleted from its start to the cursor; at its start, the line break
/// before it.
pub open spec fn cut_to_line_start(d: DocModel) -> DocModel {
    let c = d.text.cursor;
    if c.column > 0 {
        applied(
            selecting(d, Some(Sel { anchor: Pos { column: 0, ..c }, active: c })),
            EditCommand::Delete,
        )
    } else if c.line > 0 {
        applied(d, EditCommand::Backspace)
    } else {
        d
    }
}

/// The line deleted from the cursor to its end; at its end, the line break
/// after it.
pub open spec fn cut_to_line_end(d: DocModel) -> DocModel {
    let c = d.text.cursor;
    let len = d.text.lines[c.line].len() as int;
    if c.column < len {
        applied(
            selecting(d, Some(Sel { anchor: c, active: Pos { column: len, ..c } })),
            EditCommand::Delete,
        )
    } else {
        applied(d, EditCommand::Delete)
    }
}

/// The text under the selection.
pub open spec fn selected(d: DocModel) -> Option<Seq<char>> {
    if covers_text(d.text) {
        Some(
            text_between(
                d.text.lines,
                sel_start(d.text.selection->0),
                sel_end(d.text.selection->0),
            ),
        )
    } else {
        None
    }
}

// ---------------------------------------------------------------------------
// The viewport.

/// The last line that can stand at the top of the window.
pub open spec fn last_top(d: DocModel, visible: int) -> int {
    at_least(0, d.text.lines.len() - at_least(1, visible))
}

/// The viewport moved back onto the text.
pub open spec fn view_clamped(e: EditorModel, visible: int) -> EditorModel {
    EditorModel { viewport: at_most(last_top(e.document, visible), e.viewport), ..e }
}

/// The viewport moved as little as needed to show the cursor.
pub open spec fn revealed(e: EditorModel, visible: int) -> EditorModel {
    let rows = at_least(1, visible);
    let top = view_clamped(e, visible).viewport;
    let line = e.document.text.cursor.line;
    EditorModel {
        viewport: if line < top {
            line
        } else if line >= top + rows {
            line - rows + 1
        } else {
            top
        },
        ..e
    }
}

/// The viewport after a turn of the mouse wheel, by a sixth of the window.
pub open spec fn scrolled(e: EditorModel, delta_y: int, visible: int) -> EditorModel {
    let step = at_least(1, visible / 6);
    let viewport = if delta_y < 0 {
        at_least(0, e.viewport - step)
    } else if delta_y > 0 {
        e.viewport + step
    } else {
        e.viewport
    };
    view_clamped(EditorModel { viewport, ..e }, visible)
}

// ---------------------------------------------------------------------------
// Tabs.

/// The list of tabs with the active one brought up to date.
pub open spec fn persisted(e: EditorModel) -> Seq<TabModel> {
    e.tabs.update(
        e.active,
        TabModel { document: e.document, viewport: e.viewport, search: e.search },
    )
}

/// Another tab made active.
pub open spec fn activated(e: EditorModel, index: int, visible: int) -> EditorModel {
    if index < 0 || index >= e.tabs.len() || index == e.active {
        e
    } else {
        view_clamped(
            EditorModel {
                tabs: persisted(e),
                active: index,
                document: e.tabs[index].document,
                viewport: e.tabs[index].viewport,
                search: e.tabs[index].search,
                drag_anchor: None,
                prompt: None,
                ..e
            },
            visible,
        )
    }
}

/// The neighbour of the active tab, going round.
pub open spec fn neighbour(e: EditorModel, forward: bool) -> int {
    if forward {
        (e.active + 1) % (e.tabs.len() as int)
    } else {
        (e.active - 1) % (e.tabs.len() as int)
    }
}

/// The next or previous tab made active.
pub open spec fn tab_switched(e: EditorModel, forward: bool, visible: int) -> EditorModel {
    if e.tabs.len() <= 1 {
        e
    } else {
        let after = activated(e, neighbour(e, forward), visible);
        with_status(
            after,
            "tab "@ + decimal((after.active + 1) as nat) + "/"@ + decimal(after.tabs.len()),
        )
    }
}

/// An empty document.
pub open spec fn empty_doc() -> DocModel {
    fresh_doc(seq![Seq::<char>::empty()], NewlineStyle::Lf, None)
}

/// An empty document in a new tab.
pub open spec fn tab_added(e: EditorModel) -> EditorModel {
    EditorModel {
        tabs: persisted(e).push(TabModel { document: empty_doc(), viewport: 0, search: None }),
        active: e.tabs.len() as int,
        document: empty_doc(),
        search: None,
        viewport: 0,
        drag_anchor: None,
        prompt: None,
        status: Some("new tab"@),
        ..e
    }
}

/// Some document has changes that are not saved.
pub open spec fn unsaved(e: EditorModel) -> bool {
    e.document.text.dirty || exists|i: int|
        0 <= i < e.tabs.len() && i != e.active && (#[trigger] e.tabs[i]).document.text.dirty
}

/// The user wants to leave: with unsaved changes only after a question.
pub open spec fn quit_requested(e: EditorModel) -> EditorModel {
    if unsaved(e) {
        with_prompt(
            e,
            fresh_prompt(
                PromptKind::ConfirmDiscard { next: PendingAction::Quit },
                Seq::empty(),
                false,
            ),
        )
    } else {
        EditorModel { should_quit: true, ..e }
    }
}

// ---------------------------------------------------------------------------
// Files.

/// The document with this path, seen from the working directory.
pub open spec fn at_path(d: DocModel, target: Seq<char>, cwd: Option<Seq<char>>) -> bool {
    d.text.path matches Some(path) && same_path(full_path(path, cwd), target)
}

/// The first tab from `k` on, other than the active one, with a path.
pub open spec fn tab_from(
    e: EditorModel,
    target: Seq<char>,
    cwd: Option<Seq<char>>,
    k: int,
) -> Option<int>
    decreases e.tabs.len() - k,
{
    if k >= e.tabs.len() {
        None
    } else if k != e.active && at_path(e.tabs[k].document, target, cwd) {
        Some(k)
    } else {
        tab_from(e, target, cwd, k + 1)
    }
}

/// The tab with a path: the active one first.
pub open spec fn tab_of_path(e: EditorModel, target: Seq<char>, cwd: Option<Seq<char>>) -> Option<
    int,
> {
    if at_path(e.document, target, cwd) {
        Some(e.active)
    } else {
        tab_from(e, target, cwd, 0)
    }
}

/// A file asked for: its tab is shown if it is open, else it has to be read.
pub open spec fn open_requested(e: EditorModel, path: Seq<char>, cx: ContextModel) -> (
    EditorModel,
    EffectModel,
) {
    match tab_of_path(e, full_path(path, cx.cwd), cx.cwd) {
        Some(index) => (
            with_status(activated(e, index, cx.visible), "switched to "@ + path),
            EffectModel::Nothing,
        ),
        None => (e, EffectModel::Open { path }),
    }
}

/// The paths of the list that are not the given one.
pub open spec fn other_paths(recent: Seq<Seq<char>>, path: Seq<char>) -> Seq<Seq<char>>
    decreases recent.len(),
{
    if recent.len() == 0 {
        Seq::empty()
    } else {
        let before = other_paths(recent.drop_last(), path);
        if same_path(recent.last(), path) {
            before
        } else {
            before.push(recent.last())
        }
    }
}

/// The path put first in the list, which stays short and names no file twice.
pub open spec fn remembered(recent: Seq<Seq<char>>, path: Seq<char>) -> Seq<Seq<char>> {
    let all = seq![path] + other_paths(recent, path);
    if all.len() > MAX_RECENT_FILES {
        all.take(MAX_RECENT_FILES as int)
    } else {
        all
    }
}

/// The message about an opened file.
pub open spec fn opened_message(path: Seq<char>, existed: bool) -> Seq<char> {
    if existed {
        "opened "@ + path
    } else {
        "new file "@ + path
    }
}

/// A file was read: its document stands in a new tab.
pub open spec fn file_opened(
    e: EditorModel,
    path: Seq<char>,
    document: DocModel,
    existed: bool,
) -> EditorModel {
    EditorModel {
        document,
        tabs: persisted(e).push(TabModel { document, viewport: 0, search: e.search }),
        active: e.tabs.len() as int,
        viewport: 0,
        drag_anchor: None,
        search: None,
        recent: match document.text.path {
            Some(opened) => remembered(e.recent, opened),
            None => e.recent,
        },
        status: Some(opened_message(path, existed)),
        ..e
    }
}

/// The text of a document as it is written to a file.
pub open spec fn written(d: DocModel) -> Seq<char> {
    joined(d.text.lines, delimiter_text(d.text.newline_style))
}

/// The prompt for a file to save to.
pub open spec fn save_as_prompt(d: DocModel) -> PromptModel {
    fresh_prompt(
        PromptKind::SaveAsPath,
        match d.text.path {
            Some(path) => path,
            None => Seq::empty(),
        },
        false,
    )
}

/// The document is to be saved: to its own file, else the user is asked.
pub open spec fn save_requested(e: EditorModel) -> (EditorModel, EffectModel) {
    match e.document.text.path {
        Some(path) => (e, EffectModel::Save { path, text: written(e.document) }),
        None => (with_prompt(e, save_as_prompt(e.document)), EffectModel::Nothing),
    }
}

/// The document was written to a file, or that failed.
pub open spec fn save_finished(e: EditorModel, path: Seq<char>, error: Option<Seq<char>>) -> EditorModel {
    match error {
        Some(err) => with_status(e, "save failed: "@ + err),
        None => EditorModel {
            document: DocModel {
                text: TextModel { path: Some(path), dirty: false, ..e.document.text },
                ..e.document
            },
            recent: remembered(e.recent, path),
            status: Some("saved "@ + path),
            ..e
        },
    }
}

// ---------------------------------------------------------------------------
// Prompts.

/// Which of the recent files an input picks.
pub enum RecentPick {
    NoFiles,
    OutOfRange(nat),
    NoMatch,
    File(Seq<char>),
}

/// The first path that holds a text, in lower case.
pub open spec fn first_holding(recent: Seq<Seq<char>>, query: Seq<char>) -> Option<Seq<char>>
    decreases recent.len(),
{
    if recent.len() == 0 {
        None
    } else if has_substring(lowered(recent[0]), query) {
        Some(recent[0])
    } else {
        first_holding(recent.skip(1), query)
    }
}

/// Nothing picks the file used last, a number counts from one, and any other
/// text is looked for in the paths.
pub open spec fn recent_pick(recent: Seq<Seq<char>>, input: Seq<char>) -> RecentPick {
    if recent.len() == 0 {
        RecentPick::NoFiles
    } else if input.len() == 0 {
        RecentPick::File(recent[0])
    } else if let Some(index) = parsed(input) {
        if index == 0 || index > recent.len() {
            RecentPick::OutOfRange(index)
        } else {
            RecentPick::File(recent[index - 1])
        }
    } else if let Some(path) = first_holding(recent, lowered(input)) {
        RecentPick::File(path)
    } else {
        RecentPick::NoMatch
    }
}

/// A recent file asked for.
pub open spec fn recent_submitted(e: EditorModel, input: Seq<char>, cx: ContextModel) -> (
    EditorModel,
    EffectModel,
) {
    match recent_pick(e.recent, input) {
        RecentPick::NoFiles => (with_status(e, "no recent files"@), EffectModel::Nothing),
        RecentPick::OutOfRange(index) => (
            with_status(e, "recent index out of range: "@ + decimal(index)),
            EffectModel::Nothing,
        ),
        RecentPick::NoMatch => (
            with_status(e, "no recent file matching '"@ + input + "'"@),
            EffectModel::Nothing,
        ),
        RecentPick::File(path) => open_requested(e, path, cx),
    }
}

/// The cursor sent to a line and a column that count from one, without a
/// selection and in sight.
pub open spec fn jumped(e: EditorModel, line: int, column: int, visible: int) -> EditorModel {
    revealed(
        EditorModel {
            document: placing(
                selecting(e.document, None),
                Pos { line: at_least(0, line - 1), column: at_least(0, column - 1) },
            ),
            ..e
        },
        visible,
    )
}

/// A line to go to handed in.
pub open spec fn go_to_submitted(e: EditorModel, input: Seq<char>, visible: int) -> EditorModel {
    match go_to(input) {
        GoToModel::Empty => with_status(e, "line is empty"@),
        GoToModel::InvalidLine(s) => with_status(e, "invalid line: "@ + s),
        GoToModel::InvalidColumn(s) => with_status(e, "invalid column: "@ + s),
        GoToModel::At { line, column } => {
            let after = jumped(e, line as int, column as int, visible);
            with_status(
                after,
                "jumped to "@ + decimal((after.document.text.cursor.line + 1) as nat) + ":"@
                    + decimal((after.document.text.cursor.column + 1) as nat),
            )
        },
    }
}

/// Another text to search for; the same text goes on from its last match.
pub open spec fn query_set(search: Option<SearchModel>, query: Seq<char>) -> SearchModel {
    match search {
        Some(s) => if s.query == query {
            s
        } else {
            SearchModel { query, last_match: None }
        },
        None => SearchModel { query, last_match: None },
    }
}

/// The text to search for, without white space around it, if there is any.
pub open spec fn trimmed_query(search: Option<SearchModel>) -> Option<Seq<char>> {
    match search {
        Some(s) => if trimmed(s.query).len() > 0 {
            Some(trimmed(s.query))
        } else {
            None
        },
        None => None,
    }
}

/// The prompt for a text to search, with the last one ready to be replaced.
pub open spec fn find_prompt(search: Option<SearchModel>) -> PromptModel {
    match trimmed_query(search) {
        Some(query) => fresh_prompt(PromptKind::FindQuery, query, true),
        None => fresh_prompt(PromptKind::FindQuery, Seq::empty(), false),
    }
}

/// The next match selected and shown, or a message that there is none.
pub open spec fn found(e: EditorModel, reverse: bool, visible: int) -> EditorModel {
    match e.search {
        None => e,
        Some(search) => if search.query.len() == 0 {
            e
        } else {
            let from = search_origin(search, e.document.text.cursor, reverse);
            match next_match(e.document.text.lines, search.query, from, reverse) {
                None => with_status(e, "no match for '"@ + search.query + "'"@),
                Some(hit) => {
                    let shown = revealed(
                        EditorModel {
                            document: selecting(
                                placing(e.document, hit.end),
                                Some(Sel { anchor: hit.start, active: hit.end }),
                            ),
                            ..e
                        },
                        visible,
                    );
                    EditorModel {
                        status: Some(
                            "match "@ + decimal((hit.start.line + 1) as nat) + ":"@ + decimal(
                                (hit.start.column + 1) as nat,
                            ) + " for '"@ + search.query + "'"@,
                        ),
                        search: Some(SearchModel { last_match: Some(hit), ..search }),
                        ..shown
                    }
                },
            }
        },
    }
}

/// The last search repeated, or asked for.
pub open spec fn found_again(e: EditorModel, reverse: bool, visible: int) -> EditorModel {
    if trimmed_query(e.search) is Some {
        found(e, reverse, visible)
    } else {
        with_prompt(e, find_prompt(e.search))
    }
}

/// The highlighted row of the palette moved, going round.
pub open spec fn row_moved(e: EditorModel, forward: bool) -> EditorModel {
    match e.prompt {
        Some(p) => {
            let rows = fitting(p.input, covers_text(e.document.text)).len() as int;
            if p.kind is CommandPalette && rows > 0 {
                let next = if forward {
                    (p.selection_index + 1) % rows
                } else {
                    (p.selection_index - 1) % rows
                };
                with_prompt(e, PromptModel { selection_index: next, ..p })
            } else {
                e
            }
        },
        None => e,
    }
}

// ---------------------------------------------------------------------------
// The clipboard.

/// The selected text kept for pasting and for other programs, which still have
/// to be told.
pub open spec fn copy_requested(e: EditorModel, cut: bool) -> (EditorModel, EffectModel) {
    match selected(e.document) {
        None => (with_status(e, "nothing selected"@), EffectModel::Nothing),
        Some(text) => (
            EditorModel { local_clipboard: Some(text), selection_text: Some(text), ..e },
            EffectModel::OwnClipboard { cut, chars: text.len() },
        ),
    }
}

/// Other programs were told of the copied text, or that failed. A cut text is
/// deleted only when it is safe.
pub open spec fn copy_finished(
    e: EditorModel,
    cut: bool,
    chars: nat,
    error: Option<Seq<char>>,
) -> EditorModel {
    match error {
        Some(err) => with_status(
            e,
            if cut {
                "cut failed: "@ + err
            } else {
                "copy failed: "@ + err
            },
        ),
        None => if cut {
            with_status(
                with_command(e, EditCommand::Delete),
                "cut "@ + decimal(chars) + " chars"@,
            )
        } else {
            with_status(e, "copied "@ + decimal(chars) + " chars"@)
        },
    }
}

/// A text inserted from the clipboard.
pub open spec fn pasted(e: EditorModel, text: Seq<char>) -> EditorModel {
    with_status(
        EditorModel { document: typed(e.document, text), ..e },
        "pasted "@ + decimal(text.len()) + " chars"@,
    )
}

/// The text that was copied last inserted, or a message if there is none.
pub open spec fn pasted_own(e: EditorModel, message: Seq<char>) -> EditorModel {
    match e.local_clipboard {
        Some(text) => if text.len() > 0 {
            pasted(e, text)
        } else {
            with_status(e, message)
        },
        None => with_status(e, message),
    }
}

/// The clipboard asked for; one question at a time.
pub open spec fn paste_requested(e: EditorModel, selection: u32) -> EffectModel {
    if e.pending_paste is Some {
        EffectModel::Nothing
    } else {
        EffectModel::RequestPaste { selection }
    }
}

/// The clipboard was asked for, or that failed.
pub open spec fn paste_request_finished(
    e: EditorModel,
    selection: u32,
    error: Option<Seq<char>>,
) -> EditorModel {
    match error {
        Some(err) => pasted_own(e, "paste request failed: "@ + err),
        None => EditorModel { pending_paste: Some(selection), ..e },
    }
}

/// The owner of the clipboard has answered.
pub open spec fn paste_notified(e: EditorModel, selection: u32, property: u32) -> (
    EditorModel,
    EffectModel,
) {
    let after = EditorModel { pending_paste: None, ..e };
    match e.pending_paste {
        None => (e, EffectModel::Nothing),
        Some(asked) => if asked != selection {
            (after, EffectModel::Nothing)
        } else if property == NO_ATOM {
            (pasted_own(after, "clipboard is empty"@), EffectModel::Nothing)
        } else {
            (after, EffectModel::ReadProperty { property })
        },
    }
}

/// The text of the clipboard has arrived.
pub open spec fn paste_arrived(e: EditorModel, text: Seq<char>) -> EditorModel {
    if text.len() == 0 {
        pasted_own(e, "clipboard is empty"@)
    } else {
        pasted(EditorModel { local_clipboard: Some(text), ..e }, text)
    }
}

// ---------------------------------------------------------------------------
// Actions and keys.

/// `n` blanks.
pub open spec fn blanks(n: nat) -> Seq<char> {
    Seq::new(n, |i: int| ' ')
}

/// The lines of a page step.
pub open spec fn page_step(visible: int) -> int {
    at_least(1, visible - 1)
}

/// What an action does that neither moves the cursor nor is a plain edit.
pub open spec fn controlled(e: EditorModel, action: Action, cx: ContextModel) -> (
    EditorModel,
    EffectModel,
) {
    match action {
        Action::Escape => (
            if e.document.text.selection is Some {
                EditorModel { document: selecting(e.document, None), ..e }
            } else {
                quit_requested(e)
            },
            EffectModel::Nothing,
        ),
        Action::Quit => (quit_requested(e), EffectModel::Nothing),
        Action::InsertTab => (
            EditorModel { document: typed(e.document, blanks(e.tab_width)), ..e },
            EffectModel::Nothing,
        ),
        Action::DeleteToLineStart => (
            EditorModel { document: cut_to_line_start(e.document), ..e },
            EffectModel::Nothing,
        ),
        Action::DeleteToLineEnd => (
            EditorModel { document: cut_to_line_end(e.document), ..e },
            EffectModel::Nothing,
        ),
        Action::SelectAll => (
            EditorModel { document: all_selected(e.document), ..e },
            EffectModel::Nothing,
        ),
        Action::NewTab => (tab_added(e), EffectModel::Nothing),
        Action::SwitchTab { forward } => (
            tab_switched(e, forward, cx.visible),
            EffectModel::Nothing,
        ),
        Action::OpenFile => (
            with_prompt(e, fresh_prompt(PromptKind::OpenPath, Seq::empty(), false)),
            EffectModel::Nothing,
        ),
        Action::OpenRecent => (
            with_prompt(e, fresh_prompt(PromptKind::OpenRecent, Seq::empty(), false)),
            EffectModel::Nothing,
        ),
        Action::Save => save_requested(e),
        Action::SaveAs => (
            with_prompt(e, save_as_prompt(e.document)),
            EffectModel::Nothing,
        ),
        Action::GoToLine => (
            with_prompt(
                e,
                fresh_prompt(
                    PromptKind::GoToLine,
                    decimal((e.document.text.cursor.line + 1) as nat),
                    false,
                ),
            ),
            EffectModel::Nothing,
        ),
        Action::FindPrompt => (with_prompt(e, find_prompt(e.search)), EffectModel::Nothing),
        Action::FindAgain { reverse } => (
            found_again(e, reverse, cx.visible),
            EffectModel::Nothing,
        ),
        Action::CommandPalette => (
            with_prompt(e, fresh_prompt(PromptKind::CommandPalette, Seq::empty(), false)),
            EffectModel::Nothing,
        ),
        Action::Copy => copy_requested(e, false),
        Action::Cut => copy_requested(e, true),
        Action::Paste => (e, paste_requested(e, cx.clipboard)),
        _ => (e, EffectModel::Nothing),
    }
}

/// What an action does.
pub open spec fn performed(e: EditorModel, action: Action, cx: ContextModel) -> (
    EditorModel,
    EffectModel,
) {
    if let Some((command, extend)) = motion(action, page_step(cx.visible) as usize) {
        (
            EditorModel { document: user_moved(e.document, command, extend), ..e },
            EffectModel::Nothing,
        )
    } else if let Some(command) = edit(action) {
        (with_command(e, command), EffectModel::Nothing)
    } else {
        controlled(e, action, cx)
    }
}

/// The action of a palette command, if it is one.
pub open spec fn palette_action(command: PaletteCommand) -> Action {
    match command {
        PaletteCommand::OpenFile => Action::OpenFile,
        PaletteCommand::OpenRecent => Action::OpenRecent,
        PaletteCommand::Save => Action::Save,
        PaletteCommand::SaveAs => Action::SaveAs,
        PaletteCommand::NewTab => Action::NewTab,
        PaletteCommand::NextTab => Action::SwitchTab { forward: true },
        PaletteCommand::PrevTab => Action::SwitchTab { forward: false },
        PaletteCommand::Find => Action::FindPrompt,
        PaletteCommand::FindNext => Action::FindAgain { reverse: false },
        PaletteCommand::FindPrev => Action::FindAgain { reverse: true },
        PaletteCommand::GoToLine => Action::GoToLine,
        PaletteCommand::Copy => Action::Copy,
        PaletteCommand::Cut => Action::Cut,
        PaletteCommand::Paste => Action::Paste,
        PaletteCommand::Quit => Action::Quit,
        _ => Action::Nothing,
    }
}

/// What a palette command does.
pub open spec fn palette_run(e: EditorModel, command: PaletteCommand, cx: ContextModel) -> (
    EditorModel,
    EffectModel,
) {
    match command {
        PaletteCommand::SaveSession => (e, EffectModel::SaveSession),
        PaletteCommand::RestoreSession => (e, EffectModel::RestoreSession),
        PaletteCommand::ClearSession => (e, EffectModel::ClearSession),
        _ => performed(e, palette_action(command), cx),
    }
}

/// A palette input handed in.
pub open spec fn palette_submitted(
    e: EditorModel,
    input: Seq<char>,
    selected_row: Option<usize>,
    cx: ContextModel,
) -> (EditorModel, EffectModel) {
    match palette_choice(input, selected_row, covers_text(e.document.text)) {
        PaletteChoice::NoMatch => (
            with_status(e, "no command matching '"@ + trimmed(input) + "'"@),
            EffectModel::Nothing,
        ),
        PaletteChoice::OutOfRange(index) => (
            with_status(e, "command index out of range: "@ + decimal(index as nat)),
            EffectModel::Nothing,
        ),
        PaletteChoice::Run(command) => palette_run(e, command, cx),
    }
}

/// An input handed in. Every prompt but the one for a search is closed.
pub open spec fn submitted(
    e: EditorModel,
    kind: PromptKind,
    input: Seq<char>,
    reverse: bool,
    selected_row: Option<usize>,
    cx: ContextModel,
) -> (EditorModel, EffectModel) {
    let closed = EditorModel { prompt: None, ..e };
    match kind {
        PromptKind::OpenPath => if input.len() == 0 {
            (with_status(closed, "path is empty"@), EffectModel::Nothing)
        } else {
            open_requested(closed, typed_path(input, cx.home, cx.cwd), cx)
        },
        PromptKind::SaveAsPath => if input.len() == 0 {
            (with_status(closed, "path is empty"@), EffectModel::Nothing)
        } else {
            (
                closed,
                EffectModel::Save {
                    path: typed_path(input, cx.home, cx.cwd),
                    text: written(e.document),
                },
            )
        },
        PromptKind::FindQuery => if input.len() == 0 {
            (with_status(e, "search query is empty"@), EffectModel::Nothing)
        } else {
            (
                found(
                    EditorModel { search: Some(query_set(e.search, input)), ..e },
                    reverse,
                    cx.visible,
                ),
                EffectModel::Nothing,
            )
        },
        PromptKind::GoToLine => (
            go_to_submitted(closed, input, cx.visible),
            EffectModel::Nothing,
        ),
        PromptKind::OpenRecent => recent_submitted(closed, input, cx),
        PromptKind::CommandPalette => palette_submitted(closed, input, selected_row, cx),
        PromptKind::ConfirmDiscard { next } => (closed, EffectModel::Nothing),
    }
}

/// What a key does while a prompt is open.
pub open spec fn prompt_handled(
    e: EditorModel,
    p: PromptModel,
    event: KeyEvent,
    cx: ContextModel,
) -> (EditorModel, EffectModel) {
    let (after, step) = prompt_step(p, event);
    let open = with_prompt(e, after);
    let closed = EditorModel { prompt: None, ..e };
    match step {
        PromptStep::Stay => (open, EffectModel::Nothing),
        PromptStep::Cancel => (with_status(closed, "prompt cancelled"@), EffectModel::Nothing),
        PromptStep::Decline => (with_status(closed, "cancelled"@), EffectModel::Nothing),
        PromptStep::Confirm { next } => (
            EditorModel { should_quit: true, ..closed },
            EffectModel::Nothing,
        ),
        PromptStep::MoveRow { forward } => (row_moved(open, forward), EffectModel::Nothing),
        PromptStep::Submit { kind, input, reverse, selected } => submitted(
            open,
            kind,
            input,
            reverse,
            selected,
            cx,
        ),
    }
}

/// What a key does: the new state, what is left to do outside, and whether the
/// cursor has to be shown after that.
pub open spec fn key_handled(e: EditorModel, event: KeyEvent, cx: ContextModel) -> (
    EditorModel,
    EffectModel,
    bool,
) {
    match e.prompt {
        Some(p) => {
            let (after, effect) = prompt_handled(e, p, event, cx);
            (after, effect, false)
        },
        None => {
            let (after, effect) = performed(e, binding(event), cx);
            if effect is Nothing {
                (revealed(after, cx.visible), effect, false)
            } else {
                (after, effect, true)
            }
        },
    }
}

// ---------------------------------------------------------------------------
// The pointer.

/// The pointer pressed on a position of the text.
pub open spec fn pressed(e: EditorModel, p: Pos, extend: bool, visible: int) -> EditorModel {
    let anchor = if extend {
        anchor_of(e.document)
    } else {
        p
    };
    revealed(
        EditorModel {
            document: spanning(placing(e.document, p), anchor, p),
            drag_anchor: Some(anchor),
            ..e
        },
        visible,
    )
}

/// The pointer dragged over a position of the text.
pub open spec fn dragged(e: EditorModel, p: Pos, visible: int) -> EditorModel {
    match e.drag_anchor {
        None => e,
        Some(anchor) => revealed(
            EditorModel { document: spanning(placing(e.document, p), anchor, p), ..e },
            visible,
        ),
    }
}

/// Something that happened to the window. Where the pointer was pressed is
/// already known as a tab or a position of the text.
#[derive(Debug, Clone, Copy, PartialEq, Eq, Structural)]
pub enum InputEvent {
    Key(KeyEvent),
    PressTab { index: usize },
    PressText { position: Position, extend: bool },
    PressElsewhere,
    PressMiddle,
    Move { over: Option<Position> },
    ReleaseLeft,
    Scroll { delta_y: i32 },
    Resize,
    Expose,
    CloseRequested,
    SelectionNotify { selection: u32, property: u32 },
    SelectionClear,
    Other,
}

/// What an event leads to besides the new state: what is left to do outside,
/// whether the cursor has to be shown after that, and whether the window has to
/// be drawn again.
pub struct StepModel {
    pub effect: EffectModel,
    pub reveal: bool,
    pub redraw: bool,
}

/// An event that leaves nothing to do outside.
pub open spec fn settled(redraw: bool) -> StepModel {
    StepModel { effect: EffectModel::Nothing, reveal: false, redraw }
}

/// What an event other than a key does.
pub open spec fn window_handled(e: EditorModel, event: InputEvent, cx: ContextModel) -> (
    EditorModel,
    StepModel,
) {
    match event {
        InputEvent::Key(key) => (e, settled(false)),
        InputEvent::PressTab { index } => (
            activated(e, index as int, cx.visible),
            settled(true),
        ),
        InputEvent::PressText { position, extend } => (
            pressed(e, position@, extend, cx.visible),
            settled(true),
        ),
        InputEvent::PressElsewhere => (e, settled(true)),
        InputEvent::PressMiddle => (
            e,
            StepModel { effect: paste_requested(e, cx.primary), reveal: false, redraw: true },
        ),
        InputEvent::Move { over } => (
            match over {
                Some(p) => dragged(e, p@, cx.visible),
                None => e,
            },
            settled(e.drag_anchor is Some),
        ),
        InputEvent::ReleaseLeft => (EditorModel { drag_anchor: None, ..e }, settled(true)),
        InputEvent::Scroll { delta_y } => (
            scrolled(e, delta_y as int, cx.visible),
            settled(true),
        ),
        InputEvent::Resize => (view_clamped(e, cx.visible), settled(true)),
        InputEvent::Expose => (e, settled(true)),
        InputEvent::CloseRequested => (quit_requested(e), settled(true)),
        InputEvent::SelectionNotify { selection, property } => {
            let (after, effect) = paste_notified(e, selection, property);
            (
                if effect is Nothing {
                    revealed(after, cx.visible)
                } else {
                    after
                },
                StepModel { effect, reveal: false, redraw: true },
            )
        },
        InputEvent::SelectionClear => (EditorModel { pending_paste: None, ..e }, settled(false)),
        InputEvent::Other => (e, settled(false)),
    }
}

/// What an event does.
pub open spec fn event_handled(e: EditorModel, event: InputEvent, cx: ContextModel) -> (
    EditorModel,
    StepModel,
) {
    match event {
        InputEvent::Key(key) => if key.pressed {
            let (after, effect, reveal) = key_handled(e, key, cx);
            (after, StepModel { effect, reveal, redraw: true })
        } else {
            (e, settled(false))
        },
        _ => window_handled(e, event, cx),
    }
}

// ---------------------------------------------------------------------------
// Remote control.

/// What a remote command still needs from outside.
pub enum RemoteModel {
    /// The answer is complete.
    Reply { response: ResponseModel, redraw: bool },
    /// A file has to be read first.
    Open { path: Seq<char>, line: Option<usize>, column: Option<usize> },
    /// The window has to be shown or hidden.
    Window { purpose: WindowPurpose, show: bool },
}

/// Why the window is shown or hidden.
#[derive(Debug, Clone, Copy, PartialEq, Eq, Structural)]
pub enum WindowPurpose {
    Open,
    Show,
    Hide,
    Toggle,
}

/// The number, or one.
pub open spec fn or_one(n: Option<usize>) -> int {
    match n {
        Some(k) => k as int,
        None => 1,
    }
}

/// A file was opened for a remote command, or that failed: then the message
/// about it is the answer, else the cursor goes where it was sent.
pub open spec fn remote_opened(
    e: EditorModel,
    line: Option<usize>,
    column: Option<usize>,
    visible: int,
) -> (EditorModel, RemoteModel) {
    if e.status is Some && has_prefix(e.status->0, "open failed:"@) {
        (e, RemoteModel::Reply { response: err_response(e.status->0), redraw: true })
    } else {
        (
            if line is Some || column is Some {
                jumped(e, or_one(line), or_one(column), visible)
            } else {
                e
            },
            RemoteModel::Window { purpose: WindowPurpose::Open, show: true },
        )
    }
}

/// The answer once the window was shown or hidden, or that failed, and whether
/// the window has to be drawn again.
pub open spec fn window_answer(purpose: WindowPurpose, error: Option<Seq<char>>) -> (
    ResponseModel,
    bool,
) {
    match error {
        None => (ok_response(), true),
        Some(err) => (
            err_response(
                match purpose {
                    WindowPurpose::Open => "failed to show window: "@ + err,
                    WindowPurpose::Show => "failed to show window: "@ + err,
                    WindowPurpose::Hide => "failed to hide window: "@ + err,
                    WindowPurpose::Toggle => "failed to toggle window: "@ + err,
                },
            ),
            purpose is Open,
        ),
    }
}

/// What the editor says of itself.
pub open spec fn status_of(e: EditorModel) -> StatusModel {
    StatusModel {
        visible: e.window_visible,
        open_documents: e.tabs.len(),
        focused_document: e.document.text.path,
    }
}

/// The answer to a request to quit: refused while there are unsaved changes.
pub open spec fn remote_quit(e: EditorModel) -> (EditorModel, RemoteModel) {
    if unsaved(e) {
        (
            e,
            RemoteModel::Reply {
                response: err_response("unsaved changes present; refusing quit request"@),
                redraw: false,
            },
        )
    } else {
        (
            EditorModel { should_quit: true, ..e },
            RemoteModel::Reply { response: ok_response(), redraw: true },
        )
    }
}

/// A file asked for by a remote command.
pub open spec fn remote_open(
    e: EditorModel,
    path: Seq<char>,
    line: Option<usize>,
    column: Option<usize>,
    cx: ContextModel,
) -> (EditorModel, RemoteModel) {
    let (after, effect) = open_requested(e, full_path(path, cx.cwd), cx);
    match effect {
        EffectModel::Open { path: wanted } => (
            after,
            RemoteModel::Open { path: wanted, line, column },
        ),
        _ => remote_opened(after, line, column, cx.visible),
    }
}

/// What a remote command does.
pub open spec fn remote_applied(e: EditorModel, command: Command, cx: ContextModel) -> (
    EditorModel,
    RemoteModel,
) {
    match command {
        Command::Open { path, line, column } => remote_open(e, path@, line, column, cx),
        Command::Show => (e, RemoteModel::Window { purpose: WindowPurpose::Show, show: true }),
        Command::Hide => (e, RemoteModel::Window { purpose: WindowPurpose::Hide, show: false }),
        Command::Toggle => (
            e,
            RemoteModel::Window { purpose: WindowPurpose::Toggle, show: !e.window_visible },
        ),
        Command::Status => (
            e,
            RemoteModel::Reply {
                response: ResponseModel { success: true, error: None, data: Some(status_of(e)) },
                redraw: false,
            },
        ),
        Command::Quit => remote_quit(e),
    }
}

// ---------------------------------------------------------------------------
// Start and session.

/// What the editor starts with.
pub enum StartupModel {
    Scratch,
    Opened { path: Seq<char>, document: DocModel, existed: bool },
    Failed { error: Seq<char> },
}

/// The document of a file: what was read from it, or nothing if it does not
/// exist yet.
pub open spec fn file_document(path: Seq<char>, raw: Option<Seq<char>>) -> DocModel {
    match raw {
        Some(text) => fresh_doc(split(normalized(text)), shown_style(text), Some(path)),
        None => fresh_doc(seq![Seq::<char>::empty()], NewlineStyle::Lf, Some(path)),
    }
}

/// An editor as it starts.
pub open spec fn started(startup: StartupModel, tab_width: nat, hidden: bool) -> EditorModel {
    let document = match startup {
        StartupModel::Opened { path, document, existed } => document,
        _ => empty_doc(),
    };
    EditorModel {
        tabs: seq![TabModel { document, viewport: 0, search: None }],
        active: 0,
        document,
        status: Some(
            match startup {
                StartupModel::Scratch => "scratch buffer"@,
                StartupModel::Opened { path, document, existed } => opened_message(path, existed),
                StartupModel::Failed { error } => "open failed: "@ + error,
            },
        ),
        tab_width: at_least(1, tab_width as int) as nat,
        viewport: 0,
        drag_anchor: None,
        recent: Seq::empty(),
        search: None,
        prompt: None,
        selection_text: None,
        local_clipboard: None,
        pending_paste: None,
        window_visible: !hidden,
        should_quit: false,
    }
}

/// The files of some tabs remembered, one after the other.
pub open spec fn all_remembered(recent: Seq<Seq<char>>, tabs: Seq<TabModel>) -> Seq<Seq<char>>
    decreases tabs.len(),
{
    if tabs.len() == 0 {
        recent
    } else {
        let before = all_remembered(recent, tabs.drop_last());
        match tabs.last().document.text.path {
            Some(path) => remembered(before, path),
            None => before,
        }
    }
}

/// The start completed: the files of all tabs are remembered, and the cursor
/// goes where the user asked for.
pub open spec fn start_finished(
    e: EditorModel,
    line: Option<usize>,
    column: Option<usize>,
    visible: int,
) -> EditorModel {
    let known = EditorModel { recent: all_remembered(e.recent, e.tabs), ..e };
    view_clamped(
        if line is Some || column is Some {
            jumped(known, or_one(line), or_one(column), visible)
        } else {
            known
        },
        visible,
    )
}

/// The tabs of a session put in place of the present ones.
pub open spec fn tabs_restored(
    e: EditorModel,
    tabs: Seq<TabModel>,
    active: int,
    visible: int,
) -> EditorModel {
    if tabs.len() == 0 {
        e
    } else {
        let index = at_most(tabs.len() - 1, active);
        with_status(
            view_clamped(
                EditorModel {
                    tabs,
                    active: index,
                    document: tabs[index].document,
                    viewport: tabs[index].viewport,
                    search: tabs[index].search,
                    drag_anchor: None,
                    prompt: None,
                    ..e
                },
                visible,
            ),
            "restored "@ + decimal(tabs.len()) + " tab(s)"@,
        )
    }
}

/// Something that went wrong outside, or was done there.
#[derive(Debug, Clone, Copy, PartialEq, Eq, Structural)]
pub enum Notice {
    ClipboardRequestFailed,
    PasteFailed,
    AutosaveFailed,
    IpcAcceptFailed,
    SessionFailed,
    SessionSaved,
    SessionCleared,
}

/// What the user is told of it.
pub open spec fn notice_text(notice: Notice, error: Seq<char>) -> Seq<char> {
    match notice {
        Notice::ClipboardRequestFailed => "clipboard request failed: "@ + error,
        Notice::PasteFailed => "paste failed: "@ + error,
        Notice::AutosaveFailed => "autosave failed: "@ + error,
        Notice::IpcAcceptFailed => "ipc accept failed: "@ + error,
        Notice::SessionFailed => "session failed: "@ + error,
        Notice::SessionSaved => "session saved"@,
        Notice::SessionCleared => "session data cleared"@,
    }
}

// ---------------------------------------------------------------------------
// Laws.

/// After it was revealed, the cursor is in the window, which lies on the text.
pub proof fn law_revealed_cursor_is_visible(e: EditorModel, visible: int)
    requires
        doc_wf(e.document),
        e.viewport >= 0,
    ensures
        ({
            let top = revealed(e, visible).viewport;
            let line = e.document.text.cursor.line;
            &&& top <= line < top + at_least(1, visible)
            &&& 0 <= top <= last_top(e.document, visible)
        }),
        revealed(revealed(e, visible), visible) == revealed(e, visible),
        view_clamped(revealed(e, visible), visible) == revealed(e, visible),
{
}

/// Leaving a tab and coming back restores the document, its search and, as far
/// as it fits the window, what was in sight.
pub proof fn law_returning_to_a_tab_restores_it(e: EditorModel, index: int, visible: int)
    requires
        editor_wf(e),
        0 <= index < e.tabs.len(),
        index != e.active,
    ensures
        ({
            let back = activated(activated(e, index, visible), e.active, visible);
            &&& back.document == e.document
            &&& back.search == e.search
            &&& back.active == e.active
            &&& back.viewport == view_clamped(e, visible).viewport
        }),
{
}

pub proof fn lemma_neighbour(e: EditorModel, forward: bool)
    requires
        editor_wf(e),
    ensures
        neighbour(e, forward) == if forward {
            if e.active + 1 < e.tabs.len() {
                e.active + 1
            } else {
                0
            }
        } else if e.active > 0 {
            e.active - 1
        } else {
            e.tabs.len() - 1
        },
{
    let n = e.tabs.len() as int;
    if e.active + 1 < n {
        vstd::arithmetic::div_mod::lemma_small_mod((e.active + 1) as nat, n as nat);
    } else {
        vstd::arithmetic::div_mod::lemma_mod_self_0(n);
    }
    if e.active > 0 {
        vstd::arithmetic::div_mod::lemma_small_mod((e.active - 1) as nat, n as nat);
    } else {
        vstd::arithmetic::div_mod::lemma_mod_add_multiples_vanish(-1, n);
        vstd::arithmetic::div_mod::lemma_small_mod((n - 1) as nat, n as nat);
    }
}

/// Going to the next tab and back to the previous one ends in the same tab,
/// and so does going back first.
pub proof fn law_next_and_previous_tab_cancel(e: EditorModel, forward: bool, visible: int)
    requires
        editor_wf(e),
    ensures
        tab_switched(tab_switched(e, forward, visible), !forward, visible).active == e.active,
        tab_switched(tab_switched(e, forward, visible), !forward, visible).document == e.document,
{
    lemma_neighbour(e, forward);
    let there = tab_switched(e, forward, visible);
    if e.tabs.len() > 1 {
        lemma_neighbour(there, !forward);
    }
}

/// The editor closes at once only when nothing would be lost; a question comes
/// first otherwise, and a remote request is refused.
pub proof fn law_unsaved_changes_hold_the_editor(e: EditorModel)
    requires
        unsaved(e),
    ensures
        quit_requested(e).should_quit == e.should_quit,
        quit_requested(e).prompt is Some,
        remote_quit(e).0 == e,
        remote_quit(e).1 matches RemoteModel::Reply { response, redraw } && !response.success,
{
}

pub proof fn lemma_other_paths(recent: Seq<Seq<char>>, path: Seq<char>)
    requires
        distinct_paths(recent),
    ensures
        distinct_paths(other_paths(recent, path)),
        other_paths(recent, path).len() <= recent.len(),
        forall|i: int|
            0 <= i < other_paths(recent, path).len() ==> !same_path(
                #[trigger] other_paths(recent, path)[i],
                path,
            ) && recent.contains(other_paths(recent, path)[i]),
    decreases recent.len(),
{
    let out = other_paths(recent, path);
    if recent.len() > 0 {
        let init = recent.drop_last();
        assert forall|i: int, j: int| 0 <= i < j < init.len() implies !same_path(
            #[trigger] init[i],
            #[trigger] init[j],
        ) by {
            assert(init[i] == recent[i] && init[j] == recent[j]);
        }
        lemma_other_paths(init, path);
        let before = other_paths(init, path);
        assert forall|i: int| 0 <= i < out.len() implies !same_path(#[trigger] out[i], path)
            && recent.contains(out[i]) by {
            if i < before.len() {
                assert(out[i] == before[i]);
                assert(init.contains(before[i]));
                let k = choose|k: int| 0 <= k < init.len() && init[k] == before[i];
                assert(recent[k] == before[i]);
            } else {
                assert(recent[recent.len() - 1] == out[i]);
            }
        }
        assert forall|i: int, j: int| 0 <= i < j < out.len() implies !same_path(
            #[trigger] out[i],
            #[trigger] out[j],
        ) by {
            assert(out[i] == before[i]);
            if j < before.len() {
                assert(out[j] == before[j]);
            } else {
                assert(init.contains(before[i]));
                let k = choose|k: int| 0 <= k < init.len() && init[k] == before[i];
                assert(recent[k] == out[i]);
                assert(recent[recent.len() - 1] == out[j]);
            }
        }
    }
}

/// The file used last comes first, the list stays short, and no file is listed
/// twice.
pub proof fn law_recent_files_are_few_and_distinct(recent: Seq<Seq<char>>, path: Seq<char>)
    requires
        distinct_paths(recent),
    ensures
        remembered(recent, path)[0] == path,
        remembered(recent, path).len() <= MAX_RECENT_FILES,
        distinct_paths(remembered(recent, path)),
{
    lemma_other_paths(recent, path);
    let out = remembered(recent, path);
    let rest = other_paths(recent, path);
    assert forall|i: int, j: int| 0 <= i < j < out.len() implies !same_path(
        #[trigger] out[i],
        #[trigger] out[j],
    ) by {
        assert(out[j] == rest[j - 1]);
        if i > 0 {
            assert(out[i] == rest[i - 1]);
        }
    }
}

/// Opening a file that is already open shows its tab and reads nothing.
pub proof fn law_open_files_are_not_read_again(e: EditorModel, path: Seq<char>, cx: ContextModel)
    requires
        editor_wf(e),
    ensures
        (open_requested(e, path, cx).1 is Nothing) <==> (at_path(
            e.document,
            full_path(path, cx.cwd),
            cx.cwd,
        ) || exists|i: int|
            0 <= i < e.tabs.len() && i != e.active && at_path(
                (#[trigger] e.tabs[i]).document,
                full_path(path, cx.cwd),
                cx.cwd,
            )),
        open_requested(e, path, cx).0.tabs.len() == e.tabs.len(),
{
    lemma_tab_from(e, full_path(path, cx.cwd), cx.cwd, 0);
}

pub proof fn lemma_tab_from(e: EditorModel, target: Seq<char>, cwd: Option<Seq<char>>, k: int)
    requires
        0 <= k <= e.tabs.len(),
    ensures
        match tab_from(e, target, cwd, k) {
            Some(i) => k <= i < e.tabs.len() && i != e.active && at_path(
                e.tabs[i].document,
                target,
                cwd,
            ),
            None => forall|i: int|
                k <= i < e.tabs.len() && i != e.active ==> !at_path(
                    (#[trigger] e.tabs[i]).document,
                    target,
                    cwd,
                ),
        },
    decreases e.tabs.len() - k,
{
    if k < e.tabs.len() && !(k != e.active && at_path(e.tabs[k].document, target, cwd)) {
        lemma_tab_from(e, target, cwd, k + 1);
    }
}

/// A cut leaves the document alone until other programs can have the text.
pub proof fn law_failed_cut_keeps_the_text(e: EditorModel, err: Seq<char>)
    ensures
        ({
            let (after, effect) = copy_requested(e, true);
            &&& after.document == e.document
            &&& effect matches EffectModel::OwnClipboard { cut, chars } ==> copy_finished(
                after,
                cut,
                chars,
                Some(err),
            ).document == e.document
        }),
{
}

} // verus!

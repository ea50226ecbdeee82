//! The editor: tabs, prompts, search and clipboard around the documents.
//!
//! Work that has to be done outside, such as reading a file or asking the X
//! server for the clipboard, is returned as an [`Effect`]; the result is handed
//! back to the editor afterwards.
use crate::buffer::{line_char_count, Document};
use crate::clipboard::{is_none_atom, received_text};
#[allow(unused_imports)]
use crate::clipboard::{utf8_lossy, without_nuls};
use crate::command::EditCommand;
use crate::cursor::Position;
#[allow(unused_imports)]
use crate::cursor::Pos;
use crate::ipc::{Command, Response, ResponseData};
use crate::keys::{action_for, edit_of, motion_of, Action, KeyEvent};
#[allow(unused_imports)]
use crate::model::{covers_text, doc_wf};
use crate::newline::{join_lines, NewlineStyle};
use crate::number::{parse_usize, to_decimal};
#[allow(unused_imports)]
use crate::number::decimal;
use crate::palette::{
    choose_palette_command, matching_palette_commands, PaletteChoice, PaletteCommand,
};
use crate::paths::{is_same_path, normalize_path_for_match, resolve_user_path};
#[allow(unused_imports)]
use crate::paths::opt_str;
use crate::prompt::{parse_go_to, GoTo, PendingAction, PromptEvent, PromptKind, PromptState};
#[allow(unused_imports)]
use crate::prompt::{fresh_prompt, opt_prompt, PromptModel};
use crate::search::{copy_search, document_end_position, find_match, SearchState};
#[allow(unused_imports)]
use crate::search::{next_match, opt_search, search_origin};
use crate::selection::Selection;
use crate::state::{InputEvent, Notice, WindowPurpose, MAX_RECENT_FILES};
#[allow(unused_imports)]
use crate::state::{
    activated, all_remembered, all_selected, at_path, blanks, copy_finished, copy_requested,
    cut_to_line_end, cut_to_line_start, dragged, editor_wf, empty_doc, event_handled, file_document,
    file_opened, find_prompt, first_holding, found, found_again, go_to_submitted, jumped,
    key_handled, law_recent_files_are_few_and_distinct, lemma_neighbour, lemma_tab_from,
    notice_text, open_requested, opened_message, or_one, other_paths, palette_action, palette_run,
    palette_submitted, paste_arrived, paste_notified, paste_request_finished, paste_requested,
    pasted, pasted_own, performed, persisted, pressed, prompt_handled, query_set, quit_requested,
    recent_submitted, remembered, remote_applied, remote_opened, revealed, row_moved,
    save_as_prompt, save_finished, save_requested, scrolled, selected, settled, spanning,
    start_finished, started, submitted, tab_added, tab_from, tab_of_path, tab_switched,
    tabs_restored, trimmed_query, unsaved, user_moved, view_clamped, window_answer, with_prompt,
    with_status, written, ContextModel, EditorModel, EffectModel, RemoteModel, StartupModel,
    StepModel, TabModel,
};
use crate::text::{
    contains, copy_opt, owned, slice, starts_with, str_equal, to_ascii_lowercase, trim,
};
#[allow(unused_imports)]
use crate::text::{opt_text, texts};
use vstd::prelude::*;
#[allow(unused_imports)]
use vstd::utf8::{decode_utf8, valid_utf8};

verus! {

/// A tab: a document, the line at the top of the window and the search.
#[derive(Debug)]
pub struct OpenTab {
    pub document: Document,
    pub viewport_top_line: usize,
    pub search: Option<SearchState>,
}

impl View for OpenTab {
    type V = TabModel;

    open spec fn view(&self) -> TabModel {
        TabModel {
            document: self.document@,
            viewport: self.viewport_top_line as int,
            search: opt_search(self.search),
        }
    }
}

impl OpenTab {
    /// A tab that shows a document.
    pub fn from_active(document: Document, viewport_top_line: usize, search: Option<SearchState>) -> (out:
        Self)
        ensures
            out@ == (TabModel {
                document: document@,
                viewport: viewport_top_line as int,
                search: opt_search(search),
            }),
    {
        OpenTab { document, viewport_top_line, search }
    }
}

/// The views of a list of tabs.
pub open spec fn tab_views(tabs: Seq<OpenTab>) -> Seq<TabModel> {
    Seq::new(tabs.len(), |i: int| tabs[i]@)
}

/// What the editor is told of its surroundings.
#[derive(Debug)]
pub struct Context {
    /// The home directory.
    pub home: Option<String>,
    /// The working directory.
    pub cwd: Option<String>,
    /// How many lines the window shows.
    pub visible_lines: usize,
    /// The atom of the clipboard.
    pub clipboard: u32,
    /// The atom of the primary selection.
    pub primary: u32,
}

impl View for Context {
    type V = ContextModel;

    open spec fn view(&self) -> ContextModel {
        ContextModel {
            home: opt_text(self.home),
            cwd: opt_text(self.cwd),
            visible: self.visible_lines as int,
            clipboard: self.clipboard,
            primary: self.primary,
        }
    }
}

/// What has to be done outside the editor before an action is complete.
#[derive(Debug)]
pub enum Effect {
    Nothing,
    /// Read a file, then `finish_open` or `fail_open`.
    Open { path: String },
    /// Write a file, then `finish_save`.
    Save { path: String, text: String },
    /// Take over the clipboard, then `finish_copy`.
    OwnClipboard { cut: bool, chars: usize },
    /// Ask for the clipboard, then `finish_paste_request`.
    RequestPaste { selection: u32 },
    /// Read what the owner of the clipboard left, then `finish_paste`.
    ReadProperty { property: u32 },
    /// Write the session.
    SaveSession,
    /// Read the session.
    RestoreSession,
    /// Remove the session.
    ClearSession,
}

impl View for Effect {
    type V = EffectModel;

    open spec fn view(&self) -> EffectModel {
        match *self {
            Effect::Nothing => EffectModel::Nothing,
            Effect::Open { path } => EffectModel::Open { path: path@ },
            Effect::Save { path, text } => EffectModel::Save { path: path@, text: text@ },
            Effect::OwnClipboard { cut, chars } => EffectModel::OwnClipboard {
                cut,
                chars: chars as nat,
            },
            Effect::RequestPaste { selection } => EffectModel::RequestPaste { selection },
            Effect::ReadProperty { property } => EffectModel::ReadProperty { property },
            Effect::SaveSession => EffectModel::SaveSession,
            Effect::RestoreSession => EffectModel::RestoreSession,
            Effect::ClearSession => EffectModel::ClearSession,
        }
    }
}

/// What an event leads to.
#[derive(Debug)]
pub struct Step {
    /// What has to be done outside.
    pub effect: Effect,
    /// Whether the cursor has to be shown after that.
    pub reveal: bool,
    /// Whether the window has to be drawn again.
    pub redraw: bool,
}

impl View for Step {
    type V = StepModel;

    open spec fn view(&self) -> StepModel {
        StepModel { effect: self.effect@, reveal: self.reveal, redraw: self.redraw }
    }
}

impl Step {
    fn settled(redraw: bool) -> (out: Self)
        ensures
            out@ == settled(redraw),
    {
        Step { effect: Effect::Nothing, reveal: false, redraw }
    }
}

/// What a remote command still needs from outside.
#[derive(Debug)]
pub enum RemoteStep {
    /// The answer is complete.
    Reply { response: Response, redraw: bool },
    /// Read a file, take it in, then `finish_remote_open`.
    Open { path: String, line: Option<usize>, column: Option<usize> },
    /// Show or hide the window, then `window_response`.
    Window { purpose: WindowPurpose, show: bool },
}

impl View for RemoteStep {
    type V = RemoteModel;

    open spec fn view(&self) -> RemoteModel {
        match *self {
            RemoteStep::Reply { response, redraw } => RemoteModel::Reply {
                response: response@,
                redraw,
            },
            RemoteStep::Open { path, line, column } => RemoteModel::Open {
                path: path@,
                line,
                column,
            },
            RemoteStep::Window { purpose, show } => RemoteModel::Window { purpose, show },
        }
    }
}

/// The answer once the window was shown or hidden, or that failed, and whether
/// the window has to be drawn again.
pub fn window_response(purpose: WindowPurpose, error: Option<&str>) -> (out: (Response, bool))
    ensures
        (out.0@, out.1) == window_answer(purpose, opt_str(error)),
{
    match error {
        None => (Response::ok(), true),
        Some(err) => match purpose {
            WindowPurpose::Open => (Response::err(concat("failed to show window: ", err)), true),
            WindowPurpose::Show => (Response::err(concat("failed to show window: ", err)), false),
            WindowPurpose::Hide => (Response::err(concat("failed to hide window: ", err)), false),
            WindowPurpose::Toggle => (
                Response::err(concat("failed to toggle window: ", err)),
                false,
            ),
        },
    }
}

/// What the editor starts with.
#[derive(Debug)]
pub enum Startup {
    /// No file.
    Scratch,
    /// A file that was read, or does not exist yet.
    Opened { path: String, document: Document, existed: bool },
    /// A file that could not be read.
    Failed { error: String },
}

impl View for Startup {
    type V = StartupModel;

    open spec fn view(&self) -> StartupModel {
        match *self {
            Startup::Scratch => StartupModel::Scratch,
            Startup::Opened { path, document, existed } => StartupModel::Opened {
                path: path@,
                document: document@,
                existed,
            },
            Startup::Failed { error } => StartupModel::Failed { error: error@ },
        }
    }
}

/// The document of a file: what was read from it, or nothing if it does not
/// exist yet.
pub fn open_or_create_document(path: &str, raw: Option<&str>) -> (out: Document)
    ensures
        out@ == file_document(path@, opt_str(raw)),
        out.wf(),
{
    match raw {
        Some(text) => Document::open_path(owned(path), text),
        None => {
            let mut document = Document::new();
            document.set_path(Some(owned(path)));
            document
        },
    }
}

/// The editor. The document of the active tab is held apart from the list of
/// tabs, which is brought up to date when the tab is left.
#[derive(Debug)]
pub struct Editor {
    tabs: Vec<OpenTab>,
    active_tab: usize,
    document: Document,
    status_message: Option<String>,
    tab_width: usize,
    viewport_top_line: usize,
    pointer_drag_anchor: Option<Position>,
    recent_files: Vec<String>,
    search: Option<SearchState>,
    prompt: Option<PromptState>,
    selection_text: Option<String>,
    local_clipboard: Option<String>,
    pending_paste: Option<u32>,
    window_visible: bool,
    should_quit: bool,
}

/// The view of an optional position.
pub open spec fn opt_pos(p: Option<Position>) -> Option<Pos> {
    match p {
        Some(position) => Some(position@),
        None => None,
    }
}

impl View for Editor {
    type V = EditorModel;

    closed spec fn view(&self) -> EditorModel {
        EditorModel {
            tabs: tab_views(self.tabs@),
            active: self.active_tab as int,
            document: self.document@,
            status: opt_text(self.status_message),
            tab_width: self.tab_width as nat,
            viewport: self.viewport_top_line as int,
            drag_anchor: opt_pos(self.pointer_drag_anchor),
            recent: texts(self.recent_files@),
            search: opt_search(self.search),
            prompt: opt_prompt(self.prompt),
            selection_text: opt_text(self.selection_text),
            local_clipboard: opt_text(self.local_clipboard),
            pending_paste: self.pending_paste,
            window_visible: self.window_visible,
            should_quit: self.should_quit,
        }
    }
}

// ---------------------------------------------------------------------------
// Documents under the hands of the user.

/// Moves the cursor for the user, as `user_moved` says.
pub fn move_cursor(document: &mut Document, command: EditCommand, extend_selection: bool)
    requires
        old(document).wf(),
    ensures
        final(document)@ == user_moved(old(document)@, command, extend_selection),
        final(document).wf(),
{
    if extend_selection {
        let anchor = match document.selection() {
            Some(selection) => selection.anchor,
            None => document.cursor(),
        };
        document.apply(command);
        let active = document.cursor();
        span(document, anchor, active);
        return ;
    }
    if let Some(selection) = document.selection() {
        let (start, end) = selection.normalized();
        match &command {
            EditCommand::MoveLeft | EditCommand::MoveWordLeft | EditCommand::MoveUp
            | EditCommand::MovePageUp(_) => {
                document.clear_selection();
                document.set_cursor(start);
                return ;
            },
            EditCommand::MoveRight | EditCommand::MoveWordRight | EditCommand::MoveDown
            | EditCommand::MovePageDown(_) => {
                document.clear_selection();
                document.set_cursor(end);
                return ;
            },
            _ => {},
        }
    }
    document.clear_selection();
    document.apply(command);
    document.clear_selection();
}

/// Selects from an anchor to the cursor, if they differ.
fn span(document: &mut Document, anchor: Position, active: Position)
    requires
        old(document).wf(),
    ensures
        final(document)@ == spanning(old(document)@, anchor@, active@),
        final(document).wf(),
{
    if anchor == active {
        document.clear_selection();
    } else {
        document.set_selection(Some(Selection::new(anchor, active)));
    }
}

/// Selects the whole text.
pub fn select_all(document: &mut Document)
    requires
        old(document).wf(),
    ensures
        final(document)@ == all_selected(old(document)@),
        final(document).wf(),
{
    let end = document_end_position(document);
    document.set_cursor(end);
    span(document, Position::origin(), end);
}

/// Deletes from the start of the line to the cursor.
pub fn delete_to_line_start(document: &mut Document)
    requires
        old(document).wf(),
    ensures
        final(document)@ == cut_to_line_start(old(document)@),
        final(document).wf(),
{
    let cursor = document.cursor();
    if cursor.column > 0 {
        document.set_selection(Some(Selection::new(Position::new(cursor.line, 0), cursor)));
        document.apply(EditCommand::Delete);
    } else if cursor.line > 0 {
        document.apply(EditCommand::Backspace);
    }
}

/// Deletes from the cursor to the end of the line.
pub fn delete_to_line_end(document: &mut Document)
    requires
        old(document).wf(),
    ensures
        final(document)@ == cut_to_line_end(old(document)@),
        final(document).wf(),
{
    let cursor = document.cursor();
    let line_len: usize = match document.line(cursor.line) {
        Some(line) => line_char_count(line),
        None => cursor.column,
    };
    if cursor.column < line_len {
        document.set_selection(
            Some(Selection::new(cursor, Position::new(cursor.line, line_len))),
        );
    }
    document.apply(EditCommand::Delete);
}

/// The text under the selection.
pub fn selected_text(document: &Document) -> (out: Option<String>)
    requires
        document.wf(),
    ensures
        opt_text(out) == selected(document@),
{
    let selection = match document.selection() {
        Some(selection) => selection,
        None => return None,
    };
    if selection.is_collapsed() {
        return None;
    }
    let (start, end) = selection.normalized();
    let ghost lines = document@.text.lines;
    let all = document.lines();
    assert(texts(all@).len() == all@.len());
    if start.line == end.line {
        assert(texts(all@)[start.line as int] == all@[start.line as int]@);
        return Some(slice(all[start.line].as_str(), start.column, end.column));
    }
    let mut pieces: Vec<String> = Vec::new();
    assert(texts(all@)[start.line as int] == all@[start.line as int]@);
    let first = all[start.line].as_str();
    pieces.push(slice(first, start.column, line_char_count(first)));
    assert(pieces@[0]@ =~= lines[start.line as int].skip(start.column as int));
    let mut line_idx: usize = start.line + 1;
    while line_idx < end.line
        invariant
            start.line < line_idx <= end.line,
            lines == texts(all@),
            end.line < all@.len(),
            pieces@.len() == line_idx - start.line,
            pieces@[0]@ == lines[start.line as int].skip(start.column as int),
            forall|j: int|
                1 <= j < pieces@.len() ==> (#[trigger] pieces@[j])@ == lines[start.line + j],
        decreases end.line - line_idx,
    {
        pieces.push(owned(all[line_idx].as_str()));
        line_idx += 1;
    }
    assert(texts(all@)[end.line as int] == all@[end.line as int]@);
    pieces.push(slice(all[end.line].as_str(), 0, end.column));
    assert(pieces@[pieces@.len() - 1]@ =~= lines[end.line as int].take(end.column as int));
    assert(texts(pieces@) =~= (seq![lines[start.line as int].skip(start.column as int)]
        + lines.subrange(start.line + 1, end.line as int)).push(
        lines[end.line as int].take(end.column as int),
    ));
    Some(join_lines(&pieces, NewlineStyle::Lf.delimiter()))
}

// ---------------------------------------------------------------------------
// Tabs and the viewport.

impl Editor {
    /// There is an active tab, all documents are well formed, and the recent
    /// files are few and distinct.
    pub open spec fn wf(&self) -> bool {
        editor_wf(self@)
    }

    fn set_status(&mut self, message: String)
        requires
            old(self).wf(),
        ensures
            final(self)@ == with_status(old(self)@, message@),
            final(self).wf(),
    {
        self.status_message = Some(message);
    }

    fn set_prompt(&mut self, prompt: PromptState)
        requires
            old(self).wf(),
        ensures
            final(self)@ == with_prompt(old(self)@, prompt@),
            final(self).wf(),
    {
        self.prompt = Some(prompt);
    }

    /// Brings the list of tabs up to date.
    pub fn persist_active_tab(&mut self)
        requires
            old(self).wf(),
        ensures
            final(self)@ == (EditorModel { tabs: persisted(old(self)@), ..old(self)@ }),
            final(self).wf(),
    {
        let tab = OpenTab::from_active(
            self.document.clone(),
            self.viewport_top_line,
            copy_search(&self.search),
        );
        let ghost before = self@;
        self.tabs[self.active_tab] = tab;
        assert(self@.tabs =~= persisted(before));
    }

    /// Moves the viewport back onto the text.
    pub fn clamp_viewport(&mut self, visible_lines: usize)
        requires
            old(self).wf(),
        ensures
            final(self)@ == view_clamped(old(self)@, visible_lines as int),
            final(self).wf(),
    {
        let visible: usize = if visible_lines < 1 {
            1
        } else {
            visible_lines
        };
        let max_top: usize = self.document.line_count().saturating_sub(visible);
        if self.viewport_top_line > max_top {
            self.viewport_top_line = max_top;
        }
    }

    /// Moves the viewport as little as needed to show the cursor.
    pub fn ensure_cursor_visible(&mut self, visible_lines: usize)
        requires
            old(self).wf(),
        ensures
            final(self)@ == revealed(old(self)@, visible_lines as int),
            final(self).wf(),
    {
        self.clamp_viewport(visible_lines);
        let line: usize = self.document.cursor().line;
        let below: usize = visible_lines.saturating_sub(1);
        if line < self.viewport_top_line {
            self.viewport_top_line = line;
        } else if line - self.viewport_top_line > below {
            self.viewport_top_line = line - below;
        }
    }

    /// Scrolls by a sixth of the window.
    pub fn scroll(&mut self, delta_y: i32, visible_lines: usize)
        requires
            old(self).wf(),
        ensures
            final(self)@ == scrolled(old(self)@, delta_y as int, visible_lines as int),
            final(self).wf(),
    {
        let sixth: usize = visible_lines / 6;
        let step: usize = if sixth < 1 {
            1
        } else {
            sixth
        };
        let count: usize = self.document.line_count();
        assert(self@.document.text.lines.len() == count);
        if delta_y < 0 {
            self.viewport_top_line = self.viewport_top_line.saturating_sub(step);
        } else if delta_y > 0 {
            self.viewport_top_line = self.viewport_top_line.saturating_add(step);
        }
        self.clamp_viewport(visible_lines);
    }

    /// Makes another tab active.
    pub fn activate_tab(&mut self, index: usize, visible_lines: usize)
        requires
            old(self).wf(),
        ensures
            final(self)@ == activated(old(self)@, index as int, visible_lines as int),
            final(self).wf(),
    {
        if index >= self.tabs.len() || index == self.active_tab {
            return ;
        }
        let ghost before = self@;
        self.persist_active_tab();
        assert(self.tabs@[index as int]@ == self@.tabs[index as int]);
        assert(self@.tabs[index as int] == before.tabs[index as int]);
        self.active_tab = index;
        self.document = self.tabs[index].document.clone();
        self.viewport_top_line = self.tabs[index].viewport_top_line;
        self.search = copy_search(&self.tabs[index].search);
        self.pointer_drag_anchor = None;
        self.prompt = None;
        self.clamp_viewport(visible_lines);
    }

    /// Goes to the next or previous tab, going round.
    pub fn switch_tab(&mut self, forward: bool, visible_lines: usize)
        requires
            old(self).wf(),
        ensures
            final(self)@ == tab_switched(old(self)@, forward, visible_lines as int),
            final(self).wf(),
    {
        let len: usize = self.tabs.len();
        if len <= 1 {
            return ;
        }
        proof {
            lemma_neighbour(self@, forward);
        }
        let next: usize = if forward {
            if self.active_tab + 1 < len {
                self.active_tab + 1
            } else {
                0
            }
        } else if self.active_tab > 0 {
            self.active_tab - 1
        } else {
            len - 1
        };
        self.activate_tab(next, visible_lines);
        let mut message = owned("tab ");
        message.append(to_decimal(self.active_tab as u128 + 1).as_str());
        message.append("/");
        message.append(to_decimal(self.tabs.len() as u128).as_str());
        self.set_status(message);
    }

    /// Opens an empty document in a new tab.
    pub fn new_tab(&mut self)
        requires
            old(self).wf(),
        ensures
            final(self)@ == tab_added(old(self)@),
            final(self).wf(),
    {
        let ghost before = self@;
        self.persist_active_tab();
        let ghost kept = self@.tabs;
        self.document = Document::new();
        self.search = None;
        self.viewport_top_line = 0;
        self.pointer_drag_anchor = None;
        self.prompt = None;
        self.active_tab = self.tabs.len();
        self.tabs.push(OpenTab::from_active(self.document.clone(), 0, None));
        assert(self@.tabs =~= kept.push(
            TabModel { document: empty_doc(), viewport: 0, search: None },
        ));
        assert forall|i: int| 0 <= i < self@.tabs.len() implies doc_wf(
            (#[trigger] self@.tabs[i]).document,
        ) by {
            if i < kept.len() {
                assert(self@.tabs[i] == kept[i]);
            }
        }
        self.set_status(owned("new tab"));
    }

    /// Whether some document has changes that are not saved.
    pub fn has_unsaved_changes(&self) -> (yes: bool)
        requires
            self.wf(),
        ensures
            yes == unsaved(self@),
    {
        if self.document.is_dirty() {
            return true;
        }
        for i in 0..self.tabs.len()
            invariant
                forall|j: int|
                    0 <= j < i && j != self.active_tab ==> !(
                    #[trigger] self@.tabs[j]).document.text.dirty,
        {
            assert(self@.tabs[i as int] == self.tabs@[i as int]@);
            if i != self.active_tab && self.tabs[i].document.is_dirty() {
                return true;
            }
        }
        false
    }

    /// Leaves the editor, after a question if changes would be lost.
    pub fn request_quit(&mut self)
        requires
            old(self).wf(),
        ensures
            final(self)@ == quit_requested(old(self)@),
            final(self).wf(),
    {
        if self.has_unsaved_changes() {
            self.set_prompt(PromptState::confirm_discard(PendingAction::Quit));
        } else {
            self.should_quit = true;
        }
    }

    // -----------------------------------------------------------------------
    // Files.

    /// The tab with a path, seen from the working directory: the active one
    /// first.
    pub fn find_tab_index_by_path(&self, target: &str, cwd: Option<&str>) -> (out: Option<usize>)
        requires
            self.wf(),
        ensures
            match out {
                Some(index) => tab_of_path(self@, target@, opt_str(cwd)) == Some(index as int),
                None => tab_of_path(self@, target@, opt_str(cwd)) is None,
            },
    {
        if stands_at_path(&self.document, target, cwd) {
            return Some(self.active_tab);
        }
        let mut k: usize = 0;
        while k < self.tabs.len()
            invariant
                k <= self.tabs.len(),
                !at_path(self@.document, target@, opt_str(cwd)),
                tab_from(self@, target@, opt_str(cwd), 0) == tab_from(
                    self@,
                    target@,
                    opt_str(cwd),
                    k as int,
                ),
            decreases self.tabs.len() - k,
        {
            assert(self@.tabs[k as int] == self.tabs@[k as int]@);
            if k != self.active_tab && stands_at_path(&self.tabs[k].document, target, cwd) {
                return Some(k);
            }
            k += 1;
        }
        None
    }

    /// Shows the tab of a file, or asks for the file to be read.
    pub fn open_path(&mut self, path: String, cx: &Context) -> (effect: Effect)
        requires
            old(self).wf(),
        ensures
            (final(self)@, effect@) == open_requested(old(self)@, path@, cx@),
            final(self).wf(),
    {
        let cwd = as_slice(&cx.cwd);
        let requested = normalize_path_for_match(path.as_str(), cwd);
        match self.find_tab_index_by_path(requested.as_str(), cwd) {
            Some(index) => {
                proof {
                    lemma_tab_from(self@, requested@, opt_str(cwd), 0);
                }
                self.activate_tab(index, cx.visible_lines);
                self.set_status(concat("switched to ", path.as_str()));
                Effect::Nothing
            },
            None => Effect::Open { path },
        }
    }

    /// Takes in a file that was read, in a new tab.
    pub fn finish_open(&mut self, path: &str, document: Document, existed: bool)
        requires
            old(self).wf(),
            document.wf(),
        ensures
            final(self)@ == file_opened(old(self)@, path@, document@, existed),
            final(self).wf(),
    {
        self.persist_active_tab();
        let ghost kept = self@.tabs;
        self.active_tab = self.tabs.len();
        self.tabs.push(OpenTab::from_active(document.clone(), 0, copy_search(&self.search)));
        assert(self@.tabs =~= kept.push(
            TabModel { document: document@, viewport: 0, search: opt_search(self.search) },
        ));
        assert forall|i: int| 0 <= i < self@.tabs.len() implies doc_wf(
            (#[trigger] self@.tabs[i]).document,
        ) by {
            if i < kept.len() {
                assert(self@.tabs[i] == kept[i]);
            }
        }
        self.document = document;
        self.viewport_top_line = 0;
        self.pointer_drag_anchor = None;
        self.search = None;
        let opened = match self.document.path() {
            Some(path) => Some(owned(path)),
            None => None,
        };
        if let Some(opened) = opened {
            self.remember_recent(opened.as_str());
        }
        self.set_status(opened_status(path, existed));
    }

    /// Takes note that a file could not be read.
    pub fn fail_open(&mut self, error: &str)
        requires
            old(self).wf(),
        ensures
            final(self)@ == with_status(old(self)@, "open failed: "@ + error@),
            final(self).wf(),
    {
        self.set_status(concat("open failed: ", error));
    }

    /// Asks for the document to be written to its own file, or for a file.
    pub fn save_current_document(&mut self) -> (effect: Effect)
        requires
            old(self).wf(),
        ensures
            (final(self)@, effect@) == save_requested(old(self)@),
            final(self).wf(),
    {
        match self.document.save() {
            Ok(request) => Effect::Save { path: request.path, text: request.text },
            Err(_) => {
                self.begin_save_as_prompt();
                Effect::Nothing
            },
        }
    }

    /// Asks for the document to be written to a given file.
    pub fn save_as_path(&self, path: String) -> (effect: Effect)
        ensures
            effect@ == (EffectModel::Save { path: path@, text: written(self@.document) }),
    {
        let request = self.document.save_as(path);
        Effect::Save { path: request.path, text: request.text }
    }

    /// Takes note that the document was written to a file, or that this
    /// failed.
    pub fn finish_save(&mut self, path: &str, error: Option<&str>)
        requires
            old(self).wf(),
        ensures
            final(self)@ == save_finished(old(self)@, path@, opt_str(error)),
            final(self).wf(),
    {
        match error {
            Some(err) => self.set_status(concat("save failed: ", err)),
            None => {
                self.document.mark_saved(owned(path));
                self.remember_recent(path);
                self.set_status(concat("saved ", path));
            },
        }
    }

    /// Puts a path first in the list of recent files.
    pub fn remember_recent(&mut self, path: &str)
        requires
            old(self).wf(),
        ensures
            final(self)@ == (EditorModel {
                recent: remembered(old(self)@.recent, path@),
                ..old(self)@
            }),
            final(self).wf(),
    {
        proof {
            law_recent_files_are_few_and_distinct(self@.recent, path@);
        }
        self.recent_files = recent_with(&self.recent_files, path);
    }

    // -----------------------------------------------------------------------
    // Prompts.

    fn begin_save_as_prompt(&mut self)
        requires
            old(self).wf(),
        ensures
            final(self)@ == with_prompt(old(self)@, save_as_prompt(old(self)@.document)),
            final(self).wf(),
    {
        let prompt = PromptState::save_as_path(self.document.path());
        self.set_prompt(prompt);
    }

    fn open_find_prompt(&mut self)
        requires
            old(self).wf(),
        ensures
            final(self)@ == with_prompt(old(self)@, find_prompt(old(self)@.search)),
            final(self).wf(),
    {
        let prompt = match trim_query(&self.search) {
            Some(query) => PromptState::find_query(Some(query.as_str()), true),
            None => PromptState::find_query(None, false),
        };
        self.set_prompt(prompt);
    }

    fn begin_go_to_line(&mut self)
        requires
            old(self).wf(),
        ensures
            final(self)@ == with_prompt(
                old(self)@,
                fresh_prompt(
                    PromptKind::GoToLine,
                    decimal((old(self)@.document.text.cursor.line + 1) as nat),
                    false,
                ),
            ),
            final(self).wf(),
    {
        let count: usize = self.document.line_count();
        let line: usize = self.document.cursor().line;
        assert(line < count);
        self.set_prompt(PromptState::go_to_line(line + 1));
    }

    /// Sends the cursor to a line and a column that count from one.
    pub fn jump_to_position(&mut self, line: Option<usize>, column: Option<usize>, visible_lines: usize)
        requires
            old(self).wf(),
        ensures
            final(self)@ == jumped(
                old(self)@,
                or_one(line),
                or_one(column),
                visible_lines as int,
            ),
            final(self).wf(),
    {
        let line_num: usize = match line {
            Some(n) => n,
            None => 1,
        };
        let col_num: usize = match column {
            Some(n) => n,
            None => 1,
        };
        self.document.clear_selection();
        self.document.set_cursor(
            Position::new(line_num.saturating_sub(1), col_num.saturating_sub(1)),
        );
        self.ensure_cursor_visible(visible_lines);
    }

    fn go_to_line_prompt_submit(&mut self, input: &str, visible_lines: usize)
        requires
            old(self).wf(),
        ensures
            final(self)@ == go_to_submitted(old(self)@, input@, visible_lines as int),
            final(self).wf(),
    {
        match parse_go_to(input) {
            GoTo::Empty => self.set_status(owned("line is empty")),
            GoTo::InvalidLine(text) => self.set_status(concat("invalid line: ", text.as_str())),
            GoTo::InvalidColumn(text) => self.set_status(concat("invalid column: ", text.as_str())),
            GoTo::At { line, column } => {
                self.jump_to_position(Some(line), Some(column), visible_lines);
                let cursor = self.document.cursor();
                let mut message = owned("jumped to ");
                message.append(to_decimal(cursor.line as u128 + 1).as_str());
                message.append(":");
                message.append(to_decimal(cursor.column as u128 + 1).as_str());
                self.set_status(message);
            },
        }
    }

    fn open_recent_prompt_submit(&mut self, input: &str, cx: &Context) -> (effect: Effect)
        requires
            old(self).wf(),
        ensures
            (final(self)@, effect@) == recent_submitted(old(self)@, input@, cx@),
            final(self).wf(),
    {
        if self.recent_files.len() == 0 {
            self.set_status(owned("no recent files"));
            return Effect::Nothing;
        }
        if input.is_empty() {
            assert(self@.recent[0] == self.recent_files@[0]@);
            let path = owned(self.recent_files[0].as_str());
            return self.open_path(path, cx);
        }
        if let Some(index) = parse_usize(input) {
            if index == 0 || index > self.recent_files.len() {
                self.set_status(
                    concat("recent index out of range: ", to_decimal(index as u128).as_str()),
                );
                return Effect::Nothing;
            }
            assert(self@.recent[index - 1] == self.recent_files@[index - 1]@);
            let path = owned(self.recent_files[index - 1].as_str());
            return self.open_path(path, cx);
        }
        let query = to_ascii_lowercase(input);
        match find_holding(&self.recent_files, query.as_str()) {
            Some(path) => self.open_path(path, cx),
            None => {
                let mut message = concat("no recent file matching '", input);
                message.append("'");
                self.set_status(message);
                Effect::Nothing
            },
        }
    }

    // -----------------------------------------------------------------------
    // Searching.

    fn set_search_query(&mut self, query: String)
        requires
            old(self).wf(),
        ensures
            final(self)@ == (EditorModel {
                search: Some(query_set(old(self)@.search, query@)),
                ..old(self)@
            }),
            final(self).wf(),
    {
        let same = match &self.search {
            Some(search) => str_equal(search.query.as_str(), query.as_str()),
            None => false,
        };
        if !same {
            self.search = Some(SearchState::new(query));
        }
    }

    /// Selects and shows the next match; says whether there is one.
    pub fn find_next_match(&mut self, reverse: bool, visible_lines: usize) -> (matched: bool)
        requires
            old(self).wf(),
        ensures
            final(self)@ == found(old(self)@, reverse, visible_lines as int),
            final(self).wf(),
            matched == match old(self)@.search {
                Some(search) => search.query.len() > 0 && next_match(
                    old(self)@.document.text.lines,
                    search.query,
                    search_origin(search, old(self)@.document.text.cursor, reverse),
                    reverse,
                ) is Some,
                None => false,
            },
    {
        let search = match copy_search(&self.search) {
            Some(search) => search,
            None => return false,
        };
        if search.query.as_str().is_empty() {
            return false;
        }
        let from = match search.last_match {
            Some(last) => if reverse {
                last.start
            } else {
                last.end
            },
            None => self.document.cursor(),
        };
        match find_match(&self.document, search.query.as_str(), from, reverse) {
            None => {
                let mut message = concat("no match for '", search.query.as_str());
                message.append("'");
                self.set_status(message);
                false
            },
            Some(hit) => {
                self.document.set_cursor(hit.end);
                self.document.set_selection(Some(Selection::new(hit.start, hit.end)));
                self.ensure_cursor_visible(visible_lines);
                let mut message = owned("match ");
                message.append(to_decimal(hit.start.line as u128 + 1).as_str());
                message.append(":");
                message.append(to_decimal(hit.start.column as u128 + 1).as_str());
                message.append(" for '");
                message.append(search.query.as_str());
                message.append("'");
                self.set_status(message);
                self.search = Some(SearchState { query: search.query, last_match: Some(hit) });
                true
            },
        }
    }

    fn repeat_find_or_prompt(&mut self, reverse: bool, visible_lines: usize)
        requires
            old(self).wf(),
        ensures
            final(self)@ == found_again(old(self)@, reverse, visible_lines as int),
            final(self).wf(),
    {
        if trim_query(&self.search).is_some() {
            self.find_next_match(reverse, visible_lines);
        } else {
            self.open_find_prompt();
        }
    }

    // -----------------------------------------------------------------------
    // The clipboard.

    fn copy_selection(&mut self, cut: bool) -> (effect: Effect)
        requires
            old(self).wf(),
        ensures
            (final(self)@, effect@) == copy_requested(old(self)@, cut),
            final(self).wf(),
    {
        match selected_text(&self.document) {
            None => {
                self.set_status(owned("nothing selected"));
                Effect::Nothing
            },
            Some(text) => {
                let chars: usize = line_char_count(text.as_str());
                self.local_clipboard = Some(owned(text.as_str()));
                self.selection_text = Some(text);
                Effect::OwnClipboard { cut, chars }
            },
        }
    }

    /// Takes note that other programs were told of the copied text, or that
    /// this failed.
    pub fn finish_copy(&mut self, cut: bool, chars: usize, error: Option<&str>)
        requires
            old(self).wf(),
        ensures
            final(self)@ == copy_finished(old(self)@, cut, chars as nat, opt_str(error)),
            final(self).wf(),
    {
        match error {
            Some(err) => {
                let message = if cut {
                    concat("cut failed: ", err)
                } else {
                    concat("copy failed: ", err)
                };
                self.set_status(message);
            },
            None => {
                let mut message = if cut {
                    self.document.apply(EditCommand::Delete);
                    owned("cut ")
                } else {
                    owned("copied ")
                };
                message.append(to_decimal(chars as u128).as_str());
                message.append(" chars");
                self.set_status(message);
            },
        }
    }

    fn paste_text(&mut self, text: String)
        requires
            old(self).wf(),
        ensures
            final(self)@ == pasted(old(self)@, text@),
            final(self).wf(),
    {
        let chars: usize = line_char_count(text.as_str());
        self.document.apply(EditCommand::InsertText(text));
        let mut message = owned("pasted ");
        message.append(to_decimal(chars as u128).as_str());
        message.append(" chars");
        self.set_status(message);
    }

    fn paste_from_local_clipboard(&mut self, otherwise: String)
        requires
            old(self).wf(),
        ensures
            final(self)@ == pasted_own(old(self)@, otherwise@),
            final(self).wf(),
    {
        match copy_opt(&self.local_clipboard) {
            Some(text) => {
                if text.as_str().is_empty() {
                    self.set_status(otherwise);
                } else {
                    self.paste_text(text);
                }
            },
            None => self.set_status(otherwise),
        }
    }

    fn request_clipboard_paste(&self, selection: u32) -> (effect: Effect)
        ensures
            effect@ == paste_requested(self@, selection),
    {
        if self.pending_paste.is_some() {
            Effect::Nothing
        } else {
            Effect::RequestPaste { selection }
        }
    }

    /// Takes note that the clipboard was asked for, or that this failed.
    pub fn finish_paste_request(&mut self, selection: u32, error: Option<&str>)
        requires
            old(self).wf(),
        ensures
            final(self)@ == paste_request_finished(old(self)@, selection, opt_str(error)),
            final(self).wf(),
    {
        match error {
            Some(err) => self.paste_from_local_clipboard(concat("paste request failed: ", err)),
            None => {
                self.pending_paste = Some(selection);
            },
        }
    }

    fn handle_selection_notify(&mut self, selection: u32, property: u32) -> (effect: Effect)
        requires
            old(self).wf(),
        ensures
            (final(self)@, effect@) == paste_notified(old(self)@, selection, property),
            final(self).wf(),
    {
        let asked: u32 = match self.pending_paste {
            Some(asked) => asked,
            None => return Effect::Nothing,
        };
        self.pending_paste = None;
        if asked != selection {
            return Effect::Nothing;
        }
        if is_none_atom(property) {
            self.paste_from_local_clipboard(owned("clipboard is empty"));
            return Effect::Nothing;
        }
        Effect::ReadProperty { property }
    }

    /// Inserts a text that another program handed over.
    pub fn paste_received(&mut self, text: String)
        requires
            old(self).wf(),
        ensures
            final(self)@ == paste_arrived(old(self)@, text@),
            final(self).wf(),
    {
        if text.as_str().is_empty() {
            self.paste_from_local_clipboard(owned("clipboard is empty"));
        } else {
            self.local_clipboard = Some(owned(text.as_str()));
            self.paste_text(text);
        }
    }

    /// Inserts what the owner of the clipboard left, and shows the cursor.
    pub fn finish_paste(&mut self, bytes: &Vec<u8>, visible_lines: usize)
        requires
            old(self).wf(),
        ensures
            final(self)@ == revealed(
                paste_arrived(old(self)@, without_nuls(utf8_lossy(bytes@))),
                visible_lines as int,
            ),
            valid_utf8(bytes@) ==> final(self)@ == revealed(
                paste_arrived(old(self)@, without_nuls(decode_utf8(bytes@))),
                visible_lines as int,
            ),
            final(self).wf(),
    {
        let text = received_text(bytes);
        self.paste_received(text);
        self.ensure_cursor_visible(visible_lines);
    }

    // -----------------------------------------------------------------------
    // Actions and keys.

    /// Carries out an action.
    #[verifier::rlimit(40)]
    pub fn perform(&mut self, action: Action, cx: &Context) -> (effect: Effect)
        requires
            old(self).wf(),
        ensures
            (final(self)@, effect@) == performed(old(self)@, action, cx@),
            final(self).wf(),
    {
        let visible: usize = cx.visible_lines;
        let page: usize = if visible > 2 {
            visible - 1
        } else {
            1
        };
        if let Some((command, extend)) = motion_of(action, page) {
            move_cursor(&mut self.document, command, extend);
            return Effect::Nothing;
        }
        if let Some(command) = edit_of(action) {
            self.document.apply(command);
            return Effect::Nothing;
        }
        match action {
            Action::Escape => {
                if self.document.selection().is_some() {
                    self.document.clear_selection();
                } else {
                    self.request_quit();
                }
                Effect::Nothing
            },
            Action::Quit => {
                self.request_quit();
                Effect::Nothing
            },
            Action::InsertTab => {
                let text = blank_text(self.tab_width);
                self.document.apply(EditCommand::InsertText(text));
                Effect::Nothing
            },
            Action::DeleteToLineStart => {
                delete_to_line_start(&mut self.document);
                Effect::Nothing
            },
            Action::DeleteToLineEnd => {
                delete_to_line_end(&mut self.document);
                Effect::Nothing
            },
            Action::SelectAll => {
                select_all(&mut self.document);
                Effect::Nothing
            },
            Action::NewTab => {
                self.new_tab();
                Effect::Nothing
            },
            Action::SwitchTab { forward } => {
                self.switch_tab(forward, visible);
                Effect::Nothing
            },
            Action::OpenFile => {
                self.set_prompt(PromptState::open_path());
                Effect::Nothing
            },
            Action::OpenRecent => {
                self.set_prompt(PromptState::open_recent());
                Effect::Nothing
            },
            Action::Save => self.save_current_document(),
            Action::SaveAs => {
                self.begin_save_as_prompt();
                Effect::Nothing
            },
            Action::GoToLine => {
                self.begin_go_to_line();
                Effect::Nothing
            },
            Action::FindPrompt => {
                self.open_find_prompt();
                Effect::Nothing
            },
            Action::FindAgain { reverse } => {
                self.repeat_find_or_prompt(reverse, visible);
                Effect::Nothing
            },
            Action::CommandPalette => {
                self.set_prompt(PromptState::command_palette());
                Effect::Nothing
            },
            Action::Copy => self.copy_selection(false),
            Action::Cut => self.copy_selection(true),
            Action::Paste => self.request_clipboard_paste(cx.clipboard),
            _ => Effect::Nothing,
        }
    }

    /// Whether the selection covers any text.
    pub fn has_active_selection(&self) -> (yes: bool)
        ensures
            yes == covers_text(self@.document.text),
    {
        match self.document.selection() {
            Some(selection) => !selection.is_collapsed(),
            None => false,
        }
    }

    /// Carries out a command of the palette.
    pub fn execute_palette_command(&mut self, command: PaletteCommand, cx: &Context) -> (effect:
        Effect)
        requires
            old(self).wf(),
        ensures
            (final(self)@, effect@) == palette_run(old(self)@, command, cx@),
            final(self).wf(),
    {
        match command {
            PaletteCommand::SaveSession => Effect::SaveSession,
            PaletteCommand::RestoreSession => Effect::RestoreSession,
            PaletteCommand::ClearSession => Effect::ClearSession,
            _ => self.perform(action_of(command), cx),
        }
    }

    fn command_palette_submit(&mut self, input: &str, selected_row: Option<usize>, cx: &Context) -> (effect:
        Effect)
        requires
            old(self).wf(),
        ensures
            (final(self)@, effect@) == palette_submitted(old(self)@, input@, selected_row, cx@),
            final(self).wf(),
    {
        match choose_palette_command(input, selected_row, self.has_active_selection()) {
            PaletteChoice::NoMatch => {
                let mut message = concat("no command matching '", trim(input).as_str());
                message.append("'");
                self.set_status(message);
                Effect::Nothing
            },
            PaletteChoice::OutOfRange(index) => {
                self.set_status(
                    concat("command index out of range: ", to_decimal(index as u128).as_str()),
                );
                Effect::Nothing
            },
            PaletteChoice::Run(command) => self.execute_palette_command(command, cx),
        }
    }

    fn move_palette_selection(&mut self, forward: bool)
        requires
            old(self).wf(),
        ensures
            final(self)@ == row_moved(old(self)@, forward),
            final(self).wf(),
    {
        let has_selection = self.has_active_selection();
        if let Some(prompt) = &self.prompt {
            if !matches!(prompt.kind, PromptKind::CommandPalette) {
                return ;
            }
            let rows: usize = matching_palette_commands(prompt.input.as_str(), has_selection).len();
            if rows == 0 {
                return ;
            }
            let index: usize = prompt.selection_index;
            proof {
                lemma_row(index as int, rows as int);
            }
            let next: usize = if forward {
                ((index as u128 + 1) % (rows as u128)) as usize
            } else if index > 0 {
                (index - 1) % rows
            } else {
                rows - 1
            };
            self.prompt = Some(
                PromptState {
                    kind: prompt.kind,
                    input: owned(prompt.input.as_str()),
                    replace_on_type: prompt.replace_on_type,
                    selection_index: next,
                },
            );
        }
    }

    #[verifier::rlimit(40)]
    fn submit(
        &mut self,
        kind: PromptKind,
        input: &str,
        reverse: bool,
        selected_row: Option<usize>,
        cx: &Context,
    ) -> (effect: Effect)
        requires
            old(self).wf(),
        ensures
            (final(self)@, effect@) == submitted(
                old(self)@,
                kind,
                input@,
                reverse,
                selected_row,
                cx@,
            ),
            final(self).wf(),
    {
        if !matches!(kind, PromptKind::FindQuery) {
            self.prompt = None;
        }
        match kind {
            PromptKind::OpenPath => {
                if input.is_empty() {
                    self.set_status(owned("path is empty"));
                    return Effect::Nothing;
                }
                let path = resolve_user_path(input, as_slice(&cx.home), as_slice(&cx.cwd));
                self.open_path(path, cx)
            },
            PromptKind::SaveAsPath => {
                if input.is_empty() {
                    self.set_status(owned("path is empty"));
                    return Effect::Nothing;
                }
                let path = resolve_user_path(input, as_slice(&cx.home), as_slice(&cx.cwd));
                self.save_as_path(path)
            },
            PromptKind::FindQuery => {
                if input.is_empty() {
                    self.set_status(owned("search query is empty"));
                    return Effect::Nothing;
                }
                self.set_search_query(owned(input));
                self.find_next_match(reverse, cx.visible_lines);
                Effect::Nothing
            },
            PromptKind::GoToLine => {
                self.go_to_line_prompt_submit(input, cx.visible_lines);
                Effect::Nothing
            },
            PromptKind::OpenRecent => self.open_recent_prompt_submit(input, cx),
            PromptKind::CommandPalette => self.command_palette_submit(input, selected_row, cx),
            PromptKind::ConfirmDiscard { next } => Effect::Nothing,
        }
    }

    /// Handles a key while a prompt is open.
    fn handle_prompt_key_event(&mut self, prompt: PromptState, event: &KeyEvent, cx: &Context) -> (effect:
        Effect)
        requires
            old(self).wf(),
        ensures
            (final(self)@, effect@) == prompt_handled(old(self)@, prompt@, *event, cx@),
            final(self).wf(),
    {
        let mut prompt = prompt;
        let step = prompt.handle_key(event);
        match step {
            PromptEvent::Stay => {
                self.set_prompt(prompt);
                Effect::Nothing
            },
            PromptEvent::Cancel => {
                self.prompt = None;
                self.set_status(owned("prompt cancelled"));
                Effect::Nothing
            },
            PromptEvent::Decline => {
                self.prompt = None;
                self.set_status(owned("cancelled"));
                Effect::Nothing
            },
            PromptEvent::Confirm { next } => {
                self.prompt = None;
                match next {
                    PendingAction::Quit => {
                        self.should_quit = true;
                    },
                }
                Effect::Nothing
            },
            PromptEvent::MoveRow { forward } => {
                self.set_prompt(prompt);
                self.move_palette_selection(forward);
                Effect::Nothing
            },
            PromptEvent::Submit { kind, input, reverse, selected } => {
                self.set_prompt(prompt);
                self.submit(kind, input.as_str(), reverse, selected, cx)
            },
        }
    }

    /// Handles a key while no prompt is open.
    #[verifier::spinoff_prover]
    fn handle_bound_key(&mut self, event: &KeyEvent, cx: &Context) -> (out: (Effect, bool))
        requires
            old(self).wf(),
            old(self)@.prompt is None,
        ensures
            (final(self)@, out.0@, out.1) == key_handled(old(self)@, *event, cx@),
            final(self).wf(),
    {
        let effect = self.perform(action_for(event), cx);
        match effect {
            Effect::Nothing => {
                self.ensure_cursor_visible(cx.visible_lines);
                (Effect::Nothing, false)
            },
            other => (other, true),
        }
    }

    /// Handles a key. The flag says whether the cursor has to be shown once
    /// the effect is done.
    #[verifier::spinoff_prover]
    pub fn handle_key_event(&mut self, event: &KeyEvent, cx: &Context) -> (out: (Effect, bool))
        requires
            old(self).wf(),
        ensures
            (final(self)@, out.0@, out.1) == key_handled(old(self)@, *event, cx@),
            final(self).wf(),
    {
        match self.prompt.take() {
            Some(prompt) => {
                let ghost before = EditorModel { prompt: Some(prompt@), ..self@ };
                let ghost open = prompt@;
                proof {
                    lemma_prompt_is_replaced(before, open, *event, cx@);
                }
                let effect = self.handle_prompt_key_event(prompt, event, cx);
                (effect, false)
            },
            None => self.handle_bound_key(event, cx),
        }
    }

    // -----------------------------------------------------------------------
    // The pointer.

    /// Presses the pointer on a position of the text.
    pub fn press(&mut self, position: Position, extend_selection: bool, visible_lines: usize)
        requires
            old(self).wf(),
        ensures
            final(self)@ == pressed(
                old(self)@,
                position@,
                extend_selection,
                visible_lines as int,
            ),
            final(self).wf(),
    {
        let anchor = if extend_selection {
            match self.document.selection() {
                Some(selection) => selection.anchor,
                None => self.document.cursor(),
            }
        } else {
            position
        };
        self.document.set_cursor(position);
        span(&mut self.document, anchor, position);
        self.pointer_drag_anchor = Some(anchor);
        self.ensure_cursor_visible(visible_lines);
    }

    /// Drags the pointer over a position of the text.
    pub fn drag(&mut self, position: Position, visible_lines: usize)
        requires
            old(self).wf(),
        ensures
            final(self)@ == dragged(old(self)@, position@, visible_lines as int),
            final(self).wf(),
    {
        if let Some(anchor) = self.pointer_drag_anchor {
            self.document.set_cursor(position);
            span(&mut self.document, anchor, position);
            self.ensure_cursor_visible(visible_lines);
        }
    }

    // -----------------------------------------------------------------------
    // Events.

    /// Handles something that happened to the window.
    #[verifier::rlimit(40)]
    pub fn handle_event(&mut self, event: InputEvent, cx: &Context) -> (step: Step)
        requires
            old(self).wf(),
        ensures
            (final(self)@, step@) == event_handled(old(self)@, event, cx@),
            final(self).wf(),
    {
        let visible: usize = cx.visible_lines;
        match event {
            InputEvent::Key(key) => {
                if key.pressed {
                    let (effect, reveal) = self.handle_key_event(&key, cx);
                    Step { effect, reveal, redraw: true }
                } else {
                    Step::settled(false)
                }
            },
            InputEvent::PressTab { index } => {
                self.activate_tab(index, visible);
                Step::settled(true)
            },
            InputEvent::PressText { position, extend } => {
                self.press(position, extend, visible);
                Step::settled(true)
            },
            InputEvent::PressElsewhere => Step::settled(true),
            InputEvent::PressMiddle => {
                let effect = self.request_clipboard_paste(cx.primary);
                Step { effect, reveal: false, redraw: true }
            },
            InputEvent::Move { over } => {
                let dragging = self.pointer_drag_anchor.is_some();
                if let Some(position) = over {
                    self.drag(position, visible);
                }
                Step::settled(dragging)
            },
            InputEvent::ReleaseLeft => {
                self.pointer_drag_anchor = None;
                Step::settled(true)
            },
            InputEvent::Scroll { delta_y } => {
                self.scroll(delta_y, visible);
                Step::settled(true)
            },
            InputEvent::Resize => {
                self.clamp_viewport(visible);
                Step::settled(true)
            },
            InputEvent::Expose => Step::settled(true),
            InputEvent::CloseRequested => {
                self.request_quit();
                Step::settled(true)
            },
            InputEvent::SelectionNotify { selection, property } => {
                let effect = self.handle_selection_notify(selection, property);
                if matches!(effect, Effect::Nothing) {
                    self.ensure_cursor_visible(visible);
                }
                Step { effect, reveal: false, redraw: true }
            },
            InputEvent::SelectionClear => {
                self.pending_paste = None;
                Step::settled(false)
            },
            InputEvent::Other => Step::settled(false),
        }
    }

    // -----------------------------------------------------------------------
    // Remote control.

    /// Carries out a remote command, as far as that can be done here.
    pub fn apply_ipc_command(&mut self, command: Command, cx: &Context) -> (step: RemoteStep)
        requires
            old(self).wf(),
        ensures
            (final(self)@, step@) == remote_applied(old(self)@, command, cx@),
            final(self).wf(),
    {
        match command {
            Command::Open { path, line, column } => {
                let requested = normalize_path_for_match(path.as_str(), as_slice(&cx.cwd));
                match self.open_path(requested, cx) {
                    Effect::Open { path } => RemoteStep::Open { path, line, column },
                    _ => self.finish_remote_open(line, column, cx.visible_lines),
                }
            },
            Command::Show => RemoteStep::Window { purpose: WindowPurpose::Show, show: true },
            Command::Hide => RemoteStep::Window { purpose: WindowPurpose::Hide, show: false },
            Command::Toggle => RemoteStep::Window {
                purpose: WindowPurpose::Toggle,
                show: !self.window_visible,
            },
            Command::Status => {
                let focused = match self.document.path() {
                    Some(path) => Some(owned(path)),
                    None => None,
                };
                let response = Response::ok_with_data(
                    ResponseData::Status {
                        visible: self.window_visible,
                        open_documents: self.tabs.len(),
                        focused_document: focused,
                    },
                );
                RemoteStep::Reply { response, redraw: false }
            },
            Command::Quit => {
                if self.has_unsaved_changes() {
                    RemoteStep::Reply {
                        response: Response::err(
                            owned("unsaved changes present; refusing quit request"),
                        ),
                        redraw: false,
                    }
                } else {
                    self.should_quit = true;
                    RemoteStep::Reply { response: Response::ok(), redraw: true }
                }
            },
        }
    }

    /// Goes on with a remote command once its file was opened, or that failed.
    pub fn finish_remote_open(
        &mut self,
        line: Option<usize>,
        column: Option<usize>,
        visible_lines: usize,
    ) -> (step: RemoteStep)
        requires
            old(self).wf(),
        ensures
            (final(self)@, step@) == remote_opened(
                old(self)@,
                line,
                column,
                visible_lines as int,
            ),
            final(self).wf(),
    {
        if let Some(message) = &self.status_message {
            if starts_with(message.as_str(), "open failed:") {
                return RemoteStep::Reply {
                    response: Response::err(owned(message.as_str())),
                    redraw: true,
                };
            }
        }
        if line.is_some() || column.is_some() {
            self.jump_to_position(line, column, visible_lines);
        }
        RemoteStep::Window { purpose: WindowPurpose::Open, show: true }
    }

    // -----------------------------------------------------------------------
    // Start and session.

    /// An editor as it starts.
    pub fn start(startup: Startup, tab_width: usize, start_hidden: bool) -> (out: Self)
        requires
            startup matches Startup::Opened { path, document, existed } ==> document.wf(),
        ensures
            out@ == started(startup@, tab_width as nat, start_hidden),
            out.wf(),
    {
        let (document, message) = match startup {
            Startup::Scratch => (Document::new(), owned("scratch buffer")),
            Startup::Opened { path, document, existed } => (
                document,
                opened_status(path.as_str(), existed),
            ),
            Startup::Failed { error } => (
                Document::new(),
                concat("open failed: ", error.as_str()),
            ),
        };
        let mut tabs: Vec<OpenTab> = Vec::new();
        tabs.push(OpenTab::from_active(document.clone(), 0, None));
        let out = Editor {
            tabs,
            active_tab: 0,
            document,
            status_message: Some(message),
            tab_width: if tab_width < 1 {
                1
            } else {
                tab_width
            },
            viewport_top_line: 0,
            pointer_drag_anchor: None,
            recent_files: Vec::new(),
            search: None,
            prompt: None,
            selection_text: None,
            local_clipboard: None,
            pending_paste: None,
            window_visible: !start_hidden,
            should_quit: false,
        };
        assert(out@.tabs =~= seq![
            TabModel { document: out@.document, viewport: 0, search: None },
        ]);
        assert(out@.recent =~= Seq::empty());
        out
    }

    /// Remembers the files of all tabs, goes where the user asked to, and moves
    /// the viewport onto the text.
    pub fn finish_start(&mut self, line: Option<usize>, column: Option<usize>, visible_lines: usize)
        requires
            old(self).wf(),
        ensures
            final(self)@ == start_finished(old(self)@, line, column, visible_lines as int),
            final(self).wf(),
    {
        let ghost before = self@;
        let mut i: usize = 0;
        assert(before.tabs.take(0) =~= Seq::empty());
        while i < self.tabs.len()
            invariant
                self.wf(),
                i <= self.tabs.len(),
                self@ == (EditorModel {
                    recent: all_remembered(before.recent, before.tabs.take(i as int)),
                    ..before
                }),
            decreases self.tabs.len() - i,
        {
            assert(self.tabs@[i as int]@ == before.tabs[i as int]);
            assert(before.tabs.take(i + 1).drop_last() =~= before.tabs.take(i as int));
            let path = match self.tabs[i].document.path() {
                Some(path) => Some(owned(path)),
                None => None,
            };
            if let Some(path) = path {
                self.remember_recent(path.as_str());
            }
            i += 1;
        }
        assert(before.tabs.take(i as int) =~= before.tabs);
        if line.is_some() || column.is_some() {
            self.jump_to_position(line, column, visible_lines);
        }
        self.clamp_viewport(visible_lines);
    }

    /// Puts the tabs of a session in place of the present ones.
    pub fn restore_tabs(&mut self, tabs: Vec<OpenTab>, active_tab: usize, visible_lines: usize)
        requires
            old(self).wf(),
            forall|i: int| 0 <= i < tabs@.len() ==> (#[trigger] tabs@[i]).document.wf(),
        ensures
            final(self)@ == tabs_restored(
                old(self)@,
                tab_views(tabs@),
                active_tab as int,
                visible_lines as int,
            ),
            final(self).wf(),
    {
        let len: usize = tabs.len();
        if len == 0 {
            return ;
        }
        self.tabs = tabs;
        self.active_tab = if active_tab < len {
            active_tab
        } else {
            len - 1
        };
        assert forall|i: int| 0 <= i < self@.tabs.len() implies doc_wf(
            (#[trigger] self@.tabs[i]).document,
        ) by {
            assert(tabs@[i].document.wf());
        }
        let index: usize = self.active_tab;
        assert(self@.tabs[index as int] == self.tabs@[index as int]@);
        self.document = self.tabs[index].document.clone();
        self.viewport_top_line = self.tabs[index].viewport_top_line;
        self.search = copy_search(&self.tabs[index].search);
        self.pointer_drag_anchor = None;
        self.prompt = None;
        self.clamp_viewport(visible_lines);
        let mut message = concat("restored ", to_decimal(len as u128).as_str());
        message.append(" tab(s)");
        self.set_status(message);
    }

    /// Tells the user that something went wrong outside, or was done.
    pub fn report(&mut self, notice: Notice, error: &str)
        requires
            old(self).wf(),
        ensures
            final(self)@ == with_status(old(self)@, notice_text(notice, error@)),
            final(self).wf(),
    {
        let message = match notice {
            Notice::ClipboardRequestFailed => concat("clipboard request failed: ", error),
            Notice::PasteFailed => concat("paste failed: ", error),
            Notice::AutosaveFailed => concat("autosave failed: ", error),
            Notice::IpcAcceptFailed => concat("ipc accept failed: ", error),
            Notice::SessionFailed => concat("session failed: ", error),
            Notice::SessionSaved => owned("session saved"),
            Notice::SessionCleared => owned("session data cleared"),
        };
        self.set_status(message);
    }

    // -----------------------------------------------------------------------
    // What there is to see.

    /// The tabs; the active one may be out of date.
    pub fn tabs(&self) -> (out: &Vec<OpenTab>)
        ensures
            tab_views(out@) == self@.tabs,
    {
        &self.tabs
    }

    /// The index of the active tab.
    pub fn active_tab(&self) -> (out: usize)
        ensures
            out == self@.active,
    {
        self.active_tab
    }

    /// The document of the active tab.
    pub fn document(&self) -> (out: &Document)
        ensures
            out@ == self@.document,
    {
        &self.document
    }

    /// The message at the foot of the window.
    pub fn status_message(&self) -> (out: Option<&str>)
        ensures
            opt_str(out) == self@.status,
    {
        as_slice(&self.status_message)
    }

    /// The line at the top of the window.
    pub fn viewport_top_line(&self) -> (out: usize)
        ensures
            out == self@.viewport,
    {
        self.viewport_top_line
    }

    /// Whether the pointer is being dragged.
    pub fn is_dragging(&self) -> (yes: bool)
        ensures
            yes == self@.drag_anchor is Some,
    {
        self.pointer_drag_anchor.is_some()
    }

    /// The files used last, the latest first.
    pub fn recent_files(&self) -> (out: &Vec<String>)
        ensures
            texts(out@) == self@.recent,
    {
        &self.recent_files
    }

    /// What is searched for.
    pub fn search(&self) -> (out: &Option<SearchState>)
        ensures
            opt_search(*out) == self@.search,
    {
        &self.search
    }

    /// The open prompt.
    pub fn prompt(&self) -> (out: &Option<PromptState>)
        ensures
            opt_prompt(*out) == self@.prompt,
    {
        &self.prompt
    }

    /// The text that other programs can have.
    pub fn selection_text(&self) -> (out: Option<&str>)
        ensures
            opt_str(out) == self@.selection_text,
    {
        as_slice(&self.selection_text)
    }

    /// Whether the window is shown.
    pub fn window_visible(&self) -> (out: bool)
        ensures
            out == self@.window_visible,
    {
        self.window_visible
    }

    /// Takes note that the window is shown or hidden.
    pub fn set_window_visible(&mut self, visible: bool)
        requires
            old(self).wf(),
        ensures
            final(self)@ == (EditorModel { window_visible: visible, ..old(self)@ }),
            final(self).wf(),
    {
        self.window_visible = visible;
    }

    /// Whether the editor is to be left.
    pub fn should_quit(&self) -> (out: bool)
        ensures
            out == self@.should_quit,
    {
        self.should_quit
    }

    /// Leaves the editor without a question, for want of a window to draw in.
    pub fn give_up(&mut self)
        requires
            old(self).wf(),
        ensures
            final(self)@ == (EditorModel { should_quit: true, ..old(self)@ }),
            final(self).wf(),
    {
        self.should_quit = true;
    }
}

// ---------------------------------------------------------------------------
// Helpers.

/// Two texts, one after the other.
fn concat(a: &str, b: &str) -> (out: String)
    ensures
        out@ == a@ + b@,
{
    let mut out = owned(a);
    out.append(b);
    out
}

/// An optional string as a slice.
fn as_slice(s: &Option<String>) -> (out: Option<&str>)
    ensures
        opt_str(out) == opt_text(*s),
{
    match s {
        Some(text) => Some(text.as_str()),
        None => None,
    }
}

/// Whether a document has a path, seen from the working directory.
fn stands_at_path(document: &Document, target: &str, cwd: Option<&str>) -> (yes: bool)
    ensures
        yes == at_path(document@, target@, opt_str(cwd)),
{
    match document.path() {
        Some(path) => is_same_path(normalize_path_for_match(path, cwd).as_str(), target),
        None => false,
    }
}

/// The message about an opened file.
fn opened_status(path: &str, existed: bool) -> (out: String)
    ensures
        out@ == opened_message(path@, existed),
{
    if existed {
        concat("opened ", path)
    } else {
        concat("new file ", path)
    }
}

/// The list of recent files with a path put first.
fn recent_with(recent: &Vec<String>, path: &str) -> (out: Vec<String>)
    ensures
        texts(out@) == remembered(texts(recent@), path@),
{
    let mut out: Vec<String> = Vec::new();
    out.push(owned(path));
    let ghost all = texts(recent@);
    assert(all.take(0) =~= Seq::empty());
    assert(texts(out@) =~= seq![path@] + other_paths(all.take(0), path@));
    for i in 0..recent.len()
        invariant
            all == texts(recent@),
            texts(out@) == seq![path@] + other_paths(all.take(i as int), path@),
    {
        let ghost before = texts(out@);
        let ghost others = other_paths(all.take(i as int), path@);
        assert(all.take(i + 1).drop_last() =~= all.take(i as int));
        assert(all.take(i + 1).last() == recent@[i as int]@);
        if !is_same_path(recent[i].as_str(), path) {
            out.push(owned(recent[i].as_str()));
            assert(texts(out@) =~= before.push(recent@[i as int]@));
            assert(before.push(recent@[i as int]@) =~= seq![path@] + others.push(
                recent@[i as int]@,
            ));
        }
    }
    assert(all.take(recent@.len() as int) =~= all);
    let ghost full = texts(out@);
    if out.len() > MAX_RECENT_FILES {
        out.truncate(MAX_RECENT_FILES);
        assert(texts(out@) =~= full.take(MAX_RECENT_FILES as int));
    }
    out
}

/// The text to search for, without white space around it.
fn trim_query(search: &Option<SearchState>) -> (out: Option<String>)
    ensures
        opt_text(out) == trimmed_query(opt_search(*search)),
{
    match search {
        Some(state) => {
            let query = trim(state.query.as_str());
            if query.as_str().is_empty() {
                None
            } else {
                Some(query)
            }
        },
        None => None,
    }
}

/// The first path that holds a text, in lower case.
fn find_holding(recent: &Vec<String>, query: &str) -> (out: Option<String>)
    ensures
        opt_text(out) == first_holding(texts(recent@), query@),
{
    let ghost all = texts(recent@);
    assert(all.skip(0) =~= all);
    let mut i: usize = 0;
    while i < recent.len()
        invariant
            i <= recent.len(),
            all == texts(recent@),
            first_holding(all, query@) == first_holding(all.skip(i as int), query@),
        decreases recent.len() - i,
    {
        assert(all.skip(i as int)[0] == recent@[i as int]@);
        assert(all.skip(i as int).skip(1) =~= all.skip(i + 1));
        let name = to_ascii_lowercase(recent[i].as_str());
        if contains(name.as_str(), query) {
            return Some(owned(recent[i].as_str()));
        }
        i += 1;
    }
    None
}

/// `n` blanks.
fn blank_text(n: usize) -> (out: String)
    ensures
        out@ == blanks(n as nat),
{
    let mut out = String::new();
    for i in 0..n
        invariant
            out@ == blanks(i as nat),
    {
        out.push(' ');
        assert(out@ =~= blanks((i + 1) as nat));
    }
    out
}

/// The action of a palette command.
fn action_of(command: PaletteCommand) -> (out: Action)
    ensures
        out == palette_action(command),
{
    match command {
        PaletteCommand::OpenFile => Action::OpenFile,
        PaletteCommand::OpenRecent => Action::OpenRecent,
        PaletteCommand::Save => Action::Save,
        PaletteCommand::SaveAs => Action::SaveAs,
        PaletteCommand::NewTab => Action::NewTab,
        PaletteCommand::NextTab => Action::SwitchTab { forward: true },
        PaletteCommand::PrevTab => Action::SwitchTab { forward: false },
        PaletteCommand::Find => Action::FindPrompt,
        PaletteCommand::FindNext => Action::FindAgain { reverse: false },
        PaletteCommand::FindPrev => Action::FindAgain { reverse: true },
        PaletteCommand::GoToLine => Action::GoToLine,
        PaletteCommand::Copy => Action::Copy,
        PaletteCommand::Cut => Action::Cut,
        PaletteCommand::Paste => Action::Paste,
        PaletteCommand::Quit => Action::Quit,
        _ => Action::Nothing,
    }
}

/// The rows before and after one, going round.
proof fn lemma_row(index: int, rows: int)
    requires
        index >= 0,
        rows > 0,
    ensures
        0 <= (index + 1) % rows < rows,
        0 <= (index - 1) % rows < rows,
        index == 0 ==> (index - 1) % rows == rows - 1,
{
    vstd::arithmetic::div_mod::lemma_mod_bound(index + 1, rows);
    vstd::arithmetic::div_mod::lemma_mod_bound(index - 1, rows);
    vstd::arithmetic::div_mod::lemma_mod_add_multiples_vanish(-1, rows);
    vstd::arithmetic::div_mod::lemma_small_mod((rows - 1) as nat, rows as nat);
}

/// Handling a key of a prompt does not depend on the prompt that the editor
/// shows, since that is replaced.
proof fn lemma_prompt_is_replaced(e: EditorModel, p: PromptModel, event: KeyEvent, cx: ContextModel)
    ensures
        prompt_handled(e, p, event, cx) == prompt_handled(
            EditorModel { prompt: None, ..e },
            p,
            event,
            cx,
        ),
{
}

} // verus!

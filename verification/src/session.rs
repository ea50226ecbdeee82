//! The session: which tabs are open, and the unsaved text that goes with them.
use crate::buffer::Document;
use crate::cursor::Position;
#[allow(unused_imports)]
use crate::cursor::Pos;
use crate::editor::{Editor, OpenTab};
#[allow(unused_imports)]
use crate::editor::tab_views;
#[allow(unused_imports)]
use crate::layout::at_most;
#[allow(unused_imports)]
use crate::model::{clamped, doc_wf, fresh_doc, moved, DocModel, TextModel};
#[allow(unused_imports)]
use crate::newline::{
    law_reading_undoes_writing, law_style_is_recognized, normalized, plain_lines, split,
    NewlineStyle,
};
use crate::paths::{autosave_file_name, is_safe_autosave_name};
#[allow(unused_imports)]
use crate::paths::{autosave_name, law_autosave_names_are_safe, opt_str, safe_name};
use crate::search::SearchState;
#[allow(unused_imports)]
use crate::search::SearchModel;
#[allow(unused_imports)]
use crate::state::{
    editor_wf, file_document, persisted, trimmed_query, written, EditorModel, TabModel,
};
use crate::text::{copy_opt, owned, str_equal, trim};
#[allow(unused_imports)]
use crate::text::{opt_text, texts, trimmed};
use vstd::prelude::*;

verus! {

/// The version of the format that sessions are kept in.
pub const SESSION_SCHEMA_VERSION: u32 = 1;

/// How often the session is kept by default, in nanoseconds.
pub const DEFAULT_AUTOSAVE_INTERVAL: u128 = 20_000_000_000;

/// A tab as the session keeps it.
#[derive(Debug)]
pub struct SessionTabSnapshot {
    pub path: Option<String>,
    pub cursor_line: usize,
    pub cursor_column: usize,
    pub viewport_top_line: usize,
    pub search_query: Option<String>,
    pub autosave_name: Option<String>,
    pub dirty: bool,
}

/// A session.
#[derive(Debug)]
pub struct SessionSnapshot {
    pub version: u32,
    pub active_tab: usize,
    pub tabs: Vec<SessionTabSnapshot>,
}

/// A text to be kept under a name.
#[derive(Debug)]
pub struct Autosave {
    pub name: String,
    pub text: String,
}

/// A session with the unsaved texts that it refers to.
#[derive(Debug)]
pub struct SessionData {
    pub snapshot: SessionSnapshot,
    pub autosaves: Vec<Autosave>,
}

/// A tab of a session in mathematical terms.
#[verifier::ext_equal]
pub struct SessionTabModel {
    pub path: Option<Seq<char>>,
    pub cursor: Pos,
    pub viewport: int,
    pub query: Option<Seq<char>>,
    pub autosave: Option<Seq<char>>,
    pub dirty: bool,
}

/// A session in mathematical terms.
#[verifier::ext_equal]
pub struct SessionModel {
    pub version: u32,
    pub active: int,
    pub tabs: Seq<SessionTabModel>,
}

impl View for SessionTabSnapshot {
    type V = SessionTabModel;

    open spec fn view(&self) -> SessionTabModel {
        SessionTabModel {
            path: opt_text(self.path),
            cursor: Pos { line: self.cursor_line as int, column: self.cursor_column as int },
            viewport: self.viewport_top_line as int,
            query: opt_text(self.search_query),
            autosave: opt_text(self.autosave_name),
            dirty: self.dirty,
        }
    }
}

/// The views of a list of tabs of a session.
pub open spec fn session_views(tabs: Seq<SessionTabSnapshot>) -> Seq<SessionTabModel> {
    Seq::new(tabs.len(), |i: int| tabs[i]@)
}

impl View for SessionSnapshot {
    type V = SessionModel;

    open spec fn view(&self) -> SessionModel {
        SessionModel {
            version: self.version,
            active: self.active_tab as int,
            tabs: session_views(self.tabs@),
        }
    }
}

impl View for Autosave {
    type V = (Seq<char>, Seq<char>);

    open spec fn view(&self) -> (Seq<char>, Seq<char>) {
        (self.name@, self.text@)
    }
}

/// The views of a list of kept texts.
pub open spec fn autosave_views(v: Seq<Autosave>) -> Seq<(Seq<char>, Seq<char>)> {
    Seq::new(v.len(), |i: int| v[i]@)
}

/// What the session keeps of a tab.
pub open spec fn kept_tab(tab: TabModel, index: nat) -> SessionTabModel {
    SessionTabModel {
        path: tab.document.text.path,
        cursor: tab.document.text.cursor,
        viewport: tab.viewport,
        query: trimmed_query(tab.search),
        autosave: if tab.document.text.dirty {
            Some(autosave_name(index))
        } else {
            None
        },
        dirty: tab.document.text.dirty,
    }
}

/// What the session keeps of some tabs.
pub open spec fn kept_session(tabs: Seq<TabModel>, active: int) -> SessionModel {
    SessionModel {
        version: SESSION_SCHEMA_VERSION,
        active,
        tabs: Seq::new(tabs.len(), |i: int| kept_tab(tabs[i], i as nat)),
    }
}

/// The unsaved texts of some tabs, each under the name of its tab.
pub open spec fn kept_texts(tabs: Seq<TabModel>) -> Seq<(Seq<char>, Seq<char>)>
    decreases tabs.len(),
{
    if tabs.len() == 0 {
        Seq::empty()
    } else {
        let before = kept_texts(tabs.drop_last());
        if tabs.last().document.text.dirty {
            before.push(
                (autosave_name((tabs.len() - 1) as nat), written(tabs.last().document)),
            )
        } else {
            before
        }
    }
}

fn keep_tab(tab: &OpenTab, index: usize) -> (out: SessionTabSnapshot)
    ensures
        out@ == kept_tab(tab@, index as nat),
{
    let document = &tab.document;
    let cursor = document.cursor();
    let dirty = document.is_dirty();
    let search_query = match &tab.search {
        Some(search) => {
            let query = trim(search.query.as_str());
            if query.as_str().is_empty() {
                None
            } else {
                Some(query)
            }
        },
        None => None,
    };
    SessionTabSnapshot {
        path: match document.path() {
            Some(path) => Some(owned(path)),
            None => None,
        },
        cursor_line: cursor.line,
        cursor_column: cursor.column,
        viewport_top_line: tab.viewport_top_line,
        search_query,
        autosave_name: if dirty {
            Some(autosave_file_name(index))
        } else {
            None
        },
        dirty,
    }
}

/// The session of an editor, with its list of tabs brought up to date.
pub fn session_of(editor: &mut Editor) -> (out: SessionData)
    requires
        old(editor).wf(),
    ensures
        final(editor)@ == (EditorModel { tabs: persisted(old(editor)@), ..old(editor)@ }),
        final(editor).wf(),
        out.snapshot@ == kept_session(persisted(old(editor)@), old(editor)@.active),
        autosave_views(out.autosaves@) == kept_texts(persisted(old(editor)@)),
{
    let ghost tabs = persisted(editor@);
    editor.persist_active_tab();
    let open = editor.tabs();
    let mut kept: Vec<SessionTabSnapshot> = Vec::new();
    let mut autosaves: Vec<Autosave> = Vec::new();
    assert(tabs.take(0) =~= Seq::empty());
    assert(autosave_views(autosaves@) =~= kept_texts(tabs.take(0)));
    for i in 0..open.len()
        invariant
            tabs == tab_views(open@),
            kept@.len() == i,
            forall|j: int| 0 <= j < i ==> (#[trigger] kept@[j])@ == kept_tab(tabs[j], j as nat),
            autosave_views(autosaves@) == kept_texts(tabs.take(i as int)),
    {
        assert(tabs[i as int] == open@[i as int]@);
        assert(tabs.take(i + 1).drop_last() =~= tabs.take(i as int));
        kept.push(keep_tab(&open[i], i));
        if open[i].document.is_dirty() {
            let ghost before = autosave_views(autosaves@);
            let autosave = Autosave {
                name: autosave_file_name(i),
                text: open[i].document.serialized_text(),
            };
            autosaves.push(autosave);
            assert(autosave_views(autosaves@) =~= before.push(autosave@));
        }
    }
    assert(tabs.take(tabs.len() as int) =~= tabs);
    assert(session_views(kept@) =~= kept_session(tabs, editor@.active).tabs);
    SessionData {
        snapshot: SessionSnapshot {
            version: SESSION_SCHEMA_VERSION,
            active_tab: editor.active_tab(),
            tabs: kept,
        },
        autosaves,
    }
}

/// Some text is kept under the name.
pub open spec fn keeps_name(kept: Seq<(Seq<char>, Seq<char>)>, name: Seq<char>) -> bool {
    exists|i: int| 0 <= i < kept.len() && (#[trigger] kept[i]).0 == name
}

/// The names under which nothing is kept any more.
pub open spec fn stale_names(
    names: Seq<Seq<char>>,
    kept: Seq<(Seq<char>, Seq<char>)>,
) -> Seq<Seq<char>> {
    names.filter(|name: Seq<char>| !keeps_name(kept, name))
}

fn holds_name(kept: &Vec<Autosave>, name: &str) -> (yes: bool)
    ensures
        yes == keeps_name(autosave_views(kept@), name@),
{
    for i in 0..kept.len()
        invariant
            forall|j: int|
                0 <= j < i ==> (#[trigger] autosave_views(kept@)[j]).0 != name@,
    {
        assert(autosave_views(kept@)[i as int] == kept@[i as int]@);
        if str_equal(kept[i].name.as_str(), name) {
            return true;
        }
    }
    false
}

/// Which of the files found can be removed: those under whose names nothing is
/// kept any more.
pub fn stale_autosaves(names: &Vec<String>, kept: &Vec<Autosave>) -> (out: Vec<String>)
    ensures
        texts(out@) == stale_names(texts(names@), autosave_views(kept@)),
{
    let ghost all = texts(names@);
    let ghost views = autosave_views(kept@);
    let ghost gone = |name: Seq<char>| !keeps_name(views, name);
    let mut out: Vec<String> = Vec::new();
    proof {
        reveal(Seq::filter);
    }
    assert(texts(out@) =~= all.take(0).filter(gone));
    for i in 0..names.len()
        invariant
            all == texts(names@),
            views == autosave_views(kept@),
            gone == (|name: Seq<char>| !keeps_name(views, name)),
            texts(out@) == all.take(i as int).filter(gone),
    {
        proof {
            reveal(Seq::filter);
        }
        assert(all.take(i + 1).drop_last() =~= all.take(i as int));
        assert(all.take(i + 1).last() == names@[i as int]@);
        if !holds_name(kept, names[i].as_str()) {
            let ghost before = texts(out@);
            out.push(owned(names[i].as_str()));
            assert(texts(out@) =~= before.push(names@[i as int]@));
        }
    }
    assert(all.take(all.len() as int) =~= all);
    out
}

/// Whether a session can be restored.
#[derive(Debug, Clone, Copy, PartialEq, Eq, Structural)]
pub enum SessionCheck {
    Accept,
    WrongVersion,
    Empty,
}

/// A session can be restored if it is kept in the present format and has tabs.
pub open spec fn checked(session: SessionModel) -> SessionCheck {
    if session.version != SESSION_SCHEMA_VERSION {
        SessionCheck::WrongVersion
    } else if session.tabs.len() == 0 {
        SessionCheck::Empty
    } else {
        SessionCheck::Accept
    }
}

/// What the text of a tab is restored from.
#[derive(Debug)]
pub enum TabSource {
    /// The text kept for it.
    Autosave(String),
    /// Its file.
    File(String),
    /// Nothing: there is no such file.
    Nothing,
}

/// What the text of a tab is restored from, in mathematical terms.
pub enum SourceModel {
    Autosave(Seq<char>),
    File(Seq<char>),
    Nothing,
}

impl View for TabSource {
    type V = SourceModel;

    open spec fn view(&self) -> SourceModel {
        match *self {
            TabSource::Autosave(raw) => SourceModel::Autosave(raw@),
            TabSource::File(raw) => SourceModel::File(raw@),
            TabSource::Nothing => SourceModel::Nothing,
        }
    }
}

/// The name under which the unsaved text of a tab is looked up. Only safe names
/// are.
pub open spec fn wanted_autosave(tab: SessionTabModel) -> Option<Seq<char>> {
    match tab.autosave {
        Some(name) => if tab.dirty && safe_name(name) {
            Some(name)
        } else {
            None
        },
        None => None,
    }
}

/// The document with changes to save.
pub open spec fn made_dirty(d: DocModel, dirty: bool) -> DocModel {
    DocModel { text: TextModel { dirty: d.text.dirty || dirty, ..d.text }, ..d }
}

/// The document of a restored tab: from the unsaved text if there is one, else
/// from its file, else empty.
pub open spec fn restored_document(tab: SessionTabModel, source: SourceModel) -> DocModel {
    let unsaved = match source {
        SourceModel::Autosave(raw) => if wanted_autosave(tab) is Some {
            Some(raw)
        } else {
            None
        },
        _ => None,
    };
    match unsaved {
        Some(raw) => made_dirty(
            fresh_doc(split(normalized(raw)), NewlineStyle::Lf, tab.path),
            true,
        ),
        None => made_dirty(
            match tab.path {
                Some(path) => file_document(
                    path,
                    match source {
                        SourceModel::File(raw) => Some(raw),
                        _ => None,
                    },
                ),
                None => fresh_doc(seq![Seq::<char>::empty()], NewlineStyle::Lf, None),
            },
            tab.dirty,
        ),
    }
}

/// A restored tab.
pub open spec fn restored_tab(tab: SessionTabModel, source: SourceModel) -> TabModel {
    let document = restored_document(tab, source);
    TabModel {
        document: DocModel {
            text: moved(document.text, clamped(document.text.lines, tab.cursor)),
            ..document
        },
        viewport: at_most(document.text.lines.len() - 1, tab.viewport),
        search: match tab.query {
            Some(query) => if trimmed(query).len() > 0 {
                Some(SearchModel { query: trimmed(query), last_match: None })
            } else {
                None
            },
            None => None,
        },
    }
}

impl SessionSnapshot {
    /// Whether the session can be restored.
    pub fn check(&self) -> (out: SessionCheck)
        ensures
            out == checked(self@),
    {
        if self.version != SESSION_SCHEMA_VERSION {
            SessionCheck::WrongVersion
        } else if self.tabs.len() == 0 {
            SessionCheck::Empty
        } else {
            SessionCheck::Accept
        }
    }
}

impl SessionTabSnapshot {
    /// The name under which the unsaved text of the tab is looked up.
    pub fn autosave_to_read(&self) -> (out: Option<&str>)
        ensures
            opt_str(out) == wanted_autosave(self@),
    {
        match &self.autosave_name {
            Some(name) => {
                if self.dirty && is_safe_autosave_name(name.as_str()) {
                    Some(name.as_str())
                } else {
                    None
                }
            },
            None => None,
        }
    }

    fn restore_document(&self, source: &TabSource) -> (out: Document)
        ensures
            out@ == restored_document(self@, source@),
            out.wf(),
    {
        if let TabSource::Autosave(raw) = source {
            if self.autosave_to_read().is_some() {
                let mut document = Document::from_text(raw.as_str());
                document.set_path(copy_opt(&self.path));
                document.mark_dirty();
                return document;
            }
        }
        let mut document = match &self.path {
            Some(path) => match source {
                TabSource::File(raw) => Document::open_path(owned(path.as_str()), raw.as_str()),
                _ => {
                    let mut document = Document::new();
                    document.set_path(Some(owned(path.as_str())));
                    document
                },
            },
            None => Document::new(),
        };
        if self.dirty {
            document.mark_dirty();
        }
        document
    }

    /// The tab that is restored from what was found.
    pub fn restore(&self, source: &TabSource) -> (out: OpenTab)
        ensures
            out@ == restored_tab(self@, source@),
            out.document.wf(),
    {
        let mut document = self.restore_document(source);
        document.set_cursor(Position::new(self.cursor_line, self.cursor_column));
        let search = match &self.search_query {
            Some(query) => {
                let query = trim(query.as_str());
                if query.as_str().is_empty() {
                    None
                } else {
                    Some(SearchState::new(query))
                }
            },
            None => None,
        };
        let last: usize = document.line_count() - 1;
        let top: usize = if self.viewport_top_line < last {
            self.viewport_top_line
        } else {
            last
        };
        OpenTab::from_active(document, top, search)
    }
}

/// The session is restored at the start: it is wanted and no file is to be
/// opened.
pub open spec fn session_wanted(has_file: bool, wanted: bool) -> bool {
    !has_file && wanted
}

/// The interval in use: zero stands for the default.
pub open spec fn interval_used(interval: int) -> int {
    if interval == 0 {
        DEFAULT_AUTOSAVE_INTERVAL as int
    } else {
        interval
    }
}

/// It is time to keep the session again.
pub open spec fn is_due(elapsed: int, interval: int) -> bool {
    elapsed >= interval
}

/// Whether the session is restored at the start: only when it is wanted and no
/// file is to be opened.
pub fn restores_session(has_file: bool, wanted: bool) -> (yes: bool)
    ensures
        yes == session_wanted(has_file, wanted),
{
    !has_file && wanted
}

/// The interval at which the session is kept: zero stands for the default.
pub fn effective_interval(interval: u128) -> (out: u128)
    ensures
        out == interval_used(interval as int),
{
    if interval == 0 {
        DEFAULT_AUTOSAVE_INTERVAL
    } else {
        interval
    }
}

/// Whether it is time to keep the session again.
pub fn autosave_due(elapsed: u128, interval: u128) -> (yes: bool)
    ensures
        yes == is_due(elapsed as int, interval as int),
{
    elapsed >= interval
}

// ---------------------------------------------------------------------------
// Laws.

/// A tab with unsaved changes comes back from the session as it was: the same
/// lines, the same cursor, the same file, and still with changes to save. Its
/// line ending becomes `Lf`.
pub proof fn law_session_keeps_unsaved_text(tab: TabModel, index: nat)
    requires
        doc_wf(tab.document),
        plain_lines(tab.document.text.lines),
        tab.document.text.dirty,
    ensures
        wanted_autosave(kept_tab(tab, index)) == Some(autosave_name(index)),
        restored_tab(
            kept_tab(tab, index),
            SourceModel::Autosave(written(tab.document)),
        ).document.text == (TextModel {
            selection: None,
            newline_style: NewlineStyle::Lf,
            ..tab.document.text
        }),
{
    law_autosave_names_are_safe(index);
    law_reading_undoes_writing(tab.document.text.lines, tab.document.text.newline_style);
}

/// A tab without unsaved changes comes back from its file as it was: the same
/// lines, line ending, cursor and file, and still clean. A single line shows no
/// line ending and comes back with `Lf`.
pub proof fn law_session_keeps_saved_tabs(tab: TabModel, index: nat)
    requires
        doc_wf(tab.document),
        plain_lines(tab.document.text.lines),
        !tab.document.text.dirty,
        tab.document.text.path is Some,
        tab.document.text.newline_style is Lf || tab.document.text.lines.len() > 1,
    ensures
        wanted_autosave(kept_tab(tab, index)) is None,
        restored_tab(
            kept_tab(tab, index),
            SourceModel::File(written(tab.document)),
        ).document.text == (TextModel { selection: None, ..tab.document.text }),
{
    law_reading_undoes_writing(tab.document.text.lines, tab.document.text.newline_style);
    law_style_is_recognized(tab.document.text.lines, tab.document.text.newline_style);
}

/// The session of a well-formed editor can be restored, and has a tab for each
/// of its tabs and the same active tab.
pub proof fn law_own_sessions_are_accepted(e: EditorModel)
    requires
        editor_wf(e),
    ensures
        checked(kept_session(persisted(e), e.active)) == SessionCheck::Accept,
        kept_session(persisted(e), e.active).tabs.len() == e.tabs.len(),
        0 <= kept_session(persisted(e), e.active).active < e.tabs.len(),
{
}

/// Two texts are never kept under one name.
pub proof fn law_autosave_names_are_distinct(i: nat, j: nat)
    requires
        autosave_name(i) == autosave_name(j),
        i <= usize::MAX,
        j <= usize::MAX,
    ensures
        i == j,
{
    reveal_strlit("tab-");
    reveal_strlit(".txt");
    let a = crate::number::decimal(i);
    let b = crate::number::decimal(j);
    assert(autosave_name(i).len() == a.len() + 8);
    assert(autosave_name(j).len() == b.len() + 8);
    assert(a =~= autosave_name(i).subrange(4, a.len() + 4int));
    assert(b =~= autosave_name(j).subrange(4, b.len() + 4int));
    crate::number::law_parse_undoes_decimal(i);
    crate::number::law_parse_undoes_decimal(j);
}

/// No file that the session refers to is removed.
pub proof fn law_kept_texts_are_not_stale(
    tabs: Seq<TabModel>,
    names: Seq<Seq<char>>,
    index: int,
)
    requires
        0 <= index < tabs.len(),
        tabs[index].document.text.dirty,
    ensures
        kept_texts(tabs).contains(
            (autosave_name(index as nat), written(tabs[index].document)),
        ),
        !stale_names(names, kept_texts(tabs)).contains(autosave_name(index as nat)),
{
    lemma_kept_text(tabs, index);
    let kept = kept_texts(tabs);
    let entry = (autosave_name(index as nat), written(tabs[index].document));
    let k = choose|k: int| 0 <= k < kept.len() && kept[k] == entry;
    assert(kept[k].0 == autosave_name(index as nat));
    assert(keeps_name(kept, autosave_name(index as nat)));
    let gone = |name: Seq<char>| !keeps_name(kept, name);
    let out = names.filter(gone);
    assert forall|i: int| 0 <= i < out.len() implies out[i] != autosave_name(index as nat) by {
        names.lemma_filter_pred(gone, i);
    }
}

proof fn lemma_kept_text(tabs: Seq<TabModel>, index: int)
    requires
        0 <= index < tabs.len(),
        tabs[index].document.text.dirty,
    ensures
        kept_texts(tabs).contains(
            (autosave_name(index as nat), written(tabs[index].document)),
        ),
    decreases tabs.len(),
{
    let before = kept_texts(tabs.drop_last());
    let all = kept_texts(tabs);
    if index < tabs.len() - 1 {
        lemma_kept_text(tabs.drop_last(), index);
        let entry = (autosave_name(index as nat), written(tabs[index].document));
        let k = choose|k: int| 0 <= k < before.len() && before[k] == entry;
        assert(all[k] == entry);
    } else {
        assert(all[all.len() - 1] == (
            autosave_name(index as nat),
            written(tabs[index].document),
        ));
    }
}

/// A file can be removed exactly if it was found and nothing is kept under its
/// name.
pub proof fn law_what_is_stale(
    names: Seq<Seq<char>>,
    kept: Seq<(Seq<char>, Seq<char>)>,
    name: Seq<char>,
)
    ensures
        stale_names(names, kept).contains(name) <==> names.contains(name) && forall|i: int|
            0 <= i < kept.len() ==> (#[trigger] kept[i]).0 != name,
{
    let gone = |name: Seq<char>| !keeps_name(kept, name);
    let out = names.filter(gone);
    if out.contains(name) {
        let i = choose|i: int| 0 <= i < out.len() && out[i] == name;
        names.lemma_filter_pred(gone, i);
        assert forall|k: int| 0 <= k < kept.len() implies (#[trigger] kept[k]).0 != name by {
            if kept[k].0 == name {
                assert(keeps_name(kept, name));
            }
        }
        names.lemma_filter_contains_rev(gone, name);
    }
    if names.contains(name) && (forall|i: int| 0 <= i < kept.len() ==> (#[trigger] kept[i]).0
        != name) {
        let i = choose|i: int| 0 <= i < names.len() && names[i] == name;
        assert(gone(name));
        names.lemma_filter_contains(gone, i);
    }
}

/// Every text that is kept is the text of a tab with unsaved changes, under the
/// name of that tab.
pub proof fn law_kept_texts_are_unsaved(tabs: Seq<TabModel>, k: int) -> (index: int)
    requires
        0 <= k < kept_texts(tabs).len(),
    ensures
        0 <= index < tabs.len(),
        tabs[index].document.text.dirty,
        kept_texts(tabs)[k] == (autosave_name(index as nat), written(tabs[index].document)),
        kept_session(tabs, 0).tabs[index].autosave == Some(kept_texts(tabs)[k].0),
    decreases tabs.len(),
{
    let init = tabs.drop_last();
    let before = kept_texts(init);
    if k < before.len() {
        let index = law_kept_texts_are_unsaved(init, k);
        assert(init[index] == tabs[index]);
        assert(kept_texts(tabs)[k] == before[k]);
        index
    } else {
        tabs.len() - 1
    }
}

/// A tab is restored from the text kept for it only if it had unsaved changes
/// and the name is safe; else from its file. It goes on with the file and the
/// unsaved changes that it had, and with its cursor at the nearest place.
pub proof fn law_restored_tabs(tab: SessionTabModel, source: SourceModel)
    ensures
        ({
            let back = restored_tab(tab, source).document.text;
            let found = match source {
                SourceModel::Autosave(raw) => tab.dirty && tab.autosave is Some && safe_name(
                    tab.autosave->0,
                ),
                _ => false,
            };
            &&& back.path == tab.path
            &&& back.selection is None
            &&& back.dirty <==> tab.dirty
            &&& found ==> back.lines == split(normalized(source->Autosave_0))
            &&& !found && source is File && tab.path is Some ==> back.lines == split(
                normalized(source->File_0),
            )
            &&& !found && (!(source is File) || tab.path is None) ==> back.lines == seq![
                Seq::<char>::empty(),
            ]
            &&& back.cursor == clamped(back.lines, tab.cursor)
            &&& restored_tab(tab, source).document.undo.len() == 0
            &&& restored_tab(tab, source).document.redo.len() == 0
        }),
{
}

/// A session is restored exactly if it is kept in the first version of the
/// format and has a tab.
pub proof fn law_which_sessions_are_restored(session: SessionModel)
    ensures
        checked(session) is Accept <==> session.version == 1 && session.tabs.len() > 0,
        checked(session) is WrongVersion <==> session.version != 1,
{
}

/// A file to open comes before the session, and a session that is not wanted is
/// not restored.
pub proof fn law_when_sessions_are_restored(has_file: bool, wanted: bool)
    ensures
        has_file ==> !session_wanted(has_file, wanted),
        session_wanted(has_file, wanted) ==> wanted,
        session_wanted(false, true),
{
}

/// The session is kept as soon as the interval has passed and not before; it
/// stays due until then. The interval is the one asked for, or twenty seconds.
pub proof fn law_when_sessions_are_kept(interval: int, elapsed: int)
    requires
        interval >= 0,
    ensures
        is_due(interval, interval),
        elapsed < interval ==> !is_due(elapsed, interval),
        is_due(elapsed, interval) ==> is_due(elapsed + 1, interval),
        interval > 0 ==> interval_used(interval) == interval,
        interval == 0 ==> interval_used(interval) == 20 * 1_000_000_000,
        interval_used(interval) > 0,
{
}

} // verus!

//! The texts that the window shows around the document.
use crate::buffer::Document;
use crate::editor::Editor;
#[allow(unused_imports)]
use crate::editor::tab_views;
#[allow(unused_imports)]
use crate::layout::{at_least, at_most};
#[allow(unused_imports)]
use crate::model::{covers_text, DocModel};
use crate::newline::join_lines;
#[allow(unused_imports)]
use crate::newline::joined;
use crate::number::to_decimal;
#[allow(unused_imports)]
use crate::number::decimal;
use crate::palette::{matching_palette_commands, PaletteCommand};
#[allow(unused_imports)]
use crate::palette::{fitting, label_text};
use crate::paths::file_name;
#[allow(unused_imports)]
use crate::paths::{last_name, law_the_last_name_names_the_file};
use crate::prompt::{PendingAction, PromptKind, PromptState};
#[allow(unused_imports)]
use crate::prompt::PromptModel;
#[allow(unused_imports)]
use crate::state::EditorModel;
use crate::text::owned;
#[allow(unused_imports)]
use crate::text::{has_prefix, has_substring, law_parts_match, occurs_at, texts};
use vstd::prelude::*;

verus! {

/// How many commands of the palette are shown at a time.
pub const MAX_PALETTE_PREVIEW: usize = 6;

/// How many recent files are shown.
pub const MAX_RECENT_PREVIEW: usize = 5;

/// The document of a tab as it is now.
pub open spec fn shown_document(e: EditorModel, index: int) -> DocModel {
    if index == e.active {
        e.document
    } else {
        e.tabs[index].document
    }
}

/// The title of a tab: the name of its file, with a mark for unsaved changes.
pub open spec fn title(d: DocModel) -> Seq<char> {
    let name = match d.text.path {
        Some(path) => match last_name(path) {
            Some(name) => name,
            None => "[scratch]"@,
        },
        None => "[scratch]"@,
    };
    if d.text.dirty {
        name + " *"@
    } else {
        name
    }
}

/// Where the cursor is, and how long the document is.
pub open spec fn place_text(d: DocModel) -> Seq<char> {
    "Ln "@ + decimal((d.text.cursor.line + 1) as nat) + ", Col "@ + decimal(
        (d.text.cursor.column + 1) as nat,
    ) + "  •  "@ + decimal(d.text.lines.len()) + " lines"@
}

/// Which tab is shown, with its file and the last message.
pub open spec fn state_text(e: EditorModel) -> Seq<char> {
    let head = "[tab "@ + decimal((e.active + 1) as nat) + "/"@ + decimal(e.tabs.len()) + "] "@ + (
    match e.document.text.path {
        Some(path) => path,
        None => "[scratch]"@,
    }) + if e.document.text.dirty {
        " [+]"@
    } else {
        ""@
    };
    match e.status {
        Some(message) => head + "  |  "@ + message,
        None => head,
    }
}

/// The entry of a recent file.
pub open spec fn recent_entry(recent: Seq<Seq<char>>, i: int) -> Seq<char> {
    "["@ + decimal((i + 1) as nat) + "] "@ + recent[i]
}

/// The recent files on offer.
pub open spec fn recent_preview(recent: Seq<Seq<char>>) -> Seq<char> {
    joined(
        Seq::new(
            at_most(MAX_RECENT_PREVIEW as int, recent.len() as int) as nat,
            |i: int| recent_entry(recent, i),
        ),
        "  "@,
    )
}

/// The highlighted row of the palette.
pub open spec fn marked_row(rows: int, index: int) -> int {
    at_most(rows - 1, index)
}

/// The first row of the palette that is shown: the highlighted one stays in the
/// middle as far as there are rows.
pub open spec fn first_row(rows: int, index: int) -> int {
    at_least(
        0,
        at_most(rows - MAX_PALETTE_PREVIEW, marked_row(rows, index) - MAX_PALETTE_PREVIEW / 2),
    )
}

/// The entry of a command.
pub open spec fn command_entry(list: Seq<PaletteCommand>, marked: int, i: int) -> Seq<char> {
    (if i == marked {
        ">"@
    } else {
        " "@
    }) + "["@ + decimal((i + 1) as nat) + "] "@ + label_text(list[i])
}

/// The commands on offer.
pub open spec fn command_preview(list: Seq<PaletteCommand>, index: int) -> Seq<char> {
    let rows = list.len() as int;
    let start = first_row(rows, index);
    joined(
        Seq::new(
            at_most(MAX_PALETTE_PREVIEW as int, rows - start) as nat,
            |i: int| command_entry(list, marked_row(rows, index), start + i),
        ),
        "  "@,
    )
}

/// What a prompt shows.
pub open spec fn prompt_text(e: EditorModel, p: PromptModel) -> Seq<char> {
    match p.kind {
        PromptKind::OpenPath => "open path: "@ + p.input + "_"@,
        PromptKind::SaveAsPath => "save as: "@ + p.input + "_"@,
        PromptKind::FindQuery => "find: "@ + p.input
            + "_  |  Enter next  Shift+Enter prev  Esc close"@,
        PromptKind::GoToLine => "go to line[:col]: "@ + p.input + "_"@,
        PromptKind::OpenRecent => if e.recent.len() == 0 {
            "open recent (none): "@ + p.input + "_"@
        } else {
            "open recent "@ + recent_preview(e.recent) + "  |  pick #: "@ + p.input + "_"@
        },
        PromptKind::CommandPalette => {
            let list = fitting(p.input, covers_text(e.document.text));
            if list.len() == 0 {
                "command: "@ + p.input + "_  |  no matches"@
            } else {
                "command: "@ + p.input + "_  |  "@ + command_preview(list, p.selection_index)
                    + "  |  Enter run  Up/Down move  Tab next  Esc close"@
            }
        },
        PromptKind::ConfirmDiscard { next } => "unsaved changes: discard and quit? [y/N]"@,
    }
}

fn title_of(document: &Document) -> (out: String)
    ensures
        out@ == title(document@),
{
    let mut out = match document.path() {
        Some(path) => match file_name(path) {
            Some(name) => name,
            None => owned("[scratch]"),
        },
        None => owned("[scratch]"),
    };
    if document.is_dirty() {
        out.append(" *");
    }
    out
}

fn preview_recent(recent: &Vec<String>) -> (out: String)
    ensures
        out@ == recent_preview(texts(recent@)),
{
    let ghost all = texts(recent@);
    let mut entries: Vec<String> = Vec::new();
    let count: usize = if recent.len() < MAX_RECENT_PREVIEW {
        recent.len()
    } else {
        MAX_RECENT_PREVIEW
    };
    for i in 0..count
        invariant
            all == texts(recent@),
            count <= recent@.len(),
            entries@.len() == i,
            forall|j: int| 0 <= j < i ==> (#[trigger] entries@[j])@ == recent_entry(all, j),
    {
        let mut entry = owned("[");
        entry.append(to_decimal(i as u128 + 1).as_str());
        entry.append("] ");
        entry.append(recent[i].as_str());
        entries.push(entry);
    }
    assert(texts(entries@) =~= Seq::new(count as nat, |i: int| recent_entry(all, i)));
    join_lines(&entries, "  ")
}

fn preview_commands(list: &Vec<PaletteCommand>, index: usize) -> (out: String)
    requires
        list@.len() > 0,
    ensures
        out@ == command_preview(list@, index as int),
{
    let rows: usize = list.len();
    let marked: usize = if index < rows {
        index
    } else {
        rows - 1
    };
    let half: usize = marked.saturating_sub(MAX_PALETTE_PREVIEW / 2);
    let last: usize = rows.saturating_sub(MAX_PALETTE_PREVIEW);
    let start: usize = if half < last {
        half
    } else {
        last
    };
    assert(start == first_row(rows as int, index as int));
    let count: usize = if rows - start < MAX_PALETTE_PREVIEW {
        rows - start
    } else {
        MAX_PALETTE_PREVIEW
    };
    let mut entries: Vec<String> = Vec::new();
    for i in 0..count
        invariant
            start + count <= list@.len(),
            list@.len() == rows,
            entries@.len() == i,
            forall|j: int|
                0 <= j < i ==> (#[trigger] entries@[j])@ == command_entry(
                    list@,
                    marked as int,
                    start + j,
                ),
    {
        let row: usize = start + i;
        let mut entry = owned(
            if row == marked {
                ">"
            } else {
                " "
            },
        );
        entry.append("[");
        entry.append(to_decimal(row as u128 + 1).as_str());
        entry.append("] ");
        entry.append(list[row].label());
        entries.push(entry);
    }
    assert(texts(entries@) =~= Seq::new(
        count as nat,
        |i: int| command_entry(list@, marked as int, start + i),
    ));
    join_lines(&entries, "  ")
}

impl Editor {
    /// The title of a tab.
    pub fn tab_title(&self, index: usize) -> (out: String)
        requires
            index < self@.tabs.len(),
        ensures
            out@ == title(shown_document(self@, index as int)),
    {
        if index == self.active_tab() {
            return title_of(self.document());
        }
        let tabs = self.tabs();
        assert(tab_views(tabs@)[index as int] == tabs@[index as int]@);
        title_of(&tabs[index].document)
    }

    /// The text at the right of the status bar.
    pub fn status_bar_right(&self) -> (out: String)
        ensures
            out@ == place_text(self@.document),
    {
        let cursor = self.document().cursor();
        let mut out = owned("Ln ");
        out.append(to_decimal(cursor.line as u128 + 1).as_str());
        out.append(", Col ");
        out.append(to_decimal(cursor.column as u128 + 1).as_str());
        out.append("  •  ");
        out.append(to_decimal(self.document().line_count() as u128).as_str());
        out.append(" lines");
        out
    }

    /// The text at the left of the status bar.
    pub fn status_bar_left(&self) -> (out: String)
        ensures
            out@ == match self@.prompt {
                Some(p) => prompt_text(self@, p),
                None => state_text(self@),
            },
    {
        if let Some(prompt) = self.prompt() {
            return self.prompt_display_text(prompt);
        }
        let mut out = owned("[tab ");
        out.append(to_decimal(self.active_tab() as u128 + 1).as_str());
        out.append("/");
        out.append(to_decimal(self.tabs().len() as u128).as_str());
        out.append("] ");
        out.append(
            match self.document().path() {
                Some(path) => path,
                None => "[scratch]",
            },
        );
        out.append(
            if self.document().is_dirty() {
                " [+]"
            } else {
                ""
            },
        );
        if let Some(message) = self.status_message() {
            out.append("  |  ");
            out.append(message);
        }
        out
    }

    /// What a prompt shows.
    pub fn prompt_display_text(&self, prompt: &PromptState) -> (out: String)
        ensures
            out@ == prompt_text(self@, prompt@),
    {
        let input = prompt.input.as_str();
        match prompt.kind {
            PromptKind::OpenPath => framed("open path: ", input, "_"),
            PromptKind::SaveAsPath => framed("save as: ", input, "_"),
            PromptKind::FindQuery => framed(
                "find: ",
                input,
                "_  |  Enter next  Shift+Enter prev  Esc close",
            ),
            PromptKind::GoToLine => framed("go to line[:col]: ", input, "_"),
            PromptKind::OpenRecent => {
                let recent = self.recent_files();
                if recent.len() == 0 {
                    framed("open recent (none): ", input, "_")
                } else {
                    let mut out = framed(
                        "open recent ",
                        preview_recent(recent).as_str(),
                        "  |  pick #: ",
                    );
                    out.append(input);
                    out.append("_");
                    out
                }
            },
            PromptKind::CommandPalette => {
                let list = matching_palette_commands(input, self.has_active_selection());
                if list.len() == 0 {
                    framed("command: ", input, "_  |  no matches")
                } else {
                    let mut out = framed("command: ", input, "_  |  ");
                    out.append(preview_commands(&list, prompt.selection_index).as_str());
                    out.append("  |  Enter run  Up/Down move  Tab next  Esc close");
                    out
                }
            },
            PromptKind::ConfirmDiscard { next } => match next {
                PendingAction::Quit => owned("unsaved changes: discard and quit? [y/N]"),
            },
        }
    }
}

/// A text between two others.
fn framed(before: &str, text: &str, after: &str) -> (out: String)
    ensures
        out@ == before@ + text@ + after@,
{
    let mut out = owned(before);
    out.append(text);
    out.append(after);
    out
}

/// The highlighted command is always among those that are shown.
pub proof fn law_marked_command_is_shown(rows: int, index: int)
    requires
        rows > 0,
        index >= 0,
    ensures
        0 <= first_row(rows, index) <= marked_row(rows, index) < rows,
        marked_row(rows, index) < first_row(rows, index) + MAX_PALETTE_PREVIEW,
{
}

/// A tab goes by the name of its file, or as a scratch text where it has none,
/// with a star behind as long as there are changes to save.
pub proof fn law_titles(d: DocModel, dir: Seq<char>, name: Seq<char>)
    requires
        !name.contains('/'),
        name.len() > 0,
        name != seq!['.'],
        name != seq!['.', '.'],
    ensures
        ({
            let of_file = d.text.path == Some(dir.push('/') + name);
            &&& of_file && !d.text.dirty ==> title(d) == name
            &&& of_file && d.text.dirty ==> title(d) == name + " *"@
            &&& d.text.path is None && !d.text.dirty ==> title(d) == "[scratch]"@
            &&& d.text.path is None && d.text.dirty ==> title(d) == "[scratch]"@ + " *"@
        }),
{
    law_the_last_name_names_the_file(dir, name);
}

proof fn lemma_wrapped(a: Seq<char>, b: Seq<char>, c: Seq<char>, s: Seq<char>)
    requires
        has_substring(b, s),
    ensures
        has_substring(a + b + c, s),
{
    let i = choose|i: int| occurs_at(b, s, i);
    let all = a + b + c;
    assert(all.subrange(a.len() + i, a.len() + i + s.len()) =~= b.subrange(i, i + s.len()));
    assert(occurs_at(all, s, a.len() + i));
}

proof fn lemma_joined_holds(lines: Seq<Seq<char>>, sep: Seq<char>, i: int)
    requires
        0 <= i < lines.len(),
    ensures
        has_substring(joined(lines, sep), lines[i]),
    decreases lines.len(),
{
    let none = Seq::<char>::empty();
    if lines.len() == 1 {
        law_parts_match(none, lines[0], none);
        assert(none + lines[0] + none =~= lines[0]);
    } else {
        let init = lines.drop_last();
        let all = joined(init, sep) + sep + lines.last();
        if i < init.len() {
            lemma_joined_holds(init, sep, i);
            assert(init[i] == lines[i]);
            lemma_wrapped(none, joined(init, sep), sep + lines.last(), lines[i]);
            assert(none + joined(init, sep) + (sep + lines.last()) =~= all);
        } else {
            law_parts_match(joined(init, sep) + sep, lines.last(), none);
            assert(joined(init, sep) + sep + lines.last() + none =~= all);
        }
    }
}

/// The first five recent files are shown, each behind the number that picks it.
pub proof fn law_recent_files_are_shown(recent: Seq<Seq<char>>, i: int)
    requires
        0 <= i < recent.len(),
        i < 5,
    ensures
        has_substring(recent_preview(recent), "["@ + decimal((i + 1) as nat) + "] "@ + recent[i]),
{
    let n = at_most(MAX_RECENT_PREVIEW as int, recent.len() as int) as nat;
    lemma_joined_holds(Seq::new(n, |k: int| recent_entry(recent, k)), "  "@, i);
}

/// The highlighted command is shown behind its mark and its number, and as many
/// others around it as there is room for.
pub proof fn law_commands_are_shown(list: Seq<PaletteCommand>, index: int, i: int)
    requires
        list.len() > 0,
        index >= 0,
        first_row(list.len() as int, index) <= i < first_row(list.len() as int, index) + 6,
        i < list.len(),
    ensures
        ({
            let marked = if index < list.len() {
                index
            } else {
                list.len() - 1
            };
            let entry = "["@ + decimal((i + 1) as nat) + "] "@ + label_text(list[i]);
            &&& i == marked ==> has_substring(command_preview(list, index), ">"@ + entry)
            &&& i != marked ==> has_substring(command_preview(list, index), " "@ + entry)
            &&& first_row(list.len() as int, index) <= marked < first_row(list.len() as int, index)
                + 6
            &&& list.len() <= 6 ==> first_row(list.len() as int, index) == 0
        }),
{
    let rows = list.len() as int;
    let start = first_row(rows, index);
    let marked = marked_row(rows, index);
    let n = at_most(MAX_PALETTE_PREVIEW as int, rows - start) as nat;
    let entry = "["@ + decimal((i + 1) as nat) + "] "@ + label_text(list[i]);
    lemma_joined_holds(
        Seq::new(n, |k: int| command_entry(list, marked, start + k)),
        "  "@,
        i - start,
    );
    assert(command_entry(list, marked, i) =~= (if i == marked {
        ">"@
    } else {
        " "@
    }) + entry);
}

proof fn lemma_shown(a: Seq<char>, input: Seq<char>, c: Seq<char>, rest: Seq<char>)
    requires
        c.len() > 0,
        c[0] == '_',
    ensures
        has_substring(a + input + c + rest, input + "_"@),
        has_substring(a + input + c, input + "_"@),
{
    reveal_strlit("_");
    let shown = input + "_"@;
    assert(shown =~= input.push('_'));
    law_parts_match(a, shown, c.skip(1));
    law_parts_match(a, shown, c.skip(1) + rest);
    assert(a + shown + c.skip(1) =~= a + input + c);
    assert(a + shown + (c.skip(1) + rest) =~= a + input + c + rest);
}

/// Every prompt that takes an input shows it, with a cursor behind it.
pub proof fn law_prompts_show_their_input(e: EditorModel, p: PromptModel)
    requires
        !(p.kind is ConfirmDiscard),
    ensures
        has_substring(prompt_text(e, p), p.input + "_"@),
{
    let none = Seq::<char>::empty();
    reveal_strlit("_");
    match p.kind {
        PromptKind::OpenPath => lemma_shown("open path: "@, p.input, "_"@, none),
        PromptKind::SaveAsPath => lemma_shown("save as: "@, p.input, "_"@, none),
        PromptKind::FindQuery => {
            reveal_strlit("_  |  Enter next  Shift+Enter prev  Esc close");
            lemma_shown(
                "find: "@,
                p.input,
                "_  |  Enter next  Shift+Enter prev  Esc close"@,
                none,
            );
        },
        PromptKind::GoToLine => lemma_shown("go to line[:col]: "@, p.input, "_"@, none),
        PromptKind::OpenRecent => {
            lemma_shown("open recent (none): "@, p.input, "_"@, none);
            lemma_shown(
                "open recent "@ + recent_preview(e.recent) + "  |  pick #: "@,
                p.input,
                "_"@,
                none,
            );
        },
        _ => lemma_palette_shown(e, p),
    }
}

proof fn lemma_palette_shown(e: EditorModel, p: PromptModel)
    requires
        p.kind is CommandPalette,
    ensures
        has_substring(prompt_text(e, p), p.input + "_"@),
{
    let list = fitting(p.input, covers_text(e.document.text));
    reveal_strlit("_  |  no matches");
    reveal_strlit("_  |  ");
    let preview = command_preview(list, p.selection_index);
    let help = "  |  Enter run  Up/Down move  Tab next  Esc close"@;
    lemma_shown("command: "@, p.input, "_  |  no matches"@, Seq::empty());
    lemma_shown("command: "@, p.input, "_  |  "@, preview + help);
    assert("command: "@ + p.input + "_  |  "@ + (preview + help) =~= "command: "@ + p.input
        + "_  |  "@ + preview + help);
}

/// The status bar shows the file and the last message, and a mark as long as
/// there are changes to save.
pub proof fn law_the_state_is_shown(e: EditorModel, saved: EditorModel)
    requires
        saved.document.text.path == e.document.text.path,
        saved.active == e.active,
        saved.tabs.len() == e.tabs.len(),
        !saved.document.text.dirty,
        saved.status is None,
    ensures
        e.document.text.path is Some ==> ({
            let line = state_text(saved);
            let path = e.document.text.path->0;
            line.len() >= path.len() && line.skip(line.len() - path.len()) == path
        }),
        !e.document.text.dirty && e.status is None ==> state_text(e) == state_text(saved),
        e.document.text.dirty && e.status is None ==> state_text(e) == state_text(saved) + " [+]"@,
        !e.document.text.dirty && e.status is Some ==> state_text(e) == state_text(saved)
            + "  |  "@ + e.status->0,
        e.document.text.dirty && e.status is Some ==> state_text(e) == state_text(saved) + " [+]"@
            + "  |  "@ + e.status->0,
{
    reveal_strlit("");
    let head = "[tab "@ + decimal((e.active + 1) as nat) + "/"@ + decimal(e.tabs.len()) + "] "@;
    let name = match e.document.text.path {
        Some(path) => path,
        None => "[scratch]"@,
    };
    assert(""@ =~= Seq::<char>::empty());
    assert(state_text(saved) =~= head + name);
    assert((head + name).skip(head.len() as int) =~= name);
    assert(head + name + ""@ =~= head + name);
}

/// The status bar counts lines and columns from one, and tells how many lines
/// there are.
pub proof fn law_the_place_is_shown(d: DocModel)
    ensures
        ({
            let line = decimal((d.text.cursor.line + 1) as nat);
            let column = decimal((d.text.cursor.column + 1) as nat);
            &&& has_prefix(place_text(d), "Ln "@ + line + ", Col "@ + column)
            &&& has_substring(place_text(d), decimal(d.text.lines.len()) + " lines"@)
        }),
{
    let line = decimal((d.text.cursor.line + 1) as nat);
    let column = decimal((d.text.cursor.column + 1) as nat);
    lemma_two_parts(
        "Ln "@ + line + ", Col "@ + column,
        "  •  "@,
        decimal(d.text.lines.len()),
        " lines"@,
    );
}

proof fn lemma_two_parts(a: Seq<char>, b: Seq<char>, c: Seq<char>, d: Seq<char>)
    ensures
        has_prefix(a + b + c + d, a),
        has_substring(a + b + c + d, c + d),
{
    let all = a + b + c + d;
    let n = (a.len() + b.len()) as int;
    assert(all.subrange(0, a.len() as int) =~= a);
    assert(all.subrange(n, n + (c + d).len()) =~= c + d);
    assert(occurs_at(all, c + d, n));
}

} // verus!

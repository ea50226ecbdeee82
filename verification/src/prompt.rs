//! Prompts: one line of input at the foot of the window.
use crate::chars::to_lower;
#[allow(unused_imports)]
use crate::chars::lower;
use crate::keys::{Key, KeyEvent};
use crate::number::{parse_usize, to_decimal};
#[allow(unused_imports)]
use crate::number::{decimal, parsed};
#[allow(unused_imports)]
use crate::paths::opt_str;
use crate::text::{owned, slice, to_chars, trim};
#[allow(unused_imports)]
use crate::text::trimmed;
use vstd::prelude::*;

verus! {

/// What waits for the user to agree.
#[derive(Debug, Clone, Copy, PartialEq, Eq, Structural)]
pub enum PendingAction {
    Quit,
}

/// What a prompt asks for.
#[derive(Debug, Clone, Copy, PartialEq, Eq, Structural)]
pub enum PromptKind {
    OpenPath,
    SaveAsPath,
    FindQuery,
    GoToLine,
    OpenRecent,
    CommandPalette,
    ConfirmDiscard { next: PendingAction },
}

/// An open prompt.
#[derive(Debug)]
pub struct PromptState {
    pub kind: PromptKind,
    pub input: String,
    pub replace_on_type: bool,
    pub selection_index: usize,
}

/// A prompt in mathematical terms.
#[verifier::ext_equal]
pub struct PromptModel {
    pub kind: PromptKind,
    pub input: Seq<char>,
    pub replace_on_type: bool,
    pub selection_index: int,
}

impl View for PromptState {
    type V = PromptModel;

    open spec fn view(&self) -> PromptModel {
        PromptModel {
            kind: self.kind,
            input: self.input@,
            replace_on_type: self.replace_on_type,
            selection_index: self.selection_index as int,
        }
    }
}

/// The view of an optional prompt.
pub open spec fn opt_prompt(p: Option<PromptState>) -> Option<PromptModel> {
    match p {
        Some(prompt) => Some(prompt@),
        None => None,
    }
}

/// A prompt as it is opened.
pub open spec fn fresh_prompt(kind: PromptKind, input: Seq<char>, replace_on_type: bool) -> PromptModel {
    PromptModel { kind, input, replace_on_type, selection_index: 0 }
}

impl PromptState {
    fn fresh(kind: PromptKind, input: String, replace_on_type: bool) -> (out: Self)
        ensures
            out@ == fresh_prompt(kind, input@, replace_on_type),
    {
        PromptState { kind, input, replace_on_type, selection_index: 0 }
    }

    /// Asks for a file to open.
    pub fn open_path() -> (out: Self)
        ensures
            out@ == fresh_prompt(PromptKind::OpenPath, Seq::empty(), false),
    {
        PromptState::fresh(PromptKind::OpenPath, String::new(), false)
    }

    /// Asks for a file to save to, starting from the present one.
    pub fn save_as_path(seed: Option<&str>) -> (out: Self)
        ensures
            out@ == fresh_prompt(
                PromptKind::SaveAsPath,
                match opt_str(seed) {
                    Some(path) => path,
                    None => Seq::empty(),
                },
                false,
            ),
    {
        let input = match seed {
            Some(path) => owned(path),
            None => String::new(),
        };
        PromptState::fresh(PromptKind::SaveAsPath, input, false)
    }

    /// Asks for a text to search, starting from the last one.
    pub fn find_query(seed: Option<&str>, replace_on_type: bool) -> (out: Self)
        ensures
            out@ == fresh_prompt(
                PromptKind::FindQuery,
                match opt_str(seed) {
                    Some(query) => query,
                    None => Seq::empty(),
                },
                replace_on_type,
            ),
    {
        let input = match seed {
            Some(query) => owned(query),
            None => String::new(),
        };
        PromptState::fresh(PromptKind::FindQuery, input, replace_on_type)
    }

    /// Asks for a line to go to, starting from the present one.
    pub fn go_to_line(seed_line: usize) -> (out: Self)
        ensures
            out@ == fresh_prompt(PromptKind::GoToLine, decimal(seed_line as nat), false),
    {
        PromptState::fresh(PromptKind::GoToLine, to_decimal(seed_line as u128), false)
    }

    /// Asks for one of the files used last.
    pub fn open_recent() -> (out: Self)
        ensures
            out@ == fresh_prompt(PromptKind::OpenRecent, Seq::empty(), false),
    {
        PromptState::fresh(PromptKind::OpenRecent, String::new(), false)
    }

    /// Asks for a command.
    pub fn command_palette() -> (out: Self)
        ensures
            out@ == fresh_prompt(PromptKind::CommandPalette, Seq::empty(), false),
    {
        PromptState::fresh(PromptKind::CommandPalette, String::new(), false)
    }

    /// Asks whether unsaved changes may be lost.
    pub fn confirm_discard(next: PendingAction) -> (out: Self)
        ensures
            out@ == fresh_prompt(PromptKind::ConfirmDiscard { next }, Seq::empty(), false),
    {
        PromptState::fresh(PromptKind::ConfirmDiscard { next }, String::new(), false)
    }
}

/// What a key does to an open prompt.
#[derive(Debug)]
pub enum PromptEvent {
    /// The prompt stays open.
    Stay,
    /// The prompt is closed without effect.
    Cancel,
    /// The question is answered with no.
    Decline,
    /// The question is answered with yes.
    Confirm { next: PendingAction },
    /// The highlighted row of the palette moves.
    MoveRow { forward: bool },
    /// The input is handed in.
    Submit { kind: PromptKind, input: String, reverse: bool, selected: Option<usize> },
}

/// The effect of a key on a prompt in mathematical terms.
pub enum PromptStep {
    Stay,
    Cancel,
    Decline,
    Confirm { next: PendingAction },
    MoveRow { forward: bool },
    Submit { kind: PromptKind, input: Seq<char>, reverse: bool, selected: Option<usize> },
}

impl View for PromptEvent {
    type V = PromptStep;

    open spec fn view(&self) -> PromptStep {
        match *self {
            PromptEvent::Stay => PromptStep::Stay,
            PromptEvent::Cancel => PromptStep::Cancel,
            PromptEvent::Decline => PromptStep::Decline,
            PromptEvent::Confirm { next } => PromptStep::Confirm { next },
            PromptEvent::MoveRow { forward } => PromptStep::MoveRow { forward },
            PromptEvent::Submit { kind, input, reverse, selected } => PromptStep::Submit {
                kind,
                input: input@,
                reverse,
                selected,
            },
        }
    }
}

/// Ctrl and neither Alt nor Super.
pub open spec fn only_ctrl(event: KeyEvent) -> bool {
    event.modifiers.ctrl && !event.modifiers.alt && !event.modifiers.super_key
}

/// Which way a key moves the highlighted row of the palette.
pub open spec fn row_motion(event: KeyEvent) -> Option<bool> {
    match event.key {
        Key::Up => Some(false),
        Key::Down => Some(true),
        Key::Tab => Some(!event.modifiers.shift),
        Key::Char(c) => if only_ctrl(event) && c == 'n' {
            Some(true)
        } else if only_ctrl(event) && c == 'p' {
            Some(false)
        } else {
            None
        },
        _ => None,
    }
}

/// The prompt with another input: what was typed no longer replaces it, and
/// the palette highlights its first row again.
pub open spec fn with_input(p: PromptModel, input: Seq<char>) -> PromptModel {
    PromptModel {
        input,
        replace_on_type: false,
        selection_index: if p.kind is CommandPalette {
            0
        } else {
            p.selection_index
        },
        ..p
    }
}

/// A character typed into the prompt, in place of an input that is still to be
/// replaced.
pub open spec fn with_char(p: PromptModel, c: char) -> PromptModel {
    if p.replace_on_type {
        with_input(p, seq![c])
    } else {
        with_input(p, p.input.push(c))
    }
}

/// The last character of the input taken back, or the whole input if it is
/// still to be replaced.
pub open spec fn with_backspace(p: PromptModel) -> PromptModel {
    if p.replace_on_type || p.input.len() == 0 {
        with_input(p, Seq::empty())
    } else {
        with_input(p, p.input.drop_last())
    }
}

/// What a key makes of an open prompt.
pub open spec fn prompt_step(p: PromptModel, event: KeyEvent) -> (PromptModel, PromptStep) {
    if let PromptKind::ConfirmDiscard { next } = p.kind {
        (
            p,
            match event.key {
                Key::Escape => PromptStep::Decline,
                Key::Return => PromptStep::Confirm { next },
                Key::Char(c) => if lower(c) == 'n' {
                    PromptStep::Decline
                } else if lower(c) == 'y' {
                    PromptStep::Confirm { next }
                } else {
                    PromptStep::Stay
                },
                _ => PromptStep::Stay,
            },
        )
    } else if p.kind is CommandPalette && row_motion(event) is Some {
        (p, PromptStep::MoveRow { forward: row_motion(event)->0 })
    } else {
        match event.key {
            Key::Escape => (p, PromptStep::Cancel),
            Key::Return => (
                p,
                PromptStep::Submit {
                    kind: p.kind,
                    input: trimmed(p.input),
                    reverse: p.kind is FindQuery && event.modifiers.shift,
                    selected: if p.kind is CommandPalette {
                        Some(p.selection_index as usize)
                    } else {
                        None
                    },
                },
            ),
            Key::Backspace => (with_backspace(p), PromptStep::Stay),
            Key::Space => (with_char(p, ' '), PromptStep::Stay),
            Key::Char(c) => if event.modifiers.ctrl {
                if lower(c) == 'u' {
                    (with_input(p, Seq::empty()), PromptStep::Stay)
                } else {
                    (p, PromptStep::Stay)
                }
            } else if event.modifiers.alt || event.modifiers.super_key {
                (p, PromptStep::Stay)
            } else {
                (with_char(p, c), PromptStep::Stay)
            },
            _ => (p, PromptStep::Stay),
        }
    }
}

fn row_motion_of(event: &KeyEvent) -> (out: Option<bool>)
    ensures
        out == row_motion(*event),
{
    let ctrl = event.modifiers.ctrl && !event.modifiers.alt && !event.modifiers.super_key;
    match event.key {
        Key::Up => Some(false),
        Key::Down => Some(true),
        Key::Tab => Some(!event.modifiers.shift),
        Key::Char(c) => {
            if ctrl && c == 'n' {
                Some(true)
            } else if ctrl && c == 'p' {
                Some(false)
            } else {
                None
            }
        },
        _ => None,
    }
}

impl PromptState {
    fn set_input(&mut self, input: String)
        ensures
            final(self)@ == with_input(old(self)@, input@),
    {
        self.input = input;
        self.replace_on_type = false;
        if matches!(self.kind, PromptKind::CommandPalette) {
            self.selection_index = 0;
        }
    }

    fn type_char(&mut self, c: char)
        ensures
            final(self)@ == with_char(old(self)@, c),
    {
        let mut input = if self.replace_on_type {
            String::new()
        } else {
            owned(self.input.as_str())
        };
        input.push(c);
        assert(self.replace_on_type ==> input@ =~= seq![c]);
        self.set_input(input);
    }

    fn erase(&mut self)
        ensures
            final(self)@ == with_backspace(old(self)@),
    {
        let len: usize = self.input.as_str().unicode_len();
        if self.replace_on_type || len == 0 {
            self.set_input(String::new());
        } else {
            let input = slice(self.input.as_str(), 0, len - 1);
            assert(input@ =~= self.input@.drop_last());
            self.set_input(input);
        }
    }

    /// Handles a key.
    pub fn handle_key(&mut self, event: &KeyEvent) -> (out: PromptEvent)
        ensures
            (final(self)@, out@) == prompt_step(old(self)@, *event),
    {
        if let PromptKind::ConfirmDiscard { next } = self.kind {
            return match event.key {
                Key::Escape => PromptEvent::Decline,
                Key::Return => PromptEvent::Confirm { next },
                Key::Char(c) => {
                    let k = to_lower(c);
                    if k == 'n' {
                        PromptEvent::Decline
                    } else if k == 'y' {
                        PromptEvent::Confirm { next }
                    } else {
                        PromptEvent::Stay
                    }
                },
                _ => PromptEvent::Stay,
            };
        }
        let palette = matches!(self.kind, PromptKind::CommandPalette);
        if palette {
            if let Some(forward) = row_motion_of(event) {
                return PromptEvent::MoveRow { forward };
            }
        }
        match event.key {
            Key::Escape => PromptEvent::Cancel,
            Key::Return => PromptEvent::Submit {
                kind: self.kind,
                input: trim(self.input.as_str()),
                reverse: matches!(self.kind, PromptKind::FindQuery) && event.modifiers.shift,
                selected: if palette {
                    Some(self.selection_index)
                } else {
                    None
                },
            },
            Key::Backspace => {
                self.erase();
                PromptEvent::Stay
            },
            Key::Space => {
                self.type_char(' ');
                PromptEvent::Stay
            },
            Key::Char(c) => {
                if event.modifiers.ctrl {
                    if to_lower(c) == 'u' {
                        self.set_input(String::new());
                    }
                } else if !(event.modifiers.alt || event.modifiers.super_key) {
                    self.type_char(c);
                }
                PromptEvent::Stay
            },
            _ => PromptEvent::Stay,
        }
    }
}

/// Where the user wants to go.
#[derive(Debug)]
pub enum GoTo {
    Empty,
    InvalidLine(String),
    InvalidColumn(String),
    At { line: usize, column: usize },
}

/// Where the user wants to go, in mathematical terms. Lines and columns count
/// from one.
pub enum GoToModel {
    Empty,
    InvalidLine(Seq<char>),
    InvalidColumn(Seq<char>),
    At { line: nat, column: nat },
}

impl View for GoTo {
    type V = GoToModel;

    open spec fn view(&self) -> GoToModel {
        match *self {
            GoTo::Empty => GoToModel::Empty,
            GoTo::InvalidLine(s) => GoToModel::InvalidLine(s@),
            GoTo::InvalidColumn(s) => GoToModel::InvalidColumn(s@),
            GoTo::At { line, column } => GoToModel::At {
                line: line as nat,
                column: column as nat,
            },
        }
    }
}

/// The length of the text before its first colon.
pub open spec fn colon_at(s: Seq<char>) -> int
    decreases s.len(),
{
    if s.len() == 0 || s[0] == ':' {
        0
    } else {
        1 + colon_at(s.skip(1))
    }
}

/// A number that counts something: greater than zero.
pub open spec fn counting(s: Seq<char>) -> Option<nat> {
    match parsed(s) {
        Some(n) => if n > 0 {
            Some(n)
        } else {
            None
        },
        None => None,
    }
}

/// Reads `line` or `line:column`.
pub open spec fn go_to(input: Seq<char>) -> GoToModel {
    let k = colon_at(input);
    let line = trimmed(input.take(k));
    let column = trimmed(input.skip(k + 1));
    if input.len() == 0 {
        GoToModel::Empty
    } else if counting(line) is None {
        GoToModel::InvalidLine(line)
    } else if k >= input.len() || column.len() == 0 {
        GoToModel::At { line: counting(line)->0, column: 1 }
    } else if counting(column) is None {
        GoToModel::InvalidColumn(column)
    } else {
        GoToModel::At { line: counting(line)->0, column: counting(column)->0 }
    }
}

pub proof fn lemma_colon_at(s: Seq<char>, k: int)
    requires
        0 <= k <= s.len(),
        forall|i: int| 0 <= i < k ==> #[trigger] s[i] != ':',
        k < s.len() ==> s[k] == ':',
    ensures
        colon_at(s) == k,
    decreases s.len(),
{
    if k > 0 {
        assert(s[0] != ':');
        let t = s.skip(1);
        assert forall|i: int| 0 <= i < k - 1 implies #[trigger] t[i] != ':' by {
            assert(t[i] == s[i + 1]);
        }
        lemma_colon_at(t, k - 1);
    }
}

fn parse_counting(s: &str) -> (out: Option<usize>)
    ensures
        match counting(s@) {
            Some(n) => out == Some(n as usize) && n <= usize::MAX,
            None => out is None,
        },
{
    match parse_usize(s) {
        Some(n) => if n > 0 {
            Some(n)
        } else {
            None
        },
        None => None,
    }
}

/// Reads `line` or `line:column`.
pub fn parse_go_to(input: &str) -> (out: GoTo)
    ensures
        out@ == go_to(input@),
{
    let chars = to_chars(input);
    if chars.len() == 0 {
        return GoTo::Empty;
    }
    let mut k: usize = 0;
    while k < chars.len() && chars[k] != ':'
        invariant
            chars@ == input@,
            k <= chars@.len(),
            forall|i: int| 0 <= i < k ==> #[trigger] chars@[i] != ':',
        decreases chars@.len() - k,
    {
        k += 1;
    }
    proof {
        lemma_colon_at(input@, k as int);
    }
    let head = slice(input, 0, k);
    assert(head@ =~= input@.take(k as int));
    let line_part = trim(head.as_str());
    match parse_counting(line_part.as_str()) {
        None => GoTo::InvalidLine(line_part),
        Some(line) => {
            if k >= chars.len() {
                return GoTo::At { line, column: 1 };
            }
            let tail = slice(input, k + 1, chars.len());
            assert(tail@ =~= input@.skip(k + 1));
            let column_part = trim(tail.as_str());
            if column_part.as_str().is_empty() {
                return GoTo::At { line, column: 1 };
            }
            match parse_counting(column_part.as_str()) {
                None => GoTo::InvalidColumn(column_part),
                Some(column) => GoTo::At { line, column },
            }
        },
    }
}

/// In a prompt that is not to be replaced, backspace takes back what was typed.
pub proof fn law_prompt_backspace_undoes_typing(p: PromptModel, c: char)
    requires
        !p.replace_on_type,
    ensures
        with_backspace(with_char(p, c)).input == p.input,
{
    assert(p.input.push(c).drop_last() =~= p.input);
}

/// What is typed into a prompt is put behind its input, or in place of an
/// input that is still to be replaced; the prompt stays open.
pub proof fn law_typing_fills_the_prompt(p: PromptModel, event: KeyEvent, c: char)
    requires
        !(p.kind is ConfirmDiscard),
        event.key == Key::Char(c) && !event.modifiers.ctrl && !event.modifiers.alt
            && !event.modifiers.super_key || event.key is Space && c == ' ',
    ensures
        ({
            let (next, step) = prompt_step(p, event);
            &&& step is Stay
            &&& next.kind == p.kind
            &&& !next.replace_on_type
            &&& next.input.len() > 0 && next.input.last() == c
            &&& p.replace_on_type ==> next.input.len() == 1
            &&& !p.replace_on_type ==> next.input.drop_last() == p.input
            &&& p.kind is CommandPalette ==> next.selection_index == 0
        }),
{
    assert(p.input.push(c).drop_last() =~= p.input);
}

/// Backspace takes the last character of the input, or all of an input that is
/// still to be replaced; Ctrl+U takes all of it.
pub proof fn law_clearing_the_prompt(p: PromptModel, event: KeyEvent, c: char)
    requires
        !(p.kind is ConfirmDiscard),
    ensures
        ({
            let (next, step) = prompt_step(p, event);
            &&& event.key is Backspace ==> {
                &&& step is Stay
                &&& next.kind == p.kind
                &&& !next.replace_on_type
                &&& p.replace_on_type || p.input.len() == 0 ==> next.input.len() == 0
                &&& !p.replace_on_type && p.input.len() > 0 ==> next.input.push(p.input.last())
                    == p.input
            }
            &&& event.key == Key::Char(c) && event.modifiers.ctrl && lower(c) == 'u' && c != 'n'
                && c != 'p' ==> {
                &&& step is Stay
                &&& next.kind == p.kind
                &&& !next.replace_on_type
                &&& next.input.len() == 0
            }
            &&& next.input != p.input && p.kind is CommandPalette ==> next.selection_index == 0
        }),
{
    if p.input.len() > 0 {
        assert(p.input.drop_last().push(p.input.last()) =~= p.input);
    }
}

/// Return hands in the input without the white space around it, with the
/// highlighted row of the palette; Escape closes the prompt. With Shift a
/// search goes backward.
pub proof fn law_finishing_the_prompt(p: PromptModel, event: KeyEvent)
    requires
        !(p.kind is ConfirmDiscard),
        event.key is Return || event.key is Escape,
    ensures
        prompt_step(p, event).0 == p,
        event.key is Escape ==> prompt_step(p, event).1 is Cancel,
        event.key is Return ==> match prompt_step(p, event).1 {
            PromptStep::Submit { kind, input, reverse, selected } => {
                &&& kind == p.kind
                &&& input == trimmed(p.input)
                &&& reverse <==> kind is FindQuery && event.modifiers.shift
                &&& selected is Some <==> kind is CommandPalette
                &&& 0 <= p.selection_index <= usize::MAX && selected is Some ==> selected->0
                    == p.selection_index
            },
            _ => false,
        },
{
}

/// A question is answered by Return or y for yes and by Escape or n for no;
/// other keys leave it open.
pub proof fn law_answering_the_question(p: PromptModel, event: KeyEvent)
    requires
        p.kind is ConfirmDiscard,
    ensures
        ({
            let said = |c: char| event.key is Char && lower(event.key->Char_0) == c;
            let step = prompt_step(p, event).1;
            &&& prompt_step(p, event).0 == p
            &&& step is Decline <==> event.key is Escape || said('n')
            &&& step is Confirm <==> event.key is Return || said('y')
            &&& step is Confirm ==> p.kind == (PromptKind::ConfirmDiscard {
                next: step->Confirm_next,
            })
            &&& step is Decline || step is Confirm || step is Stay
        }),
{
}

/// In the palette Down, Tab and Ctrl+N go on to the next row, Up, Shift+Tab and
/// Ctrl+P back; nothing else does, and no other prompt has rows.
pub proof fn law_row_keys(p: PromptModel, event: KeyEvent)
    ensures
        ({
            let with_ctrl = event.modifiers.ctrl && !event.modifiers.alt
                && !event.modifiers.super_key;
            let shift = event.modifiers.shift;
            let on = event.key is Down || event.key is Tab && !shift || event.key == Key::Char('n')
                && with_ctrl;
            let back = event.key is Up || event.key is Tab && shift || event.key == Key::Char('p')
                && with_ctrl;
            let step = prompt_step(p, event).1;
            &&& p.kind is CommandPalette && on <==> step == (PromptStep::MoveRow { forward: true })
            &&& p.kind is CommandPalette && back <==> step == (PromptStep::MoveRow {
                forward: false,
            })
        }),
{
}

/// A line is read from what stands before the first colon and a column from
/// what stands behind it, white space aside; both count from one, and a column
/// that is left out is the first.
pub proof fn law_lines_and_columns_are_read(line: Seq<char>, column: Seq<char>)
    requires
        !line.contains(':'),
    ensures
        line.len() > 0 ==> match go_to(line) {
            GoToModel::At { line: l, column: c } => l > 0 && parsed(trimmed(line)) == Some(l) && c
                == 1,
            GoToModel::InvalidLine(t) => t == trimmed(line) && (parsed(t) is None || parsed(t)
                == Some(0nat)),
            _ => false,
        },
        match go_to(line.push(':') + column) {
            GoToModel::At { line: l, column: c } => {
                &&& l > 0 && parsed(trimmed(line)) == Some(l)
                &&& c > 0
                &&& if trimmed(column).len() == 0 {
                    c == 1
                } else {
                    parsed(trimmed(column)) == Some(c)
                }
            },
            GoToModel::InvalidLine(t) => t == trimmed(line) && (parsed(t) is None || parsed(t)
                == Some(0nat)),
            GoToModel::InvalidColumn(t) => t == trimmed(column) && t.len() > 0 && (parsed(t) is None
                || parsed(t) == Some(0nat)),
            GoToModel::Empty => false,
        },
        go_to(Seq::empty()) is Empty,
{
    let n = line.len() as int;
    assert forall|i: int| 0 <= i < n implies #[trigger] line[i] != ':' by {
        if line[i] == ':' {
            assert(line.contains(':'));
        }
    }
    lemma_colon_at(line, n);
    assert(line.take(n) =~= line);
    let all = line.push(':') + column;
    assert forall|i: int| 0 <= i < n implies #[trigger] all[i] != ':' by {
        assert(all[i] == line[i]);
    }
    assert(all[n] == ':');
    lemma_colon_at(all, n);
    assert(all.take(n) =~= line);
    assert(all.skip(n + 1) =~= column);
}

} // verus!

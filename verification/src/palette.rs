//! The command palette: finding a command by what the user types.
use crate::number::parse_usize;
#[allow(unused_imports)]
use crate::number::parsed;
use crate::text::{
    contains, is_fuzzy_subsequence, split_whitespace, starts_with, str_equal, to_ascii_lowercase,
    trim,
};
#[allow(unused_imports)]
use crate::text::{fuzzy_match, has_prefix, has_substring, lowered, texts, trimmed, words};
use vstd::prelude::*;

verus! {

/// The commands of the palette.
#[derive(Debug, Clone, Copy, PartialEq, Eq, Structural)]
pub enum PaletteCommand {
    OpenFile,
    OpenRecent,
    Save,
    SaveAs,
    NewTab,
    NextTab,
    PrevTab,
    Find,
    FindNext,
    FindPrev,
    GoToLine,
    Copy,
    Cut,
    Paste,
    Quit,
    SaveSession,
    RestoreSession,
    ClearSession,
}

/// All commands, in the order in which they are offered.
pub open spec fn command_order() -> Seq<PaletteCommand> {
    seq![
        PaletteCommand::OpenFile,
        PaletteCommand::OpenRecent,
        PaletteCommand::Save,
        PaletteCommand::SaveAs,
        PaletteCommand::NewTab,
        PaletteCommand::NextTab,
        PaletteCommand::PrevTab,
        PaletteCommand::Find,
        PaletteCommand::FindNext,
        PaletteCommand::FindPrev,
        PaletteCommand::GoToLine,
        PaletteCommand::Copy,
        PaletteCommand::Cut,
        PaletteCommand::Paste,
        PaletteCommand::Quit,
        PaletteCommand::SaveSession,
        PaletteCommand::RestoreSession,
        PaletteCommand::ClearSession,
    ]
}

/// The place of a command in the order.
pub open spec fn order_of(command: PaletteCommand) -> int {
    match command {
        PaletteCommand::OpenFile => 0,
        PaletteCommand::OpenRecent => 1,
        PaletteCommand::Save => 2,
        PaletteCommand::SaveAs => 3,
        PaletteCommand::NewTab => 4,
        PaletteCommand::NextTab => 5,
        PaletteCommand::PrevTab => 6,
        PaletteCommand::Find => 7,
        PaletteCommand::FindNext => 8,
        PaletteCommand::FindPrev => 9,
        PaletteCommand::GoToLine => 10,
        PaletteCommand::Copy => 11,
        PaletteCommand::Cut => 12,
        PaletteCommand::Paste => 13,
        PaletteCommand::Quit => 14,
        PaletteCommand::SaveSession => 15,
        PaletteCommand::RestoreSession => 16,
        PaletteCommand::ClearSession => 17,
    }
}

/// The short name of a command.
pub open spec fn id_text(command: PaletteCommand) -> Seq<char> {
    match command {
        PaletteCommand::OpenFile => "open"@,
        PaletteCommand::OpenRecent => "recent"@,
        PaletteCommand::Save => "save"@,
        PaletteCommand::SaveAs => "save_as"@,
        PaletteCommand::NewTab => "new_tab"@,
        PaletteCommand::NextTab => "next_tab"@,
        PaletteCommand::PrevTab => "prev_tab"@,
        PaletteCommand::Find => "find"@,
        PaletteCommand::FindNext => "find_next"@,
        PaletteCommand::FindPrev => "find_prev"@,
        PaletteCommand::GoToLine => "go_to_line"@,
        PaletteCommand::Copy => "copy"@,
        PaletteCommand::Cut => "cut"@,
        PaletteCommand::Paste => "paste"@,
        PaletteCommand::Quit => "quit"@,
        PaletteCommand::SaveSession => "save_session"@,
        PaletteCommand::RestoreSession => "restore_session"@,
        PaletteCommand::ClearSession => "clear_session"@,
    }
}

/// The name of a command as it is shown.
pub open spec fn label_text(command: PaletteCommand) -> Seq<char> {
    match command {
        PaletteCommand::OpenFile => "open file"@,
        PaletteCommand::OpenRecent => "open recent"@,
        PaletteCommand::Save => "save file"@,
        PaletteCommand::SaveAs => "save as"@,
        PaletteCommand::NewTab => "new tab"@,
        PaletteCommand::NextTab => "next tab"@,
        PaletteCommand::PrevTab => "previous tab"@,
        PaletteCommand::Find => "find"@,
        PaletteCommand::FindNext => "find next"@,
        PaletteCommand::FindPrev => "find previous"@,
        PaletteCommand::GoToLine => "go to line"@,
        PaletteCommand::Copy => "copy selection"@,
        PaletteCommand::Cut => "cut selection"@,
        PaletteCommand::Paste => "paste clipboard"@,
        PaletteCommand::Quit => "quit"@,
        PaletteCommand::SaveSession => "save session"@,
        PaletteCommand::RestoreSession => "restore session"@,
        PaletteCommand::ClearSession => "clear session data"@,
    }
}

/// The other names of a command.
pub open spec fn alias_texts(command: PaletteCommand) -> Seq<Seq<char>> {
    match command {
        PaletteCommand::OpenFile => seq!["o"@, "open_file"@, "openfile"@, "load"@],
        PaletteCommand::OpenRecent => seq!["r"@, "recent_files"@, "recentfiles"@],
        PaletteCommand::Save => seq!["s"@, "write"@, "w"@],
        PaletteCommand::SaveAs => seq!["saveas"@, "save_as"@, "writeas"@],
        PaletteCommand::NewTab => seq!["t"@, "tabnew"@],
        PaletteCommand::NextTab => seq!["tabnext"@, "tn"@, "next"@],
        PaletteCommand::PrevTab => seq!["tabprev"@, "tp"@, "prev"@, "previous"@],
        PaletteCommand::Find => seq!["search"@, "f"@],
        PaletteCommand::FindNext => seq!["n"@, "next_match"@, "search_next"@],
        PaletteCommand::FindPrev => seq!["p"@, "prev_match"@, "search_prev"@],
        PaletteCommand::GoToLine => seq!["goto"@, "go"@, "line"@, "jump"@],
        PaletteCommand::Copy => seq!["yank"@, "cp"@],
        PaletteCommand::Cut => seq!["delete_selection"@, "x"@],
        PaletteCommand::Paste => seq!["insert_clipboard"@, "v"@],
        PaletteCommand::Quit => seq!["q"@, "exit"@, "close"@],
        PaletteCommand::SaveSession => Seq::empty(),
        PaletteCommand::RestoreSession => Seq::empty(),
        PaletteCommand::ClearSession => Seq::empty(),
    }
}

/// All names of a command.
pub open spec fn names(command: PaletteCommand) -> Seq<Seq<char>> {
    seq![id_text(command), label_text(command)] + alias_texts(command)
}

/// How well a name fits a token; less is better.
pub open spec fn name_score(name: Seq<char>, token: Seq<char>) -> Option<nat> {
    if name == token {
        Some(0)
    } else if has_prefix(name, token) {
        Some(1)
    } else if has_substring(name, token) {
        Some(2)
    } else if fuzzy_match(name, token) {
        Some(3)
    } else {
        None
    }
}

/// The better of two scores.
pub open spec fn better(a: Option<nat>, b: Option<nat>) -> Option<nat> {
    match (a, b) {
        (Some(x), Some(y)) => Some(
            if x <= y {
                x
            } else {
                y
            },
        ),
        (Some(x), None) => Some(x),
        (None, _) => b,
    }
}

/// The best score among some names.
pub open spec fn best_score(all: Seq<Seq<char>>, token: Seq<char>) -> Option<nat>
    decreases all.len(),
{
    if all.len() == 0 {
        None
    } else {
        better(best_score(all.drop_last(), token), name_score(all.last(), token))
    }
}

/// How well a command fits a token, by the name that fits best.
pub open spec fn token_score(command: PaletteCommand, token: Seq<char>) -> Option<nat> {
    best_score(names(command), token)
}

/// Commands that need a selection are offered only with one.
pub open spec fn is_available(command: PaletteCommand, has_selection: bool) -> bool {
    match command {
        PaletteCommand::Copy => has_selection,
        PaletteCommand::Cut => has_selection,
        _ => true,
    }
}

/// The sum of the scores of all tokens, if every token fits.
pub open spec fn total_score(command: PaletteCommand, tokens: Seq<Seq<char>>) -> Option<nat>
    decreases tokens.len(),
{
    if tokens.len() == 0 {
        Some(0)
    } else {
        match (total_score(command, tokens.drop_last()), token_score(command, tokens.last())) {
            (Some(a), Some(b)) => Some(a + b),
            _ => None,
        }
    }
}

/// How well a command fits a query, if it is available and fits at all.
pub open spec fn match_score(
    command: PaletteCommand,
    tokens: Seq<Seq<char>>,
    has_selection: bool,
) -> Option<nat> {
    if is_available(command, has_selection) {
        total_score(command, tokens)
    } else {
        None
    }
}

/// The tokens of a query.
pub open spec fn query_tokens(query: Seq<char>) -> Seq<Seq<char>> {
    words(lowered(trimmed(query)))
}

/// A scored command put into a ranking, behind those that score as well.
pub open spec fn ranked_in(
    list: Seq<(nat, PaletteCommand)>,
    score: nat,
    command: PaletteCommand,
) -> Seq<(nat, PaletteCommand)>
    decreases list.len(),
{
    if list.len() == 0 || list.last().0 <= score {
        list.push((score, command))
    } else {
        ranked_in(list.drop_last(), score, command).push(list.last())
    }
}

/// The ranking of the first `n` commands.
pub open spec fn ranking(tokens: Seq<Seq<char>>, has_selection: bool, n: nat) -> Seq<
    (nat, PaletteCommand),
>
    decreases n,
{
    if n == 0 {
        Seq::empty()
    } else {
        let before = ranking(tokens, has_selection, (n - 1) as nat);
        let command = command_order()[n - 1];
        match match_score(command, tokens, has_selection) {
            Some(score) => ranked_in(before, score, command),
            None => before,
        }
    }
}

/// The commands that fit a query, best first.
pub open spec fn fitting(query: Seq<char>, has_selection: bool) -> Seq<PaletteCommand> {
    let all = ranking(query_tokens(query), has_selection, command_order().len());
    Seq::new(all.len(), |i: int| all[i].1)
}

/// What submitting the palette leads to.
#[derive(Debug, Clone, Copy, PartialEq, Eq, Structural)]
pub enum PaletteChoice {
    NoMatch,
    OutOfRange(usize),
    Run(PaletteCommand),
}

/// The first of some commands that goes by a name, else the very first.
pub open spec fn first_named(list: Seq<PaletteCommand>, name: Seq<char>) -> PaletteCommand
    decreases list.len(),
{
    if list.len() <= 1 {
        list[0]
    } else {
        let before = first_named(list.drop_last(), name);
        if !names(before).contains(name) && names(list.last()).contains(name) {
            list.last()
        } else {
            before
        }
    }
}

/// The command that a query and a highlighted row choose. A highlighted row
/// decides; else a number picks a row, counted from one, and a full name its
/// command.
pub open spec fn palette_choice(
    query: Seq<char>,
    selected: Option<usize>,
    has_selection: bool,
) -> PaletteChoice {
    let text = trimmed(query);
    let list = fitting(text, has_selection);
    if list.len() == 0 {
        PaletteChoice::NoMatch
    } else if let Some(index) = selected {
        PaletteChoice::Run(
            list[if index < list.len() {
                index as int
            } else {
                list.len() - 1
            }],
        )
    } else if let Some(index) = parsed(text) {
        if index == 0 || index > list.len() {
            PaletteChoice::OutOfRange(index as usize)
        } else {
            PaletteChoice::Run(list[index - 1])
        }
    } else if text.len() == 0 {
        PaletteChoice::Run(list[0])
    } else {
        PaletteChoice::Run(first_named(list, lowered(text)))
    }
}

/// The texts of a list of string slices.
pub open spec fn slices(v: Seq<&str>) -> Seq<Seq<char>> {
    Seq::new(v.len(), |i: int| v[i]@)
}

/// All commands, in the order in which they are offered.
pub fn palette_commands() -> (out: Vec<PaletteCommand>)
    ensures
        out@ == command_order(),
{
    vec![
        PaletteCommand::OpenFile,
        PaletteCommand::OpenRecent,
        PaletteCommand::Save,
        PaletteCommand::SaveAs,
        PaletteCommand::NewTab,
        PaletteCommand::NextTab,
        PaletteCommand::PrevTab,
        PaletteCommand::Find,
        PaletteCommand::FindNext,
        PaletteCommand::FindPrev,
        PaletteCommand::GoToLine,
        PaletteCommand::Copy,
        PaletteCommand::Cut,
        PaletteCommand::Paste,
        PaletteCommand::Quit,
        PaletteCommand::SaveSession,
        PaletteCommand::RestoreSession,
        PaletteCommand::ClearSession,
    ]
}

impl PaletteCommand {
    /// The short name.
    pub fn id(self) -> (out: &'static str)
        ensures
            out@ == id_text(self),
    {
        match self {
            PaletteCommand::OpenFile => "open",
            PaletteCommand::OpenRecent => "recent",
            PaletteCommand::Save => "save",
            PaletteCommand::SaveAs => "save_as",
            PaletteCommand::NewTab => "new_tab",
            PaletteCommand::NextTab => "next_tab",
            PaletteCommand::PrevTab => "prev_tab",
            PaletteCommand::Find => "find",
            PaletteCommand::FindNext => "find_next",
            PaletteCommand::FindPrev => "find_prev",
            PaletteCommand::GoToLine => "go_to_line",
            PaletteCommand::Copy => "copy",
            PaletteCommand::Cut => "cut",
            PaletteCommand::Paste => "paste",
            PaletteCommand::Quit => "quit",
            PaletteCommand::SaveSession => "save_session",
            PaletteCommand::RestoreSession => "restore_session",
            PaletteCommand::ClearSession => "clear_session",
        }
    }

    /// The name as it is shown.
    pub fn label(self) -> (out: &'static str)
        ensures
            out@ == label_text(self),
    {
        match self {
            PaletteCommand::OpenFile => "open file",
            PaletteCommand::OpenRecent => "open recent",
            PaletteCommand::Save => "save file",
            PaletteCommand::SaveAs => "save as",
            PaletteCommand::NewTab => "new tab",
            PaletteCommand::NextTab => "next tab",
            PaletteCommand::PrevTab => "previous tab",
            PaletteCommand::Find => "find",
            PaletteCommand::FindNext => "find next",
            PaletteCommand::FindPrev => "find previous",
            PaletteCommand::GoToLine => "go to line",
            PaletteCommand::Copy => "copy selection",
            PaletteCommand::Cut => "cut selection",
            PaletteCommand::Paste => "paste clipboard",
            PaletteCommand::Quit => "quit",
            PaletteCommand::SaveSession => "save session",
            PaletteCommand::RestoreSession => "restore session",
            PaletteCommand::ClearSession => "clear session data",
        }
    }

    /// The other names.
    pub fn aliases(self) -> (out: Vec<&'static str>)
        ensures
            slices(out@) == alias_texts(self),
    {
        let out: Vec<&'static str> = match self {
            PaletteCommand::OpenFile => vec!["o", "open_file", "openfile", "load"],
            PaletteCommand::OpenRecent => vec!["r", "recent_files", "recentfiles"],
            PaletteCommand::Save => vec!["s", "write", "w"],
            PaletteCommand::SaveAs => vec!["saveas", "save_as", "writeas"],
            PaletteCommand::NewTab => vec!["t", "tabnew"],
            PaletteCommand::NextTab => vec!["tabnext", "tn", "next"],
            PaletteCommand::PrevTab => vec!["tabprev", "tp", "prev", "previous"],
            PaletteCommand::Find => vec!["search", "f"],
            PaletteCommand::FindNext => vec!["n", "next_match", "search_next"],
            PaletteCommand::FindPrev => vec!["p", "prev_match", "search_prev"],
            PaletteCommand::GoToLine => vec!["goto", "go", "line", "jump"],
            PaletteCommand::Copy => vec!["yank", "cp"],
            PaletteCommand::Cut => vec!["delete_selection", "x"],
            PaletteCommand::Paste => vec!["insert_clipboard", "v"],
            PaletteCommand::Quit => vec!["q", "exit", "close"],
            PaletteCommand::SaveSession => Vec::new(),
            PaletteCommand::RestoreSession => Vec::new(),
            PaletteCommand::ClearSession => Vec::new(),
        };
        assert(slices(out@) =~= alias_texts(self));
        out
    }

    /// All names.
    pub fn all_names(self) -> (out: Vec<&'static str>)
        ensures
            slices(out@) == names(self),
    {
        let mut out: Vec<&'static str> = Vec::new();
        out.push(self.id());
        out.push(self.label());
        let mut more = self.aliases();
        out.append(&mut more);
        assert(slices(out@) =~= names(self));
        out
    }
}

fn score_name(name: &str, token: &str) -> (out: Option<u128>)
    ensures
        match out {
            Some(n) => name_score(name@, token@) == Some(n as nat) && n <= 3,
            None => name_score(name@, token@) is None,
        },
{
    if str_equal(name, token) {
        Some(0)
    } else if starts_with(name, token) {
        Some(1)
    } else if contains(name, token) {
        Some(2)
    } else if is_fuzzy_subsequence(name, token) {
        Some(3)
    } else {
        None
    }
}

/// How well a command fits a token, by the name that fits best.
pub fn palette_token_score(command: PaletteCommand, token: &str) -> (out: Option<u128>)
    ensures
        match out {
            Some(n) => token_score(command, token@) == Some(n as nat) && n <= 3,
            None => token_score(command, token@) is None,
        },
{
    let all = command.all_names();
    let mut best: Option<u128> = None;
    let mut i: usize = 0;
    proof {
        assert(slices(all@).take(0) =~= Seq::empty());
    }
    while i < all.len()
        invariant
            slices(all@) == names(command),
            i <= all@.len(),
            match best {
                Some(n) => best_score(slices(all@).take(i as int), token@) == Some(n as nat) && n
                    <= 3,
                None => best_score(slices(all@).take(i as int), token@) is None,
            },
        decreases all@.len() - i,
    {
        proof {
            let next = slices(all@).take(i + 1);
            assert(next.drop_last() =~= slices(all@).take(i as int));
            assert(next.last() == all@[i as int]@);
        }
        let score = score_name(all[i], token);
        if let Some(n) = score {
            best = match best {
                Some(current) => if current <= n {
                    Some(current)
                } else {
                    Some(n)
                },
                None => Some(n),
            };
        }
        i += 1;
    }
    proof {
        assert(slices(all@).take(i as int) =~= slices(all@));
    }
    best
}

/// Whether a command is offered.
pub fn palette_command_available(command: PaletteCommand, has_selection: bool) -> (yes: bool)
    ensures
        yes == is_available(command, has_selection),
{
    match command {
        PaletteCommand::Copy => has_selection,
        PaletteCommand::Cut => has_selection,
        _ => true,
    }
}

proof fn lemma_no_total(command: PaletteCommand, tokens: Seq<Seq<char>>, k: int)
    requires
        0 <= k <= tokens.len(),
        total_score(command, tokens.take(k)) is None,
    ensures
        total_score(command, tokens) is None,
    decreases tokens.len() - k,
{
    if k == tokens.len() {
        assert(tokens.take(k) == tokens);
    } else {
        assert(tokens.take(k + 1).drop_last() == tokens.take(k));
        lemma_no_total(command, tokens, k + 1);
    }
}

/// How well a command fits some tokens, if it is available and fits at all.
pub fn palette_match_score(
    command: PaletteCommand,
    tokens: &Vec<String>,
    has_selection: bool,
) -> (out: Option<u128>)
    ensures
        match out {
            Some(n) => match_score(command, texts(tokens@), has_selection) == Some(n as nat),
            None => match_score(command, texts(tokens@), has_selection) is None,
        },
{
    if !palette_command_available(command, has_selection) {
        return None;
    }
    let mut score: u128 = 0;
    let mut i: usize = 0;
    proof {
        assert(texts(tokens@).take(0) =~= Seq::empty());
    }
    while i < tokens.len()
        invariant
            i <= tokens@.len(),
            is_available(command, has_selection),
            total_score(command, texts(tokens@).take(i as int)) == Some(score as nat),
            score <= 3 * i,
        decreases tokens@.len() - i,
    {
        proof {
            let next = texts(tokens@).take(i + 1);
            assert(next.drop_last() =~= texts(tokens@).take(i as int));
            assert(next.last() == tokens@[i as int]@);
        }
        match palette_token_score(command, tokens[i].as_str()) {
            Some(n) => {
                score = score + n;
            },
            None => {
                proof {
                    lemma_no_total(command, texts(tokens@), i + 1);
                }
                return None;
            },
        }
        i += 1;
    }
    proof {
        assert(texts(tokens@).take(i as int) =~= texts(tokens@));
    }
    Some(score)
}

spec fn scored(v: Seq<(u128, PaletteCommand)>) -> Seq<(nat, PaletteCommand)> {
    Seq::new(v.len(), |i: int| (v[i].0 as nat, v[i].1))
}

proof fn lemma_ranked_in(
    list: Seq<(nat, PaletteCommand)>,
    score: nat,
    command: PaletteCommand,
    at: int,
)
    requires
        0 <= at <= list.len(),
        forall|i: int| at <= i < list.len() ==> (#[trigger] list[i]).0 > score,
        at > 0 ==> list[at - 1].0 <= score,
    ensures
        ranked_in(list, score, command) == list.insert(at, (score, command)),
    decreases list.len(),
{
    if at == list.len() {
        assert(list.insert(at, (score, command)) =~= list.push((score, command)));
    } else {
        let init = list.drop_last();
        assert forall|i: int| at <= i < init.len() implies (#[trigger] init[i]).0 > score by {
            assert(init[i] == list[i]);
        }
        lemma_ranked_in(init, score, command, at);
        assert(list[list.len() - 1].0 > score);
        assert(init.insert(at, (score, command)).push(list.last()) =~= list.insert(
            at,
            (score, command),
        ));
    }
}

fn rank_in(list: &mut Vec<(u128, PaletteCommand)>, score: u128, command: PaletteCommand)
    ensures
        scored(final(list)@) == ranked_in(scored(old(list)@), score as nat, command),
{
    let ghost before = list@;
    let mut at: usize = list.len();
    while at > 0 && list[at - 1].0 > score
        invariant
            list@ == before,
            at <= list@.len(),
            forall|i: int| at <= i < list@.len() ==> (#[trigger] list@[i]).0 > score,
        decreases at,
    {
        at -= 1;
    }
    list.insert(at, (score, command));
    proof {
        assert forall|i: int| at <= i < scored(before).len() implies (#[trigger] scored(before)[i]).0
            > score as nat by {
            assert(before[i].0 > score);
        }
        lemma_ranked_in(scored(before), score as nat, command, at as int);
        assert(scored(list@) =~= scored(before).insert(at as int, (score as nat, command)));
    }
}

/// The commands that fit a query, best first.
pub fn matching_palette_commands(raw_query: &str, has_selection: bool) -> (out: Vec<PaletteCommand>)
    ensures
        out@ == fitting(raw_query@, has_selection),
{
    let query = to_ascii_lowercase(trim(raw_query).as_str());
    let tokens = split_whitespace(query.as_str());
    let all = palette_commands();
    let mut list: Vec<(u128, PaletteCommand)> = Vec::new();
    let mut i: usize = 0;
    proof {
        assert(scored(list@) =~= Seq::empty());
    }
    while i < all.len()
        invariant
            all@ == command_order(),
            texts(tokens@) == query_tokens(raw_query@),
            i <= all@.len(),
            scored(list@) == ranking(texts(tokens@), has_selection, i as nat),
        decreases all@.len() - i,
    {
        if let Some(score) = palette_match_score(all[i], &tokens, has_selection) {
            rank_in(&mut list, score, all[i]);
        }
        i += 1;
    }
    let mut out: Vec<PaletteCommand> = Vec::new();
    for j in 0..list.len()
        invariant
            out@.len() == j,
            forall|k: int| 0 <= k < j ==> out@[k] == (#[trigger] list@[k]).1,
    {
        out.push(list[j].1);
    }
    proof {
        let ranked = ranking(query_tokens(raw_query@), has_selection, command_order().len());
        assert forall|k: int| 0 <= k < out@.len() implies out@[k] == #[trigger] ranked[k].1 by {
            assert(scored(list@)[k].1 == list@[k].1);
        }
        assert(out@ =~= fitting(raw_query@, has_selection));
    }
    out
}

fn goes_by(command: PaletteCommand, name: &str) -> (yes: bool)
    ensures
        yes == names(command).contains(name@),
{
    let all = command.all_names();
    for i in 0..all.len()
        invariant
            slices(all@) == names(command),
            forall|j: int| 0 <= j < i ==> slices(all@)[j] != name@,
    {
        if str_equal(all[i], name) {
            assert(slices(all@)[i as int] == name@);
            return true;
        }
    }
    false
}

fn find_named(list: &Vec<PaletteCommand>, name: &str) -> (out: PaletteCommand)
    requires
        list@.len() > 0,
    ensures
        out == first_named(list@, name@),
{
    let mut found = list[0];
    let mut i: usize = 1;
    proof {
        assert(list@.take(1)[0] == list@[0]);
    }
    while i < list.len()
        invariant
            1 <= i <= list@.len(),
            found == first_named(list@.take(i as int), name@),
        decreases list@.len() - i,
    {
        proof {
            assert(list@.take(i + 1).drop_last() =~= list@.take(i as int));
            assert(list@.take(i + 1).last() == list@[i as int]);
        }
        if !goes_by(found, name) && goes_by(list[i], name) {
            found = list[i];
        }
        i += 1;
    }
    proof {
        assert(list@.take(i as int) =~= list@);
    }
    found
}

/// The command that a query and a highlighted row choose.
pub fn choose_palette_command(raw_input: &str, selected: Option<usize>, has_selection: bool) -> (out:
    PaletteChoice)
    ensures
        out == palette_choice(raw_input@, selected, has_selection),
{
    let query = trim(raw_input);
    let list = matching_palette_commands(query.as_str(), has_selection);
    if list.len() == 0 {
        return PaletteChoice::NoMatch;
    }
    if let Some(index) = selected {
        let row: usize = if index < list.len() {
            index
        } else {
            list.len() - 1
        };
        return PaletteChoice::Run(list[row]);
    }
    if let Some(index) = parse_usize(query.as_str()) {
        if index == 0 || index > list.len() {
            return PaletteChoice::OutOfRange(index);
        }
        return PaletteChoice::Run(list[index - 1]);
    }
    if query.as_str().is_empty() {
        return PaletteChoice::Run(list[0]);
    }
    let lower = to_ascii_lowercase(query.as_str());
    PaletteChoice::Run(find_named(&list, lower.as_str()))
}

/// The order of the palette lists every command once.
pub proof fn law_every_command_has_one_place(command: PaletteCommand)
    ensures
        0 <= order_of(command) < command_order().len(),
        command_order()[order_of(command)] == command,
        forall|i: int|
            0 <= i < command_order().len() ==> order_of(#[trigger] command_order()[i]) == i,
{
}

/// One ranked command stands before another: it scores better, or as well and
/// comes earlier in the order.
pub open spec fn stands_before(a: (nat, PaletteCommand), b: (nat, PaletteCommand)) -> bool {
    a.0 < b.0 || (a.0 == b.0 && order_of(a.1) < order_of(b.1))
}

/// The list is sorted, and its entries carry their scores.
spec fn good_ranking(
    list: Seq<(nat, PaletteCommand)>,
    tokens: Seq<Seq<char>>,
    has_selection: bool,
    n: int,
) -> bool {
    &&& forall|i: int|
        0 <= i < list.len() ==> match_score((#[trigger] list[i]).1, tokens, has_selection) == Some(
            list[i].0,
        ) && order_of(list[i].1) < n
    &&& forall|i: int, j: int|
        0 <= i < j < list.len() ==> stands_before(#[trigger] list[i], #[trigger] list[j])
    &&& forall|c: PaletteCommand|
        order_of(c) < n && (#[trigger] match_score(c, tokens, has_selection)) is Some ==> exists|
            i: int,
        |
            0 <= i < list.len() && (#[trigger] list[i]).1 == c
}

proof fn lemma_good_ranking(tokens: Seq<Seq<char>>, has_selection: bool, n: nat)
    requires
        n <= command_order().len(),
    ensures
        good_ranking(ranking(tokens, has_selection, n), tokens, has_selection, n as int),
    decreases n,
{
    if n == 0 {
        assert forall|c: PaletteCommand| order_of(c) < 0 implies false by {}
    } else {
        let before = ranking(tokens, has_selection, (n - 1) as nat);
        let command = command_order()[n - 1];
        let after = ranking(tokens, has_selection, n);
        lemma_good_ranking(tokens, has_selection, (n - 1) as nat);
        law_every_command_has_one_place(command);
        match match_score(command, tokens, has_selection) {
            None => {
                assert forall|c: PaletteCommand|
                    order_of(c) < n && (#[trigger] match_score(c, tokens, has_selection)) is Some
                    implies exists|i: int| 0 <= i < after.len() && (#[trigger] after[i]).1 == c by {
                    law_every_command_has_one_place(c);
                    assert(c != command);
                    assert(order_of(c) != n - 1);
                }
            },
            Some(score) => {
                let at = lemma_place(before, score, command);
                lemma_ranked_in(before, score, command, at);
                let new = (score, command);
                assert forall|i: int| 0 <= i < after.len() implies match_score(
                    (#[trigger] after[i]).1,
                    tokens,
                    has_selection,
                ) == Some(after[i].0) && order_of(after[i].1) < n by {
                    if i < at {
                        assert(after[i] == before[i]);
                    } else if i > at {
                        assert(after[i] == before[i - 1]);
                    }
                }
                assert forall|i: int, j: int| 0 <= i < j < after.len() implies stands_before(
                    #[trigger] after[i],
                    #[trigger] after[j],
                ) by {
                    if j < at {
                        assert(after[i] == before[i] && after[j] == before[j]);
                    } else if j == at {
                        assert(after[i] == before[i]);
                        if i < at - 1 {
                            assert(stands_before(before[i], before[at - 1]));
                        }
                    } else if i < at {
                        assert(after[i] == before[i] && after[j] == before[j - 1]);
                    } else if i == at {
                        assert(after[j] == before[j - 1]);
                    } else {
                        assert(after[i] == before[i - 1] && after[j] == before[j - 1]);
                    }
                }
                assert forall|c: PaletteCommand|
                    order_of(c) < n && (#[trigger] match_score(c, tokens, has_selection)) is Some
                    implies exists|i: int| 0 <= i < after.len() && (#[trigger] after[i]).1 == c by {
                    if c == command {
                        assert(after[at].1 == c);
                    } else {
                        law_every_command_has_one_place(c);
                        assert(order_of(c) != n - 1);
                        let i = choose|i: int| 0 <= i < before.len() && (#[trigger] before[i]).1 == c;
                        if i < at {
                            assert(after[i] == before[i]);
                        } else {
                            assert(after[i + 1] == before[i]);
                        }
                    }
                }
            },
        }
    }
}

proof fn lemma_place(list: Seq<(nat, PaletteCommand)>, score: nat, command: PaletteCommand) -> (at:
    int)
    requires
        forall|i: int, j: int|
            0 <= i < j < list.len() ==> stands_before(#[trigger] list[i], #[trigger] list[j]),
    ensures
        0 <= at <= list.len(),
        forall|i: int| at <= i < list.len() ==> (#[trigger] list[i]).0 > score,
        at > 0 ==> list[at - 1].0 <= score,
    decreases list.len(),
{
    if list.len() == 0 || list.last().0 <= score {
        list.len() as int
    } else {
        let init = list.drop_last();
        assert forall|i: int, j: int| 0 <= i < j < init.len() implies stands_before(
            #[trigger] init[i],
            #[trigger] init[j],
        ) by {
            assert(init[i] == list[i] && init[j] == list[j]);
        }
        let at = lemma_place(init, score, command);
        assert forall|i: int| at <= i < list.len() implies (#[trigger] list[i]).0 > score by {
            if i < init.len() {
                assert(init[i] == list[i]);
            }
        }
        at
    }
}

/// A command is offered for a query exactly if it is available and every token
/// fits one of its names; better scores come first, and commands that score
/// alike keep their order.
pub proof fn law_offers_are_complete_and_ranked(query: Seq<char>, has_selection: bool)
    ensures
        forall|c: PaletteCommand|
            #![trigger fitting(query, has_selection).contains(c)]
            fitting(query, has_selection).contains(c) <==> match_score(
                c,
                query_tokens(query),
                has_selection,
            ) is Some,
        forall|i: int, j: int|
            #![trigger fitting(query, has_selection)[i], fitting(query, has_selection)[j]]
            0 <= i < j < fitting(query, has_selection).len() ==> ({
                let a = fitting(query, has_selection)[i];
                let b = fitting(query, has_selection)[j];
                let x = match_score(a, query_tokens(query), has_selection);
                let y = match_score(b, query_tokens(query), has_selection);
                x is Some && y is Some && stands_before((x->0, a), (y->0, b))
            }),
{
    let tokens = query_tokens(query);
    let all = ranking(tokens, has_selection, command_order().len());
    let list = fitting(query, has_selection);
    lemma_good_ranking(tokens, has_selection, command_order().len());
    assert forall|c: PaletteCommand| #![trigger list.contains(c)]
        list.contains(c) <==> match_score(c, tokens, has_selection) is Some by {
        if list.contains(c) {
            let i = choose|i: int| 0 <= i < list.len() && list[i] == c;
            assert(all[i].1 == c);
        }
        if match_score(c, tokens, has_selection) is Some {
            law_every_command_has_one_place(c);
            let i = choose|i: int| 0 <= i < all.len() && (#[trigger] all[i]).1 == c;
            assert(list[i] == c);
        }
    }
    assert forall|i: int, j: int| #![trigger list[i], list[j]]
        0 <= i < j < list.len() implies ({
        let x = match_score(list[i], tokens, has_selection);
        let y = match_score(list[j], tokens, has_selection);
        x is Some && y is Some && stands_before((x->0, list[i]), (y->0, list[j]))
    }) by {
        assert(all[i].1 == list[i]);
        assert(all[j].1 == list[j]);
        assert(stands_before(all[i], all[j]));
    }
}

/// With nothing typed every available command is offered.
pub proof fn law_empty_query_offers_all(has_selection: bool, command: PaletteCommand)
    requires
        is_available(command, has_selection),
    ensures
        fitting(Seq::empty(), has_selection).contains(command),
{
    let none = Seq::<char>::empty();
    assert(trimmed(none) =~= none);
    assert(lowered(none) =~= none);
    assert(query_tokens(none) =~= Seq::empty());
    law_offers_are_complete_and_ranked(none, has_selection);
}

proof fn lemma_best_score(all: Seq<Seq<char>>, token: Seq<char>)
    ensures
        forall|i: int|
            0 <= i < all.len() && (#[trigger] name_score(all[i], token)) is Some ==> best_score(
                all,
                token,
            ) is Some && best_score(all, token)->0 <= name_score(all[i], token)->0,
        best_score(all, token) is Some ==> exists|i: int|
            0 <= i < all.len() && #[trigger] name_score(all[i], token) == best_score(all, token),
    decreases all.len(),
{
    if all.len() > 0 {
        let init = all.drop_last();
        let n = init.len() as int;
        lemma_best_score(init, token);
        assert forall|i: int|
            0 <= i < all.len() && (#[trigger] name_score(all[i], token)) is Some implies best_score(
            all,
            token,
        ) is Some && best_score(all, token)->0 <= name_score(all[i], token)->0 by {
            if i < n {
                assert(init[i] == all[i]);
                assert(name_score(init[i], token) is Some);
            }
        }
        if best_score(all, token) is Some {
            if best_score(all, token) == name_score(all[n], token) {
            } else {
                let i = choose|i: int|
                    0 <= i < init.len() && #[trigger] name_score(init[i], token) == best_score(
                        init,
                        token,
                    );
                assert(all[i] == init[i]);
                assert(name_score(all[i], token) == best_score(all, token));
            }
        }
    }
}

/// A token fits a name of a command best if it is that name, next best if the
/// name begins with it, then if the name holds it, and at all if it can be read
/// off the name by leaving characters out.
pub proof fn law_tokens_fit_names(command: PaletteCommand, token: Seq<char>, i: int)
    requires
        0 <= i < names(command).len(),
    ensures
        ({
            let name = names(command)[i];
            let score = token_score(command, token);
            &&& name == token ==> score == Some(0nat)
            &&& has_prefix(name, token) ==> score is Some && score->0 <= 1
            &&& has_substring(name, token) ==> score is Some && score->0 <= 2
            &&& fuzzy_match(name, token) ==> score is Some && score->0 <= 3
        }),
{
    lemma_best_score(names(command), token);
    let name = names(command)[i];
    assert(name_score(name, token) is Some ==> token_score(command, token) is Some);
}

/// The score of a token tells how the best of the names of a command fits it.
pub proof fn law_scores_tell_the_fit(command: PaletteCommand, token: Seq<char>) -> (i: int)
    requires
        token_score(command, token) is Some,
    ensures
        0 <= i < names(command).len(),
        ({
            let name = names(command)[i];
            let score = token_score(command, token)->0;
            &&& score == 0 ==> name == token
            &&& score == 1 ==> has_prefix(name, token)
            &&& score == 2 ==> has_substring(name, token)
            &&& score == 3 ==> fuzzy_match(name, token)
            &&& score <= 3
        }),
{
    lemma_best_score(names(command), token);
    choose|i: int|
        0 <= i < names(command).len() && #[trigger] name_score(names(command)[i], token)
            == token_score(command, token)
}

/// A query fits a command if every token does; the scores add up, in whatever
/// order the tokens come.
pub proof fn law_every_token_has_to_fit(
    command: PaletteCommand,
    a: Seq<Seq<char>>,
    b: Seq<Seq<char>>,
)
    ensures
        total_score(command, a + b) == match (total_score(command, a), total_score(command, b)) {
            (Some(x), Some(y)) => Some(x + y),
            _ => None,
        },
        total_score(command, a + b) == total_score(command, b + a),
        forall|token: Seq<char>|
            total_score(command, seq![token]) == #[trigger] token_score(command, token),
        total_score(command, Seq::empty()) == Some(0nat),
{
    lemma_totals(command, a, b);
    lemma_totals(command, b, a);
    assert forall|token: Seq<char>| total_score(command, seq![token]) == #[trigger] token_score(
        command,
        token,
    ) by {
        assert(seq![token].drop_last() =~= Seq::<Seq<char>>::empty());
        assert(total_score(command, Seq::<Seq<char>>::empty()) == Some(0nat));
    }
}

proof fn lemma_totals(command: PaletteCommand, a: Seq<Seq<char>>, b: Seq<Seq<char>>)
    ensures
        total_score(command, a + b) == match (total_score(command, a), total_score(command, b)) {
            (Some(x), Some(y)) => Some(x + y),
            _ => None,
        },
    decreases b.len(),
{
    if b.len() == 0 {
        assert(a + b =~= a);
    } else {
        lemma_totals(command, a, b.drop_last());
        assert((a + b).drop_last() =~= a + b.drop_last());
        assert((a + b).last() == b.last());
    }
}

/// Copying and cutting are offered only with a selection, all else always.
pub proof fn law_what_needs_a_selection(command: PaletteCommand, query: Seq<char>)
    ensures
        command is Copy || command is Cut ==> !fitting(query, false).contains(command),
        fitting(query, false).contains(command) ==> fitting(query, true).contains(command),
        !(command is Copy || command is Cut) && fitting(query, true).contains(command)
            ==> fitting(query, false).contains(command),
{
    law_offers_are_complete_and_ranked(query, true);
    law_offers_are_complete_and_ranked(query, false);
}

proof fn lemma_first_named(list: Seq<PaletteCommand>, name: Seq<char>) -> (at: int)
    requires
        list.len() > 0,
    ensures
        0 <= at < list.len(),
        first_named(list, name) == list[at],
        names(list[at]).contains(name) ==> forall|i: int|
            0 <= i < at ==> !names(#[trigger] list[i]).contains(name),
        !names(list[at]).contains(name) ==> at == 0 && forall|i: int|
            0 <= i < list.len() ==> !names(#[trigger] list[i]).contains(name),
    decreases list.len(),
{
    if list.len() == 1 {
        0
    } else {
        let init = list.drop_last();
        let at = lemma_first_named(init, name);
        assert(init[at] == list[at]);
        let n = list.len() - 1;
        assert(forall|i: int| 0 <= i < n ==> #[trigger] list[i] == init[i]);
        if !names(init[at]).contains(name) && names(list[n]).contains(name) {
            n
        } else {
            at
        }
    }
}

/// The highlighted row is run, the last one if there are not so many; without
/// one a number picks the row that it counts to from one, a full name the first
/// command that goes by it, and anything else the first row.
pub proof fn law_choosing_from_the_palette(
    query: Seq<char>,
    selected: Option<usize>,
    has_selection: bool,
)
    ensures
        ({
            let text = trimmed(query);
            let list = fitting(text, has_selection);
            let choice = palette_choice(query, selected, has_selection);
            &&& choice is NoMatch <==> list.len() == 0
            &&& choice is Run ==> list.contains(choice->Run_0)
            &&& list.len() > 0 && selected is Some ==> {
                &&& selected->0 < list.len() ==> choice == PaletteChoice::Run(
                    list[selected->0 as int],
                )
                &&& selected->0 >= list.len() ==> choice == PaletteChoice::Run(list.last())
            }
            &&& list.len() > 0 && selected is None && parsed(text) is Some ==> {
                &&& 1 <= parsed(text)->0 <= list.len() ==> choice == PaletteChoice::Run(
                    list[parsed(text)->0 - 1],
                )
                &&& !(1 <= parsed(text)->0 <= list.len()) ==> choice is OutOfRange
                    && choice->OutOfRange_0 == parsed(text)->0
            }
            &&& list.len() > 0 && selected is None && parsed(text) is None ==> {
                &&& choice is Run
                &&& text.len() == 0 ==> choice->Run_0 == list[0]
                &&& text.len() > 0 ==> forall|i: int|
                    0 <= i < list.len() && names(#[trigger] list[i]).contains(lowered(text)) && (
                    forall|j: int|
                        0 <= j < i ==> !names(#[trigger] list[j]).contains(lowered(text)))
                        ==> choice->Run_0 == list[i]
                &&& text.len() > 0 && (forall|i: int|
                    0 <= i < list.len() ==> !names(#[trigger] list[i]).contains(lowered(text)))
                    ==> choice->Run_0 == list[0]
            }
        }),
{
    let text = trimmed(query);
    let list = fitting(text, has_selection);
    if list.len() > 0 {
        let at = lemma_first_named(list, lowered(text));
        assert(list.contains(list[at]));
        assert(list.contains(list[0]));
        assert(list.contains(list.last()));
    }
}

} // verus!

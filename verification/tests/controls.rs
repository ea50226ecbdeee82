use garedit::buffer::Document;
use garedit::cursor::Position;
use garedit::keys::{action_for, edit_of, motion_of, Action, Key, KeyEvent, Modifiers};
use garedit::command::EditCommand;
use garedit::palette::{
    choose_palette_command, matching_palette_commands, palette_command_available,
    palette_match_score, palette_token_score, PaletteChoice, PaletteCommand,
};
use garedit::prompt::{parse_go_to, GoTo, PendingAction, PromptEvent, PromptKind, PromptState};
use garedit::search::{find_match, find_match_forward, find_match_reverse};

const NONE: Modifiers = Modifiers { ctrl: false, alt: false, shift: false, super_key: false };
const CTRL: Modifiers = Modifiers { ctrl: true, ..NONE };
const ALT: Modifiers = Modifiers { alt: true, ..NONE };
const SHIFT: Modifiers = Modifiers { shift: true, ..NONE };
const CTRL_SHIFT: Modifiers = Modifiers { ctrl: true, shift: true, ..NONE };
const SUPER: Modifiers = Modifiers { super_key: true, ..NONE };

fn press(key: Key, modifiers: Modifiers) -> KeyEvent {
    KeyEvent { key, modifiers, pressed: true }
}

fn action(key: Key, modifiers: Modifiers) -> Action {
    action_for(&press(key, modifiers))
}

#[test]
fn plain_keys() {
    assert_eq!(action(Key::Char('x'), NONE), Action::Insert('x'));
    assert_eq!(action(Key::Char('X'), SHIFT), Action::Insert('X'));
    assert_eq!(action(Key::Space, NONE), Action::Insert(' '));
    assert_eq!(action(Key::Return, NONE), Action::Newline);
    assert_eq!(action(Key::Tab, NONE), Action::InsertTab);
    assert_eq!(action(Key::F3, SHIFT), Action::FindAgain { reverse: true });
    assert_eq!(action(Key::Left, SHIFT), Action::Left { extend: true });
    assert_eq!(action(Key::PageDown, NONE), Action::PageDown { extend: false });
    assert_eq!(action(Key::Other, NONE), Action::Nothing);
}

#[test]
fn ctrl_shortcuts() {
    let expected = [
        ('q', Action::Quit),
        ('t', Action::NewTab),
        ('o', Action::OpenFile),
        ('r', Action::OpenRecent),
        ('s', Action::Save),
        ('g', Action::GoToLine),
        ('a', Action::SelectAll),
        ('e', Action::LineEnd { extend: false }),
        ('b', Action::Left { extend: false }),
        ('f', Action::FindPrompt),
        ('p', Action::Up { extend: false }),
        ('n', Action::Down { extend: false }),
        ('h', Action::Backspace),
        ('d', Action::Delete),
        ('w', Action::DeleteWordBackward),
        ('c', Action::Copy),
        ('x', Action::Cut),
        ('v', Action::Paste),
        ('u', Action::DeleteToLineStart),
        ('k', Action::DeleteToLineEnd),
        ('z', Action::Undo),
        ('y', Action::Redo),
        ('m', Action::Nothing),
    ];
    for (c, wanted) in expected {
        assert_eq!(action(Key::Char(c), CTRL), wanted, "{c}");
        assert_eq!(action(Key::Char(c.to_ascii_uppercase()), CTRL), wanted, "{c}");
    }
    assert_eq!(action(Key::Char('S'), CTRL_SHIFT), Action::SaveAs);
    assert_eq!(action(Key::Char('A'), CTRL_SHIFT), Action::LineStart { extend: false });
    assert_eq!(action(Key::Char('P'), CTRL_SHIFT), Action::CommandPalette);
    assert_eq!(action(Key::Char('Z'), CTRL_SHIFT), Action::Redo);
    assert_eq!(action(Key::Char('e'), CTRL_SHIFT), Action::LineEnd { extend: true });
    assert_eq!(action(Key::Tab, CTRL), Action::SwitchTab { forward: true });
    assert_eq!(action(Key::Tab, CTRL_SHIFT), Action::SwitchTab { forward: false });
    assert_eq!(action(Key::Left, CTRL), Action::WordLeft { extend: false });
    assert_eq!(action(Key::Delete, CTRL), Action::DeleteWordForward);
    assert_eq!(action(Key::Return, CTRL), Action::Newline);
}

#[test]
fn alt_and_super() {
    assert_eq!(action(Key::Char('b'), ALT), Action::WordLeft { extend: false });
    assert_eq!(action(Key::Char('f'), ALT), Action::WordRight { extend: false });
    assert_eq!(action(Key::Char('d'), ALT), Action::DeleteWordForward);
    assert_eq!(action(Key::Backspace, ALT), Action::DeleteWordBackward);
    assert_eq!(action(Key::Char('q'), ALT), Action::Nothing);
    assert_eq!(action(Key::Char('q'), SUPER), Action::Nothing);
    assert_eq!(action(Key::Char('q'), Modifiers { super_key: true, ..CTRL }), Action::Nothing);
    assert_eq!(action(Key::Left, SUPER), Action::Left { extend: false });
}

#[test]
fn actions_and_their_commands() {
    assert_eq!(
        motion_of(Action::PageUp { extend: true }, 7),
        Some((EditCommand::MovePageUp(7), true))
    );
    assert_eq!(motion_of(Action::Undo, 7), None);
    assert_eq!(edit_of(Action::Undo), Some(EditCommand::Undo));
    assert_eq!(edit_of(Action::Insert('a')), Some(EditCommand::InsertChar('a')));
    assert_eq!(edit_of(Action::Quit), None);
}

#[test]
fn palette_names_and_scores() {
    let cmd = PaletteCommand::NextTab;
    assert_eq!(cmd.id(), "next_tab");
    assert_eq!(cmd.label(), "next tab");
    assert_eq!(cmd.aliases(), vec!["tabnext", "tn", "next"]);
    assert_eq!(palette_token_score(cmd, "next"), Some(0));
    assert_eq!(palette_token_score(cmd, "next_"), Some(1));
    assert_eq!(palette_token_score(cmd, "ext"), Some(2));
    assert_eq!(palette_token_score(cmd, "nxt"), Some(3));
    assert_eq!(palette_token_score(cmd, "zzz"), None);
    let tokens = vec!["tab".to_string(), "ext".to_string()];
    assert_eq!(palette_match_score(cmd, &tokens, false), Some(3));
    assert!(!palette_command_available(PaletteCommand::Copy, false));
    assert!(palette_command_available(PaletteCommand::Copy, true));
    assert_eq!(palette_match_score(PaletteCommand::Cut, &vec![], false), None);
}

#[test]
fn palette_offers_are_ranked() {
    let all = matching_palette_commands("  ", true);
    assert_eq!(all.len(), 18);
    assert_eq!(all[0], PaletteCommand::OpenFile);
    assert_eq!(all[14], PaletteCommand::Quit);
    assert_eq!(matching_palette_commands("", false).len(), 16);
    let quit = matching_palette_commands("QUIT", false);
    assert_eq!(quit[0], PaletteCommand::Quit);
    let save = matching_palette_commands("save", false);
    assert_eq!(save[0], PaletteCommand::Save);
    assert!(save.contains(&PaletteCommand::SaveSession));
    assert!(matching_palette_commands("no such thing at all", false).is_empty());
}

#[test]
fn palette_choices() {
    assert_eq!(
        choose_palette_command("zzzz", None, false),
        PaletteChoice::NoMatch
    );
    assert_eq!(
        choose_palette_command("", Some(1), false),
        PaletteChoice::Run(PaletteCommand::OpenRecent)
    );
    assert_eq!(
        choose_palette_command("quit", Some(99), false),
        match matching_palette_commands("quit", false).last() {
            Some(last) => PaletteChoice::Run(*last),
            None => PaletteChoice::NoMatch,
        }
    );
    assert_eq!(
        choose_palette_command("", None, false),
        PaletteChoice::Run(PaletteCommand::OpenFile)
    );
    assert_eq!(
        choose_palette_command("go to line", None, false),
        PaletteChoice::Run(PaletteCommand::GoToLine)
    );
    assert_eq!(
        choose_palette_command("save session", None, false),
        PaletteChoice::Run(PaletteCommand::SaveSession)
    );
    assert_eq!(
        choose_palette_command("restore session", None, false),
        PaletteChoice::Run(PaletteCommand::RestoreSession)
    );
    assert_eq!(
        choose_palette_command("clear session data", None, false),
        PaletteChoice::Run(PaletteCommand::ClearSession)
    );
}

fn typed(prompt: &mut PromptState, text: &str) {
    for c in text.chars() {
        let key = if c == ' ' { Key::Space } else { Key::Char(c) };
        assert!(matches!(prompt.handle_key(&press(key, NONE)), PromptEvent::Stay));
    }
}

#[test]
fn prompts_take_input() {
    let mut prompt = PromptState::open_path();
    typed(&mut prompt, "a bc");
    assert_eq!(prompt.input, "a bc");
    prompt.handle_key(&press(Key::Backspace, NONE));
    assert_eq!(prompt.input, "a b");
    prompt.handle_key(&press(Key::Char('x'), ALT));
    assert_eq!(prompt.input, "a b");
    prompt.handle_key(&press(Key::Char('U'), CTRL));
    assert_eq!(prompt.input, "");
    prompt.handle_key(&press(Key::Backspace, NONE));
    assert_eq!(prompt.input, "");
    assert!(matches!(
        prompt.handle_key(&press(Key::Escape, NONE)),
        PromptEvent::Cancel
    ));
}

#[test]
fn seeded_prompts_are_replaced_by_typing() {
    let mut prompt = PromptState::find_query(Some("old"), true);
    typed(&mut prompt, "n");
    assert_eq!(prompt.input, "n");
    assert!(!prompt.replace_on_type);
    let mut other = PromptState::find_query(Some("old"), true);
    other.handle_key(&press(Key::Backspace, NONE));
    assert_eq!(other.input, "");
    let seeded = PromptState::save_as_path(Some("/a"));
    assert_eq!(seeded.input, "/a");
    assert_eq!(PromptState::go_to_line(12).input, "12");
}

#[test]
fn prompts_hand_in_trimmed_input() {
    let mut prompt = PromptState::find_query(None, false);
    typed(&mut prompt, " ab ");
    match prompt.handle_key(&press(Key::Return, SHIFT)) {
        PromptEvent::Submit { kind, input, reverse, selected } => {
            assert_eq!(kind, PromptKind::FindQuery);
            assert_eq!(input, "ab");
            assert!(reverse);
            assert_eq!(selected, None);
        }
        _ => panic!("not submitted"),
    }
}

#[test]
fn palette_prompt_moves_rows() {
    let mut prompt = PromptState::command_palette();
    let moves = [
        (press(Key::Up, NONE), false),
        (press(Key::Down, NONE), true),
        (press(Key::Tab, NONE), true),
        (press(Key::Tab, SHIFT), false),
        (press(Key::Char('n'), CTRL), true),
        (press(Key::Char('p'), CTRL), false),
    ];
    for (event, wanted) in moves {
        match prompt.handle_key(&event) {
            PromptEvent::MoveRow { forward } => assert_eq!(forward, wanted),
            _ => panic!("row not moved"),
        }
    }
    prompt.selection_index = 3;
    typed(&mut prompt, "q");
    assert_eq!(prompt.selection_index, 0);
}

#[test]
fn questions_take_a_clear_answer() {
    for (key, yes, no) in [
        (Key::Return, true, false),
        (Key::Char('y'), true, false),
        (Key::Char('Y'), true, false),
        (Key::Escape, false, true),
        (Key::Char('n'), false, true),
        (Key::Char('N'), false, true),
        (Key::Char('x'), false, false),
        (Key::Space, false, false),
    ] {
        let mut prompt = PromptState::confirm_discard(PendingAction::Quit);
        let event = prompt.handle_key(&press(key, NONE));
        assert_eq!(matches!(event, PromptEvent::Confirm { .. }), yes);
        assert_eq!(matches!(event, PromptEvent::Decline), no);
    }
}

#[test]
fn lines_and_columns_are_read() {
    assert!(matches!(parse_go_to(""), GoTo::Empty));
    assert!(matches!(parse_go_to("12"), GoTo::At { line: 12, column: 1 }));
    assert!(matches!(parse_go_to("12:"), GoTo::At { line: 12, column: 1 }));
    assert!(matches!(parse_go_to(" 3 : 4 "), GoTo::At { line: 3, column: 4 }));
    match parse_go_to("0") {
        GoTo::InvalidLine(text) => assert_eq!(text, "0"),
        _ => panic!("line zero"),
    }
    match parse_go_to("x:1") {
        GoTo::InvalidLine(text) => assert_eq!(text, "x"),
        _ => panic!("no line"),
    }
    match parse_go_to("2:3:4") {
        GoTo::InvalidColumn(text) => assert_eq!(text, "3:4"),
        _ => panic!("no column"),
    }
}

#[test]
fn searching_goes_round() {
    let doc = Document::from_text("abc\nxabc\nab");
    let first = find_match_forward(&doc, "ab", Position::origin()).unwrap();
    assert_eq!((first.start, first.end), (Position::new(0, 0), Position::new(0, 2)));
    let second = find_match_forward(&doc, "ab", first.end).unwrap();
    assert_eq!(second.start, Position::new(1, 1));
    assert!(find_match_forward(&doc, "ab", Position::new(2, 1)).is_none());
    let round = find_match(&doc, "ab", Position::new(2, 1), false).unwrap();
    assert_eq!(round.start, Position::origin());
    let back = find_match_reverse(&doc, "ab", Position::new(2, 1)).unwrap();
    assert_eq!(back.start, Position::new(1, 1));
    assert!(find_match_reverse(&doc, "ab", Position::new(0, 1)).is_none());
    let last = find_match(&doc, "ab", Position::new(0, 1), true).unwrap();
    assert_eq!(last.start, Position::new(2, 0));
    assert!(find_match(&doc, "zz", Position::origin(), false).is_none());
    assert!(find_match(&doc, "", Position::origin(), false).is_none());
}

#[test]
fn searching_counts_columns_in_chars() {
    let doc = Document::from_text("ääb");
    let hit = find_match_forward(&doc, "b", Position::origin()).unwrap();
    assert_eq!(hit.start, Position::new(0, 2));
    assert_eq!(hit.end, Position::new(0, 3));
}

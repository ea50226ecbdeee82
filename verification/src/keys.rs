//! Keys and what they are bound to.
use crate::chars::to_lower;
#[allow(unused_imports)]
use crate::chars::lower;
use crate::command::EditCommand;
use vstd::prelude::*;

verus! {

/// A key of the keyboard.
#[derive(Debug, Clone, Copy, PartialEq, Eq, Structural)]
pub enum Key {
    Escape,
    Return,
    Backspace,
    Delete,
    Left,
    Right,
    Up,
    Down,
    Home,
    End,
    PageUp,
    PageDown,
    F3,
    Tab,
    Space,
    Char(char),
    Other,
}

/// The modifier keys held down.
#[derive(Debug, Clone, Copy, PartialEq, Eq, Structural)]
pub struct Modifiers {
    pub ctrl: bool,
    pub alt: bool,
    pub shift: bool,
    pub super_key: bool,
}

/// A key that was pressed or released.
#[derive(Debug, Clone, Copy, PartialEq, Eq, Structural)]
pub struct KeyEvent {
    pub key: Key,
    pub modifiers: Modifiers,
    pub pressed: bool,
}

/// What a key asks the editor to do.
#[derive(Debug, Clone, Copy, PartialEq, Eq, Structural)]
pub enum Action {
    Nothing,
    Escape,
    Quit,
    Insert(char),
    InsertTab,
    Newline,
    Backspace,
    Delete,
    DeleteWordBackward,
    DeleteWordForward,
    DeleteToLineStart,
    DeleteToLineEnd,
    Undo,
    Redo,
    Left { extend: bool },
    Right { extend: bool },
    Up { extend: bool },
    Down { extend: bool },
    WordLeft { extend: bool },
    WordRight { extend: bool },
    LineStart { extend: bool },
    LineEnd { extend: bool },
    PageUp { extend: bool },
    PageDown { extend: bool },
    SelectAll,
    NewTab,
    SwitchTab { forward: bool },
    OpenFile,
    OpenRecent,
    Save,
    SaveAs,
    GoToLine,
    FindPrompt,
    FindAgain { reverse: bool },
    CommandPalette,
    Copy,
    Cut,
    Paste,
}

/// The shortcuts with Ctrl and neither Alt nor Super.
pub open spec fn ctrl_binding(event: KeyEvent) -> Option<Action> {
    let shift = event.modifiers.shift;
    if !event.modifiers.ctrl || event.modifiers.alt || event.modifiers.super_key {
        None
    } else {
        match event.key {
            Key::Tab => Some(Action::SwitchTab { forward: !shift }),
            Key::Left => Some(Action::WordLeft { extend: shift }),
            Key::Right => Some(Action::WordRight { extend: shift }),
            Key::Backspace => Some(Action::DeleteWordBackward),
            Key::Delete => Some(Action::DeleteWordForward),
            Key::Char(c) => {
                let k = lower(c);
                if k == 'q' {
                    Some(Action::Quit)
                } else if k == 't' {
                    Some(Action::NewTab)
                } else if k == 'o' {
                    Some(Action::OpenFile)
                } else if k == 'r' {
                    Some(Action::OpenRecent)
                } else if k == 's' {
                    Some(
                        if shift {
                            Action::SaveAs
                        } else {
                            Action::Save
                        },
                    )
                } else if k == 'g' {
                    Some(Action::GoToLine)
                } else if k == 'a' {
                    Some(
                        if shift {
                            Action::LineStart { extend: false }
                        } else {
                            Action::SelectAll
                        },
                    )
                } else if k == 'e' {
                    Some(Action::LineEnd { extend: shift })
                } else if k == 'b' {
                    Some(Action::Left { extend: shift })
                } else if k == 'f' {
                    Some(Action::FindPrompt)
                } else if k == 'p' {
                    Some(
                        if shift {
                            Action::CommandPalette
                        } else {
                            Action::Up { extend: false }
                        },
                    )
                } else if k == 'n' {
                    Some(Action::Down { extend: shift })
                } else if k == 'h' {
                    Some(Action::Backspace)
                } else if k == 'd' {
                    Some(Action::Delete)
                } else if k == 'w' {
                    Some(Action::DeleteWordBackward)
                } else if k == 'c' {
                    Some(Action::Copy)
                } else if k == 'x' {
                    Some(Action::Cut)
                } else if k == 'v' {
                    Some(Action::Paste)
                } else if k == 'u' {
                    Some(Action::DeleteToLineStart)
                } else if k == 'k' {
                    Some(Action::DeleteToLineEnd)
                } else if k == 'z' {
                    Some(
                        if shift {
                            Action::Redo
                        } else {
                            Action::Undo
                        },
                    )
                } else if k == 'y' {
                    Some(Action::Redo)
                } else {
                    None
                }
            },
            _ => None,
        }
    }
}

/// The shortcuts with Alt and neither Ctrl nor Super.
pub open spec fn alt_binding(event: KeyEvent) -> Option<Action> {
    let shift = event.modifiers.shift;
    if !event.modifiers.alt || event.modifiers.ctrl || event.modifiers.super_key {
        None
    } else {
        match event.key {
            Key::Left => Some(Action::WordLeft { extend: shift }),
            Key::Right => Some(Action::WordRight { extend: shift }),
            Key::Backspace => Some(Action::DeleteWordBackward),
            Key::Delete => Some(Action::DeleteWordForward),
            Key::Char(c) => {
                let k = lower(c);
                if k == 'b' {
                    Some(Action::WordLeft { extend: shift })
                } else if k == 'f' {
                    Some(Action::WordRight { extend: shift })
                } else if k == 'd' {
                    Some(Action::DeleteWordForward)
                } else {
                    None
                }
            },
            _ => None,
        }
    }
}

/// What a key does when it is no shortcut.
pub open spec fn plain_binding(event: KeyEvent) -> Action {
    let shift = event.modifiers.shift;
    match event.key {
        Key::Escape => Action::Escape,
        Key::Return => Action::Newline,
        Key::Backspace => Action::Backspace,
        Key::Delete => Action::Delete,
        Key::Left => Action::Left { extend: shift },
        Key::Right => Action::Right { extend: shift },
        Key::Up => Action::Up { extend: shift },
        Key::Down => Action::Down { extend: shift },
        Key::Home => Action::LineStart { extend: shift },
        Key::End => Action::LineEnd { extend: shift },
        Key::PageUp => Action::PageUp { extend: shift },
        Key::PageDown => Action::PageDown { extend: shift },
        Key::F3 => Action::FindAgain { reverse: shift },
        Key::Tab => Action::InsertTab,
        Key::Space => Action::Insert(' '),
        Key::Char(c) => if event.modifiers.ctrl || event.modifiers.alt
            || event.modifiers.super_key {
            Action::Nothing
        } else {
            Action::Insert(c)
        },
        Key::Other => Action::Nothing,
    }
}

/// What a key is bound to: shortcuts first.
pub open spec fn binding(event: KeyEvent) -> Action {
    match ctrl_binding(event) {
        Some(action) => action,
        None => match alt_binding(event) {
            Some(action) => action,
            None => plain_binding(event),
        },
    }
}

fn ctrl_shortcut(event: &KeyEvent) -> (out: Option<Action>)
    ensures
        out == ctrl_binding(*event),
{
    if !event.modifiers.ctrl || event.modifiers.alt || event.modifiers.super_key {
        return None;
    }
    let shift = event.modifiers.shift;
    match event.key {
        Key::Tab => Some(Action::SwitchTab { forward: !shift }),
        Key::Left => Some(Action::WordLeft { extend: shift }),
        Key::Right => Some(Action::WordRight { extend: shift }),
        Key::Backspace => Some(Action::DeleteWordBackward),
        Key::Delete => Some(Action::DeleteWordForward),
        Key::Char(c) => match to_lower(c) {
            'q' => Some(Action::Quit),
            't' => Some(Action::NewTab),
            'o' => Some(Action::OpenFile),
            'r' => Some(Action::OpenRecent),
            's' => Some(
                if shift {
                    Action::SaveAs
                } else {
                    Action::Save
                },
            ),
            'g' => Some(Action::GoToLine),
            'a' => Some(
                if shift {
                    Action::LineStart { extend: false }
                } else {
                    Action::SelectAll
                },
            ),
            'e' => Some(Action::LineEnd { extend: shift }),
            'b' => Some(Action::Left { extend: shift }),
            'f' => Some(Action::FindPrompt),
            'p' => Some(
                if shift {
                    Action::CommandPalette
                } else {
                    Action::Up { extend: shift }
                },
            ),
            'n' => Some(Action::Down { extend: shift }),
            'h' => Some(Action::Backspace),
            'd' => Some(Action::Delete),
            'w' => Some(Action::DeleteWordBackward),
            'c' => Some(Action::Copy),
            'x' => Some(Action::Cut),
            'v' => Some(Action::Paste),
            'u' => Some(Action::DeleteToLineStart),
            'k' => Some(Action::DeleteToLineEnd),
            'z' => Some(
                if shift {
                    Action::Redo
                } else {
                    Action::Undo
                },
            ),
            'y' => Some(Action::Redo),
            _ => None,
        },
        _ => None,
    }
}

fn alt_shortcut(event: &KeyEvent) -> (out: Option<Action>)
    ensures
        out == alt_binding(*event),
{
    if !event.modifiers.alt || event.modifiers.ctrl || event.modifiers.super_key {
        return None;
    }
    let shift = event.modifiers.shift;
    match event.key {
        Key::Left => Some(Action::WordLeft { extend: shift }),
        Key::Right => Some(Action::WordRight { extend: shift }),
        Key::Backspace => Some(Action::DeleteWordBackward),
        Key::Delete => Some(Action::DeleteWordForward),
        Key::Char(c) => match to_lower(c) {
            'b' => Some(Action::WordLeft { extend: shift }),
            'f' => Some(Action::WordRight { extend: shift }),
            'd' => Some(Action::DeleteWordForward),
            _ => None,
        },
        _ => None,
    }
}

fn plain_key(event: &KeyEvent) -> (out: Action)
    ensures
        out == plain_binding(*event),
{
    let shift = event.modifiers.shift;
    match event.key {
        Key::Escape => Action::Escape,
        Key::Return => Action::Newline,
        Key::Backspace => Action::Backspace,
        Key::Delete => Action::Delete,
        Key::Left => Action::Left { extend: shift },
        Key::Right => Action::Right { extend: shift },
        Key::Up => Action::Up { extend: shift },
        Key::Down => Action::Down { extend: shift },
        Key::Home => Action::LineStart { extend: shift },
        Key::End => Action::LineEnd { extend: shift },
        Key::PageUp => Action::PageUp { extend: shift },
        Key::PageDown => Action::PageDown { extend: shift },
        Key::F3 => Action::FindAgain { reverse: shift },
        Key::Tab => Action::InsertTab,
        Key::Space => Action::Insert(' '),
        Key::Char(c) => {
            if event.modifiers.ctrl || event.modifiers.alt || event.modifiers.super_key {
                Action::Nothing
            } else {
                Action::Insert(c)
            }
        },
        Key::Other => Action::Nothing,
    }
}

/// What a key is bound to.
pub fn action_for(event: &KeyEvent) -> (out: Action)
    ensures
        out == binding(*event),
{
    match ctrl_shortcut(event) {
        Some(action) => action,
        None => match alt_shortcut(event) {
            Some(action) => action,
            None => plain_key(event),
        },
    }
}

/// The moving command of an action, with whether it extends the selection.
/// `page` is the number of lines of a page step.
pub open spec fn motion(action: Action, page: usize) -> Option<(EditCommand, bool)> {
    match action {
        Action::Left { extend } => Some((EditCommand::MoveLeft, extend)),
        Action::Right { extend } => Some((EditCommand::MoveRight, extend)),
        Action::Up { extend } => Some((EditCommand::MoveUp, extend)),
        Action::Down { extend } => Some((EditCommand::MoveDown, extend)),
        Action::WordLeft { extend } => Some((EditCommand::MoveWordLeft, extend)),
        Action::WordRight { extend } => Some((EditCommand::MoveWordRight, extend)),
        Action::LineStart { extend } => Some((EditCommand::MoveLineStart, extend)),
        Action::LineEnd { extend } => Some((EditCommand::MoveLineEnd, extend)),
        Action::PageUp { extend } => Some((EditCommand::MovePageUp(page), extend)),
        Action::PageDown { extend } => Some((EditCommand::MovePageDown(page), extend)),
        _ => None,
    }
}

/// The moving command of an action.
pub fn motion_of(action: Action, page: usize) -> (out: Option<(EditCommand, bool)>)
    ensures
        out == motion(action, page),
{
    match action {
        Action::Left { extend } => Some((EditCommand::MoveLeft, extend)),
        Action::Right { extend } => Some((EditCommand::MoveRight, extend)),
        Action::Up { extend } => Some((EditCommand::MoveUp, extend)),
        Action::Down { extend } => Some((EditCommand::MoveDown, extend)),
        Action::WordLeft { extend } => Some((EditCommand::MoveWordLeft, extend)),
        Action::WordRight { extend } => Some((EditCommand::MoveWordRight, extend)),
        Action::LineStart { extend } => Some((EditCommand::MoveLineStart, extend)),
        Action::LineEnd { extend } => Some((EditCommand::MoveLineEnd, extend)),
        Action::PageUp { extend } => Some((EditCommand::MovePageUp(page), extend)),
        Action::PageDown { extend } => Some((EditCommand::MovePageDown(page), extend)),
        _ => None,
    }
}

/// The editing command of an action that needs no more than the document.
pub open spec fn edit(action: Action) -> Option<EditCommand> {
    match action {
        Action::Insert(c) => Some(EditCommand::InsertChar(c)),
        Action::Newline => Some(EditCommand::Newline),
        Action::Backspace => Some(EditCommand::Backspace),
        Action::Delete => Some(EditCommand::Delete),
        Action::DeleteWordBackward => Some(EditCommand::DeleteWordBackward),
        Action::DeleteWordForward => Some(EditCommand::DeleteWordForward),
        Action::Undo => Some(EditCommand::Undo),
        Action::Redo => Some(EditCommand::Redo),
        _ => None,
    }
}

/// The editing command of an action that needs no more than the document.
pub fn edit_of(action: Action) -> (out: Option<EditCommand>)
    ensures
        out == edit(action),
{
    match action {
        Action::Insert(c) => Some(EditCommand::InsertChar(c)),
        Action::Newline => Some(EditCommand::Newline),
        Action::Backspace => Some(EditCommand::Backspace),
        Action::Delete => Some(EditCommand::Delete),
        Action::DeleteWordBackward => Some(EditCommand::DeleteWordBackward),
        Action::DeleteWordForward => Some(EditCommand::DeleteWordForward),
        Action::Undo => Some(EditCommand::Undo),
        Action::Redo => Some(EditCommand::Redo),
        _ => None,
    }
}

/// A character is typed only when no modifier but Shift is held.
pub proof fn law_modified_keys_type_nothing(event: KeyEvent, c: char)
    requires
        event.key is Char,
        event.modifiers.ctrl || event.modifiers.alt || event.modifiers.super_key,
    ensures
        binding(event) != Action::Insert(c),
{
}

/// With Super held there are no shortcuts.
pub proof fn law_super_disables_shortcuts(event: KeyEvent)
    requires
        event.modifiers.super_key,
    ensures
        binding(event) == plain_binding(event),
{
}

/// With Ctrl or Alt held it makes no difference whether a letter is upper or
/// lower case.
pub proof fn law_shortcuts_ignore_case(a: char, b: char, modifiers: Modifiers)
    requires
        lower(a) == lower(b),
        modifiers.ctrl || modifiers.alt,
    ensures
        binding(KeyEvent { key: Key::Char(a), modifiers, pressed: true }) == binding(
            KeyEvent { key: Key::Char(b), modifiers, pressed: true },
        ),
{
}

/// What is typed without Ctrl, Alt and Super is inserted as it is.
pub proof fn law_plain_characters_are_typed(c: char, event: KeyEvent)
    requires
        !event.modifiers.ctrl && !event.modifiers.alt && !event.modifiers.super_key,
    ensures
        event.key == Key::Char(c) ==> binding(event) == Action::Insert(c),
        event.key == Key::Space ==> binding(event) == Action::Insert(' '),
        event.key == Key::Return ==> binding(event) == Action::Newline,
        event.key == Key::Tab ==> binding(event) == Action::InsertTab,
        event.key == Key::Backspace ==> binding(event) == Action::Backspace,
        event.key == Key::Delete ==> binding(event) == Action::Delete,
        event.key == Key::Escape ==> binding(event) == Action::Escape,
        event.key == Key::F3 ==> binding(event) == (Action::FindAgain {
            reverse: event.modifiers.shift,
        }),
{
}

/// The keys for moving move as their names say, and Shift extends the
/// selection; with Ctrl or Alt the arrows to the sides go by words.
pub proof fn law_moving_keys(event: KeyEvent, page: usize)
    requires
        !event.modifiers.super_key,
        !(event.modifiers.ctrl && event.modifiers.alt),
    ensures
        ({
            let by_words = event.modifiers.ctrl || event.modifiers.alt;
            let extend = event.modifiers.shift;
            let moved = motion(binding(event), page);
            &&& event.key is Left && !by_words ==> moved == Some((EditCommand::MoveLeft, extend))
            &&& event.key is Left && by_words ==> moved == Some(
                (EditCommand::MoveWordLeft, extend),
            )
            &&& event.key is Right && !by_words ==> moved == Some((EditCommand::MoveRight, extend))
            &&& event.key is Right && by_words ==> moved == Some(
                (EditCommand::MoveWordRight, extend),
            )
            &&& event.key is Up ==> moved == Some((EditCommand::MoveUp, extend))
            &&& event.key is Down ==> moved == Some((EditCommand::MoveDown, extend))
            &&& event.key is Home ==> moved == Some((EditCommand::MoveLineStart, extend))
            &&& event.key is End ==> moved == Some((EditCommand::MoveLineEnd, extend))
            &&& event.key is PageUp ==> moved == Some((EditCommand::MovePageUp(page), extend))
            &&& event.key is PageDown ==> moved == Some((EditCommand::MovePageDown(page), extend))
        }),
{
}

/// The letters that stand for keys of their own do what those keys do.
pub proof fn law_letters_stand_for_keys(c: char, shift: bool)
    ensures
        ({
            let none = Modifiers { ctrl: false, alt: false, shift, super_key: false };
            let ctrl = Modifiers { ctrl: true, ..none };
            let alt = Modifiers { alt: true, ..none };
            let does = |key: Key, modifiers: Modifiers|
                binding(KeyEvent { key, modifiers, pressed: true });
            let k = lower(c);
            &&& k == 'h' ==> does(Key::Char(c), ctrl) == does(Key::Backspace, none)
            &&& k == 'd' ==> does(Key::Char(c), ctrl) == does(Key::Delete, none)
            &&& k == 'w' ==> does(Key::Char(c), ctrl) == does(Key::Backspace, ctrl)
            &&& k == 'd' ==> does(Key::Char(c), alt) == does(Key::Delete, alt)
            &&& k == 'b' ==> does(Key::Char(c), ctrl) == does(Key::Left, none)
            &&& k == 'n' ==> does(Key::Char(c), ctrl) == does(Key::Down, none)
            &&& k == 'p' && !shift ==> does(Key::Char(c), ctrl) == does(Key::Up, none)
            &&& k == 'e' ==> does(Key::Char(c), ctrl) == does(Key::End, none)
            &&& k == 'b' ==> does(Key::Char(c), alt) == does(Key::Left, ctrl)
            &&& k == 'f' ==> does(Key::Char(c), alt) == does(Key::Right, ctrl)
            &&& does(Key::Backspace, alt) == does(Key::Backspace, ctrl)
            &&& does(Key::Delete, alt) == does(Key::Delete, ctrl)
            &&& does(Key::Backspace, ctrl) == Action::DeleteWordBackward
            &&& does(Key::Delete, ctrl) == Action::DeleteWordForward
            &&& does(Key::Tab, ctrl) == (Action::SwitchTab { forward: !shift })
        }),
{
}

/// The letters with Ctrl that open, save, search, edit and leave.
pub proof fn law_letters_with_ctrl(event: KeyEvent, c: char)
    requires
        event.key == Key::Char(c),
        event.modifiers.ctrl && !event.modifiers.alt && !event.modifiers.super_key,
    ensures
        ({
            let k = lower(c);
            let shift = event.modifiers.shift;
            &&& k == 'q' <==> binding(event) is Quit
            &&& k == 't' <==> binding(event) is NewTab
            &&& k == 'o' <==> binding(event) is OpenFile
            &&& k == 'r' <==> binding(event) is OpenRecent
            &&& k == 's' && !shift <==> binding(event) is Save
            &&& k == 's' && shift <==> binding(event) is SaveAs
            &&& k == 'g' <==> binding(event) is GoToLine
            &&& k == 'f' <==> binding(event) is FindPrompt
            &&& k == 'p' && shift <==> binding(event) is CommandPalette
            &&& k == 'a' && !shift <==> binding(event) is SelectAll
            &&& k == 'a' && shift <==> binding(event) is LineStart
            &&& k == 'c' <==> binding(event) is Copy
            &&& k == 'x' <==> binding(event) is Cut
            &&& k == 'v' <==> binding(event) is Paste
            &&& k == 'u' <==> binding(event) is DeleteToLineStart
            &&& k == 'k' <==> binding(event) is DeleteToLineEnd
            &&& k == 'z' && !shift <==> binding(event) is Undo
            &&& k == 'y' || (k == 'z' && shift) <==> binding(event) is Redo
        }),
{
}

} // verus!

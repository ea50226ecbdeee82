use garedit::buffer::Document;
use garedit::cursor::Position;
use garedit::editor::{
    open_or_create_document, selected_text, window_response, Context, Editor, Effect, RemoteStep,
    Startup,
};
use garedit::ipc::{Command, Response, ResponseData};
use garedit::keys::{Key, KeyEvent, Modifiers};
use garedit::prompt::PromptKind;
use garedit::session::{
    autosave_due, effective_interval, restores_session, session_of, stale_autosaves, Autosave, SessionCheck,
    SessionSnapshot, SessionTabSnapshot, TabSource, DEFAULT_AUTOSAVE_INTERVAL,
};
use garedit::state::{InputEvent, Notice, WindowPurpose};

const NONE: Modifiers = Modifiers { ctrl: false, alt: false, shift: false, super_key: false };
const CTRL: Modifiers = Modifiers { ctrl: true, ..NONE };
const SHIFT: Modifiers = Modifiers { shift: true, ..NONE };
const CTRL_SHIFT: Modifiers = Modifiers { ctrl: true, shift: true, ..NONE };

fn context() -> Context {
    Context {
        home: Some("/home/u".to_string()),
        cwd: Some("/work".to_string()),
        visible_lines: 10,
        clipboard: 11,
        primary: 12,
    }
}

fn scratch() -> Editor {
    Editor::start(Startup::Scratch, 4, false)
}

fn with_file(path: &str, raw: &str) -> Editor {
    let document = open_or_create_document(path, Some(raw));
    Editor::start(
        Startup::Opened { path: path.to_string(), document, existed: true },
        4,
        false,
    )
}

fn key(editor: &mut Editor, key: Key, modifiers: Modifiers) -> Effect {
    let event = KeyEvent { key, modifiers, pressed: true };
    editor.handle_event(InputEvent::Key(event), &context()).effect
}

fn type_text(editor: &mut Editor, text: &str) {
    for c in text.chars() {
        let k = match c {
            '\n' => Key::Return,
            ' ' => Key::Space,
            _ => Key::Char(c),
        };
        assert!(matches!(key(editor, k, NONE), Effect::Nothing));
    }
}

fn status(editor: &Editor) -> String {
    editor.status_message().unwrap_or("").to_string()
}

fn text(editor: &Editor) -> String {
    editor.document().to_text()
}

#[test]
fn starts_with_a_scratch_buffer() {
    let editor = scratch();
    assert_eq!(status(&editor), "scratch buffer");
    assert_eq!(editor.tabs().len(), 1);
    assert!(editor.window_visible());
    let hidden = Editor::start(Startup::Failed { error: "no".to_string() }, 0, true);
    assert_eq!(status(&hidden), "open failed: no");
    assert!(!hidden.window_visible());
    assert_eq!(status(&with_file("/a.txt", "x")), "opened /a.txt");
}

#[test]
fn start_goes_where_it_is_sent() {
    let mut editor = with_file("/a.txt", "one\ntwo\nthree");
    editor.finish_start(Some(2), Some(99), 10);
    assert_eq!(editor.document().cursor(), Position::new(1, 3));
    assert_eq!(editor.recent_files(), &vec!["/a.txt".to_string()]);
    let mut missing = Editor::start(
        Startup::Opened {
            path: "/n".to_string(),
            document: open_or_create_document("/n", None),
            existed: false,
        },
        4,
        false,
    );
    assert_eq!(status(&missing), "new file /n");
    missing.finish_start(None, None, 10);
    assert_eq!(missing.document().path(), Some("/n"));
}

#[test]
fn typing_and_tabs() {
    let mut editor = scratch();
    type_text(&mut editor, "ab\nc");
    key(&mut editor, Key::Tab, NONE);
    assert_eq!(text(&editor), "ab\nc    ");
    key(&mut editor, Key::Char('z'), CTRL);
    assert_eq!(text(&editor), "ab\nc");
    key(&mut editor, Key::Char('Z'), CTRL_SHIFT);
    assert_eq!(text(&editor), "ab\nc    ");
}

#[test]
fn tabs_keep_their_documents() {
    let mut editor = scratch();
    type_text(&mut editor, "first");
    key(&mut editor, Key::Char('t'), CTRL);
    assert_eq!(status(&editor), "new tab");
    type_text(&mut editor, "second");
    key(&mut editor, Key::Tab, CTRL);
    assert_eq!(text(&editor), "first");
    assert_eq!(status(&editor), "tab 1/2");
    key(&mut editor, Key::Tab, CTRL_SHIFT);
    assert_eq!(text(&editor), "second");
    assert_eq!(status(&editor), "tab 2/2");
    assert_eq!(editor.tab_title(0), "[scratch] *");
    editor.handle_event(InputEvent::PressTab { index: 0 }, &context());
    assert_eq!(editor.active_tab(), 0);
    editor.handle_event(InputEvent::PressTab { index: 9 }, &context());
    assert_eq!(editor.active_tab(), 0);
}

#[test]
fn unsaved_changes_need_consent() {
    let mut editor = scratch();
    type_text(&mut editor, "x");
    key(&mut editor, Key::Char('q'), CTRL);
    assert!(!editor.should_quit());
    assert_eq!(editor.status_bar_left(), "unsaved changes: discard and quit? [y/N]");
    key(&mut editor, Key::Char('n'), NONE);
    assert!(!editor.should_quit());
    assert_eq!(status(&editor), "cancelled");
    editor.handle_event(InputEvent::CloseRequested, &context());
    key(&mut editor, Key::Return, NONE);
    assert!(editor.should_quit());
    let mut clean = scratch();
    key(&mut clean, Key::Escape, NONE);
    assert!(clean.should_quit());
}

#[test]
fn unsaved_changes_in_another_tab_count() {
    let mut editor = scratch();
    type_text(&mut editor, "x");
    key(&mut editor, Key::Char('t'), CTRL);
    assert!(editor.has_unsaved_changes());
    key(&mut editor, Key::Char('q'), CTRL);
    assert!(!editor.should_quit());
}

#[test]
fn moving_drops_or_extends_the_selection() {
    let mut editor = with_file("/a", "hello world");
    key(&mut editor, Key::Right, SHIFT);
    key(&mut editor, Key::Right, SHIFT);
    assert_eq!(selected_text(editor.document()), Some("he".to_string()));
    key(&mut editor, Key::Left, NONE);
    assert_eq!(editor.document().cursor(), Position::origin());
    assert_eq!(editor.document().selection(), None);
    key(&mut editor, Key::End, SHIFT);
    key(&mut editor, Key::Right, NONE);
    assert_eq!(editor.document().cursor(), Position::new(0, 11));
    key(&mut editor, Key::Char('a'), CTRL);
    assert_eq!(selected_text(editor.document()), Some("hello world".to_string()));
    key(&mut editor, Key::Escape, NONE);
    assert_eq!(editor.document().selection(), None);
    assert!(!editor.should_quit());
    key(&mut editor, Key::Right, SHIFT);
    assert_eq!(editor.document().selection(), None);
}

#[test]
fn lines_are_cut_to_their_ends() {
    let mut editor = with_file("/a", "one\ntwo three");
    editor.jump_to_position(Some(2), Some(5), 10);
    key(&mut editor, Key::Char('k'), CTRL);
    assert_eq!(text(&editor), "one\ntwo ");
    key(&mut editor, Key::Char('u'), CTRL);
    assert_eq!(text(&editor), "one\n");
    key(&mut editor, Key::Char('u'), CTRL);
    assert_eq!(text(&editor), "one");
    editor.jump_to_position(None, None, 10);
    key(&mut editor, Key::Char('u'), CTRL);
    assert_eq!(text(&editor), "one");
}

#[test]
fn selected_text_spans_lines() {
    let mut editor = with_file("/a", "one\ntwo\nthree");
    key(&mut editor, Key::Char('a'), CTRL);
    assert_eq!(selected_text(editor.document()), Some("one\ntwo\nthree".to_string()));
    assert_eq!(selected_text(&Document::new()), None);
}

#[test]
fn the_cursor_stays_in_sight() {
    let raw: Vec<String> = (0..50).map(|i| format!("line {i}")).collect();
    let mut editor = with_file("/a", &raw.join("\n"));
    for _ in 0..30 {
        key(&mut editor, Key::Down, NONE);
    }
    assert_eq!(editor.viewport_top_line(), 21);
    editor.handle_event(InputEvent::Scroll { delta_y: -1 }, &context());
    assert_eq!(editor.viewport_top_line(), 20);
    editor.handle_event(InputEvent::Scroll { delta_y: 0 }, &context());
    assert_eq!(editor.viewport_top_line(), 20);
    editor.scroll(1, 60);
    assert_eq!(editor.viewport_top_line(), 0);
    key(&mut editor, Key::PageDown, NONE);
    assert_eq!(editor.document().cursor().line, 39);
    assert_eq!(editor.viewport_top_line(), 30);
    editor.jump_to_position(Some(1), None, 10);
    assert_eq!(editor.viewport_top_line(), 0);
}

fn submit(editor: &mut Editor, input: &str) -> Effect {
    type_text(editor, input);
    key(editor, Key::Return, NONE)
}

#[test]
fn files_are_opened_once() {
    let mut editor = with_file("/work/a.txt", "x");
    key(&mut editor, Key::Char('o'), CTRL);
    match submit(&mut editor, "b.txt") {
        Effect::Open { path } => assert_eq!(path, "/work/b.txt"),
        other => panic!("{other:?}"),
    }
    let document = open_or_create_document("/work/b.txt", None);
    editor.finish_open("/work/b.txt", document, false);
    assert_eq!(status(&editor), "new file /work/b.txt");
    assert_eq!(editor.tabs().len(), 2);
    key(&mut editor, Key::Char('o'), CTRL);
    assert!(matches!(submit(&mut editor, "./a.txt"), Effect::Nothing));
    assert_eq!(editor.active_tab(), 0);
    assert_eq!(status(&editor), "switched to /work/./a.txt");
    key(&mut editor, Key::Char('o'), CTRL);
    assert!(matches!(submit(&mut editor, ""), Effect::Nothing));
    assert_eq!(status(&editor), "path is empty");
    editor.fail_open("denied");
    assert_eq!(status(&editor), "open failed: denied");
}

#[test]
fn files_are_saved() {
    let mut editor = scratch();
    type_text(&mut editor, "x");
    assert!(matches!(key(&mut editor, Key::Char('s'), CTRL), Effect::Nothing));
    match submit(&mut editor, "~/n.txt") {
        Effect::Save { path, text } => {
            assert_eq!(path, "/home/u/n.txt");
            assert_eq!(text, "x");
        }
        other => panic!("{other:?}"),
    }
    editor.finish_save("/home/u/n.txt", Some("disk full"));
    assert_eq!(status(&editor), "save failed: disk full");
    assert!(editor.has_unsaved_changes());
    editor.finish_save("/home/u/n.txt", None);
    assert_eq!(status(&editor), "saved /home/u/n.txt");
    assert!(!editor.has_unsaved_changes());
    assert_eq!(editor.tab_title(0), "n.txt");
    match key(&mut editor, Key::Char('s'), CTRL) {
        Effect::Save { path, .. } => assert_eq!(path, "/home/u/n.txt"),
        other => panic!("{other:?}"),
    }
    key(&mut editor, Key::Char('S'), CTRL_SHIFT);
    assert_eq!(editor.prompt().as_ref().map(|p| p.input.as_str()), Some("/home/u/n.txt"));
    assert!(matches!(
        editor.prompt().as_ref().map(|p| p.kind),
        Some(PromptKind::SaveAsPath)
    ));
}

#[test]
fn recent_files_are_few_and_distinct() {
    let mut editor = scratch();
    for i in 0..25 {
        editor.remember_recent(&format!("/f{i}"));
    }
    editor.remember_recent("/f20");
    assert_eq!(editor.recent_files().len(), 20);
    assert_eq!(editor.recent_files()[0], "/f20");
    assert_eq!(editor.recent_files()[1], "/f24");
    assert_eq!(editor.recent_files().iter().filter(|f| *f == "/f20").count(), 1);
    editor.remember_recent("//f23/");
    assert_eq!(editor.recent_files()[0], "//f23/");
    assert!(!editor.recent_files().contains(&"/f23".to_string()));
}

fn recent(input: &str, known: &[&str]) -> (Editor, Effect) {
    let mut editor = scratch();
    for path in known {
        editor.remember_recent(path);
    }
    key(&mut editor, Key::Char('r'), CTRL);
    let effect = submit(&mut editor, input);
    (editor, effect)
}

#[test]
fn recent_files_are_picked() {
    let known = ["/a/Notes.md", "/b/todo.txt"];
    for (input, wanted) in [("", "/b/todo.txt"), ("2", "/a/Notes.md"), ("NOTES", "/a/Notes.md")] {
        match recent(input, &known).1 {
            Effect::Open { path } => assert_eq!(path, wanted),
            other => panic!("{other:?}"),
        }
    }
    for (input, wanted) in [
        ("0", "recent index out of range: 0"),
        ("3", "recent index out of range: 3"),
        ("zz", "no recent file matching 'zz'"),
    ] {
        let (editor, effect) = recent(input, &known);
        assert!(matches!(effect, Effect::Nothing));
        assert_eq!(status(&editor), wanted);
    }
    assert_eq!(status(&recent("1", &[]).0), "no recent files");
}

#[test]
fn searching_selects_matches() {
    let mut editor = with_file("/a", "one two\ntwo");
    key(&mut editor, Key::Char('f'), CTRL);
    submit(&mut editor, "two");
    assert_eq!(status(&editor), "match 1:5 for 'two'");
    assert_eq!(selected_text(editor.document()), Some("two".to_string()));
    key(&mut editor, Key::Return, NONE);
    assert_eq!(status(&editor), "match 2:1 for 'two'");
    key(&mut editor, Key::Return, SHIFT);
    assert_eq!(status(&editor), "match 1:5 for 'two'");
    key(&mut editor, Key::Escape, NONE);
    assert_eq!(status(&editor), "prompt cancelled");
    key(&mut editor, Key::F3, NONE);
    assert_eq!(status(&editor), "match 2:1 for 'two'");
    key(&mut editor, Key::F3, NONE);
    assert_eq!(status(&editor), "match 1:5 for 'two'");
    key(&mut editor, Key::Char('f'), CTRL);
    assert_eq!(editor.prompt().as_ref().map(|p| p.input.as_str()), Some("two"));
    submit(&mut editor, "zz");
    assert_eq!(status(&editor), "no match for 'zz'");
    key(&mut editor, Key::Char('u'), CTRL);
    key(&mut editor, Key::Return, NONE);
    assert_eq!(status(&editor), "search query is empty");
}

#[test]
fn repeated_search_asks_first() {
    let mut editor = scratch();
    key(&mut editor, Key::F3, NONE);
    assert!(matches!(
        editor.prompt().as_ref().map(|p| p.kind),
        Some(PromptKind::FindQuery)
    ));
    assert!(!editor.find_next_match(false, 10));
}

#[test]
fn going_to_lines() {
    let mut editor = with_file("/a", "one\ntwo\nthree");
    key(&mut editor, Key::Char('g'), CTRL);
    assert_eq!(editor.status_bar_left(), "go to line[:col]: 1_");
    key(&mut editor, Key::Char('u'), CTRL);
    submit(&mut editor, "3:2");
    assert_eq!(status(&editor), "jumped to 3:2");
    for (input, wanted) in [
        ("", "line is empty"),
        ("x", "invalid line: x"),
        ("1:y", "invalid column: y"),
        ("99:99", "jumped to 3:6"),
    ] {
        key(&mut editor, Key::Char('g'), CTRL);
        key(&mut editor, Key::Char('u'), CTRL);
        submit(&mut editor, input);
        assert_eq!(status(&editor), wanted);
    }
}

#[test]
fn the_palette_runs_commands() {
    let mut editor = with_file("/a", "abc");
    key(&mut editor, Key::Char('P'), CTRL_SHIFT);
    assert_eq!(
        editor.status_bar_left(),
        "command: _  |  >[1] open file   [2] open recent   [3] save file   [4] save as   \
         [5] new tab   [6] next tab  |  Enter run  Up/Down move  Tab next  Esc close"
    );
    key(&mut editor, Key::Up, NONE);
    assert_eq!(editor.prompt().as_ref().map(|p| p.selection_index), Some(15));
    key(&mut editor, Key::Down, NONE);
    assert_eq!(editor.prompt().as_ref().map(|p| p.selection_index), Some(0));
    submit(&mut editor, "new tab");
    assert_eq!(editor.tabs().len(), 2);
    for (input, wanted) in [
        ("save session", 0),
        ("restore session", 1),
        ("clear session data", 2),
    ] {
        key(&mut editor, Key::Char('P'), CTRL_SHIFT);
        let effect = submit(&mut editor, input);
        let found = match effect {
            Effect::SaveSession => 0,
            Effect::RestoreSession => 1,
            Effect::ClearSession => 2,
            other => panic!("{other:?}"),
        };
        assert_eq!(found, wanted);
    }
    key(&mut editor, Key::Char('P'), CTRL_SHIFT);
    submit(&mut editor, "zzzzz");
    assert_eq!(status(&editor), "no command matching 'zzzzz'");
    key(&mut editor, Key::Char('P'), CTRL_SHIFT);
    type_text(&mut editor, "qqqq");
    assert_eq!(editor.status_bar_left(), "command: qqqq_  |  no matches");
}

#[test]
fn copying_and_cutting() {
    let mut editor = with_file("/a", "one\ntwo");
    key(&mut editor, Key::Char('c'), CTRL);
    assert_eq!(status(&editor), "nothing selected");
    key(&mut editor, Key::Down, SHIFT);
    match key(&mut editor, Key::Char('c'), CTRL) {
        Effect::OwnClipboard { cut, chars } => {
            assert!(!cut);
            assert_eq!(chars, 4);
        }
        other => panic!("{other:?}"),
    }
    assert_eq!(editor.selection_text(), Some("one\n"));
    editor.finish_copy(false, 4, None);
    assert_eq!(status(&editor), "copied 4 chars");
    assert_eq!(text(&editor), "one\ntwo");
    editor.finish_copy(false, 4, Some("gone"));
    assert_eq!(status(&editor), "copy failed: gone");
    assert!(matches!(
        key(&mut editor, Key::Char('x'), CTRL),
        Effect::OwnClipboard { cut: true, chars: 4 }
    ));
    editor.finish_copy(true, 4, Some("gone"));
    assert_eq!(status(&editor), "cut failed: gone");
    assert_eq!(text(&editor), "one\ntwo");
    editor.finish_copy(true, 4, None);
    assert_eq!(status(&editor), "cut 4 chars");
    assert_eq!(text(&editor), "two");
}

#[test]
fn pasting_what_another_program_copied() {
    let mut editor = scratch();
    assert!(matches!(
        key(&mut editor, Key::Char('v'), CTRL),
        Effect::RequestPaste { selection: 11 }
    ));
    editor.finish_paste_request(11, None);
    assert!(matches!(key(&mut editor, Key::Char('v'), CTRL), Effect::Nothing));
    let step = editor.handle_event(
        InputEvent::SelectionNotify { selection: 11, property: 77 },
        &context(),
    );
    assert!(matches!(step.effect, Effect::ReadProperty { property: 77 }));
    editor.finish_paste(&"grün\nx\0".as_bytes().to_vec(), 10);
    assert_eq!(text(&editor), "grün\nx");
    assert_eq!(status(&editor), "pasted 6 chars");
    assert_eq!(editor.document().cursor(), Position::new(1, 1));
}

#[test]
fn pasting_from_an_empty_clipboard() {
    let mut editor = scratch();
    editor.finish_paste_request(11, Some("no server"));
    assert_eq!(status(&editor), "paste request failed: no server");
    editor.finish_paste_request(11, None);
    editor.handle_event(
        InputEvent::SelectionNotify { selection: 11, property: 0 },
        &context(),
    );
    assert_eq!(status(&editor), "clipboard is empty");
    editor.finish_paste(&vec![0], 10);
    assert_eq!(status(&editor), "clipboard is empty");
    let step = editor.handle_event(InputEvent::PressMiddle, &context());
    assert!(matches!(step.effect, Effect::RequestPaste { selection: 12 }));
    editor.finish_paste_request(12, None);
    let other = editor.handle_event(
        InputEvent::SelectionNotify { selection: 11, property: 5 },
        &context(),
    );
    assert!(matches!(other.effect, Effect::Nothing));
}

#[test]
fn pasting_falls_back_to_what_was_copied_here() {
    let mut editor = with_file("/a", "ab");
    key(&mut editor, Key::Char('a'), CTRL);
    key(&mut editor, Key::Char('c'), CTRL);
    key(&mut editor, Key::End, NONE);
    editor.finish_paste_request(11, Some("no server"));
    assert_eq!(text(&editor), "abab");
    assert_eq!(status(&editor), "pasted 2 chars");
    editor.finish_paste_request(11, None);
    editor.handle_event(InputEvent::SelectionClear, &context());
    let step = editor.handle_event(
        InputEvent::SelectionNotify { selection: 11, property: 5 },
        &context(),
    );
    assert!(matches!(step.effect, Effect::Nothing));
}

#[test]
fn pointing_places_and_drags() {
    let mut editor = with_file("/a", "hello\nworld");
    let press = |line, column, extend| InputEvent::PressText {
        position: Position::new(line, column),
        extend,
    };
    editor.handle_event(press(0, 2, false), &context());
    assert_eq!(editor.document().cursor(), Position::new(0, 2));
    let drag = InputEvent::Move { over: Some(Position::new(1, 1)) };
    let step = editor.handle_event(drag, &context());
    assert!(step.redraw);
    assert_eq!(selected_text(editor.document()), Some("llo\nw".to_string()));
    editor.handle_event(InputEvent::ReleaseLeft, &context());
    assert!(!editor.handle_event(drag, &context()).redraw);
    editor.handle_event(press(0, 0, true), &context());
    assert_eq!(selected_text(editor.document()), Some("he".to_string()));
    editor.handle_event(press(1, 1, false), &context());
    assert_eq!(editor.document().selection(), None);
    assert!(editor.handle_event(InputEvent::PressElsewhere, &context()).redraw);
    assert!(editor.handle_event(InputEvent::Expose, &context()).redraw);
    assert!(!editor.handle_event(InputEvent::Other, &context()).redraw);
}

#[test]
fn released_keys_do_nothing() {
    let mut editor = scratch();
    let event = KeyEvent { key: Key::Char('x'), modifiers: NONE, pressed: false };
    let step = editor.handle_event(InputEvent::Key(event), &context());
    assert!(!step.redraw);
    assert_eq!(text(&editor), "");
}

fn reply(step: RemoteStep) -> (Response, bool) {
    match step {
        RemoteStep::Reply { response, redraw } => (response, redraw),
        other => panic!("{other:?}"),
    }
}

#[test]
fn remote_open() {
    let mut editor = scratch();
    let command = || Command::Open { path: "x.txt".to_string(), line: Some(2), column: None };
    match editor.apply_ipc_command(command(), &context()) {
        RemoteStep::Open { path, line, column } => {
            assert_eq!(path, "/work/x.txt");
            editor.fail_open("denied");
            let (response, redraw) = reply(editor.finish_remote_open(line, column, 10));
            assert!(!response.success);
            assert_eq!(response.error.unwrap(), "open failed: denied");
            assert!(redraw);
            let document = open_or_create_document(&path, Some("a\nb"));
            editor.finish_open(&path, document, true);
            assert!(matches!(
                editor.finish_remote_open(line, column, 10),
                RemoteStep::Window { purpose: WindowPurpose::Open, show: true }
            ));
        }
        other => panic!("{other:?}"),
    }
    assert_eq!(editor.document().cursor(), Position::new(1, 0));
    assert!(matches!(
        editor.apply_ipc_command(command(), &context()),
        RemoteStep::Window { purpose: WindowPurpose::Open, show: true }
    ));
    assert_eq!(status(&editor), "switched to /work/x.txt");
}

#[test]
fn remote_status_and_quit() {
    let mut editor = with_file("/a", "x");
    let (response, redraw) = reply(editor.apply_ipc_command(Command::Status, &context()));
    assert!(!redraw);
    match response.data {
        Some(ResponseData::Status { visible, open_documents, focused_document }) => {
            assert!(visible);
            assert_eq!(open_documents, 1);
            assert_eq!(focused_document, Some("/a".to_string()));
        }
        None => panic!("no status"),
    }
    type_text(&mut editor, "y");
    let (refused, _) = reply(editor.apply_ipc_command(Command::Quit, &context()));
    assert_eq!(refused.error.unwrap(), "unsaved changes present; refusing quit request");
    assert!(!editor.should_quit());
    editor.finish_save("/a", None);
    let (done, redraw) = reply(editor.apply_ipc_command(Command::Quit, &context()));
    assert!(done.success && redraw);
    assert!(editor.should_quit());
}

#[test]
fn remote_window_commands() {
    let mut editor = scratch();
    assert!(matches!(
        editor.apply_ipc_command(Command::Toggle, &context()),
        RemoteStep::Window { purpose: WindowPurpose::Toggle, show: false }
    ));
    editor.set_window_visible(false);
    assert!(matches!(
        editor.apply_ipc_command(Command::Toggle, &context()),
        RemoteStep::Window { purpose: WindowPurpose::Toggle, show: true }
    ));
    assert!(matches!(
        editor.apply_ipc_command(Command::Show, &context()),
        RemoteStep::Window { purpose: WindowPurpose::Show, show: true }
    ));
    assert!(matches!(
        editor.apply_ipc_command(Command::Hide, &context()),
        RemoteStep::Window { purpose: WindowPurpose::Hide, show: false }
    ));
    for (purpose, message, redraw) in [
        (WindowPurpose::Open, "failed to show window: e", true),
        (WindowPurpose::Show, "failed to show window: e", false),
        (WindowPurpose::Hide, "failed to hide window: e", false),
        (WindowPurpose::Toggle, "failed to toggle window: e", false),
    ] {
        let (response, again) = window_response(purpose, Some("e"));
        assert_eq!(response.error.unwrap(), message);
        assert_eq!(again, redraw);
        let (ok, again) = window_response(purpose, None);
        assert!(ok.success && again);
    }
}

#[test]
fn notices() {
    let mut editor = scratch();
    for (notice, wanted) in [
        (Notice::ClipboardRequestFailed, "clipboard request failed: e"),
        (Notice::PasteFailed, "paste failed: e"),
        (Notice::AutosaveFailed, "autosave failed: e"),
        (Notice::IpcAcceptFailed, "ipc accept failed: e"),
        (Notice::SessionFailed, "session failed: e"),
        (Notice::SessionSaved, "session saved"),
        (Notice::SessionCleared, "session data cleared"),
    ] {
        editor.report(notice, "e");
        assert_eq!(status(&editor), wanted);
    }
    editor.give_up();
    assert!(editor.should_quit());
}

#[test]
fn status_bar_texts() {
    let mut editor = with_file("/a/b.txt", "x\ny");
    assert_eq!(editor.status_bar_right(), "Ln 1, Col 1  •  2 lines");
    assert_eq!(editor.status_bar_left(), "[tab 1/1] /a/b.txt  |  opened /a/b.txt");
    assert_eq!(editor.tab_title(0), "b.txt");
    type_text(&mut editor, "z");
    assert_eq!(editor.status_bar_left(), "[tab 1/1] /a/b.txt [+]  |  opened /a/b.txt");
    assert_eq!(editor.tab_title(0), "b.txt *");
    key(&mut editor, Key::Char('r'), CTRL);
    assert_eq!(editor.status_bar_left(), "open recent (none): _");
    key(&mut editor, Key::Escape, NONE);
    editor.remember_recent("/one");
    editor.remember_recent("/two");
    key(&mut editor, Key::Char('r'), CTRL);
    type_text(&mut editor, "2");
    assert_eq!(
        editor.status_bar_left(),
        "open recent [1] /two  [2] /one  |  pick #: 2_"
    );
    key(&mut editor, Key::Escape, NONE);
    key(&mut editor, Key::Char('o'), CTRL);
    assert_eq!(editor.status_bar_left(), "open path: _");
    key(&mut editor, Key::Char('f'), CTRL);
    key(&mut editor, Key::Escape, NONE);
    key(&mut editor, Key::Char('f'), CTRL);
    assert_eq!(
        editor.status_bar_left(),
        "find: _  |  Enter next  Shift+Enter prev  Esc close"
    );
}

#[test]
fn the_palette_shows_a_window_of_rows() {
    let mut editor = scratch();
    key(&mut editor, Key::Char('P'), CTRL_SHIFT);
    for _ in 0..5 {
        key(&mut editor, Key::Down, NONE);
    }
    assert_eq!(
        editor.status_bar_left(),
        "command: _  |   [3] save file   [4] save as   [5] new tab  >[6] next tab   \
         [7] previous tab   [8] find  |  Enter run  Up/Down move  Tab next  Esc close"
    );
}

#[test]
fn sessions_keep_tabs_and_unsaved_text() {
    let mut editor = with_file("/a.txt", "one\ntwo");
    editor.jump_to_position(Some(2), Some(2), 10);
    key(&mut editor, Key::Char('t'), CTRL);
    type_text(&mut editor, "draft\nline");
    let data = session_of(&mut editor);
    assert_eq!(data.snapshot.check(), SessionCheck::Accept);
    assert_eq!(data.snapshot.version, 1);
    assert_eq!(data.snapshot.active_tab, 1);
    assert_eq!(data.snapshot.tabs.len(), 2);
    assert_eq!(data.autosaves.len(), 1);
    assert_eq!(data.autosaves[0].name, "tab-1.txt");
    assert_eq!(data.autosaves[0].text, "draft\nline");
    let saved = &data.snapshot.tabs[0];
    let unsaved = &data.snapshot.tabs[1];
    assert_eq!(saved.autosave_to_read(), None);
    assert_eq!(unsaved.autosave_to_read(), Some("tab-1.txt"));
    let first = saved.restore(&TabSource::File("one\ntwo".to_string()));
    let second = unsaved.restore(&TabSource::Autosave(data.autosaves[0].text.clone()));
    let mut fresh = scratch();
    fresh.restore_tabs(vec![first, second], data.snapshot.active_tab, 10);
    assert_eq!(status(&fresh), "restored 2 tab(s)");
    assert_eq!(text(&fresh), "draft\nline");
    assert!(fresh.document().is_dirty());
    assert_eq!(fresh.document().cursor(), Position::new(1, 4));
    fresh.activate_tab(0, 10);
    assert_eq!(text(&fresh), "one\ntwo");
    assert_eq!(fresh.document().path(), Some("/a.txt"));
    assert!(!fresh.document().is_dirty());
    assert_eq!(fresh.document().cursor(), Position::new(1, 1));
}

fn snapshot_tab() -> SessionTabSnapshot {
    SessionTabSnapshot {
        path: Some("/p".to_string()),
        cursor_line: 9,
        cursor_column: 9,
        viewport_top_line: 9,
        search_query: Some("  q ".to_string()),
        autosave_name: Some("../evil".to_string()),
        dirty: true,
    }
}

#[test]
fn odd_session_tabs_are_restored_safely() {
    let tab = snapshot_tab();
    assert_eq!(tab.autosave_to_read(), None);
    let missing = tab.restore(&TabSource::Nothing);
    assert_eq!(missing.document.to_text(), "");
    assert_eq!(missing.document.path(), Some("/p"));
    assert!(missing.document.is_dirty());
    assert_eq!(missing.viewport_top_line, 0);
    assert_eq!(missing.search.map(|s| s.query), Some("q".to_string()));
    let ignored = tab.restore(&TabSource::Autosave("evil".to_string()));
    assert_eq!(ignored.document.to_text(), "");
    let file = tab.restore(&TabSource::File("a\r\nbc".to_string()));
    assert_eq!(file.document.to_text(), "a\nbc");
    assert_eq!(file.document.cursor(), Position::new(1, 2));
    assert_eq!(file.viewport_top_line, 1);
    let blank = SessionTabSnapshot {
        path: None,
        search_query: Some("  ".to_string()),
        dirty: false,
        ..snapshot_tab()
    };
    let scratch_tab = blank.restore(&TabSource::Nothing);
    assert!(!scratch_tab.document.is_dirty());
    assert!(scratch_tab.search.is_none());
}

#[test]
fn unusable_sessions_are_refused() {
    let empty = SessionSnapshot { version: 1, active_tab: 0, tabs: vec![] };
    assert_eq!(empty.check(), SessionCheck::Empty);
    let newer = SessionSnapshot { version: 2, active_tab: 0, tabs: vec![snapshot_tab()] };
    assert_eq!(newer.check(), SessionCheck::WrongVersion);
    let mut editor = scratch();
    editor.restore_tabs(vec![], 3, 10);
    assert_eq!(status(&editor), "scratch buffer");
    let tab = snapshot_tab().restore(&TabSource::Nothing);
    editor.restore_tabs(vec![tab], 3, 10);
    assert_eq!(editor.active_tab(), 0);
}

#[test]
fn stale_autosaves_are_found() {
    let names: Vec<String> = ["tab-0.txt", "tab-1.txt", "x"].map(String::from).to_vec();
    let kept = vec![Autosave { name: "tab-1.txt".to_string(), text: String::new() }];
    assert_eq!(stale_autosaves(&names, &kept), vec!["tab-0.txt", "x"]);
}

#[test]
fn autosave_intervals() {
    assert_eq!(effective_interval(0), DEFAULT_AUTOSAVE_INTERVAL);
    assert_eq!(effective_interval(5), 5);
    assert!(autosave_due(5, 5));
    assert!(!autosave_due(4, 5));
}

#[test]
fn sessions_are_restored_when_no_file_is_given() {
    assert!(restores_session(false, true));
    assert!(!restores_session(true, true));
    assert!(!restores_session(false, false));
    assert!(!restores_session(true, false));
}

use garedit::clipboard::{
    answer_request, is_none_atom, received_text, strip_nuls, ClipboardAtoms, SelectionAnswer,
    SelectionRequest, STRING_ATOM,
};
use garedit::ipc::{
    failure_text, human_response, is_ipc_connect_error, next_step, reject, Command, Delivery,
    DeliveryStep, IpcFailure, RequestProblem, Response, ResponseData,
};
use garedit::layout::{
    centered, column_from_x, line_height, selection_span, span_width, tab_at, Frame, Layout,
    PointerTarget,
};
use garedit::cursor::Position;
use garedit::selection::Selection;
use garedit::theme::{resolve_theme, ThemeChoice};
use x11rb::protocol::xproto::AtomEnum;

const ATOMS: ClipboardAtoms = ClipboardAtoms {
    clipboard: 101,
    primary: 1,
    targets: 103,
    utf8_string: 104,
    text_plain_utf8: 105,
    text_plain: 106,
    text: 107,
    string: 108,
};

#[test]
fn requests_for_text_are_answered() {
    let request = SelectionRequest { selection: 101, target: 106, property: 9 };
    match answer_request(&ATOMS, &request, true) {
        SelectionAnswer::Text { property, property_type } => {
            assert_eq!(property, 9);
            assert_eq!(property_type, 104);
        }
        _ => panic!("no text"),
    }
    let old = SelectionRequest { selection: 1, target: 108, property: 0 };
    match answer_request(&ATOMS, &old, true) {
        SelectionAnswer::Text { property, property_type } => {
            assert_eq!(property, 108);
            assert_eq!(property_type, u32::from(AtomEnum::STRING));
            assert_eq!(property_type, STRING_ATOM);
        }
        _ => panic!("no text"),
    }
}

#[test]
fn requests_for_targets_are_answered() {
    let request = SelectionRequest { selection: 101, target: 103, property: 7 };
    let answer = answer_request(&ATOMS, &request, true);
    assert_eq!(answer.notify_property(), 7);
    match answer {
        SelectionAnswer::Targets { targets, .. } => {
            assert_eq!(targets, vec![103, 104, 105, 106, 107, 108]);
        }
        _ => panic!("no targets"),
    }
}

#[test]
fn other_requests_are_refused() {
    for (selection, target, has_text) in [(55, 104, true), (101, 104, false), (101, 999, true)] {
        let request = SelectionRequest { selection, target, property: 7 };
        let answer = answer_request(&ATOMS, &request, has_text);
        assert!(matches!(answer, SelectionAnswer::Refuse));
        assert_eq!(answer.notify_property(), u32::from(AtomEnum::NONE));
    }
    assert!(is_none_atom(u32::from(AtomEnum::NONE)));
    assert!(!is_none_atom(3));
}

#[test]
fn received_bytes_become_text() {
    assert_eq!(received_text(&"grün\0\0".as_bytes().to_vec()), "grün");
    assert_eq!(received_text(&vec![b'a', 0xff, b'b']), "a\u{fffd}b");
    assert_eq!(received_text(&vec![]), "");
    assert_eq!(strip_nuls("a\0b\0"), "a\0b");
    assert_eq!(strip_nuls("\0"), "");
}

#[test]
fn responses_are_shown_to_users() {
    assert_eq!(human_response(&Response::ok()), vec!["ok"]);
    assert_eq!(human_response(&Response::err("no".to_string())), vec!["error: no"]);
    let silent = Response { success: false, error: None, data: None };
    assert_eq!(human_response(&silent), vec!["error: request failed without message"]);
    let status = Response::ok_with_data(ResponseData::Status {
        visible: true,
        open_documents: 3,
        focused_document: None,
    });
    assert_eq!(
        human_response(&status),
        vec!["visible: true", "open_documents: 3", "focused_document: [scratch]"]
    );
    assert_eq!(failure_text(&Response::ok()), None);
    assert_eq!(failure_text(&silent), Some("request failed".to_string()));
    assert_eq!(failure_text(&Response::err("x".to_string())), Some("x".to_string()));
}

#[test]
fn broken_requests_are_rejected() {
    let text = |r: Response| r.error.unwrap();
    assert_eq!(text(reject(RequestProblem::Empty, "")), "empty IPC request");
    assert_eq!(text(reject(RequestProblem::Invalid, "x")), "invalid IPC payload: x");
    assert_eq!(
        text(reject(RequestProblem::Unreadable, "y")),
        "failed to read IPC payload: y"
    );
}

#[test]
fn delivery_gives_up_in_the_end() {
    let open = Command::Open { path: "x".to_string(), line: None, column: None };
    assert!(open.can_autostart());
    assert!(Command::Show.can_autostart());
    assert!(Command::Status.can_autostart());
    assert!(!Command::Hide.can_autostart());
    assert!(!Command::Toggle.can_autostart());
    assert!(!Command::Quit.can_autostart());
    assert!(!is_ipc_connect_error(IpcFailure::Other));
    assert!(is_ipc_connect_error(IpcFailure::BrokenPipe));
    let refused = IpcFailure::ConnectionRefused;
    assert_eq!(next_step(Delivery::First, refused, false), DeliveryStep::GiveUp);
    assert_eq!(next_step(Delivery::First, refused, true), DeliveryStep::StartEditor);
    assert_eq!(next_step(Delivery::First, IpcFailure::Other, true), DeliveryStep::GiveUp);
    let mut state = Delivery::Waiting { failed: 0 };
    let mut sent = 0;
    loop {
        sent += 1;
        match next_step(state, refused, true) {
            DeliveryStep::Retry { failed } => state = Delivery::Waiting { failed },
            step => {
                assert_eq!(step, DeliveryStep::Expire);
                break;
            }
        }
    }
    assert_eq!(sent, 20);
}

const LAYOUT: Layout = Layout {
    width: 980,
    height: 680,
    padding: 8,
    line_height: 20,
    show_line_numbers: true,
};

#[test]
fn layout_measures() {
    assert_eq!(LAYOUT.content_top(), 38);
    assert_eq!(LAYOUT.status_bar_top(), 652);
    assert_eq!(LAYOUT.content_bottom(), 644);
    assert_eq!(LAYOUT.visible_line_capacity(), 30);
    assert_eq!(LAYOUT.gutter_width(), 64);
    assert_eq!(LAYOUT.text_origin_x(), 72);
    let bare = Layout { show_line_numbers: false, ..LAYOUT };
    assert_eq!(bare.text_origin_x(), 8);
    let flat = Layout { height: 10, ..LAYOUT };
    assert_eq!(flat.content_bottom(), 39);
    assert_eq!(flat.visible_line_capacity(), 0);
    assert_eq!(line_height(Some(16), 14), 20);
    assert_eq!(line_height(None, 14), 20);
}

#[test]
fn rows_and_caret() {
    let rows = LAYOUT.visible_rows(5, 8);
    assert_eq!(rows.len(), 3);
    assert_eq!((rows[0].line, rows[0].y), (5, 38));
    assert_eq!((rows[2].line, rows[2].y), (7, 78));
    assert_eq!(LAYOUT.visible_rows(0, 100).len(), 30);
    assert_eq!(LAYOUT.caret(6, 5), Some((58, 19)));
    assert_eq!(LAYOUT.caret(4, 5), None);
    assert_eq!(LAYOUT.caret(35, 5), None);
}

#[test]
fn pointer_targets() {
    assert_eq!(LAYOUT.pointer_target(500, 10, 0, 3), PointerTarget::Tab { index: 2 });
    assert_eq!(LAYOUT.pointer_target(-5, 10, 0, 3), PointerTarget::Tab { index: 0 });
    assert_eq!(
        LAYOUT.pointer_target(100, 60, 1, 30),
        PointerTarget::Text { line: 2, x: 28 }
    );
    assert_eq!(
        LAYOUT.pointer_target(10, 640, 1, 3),
        PointerTarget::Text { line: 2, x: 0 }
    );
    assert_eq!(LAYOUT.pointer_target(10, 33, 1, 3), PointerTarget::Nowhere);
    assert_eq!(LAYOUT.pointer_target(10, 660, 1, 3), PointerTarget::Nowhere);
    assert_eq!(tab_at(219), 0);
    assert_eq!(tab_at(220), 1);
}

#[test]
fn nearest_columns() {
    let widths = vec![Some(10), Some(20), Some(30)];
    assert_eq!(column_from_x(&widths, 0), 0);
    assert_eq!(column_from_x(&widths, 5), 0);
    assert_eq!(column_from_x(&widths, 6), 1);
    assert_eq!(column_from_x(&widths, 20), 2);
    assert_eq!(column_from_x(&widths, 99), 3);
    assert_eq!(column_from_x(&vec![], 50), 0);
    assert_eq!(column_from_x(&vec![Some(10), None, Some(30)], 28), 3);
}

#[test]
fn tabs_and_status_bar_places() {
    let boxes = LAYOUT.tab_boxes(9);
    assert_eq!(boxes.len(), 5);
    assert_eq!((boxes[1].x, boxes[1].width), (220, 220));
    assert_eq!((boxes[4].x, boxes[4].width), (880, 100));
    assert_eq!(LAYOUT.tab_boxes(1).len(), 1);
    assert_eq!(LAYOUT.status_texts(100, 16), (658, 872, 856));
    assert_eq!(LAYOUT.status_texts(100, 40), (646, 872, 856));
    assert_eq!(LAYOUT.status_texts(970, 16).2, 40);
}

#[test]
fn windows_are_centered() {
    let monitor = Frame { x: 100, y: 0, width: 1920, height: 600 };
    let frame = centered(monitor, 980, 680);
    assert_eq!(frame, Frame { x: 570, y: 0, width: 980, height: 600 });
}

#[test]
fn selections_cover_columns() {
    let sel = Some(Selection::new(Position::new(2, 3), Position::new(0, 1)));
    assert_eq!(selection_span(sel, 0, 5), Some((1, 5)));
    assert_eq!(selection_span(sel, 1, 4), Some((0, 4)));
    assert_eq!(selection_span(sel, 1, 0), None);
    assert_eq!(selection_span(sel, 2, 9), Some((0, 3)));
    assert_eq!(selection_span(sel, 3, 9), None);
    assert_eq!(selection_span(None, 0, 9), None);
    assert_eq!(span_width(10, 40), 30);
    assert_eq!(span_width(10, 10), 2);
}

#[test]
fn themes_by_name() {
    assert_eq!(resolve_theme("light"), ThemeChoice::Light);
    assert_eq!(resolve_theme("high-contrast"), ThemeChoice::HighContrast);
    assert_eq!(resolve_theme("dark"), ThemeChoice::Dark);
    assert_eq!(resolve_theme("Light"), ThemeChoice::Dark);
}

use admin_toolbox::app::{operation_label, App, InputMode, Key, OPERATION_COUNT};
use admin_toolbox::input::{EditEvent, InputBuffer};
use admin_toolbox::selection::Selection;

#[test]
fn quit_key_quits_in_normal_mode() {
    let mut app = App::new();
    assert!(matches!(app.input_mode, InputMode::Normal));
    assert!(app.handle_key(Key::Char('q')));
}

#[test]
fn quit_key_is_text_in_editing_mode() {
    let mut app = App::new();
    assert!(!app.handle_key(Key::Char('e')));
    assert!(matches!(app.input_mode, InputMode::Editing));
    assert!(!app.handle_key(Key::Char('q')));
    assert!(matches!(app.input_mode, InputMode::Editing));
    assert_eq!(app.input.value(), "q");
}

#[test]
fn editing_commits_on_enter_and_captures_selection() {
    let mut app = App::new();
    app.handle_key(Key::Down);
    app.handle_key(Key::Down);
    app.handle_key(Key::Char('e'));
    app.handle_key(Key::Char('h'));
    app.handle_key(Key::Char('i'));
    app.handle_key(Key::Enter);
    assert_eq!(app.message, "hi");
    assert_eq!(app.id, 2);
    assert!(matches!(app.input_mode, InputMode::Editing));
}

#[test]
fn repeated_enter_concatenates_the_buffer() {
    let mut app = App::new();
    app.handle_key(Key::Char('e'));
    app.handle_key(Key::Char('a'));
    app.handle_key(Key::Enter);
    app.handle_key(Key::Enter);
    assert_eq!(app.message, "aa");
}

#[test]
fn escape_clears_and_returns_to_normal() {
    let mut app = App::new();
    app.handle_key(Key::Char('e'));
    app.handle_key(Key::Char('a'));
    app.handle_key(Key::Enter);
    app.handle_key(Key::Esc);
    assert!(matches!(app.input_mode, InputMode::Normal));
    assert_eq!(app.message, "");
    assert_eq!(app.id, 0);
    assert_eq!(app.input.value(), "");
}

#[test]
fn selection_clamps_at_both_ends() {
    let mut sel = Selection::new(OPERATION_COUNT);
    sel.previous();
    assert_eq!(sel.selected(), 0);
    for _ in 0..OPERATION_COUNT + 3 {
        sel.next();
        assert!(sel.selected() < OPERATION_COUNT);
    }
    assert_eq!(sel.selected(), OPERATION_COUNT - 1);
    sel.next();
    assert_eq!(sel.selected(), OPERATION_COUNT - 1);
    for _ in 0..OPERATION_COUNT + 3 {
        sel.previous();
        assert!(sel.selected() < OPERATION_COUNT);
    }
    assert_eq!(sel.selected(), 0);
}

#[test]
fn navigation_ignored_while_editing() {
    let mut app = App::new();
    app.handle_key(Key::Char('e'));
    app.handle_key(Key::Down);
    assert_eq!(app.selection.selected(), 0);
}

#[test]
fn input_buffer_edits_at_cursor() {
    let mut buf = InputBuffer::new();
    buf.handle_edit(EditEvent::Insert('a'));
    buf.handle_edit(EditEvent::Insert('c'));
    buf.handle_edit(EditEvent::Left);
    buf.handle_edit(EditEvent::Insert('b'));
    assert_eq!(buf.value(), "abc");
    buf.handle_edit(EditEvent::Backspace);
    assert_eq!(buf.value(), "ac");
    buf.handle_edit(EditEvent::Home);
    buf.handle_edit(EditEvent::Delete);
    assert_eq!(buf.value(), "c");
    buf.handle_edit(EditEvent::End);
    buf.handle_edit(EditEvent::Backspace);
    assert_eq!(buf.value(), "");
}

#[test]
fn input_buffer_cursor_stays_in_range() {
    let mut buf = InputBuffer::new();
    buf.handle_edit(EditEvent::Left);
    buf.handle_edit(EditEvent::Backspace);
    assert_eq!(buf.cursor, 0);
    buf.handle_edit(EditEvent::Insert('x'));
    buf.handle_edit(EditEvent::Right);
    assert_eq!(buf.cursor, 1);
    buf.handle_edit(EditEvent::Delete);
    assert_eq!(buf.value(), "x");
}

#[test]
fn visual_scroll_keeps_cursor_visible() {
    let mut buf = InputBuffer::new();
    for _ in 0..10 {
        buf.handle_edit(EditEvent::Insert('x'));
    }
    assert_eq!(buf.visual_scroll(20), 0);
    assert_eq!(buf.visual_scroll(10), 1);
    assert_eq!(buf.visual_scroll(4), 7);
    assert_eq!(buf.visual_scroll(0), 10);
}

#[test]
fn dispatch_ignores_empty_message() {
    let mut app = App::new();
    let mut out = String::from("before");
    let mut title = String::from("Output");
    app.process_input(String::new(), &mut out, &mut title);
    assert_eq!(out, "before");
    assert_eq!(title, "Output");
}

#[test]
fn dispatch_md5_consumes_the_message() {
    let mut app = App::new();
    app.message = String::from("hello");
    let mut out = String::new();
    let mut title = String::from("Output");
    app.process_input(String::from("hello"), &mut out, &mut title);
    assert_eq!(out, "5d41402abc4b2a76b9719d911017c592");
    assert_eq!(title, " MD5");
    assert_eq!(app.message, "");
}

#[test]
fn dispatch_base64_error_suppresses_the_title() {
    let mut app = App::new();
    app.id = 2;
    let mut out = String::new();
    let mut title = String::from("Output");
    app.process_input(String::from("abc$"), &mut out, &mut title);
    assert_eq!(out, "Error in Base64 decoding");
    assert_eq!(title, "");
}

#[test]
fn dispatch_base64_url_decodes() {
    let mut app = App::new();
    app.id = 4;
    let mut out = String::new();
    let mut title = String::from("Output");
    app.process_input(String::from("aGk="), &mut out, &mut title);
    assert_eq!(out, "hi");
    assert_eq!(title, " base64_url_decode");
}

#[test]
fn dispatch_odd_hex_reports_the_error() {
    let mut app = App::new();
    app.id = 9;
    let mut out = String::new();
    let mut title = String::from("Output");
    app.process_input(String::from("abc"), &mut out, &mut title);
    assert_eq!(out, "Error in Hex decoding");
    assert_eq!(title, "");
}

#[test]
fn dispatch_json_error_reports_the_error() {
    let mut app = App::new();
    app.id = 5;
    let mut out = String::new();
    let mut title = String::from("Output");
    app.process_input(String::from("{"), &mut out, &mut title);
    assert_eq!(out, "Error in JSON parsing");
    assert_eq!(title, "");
}

#[test]
fn dispatch_html_encode() {
    let mut app = App::new();
    app.id = 6;
    let mut out = String::new();
    let mut title = String::from("Output");
    app.process_input(String::from("a<b"), &mut out, &mut title);
    assert_eq!(out, "a&lt;b");
    assert_eq!(title, " HTML Encode");
}

#[test]
fn dispatch_unknown_id_passes_through_and_keeps_the_message() {
    let mut app = App::new();
    app.id = 42;
    app.message = String::from("text");
    let mut out = String::new();
    let mut title = String::from("Output");
    app.process_input(String::from("text"), &mut out, &mut title);
    assert_eq!(out, "text");
    assert_eq!(title, "");
    assert_eq!(app.message, "text");
}

#[test]
fn operation_labels_match_the_list() {
    assert_eq!(operation_label(0), "0. MD5 HASH");
    assert_eq!(operation_label(5), "5. Pretty Json");
    assert_eq!(operation_label(9), "9. Hex to String");
    assert_eq!(operation_label(10), "");
}

#[test]
fn alternating_navigation_stays_in_range() {
    let mut sel = Selection::new(OPERATION_COUNT);
    let moves = [true, true, false, true, false, false, false, true, true, true, true, true];
    for down in moves {
        if down {
            sel.next();
        } else {
            sel.previous();
        }
        assert!(sel.selected() < OPERATION_COUNT);
    }
}

use revi::editor::buffer::Buffer;
use revi::editor::message::{Message, UserMessageBuilder};
use revi::editor::state::{State, TermEvent};
use revi::engine::line_number::LineNumberKind;
use revi::engine::mode::Mode;
use revi::ui::key::{Key, KeyCode, KeyEvent, KeyModifiers, Keys};
use revi::ui::layout::{Pos, Rect, Size};
use revi::ui::tui::CursorStyle;

fn state() -> State {
    State::new(
        vec![Buffer::from_contents("a.txt", "hello\nworld\n")],
        Size { width: 40, height: 8 },
    )
}

fn screen(s: &State) -> Vec<String> {
    s.buffers[s.focused].on_screen(&Size { width: 40, height: 8 })
}

fn press(s: &mut State, key: Key) -> Option<Message> {
    let next = s.update(Message::KeyPress(Keys::Key(key)));
    assert!(matches!(next, Some(Message::CheckForMapping)));
    s.update(Message::CheckForMapping)
}

#[test]
fn state_new_without_buffers_has_one_empty_buffer() {
    let s = State::new(Vec::new(), Size { width: 10, height: 5 });
    assert_eq!(s.buffers.len(), 1);
    assert_eq!(s.buffers[0].name, "N/A");
    assert_eq!(s.focused, 0);
    assert_eq!(s.mode, Mode::Normal);
    assert!(s.quit());
    assert!(s.messages.is_empty());
}

#[test]
fn state_update_moves_the_cursor() {
    let mut s = state();
    assert!(s.update(Message::CursorDown).is_none());
    assert_eq!(s.buffers[0].get_cursor().pos, Pos { x: 0, y: 1 });
    assert!(s.update(Message::CursorRight).is_none());
    assert!(s.update(Message::CursorRight).is_none());
    assert_eq!(s.buffers[0].get_cursor().pos, Pos { x: 2, y: 1 });
    assert!(s.update(Message::CursorLeft).is_none());
    assert_eq!(s.buffers[0].get_cursor().pos, Pos { x: 1, y: 1 });
    assert!(s.update(Message::CursorEnd).is_none());
    assert_eq!(s.buffers[0].get_cursor().pos.x, 4);
    assert!(s.update(Message::CursorHome).is_none());
    assert_eq!(s.buffers[0].get_cursor().pos, Pos { x: 0, y: 1 });
    assert!(s.update(Message::CursorUp).is_none());
    assert_eq!(s.buffers[0].get_cursor().pos, Pos { x: 1, y: 0 });
}

#[test]
fn state_cursor_up_on_the_first_row_asks_to_scroll() {
    let mut s = state();
    let next = s.update(Message::CursorUp);
    assert!(matches!(next, Some(Message::ScrollUp)));
    assert!(s.update(Message::ScrollUp).is_none());
    assert_eq!(s.buffers[0].get_cursor().pos, Pos { x: 0, y: 0 });
}

#[test]
fn state_key_i_enters_insert_mode() {
    let mut s = state();
    let next = press(&mut s, Key::LI);
    assert!(matches!(next, Some(Message::ChangeMode(Mode::Insert))));
    assert!(s.update(next.unwrap()).is_none());
    assert_eq!(s.mode, Mode::Insert);
    assert_eq!(s.cursor_shape(), Some(CursorStyle::BlinkingBar));
}

#[test]
fn state_typing_in_insert_mode_inserts_text() {
    let mut s = state();
    s.update(Message::ChangeMode(Mode::Insert));
    let next = press(&mut s, Key::LA);
    match next {
        Some(Message::ModeInsertInsertStr(ref t)) => assert_eq!(t, "a"),
        _ => panic!("expected typed text"),
    }
    assert!(s.update(next.unwrap()).is_none());
    assert_eq!(screen(&s)[0], "ahello\n");
    assert_eq!(s.buffers[0].get_cursor().pos, Pos { x: 1, y: 0 });
    assert!(s.update(Message::BackSpace).is_none());
    assert_eq!(screen(&s)[0], "hello\n");
}

#[test]
fn state_unbound_key_in_normal_mode_types_nothing() {
    let mut s = state();
    let next = press(&mut s, Key::LZ);
    assert!(next.is_none());
    assert_eq!(screen(&s)[0], "hello\n");
}

#[test]
fn state_partial_binding_waits_for_more_keys() {
    let mut s = state();
    let next = press(&mut s, Key::LD);
    assert!(next.is_none());
    assert_eq!(s.key_parse.get_keys().len(), 1);
}

#[test]
fn state_command_line_quit() {
    let mut s = state();
    s.update(Message::ChangeMode(Mode::Command));
    assert_eq!(s.cursor_pos(), Some(Pos { x: 1, y: 8 }));
    s.update(Message::ModeCommandInsertStr("q".to_string()));
    let next = s.update(Message::ExecuteCommand);
    assert!(matches!(next, Some(Message::Quit)));
    assert_eq!(s.mode, Mode::Normal);
    assert!(s.update(next.unwrap()).is_none());
    assert!(!s.quit());
}

#[test]
fn state_unknown_command_shows_a_message_box() {
    let mut s = state();
    s.update(Message::ChangeMode(Mode::Command));
    s.update(Message::ModeCommandInsertStr("frobnicate".to_string()));
    let next = s.update(Message::ExecuteCommand);
    assert!(matches!(next, Some(Message::UserMessage(_))));
    assert!(s.update(next.unwrap()).is_none());
    assert_eq!(s.messages.len(), 1);
    let key = KeyEvent { code: KeyCode::Char('x'), modifiers: KeyModifiers { bits: 0 } };
    let next = s.subscription(TermEvent::Key(key));
    assert!(matches!(next, Some(Message::CloseCurrentPaneOnKeyPress)));
    assert!(s.update(next.unwrap()).is_none());
    assert!(s.messages.is_empty());
}

#[test]
fn state_buffer_list_and_switch() {
    let mut s = State::new(
        vec![Buffer::from_contents("a.txt", "a"), Buffer::from_contents("b.txt", "b")],
        Size { width: 40, height: 8 },
    );
    let next = s.update(Message::BufferList);
    assert!(matches!(next, Some(Message::UserMessage(_))));
    assert!(s.update(Message::SwapBuffer("1".to_string())).is_none());
    assert_eq!(s.focused, 1);
    assert!(s.update(Message::SwapBuffer("a.txt".to_string())).is_none());
    assert_eq!(s.focused, 0);
}

#[test]
fn state_edit_file_comes_back_for_the_runtime() {
    let mut s = state();
    let next = s.update(Message::EditFile("b.txt".to_string()));
    match next {
        Some(Message::EditFile(ref f)) => assert_eq!(f, "b.txt"),
        _ => panic!("expected the file to open"),
    }
    assert!(s.edit_file_command("b.txt", "bee").is_none());
    assert_eq!(s.buffers.len(), 2);
    assert_eq!(s.focused, 1);
    assert_eq!(screen(&s)[0], "bee");
}

#[test]
fn state_subscription_maps_terminal_events() {
    let s = state();
    let key = KeyEvent { code: KeyCode::Char('j'), modifiers: KeyModifiers { bits: 0 } };
    match s.subscription(TermEvent::Key(key)) {
        Some(Message::KeyPress(k)) => assert_eq!(k, Keys::Key(Key::LJ)),
        _ => panic!("expected a key press"),
    }
    match s.subscription(TermEvent::Resize(30, 9)) {
        Some(Message::Resize(size)) => assert_eq!(size, Size { width: 30, height: 9 }),
        _ => panic!("expected a resize"),
    }
    assert!(s.subscription(TermEvent::Other).is_none());
}

#[test]
fn state_resize_and_ignored_messages() {
    let mut s = state();
    assert!(s.update(Message::Resize(Size { width: 20, height: 4 })).is_none());
    assert_eq!(s.size, Size { width: 20, height: 4 });
    assert!(s.update(Message::Delete).is_none());
    assert!(s.update(Message::ScrollLeft).is_none());
    assert_eq!(screen(&s)[0], "hello\n");
}

#[test]
fn state_user_message_shows_on_top() {
    let mut s = state();
    let m = UserMessageBuilder::default().message("hi".to_string()).footer("bye".to_string());
    assert!(s.update(Message::UserMessage(m)).is_none());
    let w = s.view_widget();
    let drawn = w.draw(Rect::new(s.size));
    assert!(drawn.iter().any(|d| d.text.starts_with("hi")));
    assert!(drawn.iter().any(|d| d.text.starts_with("bye")));
}

#[test]
fn state_view_draws_rows_status_and_command_bar() {
    let s = state();
    let w = s.view_widget();
    let drawn = w.draw(Rect::new(s.size));
    let hello = drawn.iter().find(|d| d.text.starts_with("hello")).expect("first row");
    assert_eq!((hello.x, hello.y), (0, 0));
    let world = drawn.iter().find(|d| d.text.starts_with("world")).expect("second row");
    assert_eq!((world.x, world.y), (0, 1));
    assert!(drawn.iter().any(|d| d.text.starts_with("Normal")));
    assert!(drawn.iter().any(|d| d.text.starts_with("a.txt")));
    assert!(drawn.iter().any(|d| d.text.ends_with("0/0")));
}

#[test]
fn state_set_number_commands() {
    let mut s = state();
    s.update(Message::ChangeMode(Mode::Command));
    s.update(Message::ModeCommandInsertStr("set relativenumber".to_string()));
    let next = s.update(Message::ExecuteCommand);
    assert!(matches!(next, Some(Message::SetLineNumbers(LineNumberKind::RelativeNumber))));
    assert!(s.update(next.unwrap()).is_none());
    assert_eq!(s.line_numbers, LineNumberKind::RelativeNumber);
    s.update(Message::SetLineNumbers(LineNumberKind::Off));
    assert_eq!(s.line_numbers, LineNumberKind::Off);
}

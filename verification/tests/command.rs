use revi::editor::buffer::Buffer;
use revi::editor::command::{CmdRc, Command, Editor};
use revi::engine::commands::Command as EngineCommand;
use revi::engine::mode::Mode;
use revi::ui::key::{Key, KeyCode, KeyEvent, KeyModifiers, Keys};
use revi::ui::layout::{Pos, Rect, Size};

fn editor() -> Editor {
    let mut e = Editor::new(vec![Buffer::from_contents("a.txt", "hello\nworld\n")]);
    e.current_pane_rect = Rect { x: 3, y: 0, width: 20, height: 10 };
    e
}

#[test]
fn editor_opens_the_files_after_the_command_buffer() {
    let e = Editor::new(vec![Buffer::from_contents("a.txt", "x")]);
    assert_eq!(e.buffers.len(), 2);
    assert_eq!(e.buffers[0].name, "N/A");
    assert_eq!(e.buffers[1].name, "a.txt");
    assert_eq!(e.buffer_index, 1);
    assert_eq!(e.mode, Mode::Normal);
    assert!(e.is_running);
}

#[test]
fn editor_without_files_has_an_empty_buffer() {
    let e = Editor::new(Vec::new());
    assert_eq!(e.buffers.len(), 2);
    assert_eq!(e.get_current_buffer().name, "N/A");
}

#[test]
fn pane_size_is_one_less_each_way() {
    assert_eq!(editor().get_current_pane_size(), Size { width: 19, height: 9 });
}

#[test]
fn terminal_cursor_is_right_of_the_pane_edge() {
    let mut e = editor();
    e.call(Command::CursorRight);
    assert_eq!(e.get_cursor(), Pos { x: 5, y: 0 });
}

#[test]
fn cursor_commands_move_the_current_buffer() {
    let mut e = editor();
    e.call(Command::CursorDown);
    assert_eq!(e.get_current_buffer().get_cursor().pos, Pos { x: 0, y: 1 });
    e.call(Command::CursorRight);
    e.call(Command::CursorRight);
    assert_eq!(e.get_current_buffer().get_cursor().pos, Pos { x: 2, y: 1 });
    e.call(Command::CursorLeft);
    assert_eq!(e.get_current_buffer().get_cursor().pos, Pos { x: 1, y: 1 });
    e.call(Command::CursorUp);
    assert_eq!(e.get_current_buffer().get_cursor().pos, Pos { x: 1, y: 0 });
    e.call(Command::CursorHome);
    assert_eq!(e.get_current_buffer().get_cursor().pos.x, 0);
    e.call(Command::CursorEnd);
    assert_eq!(e.get_current_buffer().get_cursor().pos.x, 4);
}

#[test]
fn cursor_up_on_the_first_row_scrolls_instead() {
    let mut e = editor();
    e.call(Command::CursorUp);
    assert_eq!(e.get_current_buffer().get_cursor().pos, Pos { x: 0, y: 0 });
    assert_eq!(e.get_current_buffer().get_cursor().scroll, Pos { x: 0, y: 0 });
}

#[test]
fn typing_inserts_at_the_cursor() {
    let mut e = editor();
    let cmd = CmdRc(Command::InsertChar("ab".to_string()));
    assert!(e.can_call(&cmd.0));
    cmd.call(&mut e);
    assert_eq!(e.get_current_buffer().get_cursor().pos, Pos { x: 2, y: 0 });
    let lines = e.get_current_buffer().on_screen(&Size { width: 20, height: 3 });
    assert_eq!(lines[0], "abhello\n");
}

#[test]
fn mode_and_quit_commands() {
    let mut e = editor();
    e.call(Command::ChangeMode(Mode::Insert));
    assert_eq!(e.mode, Mode::Insert);
    e.call(Command::Quit);
    assert!(!e.is_running);
}

#[test]
fn top_of_buffer_resets_row_and_view() {
    let mut e = editor();
    e.call(Command::CursorDown);
    e.call(Command::CursorTopOfBuffer);
    assert_eq!(e.get_current_buffer().get_cursor().pos.y, 0);
    assert_eq!(e.get_current_buffer().get_cursor().scroll.y, 0);
}

#[test]
fn bottom_of_buffer_beyond_the_text_cannot_be_called() {
    let e = editor();
    assert!(!e.can_call(&Command::CursorToBottomOfBuffer));
}

#[test]
fn key_presses_come_to_commands() {
    let mut e = editor();
    let j = KeyEvent { code: KeyCode::Char('j'), modifiers: KeyModifiers { bits: 0 } };
    let cmd = e.handle_event(Keys::from(j));
    assert!(matches!(cmd, Some(CmdRc(Command::CursorDown))));
    assert!(e.handle_event(Keys::Key(Key::LD)).is_none());
    assert_eq!(e.key_parse.get_keys(), &[Keys::Key(Key::LD)]);
    e.call(Command::ChangeMode(Mode::Insert));
    e.key_parse.clear();
    let typed = e.handle_event(Keys::Key(Key::LQ));
    assert!(matches!(typed, Some(CmdRc(Command::InsertChar(s))) if s == "q"));
}

#[test]
fn binding_commands_that_act_on_the_editor() {
    assert!(matches!(Command::from_engine(&EngineCommand::Quit), Some(Command::Quit)));
    assert!(matches!(
        Command::from_engine(&EngineCommand::InsertChar('z')),
        Some(Command::InsertChar(s)) if s == "z"
    ));
    assert!(Command::from_engine(&EngineCommand::SaveFile).is_none());
}

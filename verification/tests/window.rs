use revi::editor::position::Position;
use revi::editor::revi::{InputState, ReVi};
use revi::editor::revi_command::ReViCommand;
use revi::editor::ui::Render;
use revi::editor::window::Window;
use revi::engine::mode::Mode;
use revi::editor::keymapper::key_builder;
use revi::ui::key::Key;
use ropey::Rope;

fn window() -> Window {
    Window::new(10, 3, Rope::from_str("abc\ndef\n"), Some("f.txt".to_string()))
}

#[test]
fn window_starts_at_origin_in_normal_mode() {
    let w = window();
    assert_eq!(w.mode, Mode::Normal);
    assert_eq!(w.dimensions, Position::new(10, 3));
    assert_eq!(w.cursor, Position::new(0, 0));
    assert_eq!(w.scroll_offset, Position::new(0, 0));
    assert_eq!(w.debug, "No Info");
    assert_eq!(w.buffer_name(), "f.txt");
}

#[test]
fn unnamed_window_is_called_unnamed() {
    let w = Window::new(4, 4, Rope::new(), None);
    assert_eq!(w.buffer_name(), "UNNAMED");
}

#[test]
fn status_bar_shows_mode_name_and_places() {
    let w = window();
    let left = " Normal | f.txt ";
    let right = " 0/0 | 0/0 ";
    let expected = format!("{}{}{}", left, right, " ".repeat(left.len() + right.len()));
    assert_eq!(w.status_bar(), expected);
}

#[test]
fn status_bar_goes_under_the_window() {
    let mut w = window();
    w.window_offset = Position::new(2, 5);
    assert_eq!(w.status_bar_pos(), Position::new(2, 8));
}

#[test]
fn window_text_pads_rows_and_fills_to_height() {
    let w = window();
    assert_eq!(w.to_string(), "abc       \r\ndef       \r\n          \r\n");
}

#[test]
fn window_text_spreads_tabs_to_four_spaces() {
    let w = Window::new(10, 1, Rope::from_str("\tab\n"), None);
    assert_eq!(w.to_string(), "    ab    \r\n");
}

#[test]
fn typing_a_char_inserts_before_the_cursor() {
    let mut w = window();
    w.insert_char('x');
    assert_eq!(w.buffer.to_string(), "xabc\ndef\n");
    assert_eq!(w.cursor, Position::new(1, 0));
    assert_eq!(w.max_cursor.x, 1);
}

#[test]
fn backspace_undoes_a_typed_char() {
    let mut w = window();
    w.move_cursor_right(2);
    w.insert_char('x');
    assert_eq!(w.buffer.to_string(), "abxc\ndef\n");
    w.backspace();
    assert_eq!(w.buffer.to_string(), "abc\ndef\n");
    assert_eq!(w.cursor, Position::new(2, 0));
}

#[test]
fn backspace_at_the_start_of_the_file_does_nothing() {
    let mut w = window();
    w.backspace();
    assert_eq!(w.buffer.to_string(), "abc\ndef\n");
    assert_eq!(w.cursor, Position::new(0, 0));
}

#[test]
fn backspace_at_a_line_start_joins_it_to_the_line_above() {
    let mut w = window();
    w.move_cursor_down(1);
    w.backspace();
    assert_eq!(w.buffer.to_string(), "abcdef\n");
    assert_eq!(w.cursor, Position::new(3, 0));
}

#[test]
fn delete_removes_the_char_under_the_cursor() {
    let mut w = window();
    w.delete();
    assert_eq!(w.buffer.to_string(), "bc\ndef\n");
}

#[test]
fn delete_line_removes_the_cursors_line() {
    let mut w = window();
    w.delete_line();
    assert_eq!(w.buffer.to_string(), "def\n");
    assert_eq!(w.cursor, Position::new(0, 0));
}

#[test]
fn new_line_moves_to_the_start_of_the_next_line() {
    let mut w = window();
    w.move_cursor_right(1);
    w.insert_enter();
    assert_eq!(w.buffer.to_string(), "a\nbc\ndef\n");
    assert_eq!(w.cursor, Position::new(0, 1));
}

#[test]
fn moving_down_stops_at_the_last_line() {
    let mut w = window();
    assert!(!w.move_cursor_down(1));
    assert_eq!(w.cursor, Position::new(0, 1));
    assert!(!w.move_cursor_down(5));
    assert_eq!(w.cursor, Position::new(0, 2));
}

#[test]
fn moving_down_past_the_bottom_scrolls() {
    let mut w = Window::new(10, 2, Rope::from_str("a\nb\nc\nd\n"), None);
    assert!(w.move_cursor_down(2));
    assert_eq!(w.cursor.y, 0);
    assert_eq!(w.scroll_offset.y, 1);
}

#[test]
fn moving_up_at_the_top_scrolls_up() {
    let mut w = window();
    w.scroll_offset.y = 1;
    assert!(w.move_cursor_up(1));
    assert_eq!(w.scroll_offset.y, 0);
    assert_eq!(w.cursor, Position::new(0, 0));
}

#[test]
fn moving_right_stops_at_the_end_of_the_line() {
    let mut w = window();
    w.move_cursor_right(100);
    assert_eq!(w.cursor.x, 4);
    assert_eq!(w.max_cursor.x, 4);
    w.move_cursor_left(1);
    assert_eq!(w.cursor.x, 3);
    w.move_cursor_left(10);
    assert_eq!(w.cursor.x, 0);
}

#[test]
fn moving_down_returns_to_the_remembered_column() {
    let mut w = Window::new(10, 5, Rope::from_str("abcd\na\nabcd\n"), None);
    w.move_cursor_right(3);
    w.move_cursor_down(1);
    assert_eq!(w.cursor, Position::new(2, 1));
    w.move_cursor_down(1);
    assert_eq!(w.cursor, Position::new(3, 2));
}

#[test]
fn home_and_end_go_to_the_ends_of_the_line() {
    let mut w = window();
    w.end();
    assert_eq!(w.cursor.x, 4);
    w.home();
    assert_eq!(w.cursor.x, 0);
}

#[test]
fn cursor_places_add_the_offsets() {
    let mut w = window();
    w.cursor = Position::new(1, 2);
    w.window_offset = Position::new(3, 4);
    w.scroll_offset = Position::new(5, 6);
    assert_eq!(w.cursor_screen(), Position::new(4, 6));
    assert_eq!(w.cursor_file(), Position::new(6, 8));
}

#[test]
fn position_is_written_with_a_slash() {
    assert_eq!(Position::new(3, 14).to_string(), "3/14");
}

#[test]
fn editor_starts_with_one_window_two_rows_short() {
    let r = ReVi::new(Rope::from_str("hi\n"), Some("f".to_string()), 20, 5);
    assert!(r.is_running);
    assert_eq!(r.windows.len(), 1);
    assert_eq!(r.windows[0].dimensions, Position::new(20, 3));
    assert_eq!(r.command, " ".repeat(20));
    assert_eq!(r.size, Position::new(20, 5));
}

#[test]
fn execute_types_saves_and_quits() {
    let mut r = ReVi::new(Rope::from_str("hi\n"), Some("f".to_string()), 20, 5);
    let (state, renders, saves) = r.execute(
        1,
        &[ReViCommand::InsertChar('a'), ReViCommand::Save, ReViCommand::Quit],
    );
    assert_eq!(state, InputState::Clear);
    assert_eq!(renders.len(), 3);
    assert!(matches!(renders[0], Render::Window { .. }));
    assert!(matches!(renders[1], Render::StatusBar { .. }));
    assert!(matches!(renders[2], Render::Cursor(p) if p == Position::new(1, 0)));
    assert_eq!(saves.len(), 1);
    assert_eq!(saves[0].path, "f");
    assert_eq!(saves[0].text.to_string(), "ahi\n");
    assert!(!r.is_running);
}

#[test]
fn execute_changes_mode_and_cursor_shape() {
    let mut r = ReVi::new(Rope::from_str("hi\n"), None, 20, 5);
    let (state, renders, saves) = r.execute(1, &[ReViCommand::Mode(Mode::Insert)]);
    assert_eq!(state, InputState::Clear);
    assert!(saves.is_empty());
    assert_eq!(renders.len(), 2);
    assert!(matches!(renders[0], Render::CursorShapeLine));
    assert_eq!(*r.mode(), Mode::Insert);
    let (state, renders, _) = r.execute(1, &[ReViCommand::Mode(Mode::Command)]);
    assert_eq!(state, InputState::Clear);
    assert_eq!(renders.len(), 1);
    assert!(matches!(renders[0], Render::StatusBar { .. }));
}

#[test]
fn execute_moves_without_redrawing_the_text() {
    let mut r = ReVi::new(Rope::from_str("hi\nyo\n"), None, 20, 5);
    let (state, renders, _) = r.execute(1, &[ReViCommand::CursorDown, ReViCommand::CursorRight]);
    assert_eq!(state, InputState::Clear);
    assert_eq!(renders.len(), 4);
    assert!(matches!(renders[3], Render::Cursor(p) if p == Position::new(1, 1)));
    assert_eq!(r.cursor_position_u16(), (1, 1));
}

#[test]
fn start_up_draws_the_whole_window() {
    let mut r = ReVi::new(Rope::from_str("hi\n"), None, 4, 3);
    let (state, renders, _) = r.execute(1, &[ReViCommand::StartUp]);
    assert_eq!(state, InputState::Clear);
    assert_eq!(renders.len(), 3);
    match &renders[0] {
        Render::Window { pos, text } => {
            assert_eq!(*pos, Position::new(0, 0));
            assert_eq!(text, "hi  \r\n");
        }
        _ => panic!("expected the window's text"),
    }
    match &renders[1] {
        Render::StatusBar { pos, .. } => assert_eq!(*pos, Position::new(0, 1)),
        _ => panic!("expected the status bar"),
    }
}

#[test]
fn built_in_window_bindings() {
    let m = key_builder();
    assert_eq!(m.get_mapping(&Mode::Normal, &[Key::LJ]), Some(&vec![ReViCommand::CursorDown]));
    assert_eq!(
        m.get_mapping(&Mode::Normal, &[Key::UZ, Key::Shift, Key::UZ, Key::Shift]),
        Some(&vec![ReViCommand::Quit, ReViCommand::Save])
    );
    assert_eq!(m.get_mapping(&Mode::Insert, &[Key::Enter]), Some(&vec![ReViCommand::NewLine]));
    assert_eq!(
        m.get_mapping(&Mode::Command, &[Key::Esc]),
        Some(&vec![ReViCommand::Mode(Mode::Normal)])
    );
    assert_eq!(m.get_mapping(&Mode::Command, &[Key::LJ]), None);
    assert_eq!(m.get_mapping(&Mode::Normal, &[Key::LJ, Key::LJ]), None);
}

#[test]
fn binding_again_replaces_the_commands() {
    let m = key_builder().insert_mapping(&Mode::Normal, vec![Key::LJ], vec![ReViCommand::CursorUp]);
    assert_eq!(m.get_mapping(&Mode::Normal, &[Key::LJ]), Some(&vec![ReViCommand::CursorUp]));
    assert_eq!(m.get_mapping(&Mode::Normal, &[Key::LK]), Some(&vec![ReViCommand::CursorUp]));
    assert_eq!(m.get_mapping(&Mode::Insert, &[Key::LJ]), None);
}

#[test]
fn focused_window_can_be_changed_in_place() {
    let mut r = ReVi::new(Rope::from_str("hi\n"), None, 20, 5);
    *r.mode_mut() = Mode::Command;
    assert_eq!(r.focused_window().mode, Mode::Command);
    r.focused_window_mut().cursor = Position::new(1, 0);
    assert_eq!(r.cursor_position_u16(), (1, 0));
    r.set_cursor_position(2, 0);
    assert_eq!(r.focused_window().cursor, Position::new(2, 0));
    assert_eq!(r._windows_locations(), vec![(0, 0)]);
}

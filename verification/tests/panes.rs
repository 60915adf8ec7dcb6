use revi::engine::buffer::Buffer;
use revi::engine::command_bar::CommandBar;
use revi::engine::message_box::MessageBox;
use revi::engine::mode::Mode;
use revi::engine::pane::{
    Cursor,
    BufferBounds, BufferMut, CursorMovement, CursorPos, Pane, PaneBounds, Scrollable,
};
use revi::engine::pane_window::Window;
use revi::ui::key::{Key, Keys};
use revi::ui::layout::{Pos, Rect, Size};
use revi::ui::widget::BoxWidget;
use ropey::Rope;

#[test]
fn pane_buffer_shows_the_lines_in_view() {
    let b = Buffer::new_str("notes".to_string(), "a\nbb\nccc\n");
    assert_eq!(b.name, "notes");
    assert_eq!(b.on_screen(1), vec!["a\n".to_string(), "bb\n".to_string()]);
    assert_eq!(b.on_screen(10).len(), 4);
    assert_eq!(b.len_lines(), 3);
    assert_eq!(b.line_len(1), 3);
}

#[test]
fn pane_buffer_push_inserts_at_the_line_start() {
    let mut b = Buffer::new("x".to_string(), Rope::from_str("ab\ncd\n"));
    b.cursor.pos.y = 1;
    b.push("zz".to_string());
    assert_eq!(b.get_rope().to_string(), "ab\nzzcd\n");
    b.clear();
    assert_eq!(b.get_rope().len_chars(), 0);
    let d = Buffer::default();
    assert_eq!(d.name, "N/A");
}

#[test]
fn command_bar_types_and_erases() {
    let mut bar = CommandBar::new(Pos { x: 0, y: 9 }, 10);
    bar.insert_char('w');
    bar.insert_char('q');
    assert_eq!(bar.get_buffer_contents(), "qw");
    let mut c = bar.get_cursor_pos().unwrap();
    c.pos.x = 1;
    bar.set_cursor_pos(c);
    bar.insert_char('!');
    assert_eq!(bar.get_buffer_contents(), "q!w");
    bar.backspace();
    assert_eq!(bar.get_buffer_contents(), "!w");
    assert_eq!(bar.get_pane_bounds(), Some(Rect { x: 0, y: 0, width: 2, height: 1 }));
    assert_eq!(bar.get_buffer_bounds(), Some(Size { width: 2, height: 1 }));
    bar.clear_buffer();
    assert_eq!(bar.get_buffer_contents(), "");
}

#[test]
fn command_bar_view_has_a_colon_when_focused() {
    let mut bar = CommandBar::new(Pos { x: 0, y: 9 }, 10);
    assert!(!bar.is_active());
    match bar.view() {
        BoxWidget::Container(c) => assert_eq!(c.bounds, Rect { x: 0, y: 9, width: 10, height: 1 }),
        _ => panic!("expected a container"),
    }
    bar.set_focused(true);
    assert!(bar.is_active());
    assert!(matches!(bar.view(), BoxWidget::Container(_)));
    bar.update(Mode::Normal, Keys::Key(Key::LA));
}

#[test]
fn window_pane_sizes_and_bounds() {
    let b = Buffer::new_str("f".to_string(), "hello\nworld\nx\n");
    let w = Window::new(Pos { x: 2, y: 1 }, Size { width: 20, height: 10 }, b)
        .with_line_numbers(true)
        .with_status_bar(true);
    assert_eq!(w.text_field_size(), Size { width: 16, height: 9 });
    assert_eq!(w.cursor(), Some(Pos { x: 6, y: 1 }));
    assert_eq!(
        w.create_cursor_bounds(0),
        Rect { x: 6, y: 1, width: 10, height: 2 }
    );
    assert_eq!(w.get_line_above_bounds(), None);
    assert_eq!(w.status_bar_text(), format!("Normal  f: 0/0{}", " ".repeat(17)));
}

#[test]
fn window_pane_edits_its_text() {
    let b = Buffer::new_str("f".to_string(), "abc\ndef\n");
    let mut w = Window::new(Pos { x: 0, y: 0 }, Size { width: 20, height: 10 }, b);
    w.insert_char('x');
    assert_eq!(w.buffer.get_rope().to_string(), "xabc\ndef\n");
    w.delete();
    assert_eq!(w.buffer.get_rope().to_string(), "abc\ndef\n");
    w.delete_line();
    assert_eq!(w.buffer.get_rope().to_string(), "def\n");
    w.set_focused(true);
    assert!(w.is_active());
    w.update(Mode::Insert, Keys::Key(Key::LA));
    assert_eq!(w.mode, Mode::Insert);
    assert!(!w.close());
}

#[test]
fn message_box_footer_and_closing() {
    let b = Buffer::new_str("m".to_string(), "line one\n");
    let mut m = MessageBox::new(Pos { x: 0, y: 0 }, Size { width: 6, height: 3 }, b)
        .with_footer("footer text".to_string());
    assert_eq!(m.size, Size { width: 6, height: 4 });
    assert_eq!(m.footer_text(), "footer");
    assert!(m.cursor().is_none());
    assert!(matches!(m.view(), BoxWidget::Container(_)));
    m.update(Mode::Normal, Keys::Key(Key::LA));
    assert!(!m.close());
    m.update(Mode::Normal, Keys::Key(Key::Null));
    assert!(m.close());
}

#[test]
fn window_cursor_moves_within_its_line_and_keeps_the_text() {
    let b = Buffer::new_str("f".to_string(), "hello\nworld\nxy\nz\n");
    let mut w = Window::new(Pos { x: 0, y: 0 }, Size { width: 20, height: 10 }, b);
    w.move_cursor_right();
    w.move_cursor_right();
    assert_eq!(w.get_cursor_pos().unwrap().pos, Pos { x: 2, y: 0 });
    w.move_cursor_down();
    assert_eq!(w.get_cursor_pos().unwrap().pos, Pos { x: 2, y: 1 });
    w.move_cursor_left();
    assert_eq!(w.get_cursor_pos().unwrap().pos, Pos { x: 1, y: 1 });
    w.move_cursor_up();
    assert_eq!(w.get_cursor_pos().unwrap().pos, Pos { x: 1, y: 0 });
    w.move_cursor_up();
    assert_eq!(w.get_cursor_pos().unwrap().pos, Pos { x: 1, y: 0 });
    assert_eq!(w.buffer.get_rope().to_string(), "hello\nworld\nxy\nz\n");
    assert_eq!(w.get_buffer_bounds(), Some(Size { width: 6, height: 5 }));
}

#[test]
fn window_scrolls_within_its_text() {
    let b = Buffer::new_str("f".to_string(), "a\nb\nc\nd\n");
    let mut w = Window::new(Pos { x: 0, y: 0 }, Size { width: 20, height: 3 }, b);
    w.scroll_down();
    assert_eq!(w.get_cursor_pos().unwrap().scroll.y, 1);
    w.scroll_down();
    w.scroll_down();
    assert_eq!(w.get_cursor_pos().unwrap().scroll.y, 3);
    w.scroll_down();
    assert_eq!(w.get_cursor_pos().unwrap().scroll.y, 3);
    w.scroll_up();
    assert_eq!(w.get_cursor_pos().unwrap().scroll.y, 2);
    assert_eq!(w.buffer.get_rope().to_string(), "a\nb\nc\nd\n");
}

#[test]
fn window_view_shows_numbers_text_and_status() {
    let b = Buffer::new_str("f".to_string(), "ab\ncd\nef\n");
    let w = Window::new(Pos { x: 0, y: 0 }, Size { width: 12, height: 4 }, b)
        .with_line_numbers(true)
        .with_status_bar(true);
    let drawn = w.view().draw(Rect { x: 0, y: 0, width: 12, height: 4 });
    let texts: Vec<(String, u16, u16)> = drawn.iter().map(|d| (d.text.clone(), d.x, d.y)).collect();
    assert_eq!(
        texts,
        vec![
            (" 0  ".to_string(), 0, 0),
            ("ab cd ef".to_string(), 4, 0),
            ("Normal  f: 0".to_string(), 0, 3),
        ]
    );
}

#[test]
fn command_bar_cursor_moves_keep_the_command() {
    let mut bar = CommandBar::new(Pos { x: 0, y: 9 }, 10);
    bar.insert_char('b');
    bar.insert_char('a');
    bar.move_cursor_right();
    assert_eq!(bar.get_cursor_pos().unwrap().pos.x, 1);
    bar.move_cursor_right();
    bar.move_cursor_right();
    assert_eq!(bar.get_cursor_pos().unwrap().pos.x, 2);
    bar.move_cursor_left();
    assert_eq!(bar.get_cursor_pos().unwrap().pos.x, 1);
    bar.move_cursor_down();
    bar.move_cursor_up();
    assert_eq!(bar.get_buffer_contents(), "ab");
}

#[test]
fn message_box_cursor_moves_keep_the_text() {
    let b = Buffer::new_str("m".to_string(), "one\ntwo\nthree\n");
    let mut m = MessageBox::new(Pos { x: 0, y: 0 }, Size { width: 10, height: 3 }, b);
    m.move_cursor_down();
    assert_eq!(m.get_cursor_pos().unwrap().pos.y, 1);
    m.move_cursor_right();
    assert_eq!(m.get_cursor_pos().unwrap().pos.x, 1);
    assert_eq!(m.buffer.get_rope().to_string(), "one\ntwo\nthree\n");
}

#[test]
fn window_move_cursor_right() {
    let buf = Buffer::new_str("test file".to_string(), "this is a txt file");
    let mut pane = Window::new(Pos::default(), Size::new(10, 10), buf);
    pane.move_cursor_right();
    let left = pane.get_cursor_pos().unwrap().clone();
    let mut right = Cursor::default();
    right.pos.x += 1;
    right.max.x += 1;
    assert_eq!(left, right);
}

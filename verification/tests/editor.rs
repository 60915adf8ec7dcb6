use revi::editor::message::Message;
use revi::editor::state::{
    buffer_list_message, command_message, insert_message, swap_buffer_target,
};
use revi::editor::tui::{LineNumbers, StatusBar, Theme};
use revi::engine::command_line::{execute_command_line, goto_line_position, run_command_line, CommandLineAction};
use revi::engine::commands::{CmdRc, Command};
use revi::engine::dispatch::{decide_keys, pending_input, KeyDecision};
use revi::engine::key_parser::string_to_keys;
use revi::engine::map_keys::Mapper;
use revi::engine::line_number::LineNumberKind;
use revi::engine::mode::Mode;
use revi::engine::parse_keys::KeyParser;
use revi::engine::popup::pop_up_frame;
use revi::ui::key::{Key, KeyCode, KeyModifiers, Keys, SHIFT};
use revi::ui::layout::Pos;
use revi::ui::style::Color;

#[test]
fn pop_up_frames_each_line_to_the_longest() {
    let (text, width, height) = pop_up_frame("ab\nc");
    assert_eq!(text, "+--+\n|ab|\n|c |\n+--+");
    assert_eq!(width, 2);
    assert_eq!(height, 2);
}

#[test]
fn pop_up_of_nothing_is_an_empty_frame() {
    let (text, width, height) = pop_up_frame("");
    assert_eq!(text, "++\n++");
    assert_eq!((width, height), (0, 0));
}

#[test]
fn status_bar_parts() {
    let bar = StatusBar {
        mode: Mode::Insert,
        cursor: Pos { x: 4, y: 12 },
        filename: "main.rs".to_string(),
        file_saved: false,
        theme: Theme::default(),
    };
    assert_eq!(bar.mode_text(), "Insert ");
    assert_eq!(bar.filename_text(), "main.rs ");
    assert_eq!(bar.saved_mark(), "✘ ");
    assert_eq!(bar.cursor_text(), "4/12");
}

#[test]
fn default_theme_is_white_on_dark_grey() {
    let t = Theme::default();
    assert_eq!(t.fg, Color::White);
    assert_eq!(t.bg, Color::Rgb { r: 40, g: 40, b: 40 });
    assert_eq!(t.highlight, Color::Grey);
}

#[test]
fn line_numbers_count_from_one() {
    let l = LineNumbers::default();
    assert_eq!(l.numbers(3), vec!["1".to_string(), "2".to_string(), "3".to_string()]);
    assert!(l.numbers(0).is_empty());
}

#[test]
fn command_bar_words_become_messages() {
    assert!(matches!(command_message("q"), Message::Quit));
    assert!(matches!(command_message("  exit  "), Message::Quit));
    assert!(matches!(command_message("ls"), Message::BufferList));
    assert!(matches!(command_message("e notes.txt"), Message::EditFile(f) if f == "notes.txt"));
    assert!(matches!(command_message("b 2"), Message::SwapBuffer(a) if a == "2"));
    assert!(matches!(command_message("frobnicate"), Message::UserMessage(_)));
}

#[test]
fn buffer_list_is_a_message_box() {
    let names = vec!["a.txt".to_string(), "b.txt".to_string()];
    assert!(matches!(buffer_list_message(&names), Message::UserMessage(_)));
}

#[test]
fn switching_buffers_by_number_or_name() {
    let names = vec!["a.txt".to_string(), "b.txt".to_string(), "b.txt".to_string()];
    assert_eq!(swap_buffer_target(&names, "1"), 1);
    assert_eq!(swap_buffer_target(&names, "b.txt"), 1);
    assert_eq!(swap_buffer_target(&names, "a.txt"), 0);
}

#[test]
fn typed_text_goes_where_the_mode_says() {
    assert!(matches!(
        insert_message(Mode::Insert, "x".to_string()),
        Some(Message::ModeInsertInsertStr(s)) if s == "x"
    ));
    assert!(matches!(
        insert_message(Mode::Command, "y".to_string()),
        Some(Message::ModeCommandInsertStr(s)) if s == "y"
    ));
    assert!(insert_message(Mode::Normal, "z".to_string()).is_none());
}

#[test]
fn command_line_words() {
    assert!(matches!(execute_command_line("q"), Command::Quit));
    assert!(matches!(execute_command_line("quit"), Command::Quit));
    assert!(matches!(execute_command_line("w"), Command::SaveFile));
    assert!(matches!(execute_command_line("e a.txt"), Command::EditFile(f) if f == "e a.txt"));
    assert!(matches!(execute_command_line("ls"), Command::ListBuffers));
}

#[test]
fn command_line_actions() {
    assert!(matches!(run_command_line("42"), CommandLineAction::GotoLine(42)));
    assert!(matches!(run_command_line("q"), CommandLineAction::CloseWindow));
    assert!(matches!(run_command_line("wq"), CommandLineAction::SaveAndExit));
    assert!(matches!(run_command_line("b 3"), CommandLineAction::SwitchBuffer(3)));
    assert!(matches!(run_command_line("b x"), CommandLineAction::NoAction));
    assert!(matches!(run_command_line("e my file"), CommandLineAction::AddBuffer(f) if f == "my file"));
    match run_command_line("!ls -l") {
        CommandLineAction::Terminal { program, args } => {
            assert_eq!(program, "ls");
            assert_eq!(args, vec!["-l".to_string()]);
        }
        other => panic!("unexpected {:?}", other),
    }
    assert!(matches!(
        run_command_line("nope"),
        CommandLineAction::Error(e) if e == "unknown command: nope"
    ));
}

#[test]
fn key_strings_group_modifiers_with_their_key() {
    assert_eq!(
        string_to_keys("<C-a>j"),
        vec![Keys::KeyAndMod { key: Key::LA, modk: Key::Ctrl }, Keys::Key(Key::LJ)]
    );
}

#[test]
fn default_normal_bindings() {
    let m = Mapper::default();
    let j = m.get_mapping(&Mode::Normal, &[Keys::Key(Key::LJ)]);
    assert!(matches!(j, Some(c) if matches!(c.command, Command::CursorDown)));
    let d = [Keys::Key(Key::LD)];
    assert!(m.get_mapping(&Mode::Normal, &d).is_none());
    assert!(m.is_possible_mapping(&Mode::Normal, &d));
    let dd = [Keys::Key(Key::LD), Keys::Key(Key::LD)];
    assert!(matches!(
        m.get_mapping(&Mode::Normal, &dd),
        Some(c) if matches!(c.command, Command::DeleteLine)
    ));
}

#[test]
fn pending_keys_become_a_binding_text_or_wait() {
    let m = Mapper::default();
    let mut p = KeyParser::default();
    p.push(Keys::Key(Key::LD));
    assert!(matches!(decide_keys(&m, &mut p, Mode::Normal), KeyDecision::Wait));
    p.push(Keys::Key(Key::LD));
    assert!(matches!(
        decide_keys(&m, &mut p, Mode::Normal),
        KeyDecision::Mapping(c) if matches!(c.command, Command::DeleteLine)
    ));
    assert!(p.get_keys().is_empty());
    p.push(Keys::Key(Key::LQ));
    assert!(matches!(
        decide_keys(&m, &mut p, Mode::Insert),
        KeyDecision::Insert(s) if s == "q"
    ));
    assert!(p.get_keys().is_empty());
}

#[test]
fn pending_input_skips_keys_that_type_nothing() {
    let keys = [Keys::Key(Key::LA), Keys::Key(Key::Esc), Keys::Key(Key::LB)];
    assert_eq!(pending_input(&keys), "ab");
}

#[test]
fn test_normal_keymapper() {
    let km = Mapper::default();
    assert!(matches!(
        km.get_mapping(&Mode::Normal, &string_to_keys("k")),
        Some(c) if matches!(c.command, Command::CursorUp)
    ));
    assert!(matches!(
        km.get_mapping(&Mode::Normal, &string_to_keys("j")),
        Some(c) if matches!(c.command, Command::CursorDown)
    ));
}

#[test]
fn test_format_screen_with_filler() {
    let text = "Wow hey there this line should be way to long.\nThis is amazing cause it works\nSOOOOOOO Well\nRemoving the hard stufffffffffffffff\nnot really.";
    let width = 10;
    let height = 6;
    let offset = 15;
    let new = revi::engine::text_formater::format_screen(text, offset, width, height);
    assert_eq!(
        new,
        "his line s\r\n cause it \r\n          \r\nrd stuffff\r\n          \r\n          \r\n"
            .to_string()
    );
}

#[test]
fn test_from_crossterm_key_to_revi_key_colon() {
    let (k1, k2) = (KeyCode::Char(':'), KeyModifiers { bits: SHIFT });
    let left = (Key::from(k1), Key::from(k2));
    assert_eq!(left, (Key::Colon, Key::Null));
}

#[test]
fn test_from_crossterm_key_to_revi_key_upper_a() {
    let (k1, k2) = (KeyCode::Char('A'), KeyModifiers { bits: SHIFT });
    let left = (Key::from(k1), Key::from(k2));
    assert_eq!(left, (Key::UA, Key::Null));
}

#[test]
fn escape_returns_to_normal_mode_in_every_mode() {
    let km = Mapper::default();
    for mode in [Mode::Normal, Mode::Insert, Mode::Command] {
        assert!(matches!(
            km.get_mapping(&mode, &string_to_keys("<esc>")),
            Some(c) if matches!(c.command, Command::ChangeMode(Mode::Normal))
        ));
    }
}

#[test]
fn test_parsual_eq() {
    assert_eq!(Into::<CmdRc>::into(Command::Quit), Command::Quit.into());
}

#[test]
fn commands_compare_by_kind_text_and_order() {
    let a = Command::ExeCommandList(vec![Command::CursorUp, Command::UserCommand("x".to_string())]);
    let b = Command::ExeCommandList(vec![Command::CursorUp, Command::UserCommand("x".to_string())]);
    let c = Command::ExeCommandList(vec![Command::UserCommand("x".to_string()), Command::CursorUp]);
    assert_eq!(a, b);
    assert_ne!(a, c);
    assert_ne!(Command::UserCommand("x".to_string()), Command::UserCommand("y".to_string()));
    assert_ne!(Command::ChangeMode(Mode::Insert), Command::ChangeMode(Mode::Normal));
    assert_eq!(a.duplicate(), a);
    assert_ne!(CmdRc::new(Command::Quit), CmdRc::new(Command::SaveFile));
}

#[test]
fn set_commands_choose_the_line_numbers() {
    assert!(matches!(command_message("set number"), Message::SetLineNumbers(LineNumberKind::AbsoluteNumber)));
    assert!(matches!(
        command_message(" set relativenumber "),
        Message::SetLineNumbers(LineNumberKind::RelativeNumber)
    ));
    assert!(matches!(command_message("set nonumber"), Message::SetLineNumbers(LineNumberKind::Off)));
    assert!(matches!(command_message("set numbers"), Message::UserMessage(_)));
    assert!(matches!(command_message("set"), Message::UserMessage(_)));
}

#[test]
fn default_bindings_are_the_table_only() {
    let m = Mapper::default();
    assert!(m.get_mapping(&Mode::Normal, &[Keys::Key(Key::Backspace)]).is_none());
    assert!(!m.is_possible_mapping(&Mode::Normal, &[Keys::Key(Key::Backspace)]));
    assert!(m.is_possible_mapping(&Mode::Normal, &[Keys::Key(Key::LD)]));
    assert!(m.get_mapping(&Mode::Normal, &[Keys::Key(Key::LD)]).is_none());
    assert!(m.get_mapping(&Mode::Normal, &[Keys::Key(Key::LD), Keys::Key(Key::LD)]).is_some());
    assert!(m.get_mapping(&Mode::Insert, &[Keys::Key(Key::LJ)]).is_none());
}

#[test]
fn default_bindings_follow_the_key_tables() {
    let m = Mapper::default();
    let up = m.get_mapping(&Mode::Normal, &[Keys::Key(Key::Up)]).unwrap();
    assert_eq!(up.command, Command::CursorUp);
    assert!(m.get_mapping(&Mode::Normal, &[Keys::Key(Key::LU)]).is_none());
    let top = m.get_mapping(&Mode::Normal, &[Keys::Key(Key::LG), Keys::Key(Key::LG)]).unwrap();
    assert_eq!(top.command, Command::CursorTopOfBuffer);
    let zero = m.get_mapping(&Mode::Normal, &[Keys::Key(Key::N0)]).unwrap();
    assert_eq!(zero.command, Command::CursorHome);
    let scroll = m.get_mapping(&Mode::Normal, &[Keys::KeyAndMod { key: Key::LD, modk: Key::Ctrl }]).unwrap();
    assert_eq!(scroll.command, Command::ScrollDown);
    let left = m.get_mapping(&Mode::Insert, &[Keys::Key(Key::Left)]).unwrap();
    assert_eq!(left.command, Command::CursorLeft);
    let home = m.get_mapping(&Mode::Insert, &[Keys::Key(Key::Home)]).unwrap();
    assert_eq!(home.command, Command::CursorHome);
}

#[test]
fn last_line_and_quit_bindings() {
    let m = Mapper::default();
    let bottom = m.get_mapping(&Mode::Normal, &[Keys::Key(Key::UG)]).unwrap();
    assert_eq!(bottom.command, Command::CursorToBottomOfBuffer);
    assert!(m.is_possible_mapping(&Mode::Normal, &[Keys::Key(Key::UZ)]));
    assert!(m.get_mapping(&Mode::Normal, &[Keys::Key(Key::UZ)]).is_none());
    let quit = m.get_mapping(&Mode::Normal, &[Keys::Key(Key::UZ), Keys::Key(Key::UQ)]).unwrap();
    assert_eq!(quit.command, Command::Quit);
}

#[test]
fn goto_line_is_clipped_to_the_last_line() {
    let cursor = revi::editor::position::Position::new(3, 7);
    let inside = goto_line_position(cursor, 10, 4);
    assert_eq!((inside.x, inside.y), (3, 4));
    let past = goto_line_position(cursor, 10, 42);
    assert_eq!((past.x, past.y), (3, 10));
}

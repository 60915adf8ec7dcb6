use revi::engine::key_parser::{specal_keys, string_to_key};
use revi::ui::key::Key;

fn chars(s: &str) -> Vec<char> {
    s.chars().collect()
}

#[test]
fn specal_keys_parser() {
    let string = "esc>";
    assert_eq!(vec![Key::Esc], specal_keys(&chars(string), 0).0);

    let string = "space>";
    assert_eq!(vec![Key::Space], specal_keys(&chars(string), 0).0);

    let string = "C-c>";
    assert_eq!(vec![Key::Ctrl, Key::LC], specal_keys(&chars(string), 0).0);
}

#[test]
fn test_parse_string_space_a() {
    let string = "<space>a";
    assert_eq!(vec![Key::Space, Key::LA], string_to_key(string));
}

#[test]
fn parse_ctrl_a() {
    let string = "<C-a>";
    println!("{:?}", string);
    assert_eq!(vec![Key::Ctrl, Key::LA], string_to_key(string));
}

#[test]
fn parse_tab() {
    let string = "<tab>";
    println!("{:?}", string);
    assert_eq!(vec![Key::Tab], string_to_key(string));
}

#[test]
fn parse_esc() {
    let string = "<esc>";
    println!("{:?}", string);
    assert_eq!(vec![Key::Esc], string_to_key(string));
}

#[test]
fn parse_ctrl_h() {
    let string = "<C-h>";
    println!("{:?}", string);
    assert_eq!(vec![Key::Ctrl, Key::LH], string_to_key(string));
}

#[test]
fn parse_i() {
    let string = "i";
    println!("{:?}", string);
    assert_eq!(vec![Key::LI], string_to_key(string));
}

#[test]
#[allow(non_snake_case)]
fn parse_I() {
    let string = "I";
    println!("{:?}", string);
    assert_eq!(vec![Key::UI], string_to_key(string));
}

use revi::engine::text_formater::{format_line, format_screen};

#[test]
fn test_formate_line() {
    let line = "Wow\n";
    let width = 10;
    let offset = 0;
    let filler = ' ';
    let new = format_line(line, filler, offset, width);
    assert_eq!(new, "Wow       \r\n".to_string());
    let new = format_line(line, filler, offset + 1, width);
    assert_eq!(new, "ow        \r\n".to_string());
    let new = format_line(line, filler, offset + 2, width);
    assert_eq!(new, "w         \r\n".to_string());
    let new = format_line(line, filler, offset + 3, width);
    assert_eq!(new, "          \r\n".to_string());
    let new = format_line(line, filler, offset + 5, width);
    assert_eq!(new, "          \r\n".to_string());
}

#[test]
fn test_formate_long_line() {
    let line = "1 2 3 4 5 6 7 8 9 0\n";
    let width = 10;
    let offset = 0;
    let filler = ' ';
    let new = format_line(line, filler, offset, width);
    assert_eq!(new, "1 2 3 4 5 \r\n".to_string());

    let new = format_line(line, filler, offset + 1, width);
    assert_eq!(new, " 2 3 4 5 6\r\n".to_string());

    let new = format_line(line, filler, offset + 2, width);
    assert_eq!(new, "2 3 4 5 6 \r\n".to_string());
}

#[test]
fn test_format_screen() {
    let view = "Wow\nThis is amazing cause it works\nSOOOOOOO Well\nRemoving the hard stufffffffffffffff\nnot really.";
    let width = 10;
    let height = 3;
    let offset = 5;
    let new = format_screen(view, offset, width, height);
    println!("{}", new);
    assert_eq!(
        new,
        "          \r\nis amazing\r\nOOO Well  \r\n".to_string()
    );
}

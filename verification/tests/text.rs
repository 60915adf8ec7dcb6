use revi::ui::layout::Alignment;
use revi::ui::text::format_line;

#[test]
fn test_format_line() {
    let width = 20;
    let default = format_line("hello", width, &Alignment::Left);
    assert_eq!(default, "hello               ".to_string());
    let default = format_line("hello", width, &Alignment::Right);
    assert_eq!(default, "               hello".to_string());
    let default = format_line("hello", 3, &Alignment::Left);
    assert_eq!(default, "hel".to_string());
}

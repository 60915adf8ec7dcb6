use revi::engine::line_number::{absolute_line_numbers, relative_line_numbers, LineNumberBuilder};

const WIDTH: usize = 5;

fn builder_for_curor_line_0() -> LineNumberBuilder {
    LineNumberBuilder {
        width: WIDTH - 1,
        height: 10,
        line_len: 2,
        cursor_pos: 0,
        window_offset: 0,
        blank_line: "~".into(),
    }
}

#[test]
fn test_absolute_line_numbers() {
    let builder = builder_for_curor_line_0();
    let left = absolute_line_numbers(builder.clone());
    let right = vec![
        "   0 ", "   1 ", "   ~ ", "   ~ ", "   ~ ", "   ~ ", "   ~ ", "   ~ ", "   ~ ", "   ~ ",
    ]
    .iter()
    .map(ToString::to_string)
    .collect::<Vec<_>>();
    assert_eq!(left, right);
}

#[test]
fn test_relative_line_numbers_0() {
    let builder = builder_for_curor_line_0();
    let left = absolute_line_numbers(builder.clone());
    let right = vec![
        "   0 ", "   1 ", "   ~ ", "   ~ ", "   ~ ", "   ~ ", "   ~ ", "   ~ ", "   ~ ", "   ~ ",
    ]
    .iter()
    .map(ToString::to_string)
    .collect::<Vec<_>>();
    assert_eq!(left, right);
}

#[test]
fn test_relative_line_numbers_1() {
    let builder = LineNumberBuilder {
        width: WIDTH - 1,
        height: 10,
        line_len: 20,
        cursor_pos: 5,
        window_offset: 0,
        blank_line: "~".into(),
    };
    let left = relative_line_numbers(builder.clone());
    let right = vec![
        "   5 ", "   4 ", "   3 ", "   2 ", "   1 ", "   0 ", "   1 ", "   2 ", "   3 ", "   4 ",
    ]
    .iter()
    .map(ToString::to_string)
    .collect::<Vec<_>>();
    assert_eq!(left, right);
}

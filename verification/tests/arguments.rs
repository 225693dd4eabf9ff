use pdf_exam_tools_lib::arguments::{parse_color, parse_rect, ArgumentError};
use pdf_exam_tools_lib::{Color, Rect};

fn corners(rect: &Rect) -> [f32; 4] {
    [rect.x1.to_bits(), rect.y1.to_bits(), rect.x2.to_bits(), rect.y2.to_bits()].map(f32::from_bits)
}

fn components(color: &Color) -> [f32; 3] {
    [color.r.to_bits(), color.g.to_bits(), color.b.to_bits()].map(f32::from_bits)
}

#[test]
fn rect_is_read_from_four_numbers() {
    assert_eq!(corners(&parse_rect("10,20,30,40").unwrap()), [10.0, 20.0, 30.0, 40.0]);
    assert_eq!(corners(&parse_rect("0.5,-2,1e3,.25").unwrap()), [0.5, -2.0, 1000.0, 0.25]);
    assert_eq!(corners(&parse_rect("500,750,580,770").unwrap()), [500.0, 750.0, 580.0, 770.0]);
}

#[test]
fn white_space_around_a_number_does_not_count() {
    assert_eq!(corners(&parse_rect(" 1 ,\t2\n, 3,4  ").unwrap()), [1.0, 2.0, 3.0, 4.0]);
    assert_eq!(components(&parse_color(" 0.25 , 0.5,1 ").unwrap()), [0.25, 0.5, 1.0]);
    assert!(matches!(
        parse_rect("1 2,3,4,5"),
        Err(ArgumentError::Number { index: 0, value, .. }) if value == "1 2"
    ));
}

#[test]
fn rect_of_another_number_of_values_is_refused() {
    for (text, pieces) in [("", 1), ("1", 1), ("1,2,3", 3), ("1,2,3,4,5", 5), ("1,2,3,4,", 5), (",,", 3)] {
        assert!(matches!(
            parse_rect(text),
            Err(ArgumentError::Count { expected: 4, found }) if found == pieces
        ));
    }
    assert!(matches!(parse_rect("x,y"), Err(ArgumentError::Count { expected: 4, found: 2 })));
}

#[test]
fn first_value_that_is_no_number_is_reported() {
    match parse_rect("1, two ,three,4") {
        Err(ArgumentError::Number { index, value, reason }) => {
            assert_eq!(index, 1);
            assert_eq!(value, "two");
            assert_eq!(reason, "two".parse::<f32>().unwrap_err().to_string());
        }
        other => panic!("{:?}", other),
    }
    match parse_rect("1,2,3,") {
        Err(ArgumentError::Number { index, value, reason }) => {
            assert_eq!(index, 3);
            assert_eq!(value, "");
            assert_eq!(reason, "".parse::<f32>().unwrap_err().to_string());
        }
        other => panic!("{:?}", other),
    }
    assert!(matches!(
        parse_color("0.5,g,b"),
        Err(ArgumentError::Number { index: 1, value, .. }) if value == "g"
    ));
    assert!(matches!(
        parse_color("7,0,b"),
        Err(ArgumentError::Number { index: 2, value, .. }) if value == "b"
    ));
}

#[test]
fn color_is_read_from_three_numbers_in_range() {
    assert_eq!(components(&parse_color("1,0,0").unwrap()), [1.0, 0.0, 0.0]);
    assert_eq!(components(&parse_color("0.2,0.4,0.6").unwrap()), [0.2, 0.4, 0.6]);
    assert_eq!(components(&parse_color("-0,1.0,0.999").unwrap()), [-0.0, 1.0, 0.999]);
    for text in ["1.0001,0,0", "0,-0.1,0", "0,0,2", "NaN,0,0", "0,inf,0", "0,0,-inf"] {
        assert!(matches!(parse_color(text), Err(ArgumentError::Range)), "{}", text);
    }
    for (text, pieces) in [("", 1), ("1,0", 2), ("1,0,0,0", 4)] {
        assert!(matches!(
            parse_color(text),
            Err(ArgumentError::Count { expected: 3, found }) if found == pieces
        ));
    }
}

use lopdf::{Dictionary, Object, StringFormat};
use pdf_exam_tools_lib::annotation_utils::{
    extract_border_style_property, extract_color_property, get_annotation_contents,
    get_annotation_label, get_annotation_rect, set_annotation_contents, set_annotation_label,
};
use pdf_exam_tools_lib::error::{Defect, LibError};
use pdf_exam_tools_lib::{Color, Real, Rect};

fn number(real: &Real) -> f32 {
    f32::from_bits(real.to_bits())
}

fn corners(rect: &Rect) -> [f32; 4] {
    [number(&rect.x1), number(&rect.y1), number(&rect.x2), number(&rect.y2)]
}

fn components(color: &Color) -> [f32; 3] {
    [number(&color.r), number(&color.g), number(&color.b)]
}

fn reals(values: &[f32]) -> Object {
    Object::Array(values.iter().map(|v| Object::Real(*v)).collect())
}

fn with_entry(key: &str, value: Object) -> Dictionary {
    let mut dict = Dictionary::new();
    dict.set(key, value);
    dict
}

#[test]
fn label_is_written_as_a_literal_string_and_read_back() {
    let mut dict = Dictionary::new();
    assert_eq!(get_annotation_label(&dict), None);
    set_annotation_label(&mut dict, "q1_score");
    assert_eq!(
        dict.get(b"T").unwrap(),
        &Object::String(b"q1_score".to_vec(), StringFormat::Literal)
    );
    assert_eq!(get_annotation_label(&dict), Some("q1_score".to_string()));
    set_annotation_label(&mut dict, "q2");
    assert_eq!(get_annotation_label(&dict), Some("q2".to_string()));
    assert_eq!(dict.len(), 1);
}

#[test]
fn label_in_hexadecimal_notation_is_read() {
    let dict = with_entry("T", Object::String(b"box".to_vec(), StringFormat::Hexadecimal));
    assert_eq!(get_annotation_label(&dict), Some("box".to_string()));
}

#[test]
fn label_that_is_no_string_is_none() {
    assert_eq!(get_annotation_label(&with_entry("T", Object::Name(b"box".to_vec()))), None);
    assert_eq!(get_annotation_label(&with_entry("T", Object::Integer(3))), None);
    assert_eq!(get_annotation_contents(&with_entry("Contents", Object::Null)), None);
}

#[test]
fn text_that_is_not_utf8_is_decoded_leniently() {
    let dict = with_entry("T", Object::String(vec![b'a', 0xff, b'b'], StringFormat::Literal));
    assert_eq!(get_annotation_label(&dict), Some("a\u{fffd}b".to_string()));
    let dict = with_entry("Contents", Object::String("é".as_bytes().to_vec(), StringFormat::Literal));
    assert_eq!(get_annotation_contents(&dict), Some("é".to_string()));
}

#[test]
fn contents_are_set_and_appearance_is_dropped() {
    let mut dict = Dictionary::new();
    dict.set("Contents", Object::string_literal("old"));
    dict.set("RC", Object::string_literal("<p>old</p>"));
    dict.set("AP", Object::Dictionary(Dictionary::new()));
    dict.set("DA", Object::string_literal("/Helvetica 12 Tf 0 0 0 rg"));
    set_annotation_contents(&mut dict, "7/10");
    assert_eq!(get_annotation_contents(&dict), Some("7/10".to_string()));
    assert_eq!(
        dict.get(b"Contents").unwrap(),
        &Object::String(b"7/10".to_vec(), StringFormat::Literal)
    );
    assert!(!dict.has(b"RC"));
    assert!(!dict.has(b"AP"));
    assert!(dict.has(b"DA"));
}

#[test]
fn setting_contents_twice_is_setting_them_once() {
    let mut once = Dictionary::new();
    once.set("T", Object::string_literal("label"));
    once.set("AP", Object::Integer(1));
    let mut twice = once.clone();
    set_annotation_contents(&mut once, "same");
    set_annotation_contents(&mut twice, "same");
    set_annotation_contents(&mut twice, "same");
    assert_eq!(once, twice);
    assert!(!twice.has(b"RC"));
    assert!(!twice.has(b"AP"));
    assert_eq!(get_annotation_label(&twice), Some("label".to_string()));
}

#[test]
fn rect_is_read_from_reals_and_integers() {
    let dict = with_entry("Rect", reals(&[500.0, 750.0, 580.0, 770.0]));
    assert_eq!(corners(&get_annotation_rect(&dict).unwrap()), [500.0, 750.0, 580.0, 770.0]);
    let dict = with_entry(
        "Rect",
        Object::Array(vec![
            Object::Integer(100),
            Object::Real(100.5),
            Object::Integer(-200),
            Object::Real(1e-6),
        ]),
    );
    assert_eq!(corners(&get_annotation_rect(&dict).unwrap()), [100.0, 100.5, -200.0, 1e-6]);
}

#[test]
fn rect_keeps_a_large_integer_as_the_nearest_real() {
    let dict = with_entry(
        "Rect",
        Object::Array(vec![
            Object::Integer(16_777_217),
            Object::Integer(i64::MAX),
            Object::Integer(i64::MIN),
            Object::Integer(0),
        ]),
    );
    let rect = get_annotation_rect(&dict).unwrap();
    assert_eq!(corners(&rect), [16_777_217i64 as f32, i64::MAX as f32, i64::MIN as f32, 0.0]);
}

#[test]
fn rect_that_is_missing_or_malformed_is_an_error() {
    let no_rect = Dictionary::new();
    let short = with_entry("Rect", reals(&[1.0, 2.0, 3.0]));
    let long = with_entry("Rect", reals(&[1.0, 2.0, 3.0, 4.0, 5.0]));
    let no_array = with_entry("Rect", Object::Real(1.0));
    let no_number = with_entry(
        "Rect",
        Object::Array(vec![
            Object::Real(1.0),
            Object::Real(2.0),
            Object::Name(b"x".to_vec()),
            Object::Real(4.0),
        ]),
    );
    for dict in [no_rect, short, long, no_array, no_number] {
        assert!(matches!(
            get_annotation_rect(&dict),
            Err(LibError::Malformed(Defect::Rect))
        ));
    }
}

#[test]
fn color_inside_the_unit_cube_is_read() {
    for triple in [
        [0.0f32, 0.0, 0.0],
        [1.0, 1.0, 1.0],
        [1.0, 0.0, 0.0],
        [0.25, 0.5, 0.75],
        [-0.0, f32::MIN_POSITIVE, 1e-45],
        [0.99999994, 1.0, 0.0],
    ] {
        let dict = with_entry("C", reals(&triple));
        let color = extract_color_property(&dict, b"C").unwrap();
        assert_eq!(components(&color).map(f32::to_bits), triple.map(f32::to_bits));
    }
}

#[test]
fn color_outside_the_unit_cube_is_rejected() {
    for triple in [
        [1.0000001f32, 0.0, 0.0],
        [0.0, -1e-45, 0.0],
        [0.0, 0.0, 2.0],
        [f32::NAN, 0.0, 0.0],
        [0.0, -f32::NAN, 0.0],
        [0.0, f32::INFINITY, 0.0],
        [f32::NEG_INFINITY, 0.5, 0.5],
        [-1.0, -1.0, -1.0],
    ] {
        let dict = with_entry("IC", reals(&triple));
        assert!(extract_color_property(&dict, b"IC").is_none());
    }
}

#[test]
fn color_agrees_with_the_comparison_of_numbers() {
    let samples = [
        0.0f32, -0.0, 1.0, 0.5, 1.0000001, 0.99999994, -1e-45, 1e-45, 2.0, -2.0, 1e30, -1e30,
        f32::NAN, f32::INFINITY, f32::NEG_INFINITY, f32::MAX, f32::MIN, f32::MIN_POSITIVE,
    ];
    for r in samples {
        for g in [0.0f32, 1.0, 1.5, -0.5] {
            let expected = (0.0..=1.0).contains(&r) && (0.0..=1.0).contains(&g);
            let dict = with_entry("C", reals(&[r, g, 0.5]));
            assert_eq!(extract_color_property(&dict, b"C").is_some(), expected);
        }
    }
}

#[test]
fn color_with_integers_is_read_as_reals() {
    let dict = with_entry(
        "C",
        Object::Array(vec![Object::Integer(1), Object::Integer(0), Object::Real(0.5)]),
    );
    let color = extract_color_property(&dict, b"C").unwrap();
    assert_eq!(components(&color), [1.0, 0.0, 0.5]);
    let dict = with_entry(
        "C",
        Object::Array(vec![Object::Integer(2), Object::Integer(0), Object::Integer(0)]),
    );
    assert!(extract_color_property(&dict, b"C").is_none());
}

#[test]
fn color_of_another_shape_is_none() {
    assert!(extract_color_property(&Dictionary::new(), b"C").is_none());
    assert!(extract_color_property(&with_entry("C", reals(&[0.5])), b"C").is_none());
    assert!(extract_color_property(&with_entry("C", reals(&[0.1, 0.2, 0.3, 0.4])), b"C").is_none());
    assert!(extract_color_property(&with_entry("C", Object::Real(0.5)), b"C").is_none());
    let named = Object::Array(vec![Object::Real(0.1), Object::Null, Object::Real(0.3)]);
    assert!(extract_color_property(&with_entry("C", named), b"C").is_none());
    assert!(extract_color_property(&with_entry("C", reals(&[0.1, 0.2, 0.3])), b"IC").is_none());
}

#[test]
fn border_width_comes_from_the_style_dictionary_first() {
    let mut dict = with_entry("BS", Object::Dictionary(with_entry("W", Object::Real(2.0))));
    dict.set("Border", reals(&[0.0, 0.0, 5.0]));
    let style = extract_border_style_property(&dict).unwrap();
    assert_eq!(number(&style.width), 2.0);
}

#[test]
fn border_width_falls_back_to_the_border_array() {
    let dict = with_entry(
        "Border",
        Object::Array(vec![Object::Integer(0), Object::Integer(0), Object::Integer(3)]),
    );
    assert_eq!(number(&extract_border_style_property(&dict).unwrap().width), 3.0);
    let mut dict = with_entry("BS", Object::Dictionary(with_entry("S", Object::Name(b"S".to_vec()))));
    dict.set("Border", reals(&[1.0, 1.0, 0.0, 9.0]));
    assert_eq!(number(&extract_border_style_property(&dict).unwrap().width), 0.0);
    let mut dict = with_entry("BS", Object::Integer(1));
    dict.set("Border", reals(&[1.0, 1.0, 1.5]));
    assert_eq!(number(&extract_border_style_property(&dict).unwrap().width), 1.5);
}

#[test]
fn negative_border_width_does_not_count() {
    let mut dict = with_entry("BS", Object::Dictionary(with_entry("W", Object::Real(-1.0))));
    assert!(extract_border_style_property(&dict).is_none());
    dict.set("Border", reals(&[0.0, 0.0, 4.0]));
    assert_eq!(number(&extract_border_style_property(&dict).unwrap().width), 4.0);
    let dict = with_entry("Border", reals(&[0.0, 0.0, -4.0]));
    assert!(extract_border_style_property(&dict).is_none());
    let dict = with_entry("Border", reals(&[0.0, 0.0, f32::NAN]));
    assert!(extract_border_style_property(&dict).is_none());
    let dict = with_entry("Border", reals(&[0.0, 0.0, -0.0]));
    assert_eq!(number(&extract_border_style_property(&dict).unwrap().width).to_bits(), (-0.0f32).to_bits());
    let dict = with_entry("Border", reals(&[0.0, 0.0, f32::INFINITY]));
    assert_eq!(number(&extract_border_style_property(&dict).unwrap().width), f32::INFINITY);
}

#[test]
fn border_of_another_shape_is_none() {
    assert!(extract_border_style_property(&Dictionary::new()).is_none());
    assert!(extract_border_style_property(&with_entry("Border", reals(&[0.0, 1.0]))).is_none());
    assert!(extract_border_style_property(&with_entry("Border", Object::Real(1.0))).is_none());
    let named = Object::Array(vec![Object::Real(0.0), Object::Real(0.0), Object::Name(b"W".to_vec())]);
    assert!(extract_border_style_property(&with_entry("Border", named)).is_none());
}

#[test]
fn real_keeps_its_bits_and_prints_as_a_number() {
    for value in [0.0f32, -0.0, 12.0, 10.5, 1e-6, f32::MAX, f32::NAN, f32::INFINITY] {
        let real = Real::from_object(Object::Real(value)).unwrap();
        assert_eq!(real.to_bits(), value.to_bits());
        assert_eq!(real.clone().to_bits(), value.to_bits());
        assert_eq!(real.to_object().as_f32().unwrap().to_bits(), value.to_bits());
        assert_eq!(real.to_text(), format!("{}", value));
    }
    assert_eq!(Real::from_object(Object::Real(12.0)).unwrap().to_text(), "12");
    assert_eq!(Real::from_object(Object::Real(10.5)).unwrap().to_text(), "10.5");
}

#[test]
fn real_is_made_of_real_objects_only() {
    assert!(Real::from_object(Object::Integer(1)).is_none());
    assert!(Real::from_object(Object::Null).is_none());
    assert!(Real::from_object(Object::Name(b"1.0".to_vec())).is_none());
    assert_eq!(number(&Real::from_number(&Object::Integer(612)).unwrap()), 612.0);
    assert_eq!(number(&Real::from_number(&Object::Real(0.5)).unwrap()), 0.5);
    assert!(Real::from_number(&Object::Boolean(true)).is_none());
    assert_eq!(number(&Real::from_integer(-3)), -3.0);
    assert_eq!(number(&Real::from_integer(i64::MAX)), i64::MAX as f32);
}

#[test]
fn real_comparisons_agree_with_the_numbers() {
    let samples = [
        0.0f32, -0.0, 1.0, 72.0, 72.00001, 71.99999, 100.0, 100.00001, -1e-45, 1e-45, -5.0,
        f32::NAN, -f32::NAN, f32::INFINITY, f32::NEG_INFINITY, f32::MAX, f32::MIN,
    ];
    for value in samples {
        let real = Real::from_object(Object::Real(value)).unwrap();
        assert_eq!(real.is_unit(), (0.0..=1.0).contains(&value));
        assert_eq!(real.is_non_negative(), value >= 0.0);
        assert_eq!(real.is_below_zero(), value < 0.0);
        assert_eq!(real.is_at_most_zero(), value <= 0.0);
        assert_eq!(real.exceeds(72.0f32.to_bits()), value > 72.0);
        assert_eq!(real.exceeds(0.0f32.to_bits()), value > 0.0);
        assert_eq!(real.exceeds(100.0f32.to_bits()), value > 100.0);
    }
}

#[test]
fn integers_are_cast_to_the_reals_that_the_library_counts_on() {
    assert_eq!(Real::from_integer(0).to_bits(), 0);
    assert_eq!(Real::from_integer(1).to_bits(), 0x3F80_0000);
    assert_eq!(Real::from_integer(10).to_bits(), 0x4120_0000);
    assert_eq!(Real::from_integer(12).to_bits(), 0x4140_0000);
    assert_eq!(Real::from_integer(612).to_bits(), 0x4419_0000);
    assert_eq!(Real::from_integer(792).to_bits(), 0x4446_0000);
    for i in [2, 3, 72, 612, 1 << 24, (1 << 24) + 1, i64::MAX - 1, i64::MAX] {
        let bits = Real::from_integer(i).to_bits();
        assert!(0x3F80_0000 < bits && bits < 0x7F80_0000);
        assert_eq!(Real::from_number(&Object::Integer(i)).unwrap().to_bits(), bits);
    }
    for i in [-1, -2, -612, -(1 << 24) - 1, i64::MIN + 1, i64::MIN] {
        let bits = Real::from_integer(i).to_bits();
        assert!(0xBF80_0000 <= bits && bits < 0xFF80_0000);
    }
    assert_eq!(Real::from_integer(-1).to_bits(), 0xBF80_0000);
}

#[test]
fn integer_color_components_in_range_are_zero_and_one() {
    for (items, expected) in [
        (vec![Object::Integer(0), Object::Integer(1), Object::Integer(1)], true),
        (vec![Object::Integer(1), Object::Real(0.5), Object::Integer(0)], true),
        (vec![Object::Integer(2), Object::Integer(0), Object::Integer(0)], false),
        (vec![Object::Integer(0), Object::Integer(-1), Object::Integer(0)], false),
        (vec![Object::Integer(0), Object::Integer(0), Object::Integer(i64::MAX)], false),
        (vec![Object::Integer(0), Object::Integer(0), Object::Integer(i64::MIN)], false),
    ] {
        let dict = with_entry("C", Object::Array(items));
        assert_eq!(extract_color_property(&dict, b"C").is_some(), expected);
    }
}

#[test]
fn real_is_parsed_from_text() {
    assert_eq!(number(&Real::parse("12.5").unwrap()), 12.5);
    assert_eq!(number(&Real::parse("-3").unwrap()), -3.0);
    assert_eq!(Real::parse("1e2").unwrap().to_bits(), 100.0f32.to_bits());
    assert!(number(&Real::parse("NaN").unwrap()).is_nan());
    assert_eq!(Real::parse("").unwrap_err(), "".parse::<f32>().unwrap_err().to_string());
    assert_eq!(Real::parse("1,5").unwrap_err(), "1,5".parse::<f32>().unwrap_err().to_string());
    assert!(Real::parse(" 1").is_err());
}

use lopdf::Object;
use pdf_exam_tools_lib::config::{default_font_family, default_font_size, default_offset};
use pdf_exam_tools_lib::error::{LibError, Setting};
use pdf_exam_tools_lib::{Config, Corner, FontConfig, PdfMetadata, PositionConfig, Real};

fn number(real: &Real) -> f32 {
    f32::from_bits(real.to_bits())
}

fn with(size: f32, x_offset: f32, y_offset: f32) -> Config {
    let mut config = Config::default();
    config.font.size = Real::from_object(Object::Real(size)).unwrap();
    config.position.x_offset = Real::from_object(Object::Real(x_offset)).unwrap();
    config.position.y_offset = Real::from_object(Object::Real(y_offset)).unwrap();
    config
}

#[test]
fn config_test_default_config() {
    let config = Config::default();

    assert_eq!(config.input_dir, "./input");
    assert_eq!(config.output_dir, "./output");
    assert!(!config.recursive);
    assert_eq!(number(&config.font.size), 12.0);
    assert_eq!(config.font.family, "Helvetica");
    assert_eq!(config.font.fallback, Some("Arial".to_string()));
    assert_eq!(config.position.corner, Corner::TopRight);
    assert_eq!(number(&config.position.x_offset), 10.0);
    assert_eq!(number(&config.position.y_offset), 10.0);
}

#[test]
fn integration_test_test_default_config() {
    let config = Config::default();

    assert_eq!(config.input_dir, "./input");
    assert_eq!(config.output_dir, "./output");
    assert!(!config.recursive);
    assert_eq!(number(&config.font.size), 12.0);
    assert_eq!(config.position.corner, Corner::TopRight);
    assert_eq!(number(&config.position.x_offset), 10.0);
    assert_eq!(number(&config.position.y_offset), 10.0);
}

#[test]
fn parts_default_to_the_same_values() {
    let font = FontConfig::default();
    assert_eq!(number(&font.size), 12.0);
    assert_eq!(font.family, "Helvetica");
    assert_eq!(font.fallback, Some("Arial".to_string()));
    let position = PositionConfig::default();
    assert_eq!(position.corner, Corner::TopRight);
    assert_eq!(number(&position.x_offset), 10.0);
    assert_eq!(number(&position.y_offset), 10.0);
    assert_eq!(number(&default_font_size()), 12.0);
    assert_eq!(default_font_family(), "Helvetica");
    assert_eq!(number(&default_offset()), 10.0);
    let metadata = PdfMetadata::default();
    assert!(metadata.title.is_none() && metadata.modification_date.is_none());
}

#[test]
fn default_settings_are_valid() {
    assert!(Config::default().validate().is_ok());
}

#[test]
fn font_size_must_be_more_than_zero_and_at_most_72() {
    for size in [1e-45f32, 0.5, 12.0, 71.99999, 72.0] {
        assert!(with(size, 10.0, 10.0).validate().is_ok());
    }
    for size in [0.0f32, -0.0, -1.0, 72.00001, 100.0, f32::INFINITY, f32::NEG_INFINITY] {
        assert!(matches!(
            with(size, 10.0, 10.0).validate(),
            Err(LibError::Configuration(Setting::FontSize))
        ));
    }
}

#[test]
fn offsets_must_be_at_least_zero_and_at_most_100() {
    for offset in [0.0f32, -0.0, 1e-45, 50.0, 99.99999, 100.0] {
        assert!(with(12.0, offset, 10.0).validate().is_ok());
        assert!(with(12.0, 10.0, offset).validate().is_ok());
    }
    for offset in [-1e-45f32, -1.0, 100.00001, 1e9, f32::INFINITY, f32::NEG_INFINITY] {
        assert!(matches!(
            with(12.0, offset, 10.0).validate(),
            Err(LibError::Configuration(Setting::XOffset))
        ));
        assert!(matches!(
            with(12.0, 10.0, offset).validate(),
            Err(LibError::Configuration(Setting::YOffset))
        ));
    }
}

#[test]
fn settings_that_are_no_numbers_pass_as_the_comparisons_do() {
    let size = f32::NAN;
    assert_eq!(with(size, 10.0, 10.0).validate().is_ok(), !(size <= 0.0 || size > 72.0));
    assert!(with(12.0, f32::NAN, -f32::NAN).validate().is_ok());
}

#[test]
fn first_setting_out_of_range_is_reported() {
    assert!(matches!(
        with(0.0, -1.0, -1.0).validate(),
        Err(LibError::Configuration(Setting::FontSize))
    ));
    assert!(matches!(
        with(12.0, 101.0, 101.0).validate(),
        Err(LibError::Configuration(Setting::XOffset))
    ));
    assert!(matches!(
        with(12.0, 100.0, 101.0).validate(),
        Err(LibError::Configuration(Setting::YOffset))
    ));
}

#[test]
fn default_settings_are_in_range() {
    let config = Config::default();
    assert!(config.validate().is_ok());
    assert_eq!(config.font.size.to_bits(), 0x4140_0000);
    assert_eq!(default_font_size().to_bits(), 0x4140_0000);
    assert_eq!(config.position.x_offset.to_bits(), 0x4120_0000);
    assert_eq!(config.position.y_offset.to_bits(), 0x4120_0000);
    assert_eq!(default_offset().to_bits(), 0x4120_0000);
    assert_eq!(FontConfig::default().size.to_bits(), 0x4140_0000);
    assert_eq!(PositionConfig::default().x_offset.to_bits(), 0x4120_0000);
}

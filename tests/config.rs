use thumbnail_relay::config::{parse_dimensions, Config, DimensionError, DEFAULT_WIDTH};

#[test]
fn height_defaults_to_width() {
    let c = parse_dimensions(Some("150"), None, false, DEFAULT_WIDTH).ok().unwrap();
    assert_eq!(c, Config { width: 150, height: 150, crop: false });
}

#[test]
fn width_defaults_to_default_width() {
    let c = parse_dimensions(None, None, false, DEFAULT_WIDTH).ok().unwrap();
    assert_eq!(c, Config { width: 150, height: 150, crop: false });
    let c = parse_dimensions(None, Some("80"), true, DEFAULT_WIDTH).ok().unwrap();
    assert_eq!(c, Config { width: 150, height: 80, crop: true });
}

#[test]
fn both_dimensions_given() {
    let c = parse_dimensions(Some("320"), Some("200"), true, DEFAULT_WIDTH).ok().unwrap();
    assert_eq!(c, Config { width: 320, height: 200, crop: true });
}

#[test]
fn bad_width_is_refused() {
    match parse_dimensions(Some("wide"), Some("x"), false, DEFAULT_WIDTH) {
        Err(DimensionError::Width(t)) => assert_eq!(t, "wide"),
        _ => panic!("expected a width error"),
    }
}

#[test]
fn bad_height_is_refused() {
    match parse_dimensions(Some("100"), Some("-3"), false, DEFAULT_WIDTH) {
        Err(DimensionError::Height(t)) => assert_eq!(t, "-3"),
        _ => panic!("expected a height error"),
    }
}

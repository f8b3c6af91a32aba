use smarttype::temp::{scale_of_unit, split_reading, Scale, TempParseError};

#[test]
fn readings_split_into_number_and_unit() {
    let (number, unit) = split_reading(" 30C ").unwrap();
    assert_eq!(number, "30");
    assert_eq!(unit, "C");
    assert_eq!(scale_of_unit(&unit), Some(Scale::Celsius));
    let (number, unit) = split_reading("86f").unwrap();
    assert_eq!(number, "86");
    assert_eq!(scale_of_unit(&unit), Some(Scale::Fahrenheit));
}

#[test]
fn empty_reading_is_missing() {
    assert_eq!(split_reading("   "), Err(TempParseError::MissingInput));
    assert_eq!(split_reading(""), Err(TempParseError::MissingInput));
}

#[test]
fn unknown_units() {
    let (number, unit) = split_reading("10").unwrap();
    assert_eq!(number, "1");
    assert_eq!(scale_of_unit(&unit), None);
    assert_eq!(scale_of_unit("K"), None);
    assert_eq!(scale_of_unit("cc"), None);
}

#[test]
fn temperature_error_messages() {
    assert_eq!(TempParseError::MissingInput.to_string(), "no input provided");
    assert_eq!(TempParseError::UnknownUnit("K".to_string()).to_string(), "unknown temperature unit: K");
    let e = "x".parse::<f64>().unwrap_err();
    assert!(TempParseError::Value(e).to_string().starts_with("invalid numeric value: "));
}

use bms_rs::bms::command::StringValue;
use bms_rs::bms::error::PlayingError;
use bms_rs::bms::layout::KeyLayoutBeat;
use bms_rs::bms::model::Bms;
use bms_rs::chart::process::BmsProcessor;

fn parse_with_bpm(bpm: Option<&str>) -> Result<bms_rs::chart::process::Chart, PlayingError> {
    let mut bms = Bms::default();
    bms.bpm.bpm = bpm.map(StringValue::new);
    BmsProcessor::parse::<KeyLayoutBeat>(&bms)
}

fn check_invalid_bpm(value: &str) {
    let result = parse_with_bpm(Some(value));
    assert!(result.is_err());
    match result {
        Err(PlayingError::InvalidBpm { raw, error }) => {
            assert_eq!(raw, value);
            assert!(error.contains("invalid") || error.contains("digit") || !error.is_empty());
        }
        _ => panic!("Expected PlayingError::InvalidBpm, got: {result:?}"),
    }
}

#[test]
fn process_test_parse_invalid_bpm() {
    check_invalid_bpm("invalid_bpm");
}

#[test]
fn process_test_parse_empty_bpm() {
    let result = parse_with_bpm(Some(""));
    assert!(result.is_err());
    match result {
        Err(PlayingError::InvalidBpm { raw, .. }) => assert_eq!(raw, ""),
        _ => panic!("Expected PlayingError::InvalidBpm for empty BPM, got: {result:?}"),
    }
}

#[test]
fn process_test_parse_nan_bpm() {
    let result = parse_with_bpm(Some("NaN"));
    assert!(result.is_err());
    match result {
        Err(PlayingError::InvalidBpm { raw, .. }) => assert_eq!(raw, "NaN"),
        _ => panic!("Expected PlayingError::InvalidBpm for NaN BPM, got: {result:?}"),
    }
}

#[test]
fn process_test_parse_missing_bpm_uses_default() {
    let result = parse_with_bpm(None);
    assert!(result.is_ok(), "Parse should succeed with missing BPM: {result:?}");
    let chart = result.unwrap();
    assert_eq!(chart.init_bpm.raw(), "120", "Should use default BPM of 120");
}

#[test]
fn process_test_parse_bpm_with_special_chars() {
    let result = parse_with_bpm(Some("abc123!@#"));
    assert!(result.is_err());
    match result {
        Err(PlayingError::InvalidBpm { raw, .. }) => assert_eq!(raw, "abc123!@#"),
        _ => panic!("Expected PlayingError::InvalidBpm for special characters, got: {result:?}"),
    }
}

#[test]
fn process_test_error_contains_raw_value() {
    let invalid_value = "not_a_number";
    let result = parse_with_bpm(Some(invalid_value));
    match result {
        Err(PlayingError::InvalidBpm { raw, .. }) => assert_eq!(raw, invalid_value),
        _ => panic!("Expected PlayingError::InvalidBpm"),
    }
}

#[test]
fn bms_test_parse_invalid_bpm() {
    check_invalid_bpm("invalid_bpm");
}

#[test]
fn bms_test_parse_empty_bpm() {
    let result = parse_with_bpm(Some(""));
    assert!(result.is_err());
    match result {
        Err(PlayingError::InvalidBpm { raw, .. }) => assert_eq!(raw, ""),
        _ => panic!("Expected PlayingError::InvalidBpm for empty BPM, got: {result:?}"),
    }
}

#[test]
fn bms_test_parse_nan_bpm() {
    let result = parse_with_bpm(Some("NaN"));
    assert!(result.is_err());
    match result {
        Err(PlayingError::InvalidBpm { raw, .. }) => assert_eq!(raw, "NaN"),
        _ => panic!("Expected PlayingError::InvalidBpm for NaN BPM, got: {result:?}"),
    }
}

#[test]
fn bms_test_parse_missing_bpm_uses_default() {
    let result = parse_with_bpm(None);
    assert!(result.is_ok(), "Parse should succeed with missing BPM: {result:?}");
    let chart = result.unwrap();
    assert_eq!(chart.init_bpm.raw(), "120", "Should use default BPM of 120");
}

#[test]
fn bms_test_parse_bpm_with_special_chars() {
    let result = parse_with_bpm(Some("abc123!@#"));
    assert!(result.is_err());
    match result {
        Err(PlayingError::InvalidBpm { raw, .. }) => assert_eq!(raw, "abc123!@#"),
        _ => panic!("Expected PlayingError::InvalidBpm for special characters, got: {result:?}"),
    }
}

#[test]
fn bms_test_error_contains_raw_value() {
    let invalid_value = "not_a_number";
    let result = parse_with_bpm(Some(invalid_value));
    match result {
        Err(PlayingError::InvalidBpm { raw, .. }) => assert_eq!(raw, invalid_value),
        _ => panic!("Expected PlayingError::InvalidBpm"),
    }
}

fn check_valid_bpm() {
    let result = parse_with_bpm(Some("150.5"));
    assert!(result.is_ok(), "Parse should succeed with valid BPM: {result:?}");
    let chart = result.unwrap();
    assert_eq!(chart.init_bpm.raw().parse::<f64>().unwrap(), 150.5);
}

#[test]
fn process_test_parse_valid_bpm() {
    check_valid_bpm();
}

#[test]
fn bms_test_parse_valid_bpm() {
    check_valid_bpm();
}

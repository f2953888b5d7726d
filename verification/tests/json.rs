use bms_rs::bmson::json::{parse_json, prepare_bmson_json, BmsonField, BmsonWarning, Json, JsonError};

#[test]
fn json_basic_values() {
    let (result, errors) = parse_json("null");
    assert!(errors.is_empty());
    assert!(matches!(result, Some(Json::Null)));

    let (result, errors) = parse_json("true");
    assert!(errors.is_empty());
    assert!(matches!(result, Some(Json::Bool(true))));

    let (result, errors) = parse_json("\"hello world\"");
    assert!(errors.is_empty());
    assert!(matches!(result, Some(Json::Str(s)) if s == "hello world"));

    let (result, errors) = parse_json("42");
    assert!(errors.is_empty());
    assert!(matches!(result, Some(Json::Int(42))));

    let (result, errors) = parse_json("3.14");
    assert!(errors.is_empty());
    match result {
        Some(Json::Float(f)) => assert!((f.parse::<f64>().unwrap() - 3.14).abs() < f64::EPSILON),
        other => panic!("expected a float, got {other:?}"),
    }
}

#[test]
fn json_arrays_and_objects() {
    let (result, errors) = parse_json("[1, 2, 3]");
    assert!(errors.is_empty());
    match result {
        Some(Json::Array(arr)) => assert_eq!(arr.len(), 3),
        other => panic!("expected an array, got {other:?}"),
    }

    let (result, errors) = parse_json("{\"key\": \"value\"}");
    assert!(errors.is_empty());
    let obj = result.unwrap();
    assert!(matches!(obj.get("key"), Some(Json::Str(s)) if s == "value"));

    let (result, errors) = parse_json("{\"items\": [1, 2, {\"nested\": true}]}");
    assert!(errors.is_empty());
    assert!(result.is_some());
}

#[test]
fn json_invalid_text() {
    let (result, errors) = parse_json("{invalid json");
    assert!(result.is_none());
    assert!(!errors.is_empty());
    assert_eq!(errors, vec![JsonError::Syntax]);
    assert!(parse_json("").0.is_none());
    assert!(parse_json("[,]").0.is_none());
    assert!(parse_json("01").0.is_none());
    assert!(parse_json("[1] 2").0.is_none());
}

#[test]
fn json_details() {
    // Commas may trail; white space around everything; the last member of a name wins.
    let (result, _) = parse_json("  [1, 2,]  ");
    assert!(matches!(result, Some(Json::Array(a)) if a.len() == 2));
    let (result, _) = parse_json("{\"a\": 1, \"a\": 2,}");
    assert!(matches!(result.unwrap().get("a"), Some(Json::Int(2))));
    // Strings keep their escapes as written; big integers and exponents stay as text.
    let (result, _) = parse_json("\"a\\n\\u0041\"");
    assert!(matches!(result, Some(Json::Str(s)) if s == "a\\n\\u0041"));
    let (result, _) = parse_json("123456789012345678901");
    assert!(matches!(result, Some(Json::Float(t)) if t == "123456789012345678901"));
    let (result, _) = parse_json("-1e-3");
    assert!(matches!(result, Some(Json::Float(t)) if t == "-1e-3"));
    assert!(matches!(parse_json("-7").0, Some(Json::Int(-7))));
    // A surrogate escape is warned of, and the value kept.
    let (result, errors) = parse_json("[\"\\uD800\"]");
    assert!(result.is_some());
    assert_eq!(errors, vec![JsonError::InvalidUnicode(2)]);
    assert!(parse_json("\"\\x\"").0.is_none());
}

#[test]
fn bmson_json_defaults() {
    let (json, errors) = parse_json("{\"version\": \"1.0.0\", \"info\": {\"title\": \"T\"}}");
    let (root, warnings) = prepare_bmson_json(json, &errors);
    assert_eq!(
        warnings,
        vec![
            BmsonWarning::MissingField(BmsonField::SoundChannels),
            BmsonWarning::MissingField(BmsonField::InfoArtist),
            BmsonWarning::MissingField(BmsonField::InfoGenre),
            BmsonWarning::MissingField(BmsonField::InfoLevel),
            BmsonWarning::MissingField(BmsonField::InfoInitBpm),
        ]
    );
    let info = root.get("info").unwrap();
    assert!(matches!(info.get("title"), Some(Json::Str(s)) if s == "T"));
    assert!(matches!(info.get("level"), Some(Json::Int(0))));
    assert!(matches!(root.get("sound_channels"), Some(Json::Array(a)) if a.is_empty()));

    let (json, errors) = parse_json("[1 x");
    let (root, warnings) = prepare_bmson_json(json, &errors);
    assert_eq!(warnings[0], BmsonWarning::JsonSyntaxError(JsonError::Syntax));
    assert_eq!(warnings[1], BmsonWarning::NonObjectRoot);
    assert_eq!(warnings[2], BmsonWarning::MissingField(BmsonField::Version));
    assert_eq!(warnings.len(), 10);
    assert!(matches!(root.get("version"), Some(Json::Str(s)) if s == "1.0.0"));
}

#[test]
fn json_recovers_missing_comma_between_members() {
    let (result, errors) = parse_json("{\"a\": 1 \"b\": 2}");
    let obj = result.unwrap();
    assert!(matches!(obj.get("a"), Some(Json::Int(1))));
    assert!(matches!(obj.get("b"), Some(Json::Int(2))));
    assert_eq!(errors, vec![JsonError::MissingComma(8)]);
}

#[test]
fn json_recovers_unclosed_at_end() {
    let (result, errors) = parse_json("{\"a\": [1, 2");
    let obj = result.unwrap();
    assert!(matches!(obj.get("a"), Some(Json::Array(v)) if v.len() == 2));
    assert_eq!(errors, vec![JsonError::Unclosed, JsonError::Unclosed]);
    let (result, errors) = parse_json("[1,");
    assert!(matches!(result, Some(Json::Array(v)) if v.len() == 1));
    assert_eq!(errors, vec![JsonError::Unclosed]);
}

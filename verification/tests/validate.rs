use analyze_screen::extract::extract_json_candidate;
use analyze_screen::json::Json;
use analyze_screen::validate::{
    bits_in_unit_interval, check_parsed, error_object, lenient_validate, parse_and_validate, prefer,
    schema_errors, SCHEMA_HINT,
};

const VALID: &str = r#"{"screen_type":"menu","title":"t","summary":"s",
        "detected_elements":[{"name":"n","description":"d","confidence":0.5}],
        "suggested_actions":["a"],"error":null}"#;

fn errors_of(text: &str) -> Vec<String> {
    match Json::parse(text) {
        Ok(v) => schema_errors(&v),
        Err(e) => panic!("not JSON: {e}"),
    }
}

fn errors_in(text: &str) -> Vec<String> {
    match parse_and_validate(text) {
        Ok(_) => panic!("valid"),
        Err(errs) => errs,
    }
}

#[test]
fn valid_passes() {
    assert!(parse_and_validate(VALID).is_ok());
}

#[test]
fn missing_field_fails() {
    let v = match Json::parse(r#"{"screen_type":"menu"}"#) {
        Ok(v) => v,
        Err(e) => panic!("{e}"),
    };
    assert!(!schema_errors(&v).is_empty());
}

#[test]
fn confidence_out_of_range_fails() {
    let bad = VALID.replace("0.5", "1.5");
    assert!(parse_and_validate(&bad).is_err());
}

#[test]
fn error_variant_passes() {
    let v = error_object("VLM_INVALID", "oops");
    assert!(schema_errors(&v).is_empty());
}

#[test]
fn extracts_from_fences() {
    let fenced = format!("Sure!\n```json\n{VALID}\n```\nDone.");
    let got = extract_json_candidate(&fenced).unwrap();
    assert!(parse_and_validate(&got).is_ok());
}

#[test]
fn extracts_first_object_from_prose() {
    let prose = format!("The answer is {VALID} hope that helps");
    let got = extract_json_candidate(&prose).unwrap();
    assert!(parse_and_validate(&got).is_ok());
}

#[test]
fn extraction_handles_braces_in_strings() {
    let tricky = r#"note {"screen_type":"menu","title":"a { b } c","summary":"s",
            "detected_elements":[],"suggested_actions":[],"error":null} tail"#;
    let got = extract_json_candidate(tricky).unwrap();
    assert!(parse_and_validate(&got).is_ok());
}

#[test]
fn every_missing_field_is_named() {
    assert_eq!(
        errors_of("{}"),
        vec![
            "missing required field screen_type",
            "missing required field title",
            "missing required field summary",
            "missing required field detected_elements",
            "missing required field suggested_actions",
            "missing required field error (use null on success)",
        ]
    );
}

#[test]
fn every_wrong_type_is_named() {
    assert_eq!(
        errors_of(
            r#"{"screen_type":1,"title":null,"summary":[],"detected_elements":{},
                "suggested_actions":"a","error":"oops"}"#
        ),
        vec![
            "screen_type must be a string",
            "title must be a string",
            "summary must be a string",
            "detected_elements must be an array",
            "suggested_actions must be an array",
            "error must be null or an object",
        ]
    );
}

#[test]
fn elements_are_checked_one_by_one() {
    assert_eq!(
        errors_of(
            r#"{"screen_type":"menu","title":"t","summary":"s",
                "detected_elements":[7,{"name":1},{"name":"n","description":"d","confidence":1.5},
                {"name":"n","description":"d","confidence":"high"},
                {"name":"n","description":"d","confidence":-0.25}],
                "suggested_actions":["a",2],"error":{"code":"C"}}"#
        ),
        vec![
            "detected_elements[0] is not an object",
            "detected_elements[1].name must be a string",
            "detected_elements[1].description must be a string",
            "detected_elements[1].confidence must be a number",
            "detected_elements[2].confidence 1.5 out of range 0..1",
            "detected_elements[3].confidence must be a number",
            "detected_elements[4].confidence -0.25 out of range 0..1",
            "suggested_actions[1] must be a string",
            "error.message must be a string",
        ]
    );
}

#[test]
fn a_whole_confidence_is_printed_as_a_double() {
    let text = VALID.replace("0.5", "2");
    assert_eq!(errors_in(&text), vec!["detected_elements[0].confidence 2 out of range 0..1"]);
    let text = VALID.replace("0.5", "1e21");
    assert_eq!(
        errors_in(&text),
        vec!["detected_elements[0].confidence 1000000000000000000000 out of range 0..1"]
    );
}

#[test]
fn the_ends_of_the_unit_interval_are_in_it() {
    for c in ["0", "1", "0.0", "1.0", "-0.0", "1e-300"] {
        assert!(parse_and_validate(&VALID.replace("0.5", c)).is_ok(), "{c}");
    }
    for c in ["1.0000000000000002", "-1e-300", "-1"] {
        assert!(parse_and_validate(&VALID.replace("0.5", c)).is_err(), "{c}");
    }
}

#[test]
fn bits_tell_the_unit_interval() {
    let inside: [f64; 6] = [0.0, -0.0, 1.0, 0.5, f64::MIN_POSITIVE, 5e-324];
    for c in inside {
        assert!(bits_in_unit_interval(c.to_bits()), "{c}");
    }
    let outside: [f64; 7] =
        [1.5, -0.5, -5e-324, f64::INFINITY, f64::NEG_INFINITY, f64::NAN, 1.0000000000000002];
    for c in outside {
        assert!(!bits_in_unit_interval(c.to_bits()), "{c}");
    }
}

#[test]
fn anything_but_an_object_is_refused() {
    assert_eq!(errors_of("[1]"), vec!["top-level value is not an object"]);
    assert_eq!(errors_of("null"), vec!["top-level value is not an object"]);
}

#[test]
fn text_that_is_not_json_is_refused_with_the_reason() {
    assert_eq!(errors_in("nope"), vec!["not valid JSON: expected ident at line 1 column 2"]);
    assert_eq!(
        errors_in("   "),
        vec!["not valid JSON: EOF while parsing a value at line 1 column 0"]
    );
}

#[test]
fn surrounding_white_space_is_ignored() {
    assert!(parse_and_validate(&format!("\n\t {VALID}\u{3000}\r\n")).is_ok());
}

#[test]
fn extra_fields_are_kept() {
    let text = VALID.replace("\"error\":null", "\"error\":null,\"more\":[1,2.50]");
    match parse_and_validate(&text) {
        Ok(v) => assert_eq!(v.at_key("more").render(), "[1,2.5]"),
        Err(errs) => panic!("{errs:?}"),
    }
}

#[test]
fn error_object_carries_code_and_message() {
    let v = error_object("TIMEOUT", "too \"slow\"");
    assert_eq!(
        v.render(),
        "{\"detected_elements\":[],\"error\":{\"code\":\"TIMEOUT\",\"message\":\"too \\\"slow\\\"\"},\
         \"screen_type\":\"unknown\",\"suggested_actions\":[],\"summary\":\"too \\\"slow\\\"\",\
         \"title\":\"Analysis failed\"}"
    );
}

#[test]
fn error_object_is_read_back() {
    let v = error_object("X", "line\nbreak, \u{1F4FA} and \\");
    let text = v.render();
    match parse_and_validate(&text) {
        Ok(back) => assert_eq!(back.render(), text),
        Err(errs) => panic!("{errs:?}"),
    }
}

#[test]
fn strict_validation_comes_first() {
    let (outcome, extracted) = lenient_validate(VALID);
    assert!(outcome.is_ok());
    assert!(!extracted);
}

#[test]
fn lenient_validation_recovers_from_prose() {
    let (outcome, extracted) = lenient_validate(&format!("Here: {VALID} Bye."));
    assert_eq!(outcome.ok().unwrap().at_key("screen_type").as_str(), Some("menu"));
    assert!(extracted);
}

#[test]
fn lenient_validation_recovers_from_a_fence() {
    let (outcome, extracted) = lenient_validate(&format!("```\n{VALID}\n```"));
    assert!(outcome.is_ok());
    assert!(extracted);
}

#[test]
fn lenient_validation_reports_the_candidate() {
    let (outcome, extracted) = lenient_validate("see {\"screen_type\":\"menu\"}");
    let errs = outcome.err().unwrap();
    assert_eq!(errs[0], "missing required field title");
    assert!(!extracted);
}

#[test]
fn lenient_validation_reports_the_text_without_a_candidate() {
    let (outcome, extracted) = lenient_validate("nothing here");
    assert_eq!(
        outcome.err().unwrap(),
        vec!["not valid JSON: expected ident at line 1 column 2"]
    );
    assert!(!extracted);
}

#[test]
fn a_parse_result_is_checked() {
    assert!(check_parsed(Json::parse(VALID)).is_ok());
    assert_eq!(
        check_parsed(Err("broken".to_string())).err().unwrap(),
        vec!["not valid JSON: broken"]
    );
}

#[test]
fn the_strict_result_is_preferred() {
    let (outcome, extracted) = prefer(Ok(Json::integer(1)), Some(Ok(Json::integer(2))));
    assert_eq!(outcome.ok().unwrap().render(), "1");
    assert!(!extracted);
    let (outcome, extracted) = prefer(Err(vec!["a".to_string()]), Some(Ok(Json::integer(2))));
    assert_eq!(outcome.ok().unwrap().render(), "2");
    assert!(extracted);
    let (outcome, extracted) = prefer(Err(vec!["a".to_string()]), None);
    assert_eq!(outcome.err().unwrap(), vec!["a"]);
    assert!(!extracted);
}

#[test]
fn the_schema_hint_names_all_fields() {
    for key in
        ["screen_type", "title", "summary", "detected_elements", "suggested_actions", "error"]
    {
        assert!(SCHEMA_HINT.contains(key));
    }
}

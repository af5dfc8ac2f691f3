use analyze_screen::extract::extract_json_candidate;

#[test]
fn a_fence_without_a_label_is_stripped() {
    assert_eq!(extract_json_candidate("```\n{\"a\":1}\n```").as_deref(), Some("{\"a\":1}"));
}

#[test]
fn the_body_of_a_fence_need_not_be_an_object() {
    assert_eq!(extract_json_candidate("a ```json [1] ``` b").as_deref(), Some("[1]"));
}

#[test]
fn only_the_first_fence_counts() {
    assert_eq!(extract_json_candidate("```a``` ```b```").as_deref(), Some("a"));
}

#[test]
fn a_blank_fence_falls_back_to_the_first_object() {
    assert_eq!(extract_json_candidate("``` ``` then {\"a\":{}} x").as_deref(), Some("{\"a\":{}}"));
}

#[test]
fn an_open_fence_falls_back_to_the_first_object() {
    assert_eq!(extract_json_candidate("```json {\"a\":1}").as_deref(), Some("{\"a\":1}"));
}

#[test]
fn escapes_in_strings_are_respected() {
    assert_eq!(
        extract_json_candidate(r#"x {"a":"\"}\\"} y}"#).as_deref(),
        Some(r#"{"a":"\"}\\"}"#)
    );
}

#[test]
fn an_object_that_never_closes_is_not_extracted() {
    assert_eq!(extract_json_candidate("{\"a\":{}"), None);
    assert_eq!(extract_json_candidate("{\"a\":\"}"), None);
}

#[test]
fn nothing_is_extracted_from_plain_text() {
    assert_eq!(extract_json_candidate("no json at all"), None);
    assert_eq!(extract_json_candidate(""), None);
}

#[test]
fn text_beyond_ascii_is_extracted_as_it_is() {
    assert_eq!(
        extract_json_candidate("écran… {\"t\":\"日本語 }\"} fin").as_deref(),
        Some("{\"t\":\"日本語 }\"}")
    );
}

#[test]
fn what_is_extracted_stands_in_the_text() {
    for text in ["a {\"b\":[{}]} c", "``` x ```", " ```json\n{}\n``` "] {
        let got = extract_json_candidate(text).unwrap();
        assert!(text.contains(&got));
    }
}

use analyze_screen::json::Json;
use analyze_screen::vlm::{
    accept_analysis, bearer, body_of, can_encode, chat_body, chat_url, check_analysis, data_uri,
    read_analysis, read_description, read_vlm, Transport,
};

fn parsed(text: &str) -> Json {
    match Json::parse(text) {
        Ok(v) => v,
        Err(e) => panic!("{e}"),
    }
}

#[test]
fn images_are_encoded_with_padding() {
    assert_eq!(data_uri(b""), "data:image/png;base64,");
    assert_eq!(data_uri(b"M"), "data:image/png;base64,TQ==");
    assert_eq!(data_uri(b"Ma"), "data:image/png;base64,TWE=");
    assert_eq!(data_uri(b"Man"), "data:image/png;base64,TWFu");
    assert_eq!(data_uri(&[0xff, 0xef, 0xbe]), "data:image/png;base64,/+++");
}

#[test]
fn only_absurd_sizes_cannot_be_encoded() {
    assert!(can_encode(0));
    assert!(can_encode(100_000_000));
    assert!(!can_encode(usize::MAX));
    assert!(can_encode(isize::MAX as usize / 4 * 3));
    assert!(!can_encode(isize::MAX as usize / 4 * 3 + 1));
}

#[test]
fn trailing_slashes_of_the_base_url_are_dropped() {
    assert_eq!(chat_url("http://v/v1"), "http://v/v1/chat/completions");
    assert_eq!(chat_url("http://v/v1///"), "http://v/v1/chat/completions");
    assert_eq!(chat_url(""), "/chat/completions");
}

#[test]
fn thinking_is_switched_off() {
    let body = chat_body("m", 7, "p", "u");
    assert_eq!(
        body.at_key("chat_template_kwargs").render(),
        "{\"enable_thinking\":false}"
    );
    assert_eq!(body.at_key("max_tokens").render(), "7");
    assert_eq!(body.at_key("temperature").render(), "0");
    assert_eq!(bearer("SECRET-REDACTED"), "Bearer SECRET-REDACTED");
}

#[test]
fn a_json_body_is_handed_on() {
    let v = body_of("peer", Transport::Body(Json::integer(3)));
    assert_eq!(v.ok().unwrap().render(), "3");
    let e = body_of("peer", Transport::Status(500, String::new())).err();
    assert_eq!(e.as_deref(), Some("peer returned HTTP 500: "));
}

#[test]
fn an_analysis_is_accepted_when_it_is_valid() {
    let text = "{\"screen_type\":\"a\",\"title\":\"b\",\"summary\":\"c\",\
                \"detected_elements\":[],\"suggested_actions\":[],\"error\":null}";
    assert_eq!(check_analysis(text.to_string()).ok().as_deref(), Some(text));
    assert_eq!(
        check_analysis("[]".to_string()).err().as_deref(),
        Some("VLM returned an invalid analysis: top-level value is not an object")
    );
    assert_eq!(accept_analysis("x".to_string(), &Ok(Json::Null)).ok().as_deref(), Some("x"));
    assert_eq!(
        accept_analysis("x".to_string(), &Err(vec!["a".to_string(), "b".to_string()]))
            .err()
            .as_deref(),
        Some("VLM returned an invalid analysis: a; b")
    );
}

#[test]
fn an_analysis_must_begin_an_object() {
    let payload = parsed(r#"{"choices":[{"message":{"content":"{}"}}]}"#);
    assert!(read_analysis(true, "200 OK", &payload)
        .err()
        .unwrap()
        .starts_with("VLM returned an invalid analysis: missing required field screen_type; "));
    assert_eq!(
        read_analysis(false, "418", &payload).err().unwrap(),
        format!("VLM returned 418: {}", payload.render())
    );
    let payload = parsed(r#"{"choices":[{"message":{"content":"``````"}}]}"#);
    assert_eq!(
        read_analysis(true, "200 OK", &payload).err().as_deref(),
        Some("VLM returned non-JSON content: ")
    );
    let payload = parsed(r#"{"choices":[{"message":{"content":["x"]}}]}"#);
    assert_eq!(
        read_analysis(true, "200 OK", &payload).err().as_deref(),
        Some("VLM returned empty content (finish_reason=unknown)")
    );
}

#[test]
fn a_description_may_be_any_text() {
    let payload = parsed(r#"{"choices":[{"message":{"content":"A menu."}}]}"#);
    assert_eq!(read_description(&payload).ok().as_deref(), Some("A menu."));
    assert_eq!(read_vlm(Transport::Body(payload)).ok().as_deref(), Some("A menu."));
}

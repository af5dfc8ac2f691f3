use analyze_screen::json::Json;

fn parsed(text: &str) -> Json {
    match Json::parse(text) {
        Ok(v) => v,
        Err(e) => panic!("{e}"),
    }
}

#[test]
fn documents_are_printed_compactly_with_sorted_keys() {
    assert_eq!(
        parsed(" { \"b\" : [ 1 , 2.50, -3, true, null ] , \"a\" : \"x\\ty\" } ").render(),
        "{\"a\":\"x\\ty\",\"b\":[1,2.5,-3,true,null]}"
    );
}

#[test]
fn the_last_of_two_equal_keys_counts() {
    assert_eq!(parsed("{\"a\":1,\"a\":2}").render(), "{\"a\":2}");
    let v = Json::object().with("a", Json::integer(1)).with("a", Json::integer(2));
    assert_eq!(v.at_key("a").render(), "2");
    assert_eq!(v.render(), "{\"a\":2}");
    let v = v.with("b", Json::Null).with("a", Json::integer(3)).with("b", Json::integer(4));
    assert_eq!(v.render(), "{\"a\":3,\"b\":4}");
}

#[test]
fn errors_come_with_their_place() {
    assert_eq!(
        Json::parse("{\"a\":}").err().as_deref(),
        Some("expected value at line 1 column 6")
    );
    assert_eq!(
        Json::parse("1 2").err().as_deref(),
        Some("trailing characters at line 1 column 3")
    );
}

#[test]
fn what_is_missing_is_null() {
    let v = parsed("{\"a\":[{\"b\":\"c\"}]}");
    assert_eq!(v.at_key("a").at_index(0).at_key("b").as_str(), Some("c"));
    assert!(v.at_key("a").at_index(1).is_null());
    assert!(v.at_key("a").at_key("b").is_null());
    assert!(v.at_key("x").at_index(0).at_key("y").is_null());
    assert!(v.get("x").is_none());
    assert!(parsed("{\"n\":null}").get("n").is_some());
}

#[test]
fn a_copy_is_the_same_document() {
    let text = "{\"a\":[1e3,-0.0,18446744073709551615],\"b\":{}}";
    let v = parsed(text);
    assert_eq!(v.copy().render(), v.render());
    assert_eq!(v.render(), "{\"a\":[1000.0,-0.0,18446744073709551615],\"b\":{}}");
}

#[test]
fn documents_are_converted_both_ways() {
    let value = parsed("[null,false,\"x\",{\"k\":[7]}]").to_value();
    assert_eq!(value[3]["k"][0].as_i64(), Some(7));
    assert_eq!(Json::from_value(value).render(), "[null,false,\"x\",{\"k\":[7]}]");
}

#[test]
fn integers_are_printed_in_decimal() {
    assert_eq!(Json::integer(i64::MIN).render(), "-9223372036854775808");
    assert_eq!(Json::integer(0).render(), "0");
}

#[test]
fn a_whole_confidence_may_be_built() {
    for n in [0, 1] {
        let element = Json::object()
            .with("name", Json::string("n"))
            .with("description", Json::string("d"))
            .with("confidence", Json::integer(n));
        let v = analyze_screen::validate::error_object("c", "m")
            .with("detected_elements", Json::array().item(element));
        assert!(analyze_screen::validate::schema_errors(&v).is_empty());
    }
}

#[test]
fn only_objects_and_arrays_grow() {
    assert_eq!(Json::integer(1).with("a", Json::Null).render(), "1");
    assert_eq!(Json::object().item(Json::Null).render(), "{}");
    assert_eq!(Json::array().item(Json::string("a")).item(Json::Null).render(), "[\"a\",null]");
}

#[test]
fn what_is_printed_is_read_back() {
    let mut v = Json::string("quote \" slash \\ line \n nul \u{0} \u{1F600}");
    for _ in 0..126 {
        v = Json::array().item(v);
    }
    v = Json::object().with("deep", v);
    let text = v.render();
    assert_eq!(parsed(&text).render(), text);
    let deeper = Json::array().item(v).render();
    assert!(Json::parse(&deeper).is_err());
}

//! Schema validation of the analysis that a reply holds.

use crate::extract::{
    balanced_object, extract_json_candidate, extracted, law_fenced_block, law_object_in_prose,
};
use crate::json::{
    double_text, field, items_view, json_parse, lemma_items_view, number_bits, number_text,
    readable, reads_as, Json, JsonView,
};
use crate::text::{
    cat2, cat3, cat4, contents, decimal, decimal_text, first_at, occurs_at, trim, trimmed,
};
use vstd::prelude::*;

verus! {

/// The schema, for people.
pub const SCHEMA_HINT: &'static str = "{
  \"screen_type\": \"string\",
  \"title\": \"string\",
  \"summary\": \"string\",
  \"detected_elements\": [ { \"name\": \"string\", \"description\": \"string\", \"confidence\": 0.0 } ],
  \"suggested_actions\": [ \"string\" ],
  \"error\": null or { \"code\": \"string\", \"message\": \"string\" }
}";

/// The bits of the double 1.0.
pub const ONE_BITS: u64 = 0x3ff0_0000_0000_0000;

/// The bits of the double -0.0.
pub const NEG_ZERO_BITS: u64 = 0x8000_0000_0000_0000;

// ---------------------------------------------------------------------------
// The schema

/// The double with these bits lies between 0 and 1. The bits of doubles that
/// are not negative are in the order of the doubles.
pub open spec fn in_unit_interval(bits: u64) -> bool {
    bits <= ONE_BITS || bits == NEG_ZERO_BITS
}

/// `v` is an object with a string under `key`.
pub open spec fn has_text(v: JsonView, key: Seq<char>) -> bool {
    field(v, key) matches Some(JsonView::Text(_))
}

/// `v` is a detected element: an object with a name, a description and a
/// confidence between 0 and 1.
pub open spec fn is_element(v: JsonView) -> bool {
    &&& v is Object
    &&& has_text(v, "name"@)
    &&& has_text(v, "description"@)
    &&& field(v, "confidence"@) matches Some(JsonView::Number(n)) && in_unit_interval(n.bits)
}

/// `v` is what may stand under `error`: null, or an object with a code and a
/// message.
pub open spec fn is_error(v: JsonView) -> bool {
    ||| v is Null
    ||| v is Object && has_text(v, "code"@) && has_text(v, "message"@)
}

/// `v` is an analysis: an object with the six required fields, each of its
/// kind.
pub open spec fn conformant(v: JsonView) -> bool {
    &&& v is Object
    &&& has_text(v, "screen_type"@)
    &&& has_text(v, "title"@)
    &&& has_text(v, "summary"@)
    &&& field(v, "detected_elements"@) matches Some(JsonView::Array(items)) && forall|i: int|
        0 <= i < items.len() ==> is_element(#[trigger] items[i])
    &&& field(v, "suggested_actions"@) matches Some(JsonView::Array(items)) && forall|i: int|
        0 <= i < items.len() ==> (#[trigger] items[i]) is Text
    &&& field(v, "error"@) matches Some(e) && is_error(e)
}

// ---------------------------------------------------------------------------
// The messages

/// What is wrong with the required string under `key`.
pub open spec fn text_messages(v: JsonView, key: Seq<char>) -> Seq<Seq<char>> {
    match field(v, key) {
        Some(JsonView::Text(_)) => seq![],
        Some(_) => seq![key + " must be a string"@],
        None => seq!["missing required field "@ + key],
    }
}

/// What is wrong with the string under `key` of a part of the document that is
/// called `name`.
pub open spec fn part_messages(v: JsonView, name: Seq<char>, key: Seq<char>) -> Seq<Seq<char>> {
    if has_text(v, key) {
        seq![]
    } else {
        seq![name + "."@ + key + " must be a string"@]
    }
}

/// What a detected element is called.
pub open spec fn element_name(i: int) -> Seq<char> {
    "detected_elements["@ + decimal(i as nat) + "]"@
}

/// What is wrong with the confidence of the detected element called `name`.
pub open spec fn confidence_messages(v: JsonView, name: Seq<char>) -> Seq<Seq<char>> {
    match field(v, "confidence"@) {
        Some(JsonView::Number(n)) => if in_unit_interval(n.bits) {
            seq![]
        } else {
            seq![name + ".confidence "@ + double_text(n.bits) + " out of range 0..1"@]
        },
        _ => seq![name + ".confidence must be a number"@],
    }
}

/// What is wrong with the detected element at index `i`.
pub open spec fn element_messages(v: JsonView, i: int) -> Seq<Seq<char>> {
    let name = element_name(i);
    match v {
        JsonView::Object(_) => part_messages(v, name, "name"@) + part_messages(
            v,
            name,
            "description"@,
        ) + confidence_messages(v, name),
        _ => seq![name + " is not an object"@],
    }
}

/// What is wrong with the detected elements, one after the other.
pub open spec fn elements_messages(items: Seq<JsonView>) -> Seq<Seq<char>>
    decreases items.len(),
{
    if items.len() == 0 {
        seq![]
    } else {
        elements_messages(items.drop_last()) + element_messages(items.last(), items.len() - 1)
    }
}

/// What is wrong with the suggested action at index `i`.
pub open spec fn action_messages(v: JsonView, i: int) -> Seq<Seq<char>> {
    if v is Text {
        seq![]
    } else {
        seq!["suggested_actions["@ + decimal(i as nat) + "] must be a string"@]
    }
}

/// What is wrong with the suggested actions, one after the other.
pub open spec fn actions_messages(items: Seq<JsonView>) -> Seq<Seq<char>>
    decreases items.len(),
{
    if items.len() == 0 {
        seq![]
    } else {
        actions_messages(items.drop_last()) + action_messages(items.last(), items.len() - 1)
    }
}

/// What is wrong with the field `detected_elements`.
pub open spec fn elements_field_messages(v: JsonView) -> Seq<Seq<char>> {
    match field(v, "detected_elements"@) {
        Some(JsonView::Array(items)) => elements_messages(items),
        Some(_) => seq!["detected_elements must be an array"@],
        None => seq!["missing required field detected_elements"@],
    }
}

/// What is wrong with the field `suggested_actions`.
pub open spec fn actions_field_messages(v: JsonView) -> Seq<Seq<char>> {
    match field(v, "suggested_actions"@) {
        Some(JsonView::Array(items)) => actions_messages(items),
        Some(_) => seq!["suggested_actions must be an array"@],
        None => seq!["missing required field suggested_actions"@],
    }
}

/// What is wrong with the field `error`.
pub open spec fn error_field_messages(v: JsonView) -> Seq<Seq<char>> {
    match field(v, "error"@) {
        Some(JsonView::Null) => seq![],
        Some(JsonView::Object(m)) => part_messages(JsonView::Object(m), "error"@, "code"@)
            + part_messages(JsonView::Object(m), "error"@, "message"@),
        Some(_) => seq!["error must be null or an object"@],
        None => seq!["missing required field error (use null on success)"@],
    }
}

/// Everything that is wrong with a document, field by field.
pub open spec fn schema_messages(v: JsonView) -> Seq<Seq<char>> {
    match v {
        JsonView::Object(_) => text_messages(v, "screen_type"@) + text_messages(v, "title"@)
            + text_messages(v, "summary"@) + elements_field_messages(v) + actions_field_messages(v)
            + error_field_messages(v),
        _ => seq!["top-level value is not an object"@],
    }
}

// ---------------------------------------------------------------------------
// Checking

/// Appends `message` to `errs`.
fn report(errs: &mut Vec<String>, message: String)
    ensures
        contents(final(errs)@) == contents(old(errs)@) + seq![message@],
{
    errs.push(message);
    assert(contents(errs@) =~= contents(old(errs)@) + seq![message@]);
}

/// Whether the field is there and is a string.
fn holds_text(v: &Json, key: &str) -> (r: bool)
    ensures
        r == has_text(v@, key@),
{
    match v.get(key) {
        Some(Json::Text(_)) => true,
        _ => false,
    }
}

fn check_text(v: &Json, key: &str, errs: &mut Vec<String>)
    ensures
        contents(final(errs)@) == contents(old(errs)@) + text_messages(v@, key@),
{
    match v.get(key) {
        Some(Json::Text(_)) => {
            assert(contents(errs@) =~= contents(old(errs)@) + text_messages(v@, key@));
        },
        Some(_) => report(errs, cat2(key, " must be a string")),
        None => report(errs, cat2("missing required field ", key)),
    }
}

fn check_part(v: &Json, name: &str, key: &str, errs: &mut Vec<String>)
    ensures
        contents(final(errs)@) == contents(old(errs)@) + part_messages(v@, name@, key@),
{
    if !holds_text(v, key) {
        report(errs, cat4(name, ".", key, " must be a string"));
    } else {
        assert(contents(errs@) =~= contents(old(errs)@) + part_messages(v@, name@, key@));
    }
}

/// Whether the double with these bits lies between 0 and 1.
pub fn bits_in_unit_interval(bits: u64) -> (r: bool)
    ensures
        r == in_unit_interval(bits),
{
    bits <= ONE_BITS || bits == NEG_ZERO_BITS
}

fn check_confidence(v: &Json, name: &str, errs: &mut Vec<String>)
    ensures
        contents(final(errs)@) == contents(old(errs)@) + confidence_messages(v@, name@),
{
    match v.get("confidence") {
        Some(Json::Number(n)) => {
            if bits_in_unit_interval(number_bits(n)) {
                assert(contents(errs@) =~= contents(old(errs)@) + confidence_messages(v@, name@));
            } else {
                let c = number_text(n);
                report(errs, cat4(name, ".confidence ", c.as_str(), " out of range 0..1"));
            }
        },
        _ => report(errs, cat2(name, ".confidence must be a number")),
    }
}

fn check_element(v: &Json, i: usize, errs: &mut Vec<String>)
    ensures
        contents(final(errs)@) == contents(old(errs)@) + element_messages(v@, i as int),
{
    let index = decimal_text(i as u128);
    let name = cat3("detected_elements[", index.as_str(), "]");
    match v {
        Json::Object(_) => {
            check_part(v, name.as_str(), "name", errs);
            check_part(v, name.as_str(), "description", errs);
            check_confidence(v, name.as_str(), errs);
            assert(contents(errs@) =~= contents(old(errs)@) + element_messages(v@, i as int));
        },
        _ => report(errs, cat2(name.as_str(), " is not an object")),
    }
}

fn check_elements(v: &Json, errs: &mut Vec<String>)
    ensures
        contents(final(errs)@) == contents(old(errs)@) + elements_field_messages(v@),
{
    match v.get("detected_elements") {
        Some(Json::Array(items)) => {
            let ghost before = contents(errs@);
            let ghost views = items_view(items@);
            proof {
                lemma_items_view(items@);
                assert(views.take(0) == Seq::<JsonView>::empty());
                assert(before + elements_messages(views.take(0)) =~= before);
            }
            let mut i: usize = 0;
            while i < items.len()
                invariant
                    0 <= i <= items.len(),
                    views.len() == items.len(),
                    forall|j: int| 0 <= j < items.len() ==> views[j] == (#[trigger] items@[j])@,
                    contents(errs@) == before + elements_messages(views.take(i as int)),
                decreases items.len() - i,
            {
                proof {
                    assert(views.take(i + 1).drop_last() == views.take(i as int));
                    assert(views.take(i + 1).last() == items@[i as int]@);
                }
                check_element(&items[i], i, errs);
                assert(contents(errs@) =~= before + elements_messages(views.take(i + 1)));
                i = i + 1;
            }
            assert(views.take(items.len() as int) == views);
        },
        Some(_) => report(errs, "detected_elements must be an array".to_owned()),
        None => report(errs, "missing required field detected_elements".to_owned()),
    }
}

fn check_actions(v: &Json, errs: &mut Vec<String>)
    ensures
        contents(final(errs)@) == contents(old(errs)@) + actions_field_messages(v@),
{
    match v.get("suggested_actions") {
        Some(Json::Array(items)) => {
            let ghost before = contents(errs@);
            let ghost views = items_view(items@);
            proof {
                lemma_items_view(items@);
                assert(views.take(0) == Seq::<JsonView>::empty());
                assert(before + actions_messages(views.take(0)) =~= before);
            }
            let mut i: usize = 0;
            while i < items.len()
                invariant
                    0 <= i <= items.len(),
                    views.len() == items.len(),
                    forall|j: int| 0 <= j < items.len() ==> views[j] == (#[trigger] items@[j])@,
                    contents(errs@) == before + actions_messages(views.take(i as int)),
                decreases items.len() - i,
            {
                proof {
                    assert(views.take(i + 1).drop_last() == views.take(i as int));
                    assert(views.take(i + 1).last() == items@[i as int]@);
                }
                match &items[i] {
                    Json::Text(_) => {},
                    _ => {
                        let index = decimal_text(i as u128);
                        report(
                            errs,
                            cat3("suggested_actions[", index.as_str(), "] must be a string"),
                        );
                    },
                }
                assert(contents(errs@) =~= before + actions_messages(views.take(i + 1)));
                i = i + 1;
            }
            assert(views.take(items.len() as int) == views);
        },
        Some(_) => report(errs, "suggested_actions must be an array".to_owned()),
        None => report(errs, "missing required field suggested_actions".to_owned()),
    }
}

fn check_error(v: &Json, errs: &mut Vec<String>)
    ensures
        contents(final(errs)@) == contents(old(errs)@) + error_field_messages(v@),
{
    match v.get("error") {
        None => report(errs, "missing required field error (use null on success)".to_owned()),
        Some(e) => match e {
            Json::Null => {
                assert(contents(errs@) =~= contents(old(errs)@) + error_field_messages(v@));
            },
            Json::Object(_) => {
                check_part(e, "error", "code", errs);
                check_part(e, "error", "message", errs);
                assert(contents(errs@) =~= contents(old(errs)@) + error_field_messages(v@));
            },
            _ => report(errs, "error must be null or an object".to_owned()),
        },
    }
}

/// Everything that is wrong with a document; nothing is, if and only if it is
/// an analysis.
pub fn schema_errors(v: &Json) -> (r: Vec<String>)
    ensures
        contents(r@) == schema_messages(v@),
        r@.len() == 0 <==> conformant(v@),
{
    let mut errs: Vec<String> = Vec::new();
    proof {
        law_no_messages_iff_conformant(v@);
    }
    match v {
        Json::Object(_) => {
            check_text(v, "screen_type", &mut errs);
            check_text(v, "title", &mut errs);
            check_text(v, "summary", &mut errs);
            check_elements(v, &mut errs);
            check_actions(v, &mut errs);
            check_error(v, &mut errs);
        },
        _ => report(&mut errs, "top-level value is not an object".to_owned()),
    }
    assert(contents(errs@) =~= schema_messages(v@));
    errs
}

/// The value of a check: the document, or what is wrong with it.
pub open spec fn outcome_view(r: Result<Json, Vec<String>>) -> Result<JsonView, Seq<Seq<char>>> {
    match r {
        Ok(v) => Ok(v@),
        Err(errs) => Err(contents(errs@)),
    }
}

/// The value of a parse: the document, or the message of the error.
pub open spec fn parse_view(r: Result<Json, String>) -> Result<JsonView, Seq<char>> {
    match r {
        Ok(v) => Ok(v@),
        Err(e) => Err(e@),
    }
}

/// What validation makes of the result of a parse.
pub open spec fn checked(parsed: Result<JsonView, Seq<char>>) -> Result<JsonView, Seq<Seq<char>>> {
    match parsed {
        Ok(v) => if conformant(v) {
            Ok(v)
        } else {
            Err(schema_messages(v))
        },
        Err(e) => Err(seq!["not valid JSON: "@ + e]),
    }
}

/// Validates the result of a parse.
pub fn check_parsed(parsed: Result<Json, String>) -> (r: Result<Json, Vec<String>>)
    ensures
        outcome_view(r) == checked(parse_view(parsed)),
        r is Ok <==> (parsed matches Ok(doc) && conformant(doc@)),
        r matches Ok(v) ==> (parsed matches Ok(doc) && v@ == doc@),
{
    match parsed {
        Ok(v) => {
            let errors = schema_errors(&v);
            if errors.len() == 0 {
                Ok(v)
            } else {
                Err(errors)
            }
        },
        Err(e) => {
            let mut errs: Vec<String> = Vec::new();
            report(&mut errs, cat2("not valid JSON: ", e.as_str()));
            assert(contents(errs@) =~= seq!["not valid JSON: "@ + e@]);
            Err(errs)
        },
    }
}

/// The strict validation of a text.
pub open spec fn validated(text: Seq<char>) -> Result<JsonView, Seq<Seq<char>>> {
    checked(json_parse(trimmed(text)))
}

/// Strict parse and schema validation. What is returned as `Ok` is an
/// analysis.
pub fn parse_and_validate(text: &str) -> (r: Result<Json, Vec<String>>)
    ensures
        outcome_view(r) == validated(text@),
        r matches Ok(v) ==> conformant(v@),
        r matches Ok(v) ==> reads_as(trimmed(text@), v@),
        r is Ok <==> (json_parse(trimmed(text@)) matches Ok(v) && conformant(v)),
{
    let trimmed_text = trim(text);
    let parsed = Json::parse(trimmed_text.as_str());
    check_parsed(parsed)
}

/// The choice between the strict result and the one for what was extracted.
pub open spec fn preferred(
    strict: Result<JsonView, Seq<Seq<char>>>,
    second: Option<Result<JsonView, Seq<Seq<char>>>>,
) -> Result<JsonView, Seq<Seq<char>>> {
    match strict {
        Ok(v) => Ok(v),
        Err(first) => match second {
            Some(r) => r,
            None => Err(first),
        },
    }
}

/// Validation with a second chance: strict first, then on what can be
/// extracted from the text.
pub open spec fn lenient(text: Seq<char>) -> Result<JsonView, Seq<Seq<char>>> {
    preferred(
        validated(text),
        match extracted(text) {
            Some(candidate) => Some(validated(candidate)),
            None => None,
        },
    )
}

/// Chooses between the strict result and the one for what was extracted; the
/// flag tells whether the value comes from the latter.
pub fn prefer(
    strict: Result<Json, Vec<String>>,
    second: Option<Result<Json, Vec<String>>>,
) -> (r: (Result<Json, Vec<String>>, bool))
    ensures
        outcome_view(r.0) == preferred(
            outcome_view(strict),
            match second {
                Some(x) => Some(outcome_view(x)),
                None => None,
            },
        ),
        r.1 == (strict is Err && (second matches Some(x) && x is Ok)),
{
    match strict {
        Ok(v) => (Ok(v), false),
        Err(first) => match second {
            Some(Ok(v)) => (Ok(v), true),
            Some(Err(errs)) => (Err(errs), false),
            None => (Err(first), false),
        },
    }
}

/// Validates a text, strictly first and then what can be extracted from it.
/// The flag tells whether the value was extracted.
pub fn lenient_validate(text: &str) -> (r: (Result<Json, Vec<String>>, bool))
    ensures
        outcome_view(r.0) == lenient(text@),
        r.1 == (validated(text@) is Err && lenient(text@) is Ok),
        r.0 matches Ok(v) ==> conformant(v@),
{
    let strict = parse_and_validate(text);
    if strict.is_ok() {
        return prefer(strict, None);
    }
    match extract_json_candidate(text) {
        Some(candidate) => {
            let second = parse_and_validate(candidate.as_str());
            prefer(strict, Some(second))
        },
        None => prefer(strict, None),
    }
}

// ---------------------------------------------------------------------------
// The error object

/// An analysis that reports a failure.
pub open spec fn error_view(code: Seq<char>, message: Seq<char>) -> JsonView {
    JsonView::Object(
        map![
            "screen_type"@ => JsonView::Text("unknown"@),
            "title"@ => JsonView::Text("Analysis failed"@),
            "summary"@ => JsonView::Text(message),
            "detected_elements"@ => JsonView::Array(seq![]),
            "suggested_actions"@ => JsonView::Array(seq![]),
            "error"@ => JsonView::Object(
                map![
                    "code"@ => JsonView::Text(code),
                    "message"@ => JsonView::Text(message),
                ],
            ),
        ],
    )
}

/// An analysis whose `error` field reports a failure.
pub fn error_object(code: &str, message: &str) -> (r: Json)
    ensures
        r@ == error_view(code@, message@),
        conformant(r@),
{
    proof {
        law_error_object_conformant(code@, message@);
    }
    let error = Json::object().with("code", Json::string(code)).with(
        "message",
        Json::string(message),
    );
    Json::object().with("screen_type", Json::string("unknown")).with(
        "title",
        Json::string("Analysis failed"),
    ).with("summary", Json::string(message)).with("detected_elements", Json::array()).with(
        "suggested_actions",
        Json::array(),
    ).with("error", error)
}

// ---------------------------------------------------------------------------
// Laws

proof fn lemma_no_element_messages(items: Seq<JsonView>)
    ensures
        elements_messages(items).len() == 0 <==> forall|i: int|
            0 <= i < items.len() ==> is_element(#[trigger] items[i]),
    decreases items.len(),
{
    if items.len() > 0 {
        let rest = items.drop_last();
        lemma_no_element_messages(rest);
        let last = items.last();
        assert(element_messages(last, items.len() - 1).len() == 0 <==> is_element(last));
        if elements_messages(items).len() == 0 {
            assert forall|i: int| 0 <= i < items.len() implies is_element(#[trigger] items[i]) by {
                if i < rest.len() {
                    assert(is_element(rest[i]));
                }
            }
        }
        if forall|i: int| 0 <= i < items.len() ==> is_element(#[trigger] items[i]) {
            assert(is_element(items[items.len() - 1]));
            assert forall|i: int| 0 <= i < rest.len() implies is_element(#[trigger] rest[i]) by {
                assert(is_element(items[i]));
            }
        }
    }
}

proof fn lemma_no_action_messages(items: Seq<JsonView>)
    ensures
        actions_messages(items).len() == 0 <==> forall|i: int|
            0 <= i < items.len() ==> (#[trigger] items[i]) is Text,
    decreases items.len(),
{
    if items.len() > 0 {
        let rest = items.drop_last();
        lemma_no_action_messages(rest);
        if actions_messages(items).len() == 0 {
            assert forall|i: int| 0 <= i < items.len() implies (#[trigger] items[i]) is Text by {
                if i < rest.len() {
                    assert(rest[i] is Text);
                }
            }
        }
        if forall|i: int| 0 <= i < items.len() ==> (#[trigger] items[i]) is Text {
            assert(items[items.len() - 1] is Text);
            assert forall|i: int| 0 <= i < rest.len() implies (#[trigger] rest[i]) is Text by {
                assert(items[i] is Text);
            }
        }
    }
}

/// Validation has nothing to say of a document if and only if the document is
/// an analysis.
pub proof fn law_no_messages_iff_conformant(v: JsonView)
    ensures
        schema_messages(v).len() == 0 <==> conformant(v),
{
    if let Some(JsonView::Array(items)) = field(v, "detected_elements"@) {
        lemma_no_element_messages(items);
    }
    if let Some(JsonView::Array(items)) = field(v, "suggested_actions"@) {
        lemma_no_action_messages(items);
    }
}

/// An error object is itself an analysis, whatever its code and message.
pub proof fn law_error_object_conformant(code: Seq<char>, message: Seq<char>)
    ensures
        conformant(error_view(code, message)),
{
    reveal_strlit("screen_type");
    reveal_strlit("title");
    reveal_strlit("summary");
    reveal_strlit("detected_elements");
    reveal_strlit("suggested_actions");
    reveal_strlit("error");
    reveal_strlit("code");
    reveal_strlit("message");
    assert("screen_type"@.len() == 11 && "title"@.len() == 5 && "summary"@.len() == 7);
    assert("detected_elements"@.len() == 17 && "suggested_actions"@.len() == 17);
    assert("error"@.len() == 5 && "code"@.len() == 4 && "message"@.len() == 7);
    assert("title"@[0] == 't' && "error"@[0] == 'e');
    assert("detected_elements"@[0] == 'd' && "suggested_actions"@[0] == 's');
}

/// An error object is read back by whoever parses its text.
pub proof fn law_error_object_readable(code: Seq<char>, message: Seq<char>)
    ensures
        readable(error_view(code, message), 127),
{
    reveal_with_fuel(readable, 3);
}

/// The second chance never changes what the strict validation accepts, and
/// never accepts anything but an analysis.
pub proof fn law_strict_first(text: Seq<char>)
    ensures
        validated(text) is Ok ==> lenient(text) == validated(text),
        lenient(text) matches Ok(v) ==> conformant(v),
{
}

/// An analysis is found in prose around it, as long as no brace comes before
/// it and no fence occurs at all.
pub proof fn law_analysis_in_prose(before: Seq<char>, object: Seq<char>, after: Seq<char>)
    requires
        balanced_object(object),
        validated(object) is Ok,
        !before.contains('{'),
        forall|i: int| !#[trigger] occurs_at(before + object + after, "```"@, i),
    ensures
        lenient(before + object + after) is Ok,
        validated(before + object + after) is Err ==> lenient(before + object + after)
            == validated(object),
{
    law_object_in_prose(before, object, after);
}

/// An analysis is found in the first fenced block of a text, whatever stands
/// before and after the block, as long as neither the text before it nor the
/// analysis brings a fence of its own.
pub proof fn law_analysis_in_fence(
    before: Seq<char>,
    label: Seq<char>,
    body: Seq<char>,
    after: Seq<char>,
)
    requires
        first_at(before + "```"@, "```"@, before.len() as int),
        first_at(body + "```"@, "```"@, body.len() as int),
        label == "json"@ || (label.len() == 0 && !"json"@.is_prefix_of(body)),
        trimmed(body).len() > 0,
        validated(trimmed(body)) is Ok,
    ensures
        ({
            let text = before + "```"@ + label + body + "```"@ + after;
            &&& lenient(text) is Ok
            &&& validated(text) is Err ==> lenient(text) == validated(trimmed(body))
        }),
{
    law_fenced_block(before, label, body, after);
}

/// What the strict validation accepts is what the text parses to, unchanged in
/// every field and item; and it accepts every text that parses to an analysis.
pub proof fn law_accepts_what_it_parses(text: Seq<char>, v: JsonView)
    ensures
        validated(text) == Ok::<JsonView, Seq<Seq<char>>>(v) <==> json_parse(trimmed(text))
            == Ok::<JsonView, Seq<char>>(v) && conformant(v),
        json_parse(trimmed(text)) matches Err(e) ==> validated(text) == Err::<
            JsonView,
            Seq<Seq<char>>,
        >(seq!["not valid JSON: "@ + e]),
        json_parse(trimmed(text)) == Ok::<JsonView, Seq<char>>(v) && !conformant(v)
            ==> validated(text) == Err::<JsonView, Seq<Seq<char>>>(schema_messages(v)),
{
}

/// The second chance accepts what the text parses to where that is an
/// analysis, and otherwise what the extracted candidate parses to where that
/// is one; and nothing else. Where it accepts nothing it tells what is wrong
/// with the candidate, or with the text where there is no candidate.
pub proof fn law_second_chance(text: Seq<char>, candidate: Seq<char>, v: JsonView)
    ensures
        json_parse(trimmed(text)) == Ok::<JsonView, Seq<char>>(v) && conformant(v) ==> lenient(text)
            == Ok::<JsonView, Seq<Seq<char>>>(v),
        extracted(text) == Some(candidate) && !(json_parse(trimmed(text)) matches Ok(w)
            && conformant(w)) ==> {
            &&& json_parse(trimmed(candidate)) == Ok::<JsonView, Seq<char>>(v) && conformant(v)
                ==> lenient(text) == Ok::<JsonView, Seq<Seq<char>>>(v)
            &&& json_parse(trimmed(candidate)) == Ok::<JsonView, Seq<char>>(v) && !conformant(v)
                ==> lenient(text) == Err::<JsonView, Seq<Seq<char>>>(schema_messages(v))
            &&& json_parse(trimmed(candidate)) matches Err(e) ==> lenient(text) == Err::<
                JsonView,
                Seq<Seq<char>>,
            >(seq!["not valid JSON: "@ + e])
        },
        extracted(text) is None ==> lenient(text) == validated(text),
        lenient(text) == Ok::<JsonView, Seq<Seq<char>>>(v) ==> conformant(v) && (json_parse(
            trimmed(text),
        ) == Ok::<JsonView, Seq<char>>(v) || (extracted(text) matches Some(c) && json_parse(
            trimmed(c),
        ) == Ok::<JsonView, Seq<char>>(v))),
{
}

/// An object has a string under `key`.
pub open spec fn text_at_key(m: Map<Seq<char>, JsonView>, key: Seq<char>) -> bool {
    m.contains_key(key) && m[key] is Text
}

/// A document is an analysis exactly where it is an object with all six keys,
/// each with what belongs under it.
pub proof fn law_six_fields(v: JsonView)
    ensures
        conformant(v) <==> (v matches JsonView::Object(m) && {
            &&& text_at_key(m, "screen_type"@)
            &&& text_at_key(m, "title"@)
            &&& text_at_key(m, "summary"@)
            &&& m.contains_key("detected_elements"@)
            &&& m["detected_elements"@] matches JsonView::Array(items) && forall|i: int|
                0 <= i < items.len() ==> (#[trigger] items[i] matches JsonView::Object(e) && {
                    &&& text_at_key(e, "name"@)
                    &&& text_at_key(e, "description"@)
                    &&& e.contains_key("confidence"@)
                    &&& e["confidence"@] matches JsonView::Number(n) && (n.bits
                        <= 0x3ff0_0000_0000_0000 || n.bits == 0x8000_0000_0000_0000)
                })
            &&& m.contains_key("suggested_actions"@)
            &&& m["suggested_actions"@] matches JsonView::Array(actions) && forall|i: int|
                0 <= i < actions.len() ==> (#[trigger] actions[i]) is Text
            &&& m.contains_key("error"@)
            &&& m["error"@] is Null || (m["error"@] matches JsonView::Object(e) && text_at_key(
                e,
                "code"@,
            ) && text_at_key(e, "message"@))
        }),
{
    if let JsonView::Object(m) = v {
        if m.contains_key("detected_elements"@) {
            if let JsonView::Array(items) = m["detected_elements"@] {
                assert forall|i: int| 0 <= i < items.len() implies is_element(
                    #[trigger] items[i],
                ) == (items[i] matches JsonView::Object(e) && {
                    &&& text_at_key(e, "name"@)
                    &&& text_at_key(e, "description"@)
                    &&& e.contains_key("confidence"@)
                    &&& e["confidence"@] matches JsonView::Number(n) && (n.bits
                        <= 0x3ff0_0000_0000_0000 || n.bits == 0x8000_0000_0000_0000)
                }) by {
                }
            }
        }
    }
}

proof fn lemma_contains(a: Seq<Seq<char>>, b: Seq<Seq<char>>, x: Seq<char>)
    ensures
        (a + b).contains(x) <==> a.contains(x) || b.contains(x),
{
    if a.contains(x) {
        let i = a.index_of(x);
        assert((a + b)[i] == x);
    }
    if b.contains(x) {
        let i = b.index_of(x);
        assert((a + b)[a.len() + i] == x);
    }
    if (a + b).contains(x) {
        let i = (a + b).index_of(x);
        if i < a.len() {
            assert(a[i] == x);
        } else {
            assert(b[i - a.len()] == x);
        }
    }
}

proof fn lemma_schema_contains(v: JsonView, x: Seq<char>)
    requires
        v is Object,
        text_messages(v, "screen_type"@).contains(x) || text_messages(v, "title"@).contains(x)
            || text_messages(v, "summary"@).contains(x) || elements_field_messages(v).contains(x)
            || actions_field_messages(v).contains(x) || error_field_messages(v).contains(x),
    ensures
        schema_messages(v).contains(x),
{
    let a = text_messages(v, "screen_type"@);
    let b = text_messages(v, "title"@);
    let c = text_messages(v, "summary"@);
    let d = elements_field_messages(v);
    let e = actions_field_messages(v);
    let f = error_field_messages(v);
    lemma_contains(a, b, x);
    lemma_contains(a + b, c, x);
    lemma_contains(a + b + c, d, x);
    lemma_contains(a + b + c + d, e, x);
    lemma_contains(a + b + c + d + e, f, x);
}

proof fn lemma_single(x: Seq<char>)
    ensures
        seq![x].contains(x),
{
    assert(seq![x][0] == x);
}

/// A required string that is missing, or that is something else, is named.
pub proof fn law_bad_text_is_named(m: Map<Seq<char>, JsonView>, key: Seq<char>)
    requires
        key == "screen_type"@ || key == "title"@ || key == "summary"@,
    ensures
        !m.contains_key(key) ==> schema_messages(JsonView::Object(m)).contains(
            "missing required field "@ + key,
        ),
        m.contains_key(key) && !(m[key] is Text) ==> schema_messages(JsonView::Object(m)).contains(
            key + " must be a string"@,
        ),
{
    let v = JsonView::Object(m);
    if !m.contains_key(key) {
        lemma_single("missing required field "@ + key);
        lemma_schema_contains(v, "missing required field "@ + key);
    } else if !(m[key] is Text) {
        lemma_single(key + " must be a string"@);
        lemma_schema_contains(v, key + " must be a string"@);
    }
}

proof fn lemma_element_named(items: Seq<JsonView>, i: int, x: Seq<char>)
    requires
        0 <= i < items.len(),
        element_messages(items[i], i).contains(x),
    ensures
        elements_messages(items).contains(x),
    decreases items.len(),
{
    let rest = items.drop_last();
    lemma_contains(elements_messages(rest), element_messages(items.last(), items.len() - 1), x);
    if i < items.len() - 1 {
        assert(rest[i] == items[i]);
        lemma_element_named(rest, i, x);
    }
}

/// Whatever is wrong with a detected element is named, with its place.
pub proof fn law_bad_element_is_named(m: Map<Seq<char>, JsonView>, i: int)
    requires
        m.contains_key("detected_elements"@),
        m["detected_elements"@] is Array,
        0 <= i < m["detected_elements"@]->Array_0.len(),
    ensures
        ({
            let messages = schema_messages(JsonView::Object(m));
            let item = m["detected_elements"@]->Array_0[i];
            let name = "detected_elements["@ + decimal(i as nat) + "]"@;
            match item {
                JsonView::Object(e) => {
                    &&& !text_at_key(e, "name"@) ==> messages.contains(
                        name + "."@ + "name"@ + " must be a string"@,
                    )
                    &&& !text_at_key(e, "description"@) ==> messages.contains(
                        name + "."@ + "description"@ + " must be a string"@,
                    )
                    &&& !(e.contains_key("confidence"@) && e["confidence"@] is Number)
                        ==> messages.contains(name + ".confidence must be a number"@)
                    &&& e.contains_key("confidence"@) && (e["confidence"@] matches JsonView::Number(
                        n,
                    ) && n.bits > 0x3ff0_0000_0000_0000 && n.bits != 0x8000_0000_0000_0000)
                        ==> messages.contains(
                        name + ".confidence "@ + double_text(e["confidence"@]->Number_0.bits)
                            + " out of range 0..1"@,
                    )
                },
                _ => messages.contains(name + " is not an object"@),
            }
        }),
{
    let v = JsonView::Object(m);
    let items = m["detected_elements"@]->Array_0;
    let item = items[i];
    let name = element_name(i);
    let messages = element_messages(item, i);
    if let JsonView::Object(e) = item {
        let a = part_messages(item, name, "name"@);
        let b = part_messages(item, name, "description"@);
        let c = confidence_messages(item, name);
        let x = name + "."@ + "name"@ + " must be a string"@;
        let y = name + "."@ + "description"@ + " must be a string"@;
        let z = name + ".confidence must be a number"@;
        let w = name + ".confidence "@ + double_text(e["confidence"@]->Number_0.bits)
            + " out of range 0..1"@;
        lemma_single(x);
        lemma_single(y);
        lemma_single(z);
        lemma_single(w);
        lemma_contains(a, b, x);
        lemma_contains(a + b, c, x);
        lemma_contains(a, b, y);
        lemma_contains(a + b, c, y);
        lemma_contains(a + b, c, z);
        lemma_contains(a + b, c, w);
        if !text_at_key(e, "name"@) {
            assert(a.contains(x));
            lemma_element_named(items, i, x);
            lemma_schema_contains(v, x);
        }
        if !text_at_key(e, "description"@) {
            assert(b.contains(y));
            lemma_element_named(items, i, y);
            lemma_schema_contains(v, y);
        }
        if !(e.contains_key("confidence"@) && e["confidence"@] is Number) {
            assert(c.contains(z));
            lemma_element_named(items, i, z);
            lemma_schema_contains(v, z);
        }
        if e.contains_key("confidence"@) && (e["confidence"@] matches JsonView::Number(n) && n.bits
            > 0x3ff0_0000_0000_0000 && n.bits != 0x8000_0000_0000_0000) {
            assert(c.contains(w));
            lemma_element_named(items, i, w);
            lemma_schema_contains(v, w);
        }
    } else {
        let x = name + " is not an object"@;
        lemma_single(x);
        lemma_element_named(items, i, x);
        lemma_schema_contains(v, x);
    }
}

proof fn lemma_action_named(items: Seq<JsonView>, i: int, x: Seq<char>)
    requires
        0 <= i < items.len(),
        action_messages(items[i], i).contains(x),
    ensures
        actions_messages(items).contains(x),
    decreases items.len(),
{
    let rest = items.drop_last();
    lemma_contains(actions_messages(rest), action_messages(items.last(), items.len() - 1), x);
    if i < items.len() - 1 {
        assert(rest[i] == items[i]);
        lemma_action_named(rest, i, x);
    }
}

/// A suggested action that is no string is named, with its place.
pub proof fn law_bad_action_is_named(m: Map<Seq<char>, JsonView>, i: int)
    requires
        m.contains_key("suggested_actions"@),
        m["suggested_actions"@] is Array,
        0 <= i < m["suggested_actions"@]->Array_0.len(),
        !(m["suggested_actions"@]->Array_0[i] is Text),
    ensures
        schema_messages(JsonView::Object(m)).contains(
            "suggested_actions["@ + decimal(i as nat) + "] must be a string"@,
        ),
{
    let x = "suggested_actions["@ + decimal(i as nat) + "] must be a string"@;
    lemma_single(x);
    lemma_action_named(m["suggested_actions"@]->Array_0, i, x);
    lemma_schema_contains(JsonView::Object(m), x);
}

/// A list or an error that is missing, or that is something else, is named; so
/// is what is wrong within an error, and a document that is no object.
pub proof fn law_bad_field_is_named(v: JsonView)
    ensures
        !(v is Object) ==> schema_messages(v) == seq!["top-level value is not an object"@],
        v matches JsonView::Object(m) ==> {
            let messages = schema_messages(v);
            &&& !m.contains_key("detected_elements"@) ==> messages.contains(
                "missing required field detected_elements"@,
            )
            &&& m.contains_key("detected_elements"@) && !(m["detected_elements"@] is Array)
                ==> messages.contains("detected_elements must be an array"@)
            &&& !m.contains_key("suggested_actions"@) ==> messages.contains(
                "missing required field suggested_actions"@,
            )
            &&& m.contains_key("suggested_actions"@) && !(m["suggested_actions"@] is Array)
                ==> messages.contains("suggested_actions must be an array"@)
            &&& !m.contains_key("error"@) ==> messages.contains(
                "missing required field error (use null on success)"@,
            )
            &&& m.contains_key("error"@) && !(m["error"@] is Null) && !(m["error"@] is Object)
                ==> messages.contains("error must be null or an object"@)
            &&& m.contains_key("error"@) && (m["error"@] matches JsonView::Object(e)
                && !text_at_key(e, "code"@)) ==> messages.contains(
                "error"@ + "."@ + "code"@ + " must be a string"@,
            )
            &&& m.contains_key("error"@) && (m["error"@] matches JsonView::Object(e)
                && !text_at_key(e, "message"@)) ==> messages.contains(
                "error"@ + "."@ + "message"@ + " must be a string"@,
            )
        },
{
    if let JsonView::Object(m) = v {
        if !m.contains_key("detected_elements"@) {
            lemma_single("missing required field detected_elements"@);
            lemma_schema_contains(v, "missing required field detected_elements"@);
        } else if !(m["detected_elements"@] is Array) {
            lemma_single("detected_elements must be an array"@);
            lemma_schema_contains(v, "detected_elements must be an array"@);
        }
        if !m.contains_key("suggested_actions"@) {
            lemma_single("missing required field suggested_actions"@);
            lemma_schema_contains(v, "missing required field suggested_actions"@);
        } else if !(m["suggested_actions"@] is Array) {
            lemma_single("suggested_actions must be an array"@);
            lemma_schema_contains(v, "suggested_actions must be an array"@);
        }
        if !m.contains_key("error"@) {
            lemma_single("missing required field error (use null on success)"@);
            lemma_schema_contains(v, "missing required field error (use null on success)"@);
        } else if let JsonView::Object(e) = m["error"@] {
            let part = JsonView::Object(e);
            let a = part_messages(part, "error"@, "code"@);
            let b = part_messages(part, "error"@, "message"@);
            let x = "error"@ + "."@ + "code"@ + " must be a string"@;
            let y = "error"@ + "."@ + "message"@ + " must be a string"@;
            lemma_single(x);
            lemma_single(y);
            lemma_contains(a, b, x);
            lemma_contains(a, b, y);
            if !text_at_key(e, "code"@) {
                assert(a.contains(x));
                lemma_schema_contains(v, x);
            }
            if !text_at_key(e, "message"@) {
                assert(b.contains(y));
                lemma_schema_contains(v, y);
            }
        } else if !(m["error"@] is Null) {
            lemma_single("error must be null or an object"@);
            lemma_schema_contains(v, "error must be null or an object"@);
        }
    }
}

/// One, where something is wrong.
pub open spec fn fault(wrong: bool) -> nat {
    if wrong {
        1
    } else {
        0
    }
}

/// How many things are wrong with a detected element.
pub open spec fn element_faults(item: JsonView) -> nat {
    match item {
        JsonView::Object(e) => fault(!text_at_key(e, "name"@)) + fault(
            !text_at_key(e, "description"@),
        ) + fault(
            !(e.contains_key("confidence"@) && (e["confidence"@] matches JsonView::Number(n) && (
            n.bits <= 0x3ff0_0000_0000_0000 || n.bits == 0x8000_0000_0000_0000))),
        ),
        _ => 1,
    }
}

/// How many things are wrong with the items of a list, all in all.
pub open spec fn list_faults(items: Seq<JsonView>, of_item: spec_fn(JsonView) -> nat) -> nat
    decreases items.len(),
{
    if items.len() == 0 {
        0
    } else {
        of_item(items[0]) + list_faults(items.drop_first(), of_item)
    }
}

proof fn lemma_list_faults(items: Seq<JsonView>, of_item: spec_fn(JsonView) -> nat)
    requires
        items.len() > 0,
    ensures
        list_faults(items, of_item) == list_faults(items.drop_last(), of_item) + of_item(
            items.last(),
        ),
    decreases items.len(),
{
    if items.len() > 1 {
        lemma_list_faults(items.drop_first(), of_item);
        assert(items.drop_first().drop_last() =~= items.drop_last().drop_first());
    } else {
        assert(items.drop_last() =~= Seq::<JsonView>::empty());
        assert(items.drop_first() =~= Seq::<JsonView>::empty());
    }
}

proof fn lemma_element_count(items: Seq<JsonView>)
    ensures
        elements_messages(items).len() == list_faults(items, |v: JsonView| element_faults(v)),
    decreases items.len(),
{
    if items.len() > 0 {
        lemma_element_count(items.drop_last());
        lemma_list_faults(items, |v: JsonView| element_faults(v));
    }
}

proof fn lemma_action_count(items: Seq<JsonView>)
    ensures
        actions_messages(items).len() == list_faults(items, |v: JsonView| fault(!(v is Text))),
    decreases items.len(),
{
    if items.len() > 0 {
        lemma_action_count(items.drop_last());
        lemma_list_faults(items, |v: JsonView| fault(!(v is Text)));
    }
}

/// There is one message for each thing that is wrong, and no other.
pub proof fn law_one_message_each(m: Map<Seq<char>, JsonView>)
    ensures
        schema_messages(JsonView::Object(m)).len() == fault(!text_at_key(m, "screen_type"@))
            + fault(!text_at_key(m, "title"@)) + fault(!text_at_key(m, "summary"@)) + (
        if m.contains_key("detected_elements"@) && m["detected_elements"@] is Array {
            list_faults(m["detected_elements"@]->Array_0, |v: JsonView| element_faults(v))
        } else {
            1
        }) + (if m.contains_key("suggested_actions"@) && m["suggested_actions"@] is Array {
            list_faults(m["suggested_actions"@]->Array_0, |v: JsonView| fault(!(v is Text)))
        } else {
            1
        }) + (if !m.contains_key("error"@) {
            1
        } else {
            match m["error"@] {
                JsonView::Null => 0,
                JsonView::Object(e) => fault(!text_at_key(e, "code"@)) + fault(
                    !text_at_key(e, "message"@),
                ),
                _ => 1,
            }
        }),
{
    if m.contains_key("detected_elements"@) && m["detected_elements"@] is Array {
        lemma_element_count(m["detected_elements"@]->Array_0);
    }
    if m.contains_key("suggested_actions"@) && m["suggested_actions"@] is Array {
        lemma_action_count(m["suggested_actions"@]->Array_0);
    }
}

/// An error object says what went wrong, under its code, and nothing else.
pub proof fn law_error_object_fields(code: Seq<char>, message: Seq<char>)
    ensures
        ({
            let v = error_view(code, message);
            let none = JsonView::Array(Seq::empty());
            &&& field(v, "screen_type"@) == Some(JsonView::Text("unknown"@))
            &&& field(v, "title"@) == Some(JsonView::Text("Analysis failed"@))
            &&& field(v, "summary"@) == Some(JsonView::Text(message))
            &&& field(v, "detected_elements"@) == Some(none)
            &&& field(v, "suggested_actions"@) == Some(none)
            &&& field(v, "error"@) matches Some(e) && field(e, "code"@) == Some(
                JsonView::Text(code),
            ) && field(e, "message"@) == Some(JsonView::Text(message)) && e->Object_0.dom() == set![
                "code"@,
                "message"@,
            ]
            &&& v->Object_0.dom() == set![
                "screen_type"@,
                "title"@,
                "summary"@,
                "detected_elements"@,
                "suggested_actions"@,
                "error"@,
            ]
        }),
{
    reveal_strlit("screen_type");
    reveal_strlit("title");
    reveal_strlit("summary");
    reveal_strlit("detected_elements");
    reveal_strlit("suggested_actions");
    reveal_strlit("error");
    reveal_strlit("code");
    reveal_strlit("message");
    assert("screen_type"@.len() == 11 && "title"@.len() == 5 && "summary"@.len() == 7);
    assert("detected_elements"@.len() == 17 && "suggested_actions"@.len() == 17);
    assert("error"@.len() == 5 && "code"@.len() == 4 && "message"@.len() == 7);
    assert("title"@[0] == 't' && "error"@[0] == 'e');
    assert("detected_elements"@[0] == 'd' && "suggested_actions"@[0] == 's');
}

/// What a check gives is the document itself, or the messages themselves.
pub proof fn law_outcome_view(v: Json, errs: Vec<String>, e: String, i: int)
    ensures
        outcome_view(Ok(v)) == Ok::<JsonView, Seq<Seq<char>>>(v@),
        outcome_view(Err(errs)) matches Err(messages) && messages.len() == errs@.len() && (0 <= i
            < errs@.len() ==> messages[i] == errs@[i]@),
        parse_view(Ok(v)) == Ok::<JsonView, Seq<char>>(v@),
        parse_view(Err(e)) == Err::<JsonView, Seq<char>>(e@),
{
}

proof fn lemma_element_place(items: Seq<JsonView>, i: int, k: int)
    requires
        0 <= i < items.len(),
        0 <= k < element_messages(items[i], i).len(),
    ensures
        ({
            let at = list_faults(items.take(i), |v: JsonView| element_faults(v)) + k;
            &&& at < elements_messages(items).len()
            &&& elements_messages(items)[at] == element_messages(items[i], i)[k]
        }),
    decreases items.len(),
{
    let rest = items.drop_last();
    if i < items.len() - 1 {
        assert(rest[i] == items[i]);
        assert(rest.take(i) =~= items.take(i));
        lemma_element_place(rest, i, k);
    } else {
        assert(items.take(i) =~= rest);
        lemma_element_count(rest);
    }
}

proof fn lemma_action_place(items: Seq<JsonView>, i: int)
    requires
        0 <= i < items.len(),
        !(items[i] is Text),
    ensures
        ({
            let at = list_faults(items.take(i), |v: JsonView| fault(!(v is Text)));
            &&& at < actions_messages(items).len()
            &&& actions_messages(items)[at as int] == action_messages(items[i], i)[0]
        }),
    decreases items.len(),
{
    let rest = items.drop_last();
    if i < items.len() - 1 {
        assert(rest[i] == items[i]);
        assert(rest.take(i) =~= items.take(i));
        lemma_action_place(rest, i);
    } else {
        assert(items.take(i) =~= rest);
        lemma_action_count(rest);
    }
}

/// What is said of a required string that is not there, or is something else.
pub open spec fn bad_text(m: Map<Seq<char>, JsonView>, key: Seq<char>) -> Seq<char> {
    if m.contains_key(key) {
        key + " must be a string"@
    } else {
        "missing required field "@ + key
    }
}

/// Where the messages on each field begin.
proof fn lemma_sections(m: Map<Seq<char>, JsonView>)
    ensures
        ({
            let v = JsonView::Object(m);
            let messages = schema_messages(v);
            let a: int = fault(!text_at_key(m, "screen_type"@)) as int;
            let b: int = a + fault(!text_at_key(m, "title"@));
            let c: int = b + fault(!text_at_key(m, "summary"@));
            let d: int = c + elements_field_messages(v).len();
            let e: int = d + actions_field_messages(v).len();
            &&& a == text_messages(v, "screen_type"@).len()
            &&& b == a + text_messages(v, "title"@).len()
            &&& c == b + text_messages(v, "summary"@).len()
            &&& forall|k: int|
                0 <= k < a ==> #[trigger] messages[k] == text_messages(v, "screen_type"@)[k]
            &&& forall|k: int|
                0 <= k < b - a ==> messages[a + k] == #[trigger] text_messages(v, "title"@)[k]
            &&& forall|k: int|
                0 <= k < c - b ==> messages[b + k] == #[trigger] text_messages(v, "summary"@)[k]
            &&& forall|k: int|
                0 <= k < d - c ==> messages[c + k] == #[trigger] elements_field_messages(v)[k]
            &&& forall|k: int|
                0 <= k < e - d ==> messages[d + k] == #[trigger] actions_field_messages(v)[k]
            &&& forall|k: int|
                0 <= k < error_field_messages(v).len() ==> messages[e + k]
                    == #[trigger] error_field_messages(v)[k]
        }),
{
}

/// The messages on the three strings come first, in the order of the fields.
pub proof fn law_text_messages_first(m: Map<Seq<char>, JsonView>)
    ensures
        ({
            let messages = schema_messages(JsonView::Object(m));
            let a: int = fault(!text_at_key(m, "screen_type"@)) as int;
            let b: int = a + fault(!text_at_key(m, "title"@));
            &&& !text_at_key(m, "screen_type"@) ==> messages[0] == bad_text(m, "screen_type"@)
            &&& !text_at_key(m, "title"@) ==> messages[a] == bad_text(m, "title"@)
            &&& !text_at_key(m, "summary"@) ==> messages[b] == bad_text(m, "summary"@)
        }),
{
    lemma_sections(m);
    let v = JsonView::Object(m);
    assert(!text_at_key(m, "title"@) ==> text_messages(v, "title"@)[0] == bad_text(m, "title"@));
    assert(!text_at_key(m, "summary"@) ==> text_messages(v, "summary"@)[0] == bad_text(
        m,
        "summary"@,
    ));
}

/// The messages on the elements come next, in the order of the elements, and
/// for each its name, its description and its confidence.
pub proof fn law_element_messages_next(m: Map<Seq<char>, JsonView>, i: int)
    ensures
        ({
            let messages = schema_messages(JsonView::Object(m));
            let a: int = fault(!text_at_key(m, "screen_type"@)) as int;
            let b: int = a + fault(!text_at_key(m, "title"@));
            let c: int = b + fault(!text_at_key(m, "summary"@));
            &&& !m.contains_key("detected_elements"@) ==> messages[c]
                == "missing required field detected_elements"@
            &&& m.contains_key("detected_elements"@) ==> match m["detected_elements"@] {
                JsonView::Array(items) => 0 <= i < items.len() ==> {
                    let p: int = c + list_faults(items.take(i), |v: JsonView| element_faults(v));
                    let name = "detected_elements["@ + decimal(i as nat) + "]"@;
                    match items[i] {
                        JsonView::Object(e) => {
                            let q: int = p + fault(!text_at_key(e, "name"@));
                            let r: int = q + fault(!text_at_key(e, "description"@));
                            &&& !text_at_key(e, "name"@) ==> messages[p] == name + "."@ + "name"@
                                + " must be a string"@
                            &&& !text_at_key(e, "description"@) ==> messages[q] == name + "."@
                                + "description"@ + " must be a string"@
                            &&& !(e.contains_key("confidence"@) && e["confidence"@] is Number)
                                ==> messages[r] == name + ".confidence must be a number"@
                        },
                        _ => messages[p] == name + " is not an object"@,
                    }
                },
                _ => messages[c] == "detected_elements must be an array"@,
            }
        }),
{
    lemma_sections(m);
    let v = JsonView::Object(m);
    let said = elements_field_messages(v);
    if !m.contains_key("detected_elements"@) || !(m["detected_elements"@] is Array) {
        assert(said.len() == 1);
        assert(said[0] == said[0]);
    } else {
        let items = m["detected_elements"@]->Array_0;
        if 0 <= i < items.len() {
            let own = element_messages(items[i], i);
            let at: int = list_faults(items.take(i), |v: JsonView| element_faults(v)) as int;
            assert forall|k: int| 0 <= k < own.len() implies at + k < said.len() && said[at + k]
                == #[trigger] own[k] by {
                lemma_element_place(items, i, k);
            }
            lemma_element_messages_at(items[i], i);
        }
    }
}

/// The messages on the actions come after those on the elements, in the order
/// of the actions, and those on the error come last.
pub proof fn law_other_messages_last(m: Map<Seq<char>, JsonView>, i: int)
    ensures
        ({
            let messages = schema_messages(JsonView::Object(m));
            let a: int = fault(!text_at_key(m, "screen_type"@)) as int;
            let b: int = a + fault(!text_at_key(m, "title"@));
            let c: int = b + fault(!text_at_key(m, "summary"@));
            let d: int = c + if m.contains_key("detected_elements"@)
                && m["detected_elements"@] is Array {
                list_faults(m["detected_elements"@]->Array_0, |v: JsonView| element_faults(v))
            } else {
                1
            };
            let e: int = d + if m.contains_key("suggested_actions"@)
                && m["suggested_actions"@] is Array {
                list_faults(m["suggested_actions"@]->Array_0, |v: JsonView| fault(!(v is Text)))
            } else {
                1
            };
            &&& !m.contains_key("suggested_actions"@) ==> messages[d]
                == "missing required field suggested_actions"@
            &&& m.contains_key("suggested_actions"@) ==> match m["suggested_actions"@] {
                JsonView::Array(items) => 0 <= i < items.len() && !(items[i] is Text)
                    ==> messages[d + list_faults(items.take(i), |v: JsonView| fault(!(v is Text)))]
                    == "suggested_actions["@ + decimal(i as nat) + "] must be a string"@,
                _ => messages[d] == "suggested_actions must be an array"@,
            }
            &&& !m.contains_key("error"@) ==> messages[e]
                == "missing required field error (use null on success)"@
            &&& m.contains_key("error"@) ==> match m["error"@] {
                JsonView::Null => true,
                JsonView::Object(error) => {
                    let f: int = e + fault(!text_at_key(error, "code"@));
                    &&& !text_at_key(error, "code"@) ==> messages[e] == "error"@ + "."@ + "code"@
                        + " must be a string"@
                    &&& !text_at_key(error, "message"@) ==> messages[f] == "error"@ + "."@
                        + "message"@ + " must be a string"@
                },
                _ => messages[e] == "error must be null or an object"@,
            }
        }),
{
    lemma_sections(m);
    let v = JsonView::Object(m);
    let actions = actions_field_messages(v);
    let last = error_field_messages(v);
    if m.contains_key("detected_elements"@) && m["detected_elements"@] is Array {
        lemma_element_count(m["detected_elements"@]->Array_0);
    }
    if m.contains_key("suggested_actions"@) && m["suggested_actions"@] is Array {
        let items = m["suggested_actions"@]->Array_0;
        lemma_action_count(items);
        if 0 <= i < items.len() && !(items[i] is Text) {
            lemma_action_place(items, i);
            let at: int = list_faults(items.take(i), |v: JsonView| fault(!(v is Text))) as int;
            assert(actions[at] == action_messages(items[i], i)[0]);
        }
    } else {
        assert(actions.len() == 1);
        assert(actions[0] == actions[0]);
    }
    if m.contains_key("error"@) && m["error"@] is Object {
        let error = m["error"@]->Object_0;
        let f: int = fault(!text_at_key(error, "code"@)) as int;
        assert(!text_at_key(error, "code"@) ==> last[0] == "error"@ + "."@ + "code"@
            + " must be a string"@);
        assert(!text_at_key(error, "message"@) ==> last[f] == "error"@ + "."@ + "message"@
            + " must be a string"@);
    } else if !(m.contains_key("error"@) && m["error"@] is Null) {
        assert(last.len() == 1);
        assert(last[0] == last[0]);
    }
}

proof fn lemma_element_messages_at(item: JsonView, i: int)
    ensures
        ({
            let messages = element_messages(item, i);
            let name = "detected_elements["@ + decimal(i as nat) + "]"@;
            match item {
                JsonView::Object(e) => {
                    let q: int = fault(!text_at_key(e, "name"@)) as int;
                    let r: int = q + fault(!text_at_key(e, "description"@));
                    &&& !text_at_key(e, "name"@) ==> messages.len() > 0 && messages[0] == name
                        + "."@ + "name"@ + " must be a string"@
                    &&& !text_at_key(e, "description"@) ==> messages.len() > q && messages[q]
                        == name + "."@ + "description"@ + " must be a string"@
                    &&& !(e.contains_key("confidence"@) && e["confidence"@] is Number)
                        ==> messages.len() > r && messages[r] == name
                        + ".confidence must be a number"@
                },
                _ => messages.len() > 0 && messages[0] == name + " is not an object"@,
            }
        }),
{
}

} // verus!

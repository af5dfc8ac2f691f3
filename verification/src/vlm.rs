//! Talking to the vision model: the request that carries the image, and what
//! to make of the reply.

use crate::config::opt_view;
use crate::json::{int_view, item_of, json_parse, json_text, key_of, str_of, Json, JsonView};
use crate::text::{
    all_white, bare, cat2, cat3, cat4, chars_of, decimal, decimal_text, fences_stripped,
    first_chars, join, joined, law_fences_stripped, law_stripped_is_part, law_trimmed,
    law_trimmed_bare, law_without_suffixes, lemma_blank, lemma_trimmed_subrange, repeated,
    strip_fences, take_chars, trim, trim_end_matches, trimmed, truncate, truncated,
    without_suffixes,
};
use crate::validate::{conformant, outcome_view, parse_and_validate, validated};
use vstd::prelude::*;
use vstd::string::StringExecFns;

verus! {

// ---------------------------------------------------------------------------
// The request

/// The text that the standard, padded Base64 engine of `base64` encodes bytes
/// to.
pub uninterp spec fn base64_text(bytes: Seq<u8>) -> Seq<char>;

/// The Base64 text of `n` bytes fits into memory.
pub open spec fn encodable(n: nat) -> bool {
    (n + 2) / 3 * 4 <= isize::MAX
}

/// Whether the Base64 text of `n` bytes fits into memory.
pub fn can_encode(n: usize) -> (r: bool)
    ensures
        r == encodable(n as nat),
{
    n <= isize::MAX as usize / 4 * 3
}

/// `base64::engine::general_purpose::STANDARD.encode`: four characters for
/// every three bytes, the last group padded. It needs a buffer for all of
/// them.
#[verifier::external_body]
fn base64_encode(bytes: &[u8]) -> (r: String)
    requires
        encodable(bytes@.len()),
    ensures
        r@ == base64_text(bytes@),
        r@.len() == (bytes@.len() + 2) / 3 * 4,
{
    base64::Engine::encode(&base64::engine::general_purpose::STANDARD, bytes)
}

/// A PNG file as a data URI.
pub open spec fn data_uri_text(png: Seq<u8>) -> Seq<char> {
    "data:image/png;base64,"@ + base64_text(png)
}

/// A PNG file as a data URI.
pub fn data_uri(png: &[u8]) -> (r: String)
    requires
        encodable(png@.len()),
    ensures
        r@ == data_uri_text(png@),
{
    let b64 = base64_encode(png);
    cat2("data:image/png;base64,", b64.as_str())
}

/// The endpoint for chat completions under a base URL.
pub open spec fn chat_url_text(base_url: Seq<char>) -> Seq<char> {
    without_suffixes(base_url, "/"@) + "/chat/completions"@
}

/// The endpoint for chat completions under a base URL.
pub fn chat_url(base_url: &str) -> (r: String)
    ensures
        r@ == chat_url_text(base_url@),
{
    let base = trim_end_matches(base_url, "/");
    cat2(base.as_str(), "/chat/completions")
}

/// The part of a message that shows an image.
pub open spec fn image_part(image_url: Seq<char>) -> JsonView {
    JsonView::Object(
        map![
            "type"@ => JsonView::Text("image_url"@),
            "image_url"@ => JsonView::Object(map!["url"@ => JsonView::Text(image_url)]),
        ],
    )
}

/// The part of a message that says something.
pub open spec fn text_part(text: Seq<char>) -> JsonView {
    JsonView::Object(
        map!["type"@ => JsonView::Text("text"@), "text"@ => JsonView::Text(text)],
    )
}

/// A message of the user's: an image, and what to do with it.
pub open spec fn user_message(prompt: Seq<char>, image_url: Seq<char>) -> JsonView {
    JsonView::Object(
        map![
            "role"@ => JsonView::Text("user"@),
            "content"@ => JsonView::Array(seq![image_part(image_url), text_part(prompt)]),
        ],
    )
}

/// A request to describe one image. Thinking is switched off: it would use up
/// the tokens for the answer.
pub open spec fn chat_view(
    model: Seq<char>,
    max_tokens: i64,
    prompt: Seq<char>,
    image_url: Seq<char>,
) -> JsonView {
    JsonView::Object(
        map![
            "model"@ => JsonView::Text(model),
            "temperature"@ => JsonView::Number(int_view(0)),
            "max_tokens"@ => JsonView::Number(int_view(max_tokens)),
            "chat_template_kwargs"@ => JsonView::Object(
                map!["enable_thinking"@ => JsonView::Bool(false)],
            ),
            "messages"@ => JsonView::Array(seq![user_message(prompt, image_url)]),
        ],
    )
}

/// A request to describe the image at `image_url`.
pub fn chat_body(model: &str, max_tokens: i64, prompt: &str, image_url: &str) -> (r: Json)
    ensures
        r@ == chat_view(model@, max_tokens, prompt@, image_url@),
{
    let image = Json::object().with("type", Json::string("image_url")).with(
        "image_url",
        Json::object().with("url", Json::string(image_url)),
    );
    let text = Json::object().with("type", Json::string("text")).with(
        "text",
        Json::string(prompt),
    );
    let parts = Json::array().item(image).item(text);
    assert(parts@->Array_0 =~= seq![image_part(image_url@), text_part(prompt@)]);
    let message = Json::object().with("role", Json::string("user")).with("content", parts);
    let messages = Json::array().item(message);
    assert(messages@->Array_0 =~= seq![user_message(prompt@, image_url@)]);
    Json::object().with("model", Json::string(model)).with("temperature", Json::integer(0)).with(
        "max_tokens",
        Json::integer(max_tokens),
    ).with("chat_template_kwargs", Json::object().with("enable_thinking", Json::Bool(false))).with(
        "messages",
        messages,
    )
}

/// A request to describe the image in a PNG file.
pub fn chat_request(model: &str, max_tokens: i64, prompt: &str, png: &[u8]) -> (r: Json)
    requires
        encodable(png@.len()),
    ensures
        r@ == chat_view(model@, max_tokens, prompt@, data_uri_text(png@)),
{
    let uri = data_uri(png);
    chat_body(model, max_tokens, prompt, uri.as_str())
}

/// The value of an `Authorization` header.
pub fn bearer(token: &str) -> (r: String)
    ensures
        r@ == "Bearer "@ + token@,
{
    cat2("Bearer ", token)
}

/// Names and values of headers.
pub open spec fn headers_view(headers: Seq<(String, String)>) -> Seq<(Seq<char>, Seq<char>)> {
    headers.map_values(|h: (String, String)| (h.0@, h.1@))
}

pub(crate) fn push_header(headers: &mut Vec<(String, String)>, name: &str, value: &str)
    ensures
        headers_view(final(headers)@) == headers_view(old(headers)@).push((name@, value@)),
{
    headers.push((name.to_owned(), value.to_owned()));
    assert(headers_view(headers@) =~= headers_view(old(headers)@).push((name@, value@)));
}

/// The header that says that a body is JSON.
pub open spec fn json_header() -> (Seq<char>, Seq<char>) {
    ("Content-Type"@, "application/json"@)
}

/// The header that carries a token, where there is one.
pub open spec fn token_header(token: Option<Seq<char>>) -> Seq<(Seq<char>, Seq<char>)> {
    match token {
        Some(t) => seq![("Authorization"@, "Bearer "@ + t)],
        None => seq![],
    }
}

pub(crate) fn push_token(headers: &mut Vec<(String, String)>, token: &Option<String>)
    ensures
        headers_view(final(headers)@) == headers_view(old(headers)@) + token_header(
            opt_view(*token),
        ),
{
    match token {
        Some(t) => {
            let value = bearer(t.as_str());
            push_header(headers, "Authorization", value.as_str());
        },
        None => {},
    }
    assert(headers_view(headers@) =~= headers_view(old(headers)@) + token_header(
        opt_view(*token),
    ));
}

/// The headers of a request to the vision model.
pub open spec fn chat_headers_view(api_key: Option<Seq<char>>) -> Seq<(Seq<char>, Seq<char>)> {
    seq![json_header()] + token_header(api_key)
}

/// The headers of a request to the vision model; the key is sent where there
/// is one.
pub fn chat_headers(api_key: &Option<String>) -> (r: Vec<(String, String)>)
    ensures
        headers_view(r@) == chat_headers_view(opt_view(*api_key)),
{
    let mut headers: Vec<(String, String)> = Vec::new();
    push_header(&mut headers, "Content-Type", "application/json");
    assert(headers_view(headers@) =~= seq![json_header()]);
    push_token(&mut headers, api_key);
    headers
}

// ---------------------------------------------------------------------------
// The reply

/// How a request ended.
pub enum Transport {
    /// With an error status and a body.
    Status(u16, String),
    /// Without a response.
    Failed(String),
    /// With a body that is not JSON.
    NotJson(String),
    /// With a JSON body.
    Body(Json),
}

/// What is said of a request to `peer` that did not end with a JSON body.
pub open spec fn transport_error(peer: Seq<char>, t: Transport) -> Option<Seq<char>> {
    match t {
        Transport::Status(code, body) => Some(
            peer + " returned HTTP "@ + decimal(code as nat) + ": "@ + first_chars(body@, 300),
        ),
        Transport::Failed(e) => Some(peer + " request failed: "@ + e@),
        Transport::NotJson(e) => Some(peer + " response was not JSON: "@ + e@),
        Transport::Body(_) => None,
    }
}

/// The JSON body of a reply from `peer`, or what is said of the request.
pub fn body_of(peer: &str, t: Transport) -> (r: Result<Json, String>)
    ensures
        match r {
            Ok(v) => t == Transport::Body(v),
            Err(e) => transport_error(peer@, t) == Some(e@),
        },
{
    match t {
        Transport::Status(code, body) => {
            let number = decimal_text(code as u128);
            let head = take_chars(body.as_str(), 300);
            let mut s = cat4(peer, " returned HTTP ", number.as_str(), ": ");
            s.append(head.as_str());
            Err(s)
        },
        Transport::Failed(e) => Err(cat3(peer, " request failed: ", e.as_str())),
        Transport::NotJson(e) => Err(cat3(peer, " response was not JSON: ", e.as_str())),
        Transport::Body(v) => Ok(v),
    }
}

/// The first choice of a chat completion.
pub open spec fn first_choice(payload: JsonView) -> JsonView {
    item_of(key_of(payload, "choices"@), 0)
}

/// The text of a chat completion.
pub open spec fn content_of(payload: JsonView) -> Option<Seq<char>> {
    str_of(key_of(key_of(first_choice(payload), "message"@), "content"@))
}

/// Why a chat completion ended.
pub open spec fn finish_reason(payload: JsonView) -> Seq<char> {
    match str_of(key_of(first_choice(payload), "finish_reason"@)) {
        Some(s) => s,
        None => "unknown"@,
    }
}

/// What is said of a chat completion without any text.
pub open spec fn empty_message(payload: JsonView) -> Seq<char> {
    "VLM returned empty content (finish_reason="@ + finish_reason(payload) + ")"@
}

fn content(payload: &Json) -> (r: Option<&str>)
    ensures
        match r {
            Some(s) => content_of(payload@) == Some(s@),
            None => content_of(payload@) is None,
        },
{
    payload.at_key("choices").at_index(0).at_key("message").at_key("content").as_str()
}

fn empty_content(payload: &Json) -> (r: String)
    ensures
        r@ == empty_message(payload@),
{
    let choice = payload.at_key("choices").at_index(0);
    let reason: &str = match choice.at_key("finish_reason").as_str() {
        Some(s) => s,
        None => "unknown",
    };
    cat3("VLM returned empty content (finish_reason=", reason, ")")
}

/// An object's text as an analysis: the text itself where it was validated, or
/// what is wrong with it.
pub open spec fn accepted(text: Seq<char>, outcome: Result<JsonView, Seq<Seq<char>>>) -> Result<
    Seq<char>,
    Seq<char>,
> {
    match outcome {
        Ok(_) => Ok(text),
        Err(errs) => Err("VLM returned an invalid analysis: "@ + joined(errs, "; "@)),
    }
}

/// Accepts a text as an analysis by the outcome of its validation.
pub fn accept_analysis(text: String, outcome: &Result<Json, Vec<String>>) -> (r: Result<
    String,
    String,
>)
    ensures
        text_result(r) == accepted(text@, outcome_view(*outcome)),
{
    match outcome {
        Ok(_) => Ok(text),
        Err(errs) => {
            let all = join(errs, "; ");
            Err(cat2("VLM returned an invalid analysis: ", all.as_str()))
        },
    }
}

/// Accepts a text as an analysis where it is one.
pub fn check_analysis(text: String) -> (r: Result<String, String>)
    ensures
        text_result(r) == accepted(text@, validated(text@)),
        r matches Ok(s) ==> validated(s@) is Ok,
{
    let outcome = parse_and_validate(text.as_str());
    accept_analysis(text, &outcome)
}

/// What the tool makes of a reply: the analysis in it without its fence, or
/// what is wrong.
pub open spec fn analysis_of(success: bool, status: Seq<char>, payload: JsonView) -> Result<
    Seq<char>,
    Seq<char>,
> {
    let content = match content_of(payload) {
        Some(s) => trimmed(s),
        None => seq![],
    };
    let cleaned = fences_stripped(content);
    if !success {
        Err("VLM returned "@ + status + ": "@ + json_text(payload))
    } else if content.len() == 0 {
        Err(empty_message(payload))
    } else if cleaned.len() == 0 || cleaned[0] != '{' {
        Err("VLM returned non-JSON content: "@ + truncated(cleaned, 200))
    } else {
        accepted(cleaned, validated(cleaned))
    }
}

/// The contents of a result.
pub open spec fn text_result(r: Result<String, String>) -> Result<Seq<char>, Seq<char>> {
    match r {
        Ok(s) => Ok(s@),
        Err(e) => Err(e@),
    }
}

/// Reads the analysis out of a reply with the given status.
pub fn read_analysis(success: bool, status: &str, payload: &Json) -> (r: Result<String, String>)
    ensures
        text_result(r) == analysis_of(success, status@, payload@),
        r matches Ok(s) ==> validated(s@) is Ok,
{
    if !success {
        let text = payload.render();
        return Err(cat4("VLM returned ", status, ": ", text.as_str()));
    }
    let found = match content(payload) {
        Some(s) => trim(s),
        None => String::new(),
    };
    assert(content_of(payload@) is None ==> found@ =~= seq![]);
    if found.as_str().is_empty() {
        return Err(empty_content(payload));
    }
    let cleaned = strip_fences(found.as_str());
    let v = chars_of(cleaned.as_str());
    if v.len() == 0 || v[0] != '{' {
        let head = truncate(cleaned.as_str(), 200);
        return Err(cat2("VLM returned non-JSON content: ", head.as_str()));
    }
    check_analysis(cleaned)
}

/// What the tool server makes of a reply: its text as it is, or what is wrong.
pub open spec fn description_of(payload: JsonView) -> Result<Seq<char>, Seq<char>> {
    match content_of(payload) {
        Some(s) => if trimmed(s).len() == 0 {
            Err(empty_message(payload))
        } else {
            Ok(s)
        },
        None => Err("VLM response missing choices[0].message.content"@),
    }
}

/// Reads the description out of a reply.
pub fn read_description(payload: &Json) -> (r: Result<String, String>)
    ensures
        text_result(r) == description_of(payload@),
{
    match content(payload) {
        Some(s) => {
            let t = trim(s);
            if t.as_str().is_empty() {
                Err(empty_content(payload))
            } else {
                Ok(s.to_owned())
            }
        },
        None => Err("VLM response missing choices[0].message.content".to_owned()),
    }
}

/// What the tool server makes of a request that ended as `t` says.
pub open spec fn described(t: Transport) -> Result<Seq<char>, Seq<char>> {
    match t {
        Transport::Body(v) => description_of(v@),
        _ => Err(transport_error("VLM"@, t)->0),
    }
}

/// Reads the description out of a request that ended as `t` says.
pub fn read_vlm(t: Transport) -> (r: Result<String, String>)
    ensures
        text_result(r) == described(t),
{
    match body_of("VLM", t) {
        Ok(v) => read_description(&v),
        Err(e) => Err(e),
    }
}

// ---------------------------------------------------------------------------
// Laws

/// The reply is a chat completion whose first choice says `text`.
pub open spec fn says(payload: JsonView, text: Seq<char>) -> bool {
    payload matches JsonView::Object(m) && m.contains_key("choices"@) && (
    m["choices"@] matches JsonView::Array(choices) && choices.len() > 0 && (
    choices[0] matches JsonView::Object(choice) && choice.contains_key("message"@) && (
    choice["message"@] matches JsonView::Object(message) && message.contains_key("content"@)
        && message["content"@] == JsonView::Text(text))))
}

/// The reply is a chat completion whose first choice ended for `reason`.
pub open spec fn ended_for(payload: JsonView, reason: Seq<char>) -> bool {
    payload matches JsonView::Object(m) && m.contains_key("choices"@) && (
    m["choices"@] matches JsonView::Array(choices) && choices.len() > 0 && (
    choices[0] matches JsonView::Object(choice) && choice.contains_key("finish_reason"@)
        && choice["finish_reason"@] == JsonView::Text(reason)))
}

proof fn lemma_says(payload: JsonView, text: Seq<char>)
    ensures
        content_of(payload) == Some(text) <==> says(payload, text),
{
}

/// A good reply succeeds, whole: an analysis comes out as it is, however long,
/// whatever white space and fences stand around it.
pub proof fn law_good_reply(
    payload: JsonView,
    status: Seq<char>,
    lead: Seq<char>,
    labels: nat,
    marks: nat,
    pad: Seq<char>,
    text: Seq<char>,
    gap: Seq<char>,
    closing: nat,
    tail: Seq<char>,
    v: JsonView,
)
    requires
        says(
            payload,
            lead + repeated("```json"@, labels) + repeated("```"@, marks) + pad + text + gap
                + repeated("```"@, closing) + tail,
        ),
        all_white(lead),
        all_white(pad),
        all_white(gap),
        all_white(tail),
        bare(text),
        text.len() > 0,
        text[0] == '{',
        text.last() != '`',
        json_parse(text) == Ok::<JsonView, Seq<char>>(v),
        conformant(v),
    ensures
        analysis_of(true, status, payload) == Ok::<Seq<char>, Seq<char>>(text),
{
    let said = lead + repeated("```json"@, labels) + repeated("```"@, marks) + pad + text + gap
        + repeated("```"@, closing) + tail;
    lemma_says(payload, said);
    law_fences_stripped(lead, labels, marks, pad, text, gap, closing, tail);
    law_trimmed_bare(said);
    assert(fences_stripped(trimmed(said)) == text);
    let i = lead.len() + repeated("```json"@, labels).len() + repeated("```"@, marks).len()
        + pad.len();
    lemma_blank(said);
    assert(said[i as int] == '{');
    let none = Seq::<char>::empty();
    law_trimmed(none, text, none);
    assert(none + text + none =~= text);
}

/// Only a good reply succeeds: it has a good status, and what comes out is a
/// stretch of what the model said, begins an object and parses to an analysis.
pub proof fn law_only_good_replies(success: bool, status: Seq<char>, payload: JsonView)
    ensures
        analysis_of(success, status, payload) matches Ok(out) ==> {
            &&& success
            &&& out.len() > 0 && out[0] == '{'
            &&& json_parse(trimmed(out)) matches Ok(v) && conformant(v)
            &&& exists|text: Seq<char>, i: int, j: int|
                says(payload, text) && 0 <= i <= j <= text.len() && out == #[trigger] text.subrange(
                    i,
                    j,
                )
        },
{
    if let Ok(out) = analysis_of(success, status, payload) {
        let text = content_of(payload)->0;
        lemma_says(payload, text);
        let (a, b) = lemma_trimmed_subrange(text);
        let t = trimmed(text);
        law_stripped_is_part(t);
        let (i, j) = choose|i: int, j: int|
            0 <= i <= j <= t.len() && fences_stripped(t) == #[trigger] t.subrange(i, j);
        assert(t.subrange(i, j) =~= text.subrange(a + i, a + j));
    }
}

/// A bad reply is reported: by its status, as empty, as something that is not
/// JSON, or by what is wrong with its object.
pub proof fn law_bad_reply(
    payload: JsonView,
    status: Seq<char>,
    lead: Seq<char>,
    text: Seq<char>,
    tail: Seq<char>,
    reason: Seq<char>,
)
    requires
        all_white(lead),
        bare(text),
        all_white(tail),
    ensures
        analysis_of(false, status, payload) == Err::<Seq<char>, Seq<char>>(
            "VLM returned "@ + status + ": "@ + json_text(payload),
        ),
        (says(payload, lead) || forall|x: Seq<char>| !says(payload, x)) && ended_for(payload, reason)
            ==> analysis_of(true, status, payload) == Err::<Seq<char>, Seq<char>>(
            "VLM returned empty content (finish_reason="@ + reason + ")"@,
        ),
        (says(payload, lead) || forall|x: Seq<char>| !says(payload, x)) && (forall|x: Seq<char>|
            !ended_for(payload, x)) ==> analysis_of(true, status, payload) == Err::<
            Seq<char>,
            Seq<char>,
        >("VLM returned empty content (finish_reason="@ + "unknown"@ + ")"@),
        says(payload, lead + text + tail) && text.len() > 0 && text[0] != '{' && text[0] != '`'
            && text.last() != '`' ==> analysis_of(true, status, payload) == Err::<
            Seq<char>,
            Seq<char>,
        >("VLM returned non-JSON content: "@ + truncated(text, 200)),
        says(payload, lead + text + tail) && text.len() > 0 && text[0] == '{' && text.last() != '`'
            && (validated(text) is Err) ==> analysis_of(true, status, payload) == Err::<
            Seq<char>,
            Seq<char>,
        >("VLM returned an invalid analysis: "@ + joined(validated(text)->Err_0, "; "@)),
{
    let none = Seq::<char>::empty();
    if says(payload, lead) {
        lemma_says(payload, lead);
        lemma_blank(lead);
    }
    if forall|x: Seq<char>| !says(payload, x) {
        if content_of(payload) is Some {
            lemma_says(payload, content_of(payload)->0);
        }
    }
    if forall|x: Seq<char>| !ended_for(payload, x) {
        if let Some(x) = str_of(key_of(first_choice(payload), "finish_reason"@)) {
            assert(ended_for(payload, x));
        }
    }
    if says(payload, lead + text + tail) && text.len() > 0 && text[0] != '`' && text.last() != '`' {
        lemma_says(payload, lead + text + tail);
        law_trimmed(lead, text, tail);
        let fence = "```"@;
        let label = "```json"@;
        law_fences_stripped(none, 0, 0, none, text, none, 0, none);
        assert(none + repeated(label, 0) + repeated(fence, 0) + none + text + none + repeated(
            fence,
            0,
        ) + none =~= text);
    }
}

/// A description is what the model said, as it is; nothing but white space is
/// none, and a reply that says nothing is reported.
pub proof fn law_description(payload: JsonView, text: Seq<char>, reason: Seq<char>)
    ensures
        says(payload, text) && !all_white(text) ==> description_of(payload) == Ok::<
            Seq<char>,
            Seq<char>,
        >(text),
        says(payload, text) && all_white(text) && ended_for(payload, reason) ==> description_of(
            payload,
        ) == Err::<Seq<char>, Seq<char>>(
            "VLM returned empty content (finish_reason="@ + reason + ")"@,
        ),
        (forall|x: Seq<char>| !says(payload, x)) ==> description_of(payload) == Err::<
            Seq<char>,
            Seq<char>,
        >("VLM response missing choices[0].message.content"@),
{
    lemma_says(payload, text);
    lemma_blank(text);
    if content_of(payload) is Some {
        lemma_says(payload, content_of(payload)->0);
    }
}

/// What is said of a request that did not end with a JSON body: the status and
/// the first 300 characters of the body, or the reason.
pub proof fn law_transport_error(peer: Seq<char>, t: Transport)
    ensures
        transport_error(peer, t) is None <==> t is Body,
        t matches Transport::Status(code, body) ==> transport_error(peer, t) == Some(
            peer + " returned HTTP "@ + decimal(code as nat) + ": "@ + (if body@.len() <= 300 {
                body@
            } else {
                body@.take(300)
            }),
        ),
        t matches Transport::Failed(e) ==> transport_error(peer, t) == Some(
            peer + " request failed: "@ + e@,
        ),
        t matches Transport::NotJson(e) ==> transport_error(peer, t) == Some(
            peer + " response was not JSON: "@ + e@,
        ),
        t matches Transport::Body(v) ==> described(t) == description_of(v@),
        !(t is Body) ==> described(t) == Err::<Seq<char>, Seq<char>>(
            transport_error("VLM"@, t)->0,
        ),
{
}

/// However many slashes end the base URL, there is one before the endpoint.
pub proof fn law_chat_url(base: Seq<char>, slashes: nat)
    requires
        base.len() > 0 ==> base.last() != '/',
    ensures
        chat_url_text(base + repeated("/"@, slashes)) == base + "/chat/completions"@,
{
    reveal_strlit("/");
    if base.len() >= 1 && base.skip(base.len() - 1) == "/"@ {
        assert(base.skip(base.len() - 1)[0] == base.last());
    }
    law_without_suffixes(base, "/"@, slashes);
}

/// The request to the model: which model, how long an answer, no thinking, and
/// one message with the image first and what to do with it second.
pub proof fn law_chat_request(
    model: Seq<char>,
    max_tokens: i64,
    prompt: Seq<char>,
    png: Seq<u8>,
)
    ensures
        ({
            let body = chat_view(model, max_tokens, prompt, data_uri_text(png));
            let messages = key_of(body, "messages"@);
            let message = item_of(messages, 0);
            let content = key_of(message, "content"@);
            let image = item_of(content, 0);
            let text = item_of(content, 1);
            &&& key_of(body, "model"@) == JsonView::Text(model)
            &&& key_of(body, "temperature"@) == JsonView::Number(int_view(0))
            &&& key_of(body, "max_tokens"@) == JsonView::Number(int_view(max_tokens))
            &&& key_of(key_of(body, "chat_template_kwargs"@), "enable_thinking"@) == JsonView::Bool(
                false,
            )
            &&& messages is Array && messages->Array_0.len() == 1
            &&& key_of(message, "role"@) == JsonView::Text("user"@)
            &&& content is Array && content->Array_0.len() == 2
            &&& key_of(image, "type"@) == JsonView::Text("image_url"@)
            &&& key_of(key_of(image, "image_url"@), "url"@) == JsonView::Text(
                "data:image/png;base64,"@ + base64_text(png),
            )
            &&& key_of(text, "type"@) == JsonView::Text("text"@)
            &&& key_of(text, "text"@) == JsonView::Text(prompt)
        }),
{
    reveal_strlit("model");
    reveal_strlit("temperature");
    reveal_strlit("max_tokens");
    reveal_strlit("chat_template_kwargs");
    reveal_strlit("messages");
    reveal_strlit("role");
    reveal_strlit("content");
    reveal_strlit("type");
    reveal_strlit("image_url");
    reveal_strlit("text");
    assert("model"@.len() == 5 && "temperature"@.len() == 11 && "max_tokens"@.len() == 10);
    assert("chat_template_kwargs"@.len() == 20 && "messages"@.len() == 8);
    assert("role"@.len() == 4 && "content"@.len() == 7);
    assert("type"@[1] == 'y' && "text"@[1] == 'e' && "image_url"@.len() == 9);
}

/// A token is sent under its name where there is one, and otherwise nothing is.
pub proof fn law_token_header(token: Option<Seq<char>>)
    ensures
        token matches Some(t) ==> token_header(token) == seq![("Authorization"@, "Bearer "@ + t)],
        token is None ==> token_header(token).len() == 0,
        chat_headers_view(token)[0] == ("Content-Type"@, "application/json"@),
        chat_headers_view(token).len() == 1 + token_header(token).len(),
        token matches Some(t) ==> chat_headers_view(token)[1] == ("Authorization"@, "Bearer "@ + t),
{
}

/// A bad reply in fences is reported as it would be without them.
pub proof fn law_bad_content(
    payload: JsonView,
    status: Seq<char>,
    lead: Seq<char>,
    labels: nat,
    marks: nat,
    pad: Seq<char>,
    text: Seq<char>,
    gap: Seq<char>,
    closing: nat,
    tail: Seq<char>,
)
    requires
        says(
            payload,
            lead + repeated("```json"@, labels) + repeated("```"@, marks) + pad + text + gap
                + repeated("```"@, closing) + tail,
        ),
        all_white(lead),
        all_white(pad),
        all_white(gap),
        all_white(tail),
        bare(text),
        text.len() > 0,
        text[0] != '`',
        text.last() != '`',
        marks > 0 ==> pad.len() > 0 || text[0] != 'j',
    ensures
        text[0] != '{' ==> analysis_of(true, status, payload) == Err::<Seq<char>, Seq<char>>(
            "VLM returned non-JSON content: "@ + truncated(text, 200),
        ),
        text[0] == '{' ==> (validated(text) matches Err(errs) ==> analysis_of(true, status, payload)
            == Err::<Seq<char>, Seq<char>>(
            "VLM returned an invalid analysis: "@ + joined(errs, "; "@),
        )),
{
    let said = lead + repeated("```json"@, labels) + repeated("```"@, marks) + pad + text + gap
        + repeated("```"@, closing) + tail;
    lemma_says(payload, said);
    law_fences_stripped(lead, labels, marks, pad, text, gap, closing, tail);
    law_trimmed_bare(said);
    let i = lead.len() + repeated("```json"@, labels).len() + repeated("```"@, marks).len()
        + pad.len();
    lemma_blank(said);
    assert(said[i as int] == text[0]);
}

/// A result of texts is those texts, and a list of headers is those headers.
pub proof fn law_plain_views(s: String, headers: Seq<(String, String)>, i: int)
    ensures
        text_result(Ok(s)) == Ok::<Seq<char>, Seq<char>>(s@),
        text_result(Err(s)) == Err::<Seq<char>, Seq<char>>(s@),
        headers_view(headers).len() == headers.len(),
        0 <= i < headers.len() ==> headers_view(headers)[i] == (headers[i].0@, headers[i].1@),
{
}

/// The request to the model holds nothing but what is said of it.
pub proof fn law_chat_request_exact(
    model: Seq<char>,
    max_tokens: i64,
    prompt: Seq<char>,
    image_url: Seq<char>,
)
    ensures
        ({
            let body = chat_view(model, max_tokens, prompt, image_url);
            let message = item_of(key_of(body, "messages"@), 0);
            let image = item_of(key_of(message, "content"@), 0);
            let text = item_of(key_of(message, "content"@), 1);
            &&& body->Object_0.dom() == set![
                "model"@,
                "temperature"@,
                "max_tokens"@,
                "chat_template_kwargs"@,
                "messages"@,
            ]
            &&& key_of(body, "chat_template_kwargs"@)->Object_0.dom() == set!["enable_thinking"@]
            &&& message->Object_0.dom() == set!["role"@, "content"@]
            &&& image->Object_0.dom() == set!["type"@, "image_url"@]
            &&& key_of(image, "image_url"@)->Object_0.dom() == set!["url"@]
            &&& text->Object_0.dom() == set!["type"@, "text"@]
        }),
{
    reveal_strlit("chat_template_kwargs");
    reveal_strlit("messages");
    reveal_strlit("role");
    reveal_strlit("content");
    reveal_strlit("type");
    reveal_strlit("image_url");
    assert("chat_template_kwargs"@.len() == 20 && "messages"@.len() == 8);
    assert("role"@.len() == 4 && "content"@.len() == 7 && "type"@.len() == 4);
    assert("image_url"@.len() == 9);
}

/// A reply that says nothing, and not why it ended either, ended for a reason
/// that is not known.
pub proof fn law_reason_unknown(payload: JsonView, text: Seq<char>, status: Seq<char>)
    requires
        says(payload, text),
        all_white(text),
        forall|reason: Seq<char>| !ended_for(payload, reason),
    ensures
        description_of(payload) == Err::<Seq<char>, Seq<char>>(
            "VLM returned empty content (finish_reason="@ + "unknown"@ + ")"@,
        ),
        analysis_of(true, status, payload) == Err::<Seq<char>, Seq<char>>(
            "VLM returned empty content (finish_reason="@ + "unknown"@ + ")"@,
        ),
{
    lemma_says(payload, text);
    lemma_blank(text);
    if let Some(reason) = str_of(key_of(first_choice(payload), "finish_reason"@)) {
        assert(ended_for(payload, reason));
    }
}

} // verus!

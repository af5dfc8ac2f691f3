//! The validation proxy in front of the agent gateway: routing, the message to
//! the agent, and the one-retry protocol that turns the agent's answer into a
//! validated analysis.

use crate::config::{opt_view, Cfg};
use crate::json::{json_parse, json_text, key_of, readable, reads_as, str_of, Json, JsonView};
use crate::text::{
    cat2, cat3, cat4, contents, decimal, decimal_text, find, first_at, index_of, join, joined,
    law_find, law_without_suffixes, repeated, take_chars, text_eq, trim_end_matches,
    without_suffixes,
};
use crate::validate::{
    conformant, error_object, error_view, law_error_object_conformant, law_error_object_fields,
    lenient, lenient_validate,
    outcome_view, parse_view, validated,
};
use crate::vlm::{
    body_of, headers_view, json_header, law_transport_error, push_header, push_token, text_result, token_header,
    transport_error, Transport,
};
use vstd::prelude::*;

verus! {

/// What the agent is told when its answer is not an analysis.
pub const RETRY_NUDGE: &'static str = "Your response was not valid JSON per the schema. Respond again with \
ONLY the corrected JSON object matching the schema — no markdown fences, no prose.";

// ---------------------------------------------------------------------------
// Routing

/// The path of a URL, without its query.
pub open spec fn path_text(url: Seq<char>) -> Seq<char> {
    match find(url, "?"@) {
        Some(i) => url.take(i),
        None => url,
    }
}

/// The path of a URL, without its query.
pub fn path_of(url: &str) -> (r: String)
    ensures
        r@ == path_text(url@),
{
    match index_of(url, "?") {
        Some(i) => {
            assert(exists|k: int| first_at(url@, "?"@, k));
            take_chars(url, i)
        },
        None => url.to_owned(),
    }
}

/// What a request asks for.
pub enum Route {
    /// The CORS preflight, answered without a body.
    Preflight,
    /// Whether the proxy is alive.
    Health,
    /// An analysis of the screen.
    Analyze,
    /// Nothing that there is; with what is said of it.
    NotFound(Json),
}

/// What is said of a request that asks for nothing there is.
pub open spec fn not_found_view(method: Seq<char>, path: Seq<char>) -> JsonView {
    error_view("NOT_FOUND"@, "no route "@ + method + " "@ + path)
}

/// Finds out what a request asks for.
pub fn route(method: &str, url: &str) -> (r: Route)
    ensures
        match r {
            Route::Preflight => method@ == "OPTIONS"@,
            Route::Health => method@ == "GET"@ && path_text(url@) == "/health"@,
            Route::Analyze => method@ == "POST"@ && path_text(url@) == "/analyze-screen"@,
            Route::NotFound(body) => {
                &&& method@ != "OPTIONS"@
                &&& !(method@ == "GET"@ && path_text(url@) == "/health"@)
                &&& !(method@ == "POST"@ && path_text(url@) == "/analyze-screen"@)
                &&& body@ == not_found_view(method@, path_text(url@))
                &&& conformant(body@)
            },
        },
{
    let path = path_of(url);
    if text_eq(method, "OPTIONS") {
        return Route::Preflight;
    }
    if text_eq(method, "GET") && text_eq(path.as_str(), "/health") {
        return Route::Health;
    }
    if text_eq(method, "POST") && text_eq(path.as_str(), "/analyze-screen") {
        return Route::Analyze;
    }
    let message = cat4("no route ", method, " ", path.as_str());
    Route::NotFound(error_object("NOT_FOUND", message.as_str()))
}

/// The body of the answer to a health check.
pub open spec fn health_view() -> JsonView {
    JsonView::Object(map!["status"@ => JsonView::Text("ok"@)])
}

/// The body of the answer to a health check.
pub fn health_body() -> (r: Json)
    ensures
        r@ == health_view(),
{
    Json::object().with("status", Json::string("ok"))
}

// ---------------------------------------------------------------------------
// Responses

/// A response.
pub struct HttpReply {
    pub status: u16,
    pub headers: Vec<(String, String)>,
    pub body: String,
}

/// The headers that let a web page read the response.
pub open spec fn cors_view() -> Seq<(Seq<char>, Seq<char>)> {
    seq![
        ("Access-Control-Allow-Origin"@, "*"@),
        ("Access-Control-Allow-Methods"@, "POST, GET, OPTIONS"@),
        ("Access-Control-Allow-Headers"@, "Content-Type"@),
        ("Access-Control-Expose-Headers"@, "X-Timings-Ms"@),
    ]
}

fn push_cors_headers(headers: &mut Vec<(String, String)>)
    ensures
        headers_view(final(headers)@) == headers_view(old(headers)@) + cors_view(),
{
    push_header(headers, "Access-Control-Allow-Origin", "*");
    push_header(headers, "Access-Control-Allow-Methods", "POST, GET, OPTIONS");
    push_header(headers, "Access-Control-Allow-Headers", "Content-Type");
    push_header(headers, "Access-Control-Expose-Headers", "X-Timings-Ms");
    assert(headers_view(headers@) =~= headers_view(old(headers)@) + cors_view());
}

/// The headers that let a web page read the response.
pub fn cors_headers() -> (r: Vec<(String, String)>)
    ensures
        headers_view(r@) == cors_view(),
{
    let mut headers: Vec<(String, String)> = Vec::new();
    push_cors_headers(&mut headers);
    assert(headers_view(headers@) =~= cors_view());
    headers
}

/// The answer to a CORS preflight.
pub fn preflight_response() -> (r: HttpReply)
    ensures
        r.status == 204,
        headers_view(r.headers@) == cors_view(),
        r.body@ == Seq::<char>::empty(),
{
    HttpReply { status: 204, headers: cors_headers(), body: String::new() }
}

/// A response with a JSON body and one more header, where there is one.
pub fn json_response(status: u16, body: &Json, extra: Option<(String, String)>) -> (r: HttpReply)
    ensures
        r.status == status,
        r.body@ == json_text(body@),
        readable(body@, 127) ==> reads_as(r.body@, body@),
        headers_view(r.headers@) == seq![("Content-Type"@, "application/json"@)] + cors_view()
            + match extra {
            Some(h) => seq![(h.0@, h.1@)],
            None => seq![],
        },
{
    let mut headers: Vec<(String, String)> = Vec::new();
    push_header(&mut headers, "Content-Type", "application/json");
    push_cors_headers(&mut headers);
    let ghost before = headers_view(headers@);
    assert(before =~= seq![("Content-Type"@, "application/json"@)] + cors_view());
    match extra {
        Some((name, value)) => push_header(&mut headers, name.as_str(), value.as_str()),
        None => {},
    }
    assert(headers_view(headers@) =~= before + match extra {
        Some(h) => seq![(h.0@, h.1@)],
        None => seq![],
    });
    HttpReply { status, headers, body: body.render() }
}

/// The header that carries the timings of a request.
pub fn timings_header(timings: &str) -> (r: (String, String))
    ensures
        r.0@ == "X-Timings-Ms"@,
        r.1@ == timings@,
{
    ("X-Timings-Ms".to_owned(), timings.to_owned())
}

/// A response.
pub ghost struct ReplyView {
    pub status: u16,
    pub headers: Seq<(Seq<char>, Seq<char>)>,
    pub body: Seq<char>,
}

impl View for HttpReply {
    type V = ReplyView;

    open spec fn view(&self) -> ReplyView {
        ReplyView {
            status: self.status,
            headers: headers_view(self.headers@),
            body: self.body@,
        }
    }
}

/// A response with a JSON body and no header of its own.
pub open spec fn plain_reply(status: u16, body: JsonView) -> ReplyView {
    ReplyView { status, headers: seq![json_header()] + cors_view(), body: json_text(body) }
}

/// The response to a request that can be answered at once; an analysis takes
/// longer.
pub open spec fn reply_to(route: Route) -> Option<ReplyView> {
    match route {
        Route::Preflight => Some(
            ReplyView { status: 204, headers: cors_view(), body: Seq::empty() },
        ),
        Route::Health => Some(plain_reply(200, health_view())),
        Route::NotFound(body) => Some(plain_reply(404, body@)),
        Route::Analyze => None,
    }
}

/// The response to a request that can be answered at once.
pub fn fixed_reply(route: &Route) -> (r: Option<HttpReply>)
    ensures
        match r {
            Some(reply) => reply_to(*route) == Some(reply@),
            None => reply_to(*route) is None,
        },
        *route is Preflight ==> (r matches Some(reply) && reply.status == 204),
        *route is Health ==> (r matches Some(reply) && reply.status == 200),
        *route is NotFound ==> (r matches Some(reply) && reply.status == 404),
        *route is Analyze <==> r is None,
{
    match route {
        Route::Preflight => Some(preflight_response()),
        Route::Health => {
            let reply = json_response(200, &health_body(), None);
            assert(reply@.headers =~= seq![json_header()] + cors_view());
            Some(reply)
        },
        Route::NotFound(body) => {
            let reply = json_response(404, body, None);
            assert(reply@.headers =~= seq![json_header()] + cors_view());
            Some(reply)
        },
        Route::Analyze => None,
    }
}

/// The response that carries the outcome of an analysis, with the timings of
/// the request.
pub open spec fn timed_reply(status: u16, body: JsonView, timings: Seq<char>) -> ReplyView {
    ReplyView {
        status,
        headers: seq![json_header()] + cors_view() + seq![("X-Timings-Ms"@, timings)],
        body: json_text(body),
    }
}

/// The response that carries the outcome of an analysis, with the timings of
/// the request.
pub fn analysis_reply(status: u16, body: &Json, timings: &str) -> (r: HttpReply)
    ensures
        r@ == timed_reply(status, body@, timings@),
        r.status == status,
        r.body@ == json_text(body@),
        headers_view(r.headers@).last() == ("X-Timings-Ms"@, timings@),
        readable(body@, 127) ==> reads_as(r.body@, body@),
{
    json_response(status, body, Some(timings_header(timings)))
}

// ---------------------------------------------------------------------------
// The message to the agent

/// The message in a parsed request body, or the default one.
pub open spec fn message_in(parsed: Result<JsonView, Seq<char>>, default: Seq<char>) -> Seq<char> {
    match parsed {
        Ok(v) => match str_of(key_of(v, "message"@)) {
            Some(s) => s,
            None => default,
        },
        Err(_) => default,
    }
}

/// The message in a parsed request body, or the default one.
pub fn message_or(parsed: &Result<Json, String>, default: &str) -> (r: String)
    ensures
        r@ == message_in(parse_view(*parsed), default@),
{
    match parsed {
        Ok(v) => match v.at_key("message").as_str() {
            Some(s) => s.to_owned(),
            None => default.to_owned(),
        },
        Err(_) => default.to_owned(),
    }
}

/// The message in a request body, or the default one.
pub fn request_message(body: &str, default: &str) -> (r: String)
    ensures
        r@ == message_in(json_parse(body@), default@),
{
    let parsed = Json::parse(body);
    message_or(&parsed, default)
}

/// The name of the `n`th request.
pub fn request_id(n: u64) -> (r: String)
    ensures
        r@ == "req-"@ + decimal(n as nat),
{
    let d = decimal_text(n as u128);
    cat2("req-", d.as_str())
}

/// The name of the conversation with the agent that a request begins: the
/// retry goes to the same one.
pub fn session_id(unix_ms: u128, request_id: &str) -> (r: String)
    ensures
        r@ == "tv-"@ + decimal(unix_ms as nat) + "-"@ + request_id@,
{
    let d = decimal_text(unix_ms);
    cat4("tv-", d.as_str(), "-", request_id)
}

/// The gateway's webhook, with the agent to talk to where one is named.
pub open spec fn webhook_url_text(gateway_url: Seq<char>, agent: Option<Seq<char>>) -> Seq<char> {
    let url = without_suffixes(gateway_url, "/"@) + "/webhook"@;
    match agent {
        Some(alias) => url + "?agent="@ + alias,
        None => url,
    }
}

/// The gateway's webhook, with the agent to talk to where one is named.
pub fn webhook_url(gateway_url: &str, agent: &Option<String>) -> (r: String)
    ensures
        r@ == webhook_url_text(gateway_url@, opt_view(*agent)),
{
    let base = trim_end_matches(gateway_url, "/");
    let url = cat2(base.as_str(), "/webhook");
    match agent {
        Some(alias) => cat3(url.as_str(), "?agent=", alias.as_str()),
        None => url,
    }
}

/// The body of a request to the webhook.
pub open spec fn message_view(message: Seq<char>) -> JsonView {
    JsonView::Object(map!["message"@ => JsonView::Text(message)])
}

/// The body of a request to the webhook.
pub fn webhook_body(message: &str) -> (r: Json)
    ensures
        r@ == message_view(message@),
{
    Json::object().with("message", Json::string(message))
}

/// The headers of a request to the webhook.
pub open spec fn webhook_headers_view(session: Seq<char>, token: Option<Seq<char>>) -> Seq<
    (Seq<char>, Seq<char>),
> {
    seq![json_header(), ("X-Session-Id"@, session)] + token_header(token)
}

/// The headers of a request to the webhook: the conversation that it belongs
/// to, and the token where there is one.
pub fn webhook_headers(session: &str, token: &Option<String>) -> (r: Vec<(String, String)>)
    ensures
        headers_view(r@) == webhook_headers_view(session@, opt_view(*token)),
{
    let mut headers: Vec<(String, String)> = Vec::new();
    push_header(&mut headers, "Content-Type", "application/json");
    push_header(&mut headers, "X-Session-Id", session);
    assert(headers_view(headers@) =~= seq![json_header(), ("X-Session-Id"@, session@)]);
    push_token(&mut headers, token);
    headers
}

/// A request to the webhook, and what goes into the log about it.
pub struct WebhookRequest {
    pub note: String,
    pub url: String,
    pub headers: Vec<(String, String)>,
    pub body: Json,
}

/// A request to the webhook, and what goes into the log about it.
pub ghost struct WebhookView {
    pub note: Seq<char>,
    pub url: Seq<char>,
    pub headers: Seq<(Seq<char>, Seq<char>)>,
    pub body: JsonView,
}

impl View for WebhookRequest {
    type V = WebhookView;

    open spec fn view(&self) -> WebhookView {
        WebhookView {
            note: self.note@,
            url: self.url@,
            headers: headers_view(self.headers@),
            body: self.body@,
        }
    }
}

/// The request that says `message` to the agent in the conversation `session`.
pub open spec fn webhook_view(cfg: Cfg, session: Seq<char>, message: Seq<char>) -> WebhookView {
    let url = webhook_url_text(cfg.gateway_url@, opt_view(cfg.agent));
    WebhookView {
        note: "POST "@ + url,
        url,
        headers: webhook_headers_view(session, opt_view(cfg.token)),
        body: message_view(message),
    }
}

/// The request that says `message` to the agent in the conversation `session`.
pub fn webhook_request(cfg: &Cfg, session: &str, message: &str) -> (r: WebhookRequest)
    ensures
        r@ == webhook_view(*cfg, session@, message@),
{
    let url = webhook_url(cfg.gateway_url.as_str(), &cfg.agent);
    WebhookRequest {
        note: cat2("POST ", url.as_str()),
        url,
        headers: webhook_headers(session, &cfg.token),
        body: webhook_body(message),
    }
}

/// What the proxy makes of a webhook request that ended as `t` says: the
/// agent's answer, or what went wrong.
pub open spec fn answered(t: Transport) -> Result<Seq<char>, Seq<char>> {
    match t {
        Transport::Body(v) => match str_of(key_of(v@, "response"@)) {
            Some(s) => Ok(s),
            None => Err("gateway response missing 'response' field: "@ + json_text(v@)),
        },
        _ => Err(transport_error("gateway"@, t)->0),
    }
}

/// Reads the agent's answer out of a webhook request that ended as `t` says.
pub fn read_webhook(t: Transport) -> (r: Result<String, String>)
    ensures
        text_result(r) == answered(t),
{
    match body_of("gateway", t) {
        Ok(v) => match v.at_key("response").as_str() {
            Some(s) => Ok(s.to_owned()),
            None => {
                let text = v.render();
                Err(cat2("gateway response missing 'response' field: ", text.as_str()))
            },
        },
        Err(e) => Err(e),
    }
}

// ---------------------------------------------------------------------------
// One request: agent turn, validation, at most one retry

/// Where a request stands.
#[derive(Clone, Copy, PartialEq, Eq, Structural)]
pub enum RunState {
    /// The agent has been asked.
    AgentTurn,
    /// The agent's answer was not an analysis.
    Invalid,
    /// The agent has been asked to correct its answer.
    RetryTurn,
    /// The client has been answered.
    Done,
}

/// What came of asking the agent: no answer, or an answer with the result of
/// validating it.
pub enum Turn {
    Failed(String),
    Checked(Result<Json, Vec<String>>),
}

/// What came of asking the agent.
pub ghost enum TurnView {
    Failed(Seq<char>),
    Checked(Result<JsonView, Seq<Seq<char>>>),
}

impl View for Turn {
    type V = TurnView;

    open spec fn view(&self) -> TurnView {
        match *self {
            Turn::Failed(e) => TurnView::Failed(e@),
            Turn::Checked(r) => TurnView::Checked(outcome_view(r)),
        }
    }
}

/// What the request does next.
pub enum Action {
    /// Ask the agent in the conversation `session`, in the stage `stage`, for
    /// at most so many nanoseconds; a reply is validated in the stage `check`.
    Ask { session: String, stage: String, check: String, message: String, timeout_ns: u128 },
    /// Find out how many nanoseconds of the budget are gone.
    ReadClock,
    /// Answer the client.
    Answer { status: u16, body: Json },
}

/// What the request does next.
pub ghost enum ActionView {
    Ask {
        session: Seq<char>,
        stage: Seq<char>,
        check: Seq<char>,
        message: Seq<char>,
        timeout_ns: nat,
    },
    ReadClock,
    Answer { status: u16, body: JsonView },
}

impl View for Action {
    type V = ActionView;

    open spec fn view(&self) -> ActionView {
        match *self {
            Action::Ask { session, stage, check, message, timeout_ns } => ActionView::Ask {
                session: session@,
                stage: stage@,
                check: check@,
                message: message@,
                timeout_ns: timeout_ns as nat,
            },
            Action::ReadClock => ActionView::ReadClock,
            Action::Answer { status, body } => ActionView::Answer { status, body: body@ },
        }
    }
}

/// A request asks the agent first; the whole budget is there.
pub open spec fn first_ask(session: Seq<char>, message: Seq<char>, budget: nat) -> ActionView {
    ActionView::Ask {
        session,
        stage: "agent_turn"@,
        check: "validate"@,
        message,
        timeout_ns: budget,
    }
}

/// The retry: the nudge, in the same conversation, with what is left of the
/// budget.
pub open spec fn retry_ask(session: Seq<char>, elapsed: nat, budget: nat) -> ActionView {
    ActionView::Ask {
        session,
        stage: "retry_turn"@,
        check: "revalidate"@,
        message: RETRY_NUDGE@,
        timeout_ns: (budget - elapsed) as nat,
    }
}

/// An answer that reports a failure.
pub open spec fn failure(status: u16, code: Seq<char>, message: Seq<char>) -> ActionView {
    ActionView::Answer { status, body: error_view(code, message) }
}

/// What a request does after a turn of the agent.
pub open spec fn after_turn(state: RunState, turn: TurnView) -> (RunState, ActionView) {
    match turn {
        TurnView::Failed(e) => (RunState::Done, failure(502, "GATEWAY_FAILED"@, e)),
        TurnView::Checked(Ok(v)) => (RunState::Done, ActionView::Answer { status: 200, body: v }),
        TurnView::Checked(Err(errs)) => if state is AgentTurn {
            (RunState::Invalid, ActionView::ReadClock)
        } else {
            (
                RunState::Done,
                failure(
                    422,
                    "AGENT_OUTPUT_INVALID"@,
                    "agent's answer failed validation after one retry: "@ + joined(errs, "; "@),
                ),
            )
        },
    }
}

/// What a request does after an invalid answer, `elapsed` after it began.
pub open spec fn after_clock(session: Seq<char>, elapsed: nat, budget: nat) -> (
    RunState,
    ActionView,
) {
    if elapsed >= budget {
        (RunState::Done, failure(504, "TIMEOUT"@, "budget exhausted before retry"@))
    } else {
        (RunState::RetryTurn, retry_ask(session, elapsed, budget))
    }
}

/// What goes into the log about a turn.
pub open spec fn turn_notes(state: RunState, turn: TurnView, extracted: bool) -> Seq<Seq<char>> {
    let recovered = if extracted {
        seq!["recovered via fence/JSON extraction"@]
    } else {
        seq![]
    };
    match turn {
        TurnView::Failed(_) => recovered,
        TurnView::Checked(Ok(_)) => if state is AgentTurn {
            recovered
        } else {
            recovered.push("recovered via retry nudge"@)
        },
        TurnView::Checked(Err(errs)) => if state is AgentTurn {
            recovered.push("invalid: "@ + joined(errs, "; "@))
        } else {
            recovered
        },
    }
}

/// The turn that a reply makes.
pub open spec fn turn_of(reply: Result<Seq<char>, Seq<char>>) -> TurnView {
    match reply {
        Ok(text) => TurnView::Checked(lenient(text)),
        Err(e) => TurnView::Failed(e),
    }
}

/// Begins a request: asks the agent.
pub fn begin(session: &str, message: &str, budget_secs: u64) -> (r: (RunState, Action))
    ensures
        r.0 == RunState::AgentTurn,
        r.1@ == first_ask(session@, message@, (budget_secs * 1_000_000_000) as nat),
{
    (
        RunState::AgentTurn,
        Action::Ask {
            session: session.to_owned(),
            stage: "agent_turn".to_owned(),
            check: "validate".to_owned(),
            message: message.to_owned(),
            timeout_ns: budget_secs as u128 * 1_000_000_000,
        },
    )
}

/// Validates a reply of the agent. The flag tells whether the analysis had to
/// be extracted from it.
pub fn check_turn(reply: Result<String, String>) -> (r: (Turn, bool))
    ensures
        r.0@ == turn_of(text_result(reply)),
        r.1 == (reply matches Ok(text) && validated(text@) is Err && lenient(text@) is Ok),
        r.0 matches Turn::Checked(Ok(v)) ==> conformant(v@),
{
    match reply {
        Ok(text) => {
            let (outcome, extracted) = lenient_validate(text.as_str());
            (Turn::Checked(outcome), extracted)
        },
        Err(e) => (Turn::Failed(e), false),
    }
}

/// Goes on after a turn of the agent.
pub fn on_turn(state: RunState, turn: Turn) -> (r: (RunState, Action))
    requires
        state is AgentTurn || state is RetryTurn,
    ensures
        (r.0, r.1@) == after_turn(state, turn@),
        turn matches Turn::Checked(Ok(v)) ==> (r.1 matches Action::Answer { status, body } && status
            == 200 && body@ == v@),
        turn is Failed ==> (r.1 matches Action::Answer { status, .. } && status == 502),
        turn matches Turn::Checked(Err(_)) ==> (if state is AgentTurn {
            r.1 is ReadClock
        } else {
            r.1 matches Action::Answer { status, .. } && status == 422
        }),
{
    match turn {
        Turn::Failed(e) => (
            RunState::Done,
            Action::Answer { status: 502, body: error_object("GATEWAY_FAILED", e.as_str()) },
        ),
        Turn::Checked(Ok(v)) => (RunState::Done, Action::Answer { status: 200, body: v }),
        Turn::Checked(Err(errs)) => {
            match state {
                RunState::AgentTurn => (RunState::Invalid, Action::ReadClock),
                _ => {
                    let all = join(&errs, "; ");
                    let message = cat2(
                        "agent's answer failed validation after one retry: ",
                        all.as_str(),
                    );
                    (
                        RunState::Done,
                        Action::Answer {
                            status: 422,
                            body: error_object("AGENT_OUTPUT_INVALID", message.as_str()),
                        },
                    )
                },
            }
        },
    }
}

fn push_note(notes: &mut Vec<String>, note: String)
    ensures
        contents(final(notes)@) == contents(old(notes)@).push(note@),
{
    notes.push(note);
    assert(contents(notes@) =~= contents(old(notes)@).push(note@));
}

/// What goes into the log about a turn.
pub fn notes_on_turn(state: RunState, turn: &Turn, extracted: bool) -> (notes: Vec<String>)
    requires
        state is AgentTurn || state is RetryTurn,
    ensures
        contents(notes@) == turn_notes(state, turn@, extracted),
{
    let mut notes: Vec<String> = Vec::new();
    assert(contents(notes@) =~= seq![]);
    if extracted {
        push_note(&mut notes, "recovered via fence/JSON extraction".to_owned());
        assert(contents(notes@) =~= seq!["recovered via fence/JSON extraction"@]);
    }
    let first = match state {
        RunState::AgentTurn => true,
        _ => false,
    };
    match turn {
        Turn::Failed(_) => {},
        Turn::Checked(Ok(_)) => {
            if !first {
                push_note(&mut notes, "recovered via retry nudge".to_owned());
            }
        },
        Turn::Checked(Err(errs)) => {
            if first {
                let all = join(errs, "; ");
                push_note(&mut notes, cat2("invalid: ", all.as_str()));
            }
        },
    }
    notes
}

/// Goes on after an invalid answer, `elapsed_ns` after the request began.
pub fn on_clock(session: &str, elapsed_ns: u64, budget_secs: u64) -> (r: (RunState, Action))
    ensures
        (r.0, r.1@) == after_clock(
            session@,
            elapsed_ns as nat,
            (budget_secs * 1_000_000_000) as nat,
        ),
{
    let budget_ns: u128 = budget_secs as u128 * 1_000_000_000;
    if elapsed_ns as u128 >= budget_ns {
        return (
            RunState::Done,
            Action::Answer {
                status: 504,
                body: error_object("TIMEOUT", "budget exhausted before retry"),
            },
        );
    }
    (
        RunState::RetryTurn,
        Action::Ask {
            session: session.to_owned(),
            stage: "retry_turn".to_owned(),
            check: "revalidate".to_owned(),
            message: RETRY_NUDGE.to_owned(),
            timeout_ns: budget_ns - elapsed_ns as u128,
        },
    )
}

// ---------------------------------------------------------------------------
// Laws

/// Every response may be read by any web page.
pub proof fn law_open_to_all(route: Route, status: u16, body: JsonView, timings: Seq<char>)
    ensures
        reply_to(route) matches Some(r) ==> r.headers.contains(
            ("Access-Control-Allow-Origin"@, "*"@),
        ),
        timed_reply(status, body, timings).headers.contains(
            ("Access-Control-Allow-Origin"@, "*"@),
        ),
{
    let allow = ("Access-Control-Allow-Origin"@, "*"@);
    assert(cors_view()[0] == allow);
    assert(plain_reply(status, body).headers[1] == allow);
    assert(timed_reply(status, body, timings).headers[1] == allow);
    if let Some(r) = reply_to(route) {
        assert(r.headers[0] == allow || r.headers[1] == allow);
    }
}

/// What a request gets to know.
pub ghost enum EventView {
    /// The agent's reply, or why there is none.
    Reply(Result<Seq<char>, Seq<char>>),
    /// How many nanoseconds are gone.
    Clock(nat),
}

/// Whether `event` is what a request in `state` waits for.
pub open spec fn awaits(state: RunState, event: EventView) -> bool {
    match state {
        RunState::AgentTurn => event is Reply,
        RunState::Invalid => event is Clock,
        RunState::RetryTurn => event is Reply,
        RunState::Done => false,
    }
}

/// What a request in the conversation `session` does on an event.
pub open spec fn step(
    session: Seq<char>,
    state: RunState,
    event: EventView,
    budget: nat,
) -> (RunState, ActionView) {
    match event {
        EventView::Reply(reply) => after_turn(state, turn_of(reply)),
        EventView::Clock(elapsed) => after_clock(session, elapsed, budget),
    }
}

/// What a request in `state` does on a series of events.
pub open spec fn actions_from(
    session: Seq<char>,
    state: RunState,
    events: Seq<EventView>,
    budget: nat,
) -> Seq<ActionView>
    decreases events.len(),
{
    if events.len() == 0 || !awaits(state, events[0]) {
        seq![]
    } else {
        let (next, action) = step(session, state, events[0], budget);
        seq![action] + actions_from(session, next, events.drop_first(), budget)
    }
}

/// Everything that a request does.
pub open spec fn actions_of(
    session: Seq<char>,
    message: Seq<char>,
    events: Seq<EventView>,
    budget: nat,
) -> Seq<ActionView> {
    seq![first_ask(session, message, budget)] + actions_from(
        session,
        RunState::AgentTurn,
        events,
        budget,
    )
}

/// How often the agent is asked.
pub open spec fn asks(actions: Seq<ActionView>) -> nat
    decreases actions.len(),
{
    if actions.len() == 0 {
        0
    } else {
        asks(actions.drop_first()) + if actions[0] is Ask {
            1nat
        } else {
            0
        }
    }
}

/// How often the agent may still be asked.
spec fn asks_left(state: RunState) -> nat {
    match state {
        RunState::AgentTurn => 1,
        RunState::Invalid => 1,
        RunState::RetryTurn => 0,
        RunState::Done => 0,
    }
}

proof fn lemma_asks_from(
    session: Seq<char>,
    state: RunState,
    events: Seq<EventView>,
    budget: nat,
)
    ensures
        asks(actions_from(session, state, events, budget)) <= asks_left(state),
    decreases events.len(),
{
    if events.len() > 0 && awaits(state, events[0]) {
        let (next, action) = step(session, state, events[0], budget);
        let rest = actions_from(session, next, events.drop_first(), budget);
        lemma_asks_from(session, next, events.drop_first(), budget);
        assert((seq![action] + rest).drop_first() =~= rest);
    }
}

/// The agent is asked at most twice, whatever it replies and however long it
/// takes.
pub proof fn law_one_retry(
    session: Seq<char>,
    message: Seq<char>,
    events: Seq<EventView>,
    budget: nat,
)
    ensures
        asks(actions_of(session, message, events, budget)) <= 2,
{
    let rest = actions_from(session, RunState::AgentTurn, events, budget);
    lemma_asks_from(session, RunState::AgentTurn, events, budget);
    assert(actions_of(session, message, events, budget).drop_first() =~= rest);
}

proof fn lemma_actions_from(
    session: Seq<char>,
    state: RunState,
    events: Seq<EventView>,
    budget: nat,
    i: int,
)
    requires
        0 <= i < actions_from(session, state, events, budget).len(),
    ensures
        i < events.len(),
        match actions_from(session, state, events, budget)[i] {
            ActionView::Answer { status, body } => {
                &&& conformant(body)
                &&& status != 200 ==> reports_failure(body)
                &&& i + 1 == actions_from(session, state, events, budget).len()
                &&& status == 200 || status == 422 || status == 502 || status == 504
            },
            ActionView::Ask { session: s, message, timeout_ns, .. } => {
                &&& s == session
                &&& message == RETRY_NUDGE@
                &&& events[i] matches EventView::Clock(elapsed) && elapsed + timeout_ns == budget
            },
            ActionView::ReadClock => true,
        },
    decreases events.len(),
{
    let (next, action) = step(session, state, events[0], budget);
    let rest = actions_from(session, next, events.drop_first(), budget);
    if i == 0 {
        if let ActionView::Answer { status, body } = action {
            assert(next == RunState::Done);
            assert(rest.len() == 0);
        }
        lemma_failures_conformant();
    } else {
        assert((seq![action] + rest)[i] == rest[i - 1]);
        lemma_actions_from(session, next, events.drop_first(), budget, i - 1);
        assert(events.drop_first()[i - 1] == events[i]);
    }
}

/// An analysis with an error object in it.
pub open spec fn reports_failure(body: JsonView) -> bool {
    key_of(body, "error"@) is Object
}

proof fn lemma_failures_conformant()
    ensures
        forall|code: Seq<char>, message: Seq<char>|
            conformant(#[trigger] error_view(code, message)) && reports_failure(
                error_view(code, message),
            ),
{
    assert forall|code: Seq<char>, message: Seq<char>| conformant(
        #[trigger] error_view(code, message),
    ) by {
        law_error_object_conformant(code, message);
    }
}

/// Whatever the agent replies, the client is answered with an analysis: the
/// agent's own, or one that reports a failure. With any status but 200 it
/// reports one. Nothing is done after the answer.
pub proof fn law_answers_conform(
    session: Seq<char>,
    message: Seq<char>,
    events: Seq<EventView>,
    budget: nat,
    i: int,
)
    requires
        0 <= i < actions_of(session, message, events, budget).len(),
    ensures
        actions_of(session, message, events, budget)[i] matches ActionView::Answer {
            status,
            body,
        } ==> {
            &&& conformant(body)
            &&& status != 200 ==> reports_failure(body)
            &&& i + 1 == actions_of(session, message, events, budget).len()
            &&& status == 200 || status == 422 || status == 502 || status == 504
        },
{
    let rest = actions_from(session, RunState::AgentTurn, events, budget);
    if i > 0 {
        assert(actions_of(session, message, events, budget)[i] == rest[i - 1]);
        lemma_actions_from(session, RunState::AgentTurn, events, budget, i - 1);
    }
}

/// The first message to the agent is the client's; any later one is the
/// nudge, in the same conversation, and the time for it and the time that is
/// gone by then make up the budget.
pub proof fn law_only_the_nudge(
    session: Seq<char>,
    message: Seq<char>,
    events: Seq<EventView>,
    budget: nat,
    i: int,
)
    requires
        0 <= i < actions_of(session, message, events, budget).len(),
    ensures
        actions_of(session, message, events, budget)[0] == first_ask(session, message, budget),
        i > 0 ==> (actions_of(session, message, events, budget)[i] matches ActionView::Ask {
            session: s,
            message: m,
            timeout_ns,
            ..
        } ==> {
            &&& s == session
            &&& m == RETRY_NUDGE@
            &&& i <= events.len()
            &&& events[i - 1] matches EventView::Clock(elapsed) && elapsed + timeout_ns == budget
        }),
{
    let rest = actions_from(session, RunState::AgentTurn, events, budget);
    if i > 0 {
        assert(actions_of(session, message, events, budget)[i] == rest[i - 1]);
        lemma_actions_from(session, RunState::AgentTurn, events, budget, i - 1);
    }
}

/// Whatever is said to the agent during a request goes into one conversation:
/// each request to the webhook names it.
pub proof fn law_one_conversation(
    cfg: Cfg,
    session: Seq<char>,
    message: Seq<char>,
    events: Seq<EventView>,
    budget: nat,
    i: int,
)
    requires
        0 <= i < actions_of(session, message, events, budget).len(),
    ensures
        actions_of(session, message, events, budget)[i] matches ActionView::Ask {
            session: s,
            message: m,
            ..
        } ==> webhook_view(cfg, s, m).headers.contains(("X-Session-Id"@, session)),
{
    law_only_the_nudge(session, message, events, budget, i);
    if let ActionView::Ask { session: s, message: m, .. } = actions_of(
        session,
        message,
        events,
        budget,
    )[i] {
        assert(webhook_view(cfg, s, m).headers[1] == ("X-Session-Id"@, session));
    }
}

/// How a whole request ends: with the first answer where that is an analysis;
/// with a failure where the gateway fails; with a timeout where the budget is
/// gone before the retry; with the second answer where that is an analysis;
/// and otherwise with what is wrong with the second answer.
pub proof fn law_whole_request(
    session: Seq<char>,
    message: Seq<char>,
    first: Result<Seq<char>, Seq<char>>,
    elapsed: nat,
    second: Result<Seq<char>, Seq<char>>,
    budget: nat,
)
    ensures
        actions_of(
            session,
            message,
            seq![EventView::Reply(first), EventView::Clock(elapsed), EventView::Reply(second)],
            budget,
        ) == match first {
            Err(e) => seq![first_ask(session, message, budget), failure(502, "GATEWAY_FAILED"@, e)],
            Ok(text) => match lenient(text) {
                Ok(v) => seq![
                    first_ask(session, message, budget),
                    ActionView::Answer { status: 200, body: v },
                ],
                Err(_) => if elapsed >= budget {
                    seq![
                        first_ask(session, message, budget),
                        ActionView::ReadClock,
                        failure(504, "TIMEOUT"@, "budget exhausted before retry"@),
                    ]
                } else {
                    seq![
                        first_ask(session, message, budget),
                        ActionView::ReadClock,
                        retry_ask(session, elapsed, budget),
                        match second {
                            Err(e) => failure(502, "GATEWAY_FAILED"@, e),
                            Ok(again) => match lenient(again) {
                                Ok(v) => ActionView::Answer { status: 200, body: v },
                                Err(errs) => failure(
                                    422,
                                    "AGENT_OUTPUT_INVALID"@,
                                    "agent's answer failed validation after one retry: "@ + joined(
                                        errs,
                                        "; "@,
                                    ),
                                ),
                            },
                        },
                    ]
                },
            },
        },
{
    let events = seq![
        EventView::Reply(first),
        EventView::Clock(elapsed),
        EventView::Reply(second),
    ];
    let later = events.drop_first();
    let last = later.drop_first();
    assert(later =~= seq![EventView::Clock(elapsed), EventView::Reply(second)]);
    assert(last =~= seq![EventView::Reply(second)]);
    reveal_with_fuel(actions_from, 4);
    assert(last.drop_first() =~= seq![]);
}

/// The status of each response, and what it carries: a response to an analysis
/// has the status and the body that the request ended with, and its timings.
pub proof fn law_reply_fields(
    body: Json,
    status: u16,
    outcome: JsonView,
    timings: Seq<char>,
)
    ensures
        reply_to(Route::Preflight) matches Some(r) && r.status == 204 && r.body.len() == 0,
        reply_to(Route::Health) matches Some(r) && r.status == 200 && r.body == json_text(
            JsonView::Object(map!["status"@ => JsonView::Text("ok"@)]),
        ),
        reply_to(Route::NotFound(body)) matches Some(r) && r.status == 404 && r.body == json_text(
            body@,
        ),
        reply_to(Route::Analyze) is None,
        timed_reply(status, outcome, timings).status == status,
        timed_reply(status, outcome, timings).body == json_text(outcome),
        timed_reply(status, outcome, timings).headers.contains(("X-Timings-Ms"@, timings)),
        timed_reply(status, outcome, timings).headers.contains(
            ("Content-Type"@, "application/json"@),
        ),
        forall|k: int|
            0 <= k < 4 ==> timed_reply(status, outcome, timings).headers.contains(
                #[trigger] cors_view()[k],
            ),
        cors_view() == seq![
            ("Access-Control-Allow-Origin"@, "*"@),
            ("Access-Control-Allow-Methods"@, "POST, GET, OPTIONS"@),
            ("Access-Control-Allow-Headers"@, "Content-Type"@),
            ("Access-Control-Expose-Headers"@, "X-Timings-Ms"@),
        ],
{
    let headers = timed_reply(status, outcome, timings).headers;
    assert(headers[5] == ("X-Timings-Ms"@, timings));
    assert(headers[0] == ("Content-Type"@, "application/json"@));
    assert forall|k: int| 0 <= k < 4 implies headers.contains(#[trigger] cors_view()[k]) by {
        assert(headers[k + 1] == cors_view()[k]);
    }
}

/// The path of a URL ends at its first question mark.
pub proof fn law_path(path: Seq<char>, query: Seq<char>)
    requires
        !path.contains('?'),
    ensures
        path_text(path) == path,
        path_text(path + seq!['?'] + query) == path,
{
    reveal_strlit("?");
    let url = path + seq!['?'] + query;
    let n = path.len() as int;
    assert forall|j: int|
        0 <= j < n && j + 1 <= url.len() implies #[trigger] url.subrange(j, j + 1) != "?"@ by {
        assert(url.subrange(j, j + 1)[0] == path[j]);
    }
    assert(url.subrange(n, n + 1) =~= "?"@);
    law_find(url, "?"@, n);
    assert(url.take(n) =~= path);
    if let Some(i) = find(path, "?"@) {
        law_find(path, "?"@, i);
        assert(path.subrange(i, i + 1)[0] == path[i]);
    }
}

/// The message is the one in the request, where that is an object with a text
/// under that key, and the default one otherwise.
pub proof fn law_message(parsed: Result<JsonView, Seq<char>>, default: Seq<char>)
    ensures
        (parsed matches Ok(JsonView::Object(m)) && m.contains_key("message"@)
            && m["message"@] is Text) ==> message_in(parsed, default)
            == parsed->Ok_0->Object_0["message"@]->Text_0,
        !(parsed matches Ok(JsonView::Object(m)) && m.contains_key("message"@)
            && m["message"@] is Text) ==> message_in(parsed, default) == default,
{
}

/// However many slashes end the gateway's URL, there is one before the webhook;
/// the agent is named where there is one to name.
pub proof fn law_webhook_url(base: Seq<char>, slashes: nat, alias: Seq<char>)
    requires
        base.len() > 0 ==> base.last() != '/',
    ensures
        webhook_url_text(base + repeated("/"@, slashes), None) == base + "/webhook"@,
        webhook_url_text(base + repeated("/"@, slashes), Some(alias)) == base + "/webhook"@
            + "?agent="@ + alias,
{
    reveal_strlit("/");
    if base.len() >= 1 && base.skip(base.len() - 1) == "/"@ {
        assert(base.skip(base.len() - 1)[0] == base.last());
    }
    law_without_suffixes(base, "/"@, slashes);
}

/// A request to the webhook says the message, in the conversation, with the
/// token exactly where one is configured, and is noted.
pub proof fn law_webhook_request(cfg: Cfg, session: Seq<char>, message: Seq<char>)
    ensures
        ({
            let request = webhook_view(cfg, session, message);
            &&& request.url == webhook_url_text(cfg.gateway_url@, opt_view(cfg.agent))
            &&& request.note == "POST "@ + request.url
            &&& request.body == JsonView::Object(map!["message"@ => JsonView::Text(message)])
            &&& request.headers[0] == ("Content-Type"@, "application/json"@)
            &&& request.headers[1] == ("X-Session-Id"@, session)
            &&& cfg.token is None ==> request.headers.len() == 2
            &&& cfg.token matches Some(t) ==> request.headers.len() == 3 && request.headers[2] == (
                "Authorization"@,
                "Bearer "@ + t@,
            )
        }),
{
}

/// The agent's answer is the text under `response`; a reply without one is
/// reported, and so is a request that did not end with a JSON body.
pub proof fn law_answered(t: Transport)
    ensures
        t matches Transport::Body(v) ==> {
            &&& (v@ matches JsonView::Object(m) && m.contains_key("response"@)
                && m["response"@] is Text) ==> answered(t) == Ok::<Seq<char>, Seq<char>>(
                v@->Object_0["response"@]->Text_0,
            )
            &&& !(v@ matches JsonView::Object(m) && m.contains_key("response"@)
                && m["response"@] is Text) ==> answered(t) == Err::<Seq<char>, Seq<char>>(
                "gateway response missing 'response' field: "@ + json_text(v@),
            )
        },
        t matches Transport::Status(code, body) ==> answered(t) == Err::<Seq<char>, Seq<char>>(
            "gateway"@ + " returned HTTP "@ + decimal(code as nat) + ": "@ + (if body@.len()
                <= 300 {
                body@
            } else {
                body@.take(300)
            }),
        ),
        t matches Transport::Failed(e) ==> answered(t) == Err::<Seq<char>, Seq<char>>(
            "gateway"@ + " request failed: "@ + e@,
        ),
        t matches Transport::NotJson(e) ==> answered(t) == Err::<Seq<char>, Seq<char>>(
            "gateway"@ + " response was not JSON: "@ + e@,
        ),
{
    law_transport_error("gateway"@, t);
}

/// The client was answered with `status` and an error object of the given code
/// and message.
pub open spec fn answers_with(
    action: ActionView,
    status: u16,
    code: Seq<char>,
    message: Seq<char>,
) -> bool {
    action matches ActionView::Answer { status: s, body } && s == status && key_of(
        key_of(body, "error"@),
        "code"@,
    ) == JsonView::Text(code) && key_of(key_of(body, "error"@), "message"@) == JsonView::Text(
        message,
    ) && key_of(body, "summary"@) == JsonView::Text(message)
}

/// How a request goes, step by step: what the agent is asked, for how long, and
/// with which status and body the client is answered.
pub proof fn law_request_goes(
    session: Seq<char>,
    message: Seq<char>,
    first: Result<Seq<char>, Seq<char>>,
    elapsed: nat,
    second: Result<Seq<char>, Seq<char>>,
    budget: nat,
)
    ensures
        ({
            let did = actions_of(
                session,
                message,
                seq![EventView::Reply(first), EventView::Clock(elapsed), EventView::Reply(second)],
                budget,
            );
            &&& did.len() >= 2
            &&& did[0] matches ActionView::Ask { session: s, stage, check, message: m, timeout_ns }
                && s == session && m == message && timeout_ns == budget && stage == "agent_turn"@
                && check == "validate"@
            &&& first matches Err(e) ==> did.len() == 2 && answers_with(
                did[1],
                502,
                "GATEWAY_FAILED"@,
                e,
            )
            &&& first matches Ok(text) ==> (lenient(text) matches Ok(v) ==> did.len() == 2 && (
            did[1] matches ActionView::Answer { status, body } && status == 200 && body == v))
            &&& first matches Ok(text) ==> (lenient(text) is Err ==> did.len() >= 3 && {
                &&& elapsed >= budget ==> did.len() == 3 && answers_with(
                    did[2],
                    504,
                    "TIMEOUT"@,
                    "budget exhausted before retry"@,
                )
                &&& elapsed < budget ==> did.len() == 4 && {
                    &&& did[2] matches ActionView::Ask {
                        session: s,
                        stage,
                        check,
                        message: m,
                        timeout_ns,
                    } && s == session && m == RETRY_NUDGE@ && timeout_ns + elapsed == budget
                        && stage == "retry_turn"@ && check == "revalidate"@
                    &&& second matches Err(e) ==> answers_with(did[3], 502, "GATEWAY_FAILED"@, e)
                    &&& second matches Ok(again) ==> (lenient(again) matches Ok(v) ==> (
                    did[3] matches ActionView::Answer { status, body } && status == 200 && body
                        == v))
                    &&& second matches Ok(again) ==> (lenient(again) matches Err(errs)
                        ==> answers_with(
                        did[3],
                        422,
                        "AGENT_OUTPUT_INVALID"@,
                        "agent's answer failed validation after one retry: "@ + joined(
                            errs,
                            "; "@,
                        ),
                    ))
                }
            })
        }),
{
    law_whole_request(session, message, first, elapsed, second, budget);
    assert forall|code: Seq<char>, text: Seq<char>, status: u16| answers_with(
        #[trigger] failure(status, code, text),
        status,
        code,
        text,
    ) by {
        law_error_object_fields(code, text);
    }
}

/// What goes into the log about a turn: that an answer had to be extracted, what
/// was wrong with the first one, and that the second one was good.
pub proof fn law_turn_notes(turn: TurnView)
    ensures
        turn is Failed ==> turn_notes(RunState::AgentTurn, turn, false).len() == 0 && turn_notes(
            RunState::RetryTurn,
            turn,
            false,
        ).len() == 0,
        turn matches TurnView::Checked(Ok(_)) ==> {
            &&& turn_notes(RunState::AgentTurn, turn, false).len() == 0
            &&& turn_notes(RunState::AgentTurn, turn, true) == seq![
                "recovered via fence/JSON extraction"@,
            ]
            &&& turn_notes(RunState::RetryTurn, turn, false) == seq!["recovered via retry nudge"@]
            &&& turn_notes(RunState::RetryTurn, turn, true) == seq![
                "recovered via fence/JSON extraction"@,
                "recovered via retry nudge"@,
            ]
        },
        turn matches TurnView::Checked(Err(errs)) ==> {
            &&& turn_notes(RunState::AgentTurn, turn, false) == seq![
                "invalid: "@ + joined(errs, "; "@),
            ]
            &&& turn_notes(RunState::RetryTurn, turn, false).len() == 0
        },
{
}

/// A request for nothing there is is answered with an analysis that says so.
pub proof fn law_not_found(method: Seq<char>, path: Seq<char>)
    ensures
        ({
            let body = not_found_view(method, path);
            let said = "no route "@ + method + " "@ + path;
            &&& conformant(body)
            &&& key_of(key_of(body, "error"@), "code"@) == JsonView::Text("NOT_FOUND"@)
            &&& key_of(key_of(body, "error"@), "message"@) == JsonView::Text(said)
            &&& key_of(body, "summary"@) == JsonView::Text(said)
        }),
{
    let said = "no route "@ + method + " "@ + path;
    law_error_object_fields("NOT_FOUND"@, said);
    law_error_object_conformant("NOT_FOUND"@, said);
}

/// The nudge tells the agent what was wrong and what to answer with.
pub proof fn law_nudge()
    ensures
        RETRY_NUDGE@ == "Your response was not valid JSON per the schema. Respond again with \
ONLY the corrected JSON object matching the schema — no markdown fences, no prose."@,
{
}

/// Turns, actions, requests and responses are what their parts are.
pub proof fn law_views(turn: Turn, action: Action, request: WebhookRequest, reply: HttpReply)
    ensures
        turn matches Turn::Failed(e) ==> turn@ == TurnView::Failed(e@),
        turn matches Turn::Checked(Ok(v)) ==> turn@ == TurnView::Checked(Ok(v@)),
        turn matches Turn::Checked(Err(errs)) ==> turn@ == TurnView::Checked(Err(contents(errs@))),
        action matches Action::Ask { session, stage, check, message, timeout_ns } ==> action@ == (
        ActionView::Ask {
            session: session@,
            stage: stage@,
            check: check@,
            message: message@,
            timeout_ns: timeout_ns as nat,
        }),
        action is ReadClock <==> action@ == ActionView::ReadClock,
        action matches Action::Answer { status, body } ==> action@ == (ActionView::Answer {
            status,
            body: body@,
        }),
        request@.note == request.note@ && request@.url == request.url@ && request@.body
            == request.body@ && request@.headers == headers_view(request.headers@),
        reply@.status == reply.status && reply@.body == reply.body@ && reply@.headers
            == headers_view(reply.headers@),
{
}

/// Every response with a body says that it is JSON; a response carries the
/// headers for web pages, that of an analysis its timings besides, and none
/// carries anything else.
pub proof fn law_reply_headers(
    route: Route,
    status: u16,
    body: JsonView,
    timings: Seq<char>,
    k: int,
)
    ensures
        ({
            let headers = timed_reply(status, body, timings).headers;
            &&& headers.len() == 6
            &&& headers[0] == ("Content-Type"@, "application/json"@)
            &&& 0 <= k < 4 ==> headers[k + 1] == cors_view()[k]
            &&& headers[5] == ("X-Timings-Ms"@, timings)
        }),
        reply_to(route) matches Some(r) ==> {
            &&& route is Preflight ==> r.headers == cors_view()
            &&& !(route is Preflight) ==> r.headers.len() == 5 && r.headers[0] == (
                "Content-Type"@,
                "application/json"@,
            ) && (0 <= k < 4 ==> r.headers[k + 1] == cors_view()[k])
        },
        cors_view().len() == 4,
{
}

/// What is noted of a turn on which extraction helped comes first.
pub proof fn law_recovery_noted(turn: TurnView)
    ensures
        forall|state: RunState| #[trigger]
            turn_notes(state, turn, true) == seq!["recovered via fence/JSON extraction"@]
                + turn_notes(state, turn, false),
{
}

} // verus!

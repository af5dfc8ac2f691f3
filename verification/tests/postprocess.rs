use analyze_screen::config::{load_cfg, Vars};
use analyze_screen::json::Json;
use analyze_screen::postprocess::{
    analysis_reply, begin, check_turn, cors_headers, fixed_reply, health_body, json_response,
    message_or, notes_on_turn, on_clock, on_turn, path_of, preflight_response, read_webhook, request_id, request_message, route,
    session_id, timings_header, webhook_body, webhook_headers, webhook_request, webhook_url, Action, Route, RunState, Turn,
    RETRY_NUDGE,
};
use analyze_screen::vlm::Transport;

const ANALYSIS: &str = r#"{"screen_type":"menu","title":"t","summary":"s",
        "detected_elements":[],"suggested_actions":[],"error":null}"#;

fn parsed(text: &str) -> Json {
    match Json::parse(text) {
        Ok(v) => v,
        Err(e) => panic!("{e}"),
    }
}

fn headers(pairs: &[(&str, &str)]) -> Vec<(String, String)> {
    pairs.iter().map(|(k, v)| (k.to_string(), v.to_string())).collect()
}

const SECOND: u64 = 1_000_000_000;

fn ask(action: Action) -> (String, String, String, String, u128) {
    match action {
        Action::Ask { session, stage, check, message, timeout_ns } => {
            (session, stage, check, message, timeout_ns)
        }
        _ => panic!("nothing asked"),
    }
}

fn answer(action: Action) -> (u16, Json) {
    match action {
        Action::Answer { status, body } => (status, body),
        _ => panic!("no answer"),
    }
}

fn error_code(body: &Json) -> String {
    body.at_key("error").at_key("code").as_str().unwrap().to_string()
}

#[test]
fn the_query_is_no_part_of_the_path() {
    assert_eq!(path_of("/a?b=c?d"), "/a");
    assert_eq!(path_of("/a"), "/a");
    assert_eq!(path_of("?x"), "");
    assert_eq!(path_of(""), "");
}

#[test]
fn requests_are_routed() {
    assert!(matches!(route("OPTIONS", "/anything"), Route::Preflight));
    assert!(matches!(route("GET", "/health?x=1"), Route::Health));
    assert!(matches!(route("POST", "/analyze-screen"), Route::Analyze));
    match route("GET", "/analyze-screen?q") {
        Route::NotFound(body) => {
            assert_eq!(error_code(&body), "NOT_FOUND");
            assert_eq!(body.at_key("summary").as_str(), Some("no route GET /analyze-screen"));
        }
        _ => panic!("found"),
    }
    assert!(matches!(route("POST", "/health"), Route::NotFound(_)));
    assert!(matches!(route("get", "/health"), Route::NotFound(_)));
}

#[test]
fn responses_carry_the_cors_headers() {
    let cors = headers(&[
        ("Access-Control-Allow-Origin", "*"),
        ("Access-Control-Allow-Methods", "POST, GET, OPTIONS"),
        ("Access-Control-Allow-Headers", "Content-Type"),
        ("Access-Control-Expose-Headers", "X-Timings-Ms"),
    ]);
    assert_eq!(cors_headers(), cors);
    let preflight = preflight_response();
    assert_eq!(preflight.status, 204);
    assert_eq!(preflight.headers, cors);
    assert_eq!(preflight.body, "");
    let health = json_response(200, &health_body(), None);
    assert_eq!(health.status, 200);
    assert_eq!(health.body, "{\"status\":\"ok\"}");
    let mut all = headers(&[("Content-Type", "application/json")]);
    all.extend(cors);
    assert_eq!(health.headers, all);
    let timed = json_response(422, &Json::Null, Some(timings_header("{\"total\":1}")));
    assert_eq!(timed.status, 422);
    assert_eq!(timed.body, "null");
    all.extend(headers(&[("X-Timings-Ms", "{\"total\":1}")]));
    assert_eq!(timed.headers, all);
}

#[test]
fn fixed_requests_get_fixed_responses() {
    let reply = |method: &str, url: &str| fixed_reply(&route(method, url));
    let preflight = reply("OPTIONS", "/x").unwrap();
    assert_eq!((preflight.status, preflight.body.as_str()), (204, ""));
    let health = reply("GET", "/health?deep").unwrap();
    assert_eq!((health.status, health.body.as_str()), (200, "{\"status\":\"ok\"}"));
    let missing = reply("PUT", "/x?y").unwrap();
    assert_eq!(missing.status, 404);
    assert_eq!(error_code(&parsed(&missing.body)), "NOT_FOUND");
    assert_eq!(parsed(&missing.body).at_key("summary").as_str(), Some("no route PUT /x"));
    assert!(reply("POST", "/analyze-screen").is_none());
    let timed = analysis_reply(504, &Json::Null, "{\"total\":2}");
    assert_eq!((timed.status, timed.body.as_str()), (504, "null"));
    assert_eq!(
        timed.headers.last().unwrap(),
        &("X-Timings-Ms".to_string(), "{\"total\":2}".to_string())
    );
    let open = ("Access-Control-Allow-Origin".to_string(), "*".to_string());
    for headers in [preflight.headers, health.headers, missing.headers, timed.headers] {
        assert!(headers.contains(&open));
    }
}

#[test]
fn the_message_defaults() {
    assert_eq!(request_message("{\"message\":\"hi\"}", "d"), "hi");
    assert_eq!(request_message("{\"message\":5}", "d"), "d");
    assert_eq!(request_message("{}", "d"), "d");
    assert_eq!(request_message("[\"message\"]", "d"), "d");
    assert_eq!(request_message("", "d"), "d");
    assert_eq!(message_or(&Err("e".to_string()), "d"), "d");
    assert_eq!(message_or(&Ok(parsed("{\"message\":\"\"}")), "d"), "");
}

#[test]
fn requests_and_sessions_are_named() {
    assert_eq!(request_id(1), "req-1");
    assert_eq!(request_id(u64::MAX), "req-18446744073709551615");
    assert_eq!(session_id(1700000000000, "req-7"), "tv-1700000000000-req-7");
    assert_eq!(session_id(0, "r"), "tv-0-r");
}

#[test]
fn the_webhook_is_under_the_gateway() {
    assert_eq!(webhook_url("http://g:1//", &None), "http://g:1/webhook");
    assert_eq!(
        webhook_url("http://g:1", &Some("main".to_string())),
        "http://g:1/webhook?agent=main"
    );
    assert_eq!(webhook_body("say \"hi\"").render(), "{\"message\":\"say \\\"hi\\\"\"}");
}

#[test]
fn a_request_to_the_webhook_names_its_conversation() {
    let mut vars = Vars::new();
    vars.set("GATEWAY_URL", "http://g:1/");
    vars.set("AGENT_ALIAS", "main");
    let request = webhook_request(&load_cfg(&vars), "s-1", "hi");
    assert_eq!(request.note, "POST http://g:1/webhook?agent=main");
    assert_eq!(request.url, "http://g:1/webhook?agent=main");
    assert_eq!(
        request.headers,
        headers(&[("Content-Type", "application/json"), ("X-Session-Id", "s-1")])
    );
    assert_eq!(request.body.render(), "{\"message\":\"hi\"}");
    vars.set("GATEWAY_TOKEN", "t");
    let request = webhook_request(&load_cfg(&vars), "s-1", RETRY_NUDGE);
    assert_eq!(
        request.headers.last().unwrap(),
        &("Authorization".to_string(), "Bearer t".to_string())
    );
    assert_eq!(
        webhook_headers("s-2", &Some("t".to_string())),
        headers(&[
            ("Content-Type", "application/json"),
            ("X-Session-Id", "s-2"),
            ("Authorization", "Bearer t"),
        ])
    );
}

#[test]
fn the_answer_of_the_webhook_is_read() {
    assert_eq!(
        read_webhook(Transport::Body(parsed("{\"response\":\"text\"}"))).ok().as_deref(),
        Some("text")
    );
    assert_eq!(
        read_webhook(Transport::Body(parsed("{\"other\":1}"))).err().as_deref(),
        Some("gateway response missing 'response' field: {\"other\":1}")
    );
    assert_eq!(
        read_webhook(Transport::Status(503, "é".repeat(301))).err().unwrap(),
        format!("gateway returned HTTP 503: {}", "é".repeat(300))
    );
    assert_eq!(
        read_webhook(Transport::Failed("refused".to_string())).err().as_deref(),
        Some("gateway request failed: refused")
    );
    assert_eq!(
        read_webhook(Transport::NotJson("bad".to_string())).err().as_deref(),
        Some("gateway response was not JSON: bad")
    );
}

#[test]
fn a_valid_first_answer_is_given_to_the_client() {
    let (state, action) = begin("s-1", "look", 150);
    assert!(state == RunState::AgentTurn);
    assert_eq!(
        ask(action),
        ("s-1".into(), "agent_turn".into(), "validate".into(), "look".into(), 150_000_000_000)
    );
    let (turn, extracted) = check_turn(Ok(ANALYSIS.to_string()));
    assert!(!extracted);
    assert!(notes_on_turn(state, &turn, extracted).is_empty());
    let (state, action) = on_turn(state, turn);
    assert!(state == RunState::Done);
    let (status, body) = answer(action);
    assert_eq!(status, 200);
    assert_eq!(body.at_key("screen_type").as_str(), Some("menu"));
}

#[test]
fn a_malformed_answer_is_retried_once_in_the_same_session() {
    let (state, _) = begin("s-2", "look", 150);
    let (turn, extracted) = check_turn(Ok("junk".to_string()));
    assert_eq!(
        notes_on_turn(state, &turn, extracted),
        vec!["invalid: not valid JSON: expected value at line 1 column 1"]
    );
    let (state, action) = on_turn(state, turn);
    assert!(state == RunState::Invalid);
    assert!(matches!(action, Action::ReadClock));
    let (state, action) = on_clock("s-2", 40 * SECOND + 1, 150);
    assert!(state == RunState::RetryTurn);
    assert_eq!(
        ask(action),
        ("s-2".into(), "retry_turn".into(), "revalidate".into(), RETRY_NUDGE.into(), 109_999_999_999)
    );
    let (turn, extracted) = check_turn(Ok(format!("Sorry! ```json\n{ANALYSIS}\n```")));
    assert!(extracted);
    assert_eq!(
        notes_on_turn(state, &turn, extracted),
        vec!["recovered via fence/JSON extraction", "recovered via retry nudge"]
    );
    let (state, action) = on_turn(state, turn);
    assert!(state == RunState::Done);
    assert_eq!(answer(action).0, 200);
}

#[test]
fn an_unrepairable_answer_gives_a_structured_error() {
    let (turn, _) = check_turn(Ok("{}".to_string()));
    let (state, action) = on_turn(RunState::RetryTurn, turn);
    assert!(state == RunState::Done);
    let (status, body) = answer(action);
    assert_eq!(status, 422);
    assert_eq!(error_code(&body), "AGENT_OUTPUT_INVALID");
    assert_eq!(
        body.at_key("summary").as_str(),
        Some(
            "agent's answer failed validation after one retry: missing required field screen_type; \
             missing required field title; missing required field summary; \
             missing required field detected_elements; missing required field suggested_actions; \
             missing required field error (use null on success)"
        )
    );
}

#[test]
fn a_gateway_failure_ends_the_request() {
    for state in [RunState::AgentTurn, RunState::RetryTurn] {
        let (turn, extracted) = check_turn(Err("gateway request failed: refused".to_string()));
        assert!(!extracted);
        assert!(notes_on_turn(state, &turn, extracted).is_empty());
        let (next, action) = on_turn(state, turn);
        assert!(next == RunState::Done);
        let (status, body) = answer(action);
        assert_eq!(status, 502);
        assert_eq!(error_code(&body), "GATEWAY_FAILED");
        assert_eq!(body.at_key("summary").as_str(), Some("gateway request failed: refused"));
    }
}

#[test]
fn there_is_no_retry_without_a_budget() {
    for elapsed in [150 * SECOND, 151 * SECOND] {
        let (state, action) = on_clock("s", elapsed, 150);
        assert!(state == RunState::Done);
        let (status, body) = answer(action);
        assert_eq!(status, 504);
        assert_eq!(error_code(&body), "TIMEOUT");
        assert_eq!(body.at_key("summary").as_str(), Some("budget exhausted before retry"));
    }
    assert_eq!(ask(on_clock("s", 150 * SECOND - 1, 150).1).4, 1);
    let longest = ask(on_clock("s", 0, u64::MAX).1).4;
    assert_eq!(longest, u128::from(u64::MAX) * u128::from(SECOND));
}

#[test]
fn a_checked_turn_carries_what_is_wrong() {
    match check_turn(Ok("[]".to_string())).0 {
        Turn::Checked(Err(errs)) => assert_eq!(errs, vec!["top-level value is not an object"]),
        _ => panic!("not checked"),
    }
}

#[test]
fn every_answer_is_an_analysis() {
    let failures = [
        on_turn(RunState::AgentTurn, Turn::Failed("e".to_string())).1,
        on_turn(RunState::RetryTurn, Turn::Checked(Err(vec!["x".to_string()]))).1,
        on_clock("s", SECOND, 1).1,
    ];
    for action in failures {
        let (status, body) = answer(action);
        let reply = json_response(status, &body, None);
        assert!(status != 200 && body.at_key("error").at_key("code").as_str().is_some());
        assert!(analyze_screen::validate::parse_and_validate(&reply.body).is_ok());
    }
}

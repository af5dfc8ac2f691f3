use analyze_screen::capture::Probe;
use analyze_screen::config::{Vars, VlmConfig};
use analyze_screen::json::Json;
use analyze_screen::mcp::{
    call_result, describe_answered, describe_begin, describe_prepared, dispatch, handle_line,
    result_response, tools_list, Describe, FileFailure, Incoming, ToolCall, ToolServer,
};
use analyze_screen::picture::{ImageFailure, Problem};
use analyze_screen::vlm::Transport;

fn parsed(text: &str) -> Json {
    match Json::parse(text) {
        Ok(v) => v,
        Err(e) => panic!("{e}"),
    }
}

fn reply(line: &str) -> String {
    match handle_line(line, "0.1.0") {
        Incoming::Reply(v) => v.render(),
        _ => panic!("no reply"),
    }
}

fn vlm(base_url: Option<&str>, downscale: &str) -> VlmConfig {
    let mut vars = Vars::new();
    if let Some(url) = base_url {
        vars.set("VLM_BASE_URL", url);
    }
    vars.set("VLM_MODEL", "m");
    vars.set("VLM_PROMPT", "p");
    vars.set("VLM_TIMEOUT_SECS", "5");
    vars.set("DOWNSCALE_ENABLED", downscale);
    VlmConfig::from_env(&vars)
}

fn probe(path: &str, is_file: bool) -> Probe {
    Probe { path: path.to_string(), is_file }
}

fn outcome(step: Describe) -> Result<String, String> {
    match step {
        Describe::Done(outcome) => outcome,
        _ => panic!("not done"),
    }
}

#[test]
fn initialize_is_answered() {
    assert_eq!(
        reply(r#"{"jsonrpc":"2.0","id":1,"method":"initialize","params":{}}"#),
        "{\"id\":1,\"jsonrpc\":\"2.0\",\"result\":{\"capabilities\":{\"tools\":{}},\
         \"protocolVersion\":\"2024-11-05\",\
         \"serverInfo\":{\"name\":\"tv-screen-tools\",\"version\":\"0.1.0\"}}}"
    );
}

#[test]
fn ping_is_answered() {
    assert_eq!(
        reply("{\"id\":\"a\",\"method\":\"ping\"}"),
        "{\"id\":\"a\",\"jsonrpc\":\"2.0\",\"result\":{}}"
    );
}

#[test]
fn an_unknown_method_is_an_error() {
    assert_eq!(
        reply("{\"id\":2,\"method\":\"resources/list\"}"),
        "{\"error\":{\"code\":-32601,\"message\":\"method not found: resources/list\"},\
         \"id\":2,\"jsonrpc\":\"2.0\"}"
    );
    assert_eq!(
        reply("{\"id\":false}"),
        "{\"error\":{\"code\":-32601,\"message\":\"method not found: \"},\
         \"id\":false,\"jsonrpc\":\"2.0\"}"
    );
}

#[test]
fn notifications_and_noise_get_no_response() {
    match handle_line("{\"method\":\"notifications/initialized\"}", "v") {
        Incoming::Notification { method } => assert_eq!(method, "notifications/initialized"),
        _ => panic!("answered"),
    }
    assert!(matches!(
        handle_line("{\"id\":null,\"method\":\"ping\"}", "v"),
        Incoming::Notification { .. }
    ));
    assert!(matches!(handle_line("[1]", "v"), Incoming::Notification { .. }));
    assert!(matches!(handle_line(" \t ", "v"), Incoming::Blank));
    assert!(matches!(handle_line("hello", "v"), Incoming::NotJson));
}

#[test]
fn the_tools_are_listed() {
    let list = tools_list();
    let tools = list.at_key("tools");
    assert_eq!(tools.at_index(0).at_key("name").as_str(), Some("screenshot"));
    assert_eq!(
        tools.at_index(0).at_key("inputSchema").render(),
        "{\"properties\":{},\"required\":[],\"type\":\"object\"}"
    );
    assert_eq!(tools.at_index(1).at_key("name").as_str(), Some("analyze_image"));
    assert_eq!(
        tools.at_index(1).at_key("inputSchema").render(),
        "{\"properties\":{\"image_path\":{\"description\":\"Optional path to the PNG returned by \
         the screenshot tool; defaults to the most recent screenshot\",\"type\":\"string\"}},\
         \"required\":[],\"type\":\"object\"}"
    );
    assert!(tools.at_index(2).is_null());
    let listed = reply("{\"id\":3,\"method\":\"tools/list\"}");
    assert_eq!(parsed(&listed).at_key("result").render(), list.render());
}

#[test]
fn tool_calls_are_recognized() {
    let call = |params: &str| {
        dispatch(
            &parsed(&format!("{{\"id\":4,\"method\":\"tools/call\",\"params\":{params}}}")),
            "v",
        )
    };
    match call("{\"name\":\"screenshot\",\"arguments\":{}}") {
        Incoming::Call { id, tool } => {
            assert_eq!(id.render(), "4");
            assert!(matches!(tool, ToolCall::Screenshot));
        }
        _ => panic!("no call"),
    }
    match call("{\"name\":\"analyze_image\",\"arguments\":{\"image_path\":\"/a.png\"}}") {
        Incoming::Call { tool: ToolCall::AnalyzeImage { image_path }, .. } => {
            assert_eq!(image_path.as_deref(), Some("/a.png"));
        }
        _ => panic!("no call"),
    }
    match call("{\"name\":\"analyze_image\"}") {
        Incoming::Call { tool: ToolCall::AnalyzeImage { image_path }, .. } => {
            assert_eq!(image_path, None);
        }
        _ => panic!("no call"),
    }
    match call("{\"name\":\"zoom\"}") {
        Incoming::Reply(v) => assert_eq!(
            v.render(),
            "{\"id\":4,\"jsonrpc\":\"2.0\",\"result\":{\"content\":[{\"text\":\"unknown tool: zoom\",\
             \"type\":\"text\"}],\"isError\":true}}"
        ),
        _ => panic!("called"),
    }
}

#[test]
fn the_outcome_of_a_tool_is_marked() {
    assert_eq!(
        result_response(&Json::integer(9), call_result(&Ok("fine".to_string()))).render(),
        "{\"id\":9,\"jsonrpc\":\"2.0\",\"result\":{\"content\":[{\"text\":\"fine\",\
         \"type\":\"text\"}],\"isError\":false}}"
    );
    assert_eq!(
        call_result(&Err("bad".to_string())).render(),
        "{\"content\":[{\"text\":\"bad\",\"type\":\"text\"}],\"isError\":true}"
    );
}

#[test]
fn the_last_screenshot_is_remembered() {
    let mut server = ToolServer::new();
    assert_eq!(server.last_screenshot, None);
    let failed = server.screenshot_taken(Err("e".to_string()));
    assert_eq!(failed.err().as_deref(), Some("e"));
    assert_eq!(server.last_screenshot, None);
    let taken = server.screenshot_taken(Ok("/tmp/\"a\".png".to_string()));
    assert_eq!(taken.ok().as_deref(), Some("{\"image_path\":\"/tmp/\\\"a\\\".png\"}"));
    assert_eq!(server.last_screenshot.as_deref(), Some("/tmp/\"a\".png"));
    let again = server.screenshot_taken(Err("e".to_string()));
    assert!(again.is_err());
    assert_eq!(server.last_screenshot.as_deref(), Some("/tmp/\"a\".png"));
}

#[test]
fn the_latest_screenshot_is_described() {
    let cfg = vlm(Some("http://v/v1"), "true");
    let mut server = ToolServer::new();
    assert!(server.screenshot_taken(Ok("/tmp/new.png".to_string())).is_ok());
    let last = server.last_screenshot.as_deref().map(|path| probe(path, true));
    match describe_begin(&cfg, &None, &last, &probe("/tmp/screenshot.png", true)) {
        Describe::Prepare { path } => assert_eq!(path, "/tmp/new.png"),
        _ => panic!("not prepared"),
    }
}

#[test]
fn a_description_needs_an_image_and_a_model() {
    let image = probe("/i.png", true);
    let none = probe("/i.png", false);
    assert_eq!(
        outcome(describe_begin(&vlm(None, "true"), &None, &None, &none)).err().as_deref(),
        Some("no usable image: no valid image_path argument and no screenshot captured yet")
    );
    assert_eq!(
        outcome(describe_begin(&vlm(None, "true"), &None, &None, &image)).err().as_deref(),
        Some("VLM_BASE_URL is not configured")
    );
}

#[test]
fn the_image_is_sent_to_the_model() {
    let cfg = vlm(Some("http://v/v1/"), "true");
    match describe_prepared(&cfg, "/i.png", &Ok(vec![0xfb, 0xff])) {
        Describe::Ask { url, headers, body, timeout_secs } => {
            assert_eq!(url, "http://v/v1/chat/completions");
            assert_eq!(headers, vec![("Content-Type".into(), "application/json".into())]);
            assert_eq!(timeout_secs, 5);
            assert_eq!(
                body.render(),
                "{\"chat_template_kwargs\":{\"enable_thinking\":false},\"max_tokens\":240,\
                 \"messages\":[{\"content\":[{\"image_url\":{\"url\":\"data:image/png;base64,+/8=\"},\
                 \"type\":\"image_url\"},{\"text\":\"p\",\"type\":\"text\"}],\"role\":\"user\"}],\
                 \"model\":\"m\",\"temperature\":0}"
            );
        }
        _ => panic!("nothing asked"),
    }
}

#[test]
fn the_configured_key_is_sent() {
    let mut vars = Vars::new();
    vars.set("VLM_BASE_URL", "u");
    vars.set("VLM_API_KEY", "k");
    let cfg = VlmConfig::from_env(&vars);
    match describe_prepared(&cfg, "/i.png", &Ok(vec![1])) {
        Describe::Ask { headers, .. } => {
            assert_eq!(headers[1], ("Authorization".into(), "Bearer k".into()));
        }
        _ => panic!("nothing asked"),
    }
}

#[test]
fn an_image_that_is_not_ready_is_explained() {
    let said = |downscale: &str, failure: FileFailure| {
        let cfg = vlm(Some("u"), downscale);
        outcome(describe_prepared(&cfg, "/i.png", &Err(failure))).err().unwrap()
    };
    let e = || "e".to_string();
    assert_eq!(said("false", FileFailure::Read(e())), "cannot read /i.png: e");
    assert_eq!(said("true", FileFailure::Read(e())), "cannot decode /i.png: e");
    let problem = || Problem { message: e(), chain: "e: cause".to_string() };
    assert_eq!(
        said("true", FileFailure::Image(ImageFailure::Decode(problem()))),
        "cannot decode /i.png: e"
    );
    assert_eq!(
        said("true", FileFailure::Image(ImageFailure::Encode(problem()))),
        "re-encode failed: e"
    );
}

#[test]
fn the_description_is_given_as_it_is() {
    let payload = parsed(r#"{"choices":[{"message":{"content":" A menu.\n"}}]}"#);
    assert_eq!(
        outcome(describe_answered(Transport::Body(payload))).ok().as_deref(),
        Some(" A menu.\n")
    );
}

#[test]
fn a_reply_without_a_description_is_explained() {
    let said = |reply: Transport| outcome(describe_answered(reply)).err().unwrap();
    assert_eq!(
        said(Transport::Body(parsed("{\"choices\":[]}"))),
        "VLM response missing choices[0].message.content"
    );
    assert_eq!(
        said(Transport::Body(parsed(
            r#"{"choices":[{"message":{"content":"\n"},"finish_reason":"stop"}]}"#
        ))),
        "VLM returned empty content (finish_reason=stop)"
    );
    assert_eq!(said(Transport::Status(404, "no".to_string())), "VLM returned HTTP 404: no");
    assert_eq!(said(Transport::Failed("x".to_string())), "VLM request failed: x");
    assert_eq!(said(Transport::NotJson("x".to_string())), "VLM response was not JSON: x");
}

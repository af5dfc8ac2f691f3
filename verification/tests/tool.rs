use analyze_screen::capture::Exit;
use analyze_screen::config::{AnalyzeScreenConfig, Vars, DEFAULT_VLM_PROMPT};
use analyze_screen::json::Json;
use analyze_screen::paths::capture_dir;
use analyze_screen::picture::{ImageFailure, Problem};
use analyze_screen::text::{strip_fences, truncate};
use analyze_screen::tool::{
    AnalyzeScreenTool, PrepareFailure, Reply, SecurityPolicy, Step, ToolResult,
};
use std::sync::Arc;

fn test_security() -> Arc<SecurityPolicy> {
    Arc::new(SecurityPolicy { can_act: true })
}

fn configured(base_url: &str) -> AnalyzeScreenTool {
    let mut vars = Vars::new();
    vars.set("SCREENSHOT_BIN", "/bin/cap");
    vars.set("SCREENSHOT_OUTPUT", "/data/shot.png");
    vars.set("SCREENSHOT_TIMEOUT_SECS", "7");
    vars.set("VLM_BASE_URL", base_url);
    vars.set("VLM_MODEL", "m");
    vars.set("VLM_PROMPT", "what?");
    AnalyzeScreenTool::with_config(test_security(), AnalyzeScreenConfig::from_env(&vars))
}

fn done(step: Step) -> ToolResult {
    match step {
        Step::Done(result) => result,
        _ => panic!("not done"),
    }
}

fn error_of(step: Step) -> String {
    let result = done(step);
    assert!(!result.success);
    assert_eq!(result.output, "");
    result.error.unwrap()
}

fn reply(success: bool, status: &str, payload: &str) -> Result<Reply, String> {
    let payload = match Json::parse(payload) {
        Ok(v) => v,
        Err(e) => panic!("{e}"),
    };
    Ok(Reply { success, status: status.to_string(), payload })
}

#[test]
fn tool_name() {
    let tool = AnalyzeScreenTool::new(test_security(), &Vars::new());
    assert_eq!(tool.name(), "analyze_screen");
}

#[test]
fn tool_description_mentions_screen() {
    let tool = AnalyzeScreenTool::new(test_security(), &Vars::new());
    assert!(tool.description().contains("screen"));
}

#[test]
fn tool_schema_takes_no_arguments() {
    let tool = AnalyzeScreenTool::new(test_security(), &Vars::new());
    let schema = tool.parameters_schema().to_value();
    assert!(schema["properties"].as_object().unwrap().is_empty());
}

#[test]
fn tool_spec() {
    let tool = AnalyzeScreenTool::new(test_security(), &Vars::new());
    let spec = tool.spec();
    assert_eq!(spec.name, "analyze_screen");
    assert!(spec.parameters.to_value().is_object());
}

#[test]
fn prompt_declares_all_six_keys() {
    for key in [
        "screen_type",
        "title",
        "summary",
        "detected_elements",
        "suggested_actions",
        "error",
    ] {
        assert!(
            DEFAULT_VLM_PROMPT.contains(key),
            "prompt is missing required key: {key}"
        );
    }
}

#[test]
fn strip_fences_removes_markdown() {
    assert_eq!(strip_fences("```json\n{\"a\":1}\n```"), "{\"a\":1}");
    assert_eq!(strip_fences("  {\"a\":1}  "), "{\"a\":1}");
}

#[test]
fn read_only_autonomy_is_refused() {
    let security = Arc::new(SecurityPolicy { can_act: false });
    let tool = AnalyzeScreenTool::new(security, &Vars::new());
    let result = done(tool.execute());
    assert!(!result.success);
    assert!(result.error.unwrap().contains("read-only"));
}

#[test]
fn repeated_fences_are_stripped() {
    assert_eq!(strip_fences("```json```json``` x ``````"), "x");
    assert_eq!(strip_fences("``````json x"), "json x");
    assert_eq!(strip_fences("```"), "");
}

#[test]
fn long_text_is_cut_with_an_ellipsis() {
    assert_eq!(truncate("abc", 3), "abc");
    assert_eq!(truncate("abcd", 3), "abc…");
    assert_eq!(truncate("ééé", 2), "éé…");
    assert_eq!(truncate("", 0), "");
}

#[test]
fn a_run_begins_with_the_capture() {
    match configured("http://v/v1").execute() {
        Step::Capture { bin, dir, output, timeout_secs } => {
            assert_eq!(bin, "/bin/cap");
            assert_eq!(dir, "/data");
            assert_eq!(output, "/data/shot.png");
            assert_eq!(timeout_secs, 7);
        }
        _ => panic!("no capture"),
    }
}

#[test]
fn a_capture_that_fails_ends_the_run() {
    let tool = configured("http://v/v1");
    assert_eq!(
        error_of(tool.capture_ran(Exit::SpawnFailed("not found".to_string()))),
        "capture failed: failed to spawn /bin/cap: not found"
    );
    assert_eq!(
        error_of(tool.capture_ran(Exit::TimedOut)),
        "capture failed: capture binary timed out after 7s"
    );
    assert_eq!(
        error_of(tool.capture_ran(Exit::Exited {
            success: false,
            status: "exit status: 3".to_string(),
            stdout: vec![],
            stderr: b"  no tv\xff \n".to_vec(),
        })),
        "capture failed: capture binary exited with exit status: 3: no tv\u{fffd}"
    );
}

#[test]
fn a_capture_that_succeeds_is_looked_for() {
    let tool = configured("http://v/v1");
    let exit = Exit::Exited {
        success: true,
        status: "exit status: 0".to_string(),
        stdout: vec![],
        stderr: vec![],
    };
    assert!(matches!(tool.capture_ran(exit), Step::Look { output } if output == "/data/shot.png"));
}

#[test]
fn a_changed_or_present_file_is_the_capture() {
    let tool = configured("http://v/v1");
    let taken = |step: Step| matches!(step, Step::Prepare { path } if path == "/data/shot.png");
    assert!(taken(tool.capture_found(None, Some(5), false)));
    assert!(taken(tool.capture_found(Some(4), Some(5), false)));
    assert!(taken(tool.capture_found(Some(5), Some(5), true)));
    for (before, after) in [(Some(5), Some(5)), (Some(5), None), (None, None)] {
        assert_eq!(
            error_of(tool.capture_found(before, after, false)),
            "capture failed: no PNG at /data/shot.png after capture"
        );
    }
}

#[test]
fn an_image_that_is_not_ready_ends_the_run() {
    let tool = configured("http://v/v1");
    assert_eq!(
        error_of(tool.prepared(&Err(PrepareFailure::Read("gone".to_string())), &None)),
        "image prepare failed: reading capture at /data/shot.png: gone"
    );
    assert_eq!(
        error_of(tool.prepared(&Err(PrepareFailure::Task("cancelled".to_string())), &None)),
        "image prepare failed: cancelled"
    );
    let problem =
        || Problem { message: "bad".to_string(), chain: "bad: too short".to_string() };
    for failure in [ImageFailure::Decode(problem()), ImageFailure::Encode(problem())] {
        assert_eq!(
            error_of(tool.prepared(&Err(PrepareFailure::Image(failure)), &None)),
            "image prepare failed: bad: too short"
        );
    }
}

#[test]
fn without_a_base_url_nothing_is_asked() {
    assert_eq!(
        error_of(configured("").prepared(&Ok(vec![1]), &None)),
        "VLM analysis failed: VLM_BASE_URL is not configured"
    );
}

#[test]
fn the_vision_model_is_asked() {
    match configured("http://v/v1/").prepared(&Ok(b"Man".to_vec()), &None) {
        Step::Ask { url, headers, body, timeout_secs } => {
            assert_eq!(url, "http://v/v1/chat/completions");
            assert_eq!(headers, vec![("Content-Type".into(), "application/json".into())]);
            assert_eq!(timeout_secs, 60);
            assert_eq!(
                body.render(),
                "{\"chat_template_kwargs\":{\"enable_thinking\":false},\"max_tokens\":400,\
                 \"messages\":[{\"content\":[{\"image_url\":{\"url\":\"data:image/png;base64,TWFu\"},\
                 \"type\":\"image_url\"},{\"text\":\"what?\",\"type\":\"text\"}],\"role\":\"user\"}],\
                 \"model\":\"m\",\"temperature\":0}"
            );
        }
        _ => panic!("nothing asked"),
    }
}

const ANALYSIS: &str = r#"{"screen_type":"menu","title":"t","summary":"s",
    "detected_elements":[],"suggested_actions":[],"error":null}"#;

fn saying(text: &str) -> String {
    let message = Json::object().with("content", Json::string(text));
    let choice = Json::object().with("message", message);
    Json::object().with("choices", Json::array().item(choice)).render()
}

#[test]
fn the_binary_runs_where_its_output_lands() {
    assert_eq!(capture_dir("/root/capture.png"), "/root");
    assert_eq!(capture_dir("/capture.png"), "/");
    assert_eq!(capture_dir("a/b/c.png"), "a/b");
    assert_eq!(capture_dir("capture.png"), "");
    assert_eq!(capture_dir("/"), "/");
    assert_eq!(capture_dir(""), "/");
}

#[test]
fn the_key_goes_to_the_model() {
    match configured("u").prepared(&Ok(vec![1]), &Some("SECRET-REDACTED".to_string())) {
        Step::Ask { headers, .. } => assert_eq!(
            headers,
            vec![
                ("Content-Type".into(), "application/json".into()),
                ("Authorization".into(), "Bearer SECRET-REDACTED".into()),
            ]
        ),
        _ => panic!("nothing asked"),
    }
}

#[test]
fn an_analysis_comes_out_without_its_fence() {
    for text in [ANALYSIS.to_string(), format!(" ```json\n{ANALYSIS}\n``` ")] {
        let result = done(configured("u").answered(&reply(true, "200 OK", &saying(&text))));
        assert!(result.success);
        assert_eq!(result.output, ANALYSIS);
        assert!(result.error.is_none());
    }
}

#[test]
fn an_object_that_is_no_analysis_is_no_success() {
    let said = |text: &str| {
        error_of(configured("u").answered(&reply(true, "200 OK", &saying(text))))
    };
    assert_eq!(
        said("{"),
        "VLM analysis failed: VLM returned an invalid analysis: \
         not valid JSON: EOF while parsing an object at line 1 column 1"
    );
    assert_eq!(
        said(&ANALYSIS.replace("\"title\":\"t\",", "").replace(":null", ":5")),
        "VLM analysis failed: VLM returned an invalid analysis: \
         missing required field title; error must be null or an object"
    );
    assert!(said(&format!("{ANALYSIS} and more")).starts_with(
        "VLM analysis failed: VLM returned an invalid analysis: not valid JSON: "
    ));
}

#[test]
fn replies_that_hold_no_analysis_end_in_an_error() {
    let tool = configured("u");
    assert_eq!(
        error_of(tool.answered(&Err("timed out".to_string()))),
        "VLM analysis failed: timed out"
    );
    assert_eq!(
        error_of(tool.answered(&reply(false, "500 Internal Server Error", "{\"e\":1}"))),
        "VLM analysis failed: VLM returned 500 Internal Server Error: {\"e\":1}"
    );
    assert_eq!(
        error_of(tool.answered(&reply(true, "200 OK", "{}"))),
        "VLM analysis failed: VLM returned empty content (finish_reason=unknown)"
    );
    assert_eq!(
        error_of(tool.answered(&reply(
            true,
            "200 OK",
            r#"{"choices":[{"message":{"content":" "},"finish_reason":"length"}]}"#
        ))),
        "VLM analysis failed: VLM returned empty content (finish_reason=length)"
    );
    assert_eq!(
        error_of(tool.answered(&reply(
            true,
            "200 OK",
            r#"{"choices":[{"message":{"content":"I see a cat"}}]}"#
        ))),
        "VLM analysis failed: VLM returned non-JSON content: I see a cat"
    );
}

#[test]
fn long_prose_is_cut_in_the_error() {
    let payload = format!(
        "{{\"choices\":[{{\"message\":{{\"content\":\"{}\"}}}}]}}",
        "x".repeat(201)
    );
    assert_eq!(
        error_of(configured("u").answered(&reply(true, "200 OK", &payload))),
        format!("VLM analysis failed: VLM returned non-JSON content: {}…", "x".repeat(200))
    );
}

use analyze_screen::config::{
    load_cfg, vlm_api_key, AnalyzeScreenConfig, ScreenshotConfig, Vars, VlmConfig,
    DEFAULT_VLM_PROMPT, DESCRIBE_PROMPT,
};

fn vars(entries: &[(&str, &str)]) -> Vars {
    let mut vars = Vars::new();
    for (name, value) in entries {
        vars.set(name, value);
    }
    vars
}

#[test]
fn an_empty_environment_gives_the_defaults() {
    let cfg = AnalyzeScreenConfig::from_env(&Vars::new());
    assert_eq!(cfg.capture_bin, "/root/tzcapturesample");
    assert_eq!(cfg.capture_output, "/root/capture.png");
    assert_eq!(cfg.capture_timeout_secs, 10);
    assert_eq!(cfg.vlm_base_url, "");
    assert_eq!(cfg.vlm_model, "Qwen/Qwen3-VL-8B-Instruct");
    assert_eq!(cfg.vlm_timeout_secs, 60);
    assert_eq!(cfg.vlm_prompt, DEFAULT_VLM_PROMPT);
    assert_eq!(cfg.downscale_max_edge, 1280);
    assert!(cfg.downscale_enabled);
}

#[test]
fn a_variable_overrides_its_default() {
    let cfg = AnalyzeScreenConfig::from_env(&vars(&[
        ("SCREENSHOT_BIN", "/x"),
        ("SCREENSHOT_TIMEOUT_SECS", "+18446744073709551615"),
        ("DOWNSCALE_MAX_EDGE", "4294967295"),
        ("DOWNSCALE_ENABLED", "True"),
        ("VLM_PROMPT", ""),
    ]));
    assert_eq!(cfg.capture_bin, "/x");
    assert_eq!(cfg.capture_timeout_secs, u64::MAX);
    assert_eq!(cfg.downscale_max_edge, u32::MAX);
    assert!(!cfg.downscale_enabled);
    assert_eq!(cfg.vlm_prompt, "");
}

#[test]
fn a_number_that_cannot_be_read_gives_the_default() {
    for bad in ["", " 5", "5 ", "-1", "1.5", "ten", "+", "18446744073709551616"] {
        let cfg = AnalyzeScreenConfig::from_env(&vars(&[("VLM_TIMEOUT_SECS", bad)]));
        assert_eq!(cfg.vlm_timeout_secs, 60, "{bad}");
    }
    let cfg = AnalyzeScreenConfig::from_env(&vars(&[("DOWNSCALE_MAX_EDGE", "4294967296")]));
    assert_eq!(cfg.downscale_max_edge, 1280);
}

#[test]
fn the_last_value_of_a_variable_counts() {
    let vars = vars(&[("A", "1"), ("B", "2"), ("A", "3")]);
    assert_eq!(vars.get("A").as_deref(), Some("3"));
    assert_eq!(vars.get("B").as_deref(), Some("2"));
    assert_eq!(vars.get("C"), None);
    assert_eq!(vars.env_or("C", "d"), "d");
    assert_eq!(vars.uint_or("A", 255, 0), 3);
}

#[test]
fn the_proxy_is_configured() {
    let cfg = load_cfg(&Vars::new());
    assert_eq!(cfg.port, 8787);
    assert_eq!(cfg.gateway_url, "http://127.0.0.1:42617");
    assert_eq!(cfg.token, None);
    assert_eq!(cfg.agent, None);
    assert_eq!(cfg.default_message, "Analyze what is currently on my screen.");
    assert_eq!(cfg.total_timeout_secs, 150);
    let cfg = load_cfg(&vars(&[
        ("POSTPROCESS_PORT", "65536"),
        ("GATEWAY_TOKEN", "t"),
        ("AGENT_ALIAS", "main"),
        ("TOTAL_TIMEOUT_SECS", "9"),
    ]));
    assert_eq!(cfg.port, 8787);
    assert_eq!(cfg.token.as_deref(), Some("t"));
    assert_eq!(cfg.agent.as_deref(), Some("main"));
    assert_eq!(cfg.total_timeout_secs, 9);
}

#[test]
fn the_tool_server_is_configured() {
    let shot = ScreenshotConfig::from_env(&Vars::new());
    assert!(!shot.watch);
    assert_eq!(shot.bin, None);
    assert!(shot.args.is_empty());
    assert_eq!(shot.output, "/tmp/screenshot.png");
    assert_eq!(shot.timeout_secs, 10);
    let vlm = VlmConfig::from_env(&Vars::new());
    assert_eq!(vlm.base_url, None);
    assert_eq!(vlm.api_key, None);
    assert_eq!(vlm_api_key(&vars(&[("VLM_API_KEY", "k")])).as_deref(), Some("k"));
    assert_eq!(vlm.model, "Qwen/Qwen3-VL-8B-Instruct");
    assert_eq!(vlm.timeout_secs, 60);
    assert_eq!(vlm.prompt, DESCRIBE_PROMPT);
    assert!(vlm.downscale_enabled);
    assert_eq!(vlm.downscale_max_edge, 1280);
    assert!(DESCRIBE_PROMPT.starts_with(
        "Describe this TV screen in 3 short sentences: State the screen type, then name"
    ));
}

#[test]
fn arguments_are_split_at_white_space() {
    let shot = ScreenshotConfig::from_env(&vars(&[("SCREENSHOT_ARGS", "\ta\u{2003}b  c\n")]));
    assert_eq!(shot.args, vec!["a", "b", "c"]);
}

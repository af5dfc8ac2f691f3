use analyze_screen::capture::{
    choose_capture, choose_screenshot, exit_output, is_fresh, plan_screenshot, resolve_image_path,
    screenshot_ran, watch_step, Exit, Plan, Probe, Watch,
};
use analyze_screen::config::{ScreenshotConfig, Vars};

fn probe(path: &str, is_file: bool) -> Probe {
    Probe { path: path.to_string(), is_file }
}

fn exited(success: bool, stdout: &[u8], stderr: &[u8]) -> Exit {
    Exit::Exited {
        success,
        status: "exit status: 1".to_string(),
        stdout: stdout.to_vec(),
        stderr: stderr.to_vec(),
    }
}

#[test]
fn a_run_that_fails_is_explained() {
    let said = |exit: Exit| exit_output("screenshot binary", "/b", 10, exit).err();
    assert_eq!(
        said(Exit::SpawnFailed("e".to_string())).as_deref(),
        Some("failed to spawn /b: e")
    );
    assert_eq!(said(Exit::WaitFailed("e".to_string())).as_deref(), Some("wait failed: e"));
    assert_eq!(said(Exit::TimedOut).as_deref(), Some("screenshot binary timed out after 10s"));
    assert_eq!(
        said(Exit::OutputFailed("e".to_string())).as_deref(),
        Some("read output failed: e")
    );
    assert_eq!(
        said(exited(false, b"x", b"\n bad \n")).as_deref(),
        Some("screenshot binary exited with exit status: 1: bad")
    );
    assert_eq!(said(exited(true, b"x", b"bad")), None);
}

#[test]
fn the_printed_paths_come_last_first() {
    let paths = screenshot_ran("/b", 10, exited(true, b"one\r\n\n  two \nthree\xff\n", b""));
    assert_eq!(paths.ok().unwrap(), vec!["three\u{fffd}", "two", "one"]);
    let failed = screenshot_ran("/b", 10, Exit::TimedOut);
    assert_eq!(failed.err().as_deref(), Some("screenshot binary timed out after 10s"));
}

#[test]
fn the_plan_follows_the_configuration() {
    let mut vars = Vars::new();
    assert!(matches!(
        plan_screenshot(&ScreenshotConfig::from_env(&vars)),
        Plan::Refuse(e) if e == "SCREENSHOT_BIN is not configured"
    ));
    vars.set("SCREENSHOT_BIN", "/b");
    vars.set("SCREENSHOT_ARGS", " -o  x\ty ");
    match plan_screenshot(&ScreenshotConfig::from_env(&vars)) {
        Plan::Run { bin, args } => {
            assert_eq!(bin, "/b");
            assert_eq!(args, vec!["-o", "x", "y"]);
        }
        _ => panic!("no run"),
    }
    vars.set("SCREENSHOT_MODE", "watch");
    assert!(matches!(plan_screenshot(&ScreenshotConfig::from_env(&vars)), Plan::Watch));
}

#[test]
fn a_file_is_fresh_when_its_time_changed() {
    assert!(is_fresh(true, None, Some(1)));
    assert!(is_fresh(true, Some(1), Some(2)));
    assert!(is_fresh(true, Some(1), None));
    assert!(!is_fresh(true, Some(1), Some(1)));
    assert!(!is_fresh(true, None, None));
    assert!(!is_fresh(false, None, Some(1)));
}

#[test]
fn a_fresh_fixed_path_wins_over_a_printed_one() {
    let printed = vec![probe("/gone", false), probe("/printed", true), probe("/other", true)];
    assert_eq!(choose_screenshot("/out", true, &printed, true).ok().as_deref(), Some("/out"));
    assert_eq!(choose_screenshot("/out", false, &printed, true).ok().as_deref(), Some("/printed"));
    let none = vec![probe("/gone", false)];
    assert_eq!(choose_screenshot("/out", false, &none, true).ok().as_deref(), Some("/out"));
    assert_eq!(
        choose_screenshot("/out", false, &none, false).err().as_deref(),
        Some("no PNG at /out and stdout had no valid path")
    );
}

#[test]
fn a_capture_must_have_changed_or_be_there() {
    assert_eq!(choose_capture("/c", None, Some(1), false).ok().as_deref(), Some("/c"));
    assert_eq!(choose_capture("/c", Some(1), Some(1), true).ok().as_deref(), Some("/c"));
    assert_eq!(
        choose_capture("/c", Some(1), None, false).err().as_deref(),
        Some("no PNG at /c after capture")
    );
}

#[test]
fn waiting_ends_at_the_deadline() {
    let second: u128 = 1_000_000_000;
    assert!(matches!(watch_step("/o", 2, 0, false), Watch::Wait(250)));
    assert!(matches!(watch_step("/o", 2, 2 * second - 1, true), Watch::Settle(200)));
    match watch_step("/o", 2, 2 * second, true) {
        Watch::GiveUp(e) => assert_eq!(e, "no fresh screenshot at /o within 2s (watch mode)"),
        _ => panic!("still waiting"),
    }
    assert!(matches!(watch_step("/o", 0, 0, true), Watch::GiveUp(_)));
}

#[test]
fn the_image_is_chosen_in_order() {
    let asked = Some(probe("/asked", true));
    let missing = Some(probe("/asked", false));
    let last = Some(probe("/last", true));
    let removed = Some(probe("/last", false));
    let fixed = probe("/fixed", true);
    let absent = probe("/fixed", false);
    assert_eq!(resolve_image_path(&asked, &last, &fixed).ok().as_deref(), Some("/asked"));
    assert_eq!(resolve_image_path(&missing, &last, &fixed).ok().as_deref(), Some("/last"));
    assert_eq!(resolve_image_path(&None, &removed, &fixed).ok().as_deref(), Some("/fixed"));
    assert_eq!(resolve_image_path(&None, &None, &fixed).ok().as_deref(), Some("/fixed"));
    assert_eq!(
        resolve_image_path(&missing, &removed, &absent).err().as_deref(),
        Some("no usable image: no valid image_path argument and no screenshot captured yet")
    );
}

use analyze_screen::stagelog::{server_line, Now, StageLog};

fn at(ms: u64) -> Now {
    Now { steady_ns: 5_000_000_000 + ms * 1_000_000, unix_ms: 1_700_000_000_000 + ms }
}

#[test]
fn lines_carry_stamp_request_and_stage() {
    let (mut log, line) = StageLog::new("req-1", at(0));
    assert_eq!(line, "[2023-11-14T22:13:20.000Z] [req-1] [request] start");
    assert_eq!(log.note("hello", at(1)), "[2023-11-14T22:13:20.001Z] [req-1] [request] hello");
    assert_eq!(
        log.stage("agent_turn", at(10)),
        vec!["[2023-11-14T22:13:20.010Z] [req-1] [agent_turn] start"]
    );
    assert_eq!(
        log.note("x", at(11)),
        "[2023-11-14T22:13:20.011Z] [req-1] [agent_turn] x"
    );
    assert_eq!(
        log.stage("validate", at(1510)),
        vec![
            "[2023-11-14T22:13:21.510Z] [req-1] [agent_turn] done in 1500 ms",
            "[2023-11-14T22:13:21.510Z] [req-1] [validate] start",
        ]
    );
}

#[test]
fn the_timings_list_all_stages_and_the_total() {
    let (mut log, _) = StageLog::new("req-2", at(0));
    log.stage("agent_turn", at(3));
    log.stage("validate", at(1003));
    let (timings, lines) = log.finish(at(1005));
    assert_eq!(timings, "{\"agent_turn\":1000,\"validate\":2,\"total\":1005}");
    assert_eq!(
        lines,
        vec![
            "[2023-11-14T22:13:21.005Z] [req-2] [validate] done in 2 ms",
            "[2023-11-14T22:13:21.005Z] [req-2] [request] done in 1005 ms",
        ]
    );
}

#[test]
fn a_request_without_stages_has_a_total() {
    let (log, _) = StageLog::new("r", at(0));
    let (timings, lines) = log.finish(at(0));
    assert_eq!(timings, "{\"total\":0}");
    assert_eq!(lines.len(), 1);
}

#[test]
fn stages_add_up_to_no_more_than_the_total() {
    let (mut log, _) = StageLog::new("r", at(0));
    let half = |ms: u64| Now { steady_ns: at(ms).steady_ns + 600_000, unix_ms: at(ms).unix_ms };
    log.stage("a", half(0));
    log.stage("b", half(1));
    let (timings, _) = log.finish(half(3));
    assert_eq!(timings, "{\"a\":1,\"b\":2,\"total\":3}");
}

#[test]
fn whole_seconds_are_counted() {
    let (log, _) = StageLog::new("r", at(0));
    assert_eq!(log.elapsed_secs(at(999)), 0);
    assert_eq!(log.elapsed_secs(at(1000)), 1);
    assert_eq!(log.elapsed_secs(at(150_999)), 150);
    assert_eq!(log.elapsed_ns(at(150_999)), 150_999_000_000);
}

#[test]
fn a_steady_clock_that_stands_still_counts_nothing() {
    let (log, _) = StageLog::new("r", at(5));
    assert_eq!(log.elapsed_secs(at(0)), 0);
    assert_eq!(log.elapsed_ns(at(0)), 0);
    assert_eq!(log.finish(at(0)).0, "{\"total\":0}");
}

#[test]
fn the_server_logs_under_its_own_name() {
    assert_eq!(
        server_line("tool call: screenshot", Now { steady_ns: 0, unix_ms: 0 }),
        "[1970-01-01T00:00:00.000Z] [tv-screen-tools] tool call: screenshot\n"
    );
}

//! Per-stage latency logging: every stage of a request gives log lines with a
//! timestamp, and the timings of all stages go to the client as one header.

use crate::text::{cat3, contents, decimal, decimal_text, join, joined};
use vstd::prelude::*;
use vstd::string::StringExecFns;

verus! {

/// The first millisecond after the year 9999.
pub const END_OF_TIME_MS: u64 = 253_402_300_800_000;

/// The timestamp that `humantime::format_rfc3339_millis` gives for a time in
/// milliseconds since the Unix epoch.
pub uninterp spec fn rfc3339(unix_ms: u64) -> Seq<char>;

/// `humantime::format_rfc3339_millis`, which formats a time in UTC. It has no
/// text for times after the year 9999.
#[verifier::external_body]
fn rfc3339_millis(unix_ms: u64) -> (r: String)
    requires
        unix_ms < END_OF_TIME_MS,
    ensures
        r@ == rfc3339(unix_ms),
{
    let at = std::time::UNIX_EPOCH + std::time::Duration::from_millis(unix_ms);
    humantime::format_rfc3339_millis(at).to_string()
}

/// A reading of the two clocks: the steady one in nanoseconds since some
/// origin, and the calendar in milliseconds since the Unix epoch.
#[derive(Clone, Copy)]
pub struct Now {
    pub steady_ns: u64,
    pub unix_ms: u64,
}

impl Now {
    /// The calendar has a timestamp for this reading.
    pub open spec fn valid(self) -> bool {
        self.unix_ms < END_OF_TIME_MS
    }
}

/// The nanoseconds from one reading of the steady clock to another, none if
/// the clock did not advance.
pub open spec fn ns_between(from: nat, to: nat) -> nat {
    if from <= to {
        (to - from) as nat
    } else {
        0
    }
}

/// The whole milliseconds from one reading of the steady clock to another,
/// none if the clock did not advance.
pub open spec fn ms_between(from: nat, to: nat) -> nat {
    if from <= to {
        ((to - from) as nat) / 1_000_000
    } else {
        0
    }
}

fn elapsed_ms(from: u64, to: u64) -> (r: u64)
    ensures
        r == ms_between(from as nat, to as nat),
{
    if from <= to {
        (to - from) / 1_000_000
    } else {
        0
    }
}

/// A log line: timestamp, request, stage, each in brackets, and a message.
pub open spec fn line_text(
    unix_ms: u64,
    request_id: Seq<char>,
    stage: Seq<char>,
    message: Seq<char>,
) -> Seq<char> {
    "["@ + rfc3339(unix_ms) + "] ["@ + request_id + "] ["@ + stage + "] "@ + message
}

fn log_line(unix_ms: u64, request_id: &str, stage: &str, message: &str) -> (r: String)
    requires
        unix_ms < END_OF_TIME_MS,
    ensures
        r@ == line_text(unix_ms, request_id@, stage@, message@),
{
    let stamp = rfc3339_millis(unix_ms);
    let mut s = cat3("[", stamp.as_str(), "] [");
    s.append(request_id);
    s.append("] [");
    s.append(stage);
    s.append("] ");
    s.append(message);
    s
}

/// A line of the tool server's own log, which belongs to no request.
pub fn server_line(message: &str, now: Now) -> (r: String)
    requires
        now.valid(),
    ensures
        r@ == "["@ + rfc3339(now.unix_ms) + "] [tv-screen-tools] "@ + message@ + "\n"@,
{
    let stamp = rfc3339_millis(now.unix_ms);
    let mut s = cat3("[", stamp.as_str(), "] [tv-screen-tools] ");
    s.append(message);
    s.append("\n");
    s
}

/// "done in ... ms"
pub open spec fn done_text(ms: nat) -> Seq<char> {
    "done in "@ + decimal(ms) + " ms"@
}

fn done_message(ms: u64) -> (r: String)
    ensures
        r@ == done_text(ms as nat),
{
    let d = decimal_text(ms as u128);
    cat3("done in ", d.as_str(), " ms")
}

/// The log of one request.
pub ghost struct LogView {
    pub request_id: Seq<char>,
    /// When the request began.
    pub started: nat,
    /// The open stage and when it began.
    pub stage: Option<(Seq<char>, nat)>,
    /// The closed stages, in order, and how many milliseconds each took.
    pub timings: Seq<(Seq<char>, nat)>,
}

/// The log with its open stage closed.
pub open spec fn closed(log: LogView, now: nat) -> LogView {
    match log.stage {
        Some((name, at)) => LogView {
            stage: None,
            timings: log.timings.push((name, ms_between(at, now))),
            ..log
        },
        None => log,
    }
}

/// The lines for closing the open stage.
pub open spec fn closing_lines(log: LogView, now: Now) -> Seq<Seq<char>> {
    match log.stage {
        Some((name, at)) => seq![
            line_text(
                now.unix_ms,
                log.request_id,
                name,
                done_text(ms_between(at, now.steady_ns as nat)),
            ),
        ],
        None => seq![],
    }
}

/// `"name":ms`
pub open spec fn timing_text(name: Seq<char>, ms: nat) -> Seq<char> {
    "\""@ + name + "\":"@ + decimal(ms)
}

/// The timings of all stages and the total: `{"stage":ms,...,"total":ms}`.
pub open spec fn timings_text(timings: Seq<(Seq<char>, nat)>, total: nat) -> Seq<char> {
    let parts = timings.map_values(|t: (Seq<char>, nat)| timing_text(t.0, t.1)).push(
        timing_text("total"@, total),
    );
    "{"@ + joined(parts, ","@) + "}"@
}

/// The log of one request.
pub struct StageLog {
    request_id: String,
    started: u64,
    stage_started: Option<(String, u64)>,
    timings_ms: Vec<(String, u64)>,
}

impl View for StageLog {
    type V = LogView;

    closed spec fn view(&self) -> LogView {
        LogView {
            request_id: self.request_id@,
            started: self.started as nat,
            stage: match self.stage_started {
                Some((name, at)) => Some((name@, at as nat)),
                None => None,
            },
            timings: self.timings_ms@.map_values(|t: (String, u64)| (t.0@, t.1 as nat)),
        }
    }
}

impl StageLog {
    /// Begins the log of a request; gives the line that says so.
    pub fn new(request_id: &str, now: Now) -> (r: (StageLog, String))
        requires
            now.valid(),
        ensures
            r.0@ == (LogView {
                request_id: request_id@,
                started: now.steady_ns as nat,
                stage: None,
                timings: seq![],
            }),
            r.1@ == line_text(now.unix_ms, request_id@, "request"@, "start"@),
    {
        let line = log_line(now.unix_ms, request_id, "request", "start");
        let log = StageLog {
            request_id: request_id.to_owned(),
            started: now.steady_ns,
            stage_started: None,
            timings_ms: Vec::new(),
        };
        assert(log@.timings =~= seq![]);
        (log, line)
    }

    /// Closes the open stage and opens the stage `name`; gives the lines that
    /// say so.
    pub fn stage(&mut self, name: &str, now: Now) -> (lines: Vec<String>)
        requires
            now.valid(),
        ensures
            final(self)@ == (LogView {
                stage: Some((name@, now.steady_ns as nat)),
                ..closed(old(self)@, now.steady_ns as nat)
            }),
            contents(lines@) == closing_lines(old(self)@, now).push(
                line_text(now.unix_ms, old(self)@.request_id, name@, "start"@),
            ),
    {
        let mut lines = self.end_stage(now);
        let ghost before = contents(lines@);
        let line = log_line(now.unix_ms, self.request_id.as_str(), name, "start");
        lines.push(line);
        self.stage_started = Some((name.to_owned(), now.steady_ns));
        assert(contents(lines@) =~= before.push(line@));
        lines
    }

    /// The line of a note, filed under the open stage.
    pub fn note(&self, msg: &str, now: Now) -> (line: String)
        requires
            now.valid(),
        ensures
            line@ == line_text(
                now.unix_ms,
                self@.request_id,
                match self@.stage {
                    Some((name, _)) => name,
                    None => "request"@,
                },
                msg@,
            ),
    {
        match &self.stage_started {
            Some((name, _)) => log_line(
                now.unix_ms,
                self.request_id.as_str(),
                name.as_str(),
                msg,
            ),
            None => log_line(now.unix_ms, self.request_id.as_str(), "request", msg),
        }
    }

    /// Closes the open stage, if there is one; gives the line that says so.
    fn end_stage(&mut self, now: Now) -> (lines: Vec<String>)
        requires
            now.valid(),
        ensures
            final(self)@ == closed(old(self)@, now.steady_ns as nat),
            contents(lines@) == closing_lines(old(self)@, now),
    {
        let mut lines: Vec<String> = Vec::new();
        match self.stage_started.take() {
            Some((name, at)) => {
                let ms: u64 = elapsed_ms(at, now.steady_ns);
                let message = done_message(ms);
                let line = log_line(
                    now.unix_ms,
                    self.request_id.as_str(),
                    name.as_str(),
                    message.as_str(),
                );
                lines.push(line);
                self.timings_ms.push((name, ms));
                assert(self@.timings =~= closed(old(self)@, now.steady_ns as nat).timings);
            },
            None => {},
        }
        assert(contents(lines@) =~= closing_lines(old(self)@, now));
        lines
    }

    /// The nanoseconds since the request began.
    pub fn elapsed_ns(&self, now: Now) -> (r: u64)
        ensures
            r == ns_between(self@.started, now.steady_ns as nat),
    {
        if self.started <= now.steady_ns {
            now.steady_ns - self.started
        } else {
            0
        }
    }

    /// The whole seconds since the request began.
    pub fn elapsed_secs(&self, now: Now) -> (r: u64)
        ensures
            r == ns_between(self@.started, now.steady_ns as nat) / 1_000_000_000,
    {
        self.elapsed_ns(now) / 1_000_000_000
    }

    /// Closes the open stage; gives the timings of all stages and of the whole
    /// request, and the lines that say so.
    pub fn finish(self, now: Now) -> (r: (String, Vec<String>))
        requires
            now.valid(),
        ensures
            r.0@ == timings_text(
                closed(self@, now.steady_ns as nat).timings,
                ms_between(self@.started, now.steady_ns as nat),
            ),
            contents(r.1@) == closing_lines(self@, now).push(
                line_text(
                    now.unix_ms,
                    self@.request_id,
                    "request"@,
                    done_text(ms_between(self@.started, now.steady_ns as nat)),
                ),
            ),
    {
        let mut log = self;
        let mut lines = log.end_stage(now);
        let ghost before = contents(lines@);
        let total: u64 = elapsed_ms(log.started, now.steady_ns);
        let message = done_message(total);
        let line = log_line(now.unix_ms, log.request_id.as_str(), "request", message.as_str());
        lines.push(line);
        assert(contents(lines@) =~= before.push(line@));
        let ghost timings = log@.timings;
        let ghost texts = timings.map_values(|t: (Seq<char>, nat)| timing_text(t.0, t.1));
        let mut parts: Vec<String> = Vec::new();
        let mut i: usize = 0;
        while i < log.timings_ms.len()
            invariant
                0 <= i <= log.timings_ms.len(),
                timings == log@.timings,
                timings.len() == log.timings_ms.len(),
                texts == timings.map_values(|t: (Seq<char>, nat)| timing_text(t.0, t.1)),
                contents(parts@) == texts.take(i as int),
            decreases log.timings_ms.len() - i,
        {
            let part = timing(log.timings_ms[i].0.as_str(), log.timings_ms[i].1);
            let ghost done = contents(parts@);
            assert(timings[i as int].0 == log.timings_ms@[i as int].0@);
            parts.push(part);
            assert(contents(parts@) =~= done.push(part@));
            assert(texts.take(i + 1) =~= texts.take(i as int).push(texts[i as int]));
            i = i + 1;
        }
        let part = timing("total", total);
        let ghost done = contents(parts@);
        assert(texts.take(texts.len() as int) == texts);
        parts.push(part);
        assert(contents(parts@) =~= done.push(part@));
        let inner = join(&parts, ",");
        (cat3("{", inner.as_str(), "}"), lines)
    }
}

fn timing(name: &str, ms: u64) -> (r: String)
    ensures
        r@ == timing_text(name@, ms as nat),
{
    let d = decimal_text(ms as u128);
    let mut s = cat3("\"", name, "\":");
    s.append(d.as_str());
    s
}

// ---------------------------------------------------------------------------
// Laws

/// The milliseconds of all closed stages together.
pub open spec fn sum_ms(timings: Seq<(Seq<char>, nat)>) -> nat
    decreases timings.len(),
{
    if timings.len() == 0 {
        0
    } else {
        sum_ms(timings.drop_last()) + timings.last().1
    }
}

/// The closed stages fit into the time before the open one began. A log
/// without an open stage has no closed ones.
pub open spec fn accounted(log: LogView) -> bool {
    match log.stage {
        Some((_, at)) => log.started <= at && sum_ms(log.timings) * 1_000_000 <= at - log.started,
        None => log.timings.len() == 0,
    }
}

/// The steady clock has not gone back since the log's last reading of it.
pub open spec fn not_before(log: LogView, now: nat) -> bool {
    &&& log.started <= now
    &&& log.stage matches Some((_, at)) ==> at <= now
}

proof fn lemma_closing(log: LogView, now: nat)
    requires
        accounted(log),
        not_before(log, now),
    ensures
        sum_ms(closed(log, now).timings) * 1_000_000 <= now - log.started,
{
    if let Some((name, at)) = log.stage {
        let ms = ms_between(at, now);
        let after = log.timings.push((name, ms));
        assert(after.drop_last() =~= log.timings);
        assert(ms * 1_000_000 <= now - at);
        assert(sum_ms(after) == sum_ms(log.timings) + ms);
    }
}

/// A log begins accounted for, and opening a stage keeps it so.
pub proof fn law_stage_keeps_accounted(log: LogView, name: Seq<char>, now: nat)
    requires
        accounted(log),
        not_before(log, now),
    ensures
        accounted(LogView { stage: Some((name, now)), ..closed(log, now) }),
        accounted(
            LogView {
                request_id: log.request_id,
                started: log.started,
                stage: None,
                timings: seq![],
            },
        ),
{
    lemma_closing(log, now);
}

/// The timings of all stages together are never more than the total.
pub proof fn law_stages_within_total(log: LogView, now: nat)
    requires
        accounted(log),
        not_before(log, now),
    ensures
        sum_ms(closed(log, now).timings) <= ms_between(log.started, now),
{
    lemma_closing(log, now);
}

/// Milliseconds are whole ones, rounded down; a clock that did not advance
/// counts none.
pub proof fn law_milliseconds(from: nat, to: nat)
    ensures
        from <= to ==> ms_between(from, to) * 1_000_000 <= to - from < (ms_between(from, to) + 1)
            * 1_000_000,
        from > to ==> ms_between(from, to) == 0,
        from <= to ==> from + ns_between(from, to) == to,
        from > to ==> ns_between(from, to) == 0,
{
}

/// Closing a stage files its name and how long it took behind the earlier
/// stages, says so in one line, and changes nothing else.
pub proof fn law_stage_closed(log: LogView, name: Seq<char>, at: nat, now: Now)
    ensures
        log.stage == Some((name, at)) ==> {
            let after = closed(log, now.steady_ns as nat);
            let ms = ms_between(at, now.steady_ns as nat);
            &&& after.timings == log.timings.push((name, ms))
            &&& after.stage is None
            &&& after.started == log.started && after.request_id == log.request_id
            &&& closing_lines(log, now) == seq![
                "["@ + rfc3339(now.unix_ms) + "] ["@ + log.request_id + "] ["@ + name + "] "@ + (
                "done in "@ + decimal(ms) + " ms"@),
            ]
        },
        log.stage is None ==> closed(log, now.steady_ns as nat) == log && closing_lines(
            log,
            now,
        ).len() == 0,
{
}

/// A line names its time, request and stage before its message.
pub proof fn law_line(unix_ms: u64, id: Seq<char>, stage: Seq<char>, message: Seq<char>)
    ensures
        line_text(unix_ms, id, stage, message) == "["@ + rfc3339(unix_ms) + "] ["@ + id + "] ["@
            + stage + "] "@ + message,
{
}

/// The timings are one object: each stage in its order with its milliseconds,
/// and the total at the end.
pub proof fn law_timings(
    timings: Seq<(Seq<char>, nat)>,
    total: nat,
    parts: Seq<Seq<char>>,
)
    requires
        parts.len() == timings.len() + 1,
        forall|i: int|
            0 <= i < timings.len() ==> #[trigger] parts[i] == "\""@ + timings[i].0 + "\":"@
                + decimal(timings[i].1),
        parts.last() == "\""@ + "total"@ + "\":"@ + decimal(total),
    ensures
        timings_text(timings, total) == "{"@ + joined(parts, ","@) + "}"@,
{
    assert(parts =~= timings.map_values(
        |t: (Seq<char>, nat)| timing_text(t.0, t.1),
    ).push(timing_text("total"@, total)));
}

} // verus!

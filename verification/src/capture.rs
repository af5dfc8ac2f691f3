//! Decisions around taking a screenshot: how a run of the capture binary
//! ended, which file it left, and which image an analysis uses.

use crate::config::{opt_view, ScreenshotConfig};
use crate::text::{
    all_white, cat2, cat3, cat4, contents, copy_texts, decimal, decimal_text, joined, law_lines,
    law_lines_reversed, lemma_blank, lines_reversed, nonblank_reversed, split_lines, trim, trimmed,
};
use crate::vlm::text_result;
use vstd::prelude::*;
use vstd::string::StringExecFns;
use vstd::utf8::{decode_utf8, valid_utf8};

verus! {

/// What `String::from_utf8_lossy` makes of bytes.
pub uninterp spec fn utf8_lossy(bytes: Seq<u8>) -> Seq<char>;

/// `String::from_utf8_lossy`: the text that valid UTF-8 encodes; what is not
/// valid is replaced.
#[verifier::external_body]
fn lossy_text(bytes: &[u8]) -> (r: String)
    ensures
        r@ == utf8_lossy(bytes@),
        valid_utf8(bytes@) ==> r@ == decode_utf8(bytes@),
{
    String::from_utf8_lossy(bytes).into_owned()
}

// ---------------------------------------------------------------------------
// The run of the binary

/// How a run of the capture binary ended.
pub enum Exit {
    /// It could not be started.
    SpawnFailed(String),
    /// It could not be waited for.
    WaitFailed(String),
    /// It took too long.
    TimedOut,
    /// Its output could not be read.
    OutputFailed(String),
    /// It ended by itself.
    Exited { success: bool, status: String, stdout: Vec<u8>, stderr: Vec<u8> },
}

/// What is said of a run that did not succeed; `what` is what the binary is
/// called.
pub open spec fn exit_error(
    what: Seq<char>,
    bin: Seq<char>,
    timeout_secs: nat,
    exit: Exit,
) -> Option<Seq<char>> {
    match exit {
        Exit::SpawnFailed(e) => Some("failed to spawn "@ + bin + ": "@ + e@),
        Exit::WaitFailed(e) => Some("wait failed: "@ + e@),
        Exit::TimedOut => Some(what + " timed out after "@ + decimal(timeout_secs) + "s"@),
        Exit::OutputFailed(e) => Some("read output failed: "@ + e@),
        Exit::Exited { success, status, stdout, stderr } => if success {
            None
        } else {
            Some(what + " exited with "@ + status@ + ": "@ + trimmed(utf8_lossy(stderr@)))
        },
    }
}

/// What a successful run wrote to its standard output, or what is said of the
/// run.
pub fn exit_output(what: &str, bin: &str, timeout_secs: u64, exit: Exit) -> (r: Result<
    Vec<u8>,
    String,
>)
    ensures
        match r {
            Ok(bytes) => {
                &&& exit_error(what@, bin@, timeout_secs as nat, exit) is None
                &&& exit matches Exit::Exited { stdout, .. } && bytes == stdout
            },
            Err(e) => exit_error(what@, bin@, timeout_secs as nat, exit) == Some(e@),
        },
{
    match exit {
        Exit::SpawnFailed(e) => Err(cat4("failed to spawn ", bin, ": ", e.as_str())),
        Exit::WaitFailed(e) => Err(cat2("wait failed: ", e.as_str())),
        Exit::TimedOut => {
            let secs = decimal_text(timeout_secs as u128);
            Err(cat4(what, " timed out after ", secs.as_str(), "s"))
        },
        Exit::OutputFailed(e) => Err(cat2("read output failed: ", e.as_str())),
        Exit::Exited { success, status, stdout, stderr } => {
            if success {
                return Ok(stdout);
            }
            let text = lossy_text(stderr.as_slice());
            let said = trim(text.as_str());
            let mut s = cat4(what, " exited with ", status.as_str(), ": ");
            s.append(said.as_str());
            Err(s)
        },
    }
}

/// How a screenshot is taken.
pub enum Plan {
    /// By waiting for it.
    Watch,
    /// By running a binary.
    Run { bin: String, args: Vec<String> },
    /// Not at all, and why.
    Refuse(String),
}

/// Decides how a screenshot is taken.
pub fn plan_screenshot(cfg: &ScreenshotConfig) -> (r: Plan)
    ensures
        match r {
            Plan::Watch => cfg.watch,
            Plan::Run { bin, args } => {
                &&& !cfg.watch
                &&& opt_view(cfg.bin) == Some(bin@)
                &&& contents(args@) == contents(cfg.args@)
            },
            Plan::Refuse(e) => {
                &&& !cfg.watch
                &&& opt_view(cfg.bin) is None
                &&& e@ == "SCREENSHOT_BIN is not configured"@
            },
        },
{
    if cfg.watch {
        return Plan::Watch;
    }
    match &cfg.bin {
        Some(bin) => Plan::Run { bin: bin.clone(), args: copy_texts(&cfg.args) },
        None => Plan::Refuse("SCREENSHOT_BIN is not configured".to_owned()),
    }
}

/// The paths that a binary may have printed: the lines of its output that are
/// not blank, without the white space around them, the last one first.
pub open spec fn printed_view(stdout: Seq<u8>) -> Seq<Seq<char>> {
    nonblank_reversed(split_lines(utf8_lossy(stdout)))
}

/// The paths that a run of the screenshot binary may have printed, or what is
/// said of the run.
pub fn screenshot_ran(bin: &str, timeout_secs: u64, exit: Exit) -> (r: Result<Vec<String>, String>)
    ensures
        match r {
            Ok(paths) => {
                &&& exit_error("screenshot binary"@, bin@, timeout_secs as nat, exit) is None
                &&& exit matches Exit::Exited { stdout, .. } && contents(paths@) == printed_view(
                    stdout@,
                )
            },
            Err(e) => exit_error("screenshot binary"@, bin@, timeout_secs as nat, exit) == Some(
                e@,
            ),
        },
{
    match exit_output("screenshot binary", bin, timeout_secs, exit) {
        Ok(stdout) => {
            let text = lossy_text(stdout.as_slice());
            Ok(lines_reversed(text.as_str()))
        },
        Err(e) => Err(e),
    }
}

// ---------------------------------------------------------------------------
// The file

/// A path, and whether a file stands there.
pub struct Probe {
    pub path: String,
    pub is_file: bool,
}

fn same_time(a: Option<i128>, b: Option<i128>) -> (r: bool)
    ensures
        r == (a == b),
{
    match a {
        Some(x) => match b {
            Some(y) => x == y,
            None => false,
        },
        None => match b {
            Some(_) => false,
            None => true,
        },
    }
}

/// A file is fresh where it stands there and its modification time is not what
/// it was before.
pub fn is_fresh(is_file: bool, before: Option<i128>, after: Option<i128>) -> (r: bool)
    ensures
        r == (is_file && after != before),
{
    is_file && !same_time(after, before)
}

/// The first path at which a file stands.
pub open spec fn first_file(probes: Seq<Probe>) -> Option<Seq<char>>
    decreases probes.len(),
{
    if probes.len() == 0 {
        None
    } else if probes[0].is_file {
        Some(probes[0].path@)
    } else {
        first_file(probes.drop_first())
    }
}

fn find_file(probes: &Vec<Probe>) -> (r: Option<String>)
    ensures
        opt_view(r) == first_file(probes@),
{
    let mut i: usize = 0;
    assert(probes@.skip(0) == probes@);
    while i < probes.len()
        invariant
            0 <= i <= probes.len(),
            first_file(probes@) == first_file(probes@.skip(i as int)),
        decreases probes.len() - i,
    {
        assert(probes@.skip(i as int).drop_first() == probes@.skip(i + 1));
        if probes[i].is_file {
            return Some(probes[i].path.clone());
        }
        i = i + 1;
    }
    None
}

/// The file that a run of the screenshot binary left: the fixed output path
/// where it is fresh, else the path that the binary printed, else the fixed
/// path where there is a file at all.
pub open spec fn screenshot_choice(
    output: Seq<char>,
    fresh: bool,
    printed: Seq<Probe>,
    present: bool,
) -> Result<Seq<char>, Seq<char>> {
    if fresh {
        Ok(output)
    } else if let Some(path) = first_file(printed) {
        Ok(path)
    } else if present {
        Ok(output)
    } else {
        Err("no PNG at "@ + output + " and stdout had no valid path"@)
    }
}

/// Chooses the file that a run of the screenshot binary left.
pub fn choose_screenshot(output: &str, fresh: bool, printed: &Vec<Probe>, present: bool) -> (r:
    Result<String, String>)
    ensures
        text_result(r) == screenshot_choice(output@, fresh, printed@, present),
        r is Err <==> !fresh && !present && forall|i: int|
            0 <= i < printed.len() ==> !(#[trigger] printed[i]).is_file,
{
    proof {
        law_screenshot_found(output@, fresh, printed@, present, 0);
    }
    if fresh {
        return Ok(output.to_owned());
    }
    match find_file(printed) {
        Some(path) => Ok(path),
        None => {
            if present {
                Ok(output.to_owned())
            } else {
                Err(cat3("no PNG at ", output, " and stdout had no valid path"))
            }
        },
    }
}

/// The file that the tool's capture left: the output path where its
/// modification time has changed, or where there is a file at all.
pub open spec fn capture_choice(
    output: Seq<char>,
    before: Option<i128>,
    after: Option<i128>,
    is_file: bool,
) -> Result<Seq<char>, Seq<char>> {
    if (after is Some && after != before) || is_file {
        Ok(output)
    } else {
        Err("no PNG at "@ + output + " after capture"@)
    }
}

/// Chooses the file that the tool's capture left.
pub fn choose_capture(
    output: &str,
    before: Option<i128>,
    after: Option<i128>,
    is_file: bool,
) -> (r: Result<String, String>)
    ensures
        text_result(r) == capture_choice(output@, before, after, is_file),
{
    if after.is_some() && !same_time(after, before) {
        return Ok(output.to_owned());
    }
    if is_file {
        return Ok(output.to_owned());
    }
    Err(cat3("no PNG at ", output, " after capture"))
}

// ---------------------------------------------------------------------------
// Waiting for a screenshot

/// What to do while waiting for a screenshot.
pub enum Watch {
    /// Look again in so many milliseconds.
    Wait(u64),
    /// The screenshot is there; give its writer so many milliseconds.
    Settle(u64),
    /// Give up.
    GiveUp(String),
}

/// What is said where no screenshot appeared in time.
pub open spec fn gave_up(output: Seq<char>, timeout_secs: nat) -> Seq<char> {
    "no fresh screenshot at "@ + output + " within "@ + decimal(timeout_secs) + "s (watch mode)"@
}

/// Decides how to go on waiting, `elapsed_ns` after the waiting began.
pub fn watch_step(output: &str, timeout_secs: u64, elapsed_ns: u128, fresh: bool) -> (r: Watch)
    ensures
        match r {
            Watch::GiveUp(e) => {
                &&& elapsed_ns >= timeout_secs * 1_000_000_000
                &&& e@ == gave_up(output@, timeout_secs as nat)
            },
            Watch::Settle(ms) => elapsed_ns < timeout_secs * 1_000_000_000 && fresh && ms == 200,
            Watch::Wait(ms) => elapsed_ns < timeout_secs * 1_000_000_000 && !fresh && ms == 250,
        },
{
    if elapsed_ns >= (timeout_secs as u128) * 1_000_000_000 {
        let secs = decimal_text(timeout_secs as u128);
        let mut s = cat4("no fresh screenshot at ", output, " within ", secs.as_str());
        s.append("s (watch mode)");
        return Watch::GiveUp(s);
    }
    if fresh {
        Watch::Settle(200)
    } else {
        Watch::Wait(250)
    }
}

// ---------------------------------------------------------------------------
// The image to analyze

/// The image to analyze: the path that the caller gave where a file stands
/// there, else the last screenshot, else the fixed output path.
pub open spec fn image_choice(asked: Option<Probe>, last: Option<Probe>, fixed: Probe) -> Result<
    Seq<char>,
    Seq<char>,
> {
    if asked is Some && asked->0.is_file {
        Ok(asked->0.path@)
    } else if last is Some && last->0.is_file {
        Ok(last->0.path@)
    } else if fixed.is_file {
        Ok(fixed.path@)
    } else {
        Err("no usable image: no valid image_path argument and no screenshot captured yet"@)
    }
}

/// Chooses the image to analyze.
pub fn resolve_image_path(asked: &Option<Probe>, last: &Option<Probe>, fixed: &Probe) -> (r: Result<
    String,
    String,
>)
    ensures
        text_result(r) == image_choice(*asked, *last, *fixed),
{
    if let Some(p) = asked {
        if p.is_file {
            return Ok(p.path.clone());
        }
    }
    if let Some(p) = last {
        if p.is_file {
            return Ok(p.path.clone());
        }
    }
    if fixed.is_file {
        return Ok(fixed.path.clone());
    }
    Err(
        "no usable image: no valid image_path argument and no screenshot captured yet".to_owned(),
    )
}

// ---------------------------------------------------------------------------
// Laws

/// The first file of a list is one of its paths, a file, and no file comes
/// before it; there is none exactly where none of the paths is a file.
pub proof fn law_first_file(probes: Seq<Probe>, i: int)
    ensures
        0 <= i < probes.len() && probes[i].is_file && (forall|j: int|
            0 <= j < i ==> !(#[trigger] probes[j]).is_file) ==> first_file(probes) == Some(
            probes[i].path@,
        ),
        first_file(probes) is None <==> forall|j: int|
            0 <= j < probes.len() ==> !(#[trigger] probes[j]).is_file,
    decreases probes.len(),
{
    if probes.len() > 0 {
        let rest = probes.drop_first();
        law_first_file(rest, i - 1);
        if !probes[0].is_file {
            if 0 < i < probes.len() && (forall|j: int|
                0 <= j < i ==> !(#[trigger] probes[j]).is_file) {
                assert forall|j: int| 0 <= j < i - 1 implies !(#[trigger] rest[j]).is_file by {
                    assert(rest[j] == probes[j + 1]);
                }
                assert(rest[i - 1] == probes[i]);
            }
            if forall|j: int| 0 <= j < rest.len() ==> !(#[trigger] rest[j]).is_file {
                assert forall|j: int| 0 <= j < probes.len() implies !(
                #[trigger] probes[j]).is_file by {
                    if j > 0 {
                        assert(rest[j - 1] == probes[j]);
                    }
                }
            }
            if forall|j: int| 0 <= j < probes.len() ==> !(#[trigger] probes[j]).is_file {
                assert forall|j: int| 0 <= j < rest.len() implies !(#[trigger] rest[j]).is_file by {
                    assert(rest[j] == probes[j + 1]);
                }
            }
        }
    }
}

/// A screenshot is found wherever there is one. Where the fixed path is fresh
/// it is that; otherwise it is the first printed path that is a file, whether
/// or not a file stands at the fixed path; otherwise the fixed path, where a
/// file stands there. The choice fails exactly where there is none of these.
pub proof fn law_screenshot_found(
    output: Seq<char>,
    fresh: bool,
    printed: Seq<Probe>,
    present: bool,
    i: int,
)
    ensures
        fresh ==> screenshot_choice(output, fresh, printed, present) == Ok::<
            Seq<char>,
            Seq<char>,
        >(output),
        !fresh && 0 <= i < printed.len() && printed[i].is_file && (forall|j: int|
            0 <= j < i ==> !(#[trigger] printed[j]).is_file) ==> screenshot_choice(
            output,
            fresh,
            printed,
            present,
        ) == Ok::<Seq<char>, Seq<char>>(printed[i].path@),
        !fresh && present && (forall|j: int|
            0 <= j < printed.len() ==> !(#[trigger] printed[j]).is_file) ==> screenshot_choice(
            output,
            fresh,
            printed,
            present,
        ) == Ok::<Seq<char>, Seq<char>>(output),
        screenshot_choice(output, fresh, printed, present) is Err <==> !fresh && !present && (
        forall|j: int| 0 <= j < printed.len() ==> !(#[trigger] printed[j]).is_file),
        screenshot_choice(output, fresh, printed, present) matches Err(e) ==> e == "no PNG at "@
            + output + " and stdout had no valid path"@,
{
    law_first_file(printed, i);
}

/// The tool's capture is its output path wherever the path was written to or a
/// file stands there, and otherwise it fails.
pub proof fn law_capture_found(
    output: Seq<char>,
    before: Option<i128>,
    after: Option<i128>,
    is_file: bool,
)
    ensures
        is_file ==> capture_choice(output, before, after, is_file) == Ok::<Seq<char>, Seq<char>>(
            output,
        ),
        after is Some && before is None ==> capture_choice(output, before, after, is_file) == Ok::<
            Seq<char>,
            Seq<char>,
        >(output),
        after is Some && before is Some && after->0 != before->0 ==> capture_choice(
            output,
            before,
            after,
            is_file,
        ) == Ok::<Seq<char>, Seq<char>>(output),
        !is_file && (after is None || after == before) ==> capture_choice(
            output,
            before,
            after,
            is_file,
        ) == Err::<Seq<char>, Seq<char>>("no PNG at "@ + output + " after capture"@),
{
}

/// A run of a binary succeeds exactly where it ended by itself and well; each
/// other end is told apart.
pub proof fn law_exit_error(what: Seq<char>, bin: Seq<char>, timeout_secs: nat, exit: Exit)
    ensures
        exit_error(what, bin, timeout_secs, exit) is None <==> (exit matches Exit::Exited {
            success,
            ..
        } && success),
        exit matches Exit::SpawnFailed(e) ==> exit_error(what, bin, timeout_secs, exit) == Some(
            "failed to spawn "@ + bin + ": "@ + e@,
        ),
        exit matches Exit::WaitFailed(e) ==> exit_error(what, bin, timeout_secs, exit) == Some(
            "wait failed: "@ + e@,
        ),
        exit is TimedOut ==> exit_error(what, bin, timeout_secs, exit) == Some(
            what + " timed out after "@ + decimal(timeout_secs) + "s"@,
        ),
        exit matches Exit::OutputFailed(e) ==> exit_error(what, bin, timeout_secs, exit) == Some(
            "read output failed: "@ + e@,
        ),
        exit matches Exit::Exited { success, status, stderr, .. } ==> (!success ==> exit_error(
            what,
            bin,
            timeout_secs,
            exit,
        ) == Some(what + " exited with "@ + status@ + ": "@ + trimmed(utf8_lossy(stderr@)))),
{
}

/// The paths that a binary printed, one to a line, are tried from the last one
/// on, each without the white space around it; blank lines are no paths.
pub proof fn law_printed_paths(lines: Seq<Seq<char>>, last: Seq<char>, stdout: Seq<u8>)
    requires
        forall|i: int| 0 <= i < lines.len() ==> !(#[trigger] lines[i]).contains('\n'),
        !last.contains('\n'),
        utf8_lossy(stdout) == joined(lines.push(last), "\n"@),
    ensures
        printed_view(stdout) == (if all_white(last) {
            Seq::<Seq<char>>::empty()
        } else {
            seq![trimmed(last)]
        }) + nonblank_reversed(lines),
{
    let all = lines.push(last);
    assert forall|i: int| 0 <= i < all.len() implies !(#[trigger] all[i]).contains('\n') by {
        if i < lines.len() {
            assert(all[i] == lines[i]);
        }
    }
    law_lines(all);
    law_lines_reversed(lines, seq![last], last);
    assert(lines + seq![last] =~= all);
    lemma_blank(last);
}

/// The image to analyze is the one that was asked for where that is a file,
/// else the last screenshot where that is one, else what stands at the fixed
/// path; and it fails exactly where none of them is a file.
pub proof fn law_image_resolved(asked: Option<Probe>, last: Option<Probe>, fixed: Probe)
    ensures
        asked matches Some(p) && p.is_file ==> image_choice(asked, last, fixed) == Ok::<
            Seq<char>,
            Seq<char>,
        >(asked->0.path@),
        !(asked matches Some(p) && p.is_file) && (last matches Some(q) && q.is_file)
            ==> image_choice(asked, last, fixed) == Ok::<Seq<char>, Seq<char>>(last->0.path@),
        !(asked matches Some(p) && p.is_file) && !(last matches Some(q) && q.is_file)
            && fixed.is_file ==> image_choice(asked, last, fixed) == Ok::<Seq<char>, Seq<char>>(
            fixed.path@,
        ),
        image_choice(asked, last, fixed) is Err <==> !(asked matches Some(p) && p.is_file) && !(
        last matches Some(q) && q.is_file) && !fixed.is_file,
        image_choice(asked, last, fixed) matches Err(e) ==> e
            == "no usable image: no valid image_path argument and no screenshot captured yet"@,
{
}

/// What is said where no screenshot appeared in time.
pub proof fn law_gave_up(output: Seq<char>, timeout_secs: nat)
    ensures
        gave_up(output, timeout_secs) == "no fresh screenshot at "@ + output + " within "@ + decimal(
            timeout_secs,
        ) + "s (watch mode)"@,
{
}

} // verus!

//! The screen-analysis tool: captures the screen and has the vision model
//! describe it, in one step. The image stays inside the tool; only the
//! analysis comes out.

use crate::capture::{capture_choice, choose_capture, exit_error, exit_output, Exit};
use crate::config::{opt_view, AnalyzeScreenConfig, Vars};
use crate::json::{json_parse, json_text, Json, JsonView};
use crate::mcp::schema_view;
use crate::paths::{capture_dir, capture_dir_text};
use crate::picture::ImageFailure;
use crate::text::{all_white, bare, cat2, cat4, repeated, trimmed};
use crate::validate::{conformant, validated};
use crate::vlm::{
    analysis_of, chat_headers, chat_headers_view, chat_request, chat_url, chat_url_text, chat_view,
    data_uri_text, encodable, headers_view, law_good_reply, law_only_good_replies, read_analysis,
    says, text_result,
};
use std::sync::Arc;
use vstd::prelude::*;

verus! {

/// What is said of the tool.
pub const DESCRIPTION: &'static str = "Capture the current TV screen and analyze it in one step. Takes no arguments. \
Returns a JSON object describing the screen: screen_type, title, summary, \
detected_elements, suggested_actions, error.";

/// What the agent may do.
pub struct SecurityPolicy {
    /// Whether it may act at all, or only read.
    pub can_act: bool,
}

/// What the tool gives to the agent.
pub struct ToolResult {
    pub success: bool,
    pub output: String,
    pub error: Option<String>,
}

/// What the tool gives to the agent.
pub ghost struct ResultView {
    pub success: bool,
    pub output: Seq<char>,
    pub error: Option<Seq<char>>,
}

impl View for ToolResult {
    type V = ResultView;

    open spec fn view(&self) -> ResultView {
        ResultView { success: self.success, output: self.output@, error: opt_view(self.error) }
    }
}

/// The tool as it is registered.
pub struct ToolSpec {
    pub name: String,
    pub description: String,
    pub parameters: Json,
}

/// Captures the screen and describes it.
pub struct AnalyzeScreenTool {
    security: Arc<SecurityPolicy>,
    cfg: AnalyzeScreenConfig,
}

/// Why the capture could not be got ready.
pub enum PrepareFailure {
    /// It could not be read.
    Read(String),
    /// The work on it was broken off.
    Task(String),
    /// It could not be decoded, or the downscaled image not encoded.
    Image(ImageFailure),
}

/// A reply of the vision model.
pub struct Reply {
    pub success: bool,
    /// The status with its reason, as it is printed.
    pub status: String,
    pub payload: Json,
}

/// What the tool does next.
pub enum Step {
    /// Run the capture binary, without arguments, in the directory `dir`, for
    /// at most so many seconds; it writes to `output`.
    Capture { bin: String, dir: String, output: String, timeout_secs: u64 },
    /// Look what stands at `output` now.
    Look { output: String },
    /// Read the capture and get it ready.
    Prepare { path: String },
    /// Ask the vision model, for at most so many seconds.
    Ask { url: String, headers: Vec<(String, String)>, body: Json, timeout_secs: u64 },
    /// Give this result to the agent.
    Done(ToolResult),
}

/// What the tool does next.
pub ghost enum StepView {
    Capture { bin: Seq<char>, dir: Seq<char>, output: Seq<char>, timeout_secs: nat },
    Look { output: Seq<char> },
    Prepare { path: Seq<char> },
    Ask {
        url: Seq<char>,
        headers: Seq<(Seq<char>, Seq<char>)>,
        body: JsonView,
        timeout_secs: nat,
    },
    Done(ResultView),
}

impl View for Step {
    type V = StepView;

    open spec fn view(&self) -> StepView {
        match *self {
            Step::Capture { bin, dir, output, timeout_secs } => StepView::Capture {
                bin: bin@,
                dir: dir@,
                output: output@,
                timeout_secs: timeout_secs as nat,
            },
            Step::Look { output } => StepView::Look { output: output@ },
            Step::Prepare { path } => StepView::Prepare { path: path@ },
            Step::Ask { url, headers, body, timeout_secs } => StepView::Ask {
                url: url@,
                headers: headers_view(headers@),
                body: body@,
                timeout_secs: timeout_secs as nat,
            },
            Step::Done(result) => StepView::Done(result@),
        }
    }
}

/// A result that reports a failure.
pub open spec fn failed_view(error: Seq<char>) -> ResultView {
    ResultView { success: false, output: seq![], error: Some(error) }
}

fn failed(error: String) -> (r: Step)
    ensures
        r@ == StepView::Done(failed_view(error@)),
{
    let output = String::new();
    assert(output@ =~= seq![]);
    Step::Done(ToolResult { success: false, output, error: Some(error) })
}

// ---------------------------------------------------------------------------
// The steps

/// An agent that may only read gets no capture. The binary writes into the
/// directory it runs in, so that is the directory of the output, wherever the
/// tool itself runs.
pub open spec fn first_step(can_act: bool, cfg: AnalyzeScreenConfig) -> StepView {
    if can_act {
        StepView::Capture {
            bin: cfg.capture_bin@,
            dir: capture_dir_text(cfg.capture_output@),
            output: cfg.capture_output@,
            timeout_secs: cfg.capture_timeout_secs as nat,
        }
    } else {
        StepView::Done(failed_view("Action blocked: autonomy is read-only"@))
    }
}

/// What the tool does after the capture binary ended.
pub open spec fn after_exit(cfg: AnalyzeScreenConfig, exit: Exit) -> StepView {
    match exit_error(
        "capture binary"@,
        cfg.capture_bin@,
        cfg.capture_timeout_secs as nat,
        exit,
    ) {
        Some(e) => StepView::Done(failed_view("capture failed: "@ + e)),
        None => StepView::Look { output: cfg.capture_output@ },
    }
}

/// What the tool does after it has looked at the output path.
pub open spec fn after_look(
    cfg: AnalyzeScreenConfig,
    before: Option<i128>,
    after: Option<i128>,
    is_file: bool,
) -> StepView {
    match capture_choice(cfg.capture_output@, before, after, is_file) {
        Ok(path) => StepView::Prepare { path },
        Err(e) => StepView::Done(failed_view("capture failed: "@ + e)),
    }
}

/// What is said of a capture that could not be got ready.
pub open spec fn prepare_error(path: Seq<char>, failure: PrepareFailure) -> Seq<char> {
    match failure {
        PrepareFailure::Read(e) => "reading capture at "@ + path + ": "@ + e@,
        PrepareFailure::Task(e) => e@,
        PrepareFailure::Image(ImageFailure::Decode(p)) => p@.chain,
        PrepareFailure::Image(ImageFailure::Encode(p)) => p@.chain,
    }
}

fn prepare_error_text(path: &str, failure: &PrepareFailure) -> (r: String)
    ensures
        r@ == prepare_error(path@, *failure),
{
    match failure {
        PrepareFailure::Read(e) => cat4("reading capture at ", path, ": ", e.as_str()),
        PrepareFailure::Task(e) => e.clone(),
        PrepareFailure::Image(ImageFailure::Decode(p)) => p.chain.clone(),
        PrepareFailure::Image(ImageFailure::Encode(p)) => p.chain.clone(),
    }
}

/// What the tool does with the capture got ready; `api_key` is the key for the
/// vision model, where there is one.
pub open spec fn after_prepare(
    cfg: AnalyzeScreenConfig,
    api_key: Option<Seq<char>>,
    png: Result<Vec<u8>, PrepareFailure>,
) -> StepView {
    match png {
        Err(failure) => StepView::Done(
            failed_view(
                "image prepare failed: "@ + prepare_error(cfg.capture_output@, failure),
            ),
        ),
        Ok(bytes) => if cfg.vlm_base_url@.len() == 0 {
            StepView::Done(failed_view("VLM analysis failed: VLM_BASE_URL is not configured"@))
        } else {
            StepView::Ask {
                url: chat_url_text(cfg.vlm_base_url@),
                headers: chat_headers_view(api_key),
                body: chat_view(cfg.vlm_model@, 400, cfg.vlm_prompt@, data_uri_text(bytes@)),
                timeout_secs: cfg.vlm_timeout_secs as nat,
            }
        },
    }
}

/// The analysis in a reply, or what went wrong with the request.
pub open spec fn reply_analysis(reply: Result<Reply, String>) -> Result<Seq<char>, Seq<char>> {
    match reply {
        Ok(r) => analysis_of(r.success, r.status@, r.payload@),
        Err(e) => Err(e@),
    }
}

/// What the tool gives for a reply.
pub open spec fn result_of(reply: Result<Reply, String>) -> ResultView {
    match reply_analysis(reply) {
        Ok(text) => ResultView { success: true, output: text, error: None },
        Err(e) => failed_view("VLM analysis failed: "@ + e),
    }
}

impl AnalyzeScreenTool {
    /// Whether the agent may act.
    pub closed spec fn can_act(&self) -> bool {
        self.security.can_act
    }

    /// How the tool is configured.
    pub closed spec fn config(&self) -> AnalyzeScreenConfig {
        self.cfg
    }

    /// The tool, configured by the environment.
    pub fn new(security: Arc<SecurityPolicy>, vars: &Vars) -> (r: AnalyzeScreenTool)
        ensures
            r.can_act() == security.can_act,
            r.config().given_by(vars@),
    {
        AnalyzeScreenTool { security, cfg: AnalyzeScreenConfig::from_env(vars) }
    }

    /// The tool, configured as `cfg` says.
    pub fn with_config(security: Arc<SecurityPolicy>, cfg: AnalyzeScreenConfig) -> (r:
        AnalyzeScreenTool)
        ensures
            r.can_act() == security.can_act,
            r.config() == cfg,
    {
        AnalyzeScreenTool { security, cfg }
    }

    /// The tool's name.
    pub fn name(&self) -> (r: &str)
        ensures
            r@ == "analyze_screen"@,
    {
        "analyze_screen"
    }

    /// What is said of the tool.
    pub fn description(&self) -> (r: &str)
        ensures
            r@ == DESCRIPTION@,
    {
        DESCRIPTION
    }

    /// The schema of the tool's arguments: there are none.
    pub fn parameters_schema(&self) -> (r: Json)
        ensures
            r@ == schema_view(Map::empty()),
    {
        Json::object().with("type", Json::string("object")).with(
            "properties",
            Json::object(),
        ).with("required", Json::array())
    }

    /// The tool as it is registered.
    pub fn spec(&self) -> (r: ToolSpec)
        ensures
            r.name@ == "analyze_screen"@,
            r.description@ == DESCRIPTION@,
            r.parameters@ == schema_view(Map::empty()),
    {
        ToolSpec {
            name: self.name().to_owned(),
            description: self.description().to_owned(),
            parameters: self.parameters_schema(),
        }
    }

    /// Begins a run of the tool.
    pub fn execute(&self) -> (r: Step)
        ensures
            r@ == first_step(self.can_act(), self.config()),
    {
        if !self.security.can_act {
            return failed("Action blocked: autonomy is read-only".to_owned());
        }
        Step::Capture {
            bin: self.cfg.capture_bin.clone(),
            dir: capture_dir(self.cfg.capture_output.as_str()),
            output: self.cfg.capture_output.clone(),
            timeout_secs: self.cfg.capture_timeout_secs,
        }
    }

    /// Goes on after the capture binary ended.
    pub fn capture_ran(&self, exit: Exit) -> (r: Step)
        ensures
            r@ == after_exit(self.config(), exit),
    {
        match exit_output(
            "capture binary",
            self.cfg.capture_bin.as_str(),
            self.cfg.capture_timeout_secs,
            exit,
        ) {
            Ok(_) => Step::Look { output: self.cfg.capture_output.clone() },
            Err(e) => failed(cat2("capture failed: ", e.as_str())),
        }
    }

    /// Goes on with what stands at the output path: its modification time
    /// before and after the run, and whether it is a file.
    pub fn capture_found(&self, before: Option<i128>, after: Option<i128>, is_file: bool) -> (r:
        Step)
        ensures
            r@ == after_look(self.config(), before, after, is_file),
    {
        match choose_capture(self.cfg.capture_output.as_str(), before, after, is_file) {
            Ok(path) => Step::Prepare { path },
            Err(e) => failed(cat2("capture failed: ", e.as_str())),
        }
    }

    /// Goes on with the capture got ready; `api_key` is the key for the vision
    /// model, where there is one.
    pub fn prepared(&self, png: &Result<Vec<u8>, PrepareFailure>, api_key: &Option<String>) -> (r:
        Step)
        requires
            *png matches Ok(bytes) ==> encodable(bytes@.len()),
        ensures
            r@ == after_prepare(self.config(), opt_view(*api_key), *png),
    {
        match png {
            Err(failure) => {
                let said = prepare_error_text(self.cfg.capture_output.as_str(), failure);
                failed(cat2("image prepare failed: ", said.as_str()))
            },
            Ok(bytes) => {
                if self.cfg.vlm_base_url.as_str().is_empty() {
                    return failed(
                        "VLM analysis failed: VLM_BASE_URL is not configured".to_owned(),
                    );
                }
                let body = chat_request(
                    self.cfg.vlm_model.as_str(),
                    400,
                    self.cfg.vlm_prompt.as_str(),
                    bytes.as_slice(),
                );
                Step::Ask {
                    url: chat_url(self.cfg.vlm_base_url.as_str()),
                    headers: chat_headers(api_key),
                    body,
                    timeout_secs: self.cfg.vlm_timeout_secs,
                }
            },
        }
    }

    /// Ends a run with the reply of the vision model.
    pub fn answered(&self, reply: &Result<Reply, String>) -> (r: Step)
        ensures
            r@ == StepView::Done(result_of(*reply)),
            r matches Step::Done(t) && (t.success ==> t.error is None && validated(t.output@) is Ok)
                && (!t.success ==> t.error is Some && t.output@.len() == 0),
    {
        let outcome: Result<String, String> = match reply {
            Ok(got) => read_analysis(got.success, got.status.as_str(), &got.payload),
            Err(e) => Err(e.clone()),
        };
        assert(text_result(outcome) == reply_analysis(*reply));
        match outcome {
            Ok(text) => Step::Done(ToolResult { success: true, output: text, error: None }),
            Err(e) => failed(cat2("VLM analysis failed: ", e.as_str())),
        }
    }
}

// ---------------------------------------------------------------------------
// Laws

/// What a run of the tool meets outside: how the capture binary ended, what
/// then stood at the output path, the capture got ready, the key for the
/// vision model, and the reply.
pub ghost struct World {
    pub api_key: Option<Seq<char>>,
    pub exit: Exit,
    pub before: Option<i128>,
    pub after: Option<i128>,
    pub is_file: bool,
    pub png: Result<Vec<u8>, PrepareFailure>,
    pub reply: Result<Reply, String>,
}

/// The steps of a run.
pub open spec fn steps_of(can_act: bool, cfg: AnalyzeScreenConfig, w: World) -> Seq<StepView> {
    let first = first_step(can_act, cfg);
    let second = after_exit(cfg, w.exit);
    let third = after_look(cfg, w.before, w.after, w.is_file);
    let fourth = after_prepare(cfg, w.api_key, w.png);
    if first is Done {
        seq![first]
    } else if second is Done {
        seq![first, second]
    } else if third is Done {
        seq![first, second, third]
    } else if fourth is Done {
        seq![first, second, third, fourth]
    } else {
        seq![first, second, third, fourth, StepView::Done(result_of(w.reply))]
    }
}

/// The result of a run.
pub open spec fn run_result(can_act: bool, cfg: AnalyzeScreenConfig, w: World) -> ResultView {
    steps_of(can_act, cfg, w).last()->Done_0
}

/// A result is either a validated analysis, and nothing else; or an error
/// without any output.
pub open spec fn well_formed(r: ResultView) -> bool {
    if r.success {
        r.error is None && (validated(r.output) matches Ok(v) && conformant(v))
    } else {
        r.error is Some && r.output.len() == 0
    }
}

/// Every run ends with one result: a validated analysis, or an error.
pub proof fn law_run_ends(can_act: bool, cfg: AnalyzeScreenConfig, w: World)
    ensures
        steps_of(can_act, cfg, w).last() is Done,
        forall|i: int|
            0 <= i < steps_of(can_act, cfg, w).len() - 1 ==> !(#[trigger] steps_of(
                can_act,
                cfg,
                w,
            )[i] is Done),
        well_formed(run_result(can_act, cfg, w)),
{
}

/// The capture binary is run once at most, in the directory of its output.
pub proof fn law_one_capture(can_act: bool, cfg: AnalyzeScreenConfig, w: World, i: int)
    requires
        0 <= i < steps_of(can_act, cfg, w).len(),
    ensures
        steps_of(can_act, cfg, w)[i] matches StepView::Capture { bin, dir, output, .. } ==> {
            &&& i == 0
            &&& bin == cfg.capture_bin@
            &&& dir == capture_dir_text(output)
            &&& output == cfg.capture_output@
        },
{
}

/// The capture is used exactly where the binary ended by itself, successfully
/// and in time, and left a file that has changed or is there at all.
pub proof fn law_capture_used(cfg: AnalyzeScreenConfig, w: World)
    ensures
        steps_of(true, cfg, w).contains(StepView::Prepare { path: cfg.capture_output@ }) <==> {
            &&& w.exit matches Exit::Exited { success, .. } && success
            &&& (w.after is Some && w.after != w.before) || w.is_file
        },
        forall|i: int|
            0 <= i < steps_of(true, cfg, w).len() ==> (#[trigger] steps_of(
                true,
                cfg,
                w,
            )[i] matches StepView::Prepare { path } ==> path == cfg.capture_output@),
{
    let steps = steps_of(true, cfg, w);
    if steps.len() > 2 {
        assert(steps[2] == after_look(cfg, w.before, w.after, w.is_file));
    }
}

/// Where the agent may only read, the tool does nothing but refuse.
pub proof fn law_read_only(cfg: AnalyzeScreenConfig, w: World)
    ensures
        steps_of(false, cfg, w) == seq![
            StepView::Done(failed_view("Action blocked: autonomy is read-only"@)),
        ],
{
}

/// The image goes to the vision model and nowhere else: with the same replies,
/// the result does not depend on it.
pub proof fn law_image_stays(
    can_act: bool,
    cfg: AnalyzeScreenConfig,
    w: World,
    one: Vec<u8>,
    other: Vec<u8>,
)
    ensures
        run_result(can_act, cfg, World { png: Ok(one), ..w }) == run_result(
            can_act,
            cfg,
            World { png: Ok(other), ..w },
        ),
{
}

/// A good reply is a success, whole: the analysis that the model gave, bare or
/// in fences, is the output as it is, however long it is.
pub proof fn law_good_reply_succeeds(
    reply: Reply,
    lead: Seq<char>,
    labels: nat,
    marks: nat,
    pad: Seq<char>,
    text: Seq<char>,
    gap: Seq<char>,
    closing: nat,
    tail: Seq<char>,
    v: JsonView,
)
    requires
        reply.success,
        says(
            reply.payload@,
            lead + repeated("```json"@, labels) + repeated("```"@, marks) + pad + text + gap
                + repeated("```"@, closing) + tail,
        ),
        all_white(lead),
        all_white(pad),
        all_white(gap),
        all_white(tail),
        bare(text),
        text.len() > 0,
        text[0] == '{',
        text.last() != '`',
        json_parse(text) == Ok::<JsonView, Seq<char>>(v),
        conformant(v),
    ensures
        result_of(Ok(reply)).success,
        result_of(Ok(reply)).output == text,
        result_of(Ok(reply)).error is None,
{
    law_good_reply(
        reply.payload@,
        reply.status@,
        lead,
        labels,
        marks,
        pad,
        text,
        gap,
        closing,
        tail,
        v,
    );
}

/// A success is what the model said: a stretch of it that parses to an
/// analysis, in a reply with a good status. Anything else is an error that
/// says so, and has no output.
pub proof fn law_success_is_what_was_said(reply: Result<Reply, String>)
    ensures
        result_of(reply).success ==> {
            let out = result_of(reply).output;
            &&& reply matches Ok(r) && r.success && exists|text: Seq<char>, i: int, j: int|
                says(r.payload@, text) && 0 <= i <= j <= text.len() && out
                    == #[trigger] text.subrange(i, j)
            &&& json_parse(trimmed(out)) matches Ok(v) && conformant(v)
            &&& result_of(reply).error is None
        },
        !result_of(reply).success ==> result_of(reply).output.len() == 0 && (result_of(
            reply,
        ).error matches Some(e) && exists|why: Seq<char>|
            e == #[trigger] ("VLM analysis failed: "@ + why)),
        reply matches Err(e) ==> result_of(reply).error == Some("VLM analysis failed: "@ + e@),
        reply matches Ok(r) ==> (!r.success ==> result_of(reply).error == Some(
            "VLM analysis failed: "@ + ("VLM returned "@ + r.status@ + ": "@ + json_text(
                r.payload@,
            )),
        )),
{
    if let Ok(r) = reply {
        law_only_good_replies(r.success, r.status@, r.payload@);
    }
}

/// How each step of a run goes wrong, and what is then said.
pub proof fn law_where_it_fails(cfg: AnalyzeScreenConfig, w: World)
    ensures
        exit_error(
            "capture binary"@,
            cfg.capture_bin@,
            cfg.capture_timeout_secs as nat,
            w.exit,
        ) matches Some(e) ==> run_result(true, cfg, w).error == Some("capture failed: "@ + e),
        (w.exit matches Exit::Exited { success, .. } && success) && !w.is_file && (w.after is None
            || w.after == w.before) ==> run_result(true, cfg, w).error == Some(
            "capture failed: "@ + ("no PNG at "@ + cfg.capture_output@ + " after capture"@),
        ),
        steps_of(true, cfg, w).contains(StepView::Prepare { path: cfg.capture_output@ }) ==> {
            &&& w.png matches Err(PrepareFailure::Read(e)) ==> run_result(true, cfg, w).error
                == Some(
                "image prepare failed: "@ + ("reading capture at "@ + cfg.capture_output@ + ": "@
                    + e@),
            )
            &&& w.png matches Err(PrepareFailure::Task(e)) ==> run_result(true, cfg, w).error
                == Some("image prepare failed: "@ + e@)
            &&& w.png matches Err(PrepareFailure::Image(ImageFailure::Decode(p))) ==> run_result(
                true,
                cfg,
                w,
            ).error == Some("image prepare failed: "@ + p.chain@)
            &&& w.png matches Err(PrepareFailure::Image(ImageFailure::Encode(p))) ==> run_result(
                true,
                cfg,
                w,
            ).error == Some("image prepare failed: "@ + p.chain@)
            &&& w.png is Ok && cfg.vlm_base_url@.len() == 0 ==> run_result(true, cfg, w).error
                == Some("VLM analysis failed: VLM_BASE_URL is not configured"@)
            &&& w.png is Ok && cfg.vlm_base_url@.len() > 0 ==> run_result(true, cfg, w)
                == result_of(w.reply)
        },
{
    law_capture_used(cfg, w);
}

/// What the model is asked: under the configured URL, with the configured
/// model, prompt and time, for at most 400 tokens, and with the image that was
/// got ready.
pub proof fn law_what_is_asked(cfg: AnalyzeScreenConfig, w: World, i: int)
    requires
        0 <= i < steps_of(true, cfg, w).len(),
    ensures
        steps_of(true, cfg, w)[i] matches StepView::Ask { url, headers, body, timeout_secs } ==> {
            &&& i == 3
            &&& url == chat_url_text(cfg.vlm_base_url@)
            &&& headers == chat_headers_view(w.api_key)
            &&& w.png matches Ok(png) && body == chat_view(
                cfg.vlm_model@,
                400,
                cfg.vlm_prompt@,
                data_uri_text(png@),
            )
            &&& timeout_secs == cfg.vlm_timeout_secs
        },
        steps_of(true, cfg, w)[0] matches StepView::Capture { timeout_secs, .. } && timeout_secs
            == cfg.capture_timeout_secs,
{
}

/// A result and a step are what their parts are.
pub proof fn law_tool_views(result: ToolResult, step: Step)
    ensures
        result@.success == result.success,
        result@.output == result.output@,
        result.error is None ==> (result@.error is None),
        result.error matches Some(e) ==> result@.error == Some(e@),
        step matches Step::Capture { bin, dir, output, timeout_secs } ==> step@ == (
        StepView::Capture {
            bin: bin@,
            dir: dir@,
            output: output@,
            timeout_secs: timeout_secs as nat,
        }),
        step matches Step::Look { output } ==> step@ == (StepView::Look { output: output@ }),
        step matches Step::Prepare { path } ==> step@ == (StepView::Prepare { path: path@ }),
        step matches Step::Ask { url, headers, body, timeout_secs } ==> step@ == (StepView::Ask {
            url: url@,
            headers: headers_view(headers@),
            body: body@,
            timeout_secs: timeout_secs as nat,
        }),
        step matches Step::Done(r) ==> step@ == StepView::Done(r@),
{
}

/// The result is what the analysis of the reply gives: its text where there is
/// one, and otherwise what was wrong.
pub proof fn law_result_of_analysis(r: Reply)
    ensures
        analysis_of(r.success, r.status@, r.payload@) matches Ok(text) ==> result_of(Ok(r)).success
            && result_of(Ok(r)).output == text && result_of(Ok(r)).error is None,
        analysis_of(r.success, r.status@, r.payload@) matches Err(e) ==> !result_of(Ok(r)).success
            && result_of(Ok(r)).output.len() == 0 && result_of(Ok(r)).error == Some(
            "VLM analysis failed: "@ + e,
        ),
{
}

} // verus!

//! Configuration, read from environment variables that are handed over as
//! plain values.

use crate::text::{
    all_digits, contents, law_parsed_uint, lemma_place_value_positive, parse_uint, parsed_uint,
    place_value, split_whitespace, text_eq, words,
};
use vstd::prelude::*;

verus! {

/// The prompt for the vision model: it asks for the six fields of an analysis.
pub const DEFAULT_VLM_PROMPT: &'static str = "Analyze this TV screen: \
State the screen type. Identify brand logos, \
location, setting, named person if clearly recognizable \
and any products or visible advertisements. \
Reply with ONLY a JSON object, no other text, \
containing ALL SIX of these keys. The \"error\" key is REQUIRED on every reply - \
set it to null when there is no error. Never omit it:
    {
      \"screen_type\": \"one of: live_tv, app, menu, ad, game, unknown\",
      \"title\": \"short title of what is on screen\",
      \"summary\": \"max 2 sentences\",
      \"detected_elements\": [
          {\"name\": \"scoreboard\", \"description\": \"VT 1 - LOW, 2nd inning\", \"confidence\": 0.9},
          {\"name\": \"ad_banner\", \"description\": \"Pepsi advertisement on outside wall\", \"confidence\": 0.8}
      ],
      \"suggested_actions\": [\"list of actions viewers could take\"],
      \"error\": null
    }
Emit the JSON as a single line with NO NEWLINES and NO INDENTATION

Limits, strictly enforced:
1. detected_elements: AT MOST 3 items.
2. suggested_actions: AT MOST 3 items. Be creative, not generic TV volume recommendations. \
Make sure it is related to the detected elements/scenes. Each max 15 words.
3. Be terse. Do not explain your reasoning.
4. \"confidence\" is a bare number between 0 and 1, never a string.
5. \"error\" must be null, or an object {\"code\": \"...\", \"message\": \"...\"}. Never a bare string.
Do not wrap the JSON in markdown code fences. Do not add any text before or after it. ";

/// A set of environment variables.
pub struct Vars {
    entries: Vec<(String, String)>,
}

/// The variables that `entries` set; of two settings of one name the later one
/// counts.
pub open spec fn vars_of(entries: Seq<(String, String)>) -> Map<Seq<char>, Seq<char>>
    decreases entries.len(),
{
    if entries.len() == 0 {
        Map::empty()
    } else {
        vars_of(entries.drop_last()).insert(entries.last().0@, entries.last().1@)
    }
}

impl View for Vars {
    type V = Map<Seq<char>, Seq<char>>;

    closed spec fn view(&self) -> Map<Seq<char>, Seq<char>> {
        vars_of(self.entries@)
    }
}

/// The text of a variable, or `default` where it is not set.
pub open spec fn text_var(
    vars: Map<Seq<char>, Seq<char>>,
    name: Seq<char>,
    default: Seq<char>,
) -> Seq<char> {
    if vars.contains_key(name) {
        vars[name]
    } else {
        default
    }
}

/// The text of a variable, where it is set.
pub open spec fn opt_var(vars: Map<Seq<char>, Seq<char>>, name: Seq<char>) -> Option<Seq<char>> {
    if vars.contains_key(name) {
        Some(vars[name])
    } else {
        None
    }
}

/// The number in a variable, or `default` where the variable is not set or
/// does not hold a number of at most `max`.
pub open spec fn uint_var(
    vars: Map<Seq<char>, Seq<char>>,
    name: Seq<char>,
    max: nat,
    default: nat,
) -> nat {
    if vars.contains_key(name) {
        match parsed_uint(vars[name], max) {
            Some(n) => n,
            None => default,
        }
    } else {
        default
    }
}

/// The contents of an optional string.
pub open spec fn opt_view(s: Option<String>) -> Option<Seq<char>> {
    match s {
        Some(s) => Some(s@),
        None => None,
    }
}

impl Vars {
    /// No variables.
    pub fn new() -> (r: Vars)
        ensures
            r@ == Map::<Seq<char>, Seq<char>>::empty(),
    {
        let entries: Vec<(String, String)> = Vec::new();
        assert(vars_of(entries@) == Map::<Seq<char>, Seq<char>>::empty());
        Vars { entries }
    }

    /// Sets a variable.
    pub fn set(&mut self, name: &str, value: &str)
        ensures
            final(self)@ == old(self)@.insert(name@, value@),
    {
        let ghost before = self.entries@;
        self.entries.push((name.to_owned(), value.to_owned()));
        assert(self.entries@.drop_last() == before);
    }

    /// The text of a variable, where it is set.
    pub fn get(&self, name: &str) -> (r: Option<String>)
        ensures
            opt_view(r) == opt_var(self@, name@),
    {
        let mut i: usize = self.entries.len();
        assert(self.entries@.take(i as int) == self.entries@);
        while i > 0
            invariant
                0 <= i <= self.entries.len(),
                opt_var(self@, name@) == opt_var(vars_of(self.entries@.take(i as int)), name@),
            decreases i,
        {
            assert(self.entries@.take(i as int).drop_last() == self.entries@.take(i - 1));
            if text_eq(self.entries[i - 1].0.as_str(), name) {
                return Some(self.entries[i - 1].1.clone());
            }
            i = i - 1;
        }
        None
    }

    /// The text of a variable, or `default`.
    pub fn env_or(&self, name: &str, default: &str) -> (r: String)
        ensures
            r@ == text_var(self@, name@, default@),
    {
        match self.get(name) {
            Some(s) => s,
            None => default.to_owned(),
        }
    }

    /// The number in a variable, or `default`.
    pub fn uint_or(&self, name: &str, max: u64, default: u64) -> (r: u64)
        requires
            default <= max,
        ensures
            r == uint_var(self@, name@, max as nat, default as nat),
            r <= max,
    {
        match self.get(name) {
            Some(s) => match parse_uint(s.as_str(), max) {
                Some(n) => n,
                None => default,
            },
            None => default,
        }
    }

    /// Whether a variable that is on by default is on: it is `true` or not
    /// set.
    pub fn enabled(&self, name: &str) -> (r: bool)
        ensures
            r == (text_var(self@, name@, "true"@) == "true"@),
    {
        let s = self.env_or(name, "true");
        text_eq(s.as_str(), "true")
    }
}

/// The configuration of the screen-analysis tool.
#[derive(Debug, Clone)]
pub struct AnalyzeScreenConfig {
    /// Path of the capture binary.
    pub capture_bin: String,
    /// Where the capture lands.
    pub capture_output: String,
    pub capture_timeout_secs: u64,
    /// Base URL of the vision model's endpoint, ending at `/v1`.
    pub vlm_base_url: String,
    pub vlm_model: String,
    pub vlm_timeout_secs: u64,
    pub vlm_prompt: String,
    pub downscale_max_edge: u32,
    pub downscale_enabled: bool,
}

impl AnalyzeScreenConfig {
    /// Whether this is the configuration that the environment gives.
    pub open spec fn given_by(self, vars: Map<Seq<char>, Seq<char>>) -> bool {
        &&& self.capture_bin@ == text_var(vars, "SCREENSHOT_BIN"@, "/root/tzcapturesample"@)
        &&& self.capture_output@ == text_var(vars, "SCREENSHOT_OUTPUT"@, "/root/capture.png"@)
        &&& self.capture_timeout_secs == uint_var(
            vars,
            "SCREENSHOT_TIMEOUT_SECS"@,
            u64::MAX as nat,
            10,
        )
        &&& self.vlm_base_url@ == text_var(vars, "VLM_BASE_URL"@, ""@)
        &&& self.vlm_model@ == text_var(vars, "VLM_MODEL"@, "Qwen/Qwen3-VL-8B-Instruct"@)
        &&& self.vlm_timeout_secs == uint_var(vars, "VLM_TIMEOUT_SECS"@, u64::MAX as nat, 60)
        &&& self.vlm_prompt@ == text_var(vars, "VLM_PROMPT"@, DEFAULT_VLM_PROMPT@)
        &&& self.downscale_max_edge == uint_var(vars, "DOWNSCALE_MAX_EDGE"@, u32::MAX as nat, 1280)
        &&& self.downscale_enabled == (text_var(vars, "DOWNSCALE_ENABLED"@, "true"@) == "true"@)
    }

    /// The configuration that the environment gives.
    pub fn from_env(vars: &Vars) -> (r: AnalyzeScreenConfig)
        ensures
            r.given_by(vars@),
    {
        AnalyzeScreenConfig {
            capture_bin: vars.env_or("SCREENSHOT_BIN", "/root/tzcapturesample"),
            capture_output: vars.env_or("SCREENSHOT_OUTPUT", "/root/capture.png"),
            capture_timeout_secs: vars.uint_or("SCREENSHOT_TIMEOUT_SECS", u64::MAX, 10),
            vlm_base_url: vars.env_or("VLM_BASE_URL", ""),
            vlm_model: vars.env_or("VLM_MODEL", "Qwen/Qwen3-VL-8B-Instruct"),
            vlm_timeout_secs: vars.uint_or("VLM_TIMEOUT_SECS", u64::MAX, 60),
            vlm_prompt: vars.env_or("VLM_PROMPT", DEFAULT_VLM_PROMPT),
            downscale_max_edge: vars.uint_or("DOWNSCALE_MAX_EDGE", u32::MAX as u64, 1280) as u32,
            downscale_enabled: vars.enabled("DOWNSCALE_ENABLED"),
        }
    }
}

/// The configuration of the validation proxy.
pub struct Cfg {
    pub port: u16,
    pub gateway_url: String,
    pub token: Option<String>,
    pub agent: Option<String>,
    pub default_message: String,
    pub total_timeout_secs: u64,
}

/// The configuration of the validation proxy that the environment gives.
pub fn load_cfg(vars: &Vars) -> (r: Cfg)
    ensures
        r.port == uint_var(vars@, "POSTPROCESS_PORT"@, u16::MAX as nat, 8787),
        r.gateway_url@ == text_var(vars@, "GATEWAY_URL"@, "http://127.0.0.1:42617"@),
        opt_view(r.token) == opt_var(vars@, "GATEWAY_TOKEN"@),
        opt_view(r.agent) == opt_var(vars@, "AGENT_ALIAS"@),
        r.default_message@ == text_var(
            vars@,
            "DEFAULT_MESSAGE"@,
            "Analyze what is currently on my screen."@,
        ),
        r.total_timeout_secs == uint_var(vars@, "TOTAL_TIMEOUT_SECS"@, u64::MAX as nat, 150),
{
    Cfg {
        port: vars.uint_or("POSTPROCESS_PORT", u16::MAX as u64, 8787) as u16,
        gateway_url: vars.env_or("GATEWAY_URL", "http://127.0.0.1:42617"),
        token: vars.get("GATEWAY_TOKEN"),
        agent: vars.get("AGENT_ALIAS"),
        default_message: vars.env_or(
            "DEFAULT_MESSAGE",
            "Analyze what is currently on my screen.",
        ),
        total_timeout_secs: vars.uint_or("TOTAL_TIMEOUT_SECS", u64::MAX, 150),
    }
}

/// The path at which a screenshot is expected, both by the tool that takes it
/// and by the tool that falls back to it.
pub open spec fn screenshot_output(vars: Map<Seq<char>, Seq<char>>) -> Seq<char> {
    text_var(vars, "SCREENSHOT_OUTPUT"@, "/tmp/screenshot.png"@)
}

/// How the tool server takes screenshots.
pub struct ScreenshotConfig {
    /// Wait for a screenshot that something else takes, instead of running the
    /// binary.
    pub watch: bool,
    pub bin: Option<String>,
    pub args: Vec<String>,
    pub output: String,
    pub timeout_secs: u64,
}

impl ScreenshotConfig {
    /// The configuration that the environment gives.
    pub fn from_env(vars: &Vars) -> (r: ScreenshotConfig)
        ensures
            r.watch == (text_var(vars@, "SCREENSHOT_MODE"@, "exec"@) == "watch"@),
            opt_view(r.bin) == opt_var(vars@, "SCREENSHOT_BIN"@),
            contents(r.args@) == words(text_var(vars@, "SCREENSHOT_ARGS"@, ""@)),
            r.output@ == screenshot_output(vars@),
            r.timeout_secs == uint_var(vars@, "SCREENSHOT_TIMEOUT_SECS"@, u64::MAX as nat, 10),
    {
        let mode = vars.env_or("SCREENSHOT_MODE", "exec");
        let args = vars.env_or("SCREENSHOT_ARGS", "");
        ScreenshotConfig {
            watch: text_eq(mode.as_str(), "watch"),
            bin: vars.get("SCREENSHOT_BIN"),
            args: split_whitespace(args.as_str()),
            output: vars.env_or("SCREENSHOT_OUTPUT", "/tmp/screenshot.png"),
            timeout_secs: vars.uint_or("SCREENSHOT_TIMEOUT_SECS", u64::MAX, 10),
        }
    }
}

/// The tool server's prompt for the vision model: it asks for a description in
/// words.
pub const DESCRIBE_PROMPT: &'static str = "Describe this TV screen in 3 short sentences: \
                                    State the screen type, then name 3 most prominent visible elements \
                                    Do not speculate about content you cannot see. Do not list minor UI details";

/// The key for the vision model that the environment gives, where it gives one.
pub fn vlm_api_key(vars: &Vars) -> (r: Option<String>)
    ensures
        opt_view(r) == opt_var(vars@, "VLM_API_KEY"@),
{
    vars.get("VLM_API_KEY")
}

/// How the tool server asks the vision model.
pub struct VlmConfig {
    pub base_url: Option<String>,
    pub api_key: Option<String>,
    pub model: String,
    pub timeout_secs: u64,
    pub prompt: String,
    pub downscale_enabled: bool,
    pub downscale_max_edge: u32,
}

impl VlmConfig {
    /// The configuration that the environment gives.
    pub fn from_env(vars: &Vars) -> (r: VlmConfig)
        ensures
            opt_view(r.base_url) == opt_var(vars@, "VLM_BASE_URL"@),
            opt_view(r.api_key) == opt_var(vars@, "VLM_API_KEY"@),
            r.model@ == text_var(vars@, "VLM_MODEL"@, "Qwen/Qwen3-VL-8B-Instruct"@),
            r.timeout_secs == uint_var(vars@, "VLM_TIMEOUT_SECS"@, u64::MAX as nat, 60),
            r.prompt@ == text_var(vars@, "VLM_PROMPT"@, DESCRIBE_PROMPT@),
            r.downscale_enabled == (text_var(vars@, "DOWNSCALE_ENABLED"@, "true"@) == "true"@),
            r.downscale_max_edge == uint_var(vars@, "DOWNSCALE_MAX_EDGE"@, u32::MAX as nat, 1280),
    {
        VlmConfig {
            base_url: vars.get("VLM_BASE_URL"),
            api_key: vlm_api_key(vars),
            model: vars.env_or("VLM_MODEL", "Qwen/Qwen3-VL-8B-Instruct"),
            timeout_secs: vars.uint_or("VLM_TIMEOUT_SECS", u64::MAX, 60),
            prompt: vars.env_or("VLM_PROMPT", DESCRIBE_PROMPT),
            downscale_enabled: vars.enabled("DOWNSCALE_ENABLED"),
            downscale_max_edge: vars.uint_or("DOWNSCALE_MAX_EDGE", u32::MAX as u64, 1280) as u32,
        }
    }
}

// ---------------------------------------------------------------------------
// Laws

/// A variable that is set counts as it is set, even where it is empty; one that
/// is not set has its default.
pub proof fn law_variables(
    vars: Map<Seq<char>, Seq<char>>,
    name: Seq<char>,
    default: Seq<char>,
    max: nat,
    number: nat,
)
    ensures
        vars.contains_key(name) ==> text_var(vars, name, default) == vars[name] && opt_var(
            vars,
            name,
        ) == Some(vars[name]),
        !vars.contains_key(name) ==> text_var(vars, name, default) == default && (opt_var(
            vars,
            name,
        ) is None) && uint_var(vars, name, max, number) == number,
        vars.contains_key(name) && all_digits(vars[name]) && vars[name].len() > 0 && place_value(
            vars[name],
        ) <= max ==> uint_var(vars, name, max, number) == place_value(vars[name]),
        vars.contains_key(name) && all_digits(vars[name]) && place_value(vars[name]) > max
            ==> uint_var(vars, name, max, number) == number,
        vars.contains_key(name) && vars[name].len() == 0 ==> uint_var(vars, name, max, number)
            == number,
{
    let s = vars[name];
    if vars.contains_key(name) {
        if s.len() > 0 && all_digits(s) {
            assert('0' <= s[0] <= '9');
        }
        if s.len() == 0 || all_digits(s) {
            if let Some(n) = parsed_uint(s, max) {
                law_parsed_uint(false, s, max, n);
            }
            if place_value(s) >= 0 {
                law_parsed_uint(false, s, max, place_value(s) as nat);
            } else {
                lemma_place_value_positive(s);
            }
        }
    }
}

/// The tool's configuration: each setting under its name, with its default.
pub proof fn law_tool_config(cfg: AnalyzeScreenConfig, vars: Map<Seq<char>, Seq<char>>)
    requires
        cfg.given_by(vars),
    ensures
        vars.contains_key("SCREENSHOT_BIN"@) ==> cfg.capture_bin@ == vars["SCREENSHOT_BIN"@],
        !vars.contains_key("SCREENSHOT_BIN"@) ==> cfg.capture_bin@ == "/root/tzcapturesample"@,
        vars.contains_key("SCREENSHOT_OUTPUT"@) ==> cfg.capture_output@
            == vars["SCREENSHOT_OUTPUT"@],
        !vars.contains_key("SCREENSHOT_OUTPUT"@) ==> cfg.capture_output@ == "/root/capture.png"@,
        vars.contains_key("VLM_BASE_URL"@) ==> cfg.vlm_base_url@ == vars["VLM_BASE_URL"@],
        !vars.contains_key("VLM_BASE_URL"@) ==> cfg.vlm_base_url@ == ""@,
        vars.contains_key("VLM_MODEL"@) ==> cfg.vlm_model@ == vars["VLM_MODEL"@],
        !vars.contains_key("VLM_MODEL"@) ==> cfg.vlm_model@ == "Qwen/Qwen3-VL-8B-Instruct"@,
        vars.contains_key("VLM_PROMPT"@) ==> cfg.vlm_prompt@ == vars["VLM_PROMPT"@],
        !vars.contains_key("VLM_PROMPT"@) ==> cfg.vlm_prompt@ == DEFAULT_VLM_PROMPT@,
        !vars.contains_key("SCREENSHOT_TIMEOUT_SECS"@) ==> cfg.capture_timeout_secs == 10,
        vars.contains_key("SCREENSHOT_TIMEOUT_SECS"@) ==> cfg.capture_timeout_secs == match
            parsed_uint(vars["SCREENSHOT_TIMEOUT_SECS"@], u64::MAX as nat) {
            Some(n) => n,
            None => 10,
        },
        !vars.contains_key("VLM_TIMEOUT_SECS"@) ==> cfg.vlm_timeout_secs == 60,
        vars.contains_key("VLM_TIMEOUT_SECS"@) ==> cfg.vlm_timeout_secs == match parsed_uint(
            vars["VLM_TIMEOUT_SECS"@],
            u64::MAX as nat,
        ) {
            Some(n) => n,
            None => 60,
        },
        !vars.contains_key("DOWNSCALE_MAX_EDGE"@) ==> cfg.downscale_max_edge == 1280,
        vars.contains_key("DOWNSCALE_MAX_EDGE"@) ==> cfg.downscale_max_edge == match parsed_uint(
            vars["DOWNSCALE_MAX_EDGE"@],
            u32::MAX as nat,
        ) {
            Some(n) => n,
            None => 1280,
        },
        cfg.downscale_enabled <==> (vars.contains_key("DOWNSCALE_ENABLED"@)
            ==> vars["DOWNSCALE_ENABLED"@] == "true"@),
{
}

/// A number is read from a variable as from any text; where that fails, the
/// default counts. An optional text is itself, even where it is empty.
pub proof fn law_number_variable(
    vars: Map<Seq<char>, Seq<char>>,
    name: Seq<char>,
    max: nat,
    number: nat,
    text: String,
)
    ensures
        vars.contains_key(name) ==> {
            &&& parsed_uint(vars[name], max) matches Some(n) ==> uint_var(vars, name, max, number)
                == n
            &&& parsed_uint(vars[name], max) is None ==> uint_var(vars, name, max, number) == number
        },
        opt_view(Some(text)) == Some(text@),
        opt_view(None) is None,
{
}

/// Both halves of the tool server look for the screenshot in one place.
pub proof fn law_screenshot_output(vars: Map<Seq<char>, Seq<char>>)
    ensures
        vars.contains_key("SCREENSHOT_OUTPUT"@) ==> screenshot_output(vars)
            == vars["SCREENSHOT_OUTPUT"@],
        !vars.contains_key("SCREENSHOT_OUTPUT"@) ==> screenshot_output(vars)
            == "/tmp/screenshot.png"@,
{
}

} // verus!

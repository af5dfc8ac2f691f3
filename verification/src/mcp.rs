//! The tool server: JSON-RPC requests for two tools, one that takes a
//! screenshot and one that has the vision model describe it.

use crate::capture::{image_choice, resolve_image_path, Probe};
use crate::config::{opt_view, VlmConfig};
use crate::json::{
    int_view, item_of, json_parse, json_text, key_of, readable, reads_as, str_of, Json,
    JsonView,
};
use crate::picture::ImageFailure;
use crate::text::{all_white, cat2, cat4, lemma_blank, text_eq, trim, trimmed};
use crate::vlm::{
    base64_text, chat_headers, chat_headers_view, chat_request, chat_url, chat_url_text,
    chat_view, data_uri_text, described, encodable, headers_view, read_vlm, text_result, Transport,
};
use vstd::prelude::*;

verus! {

/// The protocol's code for a method that there is not.
pub const METHOD_NOT_FOUND: i64 = -32601;

/// What is said of the screenshot tool.
pub const SCREENSHOT_DESCRIPTION: &'static str = "Capture the TV screen right now. Takes no arguments. Returns a JSON object with the image_path of the captured PNG. Use this FIRST whenever the user asks about what is currently on the screen.";

/// What is said of the tool that describes an image.
pub const ANALYZE_DESCRIPTION: &'static str = "Send a captured screen image to the vision model and get back a simple text description of everything visible on it. Call this AFTER the screenshot tool. Pass the image_path from the screenshot result if you have it; if the runtime shows it as a media attachment instead of a literal path, just call this with no arguments and the most recent screenshot is used.";

/// What is said of that tool's argument.
pub const IMAGE_PATH_DESCRIPTION: &'static str = "Optional path to the PNG returned by the screenshot tool; defaults to the most recent screenshot";

// ---------------------------------------------------------------------------
// Responses

/// The response to the request `id` that carries a result.
pub open spec fn result_view(id: JsonView, result: JsonView) -> JsonView {
    JsonView::Object(
        map!["jsonrpc"@ => JsonView::Text("2.0"@), "id"@ => id, "result"@ => result],
    )
}

/// The response to the request `id` that reports an error of the protocol.
pub open spec fn error_response_view(id: JsonView, code: i64, message: Seq<char>) -> JsonView {
    JsonView::Object(
        map![
            "jsonrpc"@ => JsonView::Text("2.0"@),
            "id"@ => id,
            "error"@ => JsonView::Object(
                map![
                    "code"@ => JsonView::Number(int_view(code)),
                    "message"@ => JsonView::Text(message),
                ],
            ),
        ],
    )
}

/// The response to the request `id` that carries a result.
pub fn result_response(id: &Json, result: Json) -> (r: Json)
    ensures
        r@ == result_view(id@, result@),
{
    Json::object().with("jsonrpc", Json::string("2.0")).with("id", id.copy()).with(
        "result",
        result,
    )
}

fn error_response(id: &Json, code: i64, message: &str) -> (r: Json)
    ensures
        r@ == error_response_view(id@, code, message@),
{
    let error = Json::object().with("code", Json::integer(code)).with(
        "message",
        Json::string(message),
    );
    Json::object().with("jsonrpc", Json::string("2.0")).with("id", id.copy()).with("error", error)
}

/// What the server says of itself.
pub open spec fn initialize_view(version: Seq<char>) -> JsonView {
    JsonView::Object(
        map![
            "protocolVersion"@ => JsonView::Text("2024-11-05"@),
            "capabilities"@ => JsonView::Object(
                map!["tools"@ => JsonView::Object(Map::empty())],
            ),
            "serverInfo"@ => JsonView::Object(
                map![
                    "name"@ => JsonView::Text("tv-screen-tools"@),
                    "version"@ => JsonView::Text(version),
                ],
            ),
        ],
    )
}

fn initialize(version: &str) -> (r: Json)
    ensures
        r@ == initialize_view(version@),
{
    let info = Json::object().with("name", Json::string("tv-screen-tools")).with(
        "version",
        Json::string(version),
    );
    Json::object().with("protocolVersion", Json::string("2024-11-05")).with(
        "capabilities",
        Json::object().with("tools", Json::object()),
    ).with("serverInfo", info)
}

/// The schema of a tool's arguments, all of which may be left out.
pub open spec fn schema_view(properties: Map<Seq<char>, JsonView>) -> JsonView {
    JsonView::Object(
        map![
            "type"@ => JsonView::Text("object"@),
            "properties"@ => JsonView::Object(properties),
            "required"@ => JsonView::Array(seq![]),
        ],
    )
}

/// A tool as it is listed.
pub open spec fn tool_view(name: Seq<char>, description: Seq<char>, schema: JsonView) -> JsonView {
    JsonView::Object(
        map![
            "name"@ => JsonView::Text(name),
            "description"@ => JsonView::Text(description),
            "inputSchema"@ => schema,
        ],
    )
}

/// The one argument of the tool that describes an image.
pub open spec fn image_path_view() -> JsonView {
    JsonView::Object(
        map![
            "type"@ => JsonView::Text("string"@),
            "description"@ => JsonView::Text(IMAGE_PATH_DESCRIPTION@),
        ],
    )
}

/// The tools of the server.
pub open spec fn tools_view() -> JsonView {
    JsonView::Object(
        map![
            "tools"@ => JsonView::Array(
                seq![
                    tool_view("screenshot"@, SCREENSHOT_DESCRIPTION@, schema_view(Map::empty())),
                    tool_view(
                        "analyze_image"@,
                        ANALYZE_DESCRIPTION@,
                        schema_view(map!["image_path"@ => image_path_view()]),
                    ),
                ],
            ),
        ],
    )
}

fn schema(properties: Json) -> (r: Json)
    ensures
        properties@ matches JsonView::Object(m) ==> r@ == schema_view(m),
{
    Json::object().with("type", Json::string("object")).with("properties", properties).with(
        "required",
        Json::array(),
    )
}

fn tool(name: &str, description: &str, schema: Json) -> (r: Json)
    ensures
        r@ == tool_view(name@, description@, schema@),
{
    Json::object().with("name", Json::string(name)).with(
        "description",
        Json::string(description),
    ).with("inputSchema", schema)
}

/// The tools of the server.
pub fn tools_list() -> (r: Json)
    ensures
        r@ == tools_view(),
{
    let screenshot = tool("screenshot", SCREENSHOT_DESCRIPTION, schema(Json::object()));
    let path = Json::object().with("type", Json::string("string")).with(
        "description",
        Json::string(IMAGE_PATH_DESCRIPTION),
    );
    let analyze = tool(
        "analyze_image",
        ANALYZE_DESCRIPTION,
        schema(Json::object().with("image_path", path)),
    );
    let tools = Json::array().item(screenshot).item(analyze);
    assert(tools@->Array_0 =~= key_of(tools_view(), "tools"@)->Array_0);
    Json::object().with("tools", tools)
}

/// What a tool call gave: its text, or what went wrong.
pub open spec fn call_view(outcome: Result<Seq<char>, Seq<char>>) -> JsonView {
    let (text, failed) = match outcome {
        Ok(s) => (s, false),
        Err(e) => (e, true),
    };
    JsonView::Object(
        map![
            "content"@ => JsonView::Array(
                seq![
                    JsonView::Object(
                        map!["type"@ => JsonView::Text("text"@), "text"@ => JsonView::Text(text)],
                    ),
                ],
            ),
            "isError"@ => JsonView::Bool(failed),
        ],
    )
}

/// What a tool call gave, as the result of its request.
pub fn call_result(outcome: &Result<String, String>) -> (r: Json)
    ensures
        r@ == call_view(text_result(*outcome)),
{
    let (text, failed) = match outcome {
        Ok(s) => (s.as_str(), false),
        Err(e) => (e.as_str(), true),
    };
    let part = Json::object().with("type", Json::string("text")).with("text", Json::string(text));
    let ghost only = part@;
    let parts = Json::array().item(part);
    assert(parts@->Array_0 =~= seq![only]);
    Json::object().with("content", parts).with("isError", Json::Bool(failed))
}

// ---------------------------------------------------------------------------
// Requests

/// A tool to run, with its argument.
pub enum ToolCall {
    Screenshot,
    AnalyzeImage { image_path: Option<String> },
}

/// What a line asks for.
pub enum Incoming {
    /// Nothing: it is blank.
    Blank,
    /// Nothing that can be understood.
    NotJson,
    /// No response: it is a notification.
    Notification { method: String },
    /// This response.
    Reply(Json),
    /// The outcome of a tool, in the response to the request `id`.
    Call { id: Json, tool: ToolCall },
}

/// A tool to run, with its argument.
pub ghost enum ToolCallView {
    Screenshot,
    AnalyzeImage(Option<Seq<char>>),
}

/// What a line asks for.
pub ghost enum IncomingView {
    Blank,
    NotJson,
    Notification(Seq<char>),
    Reply(JsonView),
    Call(JsonView, ToolCallView),
}

impl View for ToolCall {
    type V = ToolCallView;

    open spec fn view(&self) -> ToolCallView {
        match *self {
            ToolCall::Screenshot => ToolCallView::Screenshot,
            ToolCall::AnalyzeImage { image_path } => ToolCallView::AnalyzeImage(
                opt_view(image_path),
            ),
        }
    }
}

impl View for Incoming {
    type V = IncomingView;

    open spec fn view(&self) -> IncomingView {
        match *self {
            Incoming::Blank => IncomingView::Blank,
            Incoming::NotJson => IncomingView::NotJson,
            Incoming::Notification { method } => IncomingView::Notification(method@),
            Incoming::Reply(v) => IncomingView::Reply(v@),
            Incoming::Call { id, tool } => IncomingView::Call(id@, tool@),
        }
    }
}

/// The text under `key`, or the empty one.
pub open spec fn text_at(v: JsonView, key: Seq<char>) -> Seq<char> {
    match str_of(key_of(v, key)) {
        Some(s) => s,
        None => ""@,
    }
}

fn str_at<'a>(v: &'a Json, key: &str) -> (r: &'a str)
    ensures
        r@ == text_at(v@, key@),
{
    match v.at_key(key).as_str() {
        Some(s) => s,
        None => "",
    }
}

/// What a call of a tool asks for.
pub open spec fn called(id: JsonView, params: JsonView) -> IncomingView {
    let name = text_at(params, "name"@);
    if name == "screenshot"@ {
        IncomingView::Call(id, ToolCallView::Screenshot)
    } else if name == "analyze_image"@ {
        IncomingView::Call(
            id,
            ToolCallView::AnalyzeImage(
                str_of(key_of(key_of(params, "arguments"@), "image_path"@)),
            ),
        )
    } else {
        IncomingView::Reply(result_view(id, call_view(Err("unknown tool: "@ + name))))
    }
}

/// What a JSON document asks for.
pub open spec fn requested(req: JsonView, version: Seq<char>) -> IncomingView {
    let method = text_at(req, "method"@);
    let id = key_of(req, "id"@);
    if id is Null {
        IncomingView::Notification(method)
    } else if method == "initialize"@ {
        IncomingView::Reply(result_view(id, initialize_view(version)))
    } else if method == "tools/list"@ {
        IncomingView::Reply(result_view(id, tools_view()))
    } else if method == "tools/call"@ {
        called(id, key_of(req, "params"@))
    } else if method == "ping"@ {
        IncomingView::Reply(result_view(id, JsonView::Object(Map::empty())))
    } else {
        IncomingView::Reply(
            error_response_view(id, METHOD_NOT_FOUND, "method not found: "@ + method),
        )
    }
}

/// What a line asks for, parsed as `parsed`.
pub open spec fn line_view(
    line: Seq<char>,
    parsed: Result<JsonView, Seq<char>>,
    version: Seq<char>,
) -> IncomingView {
    if trimmed(line).len() == 0 {
        IncomingView::Blank
    } else {
        match parsed {
            Ok(req) => requested(req, version),
            Err(_) => IncomingView::NotJson,
        }
    }
}

fn tools_call(id: &Json, params: &Json) -> (r: Incoming)
    ensures
        r@ == called(id@, params@),
{
    let name = str_at(params, "name");
    if text_eq(name, "screenshot") {
        return Incoming::Call { id: id.copy(), tool: ToolCall::Screenshot };
    }
    if text_eq(name, "analyze_image") {
        let image_path: Option<String> = match params.at_key("arguments").at_key(
            "image_path",
        ).as_str() {
            Some(s) => Some(s.to_owned()),
            None => None,
        };
        return Incoming::Call { id: id.copy(), tool: ToolCall::AnalyzeImage { image_path } };
    }
    let outcome: Result<String, String> = Err(cat2("unknown tool: ", name));
    Incoming::Reply(result_response(id, call_result(&outcome)))
}

/// Finds out what a JSON document asks for; `version` is the server's own.
pub fn dispatch(req: &Json, version: &str) -> (r: Incoming)
    ensures
        r@ == requested(req@, version@),
{
    let method = str_at(req, "method");
    let id = req.at_key("id");
    if id.is_null() {
        return Incoming::Notification { method: method.to_owned() };
    }
    if text_eq(method, "initialize") {
        return Incoming::Reply(result_response(id, initialize(version)));
    }
    if text_eq(method, "tools/list") {
        return Incoming::Reply(result_response(id, tools_list()));
    }
    if text_eq(method, "tools/call") {
        return tools_call(id, req.at_key("params"));
    }
    if text_eq(method, "ping") {
        return Incoming::Reply(result_response(id, Json::object()));
    }
    let message = cat2("method not found: ", method);
    Incoming::Reply(error_response(id, METHOD_NOT_FOUND, message.as_str()))
}

/// Finds out what a line asks for; `version` is the server's own.
pub fn handle_line(line: &str, version: &str) -> (r: Incoming)
    ensures
        r@ == line_view(line@, json_parse(line@), version@),
{
    let bare = trim(line);
    if bare.as_str().is_empty() {
        return Incoming::Blank;
    }
    match Json::parse(line) {
        Ok(req) => dispatch(&req, version),
        Err(_) => Incoming::NotJson,
    }
}

// ---------------------------------------------------------------------------
// The two tools

/// What the server remembers: the last screenshot that it took.
pub struct ToolServer {
    pub last_screenshot: Option<String>,
}

/// The last screenshot after one more attempt.
pub open spec fn remembered(
    last: Option<Seq<char>>,
    outcome: Result<Seq<char>, Seq<char>>,
) -> Option<Seq<char>> {
    match outcome {
        Ok(path) => Some(path),
        Err(_) => last,
    }
}

/// What the screenshot tool tells of a screenshot.
pub open spec fn image_path_object(path: Seq<char>) -> JsonView {
    JsonView::Object(map!["image_path"@ => JsonView::Text(path)])
}

/// What the screenshot tool gives.
pub open spec fn screenshot_text(outcome: Result<Seq<char>, Seq<char>>) -> Result<
    Seq<char>,
    Seq<char>,
> {
    match outcome {
        Ok(path) => Ok(json_text(image_path_object(path))),
        Err(e) => Err(e),
    }
}

impl ToolServer {
    /// A server that has taken no screenshot.
    pub fn new() -> (r: ToolServer)
        ensures
            opt_view(r.last_screenshot) is None,
    {
        ToolServer { last_screenshot: None }
    }

    /// Remembers a screenshot that was taken, and gives the tool's outcome: a
    /// JSON text in which the path can be read back.
    pub fn screenshot_taken(&mut self, outcome: Result<String, String>) -> (r: Result<
        String,
        String,
    >)
        ensures
            opt_view(final(self).last_screenshot) == remembered(
                opt_view(old(self).last_screenshot),
                text_result(outcome),
            ),
            text_result(r) == screenshot_text(text_result(outcome)),
            outcome matches Ok(path) ==> (r matches Ok(text) && reads_as(
                text@,
                image_path_object(path@),
            )),
    {
        match outcome {
            Ok(path) => {
                let v = Json::object().with("image_path", Json::string(path.as_str()));
                assert(readable(v@, 127)) by {
                    reveal_with_fuel(readable, 2);
                }
                self.last_screenshot = Some(path);
                Ok(v.render())
            },
            Err(e) => Err(e),
        }
    }
}

/// Why an image could not be got ready.
pub enum FileFailure {
    /// It could not be read.
    Read(String),
    /// It could not be decoded, or the downscaled image not encoded.
    Image(ImageFailure),
}

/// What is said of an image that could not be got ready. A file that has to be
/// decoded is opened by the decoder, so that is what fails where it cannot be
/// read.
pub open spec fn file_error(path: Seq<char>, decoding: bool, failure: FileFailure) -> Seq<char> {
    match failure {
        FileFailure::Read(e) => if decoding {
            "cannot decode "@ + path + ": "@ + e@
        } else {
            "cannot read "@ + path + ": "@ + e@
        },
        FileFailure::Image(ImageFailure::Decode(p)) => "cannot decode "@ + path + ": "@
            + p@.message,
        FileFailure::Image(ImageFailure::Encode(p)) => "re-encode failed: "@ + p@.message,
    }
}

fn file_error_text(path: &str, decoding: bool, failure: &FileFailure) -> (r: String)
    ensures
        r@ == file_error(path@, decoding, *failure),
{
    match failure {
        FileFailure::Read(e) => if decoding {
            cat4("cannot decode ", path, ": ", e.as_str())
        } else {
            cat4("cannot read ", path, ": ", e.as_str())
        },
        FileFailure::Image(ImageFailure::Decode(p)) => {
            cat4("cannot decode ", path, ": ", p.message.as_str())
        },
        FileFailure::Image(ImageFailure::Encode(p)) => {
            cat2("re-encode failed: ", p.message.as_str())
        },
    }
}

/// What the tool that describes an image does next.
pub enum Describe {
    /// Get the image at `path` ready.
    Prepare { path: String },
    /// Ask the vision model, for at most so many seconds.
    Ask { url: String, headers: Vec<(String, String)>, body: Json, timeout_secs: u64 },
    /// Give this outcome.
    Done(Result<String, String>),
}

/// What the tool that describes an image does next.
pub ghost enum DescribeView {
    Prepare(Seq<char>),
    Ask {
        url: Seq<char>,
        headers: Seq<(Seq<char>, Seq<char>)>,
        body: JsonView,
        timeout_secs: nat,
    },
    Done(Result<Seq<char>, Seq<char>>),
}

impl View for Describe {
    type V = DescribeView;

    open spec fn view(&self) -> DescribeView {
        match *self {
            Describe::Prepare { path } => DescribeView::Prepare(path@),
            Describe::Ask { url, headers, body, timeout_secs } => DescribeView::Ask {
                url: url@,
                headers: headers_view(headers@),
                body: body@,
                timeout_secs: timeout_secs as nat,
            },
            Describe::Done(outcome) => DescribeView::Done(text_result(outcome)),
        }
    }
}

/// The tool needs an image first, then somewhere to send it.
pub open spec fn describe_first(
    cfg: VlmConfig,
    choice: Result<Seq<char>, Seq<char>>,
) -> DescribeView {
    match choice {
        Ok(path) => if opt_view(cfg.base_url) is Some {
            DescribeView::Prepare(path)
        } else {
            DescribeView::Done(Err("VLM_BASE_URL is not configured"@))
        },
        Err(e) => DescribeView::Done(Err(e)),
    }
}

/// The request for a description of the image in a PNG file.
pub open spec fn describe_ask(cfg: VlmConfig, png: Seq<u8>) -> DescribeView {
    DescribeView::Ask {
        url: chat_url_text(opt_view(cfg.base_url)->0),
        headers: chat_headers_view(opt_view(cfg.api_key)),
        body: chat_view(cfg.model@, 240, cfg.prompt@, data_uri_text(png)),
        timeout_secs: cfg.timeout_secs as nat,
    }
}

/// Begins a description: decides which image it is of.
pub fn describe_begin(
    cfg: &VlmConfig,
    asked: &Option<Probe>,
    last: &Option<Probe>,
    fixed: &Probe,
) -> (r: Describe)
    ensures
        r@ == describe_first(*cfg, image_choice(*asked, *last, *fixed)),
{
    match resolve_image_path(asked, last, fixed) {
        Ok(path) => match &cfg.base_url {
            Some(_) => Describe::Prepare { path },
            None => Describe::Done(Err("VLM_BASE_URL is not configured".to_owned())),
        },
        Err(e) => Describe::Done(Err(e)),
    }
}

/// Goes on after the image at `path` was got ready.
pub fn describe_prepared(cfg: &VlmConfig, path: &str, png: &Result<Vec<u8>, FileFailure>) -> (r:
    Describe)
    requires
        opt_view(cfg.base_url) is Some,
        *png matches Ok(bytes) ==> encodable(bytes@.len()),
    ensures
        r@ == match *png {
            Ok(bytes) => describe_ask(*cfg, bytes@),
            Err(failure) => DescribeView::Done(
                Err(file_error(path@, cfg.downscale_enabled, failure)),
            ),
        },
{
    match png {
        Ok(bytes) => {
            let url = match &cfg.base_url {
                Some(base) => chat_url(base.as_str()),
                None => String::new(),
            };
            let body = chat_request(
                cfg.model.as_str(),
                240,
                cfg.prompt.as_str(),
                bytes.as_slice(),
            );
            Describe::Ask {
                url,
                headers: chat_headers(&cfg.api_key),
                body,
                timeout_secs: cfg.timeout_secs,
            }
        },
        Err(failure) => {
            let e = file_error_text(path, cfg.downscale_enabled, failure);
            Describe::Done(Err(e))
        },
    }
}

/// Ends a description with what the vision model replied.
pub fn describe_answered(reply: Transport) -> (r: Describe)
    ensures
        r@ == DescribeView::Done(described(reply)),
{
    Describe::Done(read_vlm(reply))
}

// ---------------------------------------------------------------------------
// Laws

/// A document without an id is a notification and gets no response; one with
/// an id gets exactly one, under that id, with either a result or an error.
pub proof fn law_responses(req: JsonView, version: Seq<char>)
    ensures
        requested(req, version) is Notification <==> key_of(req, "id"@) is Null,
        requested(req, version) matches IncomingView::Reply(v) ==> {
            &&& key_of(v, "jsonrpc"@) == JsonView::Text("2.0"@)
            &&& key_of(v, "id"@) == key_of(req, "id"@)
            &&& v->Object_0.contains_key("result"@) != v->Object_0.contains_key("error"@)
        },
        requested(req, version) matches IncomingView::Call(id, _) ==> id == key_of(req, "id"@),
        !(requested(req, version) is Blank) && !(requested(req, version) is NotJson),
{
    reveal_strlit("jsonrpc");
    reveal_strlit("id");
    reveal_strlit("result");
    reveal_strlit("error");
    assert("jsonrpc"@.len() == 7 && "id"@.len() == 2 && "result"@.len() == 6 && "error"@.len()
        == 5);
}

/// The response to a tool call stands under the call's id and is marked as an
/// error exactly where the tool failed; its text is the tool's own.
pub proof fn law_call_response(id: JsonView, outcome: Result<Seq<char>, Seq<char>>)
    ensures
        ({
            let response = result_view(id, call_view(outcome));
            let result = key_of(response, "result"@);
            let part = item_of(key_of(result, "content"@), 0);
            &&& key_of(response, "id"@) == id
            &&& key_of(result, "isError"@) == JsonView::Bool(outcome is Err)
            &&& key_of(part, "text"@) == JsonView::Text(
                match outcome {
                    Ok(s) => s,
                    Err(e) => e,
                },
            )
        }),
{
    reveal_strlit("jsonrpc");
    reveal_strlit("id");
    reveal_strlit("result");
    reveal_strlit("content");
    reveal_strlit("isError");
    reveal_strlit("type");
    reveal_strlit("text");
    assert("jsonrpc"@.len() == 7 && "id"@.len() == 2 && "result"@.len() == 6);
    assert("content"@[0] == 'c' && "isError"@[0] == 'i');
    assert("type"@[1] == 'y' && "text"@[1] == 'e');
}

/// The tools that are listed are the ones that can be called.
pub proof fn law_listed_tools_run(id: JsonView, params: JsonView)
    ensures
        called(id, params) is Call <==> exists|i: int|
            0 <= i < 2 && #[trigger] text_at(
                item_of(key_of(tools_view(), "tools"@), i),
                "name"@,
            ) == text_at(params, "name"@),
{
    reveal_strlit("name");
    reveal_strlit("description");
    reveal_strlit("inputSchema");
    assert("name"@.len() == 4 && "description"@.len() == 11 && "inputSchema"@[0] == 'i');
    assert("description"@[0] == 'd');
    let tools = key_of(tools_view(), "tools"@);
    assert(text_at(item_of(tools, 0), "name"@) == "screenshot"@);
    assert(text_at(item_of(tools, 1), "name"@) == "analyze_image"@);
}

/// After a screenshot was taken, the image that is analyzed is that one,
/// unless the caller names another file that exists or it has been removed.
pub proof fn law_latest_screenshot(
    last: Option<Seq<char>>,
    taken: String,
    asked: Option<Probe>,
    fixed: Probe,
)
    requires
        asked is Some ==> !asked->0.is_file,
    ensures
        remembered(last, Ok(taken@)) == Some(taken@),
        image_choice(asked, Some(Probe { path: taken, is_file: true }), fixed) == Ok::<
            Seq<char>,
            Seq<char>,
        >(taken@),
{
}

/// The document asks, under `id`, for the method `method`.
pub open spec fn asks_for(req: JsonView, id: JsonView, method: Seq<char>) -> bool {
    req matches JsonView::Object(m) && m.contains_key("id"@) && m["id"@] == id && !(id is Null)
        && m.contains_key("method"@) && m["method"@] == JsonView::Text(method)
}

/// The response carries `result` under `id`, and nothing else.
pub open spec fn gives(response: JsonView, id: JsonView, result: JsonView) -> bool {
    key_of(response, "jsonrpc"@) == JsonView::Text("2.0"@) && key_of(response, "id"@) == id
        && key_of(response, "result"@) == result && response->Object_0.dom() == set![
        "jsonrpc"@,
        "id"@,
        "result"@,
    ]
}

proof fn lemma_gives(id: JsonView, result: JsonView)
    ensures
        gives(result_view(id, result), id, result),
{
    reveal_strlit("jsonrpc");
    reveal_strlit("id");
    reveal_strlit("result");
    assert("jsonrpc"@.len() == 7 && "id"@.len() == 2 && "result"@.len() == 6);
    assert(result_view(id, result)->Object_0.dom() =~= set!["jsonrpc"@, "id"@, "result"@]);
}

/// Each method gets its own response, under the id of the request, and a method
/// that there is not gets an error that names it.
pub proof fn law_methods(req: JsonView, id: JsonView, method: Seq<char>, version: Seq<char>)
    requires
        asks_for(req, id, method),
    ensures
        method == "initialize"@ ==> (requested(req, version) matches IncomingView::Reply(v) && gives(
            v,
            id,
            key_of(v, "result"@),
        ) && ({
            let result = key_of(v, "result"@);
            &&& key_of(result, "protocolVersion"@) == JsonView::Text("2024-11-05"@)
            &&& key_of(key_of(result, "capabilities"@), "tools"@) == JsonView::Object(Map::empty())
            &&& key_of(key_of(result, "serverInfo"@), "name"@) == JsonView::Text(
                "tv-screen-tools"@,
            )
            &&& key_of(key_of(result, "serverInfo"@), "version"@) == JsonView::Text(version)
        })),
        method == "tools/list"@ ==> (requested(req, version) matches IncomingView::Reply(v) && gives(
            v,
            id,
            tools_view(),
        )),
        method == "ping"@ ==> (requested(req, version) matches IncomingView::Reply(v) && gives(
            v,
            id,
            JsonView::Object(Map::empty()),
        )),
        method == "tools/call"@ ==> requested(req, version) == called(id, key_of(req, "params"@)),
        method != "initialize"@ && method != "tools/list"@ && method != "tools/call"@ && method
            != "ping"@ ==> (requested(req, version) matches IncomingView::Reply(v) && key_of(
            v,
            "id"@,
        ) == id && key_of(key_of(v, "error"@), "code"@) == JsonView::Number(
            int_view(-32601i64),
        ) && key_of(key_of(v, "error"@), "message"@) == JsonView::Text(
            "method not found: "@ + method,
        )),
{
    reveal_strlit("initialize");
    reveal_strlit("tools/list");
    reveal_strlit("tools/call");
    reveal_strlit("ping");
    assert("initialize"@[0] == 'i' && "tools/list"@[6] == 'l' && "tools/call"@[6] == 'c');
    assert("tools/list"@[0] == 't' && "tools/call"@[0] == 't' && "ping"@[0] == 'p');
    reveal_strlit("jsonrpc");
    reveal_strlit("id");
    reveal_strlit("error");
    reveal_strlit("code");
    reveal_strlit("message");
    reveal_strlit("protocolVersion");
    reveal_strlit("capabilities");
    reveal_strlit("serverInfo");
    reveal_strlit("name");
    reveal_strlit("version");
    assert("jsonrpc"@.len() == 7 && "id"@.len() == 2 && "error"@.len() == 5);
    assert("code"@.len() == 4 && "message"@.len() == 7);
    assert("protocolVersion"@.len() == 15 && "capabilities"@.len() == 12 && "serverInfo"@.len()
        == 10);
    assert("name"@.len() == 4 && "version"@.len() == 7);
    lemma_gives(id, initialize_view(version));
    lemma_gives(id, tools_view());
    lemma_gives(id, JsonView::Object(Map::empty()));
}

/// A call runs the tool that it names, with the path that it gives, or is
/// answered that there is no such tool.
pub proof fn law_calls(id: JsonView, params: JsonView, name: Seq<char>)
    ensures
        (params matches JsonView::Object(m) && m.contains_key("name"@) && m["name"@]
            == JsonView::Text(name)) ==> {
            &&& name == "screenshot"@ ==> called(id, params) == IncomingView::Call(
                id,
                ToolCallView::Screenshot,
            )
            &&& name == "analyze_image"@ ==> called(id, params) == IncomingView::Call(
                id,
                ToolCallView::AnalyzeImage(
                    match key_of(key_of(params, "arguments"@), "image_path"@) {
                        JsonView::Text(path) => Some(path),
                        _ => None,
                    },
                ),
            )
            &&& name != "screenshot"@ && name != "analyze_image"@ ==> (called(
                id,
                params,
            ) matches IncomingView::Reply(v) && gives(
                v,
                id,
                call_view(Err("unknown tool: "@ + name)),
            ))
        },
{
    reveal_strlit("screenshot");
    reveal_strlit("analyze_image");
    assert("screenshot"@.len() == 10 && "analyze_image"@.len() == 13);
    lemma_gives(id, call_view(Err("unknown tool: "@ + name)));
}

/// A blank line asks for nothing, a line that is no JSON cannot be understood,
/// and any other line asks for what its document asks for.
pub proof fn law_lines_handled(
    line: Seq<char>,
    parsed: Result<JsonView, Seq<char>>,
    version: Seq<char>,
)
    ensures
        all_white(line) ==> line_view(line, parsed, version) == IncomingView::Blank,
        !all_white(line) && parsed is Err ==> line_view(line, parsed, version)
            == IncomingView::NotJson,
        !all_white(line) ==> (parsed matches Ok(req) ==> line_view(line, parsed, version)
            == requested(req, version)),
{
    lemma_blank(line);
}

/// A screenshot that was taken is told by its path, and remembered; one that
/// failed is told by what went wrong, and the last one stays remembered.
pub proof fn law_screenshot_told(last: Option<Seq<char>>, path: Seq<char>, e: Seq<char>)
    ensures
        screenshot_text(Ok(path)) == Ok::<Seq<char>, Seq<char>>(
            json_text(JsonView::Object(map!["image_path"@ => JsonView::Text(path)])),
        ),
        screenshot_text(Err(e)) == Err::<Seq<char>, Seq<char>>(e),
        remembered(last, Ok(path)) == Some(path),
        remembered(last, Err(e)) == last,
{
}

/// How a description goes: without an image it fails first, without a base URL
/// next; the image is then got ready, sent with the configured key, model and
/// prompt for at most 240 tokens, or reported.
pub proof fn law_description_goes(
    cfg: VlmConfig,
    path: Seq<char>,
    e: Seq<char>,
    png: Seq<u8>,
    failure: FileFailure,
    decoding: bool,
)
    ensures
        describe_first(cfg, Err(e)) == DescribeView::Done(Err(e)),
        cfg.base_url is Some ==> describe_first(cfg, Ok(path)) == DescribeView::Prepare(path),
        cfg.base_url is None ==> describe_first(cfg, Ok(path)) == DescribeView::Done(
            Err("VLM_BASE_URL is not configured"@),
        ),
        cfg.base_url matches Some(base) ==> (describe_ask(cfg, png) matches DescribeView::Ask {
            url,
            headers,
            body,
            timeout_secs,
        } && url == chat_url_text(base@) && headers == chat_headers_view(opt_view(cfg.api_key))
            && body == chat_view(
            cfg.model@,
            240,
            cfg.prompt@,
            "data:image/png;base64,"@ + base64_text(png),
        ) && timeout_secs == cfg.timeout_secs),
        failure matches FileFailure::Read(why) ==> file_error(path, false, failure) == "cannot read "@
            + path + ": "@ + why@ && file_error(path, true, failure) == "cannot decode "@ + path
            + ": "@ + why@,
        failure matches FileFailure::Image(ImageFailure::Decode(p)) ==> file_error(
            path,
            decoding,
            failure,
        ) == "cannot decode "@ + path + ": "@ + p.message@,
        failure matches FileFailure::Image(ImageFailure::Encode(p)) ==> file_error(
            path,
            decoding,
            failure,
        ) == "re-encode failed: "@ + p.message@,
{
}

/// A tool's text is the only part of its outcome, and is marked as text.
pub proof fn law_call_text(outcome: Result<Seq<char>, Seq<char>>)
    ensures
        key_of(call_view(outcome), "content"@) is Array,
        key_of(call_view(outcome), "content"@)->Array_0.len() == 1,
        key_of(item_of(key_of(call_view(outcome), "content"@), 0), "type"@) == JsonView::Text(
            "text"@,
        ),
{
    reveal_strlit("content");
    reveal_strlit("isError");
    reveal_strlit("type");
    reveal_strlit("text");
    assert("content"@[0] == 'c' && "isError"@[0] == 'i');
    assert("type"@[1] == 'y' && "text"@[1] == 'e');
}

/// The list of the tools: each with its name, what is said of it, and the
/// schema of its arguments, none of which is required.
pub proof fn law_tools_listed()
    ensures
        ({
            let tools = key_of(tools_view(), "tools"@);
            let shot = item_of(tools, 0);
            let analyze = item_of(tools, 1);
            let shot_schema = key_of(shot, "inputSchema"@);
            let schema = key_of(analyze, "inputSchema"@);
            let path = key_of(key_of(schema, "properties"@), "image_path"@);
            &&& tools is Array && tools->Array_0.len() == 2
            &&& key_of(shot, "name"@) == JsonView::Text("screenshot"@)
            &&& key_of(shot, "description"@) == JsonView::Text(SCREENSHOT_DESCRIPTION@)
            &&& shot_schema == schema_view(Map::empty())
            &&& key_of(analyze, "name"@) == JsonView::Text("analyze_image"@)
            &&& key_of(analyze, "description"@) == JsonView::Text(ANALYZE_DESCRIPTION@)
            &&& schema == schema_view(map!["image_path"@ => path])
            &&& key_of(path, "type"@) == JsonView::Text("string"@)
            &&& key_of(path, "description"@) == JsonView::Text(IMAGE_PATH_DESCRIPTION@)
        }),
{
    reveal_strlit("name");
    reveal_strlit("description");
    reveal_strlit("inputSchema");
    reveal_strlit("type");
    reveal_strlit("properties");
    reveal_strlit("required");
    assert("name"@.len() == 4 && "description"@.len() == 11 && "inputSchema"@.len() == 11);
    assert("description"@[0] == 'd' && "inputSchema"@[0] == 'i' && "type"@.len() == 4);
    assert("properties"@.len() == 10 && "required"@.len() == 8);
}

/// A schema is that of an object with the given properties, none required.
pub proof fn law_schema(properties: Map<Seq<char>, JsonView>)
    ensures
        key_of(schema_view(properties), "type"@) == JsonView::Text("object"@),
        key_of(schema_view(properties), "properties"@) == JsonView::Object(properties),
        key_of(schema_view(properties), "required"@) == JsonView::Array(Seq::empty()),
{
    reveal_strlit("type");
    reveal_strlit("properties");
    reveal_strlit("required");
    assert("type"@.len() == 4 && "properties"@.len() == 10 && "required"@.len() == 8);
}

/// What is asked for, and what is done next, are what their parts are.
pub proof fn law_mcp_views(call: ToolCall, incoming: Incoming, next: Describe)
    ensures
        call is Screenshot <==> call@ == ToolCallView::Screenshot,
        call matches ToolCall::AnalyzeImage { image_path } ==> {
            &&& image_path is None ==> call@ == ToolCallView::AnalyzeImage(None)
            &&& image_path matches Some(p) ==> call@ == ToolCallView::AnalyzeImage(Some(p@))
        },
        incoming is Blank <==> incoming@ == IncomingView::Blank,
        incoming is NotJson <==> incoming@ == IncomingView::NotJson,
        incoming matches Incoming::Notification { method } ==> incoming@
            == IncomingView::Notification(method@),
        incoming matches Incoming::Reply(v) ==> incoming@ == IncomingView::Reply(v@),
        incoming matches Incoming::Call { id, tool } ==> incoming@ == IncomingView::Call(id@, tool@),
        next matches Describe::Prepare { path } ==> next@ == DescribeView::Prepare(path@),
        next matches Describe::Ask { url, headers, body, timeout_secs } ==> next@ == (
        DescribeView::Ask {
            url: url@,
            headers: headers_view(headers@),
            body: body@,
            timeout_secs: timeout_secs as nat,
        }),
        next matches Describe::Done(Ok(text)) ==> next@ == DescribeView::Done(Ok(text@)),
        next matches Describe::Done(Err(e)) ==> next@ == DescribeView::Done(Err(e@)),
{
}

/// A document without a method, or with one that is no text, asks for the method
/// with the empty name, and one without an id only says which method it means.
/// A call without a tool's name, or with one that is no text, asks for the tool
/// with the empty name.
pub proof fn law_names_missing(req: JsonView, id: JsonView, params: JsonView, version: Seq<char>)
    ensures
        key_of(req, "id"@) is Null ==> requested(req, version) == IncomingView::Notification(
            match key_of(req, "method"@) {
                JsonView::Text(method) => method,
                _ => ""@,
            },
        ),
        !(key_of(req, "id"@) is Null) && !(key_of(req, "method"@) is Text) ==> (requested(
            req,
            version,
        ) matches IncomingView::Reply(v) && key_of(v, "id"@) == key_of(req, "id"@) && key_of(
            key_of(v, "error"@),
            "message"@,
        ) == JsonView::Text("method not found: "@ + ""@)),
        !(key_of(params, "name"@) is Text) ==> (called(id, params) matches IncomingView::Reply(v)
            && gives(v, id, call_view(Err("unknown tool: "@ + ""@)))),
{
    reveal_strlit("");
    reveal_strlit("initialize");
    reveal_strlit("tools/list");
    reveal_strlit("tools/call");
    reveal_strlit("ping");
    reveal_strlit("screenshot");
    reveal_strlit("analyze_image");
    assert("initialize"@.len() == 10 && "tools/list"@.len() == 10 && "tools/call"@.len() == 10);
    assert(""@.len() == 0 && "ping"@.len() == 4 && "screenshot"@.len() == 10
        && "analyze_image"@.len() == 13);
    reveal_strlit("jsonrpc");
    reveal_strlit("id");
    reveal_strlit("error");
    reveal_strlit("code");
    reveal_strlit("message");
    assert("jsonrpc"@.len() == 7 && "id"@.len() == 2 && "error"@.len() == 5);
    assert("code"@.len() == 4 && "message"@.len() == 7);
    lemma_gives(id, call_view(Err("unknown tool: "@ + ""@)));
}

/// The documents that are sent hold nothing but what is said of them.
pub proof fn law_nothing_more(
    id: JsonView,
    code: i64,
    message: Seq<char>,
    version: Seq<char>,
    outcome: Result<Seq<char>, Seq<char>>,
    properties: Map<Seq<char>, JsonView>,
    i: int,
)
    ensures
        ({
            let error = error_response_view(id, code, message);
            &&& error->Object_0.dom() == set!["jsonrpc"@, "id"@, "error"@]
            &&& key_of(error, "error"@)->Object_0.dom() == set!["code"@, "message"@]
        }),
        ({
            let hello = initialize_view(version);
            &&& hello->Object_0.dom() == set!["protocolVersion"@, "capabilities"@, "serverInfo"@]
            &&& key_of(hello, "capabilities"@)->Object_0.dom() == set!["tools"@]
            &&& key_of(hello, "serverInfo"@)->Object_0.dom() == set!["name"@, "version"@]
        }),
        ({
            let result = call_view(outcome);
            &&& result->Object_0.dom() == set!["content"@, "isError"@]
            &&& item_of(key_of(result, "content"@), 0)->Object_0.dom() == set!["type"@, "text"@]
        }),
        tools_view()->Object_0.dom() == set!["tools"@],
        0 <= i < 2 ==> item_of(key_of(tools_view(), "tools"@), i)->Object_0.dom() == set![
            "name"@,
            "description"@,
            "inputSchema"@,
        ],
        schema_view(properties)->Object_0.dom() == set!["type"@, "properties"@, "required"@],
        image_path_view()->Object_0.dom() == set!["type"@, "description"@],
{
    reveal_strlit("jsonrpc");
    reveal_strlit("id");
    reveal_strlit("error");
    assert("jsonrpc"@.len() == 7 && "id"@.len() == 2 && "error"@.len() == 5);
    reveal_strlit("protocolVersion");
    reveal_strlit("capabilities");
    reveal_strlit("serverInfo");
    assert("protocolVersion"@.len() == 15 && "capabilities"@.len() == 12 && "serverInfo"@.len()
        == 10);
    reveal_strlit("content");
    reveal_strlit("isError");
    assert("content"@[0] == 'c' && "isError"@[0] == 'i');
}

} // verus!

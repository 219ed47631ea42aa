//! What goes over the wire to a local model, and what comes back.

use vstd::prelude::*;
use super::assembly::GenerationPortError;
use super::target::{
    GenerationApiFormatV1, GenerationParametersV1, ReadyGenerationTargetV1,
};
use crate::json::{
    JsonView, json_array, json_get, json_parse, json_str, json_string, json_text_member, json_view,
    member, parse_json, string_of, text_member, to_json_string,
};
use crate::text::{
    cat2, cat3, cat5, chars_of, contains, decimal, dec, find_from, find_from_is_first, has, join,
    joined, lower_text, lowered, same, text, text_of, views, views_push, a_part_is_found, at,
};
use crate::unicode::{to_unicode_lower, unicode_lower};

verus! {

/// The type of what is sent.
pub const HTTP_CONTENT_TYPE: &'static str = "application/json";

/// How the program names itself.
pub const HTTP_USER_AGENT: &'static str = "bimyscribe/0.5";

/// How long a connection test may take, in seconds.
pub const CONNECTION_TEST_SECONDS: u64 = 10;

// ---- Requests ----

/// The path of a protocol.
pub open spec fn path_of(api_format: GenerationApiFormatV1) -> Seq<char> {
    match api_format {
        GenerationApiFormatV1::OpenAiChatCompletions => "/v1/chat/completions"@,
        GenerationApiFormatV1::AnthropicMessages => "/v1/messages"@,
    }
}

/// The path of a protocol.
pub fn api_path(api_format: GenerationApiFormatV1) -> (r: &'static str)
    ensures
        r@ == path_of(api_format),
{
    match api_format {
        GenerationApiFormatV1::OpenAiChatCompletions => "/v1/chat/completions",
        GenerationApiFormatV1::AnthropicMessages => "/v1/messages",
    }
}

/// The address that a request is sent to.
pub fn request_url(target: &ReadyGenerationTargetV1, api_format: GenerationApiFormatV1) -> (r: String)
    ensures
        r@ == target.endpoint@ + path_of(api_format),
{
    cat2(target.endpoint.as_str(), api_path(api_format))
}

/// The one message of a request, given its text as a JSON string.
pub open spec fn one_message(content: Seq<char>) -> Seq<char> {
    "\"messages\":[{\"content\":"@ + content + ",\"role\":\"user\"}]"@
}

fn message_part(content: &str) -> (r: String)
    ensures
        r@ == one_message(content@),
{
    cat3("\"messages\":[{\"content\":", content, ",\"role\":\"user\"}]")
}

/// The body of a request, given the model and the prompt as JSON strings. It carries no
/// credential.
pub open spec fn body_of(api_format: GenerationApiFormatV1, model: Seq<char>, prompt: Seq<char>) -> Seq<char> {
    match api_format {
        GenerationApiFormatV1::OpenAiChatCompletions => "{"@ + one_message(prompt) + ",\"model\":"@ + model
            + ",\"temperature\":0.2}"@,
        GenerationApiFormatV1::AnthropicMessages => "{\"max_tokens\":4096,"@ + one_message(prompt)
            + ",\"model\":"@ + model + "}"@,
    }
}

/// The body of a request, given the model and the prompt as JSON strings.
pub fn request_body_with(api_format: GenerationApiFormatV1, model: &str, prompt: &str) -> (r: String)
    ensures
        r@ == body_of(api_format, model@, prompt@),
{
    let message = message_part(prompt);
    match api_format {
        GenerationApiFormatV1::OpenAiChatCompletions => cat5(
            "{",
            message.as_str(),
            ",\"model\":",
            model,
            ",\"temperature\":0.2}",
        ),
        GenerationApiFormatV1::AnthropicMessages => cat5(
            "{\"max_tokens\":4096,",
            message.as_str(),
            ",\"model\":",
            model,
            "}",
        ),
    }
}

/// The body of a request for one prompt.
pub fn request_body(target: &ReadyGenerationTargetV1, prompt: &str) -> (r: String)
    ensures
        r@ == body_of(target.api_format, json_string(target.model@), json_string(prompt@)),
{
    let model = to_json_string(target.model.as_str());
    let content = to_json_string(prompt);
    request_body_with(target.api_format, model.as_str(), content.as_str())
}

/// The prompt of a connection test.
pub const PING_PROMPT: &'static str = "Reply with exactly one word: ping";

/// The body of a connection test, given the model and the prompt as JSON strings.
pub open spec fn probe_of(api_format: GenerationApiFormatV1, model: Seq<char>, prompt: Seq<char>) -> Seq<char> {
    match api_format {
        GenerationApiFormatV1::OpenAiChatCompletions => "{\"max_tokens\":8,"@ + one_message(prompt)
            + ",\"model\":"@ + model + ",\"temperature\":0.2}"@,
        GenerationApiFormatV1::AnthropicMessages => "{\"max_tokens\":"@ + (dec(4096) + ","@) + one_message(
            prompt,
        ) + (",\"model\":"@ + model) + "}"@,
    }
}

/// The body of a connection test, given the model and the prompt as JSON strings.
pub fn probe_body_with(api_format: GenerationApiFormatV1, model: &str, prompt: &str) -> (r: String)
    ensures
        r@ == probe_of(api_format, model@, prompt@),
{
    let message = message_part(prompt);
    match api_format {
        GenerationApiFormatV1::OpenAiChatCompletions => cat5(
            "{\"max_tokens\":8,",
            message.as_str(),
            ",\"model\":",
            model,
            ",\"temperature\":0.2}",
        ),
        GenerationApiFormatV1::AnthropicMessages => {
            let limit: u32 = GenerationParametersV1::anthropic_default().max_tokens_for_probe();
            let number = decimal(limit as u64);
            let number = cat2(number.as_str(), ",");
            let named = cat2(",\"model\":", model);
            cat5("{\"max_tokens\":", number.as_str(), message.as_str(), named.as_str(), "}")
        },
    }
}

/// The body of a connection test: a prompt that asks for one word.
pub fn probe_request_body(target: &ReadyGenerationTargetV1) -> (r: String)
    ensures
        r@ == probe_of(target.api_format, json_string(target.model@), json_string(PING_PROMPT@)),
{
    let model = to_json_string(target.model.as_str());
    let content = to_json_string(PING_PROMPT);
    probe_body_with(target.api_format, model.as_str(), content.as_str())
}

/// Whether a request may be sent: the target speaks the protocol, and is valid.
pub fn may_send(target: &ReadyGenerationTargetV1, api_format: GenerationApiFormatV1) -> (r: Result<
    (),
    GenerationPortError,
>)
    ensures
        match r {
            Ok(_) => target.api_format == api_format && target.problem() is None,
            Err(e) => e is ResponseInvalid && !(target.api_format == api_format && target.problem() is None),
        },
{
    if target.api_format != api_format {
        return Err(GenerationPortError::ResponseInvalid);
    }
    if target.validate().is_err() {
        return Err(GenerationPortError::ResponseInvalid);
    }
    Ok(())
}

// ---- Answers ----

/// An optional JSON value, by what it holds.
pub open spec fn seen(v: Option<&serde_json::Value>) -> Option<JsonView> {
    match v {
        Some(x) => Some(json_view(*x)),
        None => None,
    }
}

/// The content of the first choice of an OpenAI-compatible answer.
pub open spec fn first_content(v: JsonView) -> Option<JsonView> {
    match member(v, "choices"@) {
        Some(JsonView::List(choices)) if choices.len() > 0 => match member(choices[0], "message"@) {
            Some(message) => member(message, "content"@),
            None => None,
        },
        _ => None,
    }
}

fn get_first_content(v: &serde_json::Value) -> (r: Option<&serde_json::Value>)
    ensures
        seen(r) == first_content(json_view(*v)),
{
    let choices = match json_get(v, "choices") {
        Some(c) => match json_array(c) {
            Some(items) => items,
            None => {
                return None;
            },
        },
        None => {
            return None;
        },
    };
    if choices.len() == 0 {
        return None;
    }
    match json_get(&choices[0], "message") {
        Some(m) => json_get(m, "content"),
        None => None,
    }
}

/// The text of one block of an Anthropic-compatible answer.
pub open spec fn block_text(b: JsonView) -> Option<Seq<char>> {
    if text_member(Some(b), "type"@) == Some("text"@) {
        text_member(Some(b), "text"@)
    } else {
        None
    }
}

/// The texts of the first `n` blocks, in their order.
pub open spec fn block_texts(blocks: Seq<JsonView>, n: int) -> Seq<Seq<char>>
    decreases n,
{
    if n <= 0 {
        Seq::empty()
    } else {
        match block_text(blocks[n - 1]) {
            Some(t) => block_texts(blocks, n - 1).push(t),
            None => block_texts(blocks, n - 1),
        }
    }
}

/// The text of an answer.
pub open spec fn answer_text(api_format: GenerationApiFormatV1, v: JsonView) -> Option<Seq<char>> {
    match api_format {
        GenerationApiFormatV1::OpenAiChatCompletions => match first_content(v) {
            Some(c) => string_of(c),
            None => None,
        },
        GenerationApiFormatV1::AnthropicMessages => match member(v, "content"@) {
            Some(JsonView::List(blocks)) => Some(
                joined(block_texts(blocks, blocks.len() as int), "\n"@),
            ),
            _ => None,
        },
    }
}

fn get_block_text(b: &serde_json::Value) -> (r: Option<&str>)
    ensures
        match r {
            Some(t) => block_text(json_view(*b)) == Some(t@),
            None => block_text(json_view(*b)) is None,
        },
{
    match json_text_member(Some(b), "type") {
        Some(t) => {
            if same(t, "text") {
                json_text_member(Some(b), "text")
            } else {
                None
            }
        },
        None => None,
    }
}

/// The text of an answer that was parsed.
#[verifier::loop_isolation(false)]
pub fn response_text(api_format: GenerationApiFormatV1, value: &serde_json::Value) -> (r: Result<
    String,
    GenerationPortError,
>)
    ensures
        match r {
            Ok(t) => answer_text(api_format, json_view(*value)) == Some(t@),
            Err(e) => e is ResponseInvalid && answer_text(api_format, json_view(*value)) is None,
        },
{
    match api_format {
        GenerationApiFormatV1::OpenAiChatCompletions => match get_first_content(value) {
            Some(c) => match json_str(c) {
                Some(t) => Ok(text(t)),
                None => Err(GenerationPortError::ResponseInvalid),
            },
            None => Err(GenerationPortError::ResponseInvalid),
        },
        GenerationApiFormatV1::AnthropicMessages => {
            let blocks = match json_get(value, "content") {
                Some(c) => match json_array(c) {
                    Some(items) => items,
                    None => {
                        return Err(GenerationPortError::ResponseInvalid);
                    },
                },
                None => {
                    return Err(GenerationPortError::ResponseInvalid);
                },
            };
            let ghost all = member(json_view(*value), "content"@)->0->List_0;
            let mut parts: Vec<String> = Vec::new();
            let mut i: usize = 0;
            while i < blocks.len()
                invariant
                    i <= blocks@.len(),
                    views(parts@) =~= block_texts(all, i as int),
                decreases blocks@.len() - i,
            {
                assert(json_view(blocks@[i as int]) == all[i as int]);
                if let Some(t) = get_block_text(&blocks[i]) {
                    let part = text(t);
                    proof {
                        views_push(parts@, part);
                    }
                    parts.push(part);
                }
                i += 1;
            }
            Ok(join(&parts, "\n"))
        },
    }
}

/// The text of an answer as it came.
pub fn read_response(api_format: GenerationApiFormatV1, body: &str) -> (r: Result<
    String,
    GenerationPortError,
>)
    ensures
        match r {
            Ok(t) => json_parse(body@) is Some && answer_text(api_format, json_parse(body@)->0) == Some(t@),
            Err(e) => e is ResponseInvalid && (json_parse(body@) is None || answer_text(
                api_format,
                json_parse(body@)->0,
            ) is None),
        },
{
    match parse_json(body) {
        Some(v) => response_text(api_format, &v),
        None => Err(GenerationPortError::ResponseInvalid),
    }
}

// ---- The JSON object in an answer ----

/// Where the scan of a JSON object stands.
pub struct ScanState {
    pub depth: int,
    pub in_string: bool,
    pub escaped: bool,
}

/// One character of the scan. Braces count outside strings only, and a quote ends a string
/// unless a backslash stands before it.
pub open spec fn scan_step(s: ScanState, c: char) -> ScanState {
    if s.in_string {
        if s.escaped {
            ScanState { escaped: false, ..s }
        } else if c == '\\' {
            ScanState { escaped: true, ..s }
        } else if c == '"' {
            ScanState { in_string: false, ..s }
        } else {
            s
        }
    } else if c == '"' {
        ScanState { in_string: true, ..s }
    } else if c == '{' {
        ScanState { depth: s.depth + 1, ..s }
    } else if c == '}' {
        ScanState { depth: s.depth - 1, ..s }
    } else {
        s
    }
}

/// The character closes the object.
pub open spec fn closes(s: ScanState, c: char) -> bool {
    !s.in_string && c == '}' && s.depth == 1
}

/// Where the object ends that the scan is in: behind the brace that closes it.
pub open spec fn object_end(t: Seq<char>, i: int, s: ScanState) -> Option<int>
    decreases t.len() - i,
{
    if i < 0 || i >= t.len() {
        None
    } else if closes(s, t[i]) {
        Some(i + 1)
    } else {
        object_end(t, i + 1, scan_step(s, t[i]))
    }
}

/// The first JSON object in a text: from the first brace to the one that closes it.
pub open spec fn object_in(t: Seq<char>) -> Option<Seq<char>> {
    match find_from(t, "{"@, 0) {
        None => None,
        Some(i) => match object_end(
            t,
            i,
            ScanState { depth: 0, in_string: false, escaped: false },
        ) {
            Some(e) => Some(t.subrange(i, e)),
            None => None,
        },
    }
}

/// Takes the first JSON object out of a text.
pub fn extract_json_object(s: &str) -> (r: Option<String>)
    ensures
        match r {
            Some(o) => object_in(s@) == Some(o@),
            None => object_in(s@) is None,
        },
{
    let v = chars_of(s);
    let start: usize = match crate::text::find(s, "{") {
        Some(i) => i,
        None => {
            return None;
        },
    };
    proof {
        reveal_strlit("{");
        find_from_is_first(s@, "{"@, 0);
        assert(s@[start as int] == '{') by {
            assert(s@.subrange(start as int, start + 1)[0] == s@[start as int]);
        }
    }
    let mut depth: usize = 0;
    let mut in_string = false;
    let mut escaped = false;
    let mut i: usize = start;
    while i < v.len()
        invariant
            start <= i <= v@.len(),
            v@ == s@,
            depth <= i - start,
            i > start ==> depth >= 1,
            start < v@.len() && v@[start as int] == '{',
            i == start ==> depth == 0 && !in_string,
            find_from(s@, "{"@, 0) == Some(start as int),
            object_end(
                s@,
                start as int,
                ScanState { depth: 0, in_string: false, escaped: false },
            ) == object_end(s@, i as int, ScanState { depth: depth as int, in_string, escaped }),
        decreases v@.len() - i,
    {
        let c: char = v[i];
        if in_string {
            if escaped {
                escaped = false;
            } else if c == '\\' {
                escaped = true;
            } else if c == '"' {
                in_string = false;
            }
        } else if c == '"' {
            in_string = true;
        } else if c == '{' {
            depth += 1;
        } else if c == '}' {
            if depth == 1 {
                return Some(text_of(&v, start, i + 1));
            }
            depth -= 1;
        }
        i += 1;
    }
    None
}

/// Takes the JSON object out of the text of an answer, which may have words around it.
pub fn read_reply(api_format: GenerationApiFormatV1, body: &str) -> (r: Result<String, GenerationPortError>)
    ensures
        match r {
            Ok(o) => json_parse(body@) is Some && (answer_text(api_format, json_parse(body@)->0) matches Some(t)
                && object_in(t) == Some(o@)),
            Err(e) => e is ResponseInvalid && (json_parse(body@) is None || (match answer_text(
                api_format,
                json_parse(body@)->0,
            ) {
                Some(t) => object_in(t) is None,
                None => true,
            })),
        },
{
    match read_response(api_format, body) {
        Ok(t) => match extract_json_object(t.as_str()) {
            Some(o) => Ok(o),
            None => Err(GenerationPortError::ResponseInvalid),
        },
        Err(e) => Err(e),
    }
}

// ---- The connection test ----

/// A connection test that went well.
#[derive(Debug, Clone, PartialEq, Eq)]
pub struct ConnectionTestSuccess {
    pub api_format: GenerationApiFormatV1,
    pub model: String,
}

/// How a connection test can fail.
#[derive(Debug, Clone, Copy, PartialEq, Eq, Structural)]
pub enum ConnectionTestFailure {
    InvalidAddress,
    Unreachable,
    ProtocolMismatch,
    ModelUnavailable,
    Timeout,
}

impl ConnectionTestFailure {
    /// What the user is told.
    pub open spec fn message_text(self) -> Seq<char> {
        match self {
            ConnectionTestFailure::InvalidAddress => "地址无效：请检查格式，例如 http://127.0.0.1:11434/v1。"@,
            ConnectionTestFailure::Unreachable => "无法连接：请确认本地服务已启动，且地址与端口正确。"@,
            ConnectionTestFailure::ProtocolMismatch => "服务已响应，但不符合所选 API 格式：请确认 API 格式与地址匹配。"@,
            ConnectionTestFailure::ModelUnavailable => "服务可用，但模型不可用：请确认模型已拉取或加载，且名称一致。"@,
            ConnectionTestFailure::Timeout => "连接超时：服务可能正在加载模型，请稍后重试。"@,
        }
    }

    /// What the user is told.
    pub fn message(self) -> (r: &'static str)
        ensures
            r@ == self.message_text(),
    {
        match self {
            ConnectionTestFailure::InvalidAddress => "地址无效：请检查格式，例如 http://127.0.0.1:11434/v1。",
            ConnectionTestFailure::Unreachable => "无法连接：请确认本地服务已启动，且地址与端口正确。",
            ConnectionTestFailure::ProtocolMismatch => "服务已响应，但不符合所选 API 格式：请确认 API 格式与地址匹配。",
            ConnectionTestFailure::ModelUnavailable => "服务可用，但模型不可用：请确认模型已拉取或加载，且名称一致。",
            ConnectionTestFailure::Timeout => "连接超时：服务可能正在加载模型，请稍后重试。",
        }
    }

    /// What the user is told; a model that is missing is named.
    pub fn with_model(self, model: &str) -> (r: String)
        ensures
            r@ == (if self is ModelUnavailable {
                "服务可用，但模型“"@ + model@ + "”不可用：请确认模型已拉取或加载，且名称一致。"@
            } else {
                self.message_text()
            }),
    {
        if self == ConnectionTestFailure::ModelUnavailable {
            return cat3("服务可用，但模型“", model, "”不可用：请确认模型已拉取或加载，且名称一致。");
        }
        text(self.message())
    }
}

/// What a probe came to.
#[derive(Debug, Clone, PartialEq, Eq)]
pub enum ProbeOutcome {
    /// An answer in the shape of the protocol.
    Success,
    /// A status that is no success, and the body that came with it.
    HttpError(u16, String),
    /// No connection.
    Transport,
    /// No answer in time.
    Timeout,
    /// A success whose body is not in the shape of the protocol.
    MalformedBody,
}

/// The message says that a model is missing.
pub open spec fn says_no_model(message: Seq<char>) -> bool {
    let m = lowered(message);
    has(m, "model"@) && (has(m, "not found"@) || has(m, "does not exist"@) || has(m, "unknown model"@))
}

/// An error says that the model is missing: by its type, by its code, or, where the status is
/// 404, by its message. A part that is not there is an empty text.
pub open spec fn reports_missing(status: u16, error_type: Seq<char>, code: Seq<char>, message: Seq<char>) -> bool {
    error_type == "not_found_error"@ || code == "model_not_found"@ || (status == 404 && says_no_model(message))
}

/// Whether an error says that the model is missing.
pub fn is_missing_report(status: u16, error_type: &str, code: &str, message: &str) -> (b: bool)
    ensures
        b == reports_missing(status, error_type@, code@, message@),
{
    if same(error_type, "not_found_error") || same(code, "model_not_found") {
        return true;
    }
    if status != 404 {
        return false;
    }
    let lower = lower_text(message);
    let m = lower.as_str();
    contains(m, "model") && (contains(m, "not found") || contains(m, "does not exist") || contains(
        m,
        "unknown model",
    ))
}

/// A text, or an empty one.
pub open spec fn or_empty(t: Option<Seq<char>>) -> Seq<char> {
    match t {
        Some(t) => t,
        None => Seq::empty(),
    }
}

/// The error that a body holds.
pub open spec fn error_of(v: JsonView) -> Option<JsonView> {
    member(v, "error"@)
}

/// The body of an answer says that the model is missing.
pub open spec fn body_reports_missing(status: u16, body: Option<JsonView>) -> bool {
    match body {
        None => false,
        Some(v) => reports_missing(
            status,
            or_empty(text_member(error_of(v), "type"@)),
            or_empty(text_member(error_of(v), "code"@)),
            or_empty(text_member(error_of(v), "message"@)),
        ),
    }
}

fn text_or_empty<'a>(t: Option<&'a str>) -> (r: &'a str)
    ensures
        r@ == (match t {
            Some(t) => t@,
            None => Seq::empty(),
        }),
{
    match t {
        Some(t) => t,
        None => {
            proof {
                reveal_strlit("");
            }
            let e = "";
            assert(e@ =~= Seq::<char>::empty());
            e
        },
    }
}

/// Whether the body of an answer says that the model is missing.
pub fn is_model_missing_error(status: u16, body: Option<&serde_json::Value>) -> (b: bool)
    ensures
        b == body_reports_missing(status, seen(body)),
{
    let body = match body {
        Some(b) => b,
        None => {
            return false;
        },
    };
    let error = json_get(body, "error");
    let error_type = text_or_empty(json_text_member(error, "type"));
    let code = text_or_empty(json_text_member(error, "code"));
    let message = text_or_empty(json_text_member(error, "message"));
    is_missing_report(status, error_type, code, message)
}

/// What a probe says of the connection. Anything that answered, but not in the protocol, is a
/// mismatch.
pub open spec fn verdict(outcome: ProbeOutcome) -> Option<ConnectionTestFailure> {
    match outcome {
        ProbeOutcome::Success => None,
        ProbeOutcome::Transport => Some(ConnectionTestFailure::Unreachable),
        ProbeOutcome::Timeout => Some(ConnectionTestFailure::Timeout),
        ProbeOutcome::MalformedBody => Some(ConnectionTestFailure::ProtocolMismatch),
        ProbeOutcome::HttpError(status, body) => if body_reports_missing(status, json_parse(body@)) {
            Some(ConnectionTestFailure::ModelUnavailable)
        } else {
            Some(ConnectionTestFailure::ProtocolMismatch)
        },
    }
}

/// Judges a probe.
pub fn classify_probe(outcome: ProbeOutcome) -> (r: Result<(), ConnectionTestFailure>)
    ensures
        match r {
            Ok(_) => verdict(outcome) is None,
            Err(f) => verdict(outcome) == Some(f),
        },
{
    match outcome {
        ProbeOutcome::Success => Ok(()),
        ProbeOutcome::Transport => Err(ConnectionTestFailure::Unreachable),
        ProbeOutcome::Timeout => Err(ConnectionTestFailure::Timeout),
        ProbeOutcome::MalformedBody => Err(ConnectionTestFailure::ProtocolMismatch),
        ProbeOutcome::HttpError(status, body) => {
            let parsed = parse_json(body.as_str());
            let missing = match &parsed {
                Some(v) => is_model_missing_error(status, Some(v)),
                None => false,
            };
            if missing {
                return Err(ConnectionTestFailure::ModelUnavailable);
            }
            Err(ConnectionTestFailure::ProtocolMismatch)
        },
    }
}

/// A body has the shape of a success of the protocol.
pub open spec fn success_shape(api_format: GenerationApiFormatV1, v: JsonView) -> bool {
    match api_format {
        GenerationApiFormatV1::OpenAiChatCompletions => first_content(v) is Some,
        GenerationApiFormatV1::AnthropicMessages => match member(v, "content"@) {
            Some(JsonView::List(_)) => true,
            _ => false,
        },
    }
}

/// Whether a body has the shape of a success of the protocol.
pub fn body_is_protocol_success(api_format: GenerationApiFormatV1, value: &serde_json::Value) -> (b: bool)
    ensures
        b == success_shape(api_format, json_view(*value)),
{
    match api_format {
        GenerationApiFormatV1::OpenAiChatCompletions => get_first_content(value).is_some(),
        GenerationApiFormatV1::AnthropicMessages => match json_get(value, "content") {
            Some(c) => json_array(c).is_some(),
            None => false,
        },
    }
}

/// What came back from a probe.
#[derive(Debug)]
pub enum ProbeReply {
    /// A status that is no success, with as much of the body as could be read.
    Status(u16, String),
    /// No answer: whether it was an I/O error, and its message.
    NoAnswer { io: bool, message: String },
    /// A success with its body.
    Body(String),
    /// A success whose body could not be read: whether the reader timed out, and its message.
    Unreadable { timed_out: bool, message: String },
}

/// What a reply comes to.
pub open spec fn outcome_of(api_format: GenerationApiFormatV1, reply: ProbeReply, o: ProbeOutcome) -> bool {
    match reply {
        ProbeReply::Status(status, body) => o == ProbeOutcome::HttpError(status, body),
        ProbeReply::NoAnswer { io, message } => if io && has(lowered(message@), "timed out"@) {
            o is Timeout
        } else {
            o is Transport
        },
        ProbeReply::Body(body) => match json_parse(body@) {
            Some(v) if success_shape(api_format, v) => o is Success,
            _ => o is MalformedBody,
        },
        ProbeReply::Unreadable { timed_out, message } => if timed_out || has(
            unicode_lower(message@),
            "timed out"@,
        ) || has(unicode_lower(message@), "timeout"@) {
            o is Timeout
        } else {
            o is MalformedBody
        },
    }
}

/// Reads what a reply comes to.
pub fn probe_outcome(api_format: GenerationApiFormatV1, reply: ProbeReply) -> (o: ProbeOutcome)
    ensures
        outcome_of(api_format, reply, o),
{
    match reply {
        ProbeReply::Status(status, body) => ProbeOutcome::HttpError(status, body),
        ProbeReply::NoAnswer { io, message } => {
            let lower = lower_text(message.as_str());
            if io && contains(lower.as_str(), "timed out") {
                ProbeOutcome::Timeout
            } else {
                ProbeOutcome::Transport
            }
        },
        ProbeReply::Body(body) => match parse_json(body.as_str()) {
            Some(v) => {
                if body_is_protocol_success(api_format, &v) {
                    ProbeOutcome::Success
                } else {
                    ProbeOutcome::MalformedBody
                }
            },
            None => ProbeOutcome::MalformedBody,
        },
        ProbeReply::Unreadable { timed_out, message } => {
            let lower = to_unicode_lower(message.as_str());
            if timed_out || contains(lower.as_str(), "timed out") || contains(lower.as_str(), "timeout") {
                ProbeOutcome::Timeout
            } else {
                ProbeOutcome::MalformedBody
            }
        },
    }
}

/// A connection test before anything is sent: what to send, or that the address is invalid.
pub fn plan_connection_test(target: &ReadyGenerationTargetV1) -> (r: Result<
    (String, String),
    ConnectionTestFailure,
>)
    ensures
        match r {
            Ok((url, body)) => target.problem() is None && url@ == target.endpoint@ + path_of(
                target.api_format,
            ) && body@ == probe_of(
                target.api_format,
                json_string(target.model@),
                json_string(PING_PROMPT@),
            ),
            Err(f) => f is InvalidAddress && target.problem() is Some,
        },
{
    if target.validate().is_err() {
        return Err(ConnectionTestFailure::InvalidAddress);
    }
    Ok((request_url(target, target.api_format), probe_request_body(target)))
}

/// Judges the reply to a connection test.
pub fn finish_connection_test(target: &ReadyGenerationTargetV1, reply: ProbeReply) -> (r: Result<
    ConnectionTestSuccess,
    ConnectionTestFailure,
>)
    ensures
        exists|o: ProbeOutcome| #[trigger]
            outcome_of(target.api_format, reply, o) && match r {
                Ok(s) => verdict(o) is None && s.api_format == target.api_format && s.model@
                    == target.model@,
                Err(f) => verdict(o) == Some(f),
            },
{
    let outcome = probe_outcome(target.api_format, reply);
    let ghost o = outcome;
    assert(outcome_of(target.api_format, reply, o));
    match classify_probe(outcome) {
        Ok(()) => Ok(
            ConnectionTestSuccess { api_format: target.api_format, model: target.model.clone() },
        ),
        Err(f) => Err(f),
    }
}

// ---- Finding an object in an answer ----

proof fn object_closes(t: Seq<char>, i: int, s: ScanState)
    requires
        0 <= i <= t.len(),
    ensures
        object_end(t, i, s) matches Some(e) ==> i < e <= t.len() && t[e - 1] == '}',
    decreases t.len() - i,
{
    if i < t.len() && !closes(s, t[i]) {
        object_closes(t, i + 1, scan_step(s, t[i]));
    }
}

/// What is taken out of an answer stands in it as one piece, from the first opening brace of the
/// answer to a closing one.
pub proof fn an_object_is_part_of_the_answer(t: Seq<char>) -> (r: (Seq<char>, Seq<char>))
    requires
        object_in(t) is Some,
    ensures
        t == r.0 + object_in(t)->0 + r.1,
        !r.0.contains('{'),
        object_in(t)->0.len() >= 2,
        object_in(t)->0[0] == '{',
        object_in(t)->0.last() == '}',
{
    reveal_strlit("{");
    find_from_is_first(t, "{"@, 0);
    let i = find_from(t, "{"@, 0)->0;
    assert(t.subrange(i, i + 1)[0] == '{');
    assert(t[i] == '{');
    let s = ScanState { depth: 0, in_string: false, escaped: false };
    object_closes(t, i, s);
    let e = object_end(t, i, s)->0;
    if e == i + 1 {
        assert(t[e - 1] == '}');
    }
    let r = (t.take(i), t.skip(e));
    if r.0.contains('{') {
        let k = choose|k: int| 0 <= k < r.0.len() && r.0[k] == '{';
        assert(t.subrange(k, k + 1) =~= "{"@);
        assert(at(t, "{"@, k));
    }
    assert(t =~= r.0 + t.subrange(i, e) + r.1);
    assert(t.subrange(i, e).last() == t[e - 1]);
    r
}

/// A text in which nothing opens or closes.
pub open spec fn plain(x: Seq<char>) -> bool {
    forall|k: int| 0 <= k < x.len() ==> (#[trigger] x[k]) != '{' && x[k] != '}' && x[k] != '"'
}

proof fn plain_passes(t: Seq<char>, i: int, e: int, depth: int)
    requires
        0 <= i <= e <= t.len(),
        plain(t.subrange(i, e)),
    ensures
        object_end(t, i, ScanState { depth, in_string: false, escaped: false }) == object_end(
            t,
            e,
            ScanState { depth, in_string: false, escaped: false },
        ),
    decreases e - i,
{
    if i < e {
        assert(t.subrange(i, e)[0] == t[i]);
        assert forall|k: int| 0 <= k < t.subrange(i + 1, e).len() implies (#[trigger] t.subrange(i + 1, e)[k]) != '{'
            && t.subrange(i + 1, e)[k] != '}' && t.subrange(i + 1, e)[k] != '"' by {
            assert(t.subrange(i, e)[k + 1] == t.subrange(i + 1, e)[k]);
        }
        plain_passes(t, i + 1, e, depth);
    }
}

/// What may stand between two quotes: anything, but a quote only behind a backslash, and no
/// backslash alone at the end.
pub open spec fn quotable(x: Seq<char>) -> bool
    decreases x.len(),
{
    if x.len() == 0 {
        true
    } else if x[0] == '"' {
        false
    } else if x[0] == '\\' {
        x.len() >= 2 && quotable(x.skip(2))
    } else {
        quotable(x.skip(1))
    }
}

proof fn quoted_passes(t: Seq<char>, i: int, e: int, depth: int)
    requires
        0 <= i <= e < t.len(),
        quotable(t.subrange(i, e)),
        t[e] == '"',
    ensures
        object_end(t, i, ScanState { depth, in_string: true, escaped: false }) == object_end(
            t,
            e + 1,
            ScanState { depth, in_string: false, escaped: false },
        ),
    decreases e - i,
{
    let x = t.subrange(i, e);
    let s = ScanState { depth, in_string: true, escaped: false };
    if i < e {
        assert(x[0] == t[i]);
        if t[i] == '\\' {
            assert(x.skip(2) =~= t.subrange(i + 2, e));
            let mid = scan_step(s, t[i]);
            assert(mid == (ScanState { depth, in_string: true, escaped: true }));
            assert(object_end(t, i, s) == object_end(t, i + 1, mid));
            assert(scan_step(mid, t[i + 1]) == s);
            assert(object_end(t, i + 1, mid) == object_end(t, i + 2, s));
            quoted_passes(t, i + 2, e, depth);
        } else {
            assert(x.skip(1) =~= t.subrange(i + 1, e));
            assert(scan_step(s, t[i]) == s);
            quoted_passes(t, i + 1, e, depth);
        }
    } else {
        assert(scan_step(s, t[e]) == (ScanState { depth, in_string: false, escaped: false }));
    }
}

proof fn the_first_brace(a: Seq<char>, rest: Seq<char>)
    requires
        !a.contains('{'),
    ensures
        find_from(a + seq!['{'] + rest, "{"@, 0) == Some(a.len() as int),
{
    reveal_strlit("{");
    let t = a + seq!['{'] + rest;
    let n = a.len() as int;
    find_from_is_first(t, "{"@, 0);
    assert(t.subrange(n, n + 1) =~= "{"@);
    assert(at(t, "{"@, n));
    let i = find_from(t, "{"@, 0)->0;
    if i < n {
        assert(t.subrange(i, i + 1)[0] == '{');
        assert(a[i] == '{');
    }
}

/// The first object of an answer is taken whole: braces inside its strings do not count, whatever
/// stands before and behind it.
pub proof fn an_object_with_a_string_is_found(
    a: Seq<char>,
    x: Seq<char>,
    quoted: Seq<char>,
    y: Seq<char>,
    b: Seq<char>,
)
    requires
        !a.contains('{'),
        plain(x),
        quotable(quoted),
        plain(y),
    ensures
        object_in(a + seq!['{'] + x + seq!['"'] + quoted + seq!['"'] + y + seq!['}'] + b) == Some(
            seq!['{'] + x + seq!['"'] + quoted + seq!['"'] + y + seq!['}'],
        ),
{
    let t = a + seq!['{'] + x + seq!['"'] + quoted + seq!['"'] + y + seq!['}'] + b;
    let rest = x + seq!['"'] + quoted + seq!['"'] + y + seq!['}'] + b;
    assert(t =~= a + seq!['{'] + rest);
    the_first_brace(a, rest);
    let n = a.len() as int;
    let q = n + 1 + x.len() as int;
    let r = q + 1 + quoted.len() as int;
    let e = r + 1 + y.len() as int;
    assert(t[n] == '{' && t[q] == '"' && t[r] == '"' && t[e] == '}');
    assert(t.subrange(n + 1, q) =~= x);
    assert(t.subrange(q + 1, r) =~= quoted);
    assert(t.subrange(r + 1, e) =~= y);
    let zero = ScanState { depth: 0, in_string: false, escaped: false };
    let one = ScanState { depth: 1, in_string: false, escaped: false };
    assert(scan_step(zero, t[n]) == one);
    assert(object_end(t, n, zero) == object_end(t, n + 1, one));
    plain_passes(t, n + 1, q, 1);
    assert(scan_step(one, t[q]) == (ScanState { depth: 1, in_string: true, escaped: false }));
    quoted_passes(t, q + 1, r, 1);
    plain_passes(t, r + 1, e, 1);
    assert(object_end(t, e, one) == Some(e + 1));
    assert(t.subrange(n, e + 1) =~= seq!['{'] + x + seq!['"'] + quoted + seq!['"'] + y + seq!['}']);
}

/// The first object of an answer is taken whole with the objects inside it.
pub proof fn an_object_with_an_object_is_found(
    a: Seq<char>,
    x: Seq<char>,
    inner: Seq<char>,
    y: Seq<char>,
    b: Seq<char>,
)
    requires
        !a.contains('{'),
        plain(x),
        plain(inner),
        plain(y),
    ensures
        object_in(a + seq!['{'] + x + seq!['{'] + inner + seq!['}'] + y + seq!['}'] + b) == Some(
            seq!['{'] + x + seq!['{'] + inner + seq!['}'] + y + seq!['}'],
        ),
        object_in(a + seq!['{'] + x + seq!['}'] + b) == Some(seq!['{'] + x + seq!['}']),
        object_in(a + seq!['{'] + x) is None,
        object_in(a) is None,
{
    let zero = ScanState { depth: 0, in_string: false, escaped: false };
    let one = ScanState { depth: 1, in_string: false, escaped: false };
    let two = ScanState { depth: 2, in_string: false, escaped: false };
    let n = a.len() as int;
    let q = n + 1 + x.len() as int;
    let t = a + seq!['{'] + x + seq!['{'] + inner + seq!['}'] + y + seq!['}'] + b;
    let rest = x + seq!['{'] + inner + seq!['}'] + y + seq!['}'] + b;
    assert(t =~= a + seq!['{'] + rest);
    the_first_brace(a, rest);
    let r = q + 1 + inner.len() as int;
    let e = r + 1 + y.len() as int;
    assert(t[n] == '{' && t[q] == '{' && t[r] == '}' && t[e] == '}');
    assert(t.subrange(n + 1, q) =~= x);
    assert(t.subrange(q + 1, r) =~= inner);
    assert(t.subrange(r + 1, e) =~= y);
    assert(scan_step(zero, t[n]) == one);
    plain_passes(t, n + 1, q, 1);
    assert(scan_step(one, t[q]) == two);
    plain_passes(t, q + 1, r, 2);
    assert(scan_step(two, t[r]) == one);
    plain_passes(t, r + 1, e, 1);
    assert(object_end(t, e, one) == Some(e + 1));
    assert(t.subrange(n, e + 1) =~= seq!['{'] + x + seq!['{'] + inner + seq!['}'] + y + seq!['}']);
    let u = a + seq!['{'] + x + seq!['}'] + b;
    assert(u =~= a + seq!['{'] + (x + seq!['}'] + b));
    the_first_brace(a, x + seq!['}'] + b);
    assert(u[n] == '{' && u[q] == '}');
    assert(u.subrange(n + 1, q) =~= x);
    plain_passes(u, n + 1, q, 1);
    assert(object_end(u, q, one) == Some(q + 1));
    assert(u.subrange(n, q + 1) =~= seq!['{'] + x + seq!['}']);
    let v = a + seq!['{'] + x;
    the_first_brace(a, x);
    assert(v[n] == '{');
    assert(v.subrange(n + 1, q) =~= x);
    plain_passes(v, n + 1, q, 1);
    assert(object_end(v, q, one) is None);
    find_from_is_first(a, "{"@, 0);
    reveal_strlit("{");
    if let Some(i) = find_from(a, "{"@, 0) {
        assert(a.subrange(i, i + 1)[0] == '{');
        assert(a[i] == '{');
    }
}

/// Of an answer in parts, every part that is a text is read, in order, and no other.
pub proof fn every_text_part_is_read(blocks: Seq<JsonView>, n: int)
    requires
        0 <= n <= blocks.len(),
    ensures
        block_texts(blocks, n) == blocks.take(n).filter(
            |b: JsonView| text_member(Some(b), "type"@) == Some("text"@) && text_member(Some(b), "text"@) is Some,
        ).map_values(|b: JsonView| text_member(Some(b), "text"@)->0),
    decreases n,
{
    reveal(Seq::filter);
    let p = |b: JsonView| text_member(Some(b), "type"@) == Some("text"@) && text_member(Some(b), "text"@) is Some;
    let f = |b: JsonView| text_member(Some(b), "text"@)->0;
    if n > 0 {
        every_text_part_is_read(blocks, n - 1);
        assert(blocks.take(n).drop_last() =~= blocks.take(n - 1));
        assert(blocks.take(n).last() == blocks[n - 1]);
        let kept = blocks.take(n - 1).filter(p);
        if p(blocks[n - 1]) {
            assert(kept.push(blocks[n - 1]).map_values(f) =~= kept.map_values(f).push(f(blocks[n - 1])));
        }
    } else {
        assert(blocks.take(n).filter(p).map_values(f) =~= Seq::<Seq<char>>::empty());
    }
}

/// A request is one object that names its model and carries its prompt as the one message of the
/// user.
pub proof fn a_request_carries_its_prompt(api_format: GenerationApiFormatV1, model: Seq<char>, prompt: Seq<char>)
    ensures
        has(body_of(api_format, model, prompt), "[{\"content\":"@ + prompt + ",\"role\":\"user\"}]"@),
        has(body_of(api_format, model, prompt), "\"model\":"@ + model),
        has(probe_of(api_format, model, prompt), "[{\"content\":"@ + prompt + ",\"role\":\"user\"}]"@),
        has(probe_of(api_format, model, prompt), "\"model\":"@ + model),
{
    reveal_strlit("\"messages\":[{\"content\":");
    reveal_strlit("[{\"content\":");
    reveal_strlit(",\"model\":");
    reveal_strlit("\"model\":");
    let inner = "[{\"content\":"@ + prompt + ",\"role\":\"user\"}]"@;
    let label = "\"messages\":"@;
    reveal_strlit("\"messages\":");
    assert("\"messages\":[{\"content\":"@ =~= label + "[{\"content\":"@);
    assert(one_message(prompt) =~= label + inner);
    assert(",\"model\":"@ =~= seq![','] + "\"model\":"@);
    let named = "\"model\":"@ + model;
    carried("{"@, label, inner, seq![','], named, ",\"temperature\":0.2}"@);
    carried("{\"max_tokens\":4096,"@, label, inner, seq![','], named, "}"@);
    carried("{\"max_tokens\":8,"@, label, inner, seq![','], named, ",\"temperature\":0.2}"@);
    carried("{\"max_tokens\":"@ + (dec(4096) + ","@), label, inner, seq![','], named, "}"@);
    regrouped("{"@, label, inner, seq![','], "\"model\":"@, model, ",\"temperature\":0.2}"@);
    regrouped("{\"max_tokens\":4096,"@, label, inner, seq![','], "\"model\":"@, model, "}"@);
    regrouped("{\"max_tokens\":8,"@, label, inner, seq![','], "\"model\":"@, model, ",\"temperature\":0.2}"@);
    regrouped("{\"max_tokens\":"@ + (dec(4096) + ","@), label, inner, seq![','], "\"model\":"@, model, "}"@);
}

proof fn regrouped(
    a: Seq<char>,
    b: Seq<char>,
    c: Seq<char>,
    d: Seq<char>,
    e: Seq<char>,
    f: Seq<char>,
    g: Seq<char>,
)
    ensures
        a + (b + c) + (d + e) + f + g == a + b + c + d + (e + f) + g,
        a + (b + c) + ((d + e) + f) + g == a + b + c + d + (e + f) + g,
{
    assert(a + (b + c) + (d + e) + f + g =~= a + b + c + d + (e + f) + g);
    assert(a + (b + c) + ((d + e) + f) + g =~= a + b + c + d + (e + f) + g);
}

proof fn carried(
    a: Seq<char>,
    b: Seq<char>,
    c: Seq<char>,
    d: Seq<char>,
    e: Seq<char>,
    f: Seq<char>,
)
    ensures
        has(a + b + c + d + e + f, c),
        has(a + b + c + d + e + f, e),
{
    a_part_is_found(a + b, c, d + e + f);
    assert(a + b + c + (d + e + f) =~= a + b + c + d + e + f);
    a_part_is_found(a + b + c + d, e, f);
}

// ---- What a test of the connection comes to ----

proof fn lowered_holds(a: Seq<char>, m: Seq<char>, b: Seq<char>, word: Seq<char>)
    requires
        lowered(m) == word,
    ensures
        has(lowered(a + m + b), word),
{
    assert(lowered(a + m + b) =~= lowered(a) + word + lowered(b)) by {
        assert(lowered(m).len() == m.len());
        assert forall|k: int| 0 <= k < m.len() implies lowered(a + m + b)[a.len() + k] == word[k] by {
            assert((a + m + b)[a.len() + k] == m[k]);
            assert(word[k] == lowered(m)[k]);
        }
    }
    a_part_is_found(lowered(a), word, lowered(b));
}

/// A model is missing where an error that there is no such thing speaks of a model and says, in
/// whatever case, that it was not found; at any other status the words alone do not count.
pub proof fn a_missing_model_is_told(a: Seq<char>, m: Seq<char>, b: Seq<char>, n: Seq<char>, d: Seq<char>, status: u16)
    requires
        lowered(m) == "model"@,
        lowered(n) == "not found"@ || lowered(n) == "does not exist"@,
    ensures
        says_no_model(a + m + b + n + d),
        says_no_model(a + n + b + m + d),
        reports_missing(404, ""@, ""@, a + m + b + n + d),
        status != 404 ==> !reports_missing(status, ""@, ""@, a + m + b + n + d),
        reports_missing(status, "not_found_error"@, b, d),
        reports_missing(status, b, "model_not_found"@, d),
{
    reveal_strlit("");
    reveal_strlit("not_found_error");
    reveal_strlit("model_not_found");
    assert(""@.len() == 0);
    assert("not_found_error"@.len() == 15);
    assert("model_not_found"@.len() == 15);
    let x = a + m + b + n + d;
    assert(x =~= a + m + (b + n + d));
    assert(x =~= (a + m + b) + n + d);
    lowered_holds(a, m, b + n + d, "model"@);
    lowered_holds(a + m + b, n, d, lowered(n));
    let y = a + n + b + m + d;
    assert(y =~= a + n + (b + m + d));
    assert(y =~= (a + n + b) + m + d);
    lowered_holds(a, n, b + m + d, lowered(n));
    lowered_holds(a + n + b, m, d, "model"@);
}

/// A test passes only where a success came back with an answer in the format that was asked for.
/// Where no answer came the service could not be reached, or it took too long; where another
/// answer came the service is not the one that was asked for, or it lacks the model.
pub proof fn a_test_says_what_came_back(api_format: GenerationApiFormatV1, reply: ProbeReply, o: ProbeOutcome)
    requires
        outcome_of(api_format, reply, o),
    ensures
        verdict(o) is None ==> (reply matches ProbeReply::Body(body) && json_parse(body@) is Some && success_shape(
            api_format,
            json_parse(body@)->0,
        )),
        reply matches ProbeReply::Body(body) ==> (json_parse(body@) matches Some(v) && (answer_text(api_format, v)
            is Some ==> verdict(o) is None)) || (json_parse(body@) is None && verdict(o) == Some(
            ConnectionTestFailure::ProtocolMismatch,
        )),
        reply matches ProbeReply::NoAnswer { io, message } ==> verdict(o) == Some(ConnectionTestFailure::Unreachable)
            || verdict(o) == Some(ConnectionTestFailure::Timeout),
        reply matches ProbeReply::NoAnswer { io: false, message } ==> verdict(o) == Some(
            ConnectionTestFailure::Unreachable,
        ),
        reply matches ProbeReply::Status(status, body) ==> verdict(o) == Some(ConnectionTestFailure::ModelUnavailable)
            || verdict(o) == Some(ConnectionTestFailure::ProtocolMismatch),
        reply matches ProbeReply::Unreadable { timed_out: true, message } ==> verdict(o) == Some(
            ConnectionTestFailure::Timeout,
        ),
{
}

/// An I/O error that says, in whatever case, that the time ran out is told as such.
pub proof fn a_time_that_ran_out_is_told(
    api_format: GenerationApiFormatV1,
    message: String,
    a: Seq<char>,
    m: Seq<char>,
    b: Seq<char>,
    o: ProbeOutcome,
)
    requires
        message@ == a + m + b,
        lowered(m) == "timed out"@,
        outcome_of(api_format, ProbeReply::NoAnswer { io: true, message }, o),
    ensures
        verdict(o) == Some(ConnectionTestFailure::Timeout),
{
    lowered_holds(a, m, b, "timed out"@);
}

/// An answer in the one format is the content of the first message; in the other it is the text of
/// its parts.
pub proof fn an_answer_is_where_its_format_has_it(v: JsonView, choices: Seq<JsonView>, message: JsonView, words: Seq<char>)
    requires
        member(v, "choices"@) == Some(JsonView::List(choices)),
        choices.len() > 0,
        member(choices[0], "message"@) == Some(message),
        text_member(Some(message), "content"@) == Some(words),
    ensures
        answer_text(GenerationApiFormatV1::OpenAiChatCompletions, v) == Some(words),
        success_shape(GenerationApiFormatV1::OpenAiChatCompletions, v),
{
}

} // verus!

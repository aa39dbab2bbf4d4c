//! Chat providers: what goes over the wire, how a reply is read, and which
//! failures are worth another try.
use crate::codec;
use crate::codec::decode_arguments;
use crate::ir_hash::{record2, record3, record4};
use crate::json;
use crate::json::{Json, JsonV};
use crate::op;
use crate::op::{
    has_pending_tool_calls, ChatMessage, ChatMessageV, FinishReason, FinishReasonV, Model, Response,
    ResponseV, ToolCall, ToolCallV,
};
use crate::text;
use crate::text::{contains, is_blank, to_ascii_lower};
use vstd::prelude::*;

verus! {

/// How often a request is sent at most.
pub const MAX_ATTEMPTS: usize = 3;

/// What a request is extended by after an empty completion.
pub const CONTINUE_NUDGE: &'static str =
    "Your previous response was empty. Continue the task: if work remains, issue the next tool call; if the task is complete, say so explicitly.";

/// Where a provider is reached, and how.
#[derive(Debug)]
pub struct ProviderConfig {
    pub url: String,
    pub api_key: String,
    pub model: Model,
}

/// A tool as a provider is told of it.
#[derive(Debug)]
pub struct ToolFunctionSpec {
    pub name: String,
    pub description: String,
    pub parameters: Json,
}

/// The model of a function specification.
pub struct ToolFunctionSpecV {
    pub name: Seq<char>,
    pub description: Seq<char>,
    pub parameters: JsonV,
}

impl ToolFunctionSpec {
    pub open spec fn view(&self) -> ToolFunctionSpecV {
        ToolFunctionSpecV {
            name: self.name@,
            description: self.description@,
            parameters: self.parameters@,
        }
    }
}

impl Clone for ToolFunctionSpec {
    fn clone(&self) -> (r: Self)
        ensures
            r@ == self@,
    {
        ToolFunctionSpec {
            name: self.name.clone(),
            description: self.description.clone(),
            parameters: self.parameters.clone(),
        }
    }
}

/// A tool that is offered.
#[derive(Debug)]
pub struct ToolSpec {
    pub kind: String,
    pub function: ToolFunctionSpec,
}

/// The model of a tool specification.
pub struct ToolSpecV {
    pub kind: Seq<char>,
    pub function: ToolFunctionSpecV,
}

impl ToolSpec {
    pub open spec fn view(&self) -> ToolSpecV {
        ToolSpecV {
            kind: self.kind@,
            function: self.function@,
        }
    }
}

impl Clone for ToolSpec {
    fn clone(&self) -> (r: Self)
        ensures
            r@ == self@,
    {
        ToolSpec {
            kind: self.kind.clone(),
            function: self.function.clone(),
        }
    }
}

/// The models of a list of tools.
pub open spec fn tool_specs(list: Seq<ToolSpec>) -> Seq<ToolSpecV> {
    Seq::new(list.len(), |i: int| list[i]@)
}

/// The function with a name, a description and parameters, as a tool.
pub open spec fn function_tool(
    name: Seq<char>,
    description: Seq<char>,
    parameters: JsonV,
) -> ToolSpecV {
    ToolSpecV {
        kind: "function"@,
        function: ToolFunctionSpecV { name, description, parameters },
    }
}

impl ToolSpec {
    /// The function with a name, a description and parameters, as a tool.
    pub fn function(name: String, description: String, parameters: Json) -> (r: ToolSpec)
        ensures
            r@ == function_tool(name@, description@, parameters@),
    {
        ToolSpec {
            kind: "function".to_owned(),
            function: ToolFunctionSpec { name, description, parameters },
        }
    }
}

/// A tool on the wire.
pub open spec fn tool_wire(t: ToolSpecV) -> JsonV {
    JsonV::Object(
        seq![
            (
                "function"@,
                JsonV::Object(
                    seq![
                        ("description"@, JsonV::Str(t.function.description)),
                        ("name"@, JsonV::Str(t.function.name)),
                        ("parameters"@, t.function.parameters),
                    ],
                ),
            ),
            ("type"@, JsonV::Str(t.kind)),
        ],
    )
}

fn tool_to_wire(t: &ToolSpec) -> (r: Json)
    ensures
        r@ == tool_wire(t@),
{
    let function = record3(
        "description",
        Json::Str(t.function.description.clone()),
        "name",
        Json::Str(t.function.name.clone()),
        "parameters",
        t.function.parameters.clone(),
    );
    record2("function", function, "type", Json::Str(t.kind.clone()))
}

/// A call on the wire: nested, with the arguments as text.
pub open spec fn call_wire(c: ToolCallV) -> JsonV {
    JsonV::Object(
        seq![
            (
                "function"@,
                JsonV::Object(
                    seq![
                        ("arguments"@, JsonV::Str(json::json_text(c.arguments))),
                        ("name"@, JsonV::Str(c.name)),
                    ],
                ),
            ),
            ("id"@, JsonV::Str(c.id)),
            ("type"@, JsonV::Str("function"@)),
        ],
    )
}

fn call_to_wire(c: &ToolCall) -> (r: Json)
    ensures
        r@ == call_wire(c@),
{
    let function = record2(
        "arguments",
        Json::Str(c.arguments.to_text()),
        "name",
        Json::Str(c.name.clone()),
    );
    record3("function", function, "id", Json::Str(c.id.clone()), "type", Json::text("function"))
}

/// The calls of a message on the wire; nothing where there is none.
pub open spec fn calls_wire(list: Option<Seq<ToolCallV>>) -> Option<JsonV> {
    match list {
        Some(l) => if l.len() == 0 {
            None
        } else {
            Some(JsonV::Array(Seq::new(l.len(), |i: int| call_wire(l[i]))))
        },
        None => None,
    }
}

fn calls_to_wire(list: &Option<Vec<ToolCall>>) -> (r: Option<Json>)
    ensures
        match r {
            Some(v) => calls_wire(op::opt_calls(*list)) == Some(v@),
            None => calls_wire(op::opt_calls(*list)) is None,
        },
{
    broadcast use json::group_json;

    match list {
        Some(l) => {
            if l.len() == 0 {
                return None;
            }
            let ghost all = op::calls(l@);
            let mut out: Vec<Json> = Vec::new();
            let mut i: usize = 0;
            while i < l.len()
                invariant
                    i <= l@.len(),
                    all == op::calls(l@),
                    out@.len() == i,
                    forall|j: int| 0 <= j < i ==> (#[trigger] out@[j])@ == call_wire(all[j]),
                decreases l@.len() - i,
            {
                out.push(call_to_wire(&l[i]));
                i += 1;
            }
            assert(json::values(out@) =~= Seq::new(all.len(), |i: int| call_wire(all[i])));
            Some(Json::Array(out))
        },
        None => None,
    }
}

/// A message on the wire: what it says, without its identity.
pub open spec fn message_wire(m: op::Said) -> JsonV {
    let start = Seq::empty().push(("content"@, codec::nullable(m.content))).push(
        ("role"@, JsonV::Str(m.role)),
    );
    let named = match m.tool_call_id {
        Some(id) => start.push(("tool_call_id"@, JsonV::Str(id))),
        None => start,
    };
    JsonV::Object(
        match calls_wire(m.tool_calls) {
            Some(v) => named.push(("tool_calls"@, v)),
            None => named,
        },
    )
}

fn message_to_wire(m: &ChatMessage) -> (r: Json)
    ensures
        r@ == message_wire(m@.said()),
{
    broadcast use json::group_json;

    let mut list: Vec<(String, Json)> = Vec::new();
    assert(json::fields(list@) =~= Seq::empty());
    let content = match &m.content {
        Some(s) => Json::Str(s.clone()),
        None => Json::Null,
    };
    codec::add_field(&mut list, "content", content);
    codec::add_field(&mut list, "role", Json::Str(m.role.clone()));
    match &m.tool_call_id {
        Some(id) => {
            codec::add_field(&mut list, "tool_call_id", Json::Str(id.clone()));
        },
        None => {},
    }
    match calls_to_wire(&m.tool_calls) {
        Some(v) => {
            codec::add_field(&mut list, "tool_calls", v);
        },
        None => {},
    }
    Json::Object(list)
}

/// The messages of a request: the history and, on a nudge, one word more.
pub open spec fn sent(messages: Seq<ChatMessageV>, nudge: bool) -> Seq<op::Said> {
    let history = Seq::new(messages.len(), |i: int| messages[i].said());
    if nudge {
        history.push(op::user_said(CONTINUE_NUDGE@))
    } else {
        history
    }
}

/// The body of a request.
pub open spec fn chat_body(
    model: Seq<char>,
    tools: Seq<ToolSpecV>,
    messages: Seq<ChatMessageV>,
    nudge: bool,
) -> JsonV {
    let said = sent(messages, nudge);
    JsonV::Object(
        seq![
            (
                "messages"@,
                JsonV::Array(Seq::new(said.len(), |i: int| message_wire(said[i]))),
            ),
            ("model"@, JsonV::Str(model)),
            ("tool_choice"@, JsonV::Str("auto"@)),
            ("tools"@, JsonV::Array(Seq::new(tools.len(), |i: int| tool_wire(tools[i])))),
        ],
    )
}

/// The body of a request; with a nudge it differs from the one that was
/// answered by nothing.
pub fn build_chat_body(
    model: &Model,
    tools: &Vec<ToolSpec>,
    messages: &Vec<ChatMessage>,
    nudge: bool,
) -> (r: Json)
    ensures
        r@ == chat_body(model.0@, tool_specs(tools@), op::messages(messages@), nudge),
{
    broadcast use json::group_json;

    let ghost all = op::messages(messages@);
    let ghost said = sent(all, nudge);
    let mut list: Vec<Json> = Vec::new();
    let mut i: usize = 0;
    while i < messages.len()
        invariant
            i <= messages@.len(),
            all == op::messages(messages@),
            said == sent(all, nudge),
            list@.len() == i,
            forall|j: int| 0 <= j < i ==> (#[trigger] list@[j])@ == message_wire(said[j]),
        decreases messages@.len() - i,
    {
        list.push(message_to_wire(&messages[i]));
        assert(said[i as int] == all[i as int].said());
        i += 1;
    }
    if nudge {
        let word = ChatMessage::user(CONTINUE_NUDGE);
        list.push(message_to_wire(&word));
    }
    assert(json::values(list@) =~= Seq::new(said.len(), |i: int| message_wire(said[i])));
    let ghost offered = tool_specs(tools@);
    let mut wire: Vec<Json> = Vec::new();
    let mut k: usize = 0;
    while k < tools.len()
        invariant
            k <= tools@.len(),
            offered == tool_specs(tools@),
            wire@.len() == k,
            forall|j: int| 0 <= j < k ==> (#[trigger] wire@[j])@ == tool_wire(offered[j]),
        decreases tools@.len() - k,
    {
        wire.push(tool_to_wire(&tools[k]));
        k += 1;
    }
    assert(json::values(wire@) =~= Seq::new(offered.len(), |i: int| tool_wire(offered[i])));
    record4(
        "messages",
        Json::Array(list),
        "model",
        Json::Str(model.0.clone()),
        "tool_choice",
        Json::text("auto"),
        "tools",
        Json::Array(wire),
    )
}

/// The body of a first request.
pub fn openai_chat_body(model: &Model, tools: &Vec<ToolSpec>, messages: &Vec<ChatMessage>) -> (r:
    Json)
    ensures
        r@ == chat_body(model.0@, tool_specs(tools@), op::messages(messages@), false),
{
    build_chat_body(model, tools, messages, false)
}

/// A text without the slashes at its end.
pub open spec fn without_slashes(s: Seq<char>) -> Seq<char>
    decreases s.len(),
{
    if s.len() > 0 && s.last() == '/' {
        without_slashes(s.drop_last())
    } else {
        s
    }
}

/// Where completions are asked for.
pub fn chat_url(base_url: &str) -> (r: String)
    ensures
        r@ == without_slashes(base_url@) + "/chat/completions"@,
{
    let mut chars = text::chars_of(base_url);
    while chars.len() > 0 && chars[chars.len() - 1] == '/'
        invariant
            without_slashes(chars@) == without_slashes(base_url@),
        decreases chars@.len(),
    {
        let ghost before = chars@;
        chars.pop();
        assert(chars@ =~= before.drop_last());
    }
    assert(chars@.subrange(0, chars@.len() as int) =~= chars@);
    let mut out = text::string_of(&chars, 0, chars.len());
    out.append("/chat/completions");
    out
}

/// Why a history with an open call is not sent.
pub const MALFORMED_TRANSCRIPT: &'static str =
    "refusing to send malformed transcript to provider: assistant tool_call is missing a matching tool result; resume from a repaired checkpoint or reset the session";

/// A history with an open call is not sent.
pub fn check_transcript(messages: &Vec<ChatMessage>) -> (r: Result<(), String>)
    ensures
        r is Ok <==> op::pending(op::messages(messages@)).len() == 0,
        r matches Err(e) ==> e@ == MALFORMED_TRANSCRIPT@,
{
    if has_pending_tool_calls(messages) {
        Err(MALFORMED_TRANSCRIPT.to_owned())
    } else {
        Ok(())
    }
}

/// Why a provider gave no response.  Delays are in seconds.
#[derive(Debug)]
pub enum ProviderError {
    Transport { message: String, context: String },
    Http { status: u16, text: String, retry_after: Option<u64> },
    ContextOverflow { status: u16, text: String },
    EmptyCompletion { raw: String },
    Other(String),
}

/// The model of a provider error.
pub enum ProviderErrorV {
    Transport { message: Seq<char>, context: Seq<char> },
    Http { status: u16, text: Seq<char>, retry_after: Option<u64> },
    ContextOverflow { status: u16, text: Seq<char> },
    EmptyCompletion { raw: Seq<char> },
    Other(Seq<char>),
}

impl ProviderError {
    pub open spec fn view(&self) -> ProviderErrorV {
        match self {
            ProviderError::Transport { message, context } => ProviderErrorV::Transport {
                message: message@,
                context: context@,
            },
            ProviderError::Http { status, text, retry_after } => ProviderErrorV::Http {
                status: *status,
                text: text@,
                retry_after: *retry_after,
            },
            ProviderError::ContextOverflow { status, text } => ProviderErrorV::ContextOverflow {
                status: *status,
                text: text@,
            },
            ProviderError::EmptyCompletion { raw } => ProviderErrorV::EmptyCompletion { raw: raw@ },
            ProviderError::Other(x) => ProviderErrorV::Other(x@),
        }
    }
}

/// Whether a failure is worth another try.
pub open spec fn retryable(e: ProviderErrorV) -> bool {
    match e {
        ProviderErrorV::Transport { .. } => true,
        ProviderErrorV::Http { status, .. } => status == 429 || 500 <= status < 600,
        ProviderErrorV::ContextOverflow { .. } => false,
        ProviderErrorV::EmptyCompletion { .. } => true,
        ProviderErrorV::Other(_) => false,
    }
}

/// How long a provider asks to wait.
pub open spec fn asked_delay(e: ProviderErrorV) -> Option<u64> {
    match e {
        ProviderErrorV::Http { retry_after, .. } => retry_after,
        _ => None,
    }
}

/// How a status is shown: its number and its reason.
pub uninterp spec fn shown_status(status: u16) -> Seq<char>;

/// Calls `reqwest::StatusCode::from_u16` and shows the result, or the number
/// where it is no status; the text depends on the number alone.
#[verifier::external_body]
fn show_status(status: u16) -> (r: String)
    ensures
        r@ == shown_status(status),
{
    match reqwest::StatusCode::from_u16(status) {
        Ok(code) => code.to_string(),
        Err(_) => status.to_string(),
    }
}

/// An error of the surroundings.
#[verifier::external_type_specification]
#[verifier::external_body]
pub struct ExAnyhowError(anyhow::Error);

/// The text that an error shows with all its causes, if it shows the same one
/// every time.  What a cause writes when it is shown is code of its own: of an
/// error with a cause that does not always write the same, nothing is said.
pub uninterp spec fn error_text(e: anyhow::Error) -> Option<Seq<char>>;

/// Shows an `anyhow::Error` in its alternate form, which holds the error and
/// its causes; an error that always shows one text shows that one.
#[verifier::external_body]
fn show_error(e: &anyhow::Error) -> (r: String)
    ensures
        error_text(*e) matches Some(t) ==> r@ == t,
{
    format!("{:#}", e)
}

/// Calls `anyhow::Error::msg`; the error always shows the given text.
#[verifier::external_body]
fn anyhow_of(message: String) -> (r: anyhow::Error)
    ensures
        error_text(r) == Some(message@),
{
    anyhow::Error::msg(message)
}

/// Calls `anyhow::Error::context`; the context comes first in the text, the
/// text of the error after it, where that is always the same.
#[verifier::external_body]
fn in_context(e: anyhow::Error, context: String) -> (r: anyhow::Error)
    ensures
        error_text(e) matches Some(t) ==> error_text(r) == Some(context@ + ": "@ + t),
{
    e.context(context)
}

/// A context that did not fit into the window of a model.
#[derive(Debug)]
pub struct ContextOverflowError {
    pub status: u16,
    pub text: String,
}

/// The text of an overflow.
pub open spec fn overflow_text(status: u16, t: Seq<char>) -> Seq<char> {
    "context_length_exceeded: provider returned "@ + shown_status(status) + ": "@ + t
}

impl ContextOverflowError {
    /// The text of the error.
    pub fn message(&self) -> (r: String)
        ensures
            r@ == overflow_text(self.status, self.text@),
    {
        let mut out = "context_length_exceeded: provider returned ".to_owned();
        out.append(show_status(self.status).as_str());
        out.append(": ");
        out.append(self.text.as_str());
        out
    }
}

/// A provider failure on its way to the surroundings.
#[derive(Debug)]
pub enum Raised {
    Overflow(ContextOverflowError),
    Other(anyhow::Error),
}

/// The text of a provider error with its causes.
pub open spec fn provider_error_text(e: ProviderErrorV) -> Seq<char> {
    match e {
        ProviderErrorV::Transport { message, context } => context + ": "@ + message,
        ProviderErrorV::Http { status, text, .. } => "provider returned "@ + shown_status(status)
            + ": "@ + text,
        ProviderErrorV::ContextOverflow { status, text } => overflow_text(status, text),
        ProviderErrorV::EmptyCompletion { raw } =>
            "provider returned an empty completion (no content or tool calls) after retries; raw response body: "@
            + raw,
        ProviderErrorV::Other(s) => s,
    }
}

impl ProviderError {
    /// A request that did not get through.
    pub fn transport(message: String) -> (r: ProviderError)
        ensures
            r@ == (ProviderErrorV::Transport {
                message: message@,
                context: "provider request failed"@,
            }),
    {
        ProviderError::Transport { message, context: "provider request failed".to_owned() }
    }

    /// Whether the failure is worth another try.
    pub fn is_retryable(&self) -> (r: bool)
        ensures
            r == retryable(self@),
    {
        match self {
            ProviderError::Transport { .. } => true,
            ProviderError::Http { status, .. } => *status == 429 || (500 <= *status && *status
                < 600),
            ProviderError::ContextOverflow { .. } => false,
            ProviderError::EmptyCompletion { .. } => true,
            ProviderError::Other(_) => false,
        }
    }

    /// How long the provider asks to wait.
    pub fn retry_after(&self) -> (r: Option<u64>)
        ensures
            r == asked_delay(self@),
    {
        match self {
            ProviderError::Http { retry_after, .. } => *retry_after,
            _ => None,
        }
    }

    /// The failure as it is passed on: an overflow keeps its type, every
    /// other failure becomes an error of the surroundings.
    pub fn raise(self) -> (r: Raised)
        ensures
            match r {
                Raised::Overflow(e) => self@ == (ProviderErrorV::ContextOverflow {
                    status: e.status,
                    text: e.text@,
                }),
                Raised::Other(e) => self@ !is ContextOverflow && error_text(e) == Some(
                    provider_error_text(self@),
                ),
            },
    {
        match self {
            ProviderError::Transport { message, context } => Raised::Other(
                in_context(anyhow_of(message), context),
            ),
            ProviderError::Http { status, text, .. } => {
                let mut out = "provider returned ".to_owned();
                out.append(show_status(status).as_str());
                out.append(": ");
                out.append(text.as_str());
                Raised::Other(anyhow_of(out))
            },
            ProviderError::ContextOverflow { status, text } => Raised::Overflow(
                ContextOverflowError { status, text },
            ),
            ProviderError::EmptyCompletion { raw } => {
                let mut out =
                    "provider returned an empty completion (no content or tool calls) after retries; raw response body: ".to_owned();
                out.append(raw.as_str());
                Raised::Other(anyhow_of(out))
            },
            ProviderError::Other(s) => Raised::Other(anyhow_of(s)),
        }
    }

    /// The failure as an error of the surroundings.  Of an overflow only the
    /// text is left, by which it is still recognized; [`ProviderError::raise`]
    /// keeps its type.
    pub fn into_anyhow(self) -> (r: anyhow::Error)
        ensures
            error_text(r) == Some(provider_error_text(self@)),
    {
        match self.raise() {
            Raised::Overflow(e) => anyhow_of(e.message()),
            Raised::Other(e) => e,
        }
    }
}

/// Whether a text speaks of something, whatever the case of its letters.
pub open spec fn speaks_of(s: Seq<char>, what: Seq<char>) -> bool {
    text::occurs_in(what, text::ascii_lower_text(s))
}

/// Whether the text of an error says that a context did not fit.
pub open spec fn says_overflow(s: Seq<char>) -> bool {
    ||| speaks_of(s, "context_length_exceeded"@)
    ||| speaks_of(s, "prompt is too long"@)
    ||| speaks_of(s, "context window"@) && (speaks_of(s, "exceed"@) || speaks_of(s, "too long"@))
    ||| speaks_of(s, "context"@) && speaks_of(s, "length"@) && (speaks_of(s, "exceed"@)
        || speaks_of(s, "maximum"@))
}

/// Whether the text of an error says that a context did not fit.
pub fn is_context_overflow_message(message: &str) -> (r: bool)
    ensures
        r == says_overflow(message@),
{
    let lower = to_ascii_lower(message);
    let s = lower.as_str();
    contains(s, "context_length_exceeded") || contains(s, "prompt is too long") || (contains(
        s,
        "context window",
    ) && (contains(s, "exceed") || contains(s, "too long"))) || (contains(s, "context") && contains(
        s,
        "length",
    ) && (contains(s, "exceed") || contains(s, "maximum")))
}

/// Whether an error says that a context did not fit.
pub fn is_context_overflow_anyhow(e: &anyhow::Error) -> (r: bool)
    ensures
        error_text(*e) matches Some(t) ==> r == says_overflow(t),
{
    is_context_overflow_message(show_error(e).as_str())
}

/// Whether a reply says that a context did not fit.
pub open spec fn reply_overflows(status: u16, s: Seq<char>) -> bool {
    status == 400 && (speaks_of(s, "context_length_exceeded"@) || (speaks_of(s, "context"@) && (
    speaks_of(s, "limit"@) || speaks_of(s, "length"@) || speaks_of(s, "too long"@) || speaks_of(
        s,
        "maximum"@,
    ))))
}

/// Whether a reply says that a context did not fit.
pub fn is_context_overflow(status: u16, reply: &str) -> (r: bool)
    ensures
        r == reply_overflows(status, reply@),
{
    if status != 400 {
        return false;
    }
    let lower = to_ascii_lower(reply);
    let s = lower.as_str();
    contains(s, "context_length_exceeded") || (contains(s, "context") && (contains(s, "limit")
        || contains(s, "length") || contains(s, "too long") || contains(s, "maximum")))
}

/// A reply with an error status.
pub open spec fn refused(status: u16, s: Seq<char>, retry_after: Option<u64>) -> Option<
    ProviderErrorV,
> {
    if 200 <= status < 300 {
        None
    } else if reply_overflows(status, s) {
        Some(ProviderErrorV::ContextOverflow { status, text: s })
    } else {
        Some(ProviderErrorV::Http { status, text: s, retry_after })
    }
}

/// Reads the status of a reply: nothing where it is a success.
pub fn check_status(status: u16, reply: &str, retry_after: Option<u64>) -> (r: Option<
    ProviderError,
>)
    ensures
        match r {
            Some(e) => refused(status, reply@, retry_after) == Some(e@),
            None => refused(status, reply@, retry_after) is None,
        },
{
    if 200 <= status && status < 300 {
        None
    } else if is_context_overflow(status, reply) {
        Some(ProviderError::ContextOverflow { status, text: reply.to_owned() })
    } else {
        Some(ProviderError::Http { status, text: reply.to_owned(), retry_after })
    }
}

/// Whether a text consists of decimal digits.
pub open spec fn all_digits(s: Seq<char>) -> bool {
    s.len() > 0 && forall|i: int| 0 <= i < s.len() ==> '0' <= #[trigger] s[i] <= '9'
}

/// The number of seconds that a header asks for: decimal digits, after a plus
/// sign at most, that fit.
pub open spec fn seconds(header: Seq<char>) -> Option<u64> {
    let digits = if header.len() > 0 && header[0] == '+' {
        header.skip(1)
    } else {
        header
    };
    if all_digits(digits) && text::number(digits) <= u64::MAX {
        Some(text::number(digits) as u64)
    } else {
        None
    }
}

/// The number of seconds that a header asks for.
pub fn parse_seconds(header: &str) -> (r: Option<u64>)
    ensures
        r == seconds(header@),
{
    let s = text::chars_of(header);
    let from: usize = if s.len() > 0 && s[0] == '+' {
        1
    } else {
        0
    };
    let ghost digits = s@.skip(from as int);
    assert(digits =~= if header@.len() > 0 && header@[0] == '+' {
        header@.skip(1)
    } else {
        header@
    });
    if from >= s.len() {
        return None;
    }
    let mut total: u128 = 0;
    let mut i: usize = from;
    assert(digits.take(0) =~= Seq::empty());
    while i < s.len()
        invariant
            from <= i <= s@.len(),
            digits == s@.skip(from as int),
            digits == (if header@.len() > 0 && header@[0] == '+' {
                header@.skip(1)
            } else {
                header@
            }),
            total == text::number(digits.take(i - from)),
            total <= u64::MAX,
            forall|j: int| 0 <= j < i - from ==> '0' <= #[trigger] digits[j] <= '9',
        decreases s@.len() - i,
    {
        let c = s[i];
        assert(digits[i - from] == c);
        assert(digits.take(i + 1 - from).drop_last() =~= digits.take(i - from));
        if !('0' <= c && c <= '9') {
            return None;
        }
        total = 10 * total + (c as u32 - '0' as u32) as u128;
        i += 1;
        if total > u64::MAX as u128 {
            proof {
                text::number_grows(digits, i - from);
            }
            return None;
        }
    }
    assert(digits.take(i - from) =~= digits);
    Some(total as u64)
}

/// A call as a provider sends it.
#[derive(Debug)]
pub struct ApiToolCall {
    pub id: String,
    pub name: String,
    pub arguments: String,
}

/// The model of a call.
pub struct ApiToolCallV {
    pub id: Seq<char>,
    pub name: Seq<char>,
    pub arguments: Seq<char>,
}

impl ApiToolCall {
    pub open spec fn view(&self) -> ApiToolCallV {
        ApiToolCallV {
            id: self.id@,
            name: self.name@,
            arguments: self.arguments@,
        }
    }
}

/// The first choice of a completion.
#[derive(Debug)]
pub struct Choice {
    pub content: Option<String>,
    pub tool_calls: Option<Vec<ApiToolCall>>,
    pub finish_reason: Option<String>,
}

/// What a completion used.
#[derive(Debug, Clone, Copy, PartialEq, Eq, Structural)]
pub struct Usage {
    pub total_tokens: Option<u32>,
    pub prompt_tokens: Option<u32>,
    pub completion_tokens: Option<u32>,
}

/// A completion as a provider sends it.
#[derive(Debug)]
pub struct ChatCompletion {
    pub choices: Vec<Choice>,
    pub usage: Option<Usage>,
}

/// The model of a choice.
pub struct ChoiceV {
    pub content: Option<Seq<char>>,
    pub tool_calls: Option<Seq<ApiToolCallV>>,
    pub finish_reason: Option<Seq<char>>,
}

/// The models of a list of calls.
pub open spec fn api_calls(list: Seq<ApiToolCall>) -> Seq<ApiToolCallV> {
    Seq::new(list.len(), |i: int| list[i]@)
}

impl Choice {
    pub open spec fn view(&self) -> ChoiceV {
        ChoiceV {
            content: op::opt_text(self.content),
            tool_calls: match self.tool_calls {
                Some(l) => Some(api_calls(l@)),
                None => None,
            },
            finish_reason: op::opt_text(self.finish_reason),
        }
    }
}

/// The calls of a response: arguments that are no JSON are kept as they are.
pub open spec fn neutral_calls(list: Option<Seq<ApiToolCallV>>) -> Seq<ToolCallV> {
    match list {
        Some(l) => Seq::new(
            l.len(),
            |i: int|
                ToolCallV {
                    id: l[i].id,
                    name: l[i].name,
                    arguments: codec::decoded_arguments(l[i].arguments),
                },
        ),
        None => Seq::empty(),
    }
}

/// A number of tokens, none where it is not told.
pub open spec fn told(n: Option<u32>) -> u32 {
    match n {
        Some(x) => x,
        None => 0,
    }
}

/// The reason for which a response ended.
pub open spec fn reason_of(s: Option<Seq<char>>) -> Option<FinishReasonV> {
    match s {
        Some(x) => Some(op::finish_reason(x)),
        None => None,
    }
}

/// The text of a choice.
pub open spec fn content_of(s: Option<Seq<char>>) -> Seq<char> {
    match s {
        Some(x) => x,
        None => Seq::empty(),
    }
}

/// The response that a completion stands for.  One that says nothing, calls
/// nothing and did not stop is no response.
pub open spec fn completed(choices: Seq<ChoiceV>, usage: Option<Usage>, raw: Seq<char>) -> Result<
    ResponseV,
    ProviderErrorV,
> {
    if choices.len() == 0 {
        Err(ProviderErrorV::Other("provider returned no choices"@))
    } else {
        let c = choices[0];
        let u = match usage {
            Some(u) => u,
            None => Usage { total_tokens: None, prompt_tokens: None, completion_tokens: None },
        };
        let input = told(u.prompt_tokens);
        let output = told(u.completion_tokens);
        let calls = neutral_calls(c.tool_calls);
        let reason = reason_of(c.finish_reason);
        if text::blank(content_of(c.content)) && calls.len() == 0 && reason != Some(
            FinishReasonV::Stop,
        ) {
            Err(ProviderErrorV::EmptyCompletion { raw })
        } else {
            Ok(
                ResponseV {
                    content: content_of(c.content),
                    tool_calls: calls,
                    finish_reason: reason,
                    input_tokens: input,
                    output_tokens: output,
                    total_tokens: match u.total_tokens {
                        Some(t) => t,
                        None => if input + output > u32::MAX {
                            u32::MAX
                        } else {
                            (input + output) as u32
                        },
                    },
                    cached_input_tokens: None,
                    cost_micro_usd: None,
                    pricing: None,
                    metadata: Seq::empty(),
                },
            )
        }
    }
}

/// The models of a list of choices.
pub open spec fn choices_of(list: Seq<Choice>) -> Seq<ChoiceV> {
    Seq::new(list.len(), |i: int| list[i]@)
}

fn read_calls(list: &Option<Vec<ApiToolCall>>) -> (r: Vec<ToolCall>)
    ensures
        op::calls(r@) == neutral_calls(
            match *list {
                Some(l) => Some(api_calls(l@)),
                None => None,
            },
        ),
{
    let mut out: Vec<ToolCall> = Vec::new();
    match list {
        Some(l) => {
            let ghost all = api_calls(l@);
            let ghost goal = neutral_calls(Some(all));
            let mut i: usize = 0;
            while i < l.len()
                invariant
                    i <= l@.len(),
                    all == api_calls(l@),
                    goal == neutral_calls(Some(all)),
                    out@.len() == i,
                    forall|j: int| 0 <= j < i ==> (#[trigger] out@[j])@ == goal[j],
                decreases l@.len() - i,
            {
                let call = ToolCall {
                    id: l[i].id.clone(),
                    name: l[i].name.clone(),
                    arguments: decode_arguments(l[i].arguments.as_str()),
                };
                out.push(call);
                i += 1;
            }
            assert(op::calls(out@) =~= goal);
        },
        None => {
            assert(op::calls(out@) =~= Seq::empty());
        },
    }
    out
}

/// Reads a completion; `raw` is the text of the reply that it came in.
pub fn read_completion(c: ChatCompletion, raw: String) -> (r: Result<Response, ProviderError>)
    ensures
        match (r, completed(choices_of(c.choices@), c.usage, raw@)) {
            (Ok(a), Ok(b)) => a@ == b,
            (Err(a), Err(b)) => a@ == b,
            _ => false,
        },
{
    if c.choices.len() == 0 {
        return Err(ProviderError::Other("provider returned no choices".to_owned()));
    }
    let choice = &c.choices[0];
    assert(choices_of(c.choices@)[0] == choice@);
    let usage = match c.usage {
        Some(u) => u,
        None => Usage { total_tokens: None, prompt_tokens: None, completion_tokens: None },
    };
    let input_tokens: u32 = match usage.prompt_tokens {
        Some(n) => n,
        None => 0,
    };
    let output_tokens: u32 = match usage.completion_tokens {
        Some(n) => n,
        None => 0,
    };
    let total_tokens: u32 = match usage.total_tokens {
        Some(n) => n,
        None => if u32::MAX - input_tokens < output_tokens {
            u32::MAX
        } else {
            input_tokens + output_tokens
        },
    };
    let finish_reason = match &choice.finish_reason {
        Some(s) => Some(FinishReason::from_provider(s.as_str())),
        None => None,
    };
    let content = match &choice.content {
        Some(s) => s.clone(),
        None => {
            let s = String::new();
            assert(s@ =~= Seq::empty());
            s
        },
    };
    let tool_calls = read_calls(&choice.tool_calls);
    let stopped = match &finish_reason {
        Some(FinishReason::Stop) => true,
        _ => false,
    };
    assert(op::calls(tool_calls@).len() == tool_calls@.len());
    if is_blank(content.as_str()) && tool_calls.len() == 0 && !stopped {
        return Err(ProviderError::EmptyCompletion { raw });
    }
    let metadata: Vec<(String, Json)> = Vec::new();
    assert(json::fields(metadata@) =~= Seq::empty());
    Ok(
        Response {
            content,
            tool_calls,
            finish_reason,
            input_tokens,
            output_tokens,
            total_tokens,
            cached_input_tokens: None,
            cost_micro_usd: None,
            pricing: None,
            metadata,
        },
    )
}

/// Where a request stands among its tries.  The delay is in seconds.
#[derive(Debug, Clone, Copy, PartialEq, Eq, Structural)]
pub struct RetryState {
    pub attempt: usize,
    pub delay: u64,
    pub nudge: bool,
}

/// What follows a failed try.
#[derive(Debug, Clone, Copy, PartialEq, Eq, Structural)]
pub enum RetryStep {
    /// The request is sent again after some seconds.
    Again { after: u64, state: RetryState },
    GiveUp,
}

/// A request that was not sent yet.
pub open spec fn untried() -> RetryState {
    RetryState { attempt: 0, delay: 1, nudge: false }
}

/// What follows a failed try: the request is sent again while tries are left
/// and the failure is worth it, each time after twice the delay or what the
/// provider asks for, and changed by a nudge once it was answered by nothing.
pub open spec fn after_failure(s: RetryState, e: ProviderErrorV) -> RetryStep {
    if s.attempt + 1 < MAX_ATTEMPTS && retryable(e) {
        RetryStep::Again {
            after: match asked_delay(e) {
                Some(d) => d,
                None => s.delay,
            },
            state: RetryState {
                attempt: (s.attempt + 1) as usize,
                delay: if s.delay > u64::MAX / 2 {
                    u64::MAX
                } else {
                    (2 * s.delay) as u64
                },
                nudge: s.nudge || e is EmptyCompletion,
            },
        }
    } else {
        RetryStep::GiveUp
    }
}

impl RetryState {
    /// A request that was not sent yet.
    pub fn new() -> (r: RetryState)
        ensures
            r == untried(),
    {
        RetryState { attempt: 0, delay: 1, nudge: false }
    }

    /// What follows a failed try.
    pub fn failed(self, e: &ProviderError) -> (r: RetryStep)
        ensures
            r == after_failure(self, e@),
    {
        if self.attempt >= MAX_ATTEMPTS - 1 || !e.is_retryable() {
            return RetryStep::GiveUp;
        }
        let after: u64 = match e.retry_after() {
            Some(d) => d,
            None => self.delay,
        };
        let delay: u64 = if self.delay > u64::MAX / 2 {
            u64::MAX
        } else {
            2 * self.delay
        };
        let empty = match e {
            ProviderError::EmptyCompletion { .. } => true,
            _ => false,
        };
        RetryStep::Again {
            after,
            state: RetryState { attempt: self.attempt + 1, delay, nudge: self.nudge || empty },
        }
    }
}

/// The state of a request after a list of failures, or nothing where it was
/// given up before.
pub open spec fn after_failures(list: Seq<ProviderErrorV>) -> Option<RetryState>
    decreases list.len(),
{
    if list.len() == 0 {
        Some(untried())
    } else {
        match after_failures(list.drop_last()) {
            Some(s) => match after_failure(s, list.last()) {
                RetryStep::Again { state, .. } => Some(state),
                RetryStep::GiveUp => None,
            },
            None => None,
        }
    }
}

/// Tries are bounded, and a failure that is not worth another try ends them.
pub proof fn tries_are_bounded(list: Seq<ProviderErrorV>)
    ensures
        after_failures(list) matches Some(s) ==> s.attempt == list.len() && list.len()
            < MAX_ATTEMPTS,
        list.len() > 0 && !retryable(list.last()) ==> after_failures(list) is None,
    decreases list.len(),
{
    if list.len() > 0 {
        tries_are_bounded(list.drop_last());
    }
}

/// After an empty completion every later request carries the nudge, and
/// before the first one none does.
pub proof fn nudge_follows_emptiness(list: Seq<ProviderErrorV>)
    ensures
        after_failures(list) matches Some(s) ==> (s.nudge <==> exists|i: int|
            0 <= i < list.len() && #[trigger] list[i] is EmptyCompletion),
    decreases list.len(),
{
    if list.len() > 0 {
        let rest = list.drop_last();
        nudge_follows_emptiness(rest);
        if after_failures(list) is Some {
            if exists|i: int| 0 <= i < rest.len() && #[trigger] rest[i] is EmptyCompletion {
                let i = choose|i: int| 0 <= i < rest.len() && #[trigger] rest[i] is EmptyCompletion;
                assert(list[i] is EmptyCompletion);
            }
            if list.last() is EmptyCompletion {
                assert(list[list.len() - 1] is EmptyCompletion);
            }
            if exists|i: int| 0 <= i < list.len() && #[trigger] list[i] is EmptyCompletion {
                let i = choose|i: int| 0 <= i < list.len() && #[trigger] list[i] is EmptyCompletion;
                if i < rest.len() {
                    assert(rest[i] is EmptyCompletion);
                }
            }
        }
    }
}

/// A nudge adds one message to a request and changes nothing else.
pub proof fn nudge_is_added(messages: Seq<ChatMessageV>)
    ensures
        sent(messages, true) == sent(messages, false).push(op::user_said(CONTINUE_NUDGE@)),
        sent(messages, false).len() == messages.len(),
{
}

/// What is said to identify messages stays here: two histories that say the
/// same make the same request.
pub proof fn identities_stay_off_the_wire(
    model: Seq<char>,
    tools: Seq<ToolSpecV>,
    a: Seq<ChatMessageV>,
    b: Seq<ChatMessageV>,
    nudge: bool,
)
    requires
        a.len() == b.len(),
        forall|i: int| 0 <= i < a.len() ==> (#[trigger] a[i]).said() == b[i].said(),
    ensures
        chat_body(model, tools, a, nudge) == chat_body(model, tools, b, nudge),
{
    assert(Seq::new(a.len(), |i: int| a[i].said()) =~= Seq::new(b.len(), |i: int| b[i].said()));
}

/// An overflow is known again by its text, also as an error of the
/// surroundings.
pub proof fn typed_overflow_is_recognized(status: u16, t: Seq<char>)
    ensures
        says_overflow(provider_error_text(ProviderErrorV::ContextOverflow { status, text: t })),
{
    reveal_strlit("context_length_exceeded: provider returned ");
    reveal_strlit("context_length_exceeded");
    let s = overflow_text(status, t);
    let lower = text::ascii_lower_text(s);
    let head = "context_length_exceeded"@;
    let i: int = 0;
    assert(lower.subrange(i, i + head.len()) =~= head);
    assert(text::occurs_in(head, lower));
}

} // verus!

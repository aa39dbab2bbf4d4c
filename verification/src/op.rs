//! Models, messages and tool calls, and the pending-tool-call discipline of a
//! chat history.
use crate::json;
use crate::json::{object_of, Json, JsonV};
use crate::text;
use crate::text::{is_blank, same_text};
use crate::trace::Pricing;
use vstd::prelude::*;

verus! {

/// A model name.
#[derive(Debug)]
pub struct Model(pub String);

impl Clone for Model {
    fn clone(&self) -> (r: Self)
        ensures
            r.0@ == self.0@,
    {
        Model(self.0.clone())
    }
}

/// Why a provider ended a completion.
#[derive(Debug)]
pub enum FinishReason {
    Stop,
    ToolCalls,
    Length,
    ContentFilter,
    Other(String),
}

/// The model of a finish reason.
pub enum FinishReasonV {
    Stop,
    ToolCalls,
    Length,
    ContentFilter,
    Other(Seq<char>),
}

impl FinishReason {
    pub open spec fn view(&self) -> FinishReasonV {
        match self {
            FinishReason::Stop => FinishReasonV::Stop,
            FinishReason::ToolCalls => FinishReasonV::ToolCalls,
            FinishReason::Length => FinishReasonV::Length,
            FinishReason::ContentFilter => FinishReasonV::ContentFilter,
            FinishReason::Other(s) => FinishReasonV::Other(s@),
        }
    }

    /// The reason that a provider's wire name stands for; a name that no
    /// provider is known to use is kept.
    pub fn from_provider(value: &str) -> (r: Self)
        ensures
            r@ == finish_reason(value@),
    {
        if same_text(value, "stop") || same_text(value, "end_turn") {
            FinishReason::Stop
        } else if same_text(value, "tool_calls") || same_text(value, "tool_use") {
            FinishReason::ToolCalls
        } else if same_text(value, "length") || same_text(value, "max_tokens") {
            FinishReason::Length
        } else if same_text(value, "content_filter") {
            FinishReason::ContentFilter
        } else {
            FinishReason::Other(value.to_owned())
        }
    }

    pub fn is_stop(&self) -> (r: bool)
        ensures
            r == (self@ is Stop),
    {
        match self {
            FinishReason::Stop => true,
            _ => false,
        }
    }
}

impl Clone for FinishReason {
    fn clone(&self) -> (r: Self)
        ensures
            r@ == self@,
    {
        match self {
            FinishReason::Stop => FinishReason::Stop,
            FinishReason::ToolCalls => FinishReason::ToolCalls,
            FinishReason::Length => FinishReason::Length,
            FinishReason::ContentFilter => FinishReason::ContentFilter,
            FinishReason::Other(s) => FinishReason::Other(s.clone()),
        }
    }
}

/// The reason that a wire name stands for.
pub open spec fn finish_reason(name: Seq<char>) -> FinishReasonV {
    if name == "stop"@ || name == "end_turn"@ {
        FinishReasonV::Stop
    } else if name == "tool_calls"@ || name == "tool_use"@ {
        FinishReasonV::ToolCalls
    } else if name == "length"@ || name == "max_tokens"@ {
        FinishReasonV::Length
    } else if name == "content_filter"@ {
        FinishReasonV::ContentFilter
    } else {
        FinishReasonV::Other(name)
    }
}

/// A provider-neutral tool invocation.
#[derive(Debug)]
pub struct ToolCall {
    pub id: String,
    pub name: String,
    pub arguments: Json,
}

/// The model of a tool invocation.
pub struct ToolCallV {
    pub id: Seq<char>,
    pub name: Seq<char>,
    pub arguments: JsonV,
}

impl ToolCall {
    pub open spec fn view(&self) -> ToolCallV {
        ToolCallV { id: self.id@, name: self.name@, arguments: self.arguments@ }
    }

    pub fn new(id: &str, name: &str, arguments: Json) -> (r: Self)
        ensures
            r@ == (ToolCallV { id: id@, name: name@, arguments: arguments@ }),
    {
        ToolCall { id: id.to_owned(), name: name.to_owned(), arguments }
    }
}

impl Clone for ToolCall {
    fn clone(&self) -> (r: Self)
        ensures
            r@ == self@,
    {
        ToolCall { id: self.id.clone(), name: self.name.clone(), arguments: self.arguments.clone() }
    }
}

/// The models of a list of tool calls.
pub open spec fn calls(list: Seq<ToolCall>) -> Seq<ToolCallV> {
    Seq::new(list.len(), |i: int| list[i]@)
}

/// A copy of a list of tool calls.
pub fn copy_calls(list: &Vec<ToolCall>) -> (r: Vec<ToolCall>)
    ensures
        calls(r@) == calls(list@),
{
    let mut out: Vec<ToolCall> = Vec::new();
    let mut i: usize = 0;
    while i < list.len()
        invariant
            i <= list@.len(),
            out@.len() == i,
            forall|j: int| 0 <= j < i ==> (#[trigger] out@[j])@ == list@[j]@,
        decreases list@.len() - i,
    {
        out.push(list[i].clone());
        i += 1;
    }
    assert(calls(out@) =~= calls(list@));
    out
}

/// A text of an optional string.
pub open spec fn opt_text(s: Option<String>) -> Option<Seq<char>> {
    match s {
        Some(t) => Some(t@),
        None => None,
    }
}

/// A copy of an optional string.
pub fn copy_opt(s: &Option<String>) -> (r: Option<String>)
    ensures
        opt_text(r) == opt_text(*s),
{
    match s {
        Some(t) => Some(t.clone()),
        None => None,
    }
}

/// Whether two optional strings hold the same text.
pub fn same_opt(a: &Option<String>, b: &Option<String>) -> (r: bool)
    ensures
        r == (opt_text(*a) == opt_text(*b)),
{
    match (a, b) {
        (Some(x), Some(y)) => *x == *y,
        (None, None) => true,
        _ => false,
    }
}

/// One message of a chat history.
#[derive(Debug)]
pub struct ChatMessage {
    /// A stable identity that never reaches a provider.
    pub id: u128,
    pub role: String,
    pub content: Option<String>,
    pub tool_call_id: Option<String>,
    pub tool_calls: Option<Vec<ToolCall>>,
}

/// The model of a message.
pub struct ChatMessageV {
    pub id: u128,
    pub role: Seq<char>,
    pub content: Option<Seq<char>>,
    pub tool_call_id: Option<Seq<char>>,
    pub tool_calls: Option<Seq<ToolCallV>>,
}

/// The calls that a message carries, as a model.
pub open spec fn opt_calls(list: Option<Vec<ToolCall>>) -> Option<Seq<ToolCallV>> {
    match list {
        Some(l) => Some(calls(l@)),
        None => None,
    }
}

/// What a message says: everything but its identity.
pub struct Said {
    pub role: Seq<char>,
    pub content: Option<Seq<char>>,
    pub tool_call_id: Option<Seq<char>>,
    pub tool_calls: Option<Seq<ToolCallV>>,
}

impl ChatMessageV {
    pub open spec fn said(self) -> Said {
        Said {
            role: self.role,
            content: self.content,
            tool_call_id: self.tool_call_id,
            tool_calls: self.tool_calls,
        }
    }
}

/// What a system message says.
pub open spec fn system_said(content: Seq<char>) -> Said {
    Said { role: "system"@, content: Some(content), tool_call_id: None, tool_calls: None }
}

/// What a user message says.
pub open spec fn user_said(content: Seq<char>) -> Said {
    Said { role: "user"@, content: Some(content), tool_call_id: None, tool_calls: None }
}

/// What an assistant message says; no calls at all are no call list.
pub open spec fn assistant_said(content: Option<Seq<char>>, list: Seq<ToolCallV>) -> Said {
    Said {
        role: "assistant"@,
        content,
        tool_call_id: None,
        tool_calls: if list.len() == 0 {
            None
        } else {
            Some(list)
        },
    }
}

/// What a tool result says.
pub open spec fn tool_said(id: Seq<char>, content: Seq<char>) -> Said {
    Said { role: "tool"@, content: Some(content), tool_call_id: Some(id), tool_calls: None }
}

/// Calls `uuid::Uuid::new_v4`: a fresh random identity, of which nothing is
/// promised.
#[verifier::external_body]
pub(crate) fn new_message_id() -> u128 {
    uuid::Uuid::new_v4().as_u128()
}

impl ChatMessage {
    pub open spec fn view(&self) -> ChatMessageV {
        ChatMessageV {
            id: self.id,
            role: self.role@,
            content: opt_text(self.content),
            tool_call_id: opt_text(self.tool_call_id),
            tool_calls: opt_calls(self.tool_calls),
        }
    }

    pub fn system(content: &str) -> (r: Self)
        ensures
            r@.said() == system_said(content@),
    {
        ChatMessage {
            id: new_message_id(),
            role: "system".to_owned(),
            content: Some(content.to_owned()),
            tool_call_id: None,
            tool_calls: None,
        }
    }

    pub fn user(content: &str) -> (r: Self)
        ensures
            r@.said() == user_said(content@),
    {
        ChatMessage {
            id: new_message_id(),
            role: "user".to_owned(),
            content: Some(content.to_owned()),
            tool_call_id: None,
            tool_calls: None,
        }
    }

    pub fn assistant(content: Option<String>, tool_calls: Vec<ToolCall>) -> (r: Self)
        ensures
            r@.said() == assistant_said(opt_text(content), calls(tool_calls@)),
    {
        ChatMessage {
            id: new_message_id(),
            role: "assistant".to_owned(),
            content,
            tool_call_id: None,
            tool_calls: if tool_calls.len() == 0 {
                None
            } else {
                Some(tool_calls)
            },
        }
    }

    pub fn tool(tool_call_id: &str, content: &str) -> (r: Self)
        ensures
            r@.said() == tool_said(tool_call_id@, content@),
    {
        ChatMessage {
            id: new_message_id(),
            role: "tool".to_owned(),
            content: Some(content.to_owned()),
            tool_call_id: Some(tool_call_id.to_owned()),
            tool_calls: None,
        }
    }
}

impl Clone for ChatMessage {
    fn clone(&self) -> (r: Self)
        ensures
            r@ == self@,
    {
        ChatMessage {
            id: self.id,
            role: self.role.clone(),
            content: copy_opt(&self.content),
            tool_call_id: copy_opt(&self.tool_call_id),
            tool_calls: match &self.tool_calls {
                Some(list) => Some(copy_calls(list)),
                None => None,
            },
        }
    }
}

/// Whether two call lists name the same calls with equal arguments.
pub open spec fn same_calls(a: Seq<ToolCallV>, b: Seq<ToolCallV>) -> bool {
    &&& a.len() == b.len()
    &&& forall|i: int|
        0 <= i < a.len() ==> (#[trigger] a[i]).id == b[i].id && a[i].name == b[i].name
            && json::same(a[i].arguments, b[i].arguments)
}

/// Equality of messages: what they say, not which they are.
pub open spec fn same_said(a: Said, b: Said) -> bool {
    &&& a.role == b.role
    &&& a.content == b.content
    &&& a.tool_call_id == b.tool_call_id
    &&& match (a.tool_calls, b.tool_calls) {
        (Some(x), Some(y)) => same_calls(x, y),
        (None, None) => true,
        _ => false,
    }
}

/// Whether two call lists name the same calls with equal arguments.
fn equal_calls(a: &Vec<ToolCall>, b: &Vec<ToolCall>) -> (r: bool)
    ensures
        r == same_calls(calls(a@), calls(b@)),
{
    if a.len() != b.len() {
        return false;
    }
    let ghost xs = calls(a@);
    let ghost ys = calls(b@);
    let mut i: usize = 0;
    while i < a.len()
        invariant
            i <= a@.len(),
            a@.len() == b@.len(),
            xs == calls(a@),
            ys == calls(b@),
            forall|j: int|
                0 <= j < i ==> (#[trigger] xs[j]).id == ys[j].id && xs[j].name == ys[j].name
                    && json::same(xs[j].arguments, ys[j].arguments),
        decreases a@.len() - i,
    {
        if a[i].id != b[i].id || a[i].name != b[i].name || !json::same_json(
            &a[i].arguments,
            &b[i].arguments,
        ) {
            assert(xs[i as int] == a@[i as int]@);
            return false;
        }
        i += 1;
    }
    true
}

impl ChatMessage {
    /// Whether two messages say the same; their identities do not matter.
    pub fn equals(&self, other: &ChatMessage) -> (r: bool)
        ensures
            r == same_said(self@.said(), other@.said()),
    {
        self.role == other.role && same_opt(&self.content, &other.content) && same_opt(
            &self.tool_call_id,
            &other.tool_call_id,
        ) && match (&self.tool_calls, &other.tool_calls) {
            (Some(x), Some(y)) => equal_calls(x, y),
            (None, None) => true,
            _ => false,
        }
    }
}

/// Two messages built from the same content are equal, whatever their
/// identities.
pub proof fn equality_ignores_identity(a: ChatMessageV, b: ChatMessageV)
    requires
        a.said() == b.said(),
    ensures
        same_said(a.said(), b.said()),
{
    if let Some(list) = a.tool_calls {
        assert forall|i: int| 0 <= i < list.len() implies json::same(
            (#[trigger] list[i]).arguments,
            list[i].arguments,
        ) by {
            json::same_reflexive(list[i].arguments);
        }
    }
}

/// A chat history.
pub type Prompt = Vec<ChatMessage>;

/// The models of a list of messages.
pub open spec fn messages(list: Seq<ChatMessage>) -> Seq<ChatMessageV> {
    Seq::new(list.len(), |i: int| list[i]@)
}

/// A copy of the first `n` messages.
pub fn copy_messages(list: &Vec<ChatMessage>, n: usize) -> (r: Vec<ChatMessage>)
    requires
        n <= list@.len(),
    ensures
        messages(r@) == messages(list@).take(n as int),
{
    let mut out: Vec<ChatMessage> = Vec::new();
    let mut i: usize = 0;
    while i < n
        invariant
            i <= n <= list@.len(),
            out@.len() == i,
            forall|j: int| 0 <= j < i ==> (#[trigger] out@[j])@ == list@[j]@,
        decreases n - i,
    {
        out.push(list[i].clone());
        i += 1;
    }
    assert(messages(out@) =~= messages(list@).take(n as int));
    out
}

/// A completion.
#[derive(Debug)]
pub struct Response {
    pub content: String,
    pub tool_calls: Vec<ToolCall>,
    pub finish_reason: Option<FinishReason>,
    pub input_tokens: u32,
    pub output_tokens: u32,
    pub total_tokens: u32,
    /// How many input tokens the provider had cached, where it says so.
    pub cached_input_tokens: Option<u32>,
    /// What the completion cost, where that is known.
    pub cost_micro_usd: Option<u64>,
    /// The prices under which it was costed.
    pub pricing: Option<Pricing>,
    /// Annotations of the runtime, such as why a turn stopped.
    pub metadata: Vec<(String, Json)>,
}

/// The model of a completion.
pub struct ResponseV {
    pub content: Seq<char>,
    pub tool_calls: Seq<ToolCallV>,
    pub finish_reason: Option<FinishReasonV>,
    pub input_tokens: u32,
    pub output_tokens: u32,
    pub total_tokens: u32,
    pub cached_input_tokens: Option<u32>,
    pub cost_micro_usd: Option<u64>,
    pub pricing: Option<Pricing>,
    pub metadata: json::Fields,
}

/// The model of an optional finish reason.
pub open spec fn opt_reason(r: Option<FinishReason>) -> Option<FinishReasonV> {
    match r {
        Some(x) => Some(x@),
        None => None,
    }
}

impl Response {
    pub open spec fn view(&self) -> ResponseV {
        ResponseV {
            content: self.content@,
            tool_calls: calls(self.tool_calls@),
            finish_reason: opt_reason(self.finish_reason),
            input_tokens: self.input_tokens,
            output_tokens: self.output_tokens,
            total_tokens: self.total_tokens,
            cached_input_tokens: self.cached_input_tokens,
            cost_micro_usd: self.cost_micro_usd,
            pricing: self.pricing,
            metadata: json::fields(self.metadata@),
        }
    }
}

impl Clone for Response {
    fn clone(&self) -> (r: Self)
        ensures
            r@ == self@,
    {
        Response {
            content: self.content.clone(),
            tool_calls: copy_calls(&self.tool_calls),
            finish_reason: match &self.finish_reason {
                Some(x) => Some(x.clone()),
                None => None,
            },
            input_tokens: self.input_tokens,
            output_tokens: self.output_tokens,
            total_tokens: self.total_tokens,
            cached_input_tokens: self.cached_input_tokens,
            cost_micro_usd: self.cost_micro_usd,
            pricing: self.pricing,
            metadata: json::copy_fields(&self.metadata),
        }
    }
}

/// The texts of a list of strings.
pub open spec fn texts(list: Seq<String>) -> Seq<Seq<char>> {
    Seq::new(list.len(), |i: int| list[i]@)
}

/// The list with the ids of `more` added that it does not hold yet, in order.
pub open spec fn add_ids(p: Seq<Seq<char>>, more: Seq<ToolCallV>) -> Seq<Seq<char>>
    decreases more.len(),
{
    if more.len() == 0 {
        p
    } else {
        let before = add_ids(p, more.drop_last());
        if before.contains(more.last().id) {
            before
        } else {
            before.push(more.last().id)
        }
    }
}

/// The list without one id.
pub open spec fn without(p: Seq<Seq<char>>, id: Seq<char>) -> Seq<Seq<char>>
    decreases p.len(),
{
    if p.len() == 0 {
        p
    } else {
        let before = without(p.drop_last(), id);
        if p.last() == id {
            before
        } else {
            before.push(p.last())
        }
    }
}

/// What one message does to the open call ids: its calls open, its own
/// `tool_call_id` closes.
pub open spec fn settle(open: Seq<Seq<char>>, m: ChatMessageV) -> Seq<Seq<char>> {
    let opened = match m.tool_calls {
        Some(list) => add_ids(open, list),
        None => open,
    };
    match m.tool_call_id {
        Some(id) => without(opened, id),
        None => opened,
    }
}

/// The ids of the calls that a history leaves without a result, in the order
/// in which they were made.
pub open spec fn pending(history: Seq<ChatMessageV>) -> Seq<Seq<char>>
    decreases history.len(),
{
    if history.len() == 0 {
        Seq::empty()
    } else {
        settle(pending(history.drop_last()), history.last())
    }
}

/// Whether a list of strings holds a text.
fn holds(list: &Vec<String>, id: &String) -> (r: bool)
    ensures
        r == texts(list@).contains(id@),
{
    let mut i: usize = 0;
    while i < list.len()
        invariant
            i <= list@.len(),
            forall|j: int| 0 <= j < i ==> (#[trigger] list@[j])@ != id@,
        decreases list@.len() - i,
    {
        if list[i] == *id {
            assert(texts(list@)[i as int] == id@);
            return true;
        }
        i += 1;
    }
    assert(!texts(list@).contains(id@)) by {
        if texts(list@).contains(id@) {
            let k = choose|k: int| 0 <= k < texts(list@).len() && texts(list@)[k] == id@;
            assert(list@[k]@ == id@);
        }
    }
    false
}

/// Opens the calls of one message.
fn open_calls(open: Vec<String>, list: &Vec<ToolCall>) -> (r: Vec<String>)
    ensures
        texts(r@) == add_ids(texts(open@), calls(list@)),
{
    let ghost start = texts(open@);
    let mut open = open;
    let mut i: usize = 0;
    assert(calls(list@).take(0) =~= Seq::empty());
    while i < list.len()
        invariant
            i <= list@.len(),
            texts(open@) == add_ids(start, calls(list@).take(i as int)),
        decreases list@.len() - i,
    {
        assert(calls(list@).take(i + 1).drop_last() =~= calls(list@).take(i as int));
        if !holds(&open, &list[i].id) {
            let ghost before = open@;
            let id = list[i].id.clone();
            open.push(id);
            assert(texts(open@) =~= texts(before).push(id@));
        }
        i += 1;
    }
    assert(calls(list@).take(i as int) =~= calls(list@));
    open
}

/// Closes one call.
fn close_call(open: &Vec<String>, id: &String) -> (r: Vec<String>)
    ensures
        texts(r@) == without(texts(open@), id@),
{
    let mut out: Vec<String> = Vec::new();
    let mut i: usize = 0;
    assert(texts(open@).take(0) =~= Seq::empty());
    assert(texts(out@) =~= Seq::empty());
    while i < open.len()
        invariant
            i <= open@.len(),
            texts(out@) == without(texts(open@).take(i as int), id@),
        decreases open@.len() - i,
    {
        assert(texts(open@).take(i + 1).drop_last() =~= texts(open@).take(i as int));
        if open[i] != *id {
            let ghost before = out@;
            let kept = open[i].clone();
            out.push(kept);
            assert(texts(out@) =~= texts(before).push(kept@));
        }
        i += 1;
    }
    assert(texts(open@).take(i as int) =~= texts(open@));
    out
}

/// What one message does to the open call ids.
fn settle_message(open: Vec<String>, m: &ChatMessage) -> (r: Vec<String>)
    ensures
        texts(r@) == settle(texts(open@), m@),
{
    let opened = match &m.tool_calls {
        Some(list) => open_calls(open, list),
        None => open,
    };
    match &m.tool_call_id {
        Some(id) => close_call(&opened, id),
        None => opened,
    }
}

/// The ids of the calls without a result.
fn pending_ids(history: &Vec<ChatMessage>) -> (r: Vec<String>)
    ensures
        texts(r@) == pending(messages(history@)),
{
    let mut open: Vec<String> = Vec::new();
    let mut i: usize = 0;
    assert(messages(history@).take(0) =~= Seq::empty());
    assert(texts(open@) =~= Seq::empty());
    while i < history.len()
        invariant
            i <= history@.len(),
            texts(open@) == pending(messages(history@).take(i as int)),
        decreases history@.len() - i,
    {
        open = settle_message(open, &history[i]);
        assert(messages(history@).take(i + 1).drop_last() =~= messages(history@).take(i as int));
        i += 1;
    }
    assert(messages(history@).take(i as int) =~= messages(history@));
    open
}

/// Whether some tool call of the history has no result.
pub fn has_pending_tool_calls(prompt: &Vec<ChatMessage>) -> (r: bool)
    ensures
        r == (pending(messages(prompt@)).len() > 0),
{
    let open = pending_ids(prompt);
    assert(texts(open@).len() == open@.len());
    open.len() > 0
}

/// `n` messages form the longest prefix of the history in which every call
/// has its result.
pub open spec fn longest_clean(history: Seq<ChatMessageV>, n: int) -> bool {
    &&& 0 <= n <= history.len()
    &&& pending(history.take(n)).len() == 0
    &&& forall|m: int| n < m <= history.len() ==> (#[trigger] pending(history.take(m))).len() > 0
}

/// The longest prefix of the history in which every call has its result.
pub fn repair_trailing_pending_tool_calls(prompt: &Vec<ChatMessage>) -> (r: Vec<ChatMessage>)
    ensures
        exists|n: int| #[trigger]
            longest_clean(messages(prompt@), n) && messages(r@) == messages(prompt@).take(n),
{
    let ghost all = messages(prompt@);
    let mut open: Vec<String> = Vec::new();
    let mut clean: usize = 0;
    let mut i: usize = 0;
    assert(all.take(0) =~= Seq::empty());
    assert(texts(open@) =~= Seq::empty());
    while i < prompt.len()
        invariant
            clean <= i <= prompt@.len(),
            all == messages(prompt@),
            texts(open@) == pending(all.take(i as int)),
            pending(all.take(clean as int)).len() == 0,
            forall|m: int| clean < m <= i ==> (#[trigger] pending(all.take(m))).len() > 0,
        decreases prompt@.len() - i,
    {
        open = settle_message(open, &prompt[i]);
        assert(all.take(i + 1).drop_last() =~= all.take(i as int));
        i += 1;
        assert(texts(open@).len() == open@.len());
        if open.len() == 0 {
            clean = i;
        }
    }
    assert(longest_clean(all, clean as int));
    copy_messages(prompt, clean)
}

/// The result that a call gets when the turn budget ran out before it.
pub open spec fn unexecuted_result() -> JsonV {
    json::object(
        seq![
            ("ok"@, JsonV::Bool(false)),
            ("error"@, JsonV::Str("turn_budget_exhausted"@)),
            (
                "message"@,
                JsonV::Str(
                    "tool call was not executed: the turn budget ran out before dispatch"@,
                ),
            ),
        ],
    )
}

/// The text of that result.
fn unexecuted_text() -> (r: String)
    ensures
        r@ == json::json_text(unexecuted_result()),
{
    let list = vec![
        ("ok".to_owned(), Json::Bool(false)),
        ("error".to_owned(), Json::text("turn_budget_exhausted")),
        (
            "message".to_owned(),
            Json::text("tool call was not executed: the turn budget ran out before dispatch"),
        ),
    ];
    assert(json::fields(list@) =~= seq![
        ("ok"@, JsonV::Bool(false)),
        ("error"@, JsonV::Str("turn_budget_exhausted"@)),
        (
            "message"@,
            JsonV::Str("tool call was not executed: the turn budget ran out before dispatch"@),
        ),
    ]);
    object_of(list).to_text()
}

/// What the added messages say.
pub open spec fn sayings(list: Seq<ChatMessageV>) -> Seq<Said> {
    Seq::new(list.len(), |i: int| list[i].said())
}

/// `now` is `before` with messages added that say `added`.
pub open spec fn extends(
    now: Seq<ChatMessageV>,
    before: Seq<ChatMessageV>,
    added: Seq<Said>,
) -> bool {
    &&& now.len() == before.len() + added.len()
    &&& now.take(before.len() as int) == before
    &&& sayings(now.skip(before.len() as int)) == added
}

/// Adding one more message.
pub proof fn extends_push(
    now: Seq<ChatMessageV>,
    before: Seq<ChatMessageV>,
    added: Seq<Said>,
    m: ChatMessageV,
)
    requires
        extends(now, before, added),
    ensures
        extends(now.push(m), before, added.push(m.said())),
{
    let n = before.len() as int;
    assert(now.push(m).take(n) =~= now.take(n));
    assert(now.push(m).skip(n) =~= now.skip(n).push(m));
    assert(sayings(now.push(m).skip(n)) =~= sayings(now.skip(n)).push(m.said()));
}

/// Appends a message to a history.
pub fn push_message(history: &mut Vec<ChatMessage>, m: ChatMessage)
    ensures
        messages(final(history)@) == messages(old(history)@).push(m@),
{
    let ghost before = history@;
    history.push(m);
    assert(messages(history@) =~= messages(before).push(m@));
}

/// What the synthetic results for the listed calls say.
pub open spec fn closing(ids: Seq<Seq<char>>) -> Seq<Said> {
    Seq::new(ids.len(), |i: int| tool_said(ids[i], json::json_text(unexecuted_result())))
}

/// Appends an error result for every call without one, so that the history
/// stays well-formed for providers.  Returns the ids of those calls.
pub fn close_pending_tool_calls(history: &mut Vec<ChatMessage>) -> (r: Vec<String>)
    ensures
        texts(r@) == pending(messages(old(history)@)),
        extends(
            messages(final(history)@),
            messages(old(history)@),
            closing(pending(messages(old(history)@))),
        ),
{
    let open = pending_ids(history);
    let ghost before = messages(history@);
    let ghost ids = texts(open@);
    let mut i: usize = 0;
    assert(before.skip(before.len() as int) =~= Seq::empty());
    assert(sayings(Seq::empty()) =~= closing(ids).take(0));
    assert(before.take(before.len() as int) =~= before);
    while i < open.len()
        invariant
            i <= open@.len(),
            ids == texts(open@),
            extends(messages(history@), before, closing(ids).take(i as int)),
        decreases open@.len() - i,
    {
        let m = ChatMessage::tool(open[i].as_str(), unexecuted_text().as_str());
        proof {
            extends_push(messages(history@), before, closing(ids).take(i as int), m@);
            assert(closing(ids).take(i as int).push(m@.said()) =~= closing(ids).take(i + 1));
        }
        push_message(history, m);
        i += 1;
    }
    assert(closing(ids).take(i as int) =~= closing(ids));
    open
}

/// A list without an id holds what it held before, and not the id.
pub proof fn without_members(p: Seq<Seq<char>>, id: Seq<char>, x: Seq<char>)
    ensures
        without(p, id).contains(x) <==> p.contains(x) && x != id,
    decreases p.len(),
{
    if p.len() > 0 {
        without_members(p.drop_last(), id, x);
        let before = without(p.drop_last(), id);
        if p.contains(x) {
            let k = choose|k: int| 0 <= k < p.len() && p[k] == x;
            if k < p.len() - 1 {
                assert(p.drop_last()[k] == x);
            }
        }
        if p.drop_last().contains(x) {
            let k = choose|k: int| 0 <= k < p.drop_last().len() && p.drop_last()[k] == x;
            assert(p[k] == x);
        }
        assert(p[p.len() - 1] == p.last());
        if p.last() != id {
            let after = before.push(p.last());
            assert(after[after.len() - 1] == p.last());
            if before.contains(x) {
                let k = choose|k: int| 0 <= k < before.len() && before[k] == x;
                assert(after[k] == x);
            }
            if after.contains(x) && x != p.last() {
                let k = choose|k: int| 0 <= k < after.len() && after[k] == x;
                assert(before[k] == x);
            }
        }
    }
}

/// Once every pending call is closed, none is pending.
pub proof fn closed_history_has_no_pending(
    now: Seq<ChatMessageV>,
    before: Seq<ChatMessageV>,
)
    requires
        extends(now, before, closing(pending(before))),
    ensures
        pending(now).len() == 0,
{
    let ids = pending(before);
    closing_settles(now, before, ids, ids.len() as int);
    assert(now.take(now.len() as int) =~= now);
    let left = pending(now);
    if left.len() > 0 {
        let x = left[0];
        assert(left.contains(x));
        assert(ids.contains(x));
        let k = choose|k: int| 0 <= k < ids.len() && ids[k] == x;
        assert(ids.take(ids.len() as int)[k] == x);
    }
}

proof fn closing_settles(
    now: Seq<ChatMessageV>,
    before: Seq<ChatMessageV>,
    ids: Seq<Seq<char>>,
    k: int,
)
    requires
        extends(now, before, closing(ids)),
        ids == pending(before),
        0 <= k <= ids.len(),
    ensures
        forall|x: Seq<char>| #[trigger]
            pending(now.take(before.len() + k)).contains(x) ==> ids.contains(x) && !ids.take(
                k,
            ).contains(x),
    decreases k,
{
    let n = before.len() as int;
    if k == 0 {
        assert(now.take(n) == before);
    } else {
        closing_settles(now, before, ids, k - 1);
        let prior = now.take(n + k - 1);
        let here = now.take(n + k);
        assert(here.drop_last() =~= prior);
        assert(here.last() == now[n + k - 1]);
        assert(now.skip(n)[k - 1] == now[n + k - 1]);
        assert(sayings(now.skip(n))[k - 1] == closing(ids)[k - 1]);
        assert(here.last().said() == tool_said(ids[k - 1], json::json_text(unexecuted_result())));
        assert(here.last().tool_calls is None);
        assert(here.last().tool_call_id == Some(ids[k - 1]));
        assert(pending(here) == without(pending(prior), ids[k - 1]));
        assert(prior == now.take(before.len() + (k - 1)));
        assert forall|x: Seq<char>| #[trigger] pending(here).contains(x) implies ids.contains(x)
            && !ids.take(k).contains(x) by {
            without_members(pending(prior), ids[k - 1], x);
            assert(pending(prior).contains(x));
            if ids.take(k).contains(x) {
                let j = choose|j: int| 0 <= j < k && ids.take(k)[j] == x;
                if j < k - 1 {
                    assert(ids.take(k - 1)[j] == x);
                } else {
                    assert(ids[k - 1] == x);
                }
            }
        }
    }
}

/// A history without a pending call is left as it is.
pub proof fn clean_history_stays(now: Seq<ChatMessageV>, before: Seq<ChatMessageV>)
    requires
        pending(before).len() == 0,
        extends(now, before, closing(pending(before))),
    ensures
        now == before,
{
    assert(closing(pending(before)).len() == 0);
    assert(now.take(now.len() as int) =~= now);
}

/// A repaired history has no pending call, and a clean one is its own repair.
pub proof fn repaired_history_is_clean(history: Seq<ChatMessageV>, n: int)
    requires
        longest_clean(history, n),
    ensures
        pending(history.take(n)).len() == 0,
        pending(history).len() == 0 ==> history.take(n) == history,
{
    if pending(history).len() == 0 {
        assert(history.take(history.len() as int) =~= history);
        assert(n == history.len());
    }
}

/// The key under which the loop keeps its history.
pub const HISTORY_KEY: &'static str = "temporal:history";

/// The user message that keeps an unfinished turn going.
pub const CONTINUE_NUDGE: &'static str =
    "Your previous response did not finish the turn. Continue the task: if work remains, issue the next tool call; if the task is complete, say so explicitly.";

/// The reply to a call of a tool that is not there.
pub open spec fn unknown_tool(name: Seq<char>) -> JsonV {
    json::object(
        seq![
            ("ok"@, JsonV::Bool(false)),
            ("error"@, JsonV::Str("unknown_tool"@)),
            ("tool"@, JsonV::Str(name)),
            ("message"@, JsonV::Str("unknown tool; available tools: shell"@)),
        ],
    )
}

/// The reply to a shell call without a command.
pub open spec fn invalid_shell_arguments() -> JsonV {
    json::object(
        seq![
            ("ok"@, JsonV::Bool(false)),
            ("error"@, JsonV::Str("invalid_arguments"@)),
            ("message"@, JsonV::Str("shell requires non-empty string argument: command"@)),
        ],
    )
}

/// The command of a tool call, or the reply that takes its place.
pub open spec fn command_of(call: ToolCallV) -> Result<Seq<char>, JsonV> {
    if call.name != "shell"@ {
        Err(unknown_tool(call.name))
    } else {
        match call.arguments.text_field("command"@) {
            Some(command) => if text::blank(command) {
                Err(invalid_shell_arguments())
            } else {
                Ok(command)
            },
            None => Err(invalid_shell_arguments()),
        }
    }
}

/// The command of a tool call, or the reply that takes its place.
pub fn command_from_tool_call(call: &ToolCall) -> (r: Result<String, Json>)
    ensures
        match r {
            Ok(command) => command_of(call@) == Ok::<Seq<char>, JsonV>(command@),
            Err(reply) => command_of(call@) == Err::<Seq<char>, JsonV>(reply@),
        },
{
    if !same_text(call.name.as_str(), "shell") {
        let list = vec![
            ("ok".to_owned(), Json::Bool(false)),
            ("error".to_owned(), Json::text("unknown_tool")),
            ("tool".to_owned(), Json::Str(call.name.clone())),
            ("message".to_owned(), Json::text("unknown tool; available tools: shell")),
        ];
        assert(json::fields(list@) =~= seq![
            ("ok"@, JsonV::Bool(false)),
            ("error"@, JsonV::Str("unknown_tool"@)),
            ("tool"@, JsonV::Str(call.name@)),
            ("message"@, JsonV::Str("unknown tool; available tools: shell"@)),
        ]);
        return Err(object_of(list));
    }
    if let Some(command) = call.arguments.get_str("command") {
        if !is_blank(command) {
            return Ok(command.to_owned());
        }
    }
    let list = vec![
        ("ok".to_owned(), Json::Bool(false)),
        ("error".to_owned(), Json::text("invalid_arguments")),
        ("message".to_owned(), Json::text("shell requires non-empty string argument: command")),
    ];
    assert(json::fields(list@) =~= seq![
        ("ok"@, JsonV::Bool(false)),
        ("error"@, JsonV::Str("invalid_arguments"@)),
        ("message"@, JsonV::Str("shell requires non-empty string argument: command"@)),
    ]);
    Err(object_of(list))
}

/// What an agent loop does next.
#[derive(Debug)]
pub enum Stage {
    /// Ask the model, with `turns` more turns allowed after this one.
    Infer { prompt: Prompt, turns: usize },
    /// Read the stored history before dispatching the response's calls.
    ReadHistory { prompt: Prompt, response: Response, turns: usize },
    /// Run a command for the call `calls[next]`.
    Eval { command: String, history: Prompt, calls: Vec<ToolCall>, next: usize, turns: usize },
    /// Store the history, then go on.
    WriteHistory { history: Prompt, turns: usize },
    /// The loop is over.
    Done { response: Response },
}

/// Whether a response ends the loop.
pub open spec fn may_stop(prompt: Seq<ChatMessageV>, response: ResponseV) -> bool {
    &&& response.finish_reason == Some(FinishReasonV::Stop)
    &&& response.tool_calls.len() == 0
    &&& pending(prompt).len() == 0
}

/// What an unfinished turn without tool calls adds to the history: its text,
/// if it has any, and the nudge to go on.
pub open spec fn nudged(response: ResponseV) -> Seq<Said> {
    if response.content.len() == 0 {
        seq![user_said(CONTINUE_NUDGE@)]
    } else {
        seq![
            assistant_said(Some(response.content), Seq::empty()),
            user_said(CONTINUE_NUDGE@),
        ]
    }
}

/// What a turn with tool calls adds to the history before they run.
pub open spec fn dispatched(response: ResponseV) -> Said {
    assistant_said(
        if response.content.len() == 0 {
            None
        } else {
            Some(response.content)
        },
        response.tool_calls,
    )
}

/// The first call from `from` on that has a command.
pub open spec fn next_command(list: Seq<ToolCallV>, from: int) -> int
    decreases list.len() - from,
{
    if 0 <= from < list.len() && command_of(list[from]) is Err {
        next_command(list, from + 1)
    } else {
        from
    }
}

/// What the replies to the calls from `from` up to `to` say.
pub open spec fn replies(list: Seq<ToolCallV>, from: int, to: int) -> Seq<Said>
    decreases to - from,
{
    if from >= to {
        Seq::empty()
    } else {
        replies(list, from, to - 1).push(
            tool_said(list[to - 1].id, json::json_text(command_of(list[to - 1])->Err_0)),
        )
    }
}

/// The stage reached from `history` when the calls from `from` on are still
/// to be dispatched.
pub open spec fn dispatches(
    stage: Stage,
    history: Seq<ChatMessageV>,
    list: Seq<ToolCallV>,
    from: int,
    turns: usize,
) -> bool {
    let next = next_command(list, from);
    match stage {
        Stage::Eval { command, history: now, calls: c, next: n, turns: t } => {
            &&& next < list.len()
            &&& n == next
            &&& command_of(list[next]) == Ok::<Seq<char>, JsonV>(command@)
            &&& calls(c@) == list
            &&& t == turns
            &&& extends(messages(now@), history, replies(list, from, next))
        },
        Stage::WriteHistory { history: now, turns: t } => {
            &&& next >= list.len()
            &&& t == turns
            &&& extends(messages(now@), history, replies(list, from, list.len() as int))
        },
        _ => false,
    }
}

proof fn next_command_bounds(list: Seq<ToolCallV>, from: int)
    requires
        0 <= from <= list.len(),
    ensures
        from <= next_command(list, from) <= list.len(),
    decreases list.len() - from,
{
    if from < list.len() && command_of(list[from]) is Err {
        next_command_bounds(list, from + 1);
    }
}

/// A history extends itself by nothing.
pub proof fn extends_self(now: Seq<ChatMessageV>)
    ensures
        extends(now, now, Seq::empty()),
{
    assert(now.take(now.len() as int) =~= now);
    assert(sayings(now.skip(now.len() as int)) =~= Seq::empty());
}

/// Dispatches the calls from `from` on: calls without a command are answered
/// at once, the first call with one is run.
pub fn dispatch_calls(history: Prompt, list: Vec<ToolCall>, from: usize, turns: usize) -> (r: Stage)
    requires
        from <= list@.len(),
    ensures
        dispatches(r, messages(history@), calls(list@), from as int, turns),
{
    let ghost before = messages(history@);
    let ghost cs = calls(list@);
    let mut now = history;
    let mut next: usize = from;
    proof {
        extends_self(before);
        next_command_bounds(cs, from as int);
    }
    while next < list.len()
        invariant
            from <= next <= list@.len(),
            cs == calls(list@),
            before == messages(history@),
            next_command(cs, from as int) == next_command(cs, next as int),
            extends(messages(now@), before, replies(cs, from as int, next as int)),
        decreases list@.len() - next,
    {
        match command_from_tool_call(&list[next]) {
            Ok(command) => {
                return Stage::Eval { command, history: now, calls: list, next, turns };
            },
            Err(reply) => {
                let m = ChatMessage::tool(list[next].id.as_str(), reply.to_text().as_str());
                proof {
                    extends_push(
                        messages(now@),
                        before,
                        replies(cs, from as int, next as int),
                        m@,
                    );
                }
                push_message(&mut now, m);
                next += 1;
            },
        }
    }
    Stage::WriteHistory { history: now, turns }
}

/// The stage after the model answered.
pub fn after_response(prompt: Prompt, response: Response, turns: usize) -> (r: Stage)
    ensures
        match r {
            Stage::Done { response: out } => {
                &&& may_stop(messages(prompt@), response@) || turns == 0
                &&& out@ == response@
            },
            Stage::WriteHistory { history, turns: t } => {
                &&& !may_stop(messages(prompt@), response@) && turns > 0
                &&& response@.tool_calls.len() == 0
                &&& t == turns
                &&& extends(messages(history@), messages(prompt@), nudged(response@))
            },
            Stage::ReadHistory { prompt: p, response: out, turns: t } => {
                &&& turns > 0
                &&& response@.tool_calls.len() > 0
                &&& t == turns
                &&& messages(p@) == messages(prompt@)
                &&& out@ == response@
            },
            _ => false,
        },
{
    let no_calls = response.tool_calls.len() == 0;
    assert(response@.tool_calls.len() == response.tool_calls@.len());
    let stopped = match &response.finish_reason {
        Some(reason) => reason.is_stop(),
        None => false,
    };
    if turns == 0 || (stopped && no_calls && !has_pending_tool_calls(&prompt)) {
        return Stage::Done { response };
    }
    if !no_calls {
        return Stage::ReadHistory { prompt, response, turns };
    }
    let ghost before = messages(prompt@);
    let mut history = prompt;
    let none: Vec<ToolCall> = Vec::new();
    proof {
        extends_self(before);
        assert(calls(none@) =~= Seq::empty());
    }
    if !response.content.as_str().is_empty() {
        let m = ChatMessage::assistant(Some(response.content.clone()), none);
        proof {
            extends_push(messages(history@), before, Seq::empty(), m@);
        }
        push_message(&mut history, m);
        let n = ChatMessage::user(CONTINUE_NUDGE);
        proof {
            extends_push(messages(history@), before, Seq::empty().push(m@.said()), n@);
            assert(Seq::empty().push(m@.said()).push(n@.said()) =~= nudged(response@));
        }
        push_message(&mut history, n);
    } else {
        let n = ChatMessage::user(CONTINUE_NUDGE);
        proof {
            extends_push(messages(history@), before, Seq::empty(), n@);
            assert(Seq::empty().push(n@.said()) =~= nudged(response@));
        }
        push_message(&mut history, n);
    }
    Stage::WriteHistory { history, turns }
}

/// The stored history, else the prompt.
pub open spec fn stored_or(stored: Option<Prompt>, prompt: Prompt) -> Seq<ChatMessageV> {
    match stored {
        Some(h) => messages(h@),
        None => messages(prompt@),
    }
}

/// The stage after the stored history was read: `stored` where it could be
/// decoded, else the prompt that the model saw.
pub fn after_history(
    prompt: Prompt,
    response: Response,
    turns: usize,
    stored: Option<Prompt>,
) -> (r: Stage)
    ensures
        exists|start: Seq<ChatMessageV>| #[trigger]
            extends(start, stored_or(stored, prompt), seq![dispatched(response@)]) && dispatches(
                r,
                start,
                response@.tool_calls,
                0,
                turns,
            ),
{
    let mut history = match stored {
        Some(h) => h,
        None => prompt,
    };
    let ghost base = messages(history@);
    let content = if response.content.as_str().is_empty() {
        None
    } else {
        Some(response.content.clone())
    };
    let list = copy_calls(&response.tool_calls);
    let m = ChatMessage::assistant(content, list);
    proof {
        extends_self(base);
        extends_push(base, base, Seq::empty(), m@);
        assert(Seq::empty().push(m@.said()) =~= seq![dispatched(response@)]);
    }
    push_message(&mut history, m);
    let ghost start = messages(history@);
    let list = copy_calls(&response.tool_calls);
    let r = dispatch_calls(history, list, 0, turns);
    assert(dispatches(r, start, response@.tool_calls, 0, turns));
    assert(extends(start, stored_or(stored, prompt), seq![dispatched(response@)]));
    r
}

/// The stage after a command ran: its result answers the call, and the calls
/// behind it are dispatched.
pub fn after_result(
    history: Prompt,
    list: Vec<ToolCall>,
    next: usize,
    turns: usize,
    result: &Json,
) -> (r: Stage)
    requires
        next < list.len(),
    ensures
        exists|start: Seq<ChatMessageV>| #[trigger]
            extends(
                start,
                messages(history@),
                seq![tool_said(calls(list@)[next as int].id, json::json_text(result@))],
            ) && dispatches(r, start, calls(list@), next + 1, turns),
{
    let ghost base = messages(history@);
    let mut history = history;
    let m = ChatMessage::tool(list[next].id.as_str(), result.to_text().as_str());
    proof {
        extends_self(base);
        extends_push(base, base, Seq::empty(), m@);
        assert(Seq::empty().push(m@.said()) =~= seq![
            tool_said(calls(list@)[next as int].id, json::json_text(result@)),
        ]);
    }
    push_message(&mut history, m);
    dispatch_calls(history, list, next + 1, turns)
}

/// The stage after the history was stored: the next turn.
pub fn after_write(history: Prompt, turns: usize) -> (r: Stage)
    requires
        turns > 0,
    ensures
        r matches Stage::Infer { prompt, turns: t } && messages(prompt@) == messages(history@)
            && t == turns - 1,
{
    Stage::Infer { prompt: history, turns: turns - 1 }
}

/// Adds a message to a list.
pub fn push_string(list: &mut Vec<String>, s: String)
    ensures
        texts(final(list)@) == texts(old(list)@).push(s@),
{
    let ghost before = list@;
    list.push(s);
    assert(texts(list@) =~= texts(before).push(s@));
}

/// Joins the first `n` of some strings.
pub fn join_texts(list: &Vec<String>, n: usize, between: &str) -> (r: String)
    requires
        n <= list@.len(),
    ensures
        r@ == text::joined(texts(list@).take(n as int), between@),
{
    let ghost all = texts(list@);
    let mut out = String::new();
    let mut i: usize = 0;
    assert(out@ =~= text::joined(all.take(0), between@));
    while i < n
        invariant
            i <= n <= list@.len(),
            all == texts(list@),
            out@ == text::joined(all.take(i as int), between@),
        decreases n - i,
    {
        assert(all.take(i + 1).drop_last() =~= all.take(i as int));
        if i > 0 {
            out.append(between);
        }
        out.append(list[i].as_str());
        if i == 0 {
            assert(out@ =~= all[0]);
        }
        i += 1;
    }
    out
}

/// Whether a message makes a call under an id.
pub open spec fn makes_call(m: ChatMessageV, id: Seq<char>) -> bool {
    m.tool_calls matches Some(list) && exists|k: int|
        0 <= k < list.len() && (#[trigger] list[k]).id == id
}

/// Whether the call under an id that a message of a history makes stays
/// unanswered: neither that message nor a later one answers it.
pub open spec fn stays_open(history: Seq<ChatMessageV>, i: int, id: Seq<char>) -> bool {
    &&& 0 <= i < history.len()
    &&& makes_call(history[i], id)
    &&& forall|j: int| i <= j < history.len() ==> (#[trigger] history[j]).tool_call_id != Some(id)
}

proof fn added_ids(open: Seq<Seq<char>>, list: Seq<ToolCallV>, id: Seq<char>)
    ensures
        add_ids(open, list).contains(id) <==> open.contains(id) || exists|k: int|
            0 <= k < list.len() && (#[trigger] list[k]).id == id,
    decreases list.len(),
{
    if list.len() > 0 {
        let less = list.drop_last();
        let before = add_ids(open, less);
        added_ids(open, less, id);
        assert(list[list.len() - 1] == list.last());
        if exists|k: int| 0 <= k < less.len() && (#[trigger] less[k]).id == id {
            let k = choose|k: int| 0 <= k < less.len() && (#[trigger] less[k]).id == id;
            assert(list[k].id == id);
        }
        if exists|k: int| 0 <= k < list.len() && (#[trigger] list[k]).id == id {
            let k = choose|k: int| 0 <= k < list.len() && (#[trigger] list[k]).id == id;
            if k < less.len() {
                assert(less[k].id == id);
            }
        }
        if !before.contains(list.last().id) {
            let now = before.push(list.last().id);
            assert(now[before.len() as int] == list.last().id);
            if before.contains(id) {
                let k = choose|k: int| 0 <= k < before.len() && before[k] == id;
                assert(now[k] == id);
            }
            if now.contains(id) && id != list.last().id {
                let k = choose|k: int| 0 <= k < now.len() && now[k] == id;
                assert(before[k] == id);
            }
        }
    }
}

proof fn without_one(open: Seq<Seq<char>>, gone: Seq<char>, id: Seq<char>)
    ensures
        without(open, gone).contains(id) <==> open.contains(id) && id != gone,
    decreases open.len(),
{
    if open.len() > 0 {
        let less = open.drop_last();
        let before = without(less, gone);
        without_one(less, gone, id);
        assert(open[open.len() - 1] == open.last());
        if less.contains(id) {
            let k = choose|k: int| 0 <= k < less.len() && less[k] == id;
            assert(open[k] == id);
        }
        if open.contains(id) && id != open.last() {
            let k = choose|k: int| 0 <= k < open.len() && open[k] == id;
            assert(less[k] == id);
        }
        if open.last() != gone {
            let now = before.push(open.last());
            assert(now[before.len() as int] == open.last());
            if before.contains(id) {
                let k = choose|k: int| 0 <= k < before.len() && before[k] == id;
                assert(now[k] == id);
            }
            if now.contains(id) && id != open.last() {
                let k = choose|k: int| 0 <= k < now.len() && now[k] == id;
                assert(before[k] == id);
            }
        }
    }
}

/// An id is pending exactly when some call under it has no answer at the same
/// place or later.
pub proof fn pending_calls_are_the_unanswered(history: Seq<ChatMessageV>, id: Seq<char>)
    ensures
        pending(history).contains(id) <==> exists|i: int| #[trigger] stays_open(history, i, id),
    decreases history.len(),
{
    if history.len() > 0 {
        let less = history.drop_last();
        let last = history.last();
        let at = history.len() - 1;
        pending_calls_are_the_unanswered(less, id);
        let open = pending(less);
        let opened = match last.tool_calls {
            Some(list) => add_ids(open, list),
            None => open,
        };
        if let Some(list) = last.tool_calls {
            added_ids(open, list, id);
        }
        if let Some(gone) = last.tool_call_id {
            without_one(opened, gone, id);
        }
        if last.tool_call_id != Some(id) {
            if exists|i: int| #[trigger] stays_open(less, i, id) {
                let i = choose|i: int| #[trigger] stays_open(less, i, id);
                assert forall|j: int| i <= j < history.len() implies (
                #[trigger] history[j]).tool_call_id != Some(id) by {
                    if j < at {
                        assert(less[j].tool_call_id != Some(id));
                    }
                }
                assert(stays_open(history, i, id));
            }
            if makes_call(last, id) {
                assert(stays_open(history, at, id));
            }
            if exists|i: int| #[trigger] stays_open(history, i, id) {
                let i = choose|i: int| #[trigger] stays_open(history, i, id);
                if i < at {
                    assert forall|j: int| i <= j < less.len() implies (
                    #[trigger] less[j]).tool_call_id != Some(id) by {
                        assert(history[j].tool_call_id != Some(id));
                    }
                    assert(stays_open(less, i, id));
                }
            }
        } else {
            assert forall|i: int| !#[trigger] stays_open(history, i, id) by {
                if 0 <= i < history.len() {
                    assert(history[at].tool_call_id == Some(id));
                }
            }
        }
    } else {
        assert forall|i: int| !#[trigger] stays_open(history, i, id) by {}
    }
}

} // verus!

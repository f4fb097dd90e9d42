//! The wire protocol of a chat completion: requests, replies, failures and
//! tool rounds.
use crate::composer::decl::opt_text;
use crate::json::{
    copy_items, list_push, list_views, member, member_or_null, text_member, Fields, Json, JsonView,
};
use crate::outside::{
    from_utf8_lossy, json_document, json_parsed, json_to_string, lossy_text, parse_json,
};
use crate::text::{
    chars_of, decimal, decimal_text, is_digit, lemma_decimal, text_of,
};
use vstd::prelude::*;

verus! {

/// How many rounds of tool calls a model may take before it answers.
pub const MAX_TOOL_ROUNDS: u32 = 12;

/// How many bytes of a reply are read.
pub const MAX_RESPONSE_BYTES: u64 = 16777216;

/// How often a request is sent again after it did not get through.
pub const MAX_TRANSPORT_RETRIES: u32 = 2;

/// How many characters of a foreign text a log shows.
pub const MAX_LOG_CHARS: usize = 2000;

/// A tool that a model asks to have called, and the arguments as it wrote
/// them.
pub struct ToolCall {
    pub id: String,
    pub kind: String,
    pub name: String,
    pub arguments: String,
}

#[verifier::ext_equal]
pub struct ToolCallView {
    pub id: Seq<char>,
    pub kind: Seq<char>,
    pub name: Seq<char>,
    pub arguments: Seq<char>,
}

impl View for ToolCall {
    type V = ToolCallView;

    open spec fn view(&self) -> ToolCallView {
        ToolCallView {
            id: self.id@,
            kind: self.kind@,
            name: self.name@,
            arguments: self.arguments@,
        }
    }
}

impl Clone for ToolCall {
    fn clone(&self) -> (out: ToolCall)
        ensures
            out@ == self@,
    {
        ToolCall {
            id: self.id.clone(),
            kind: self.kind.clone(),
            name: self.name.clone(),
            arguments: self.arguments.clone(),
        }
    }
}

pub open spec fn call_views(calls: Seq<ToolCall>) -> Seq<ToolCallView> {
    calls.map_values(|c: ToolCall| c@)
}

fn copy_calls(calls: &Vec<ToolCall>) -> (out: Vec<ToolCall>)
    ensures
        call_views(out@) == call_views(calls@),
{
    let mut out: Vec<ToolCall> = Vec::new();
    let mut i: usize = 0;
    while i < calls.len()
        invariant
            i <= calls@.len(),
            call_views(out@) =~= call_views(calls@).take(i as int),
        decreases calls@.len() - i,
    {
        let call: ToolCall = calls[i].clone();
        assert(call_views(out@.push(call)) =~= call_views(out@).push(call@));
        out.push(call);
        i += 1;
    }
    assert(call_views(calls@).take(calls@.len() as int) =~= call_views(calls@));
    out
}

/// One message of a conversation.
pub struct ChatMessage {
    pub role: String,
    pub content: Option<String>,
    pub tool_call_id: Option<String>,
    pub tool_calls: Option<Vec<ToolCall>>,
}

#[verifier::ext_equal]
pub struct MessageView {
    pub role: Seq<char>,
    pub content: Option<Seq<char>>,
    pub tool_call_id: Option<Seq<char>>,
    pub tool_calls: Option<Seq<ToolCallView>>,
}

impl View for ChatMessage {
    type V = MessageView;

    open spec fn view(&self) -> MessageView {
        MessageView {
            role: self.role@,
            content: opt_text(self.content),
            tool_call_id: opt_text(self.tool_call_id),
            tool_calls: match self.tool_calls {
                Some(calls) => Some(call_views(calls@)),
                None => None,
            },
        }
    }
}

/// A message that only says something.
pub open spec fn said(role: Seq<char>, content: Seq<char>) -> MessageView {
    MessageView { role, content: Some(content), tool_call_id: None, tool_calls: None }
}

impl ChatMessage {
    pub fn system(content: String) -> (out: ChatMessage)
        ensures
            out@ == said("system"@, content@),
    {
        ChatMessage {
            role: "system".to_owned(),
            content: Some(content),
            tool_call_id: None,
            tool_calls: None,
        }
    }

    pub fn user(content: String) -> (out: ChatMessage)
        ensures
            out@ == said("user"@, content@),
    {
        ChatMessage {
            role: "user".to_owned(),
            content: Some(content),
            tool_call_id: None,
            tool_calls: None,
        }
    }

    pub fn assistant(content: String) -> (out: ChatMessage)
        ensures
            out@ == said("assistant"@, content@),
    {
        ChatMessage {
            role: "assistant".to_owned(),
            content: Some(content),
            tool_call_id: None,
            tool_calls: None,
        }
    }

    /// The turn in which a model asks for tool calls.
    pub fn assistant_tool_calls(content: Option<String>, tool_calls: Vec<ToolCall>) -> (out:
        ChatMessage)
        ensures
            out@ == (MessageView {
                role: "assistant"@,
                content: opt_text(content),
                tool_call_id: None,
                tool_calls: Some(call_views(tool_calls@)),
            }),
    {
        ChatMessage {
            role: "assistant".to_owned(),
            content,
            tool_call_id: None,
            tool_calls: Some(tool_calls),
        }
    }

    /// What a tool gave, for the call that asked for it.
    pub fn tool_result(tool_call_id: String, content: String) -> (out: ChatMessage)
        ensures
            out@ == (MessageView {
                role: "tool"@,
                content: Some(content@),
                tool_call_id: Some(tool_call_id@),
                tool_calls: None,
            }),
    {
        ChatMessage {
            role: "tool".to_owned(),
            content: Some(content),
            tool_call_id: Some(tool_call_id),
            tool_calls: None,
        }
    }
}

pub open spec fn call_json(call: ToolCallView) -> JsonView {
    JsonView::Object(
        seq![
            ("id"@, JsonView::Text(call.id)),
            ("type"@, JsonView::Text(call.kind)),
            (
                "function"@,
                JsonView::Object(
                    seq![
                        ("name"@, JsonView::Text(call.name)),
                        ("arguments"@, JsonView::Text(call.arguments)),
                    ],
                ),
            ),
        ],
    )
}

fn write_call(call: &ToolCall) -> (out: Json)
    ensures
        out@ == call_json(call@),
{
    let mut function: Fields = Fields::new();
    function.put_text("name", call.name.as_str());
    function.put_text("arguments", call.arguments.as_str());
    let mut fields: Fields = Fields::new();
    fields.put_text("id", call.id.as_str());
    fields.put_text("type", call.kind.as_str());
    assert(function@ =~= call_json(call@)->Object_0[2].1->Object_0);
    fields.put("function", function.object());
    assert(fields@ =~= call_json(call@)->Object_0);
    fields.object()
}

pub open spec fn calls_json(calls: Seq<ToolCallView>) -> JsonView {
    JsonView::List(calls.map_values(|c: ToolCallView| call_json(c)))
}

fn write_calls(calls: &Vec<ToolCall>) -> (out: Json)
    ensures
        out@ == calls_json(call_views(calls@)),
{
    broadcast use list_push;

    let ghost all = call_views(calls@).map_values(|c: ToolCallView| call_json(c));
    let mut items: Vec<Json> = Vec::new();
    let mut i: usize = 0;
    assert(list_views(items@) =~= all.take(0));
    while i < calls.len()
        invariant
            i <= calls@.len(),
            all == call_views(calls@).map_values(|c: ToolCallView| call_json(c)),
            list_views(items@) == all.take(i as int),
        decreases calls@.len() - i,
    {
        let ghost before = items@;
        items.push(write_call(&calls[i]));
        assert(items@.drop_last() =~= before);
        assert(all[i as int] == call_json(calls@[i as int]@));
        i += 1;
        assert(all.take(i as int) =~= all.take(i as int - 1).push(all[i as int - 1]));
    }
    assert(all.take(i as int) =~= all);
    Json::List(items)
}

/// A field that is left out where there is nothing to say.
pub open spec fn if_some(key: Seq<char>, value: Option<JsonView>) -> Seq<(Seq<char>, JsonView)> {
    match value {
        Some(v) => seq![(key, v)],
        None => Seq::empty(),
    }
}

pub open spec fn maybe_text(o: Option<Seq<char>>) -> Option<JsonView> {
    match o {
        Some(s) => Some(JsonView::Text(s)),
        None => None,
    }
}

/// A message on the wire; what it does not carry is left out.
pub open spec fn message_json(m: MessageView) -> JsonView {
    JsonView::Object(
        seq![("role"@, JsonView::Text(m.role))] + if_some("content"@, maybe_text(m.content))
            + if_some("tool_call_id"@, maybe_text(m.tool_call_id)) + if_some(
            "tool_calls"@,
            match m.tool_calls {
                Some(calls) => Some(calls_json(calls)),
                None => None,
            },
        ),
    )
}

fn write_message(m: &ChatMessage) -> (out: Json)
    ensures
        out@ == message_json(m@),
{
    let mut fields: Fields = Fields::new();
    fields.put_text("role", m.role.as_str());
    if let Some(content) = &m.content {
        fields.put_text("content", content.as_str());
    }
    if let Some(id) = &m.tool_call_id {
        fields.put_text("tool_call_id", id.as_str());
    }
    if let Some(calls) = &m.tool_calls {
        fields.put("tool_calls", write_calls(calls));
    }
    assert(fields@ =~= message_json(m@)->Object_0);
    fields.object()
}

pub open spec fn message_views(history: Seq<ChatMessage>) -> Seq<MessageView> {
    history.map_values(|m: ChatMessage| m@)
}

pub broadcast proof fn message_push(history: Seq<ChatMessage>, m: ChatMessage)
    ensures
        #[trigger] message_views(history.push(m)) == message_views(history).push(m@),
{
    assert(message_views(history.push(m)) =~= message_views(history).push(m@));
}

pub open spec fn messages_json(history: Seq<MessageView>) -> JsonView {
    JsonView::List(history.map_values(|m: MessageView| message_json(m)))
}

fn write_messages(history: &Vec<ChatMessage>) -> (out: Json)
    ensures
        out@ == messages_json(message_views(history@)),
{
    broadcast use list_push;

    let ghost all = message_views(history@).map_values(|m: MessageView| message_json(m));
    let mut items: Vec<Json> = Vec::new();
    let mut i: usize = 0;
    assert(list_views(items@) =~= all.take(0));
    while i < history.len()
        invariant
            i <= history@.len(),
            all == message_views(history@).map_values(|m: MessageView| message_json(m)),
            list_views(items@) == all.take(i as int),
        decreases history@.len() - i,
    {
        let ghost before = items@;
        items.push(write_message(&history[i]));
        assert(items@.drop_last() =~= before);
        assert(all[i as int] == message_json(history@[i as int]@));
        i += 1;
        assert(all.take(i as int) =~= all.take(i as int - 1).push(all[i as int - 1]));
    }
    assert(all.take(i as int) =~= all);
    Json::List(items)
}

/// The request for a completion: the model, the conversation, a temperature of
/// a fifth, and the tools on offer.
pub open spec fn request_json(
    model: Seq<char>,
    history: Seq<MessageView>,
    tools: Option<Seq<JsonView>>,
) -> JsonView {
    JsonView::Object(
        seq![
            ("model"@, JsonView::Text(model)),
            ("messages"@, messages_json(history)),
            ("temperature"@, JsonView::Number("0.2"@)),
        ] + if_some(
            "tools"@,
            match tools {
                Some(list) => Some(JsonView::List(list)),
                None => None,
            },
        ),
    )
}

/// The request for a completion.
pub fn completion_request(model: &str, history: &Vec<ChatMessage>, tools: &Option<Vec<Json>>) -> (out:
    Json)
    ensures
        out@ == request_json(
            model@,
            message_views(history@),
            match *tools {
                Some(list) => Some(list_views(list@)),
                None => None,
            },
        ),
{
    let mut fields: Fields = Fields::new();
    fields.put_text("model", model);
    fields.put("messages", write_messages(history));
    fields.put("temperature", Json::Number("0.2".to_owned()));
    if let Some(list) = tools {
        fields.put("tools", Json::List(copy_items(list)));
    }
    assert(fields@ =~= request_json(
        model@,
        message_views(history@),
        match *tools {
            Some(list) => Some(list_views(list@)),
            None => None,
        },
    )->Object_0);
    fields.object()
}

/// An address without the slashes at its end.
pub open spec fn without_slashes(s: Seq<char>) -> Seq<char>
    decreases s.len(),
{
    if s.len() > 0 && s.last() == '/' {
        without_slashes(s.drop_last())
    } else {
        s
    }
}

/// Where completions are asked for.
pub open spec fn at_completions(base: Seq<char>) -> Seq<char> {
    base + "/chat/completions"@
}

/// Where completions are asked for.
pub fn completions_url(base_url: &str) -> (out: String)
    ensures
        out@ == at_completions(without_slashes(base_url@)),
{
    let chars: Vec<char> = chars_of(base_url);
    let mut n: usize = chars.len();
    assert(base_url@.take(n as int) =~= base_url@);
    while n > 0 && chars[n - 1] == '/'
        invariant
            n <= chars@.len(),
            chars@ == base_url@,
            without_slashes(base_url@) == without_slashes(base_url@.take(n as int)),
        decreases n,
    {
        assert(base_url@.take(n as int).drop_last() =~= base_url@.take(n - 1));
        n -= 1;
    }
    let mut out: String = text_of(&chars, 0, n);
    assert(out@ =~= base_url@.take(n as int));
    out.append("/chat/completions");
    out
}

/// A control character.
pub open spec fn is_control(c: char) -> bool {
    (c as u32) < 0x20 || 0x7f <= (c as u32) <= 0x9f
}

/// A character as a log shows it: a space for every control character but the
/// tab.
pub open spec fn log_char(c: char) -> char {
    if c == '\t' || !is_control(c) {
        c
    } else {
        ' '
    }
}

pub open spec fn cut_short(kept: Seq<char>, dropped: Seq<char>) -> Seq<char> {
    kept
        + "... [truncated, "@
        + dropped
        + " more chars]"@
}

/// A foreign text as a log shows it: without control characters, and cut after
/// two thousand characters.
pub open spec fn log_text(s: Seq<char>) -> Seq<char> {
    let cleaned = s.map_values(|c: char| log_char(c));
    if cleaned.len() > 2000 {
        cut_short(cleaned.take(2000), decimal((cleaned.len() - 2000) as nat))
    } else {
        cleaned
    }
}

/// A foreign text as a log may show it.
pub fn sanitize_for_log(s: &str) -> (out: String)
    ensures
        out@ == log_text(s@),
{
    let chars: Vec<char> = chars_of(s);
    let ghost cleaned = s@.map_values(|c: char| log_char(c));
    let kept: usize = if chars.len() > MAX_LOG_CHARS {
        MAX_LOG_CHARS
    } else {
        chars.len()
    };
    let mut out: String = String::new();
    let mut i: usize = 0;
    assert(out@ =~= cleaned.take(0));
    while i < kept
        invariant
            i <= kept <= chars@.len(),
            chars@ == s@,
            cleaned == s@.map_values(|c: char| log_char(c)),
            out@ == cleaned.take(i as int),
        decreases kept - i,
    {
        let c: char = chars[i];
        let u: u32 = c as u32;
        if c == '\t' || !(u < 0x20 || (0x7f <= u && u <= 0x9f)) {
            out.push(c);
        } else {
            out.push(' ');
        }
        i += 1;
        assert(cleaned.take(i as int) =~= cleaned.take(i as int - 1).push(cleaned[i as int - 1]));
    }
    if chars.len() > MAX_LOG_CHARS {
        let more: usize = chars.len() - MAX_LOG_CHARS;
        out.append("... [truncated, ");
        out.append(decimal_text(more as u64).as_str());
        out.append(" more chars]");
    } else {
        assert(cleaned.take(kept as int) =~= cleaned);
    }
    out
}

/// What a log shows of a foreign text is one line: no control character but
/// the tab is in it.
pub proof fn law_a_logged_text_stays_on_its_line(s: Seq<char>, i: int)
    requires
        0 <= i < log_text(s).len(),
    ensures
        log_text(s)[i] == '\t' || !is_control(log_text(s)[i]),
{
    let cleaned = s.map_values(|c: char| log_char(c));
    if cleaned.len() > 2000 {
        let dropped = decimal((cleaned.len() - 2000) as nat);
        let all = log_text(s);
        lemma_decimal((cleaned.len() - 2000) as nat);
        reveal_strlit("... [truncated, ");
        reveal_strlit(" more chars]");
        let open = "... [truncated, "@;
        let close = " more chars]"@;
        assert(forall|j: int| 0 <= j < open.len() ==> !is_control(#[trigger] open[j]));
        assert(forall|j: int| 0 <= j < close.len() ==> !is_control(#[trigger] close[j]));
        if i < 2000 {
            assert(all[i] == cleaned[i]);
        } else if i < 2000 + open.len() {
            assert(all[i] == open[i - 2000]);
        } else if i < 2000 + open.len() + dropped.len() {
            assert(all[i] == dropped[i - 2000 - open.len()]);
            assert(is_digit(dropped[i - 2000 - open.len()]));
        } else {
            assert(all[i] == close[i - 2000 - open.len() - dropped.len()]);
        }
    }
}

/// How a request failed to get through.
#[derive(Clone, Copy)]
pub enum TransportFault {
    TimedOut,
    NotConnected,
    Other,
}

/// What to do after a request did not get through.
pub enum AfterFault {
    /// Wait that many milliseconds and send it again.
    Retry { retries: u32, wait_ms: u64 },
    /// Give up and say so.
    Fail(String),
}

pub open spec fn timed_out(secs: Seq<char>, attempts: Seq<char>) -> Seq<char> {
    "the model didn't respond within "@
        + secs
        + "s (timed out, after "@
        + attempts
        + " attempt(s)) -- ambitious requests to a reasoning model can need longer; raise \
    NIRDOSHA_LLM_PROVIDER_TIMEOUT_SECS"@
}

fn say_timed_out(secs: &str, attempts: &str) -> (out: String)
    ensures
        out@ == timed_out(secs@, attempts@),
{
    let mut out: String = "the model didn't respond within ".to_owned();
    out.append(secs);
    out.append("s (timed out, after ");
    out.append(attempts);
    out.append(" attempt(s)) -- ambitious requests to a reasoning model can need longer; raise \
        NIRDOSHA_LLM_PROVIDER_TIMEOUT_SECS");
    out
}

pub open spec fn not_sent(url: Seq<char>, attempts: Seq<char>, error: Seq<char>) -> Seq<char> {
    "request to "@
        + url
        + " failed after "@
        + attempts
        + " attempt(s): "@
        + error
}

fn say_not_sent(url: &str, attempts: &str, error: &str) -> (out: String)
    ensures
        out@ == not_sent(url@, attempts@, error@),
{
    let mut out: String = "request to ".to_owned();
    out.append(url);
    out.append(" failed after ");
    out.append(attempts);
    out.append(" attempt(s): ");
    out.append(error);
    out
}

/// What to do after a request did not get through for the `retries + 1`st
/// time: a timeout or a refused connection is tried again twice, each time
/// after half a second more.
pub fn after_fault(
    retries: u32,
    fault: TransportFault,
    timeout_secs: u64,
    url: &str,
    error: &str,
) -> (out: AfterFault)
    requires
        retries <= MAX_TRANSPORT_RETRIES,
    ensures
        match out {
            AfterFault::Retry { retries: now, wait_ms } => {
                &&& retries < MAX_TRANSPORT_RETRIES
                &&& fault is TimedOut || fault is NotConnected
                &&& now == retries + 1
                &&& wait_ms == 500 * now
            },
            AfterFault::Fail(e) => {
                &&& retries == MAX_TRANSPORT_RETRIES || fault is Other
                &&& e@ == if fault is TimedOut {
                    timed_out(decimal(timeout_secs as nat), decimal((retries + 1) as nat))
                } else {
                    not_sent(url@, decimal((retries + 1) as nat), error@)
                }
            },
        },
{
    let again: bool = match fault {
        TransportFault::Other => false,
        _ => retries < MAX_TRANSPORT_RETRIES,
    };
    if again {
        let now: u32 = retries + 1;
        return AfterFault::Retry { retries: now, wait_ms: 500 * (now as u64) };
    }
    let attempts: String = decimal_text(retries as u64 + 1);
    match fault {
        TransportFault::TimedOut => AfterFault::Fail(
            say_timed_out(decimal_text(timeout_secs).as_str(), attempts.as_str()),
        ),
        _ => AfterFault::Fail(say_not_sent(url, attempts.as_str(), error)),
    }
}

pub open spec fn too_long() -> Seq<char> {
    "the response body exceeded the 16777216-byte cap -- refusing to buffer it fully in \
    memory"@
}

fn say_too_long() -> (out: String)
    ensures
        out@ == too_long(),
{
    "the response body exceeded the 16777216-byte cap -- refusing to buffer it fully in \
        memory".to_owned()
}

/// The text of a reply's body, of which at most one byte more than the limit
/// was read.
pub fn capped_body(body: &Vec<u8>) -> (out: Result<String, String>)
    ensures
        match out {
            Ok(text) => body@.len() <= MAX_RESPONSE_BYTES && text@ == lossy_text(body@),
            Err(e) => body@.len() > MAX_RESPONSE_BYTES && e@ == too_long(),
        },
{
    if body.len() as u64 > MAX_RESPONSE_BYTES {
        return Err(say_too_long());
    }
    Ok(from_utf8_lossy(body.as_slice()))
}

pub open spec fn rate_limited(url: Seq<char>, body: Seq<char>) -> Seq<char> {
    "rate limited (429) by "@
        + url
        + " -- the provider is throttling this key/account, not rejecting the request; back off \
    and retry later, or check its rate-limit dashboard. Response: "@
        + body
}

fn say_rate_limited(url: &str, body: &str) -> (out: String)
    ensures
        out@ == rate_limited(url@, body@),
{
    let mut out: String = "rate limited (429) by ".to_owned();
    out.append(url);
    out.append(" -- the provider is throttling this key/account, not rejecting the request; back \
        off and retry later, or check its rate-limit dashboard. Response: ");
    out.append(body);
    out
}

pub open spec fn refused(url: Seq<char>, status: Seq<char>, body: Seq<char>) -> Seq<char> {
    url
        + " returned "@
        + status
        + ": "@
        + body
}

fn say_refused(url: &str, status: &str, body: &str) -> (out: String)
    ensures
        out@ == refused(url@, status@, body@),
{
    let mut out: String = url.to_owned();
    out.append(" returned ");
    out.append(status);
    out.append(": ");
    out.append(body);
    out
}

/// Why a reply is no answer, by its status; `None` for a success.
pub open spec fn status_error(
    status: int,
    shown: Seq<char>,
    url: Seq<char>,
    body: Seq<char>,
) -> Option<Seq<char>> {
    if status == 429 {
        Some(rate_limited(url, log_text(body)))
    } else if 200 <= status < 300 {
        None
    } else {
        Some(refused(url, shown, log_text(body)))
    }
}

/// Whether a reply is an answer, by its status. `shown` is the status as a
/// person reads it.
pub fn check_status(status: u16, shown: &str, url: &str, body: &str) -> (out: Result<(), String>)
    ensures
        match out {
            Ok(_) => status_error(status as int, shown@, url@, body@) is None,
            Err(e) => status_error(status as int, shown@, url@, body@) == Some(e@),
        },
{
    if status == 429 {
        Err(say_rate_limited(url, sanitize_for_log(body).as_str()))
    } else if 200 <= status && status < 300 {
        Ok(())
    } else {
        Err(say_refused(url, shown, sanitize_for_log(body).as_str()))
    }
}

pub open spec fn unreadable_reply(error: Seq<char>, body: Seq<char>) -> Seq<char> {
    "parsing response JSON: "@
        + error
        + " (body: "@
        + body
        + ")"@
}

/// What to say of a reply that is not of the expected shape.
pub fn unreadable(error: &str, body: &str) -> (out: String)
    ensures
        out@ == unreadable_reply(error@, log_text(body@)),
{
    let mut out: String = "parsing response JSON: ".to_owned();
    out.append(error);
    out.append(" (body: ");
    out.append(sanitize_for_log(body).as_str());
    out.append(")");
    out
}

/// What a model replied.
pub struct Reply {
    pub content: Option<String>,
    pub tool_calls: Option<Vec<ToolCall>>,
}

/// The reply that counts: the first.
pub fn first_reply(choices: Vec<Reply>) -> (out: Result<Reply, String>)
    ensures
        match out {
            Ok(reply) => choices@.len() > 0 && reply == choices@[0],
            Err(e) => choices@.len() == 0 && e@ == "response had no choices"@,
        },
{
    let mut choices: Vec<Reply> = choices;
    if choices.len() == 0 {
        return Err("response had no choices".to_owned());
    }
    Ok(choices.swap_remove(0))
}

/// The text of a reply; empty where there is none.
pub open spec fn content_of(reply: Reply) -> Seq<char> {
    match reply.content {
        Some(s) => s@,
        None => Seq::empty(),
    }
}

/// The text of a reply that was asked for without tools.
pub fn reply_text(reply: Reply) -> (out: String)
    ensures
        out@ == content_of(reply),
{
    match reply.content {
        Some(s) => s,
        None => String::new(),
    }
}

/// What a reply asks for.
pub enum ReplyStep {
    /// Nothing more: this is the answer.
    Answer(String),
    /// That these tools be called.
    Call(Vec<ToolCall>),
}

/// The tool calls that a reply asks for.
pub open spec fn calls_of(reply: Reply) -> Seq<ToolCallView> {
    match reply.tool_calls {
        Some(calls) => call_views(calls@),
        None => Seq::empty(),
    }
}

/// A tool round that is over, or one that may still run.
pub struct ToolRounds {
    pub taken: u32,
}

pub open spec fn endless_tools() -> Seq<char> {
    "the model called tools for 12 rounds in a row without ever producing a final answer -- \
    giving up this attempt"@
}

fn say_endless_tools() -> (out: String)
    ensures
        out@ == endless_tools(),
{
    "the model called tools for 12 rounds in a row without ever producing a final answer \
        -- giving up this attempt".to_owned()
}

impl ToolRounds {
    pub fn new() -> (out: ToolRounds)
        ensures
            out.taken == 0,
    {
        ToolRounds { taken: 0 }
    }

    /// Begins a round, as long as there is one left.
    pub fn begin(&mut self) -> (out: Result<(), String>)
        ensures
            match out {
                Ok(_) => old(self).taken < MAX_TOOL_ROUNDS && final(self).taken == old(self).taken
                    + 1,
                Err(e) => old(self).taken >= MAX_TOOL_ROUNDS && *final(self) == *old(self) && e@
                    == endless_tools(),
            },
    {
        if self.taken >= MAX_TOOL_ROUNDS {
            return Err(say_endless_tools());
        }
        self.taken = self.taken + 1;
        Ok(())
    }
}

/// Takes a reply into a conversation. One that asks for no tool is the answer
/// and leaves the conversation as it is; one that does is kept in it.
pub fn take_reply(history: &mut Vec<ChatMessage>, reply: Reply) -> (out: ReplyStep)
    ensures
        match out {
            ReplyStep::Answer(text) => {
                &&& calls_of(reply).len() == 0
                &&& text@ == content_of(reply)
                &&& final(history)@ == old(history)@
            },
            ReplyStep::Call(calls) => {
                &&& call_views(calls@) == calls_of(reply)
                &&& calls@.len() > 0
                &&& message_views(final(history)@) == message_views(old(history)@).push(
                    MessageView {
                        role: "assistant"@,
                        content: opt_text(reply.content),
                        tool_call_id: None,
                        tool_calls: Some(calls_of(reply)),
                    },
                )
            },
        },
{
    broadcast use message_push;

    match reply.tool_calls {
        Some(calls) => {
            if calls.len() > 0 {
                let copy: Vec<ToolCall> = copy_calls(&calls);
                proof {
                    assert(call_views(copy@).len() == copy@.len());
                    assert(call_views(calls@).len() == calls@.len());
                }
                history.push(ChatMessage::assistant_tool_calls(reply.content, calls));
                return ReplyStep::Call(copy);
            }
            match reply.content {
                Some(s) => ReplyStep::Answer(s),
                None => ReplyStep::Answer(String::new()),
            }
        },
        None => match reply.content {
            Some(s) => ReplyStep::Answer(s),
            None => ReplyStep::Answer(String::new()),
        },
    }
}

/// The arguments of a tool call: the value that its text holds, or an empty
/// object where it holds none.
pub open spec fn call_arguments(arguments: Seq<char>) -> JsonView {
    match json_parsed(arguments) {
        Ok(v) => v,
        Err(_) => JsonView::Object(Seq::empty()),
    }
}

pub open spec fn call_params(call: ToolCallView) -> JsonView {
    JsonView::Object(
        seq![
            ("name"@, JsonView::Text(call.name)),
            ("arguments"@, call_arguments(call.arguments)),
        ],
    )
}

/// What a tool is called with.
pub fn tool_params(call: &ToolCall) -> (out: Json)
    ensures
        out@ == call_params(call@),
{
    let mut fields: Fields = Fields::new();
    fields.put_text("name", call.name.as_str());
    match parse_json(call.arguments.as_str()) {
        Ok(v) => fields.put("arguments", v),
        Err(_) => {
            let empty: Fields = Fields::new();
            fields.put("arguments", empty.object());
        },
    }
    assert(fields@ =~= call_params(call@)->Object_0);
    fields.object()
}

/// What a model is told of a tool's outcome: the result, or an object around
/// the error.
pub open spec fn outcome_json(outcome: Result<JsonView, Seq<char>>) -> JsonView {
    match outcome {
        Ok(v) => v,
        Err(e) => JsonView::Object(seq![("error"@, JsonView::Text(e))]),
    }
}

/// What a model is told of a tool's outcome.
pub fn outcome_text(outcome: &Result<Json, String>) -> (out: String)
    ensures
        out@ == json_document(
            outcome_json(
                match *outcome {
                    Ok(v) => Ok(v@),
                    Err(e) => Err(e@),
                },
            ),
        ),
{
    match outcome {
        Ok(v) => json_to_string(v),
        Err(e) => {
            let mut fields: Fields = Fields::new();
            fields.put_text("error", e.as_str());
            assert(fields@ =~= seq![("error"@, JsonView::Text(e@))]);
            json_to_string(&fields.object())
        },
    }
}

pub open spec fn no_tools(source: Seq<char>) -> Seq<char> {
    source + " did not return a `tools` array -- the tool surface is unavailable"@
}

fn say_no_tools(source: &str) -> (out: String)
    ensures
        out@ == no_tools(source@),
{
    let mut out: String = source.to_owned();
    out.append(" did not return a `tools` array -- the tool surface is unavailable");
    out
}

pub open spec fn nameless_tool(source: Seq<char>, tool: Seq<char>) -> Seq<char> {
    "a tool entry from "@
        + source
        + " has no string `name`: "@
        + tool
}

fn say_nameless_tool(source: &str, tool: &str) -> (out: String)
    ensures
        out@ == nameless_tool(source@, tool@),
{
    let mut out: String = "a tool entry from ".to_owned();
    out.append(source);
    out.append(" has no string `name`: ");
    out.append(tool);
    out
}

/// A tool in the shape in which it is offered to a model.
pub open spec fn offered(tool: JsonView) -> JsonView {
    JsonView::Object(
        seq![
            ("type"@, JsonView::Text("function"@)),
            (
                "function"@,
                JsonView::Object(
                    seq![
                        ("name"@, JsonView::Text(text_member(tool, "name"@)->Some_0)),
                        ("description"@, member_or_null(tool, "description"@)),
                        ("parameters"@, member_or_null(tool, "inputSchema"@)),
                    ],
                ),
            ),
        ],
    )
}

/// A list of tools in the shape in which they are offered to a model, or what
/// is wrong with the first that cannot be offered.
pub open spec fn offered_tools(tools: Seq<JsonView>, source: Seq<char>, n: nat) -> Result<
    Seq<JsonView>,
    Seq<char>,
>
    decreases n,
{
    if n == 0 {
        Ok(Seq::empty())
    } else {
        match offered_tools(tools, source, (n - 1) as nat) {
            Err(e) => Err(e),
            Ok(before) => {
                let tool = tools[n - 1];
                if text_member(tool, "name"@) is None {
                    Err(nameless_tool(source, json_document(tool)))
                } else {
                    Ok(before.push(offered(tool)))
                }
            },
        }
    }
}

pub open spec fn reshaped(list: JsonView, source: Seq<char>) -> Result<Seq<JsonView>, Seq<char>> {
    match member(list, "tools"@) {
        Some(JsonView::List(tools)) => offered_tools(tools, source, tools.len()),
        _ => Err(no_tools(source)),
    }
}

proof fn lemma_refused_tools(tools: Seq<JsonView>, source: Seq<char>, i: nat, n: nat)
    requires
        i <= n,
        offered_tools(tools, source, i) is Err,
    ensures
        offered_tools(tools, source, n) == offered_tools(tools, source, i),
    decreases n,
{
    if i < n {
        lemma_refused_tools(tools, source, i, (n - 1) as nat);
    }
}

/// The tools of a listing, in the shape in which they are offered to a model.
/// `source_fn` names who listed them.
pub fn reshape_tools_to_openai(list: &Json, source_fn: &str) -> (out: Result<Vec<Json>, String>)
    ensures
        match out {
            Ok(tools) => reshaped(list@, source_fn@) == Ok::<Seq<JsonView>, Seq<char>>(
                list_views(tools@),
            ),
            Err(e) => reshaped(list@, source_fn@) == Err::<Seq<JsonView>, Seq<char>>(e@),
        },
{
    broadcast use list_push;

    let tools: &Vec<Json> = match list.get("tools") {
        Some(Json::List(tools)) => tools,
        _ => {
            return Err(say_no_tools(source_fn));
        },
    };
    let ghost views = list_views(tools@);
    proof {
        crate::json::lemma_list_len(tools@);
    }
    let mut out: Vec<Json> = Vec::new();
    let mut i: usize = 0;
    while i < tools.len()
        invariant
            i <= tools@.len(),
            views == list_views(tools@),
            views.len() == tools@.len(),
            reshaped(list@, source_fn@) == offered_tools(views, source_fn@, views.len()),
            offered_tools(views, source_fn@, i as nat) == Ok::<Seq<JsonView>, Seq<char>>(
                list_views(out@),
            ),
        decreases tools@.len() - i,
    {
        proof {
            crate::json::lemma_list_item(tools@, i as int);
        }
        let tool: &Json = &tools[i];
        match tool.get_text("name") {
            None => {
                proof {
                    lemma_refused_tools(views, source_fn@, (i + 1) as nat, views.len());
                }
                return Err(say_nameless_tool(source_fn, json_to_string(tool).as_str()));
            },
            Some(name) => {
                let mut function: Fields = Fields::new();
                function.put_text("name", name.as_str());
                function.put("description", tool.get_or_null("description"));
                function.put("parameters", tool.get_or_null("inputSchema"));
                assert(function@ =~= offered(tool@)->Object_0[1].1->Object_0);
                let mut fields: Fields = Fields::new();
                fields.put_text("type", "function");
                fields.put("function", function.object());
                assert(fields@ =~= offered(tool@)->Object_0);
                let made: Json = fields.object();
                let ghost before = out@;
                out.push(made);
                assert(out@.drop_last() =~= before);
            },
        }
        i += 1;
    }
    Ok(out)
}

/// A message on the wire carries its role, and what it says, which call it
/// answers and which calls it asks for, each where there is any.
pub proof fn law_messages_on_the_wire(m: MessageView)
    ensures
        message_json(m) == JsonView::Object(
            seq![("role"@, JsonView::Text(m.role))] + (if m.content is Some {
                seq![("content"@, JsonView::Text(m.content->Some_0))]
            } else {
                Seq::empty()
            }) + (if m.tool_call_id is Some {
                seq![("tool_call_id"@, JsonView::Text(m.tool_call_id->Some_0))]
            } else {
                Seq::empty()
            }) + (if m.tool_calls is Some {
                seq![
                    (
                        "tool_calls"@,
                        JsonView::List(
                            m.tool_calls->Some_0.map_values(|c: ToolCallView| call_json(c)),
                        ),
                    ),
                ]
            } else {
                Seq::empty()
            }),
        ),
{
}

/// A call on the wire carries its identifier, its kind, the name of the tool and
/// its arguments.
pub proof fn law_calls_on_the_wire(call: ToolCallView)
    ensures
        call_json(call) == JsonView::Object(
            seq![
                ("id"@, JsonView::Text(call.id)),
                ("type"@, JsonView::Text(call.kind)),
                (
                    "function"@,
                    JsonView::Object(
                        seq![
                            ("name"@, JsonView::Text(call.name)),
                            ("arguments"@, JsonView::Text(call.arguments)),
                        ],
                    ),
                ),
            ],
        ),
{
}

/// A request carries the model, the whole conversation in order, a temperature of
/// a fifth, and the tools where any are on offer.
pub proof fn law_requests_on_the_wire(
    model: Seq<char>,
    history: Seq<MessageView>,
    tools: Option<Seq<JsonView>>,
)
    ensures
        request_json(model, history, tools) == JsonView::Object(
            seq![
                ("model"@, JsonView::Text(model)),
                (
                    "messages"@,
                    JsonView::List(history.map_values(|m: MessageView| message_json(m))),
                ),
                ("temperature"@, JsonView::Number("0.2"@)),
            ] + (if tools is Some {
                seq![("tools"@, JsonView::List(tools->Some_0))]
            } else {
                Seq::empty()
            }),
        ),
{
}

/// An address loses the slashes at its end, and nothing else.
pub proof fn law_addresses(s: Seq<char>)
    ensures
        without_slashes(s).len() <= s.len(),
        without_slashes(s) == s.take(without_slashes(s).len() as int),
        without_slashes(s).len() > 0 ==> without_slashes(s).last() != '/',
        forall|i: int| without_slashes(s).len() <= i < s.len() ==> #[trigger] s[i] == '/',
        at_completions(s) == s + "/chat/completions"@,
    decreases s.len(),
{
    if s.len() > 0 && s.last() == '/' {
        let front = s.drop_last();
        law_addresses(front);
        assert(without_slashes(s) =~= s.take(without_slashes(s).len() as int));
        assert forall|i: int| without_slashes(s).len() <= i < s.len() implies #[trigger] s[i]
            == '/' by {
            if i < s.len() - 1 {
                assert(front[i] == s[i]);
            }
        }
    } else {
        assert(s.take(s.len() as int) =~= s);
    }
}

/// A foreign text in a log: every control character but the tab is a space, what
/// is behind two thousand characters is left out, and how much that was is told.
pub proof fn law_texts_in_a_log(s: Seq<char>)
    ensures
        ({
            let kept = if s.len() > 2000 {
                2000int
            } else {
                s.len() as int
            };
            &&& log_text(s).len() >= kept
            &&& s.len() <= 2000 ==> log_text(s).len() == s.len()
            &&& s.len() > 2000 ==> log_text(s).skip(2000) == "... [truncated, "@ + decimal(
                (s.len() - 2000) as nat,
            ) + " more chars]"@
            &&& forall|i: int|
                0 <= i < kept ==> #[trigger] log_text(s)[i] == if s[i] != '\t' && ((s[i] as u32)
                    < 0x20 || 0x7f <= (s[i] as u32) <= 0x9f) {
                    ' '
                } else {
                    s[i]
                }
        }),
{
    let cleaned = s.map_values(|c: char| log_char(c));
    if s.len() > 2000 {
        assert(log_text(s).skip(2000) =~= "... [truncated, "@ + decimal((s.len() - 2000) as nat)
            + " more chars]"@);
    }
}

/// A reply is an answer exactly where its status is one of success.
pub proof fn law_status_of_a_reply(
    status: int,
    shown: Seq<char>,
    url: Seq<char>,
    body: Seq<char>,
)
    ensures
        status_error(status, shown, url, body) is None <==> 200 <= status < 300,
        status != 429 && !(200 <= status < 300) ==> status_error(status, shown, url, body) == Some(
            url + " returned "@ + shown + ": "@ + log_text(body),
        ),
{
}

/// What a reply says and what it asks for is empty where it does neither; a call
/// whose arguments cannot be read is made without any; a model is told of a
/// result as it is and of an error as one.
pub proof fn law_replies(
    reply: Reply,
    call: ToolCallView,
    v: JsonView,
    e: Seq<char>,
    arguments: Seq<char>,
)
    ensures
        reply.content matches Some(s) ==> content_of(reply) == s@,
        reply.content is None ==> content_of(reply).len() == 0,
        reply.tool_calls matches Some(calls) ==> calls_of(reply) == call_views(calls@),
        reply.tool_calls is None ==> calls_of(reply).len() == 0,
        call_params(call) == JsonView::Object(
            seq![
                ("name"@, JsonView::Text(call.name)),
                ("arguments"@, call_arguments(call.arguments)),
            ],
        ),
        json_parsed(arguments) matches Ok(parsed) ==> call_arguments(arguments) == parsed,
        json_parsed(arguments) is Err ==> call_arguments(arguments) == JsonView::Object(
            Seq::empty(),
        ),
        outcome_json(Ok(v)) == v,
        outcome_json(Err(e)) == JsonView::Object(seq![("error"@, JsonView::Text(e))]),
{
}

/// Tools are offered to a model exactly where each of them has a name; each is
/// offered with its name, its description and its parameters, in order.
pub proof fn law_offered_tools(tools: Seq<JsonView>, source: Seq<char>, n: nat)
    requires
        n <= tools.len(),
    ensures
        offered_tools(tools, source, n) is Ok <==> forall|i: int|
            0 <= i < n ==> text_member(#[trigger] tools[i], "name"@) is Some,
        offered_tools(tools, source, n) matches Ok(list) ==> {
            &&& list.len() == n
            &&& forall|i: int|
                0 <= i < n ==> #[trigger] list[i] == JsonView::Object(
                    seq![
                        ("type"@, JsonView::Text("function"@)),
                        (
                            "function"@,
                            JsonView::Object(
                                seq![
                                    (
                                        "name"@,
                                        JsonView::Text(text_member(tools[i], "name"@)->Some_0),
                                    ),
                                    ("description"@, member_or_null(tools[i], "description"@)),
                                    ("parameters"@, member_or_null(tools[i], "inputSchema"@)),
                                ],
                            ),
                        ),
                    ],
                )
        },
    decreases n,
{
    if n > 0 {
        law_offered_tools(tools, source, (n - 1) as nat);
        assert(text_member(tools[n - 1], "name"@) == text_member(tools[n - 1], "name"@));
    }
}

/// The tools of a listing are those under its name; what is no listing offers
/// none.
pub proof fn law_listed_tools(list: JsonView, source: Seq<char>)
    ensures
        member(list, "tools"@) matches Some(JsonView::List(tools)) ==> reshaped(list, source)
            == offered_tools(tools, source, tools.len()),
        !(member(list, "tools"@) is Some && member(list, "tools"@)->Some_0 is List) ==> reshaped(
            list,
            source,
        ) is Err,
{
}

/// A message that only says something has a speaker and a text, and neither
/// calls a tool nor answers a call.
pub proof fn law_a_plain_message(role: Seq<char>, content: Seq<char>)
    ensures
        said(role, content).role == role,
        said(role, content).content == Some(content),
        said(role, content).tool_call_id is None,
        said(role, content).tool_calls is None,
{
}

/// What is said of a failed request names whom it went to, how often, and why it
/// failed; a text that was cut tells how much is missing.
pub proof fn law_what_is_said(a: Seq<char>, b: Seq<char>, c: Seq<char>)
    ensures
        cut_short(a, b) == a + "... [truncated, "@ + b + " more chars]"@,
        timed_out(a, b) == "the model didn't respond within "@ + a + "s (timed out, after "@ + b + " attempt(s)) -- ambitious requests to a reasoning model can need longer; raise \
    NIRDOSHA_LLM_PROVIDER_TIMEOUT_SECS"@,
        not_sent(a, b, c) == "request to "@ + a + " failed after "@ + b + " attempt(s): "@ + c,
        rate_limited(a, b) == "rate limited (429) by "@ + a + " -- the provider is throttling this key/account, not rejecting the request; back off \
    and retry later, or check its rate-limit dashboard. Response: "@ + b,
        unreadable_reply(a, b) == "parsing response JSON: "@ + a + " (body: "@ + b + ")"@,
        no_tools(a) == a + " did not return a `tools` array -- the tool surface is unavailable"@,
        nameless_tool(a, b) == "a tool entry from "@ + a + " has no string `name`: "@ + b,
{
}

} // verus!

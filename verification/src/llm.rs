//! The messages that go to an upstream endpoint and the shapes of what
//! comes back.

use crate::error::{AppError, ErrorKind};
use crate::json::{
    encoded_json, field, lemma_array_view, parse_json, parsed_json, render_json, rendered_json,
    text_field, views, Json, JsonValue,
};
use crate::selector::{node_option_view, text_option_view};
use crate::temperature::{decimal_millis, parse_millis, Temperature};
use crate::text::{chars_of, contains, contains_chars, decimal, lower, lower_chars, push_chars, push_decimal, push_str, string_of};
use vstd::prelude::*;

verus! {

/// Who speaks in a message.
#[derive(Clone, Copy, Debug, PartialEq, Eq, Structural)]
pub enum Role {
    System,
    User,
    Assistant,
}

impl Role {
    /// The name of the role on the wire.
    pub fn as_str(&self) -> (s: &'static str)
        ensures
            s@ == role_name(*self),
    {
        match self {
            Role::System => "system",
            Role::User => "user",
            Role::Assistant => "assistant",
        }
    }

    /// The role that a name on the wire stands for.
    pub fn from_name(name: &str) -> (r: Option<Role>)
        ensures
            r == role_of_name(name@),
    {
        if str::eq(name, "system") {
            Some(Role::System)
        } else if str::eq(name, "user") {
            Some(Role::User)
        } else if str::eq(name, "assistant") {
            Some(Role::Assistant)
        } else {
            None
        }
    }
}

pub open spec fn role_name(r: Role) -> Seq<char> {
    match r {
        Role::System => "system"@,
        Role::User => "user"@,
        Role::Assistant => "assistant"@,
    }
}

pub open spec fn role_of_name(name: Seq<char>) -> Option<Role> {
    if name == "system"@ {
        Some(Role::System)
    } else if name == "user"@ {
        Some(Role::User)
    } else if name == "assistant"@ {
        Some(Role::Assistant)
    } else {
        None
    }
}

/// The name of a role stands for that role.
pub proof fn law_role_names_read_back(r: Role)
    ensures
        role_of_name(role_name(r)) == Some(r),
{
    reveal_strlit("system");
    reveal_strlit("user");
    reveal_strlit("assistant");
    assert("system"@.len() == 6 && "user"@.len() == 4 && "assistant"@.len() == 9);
}

/// One message of a conversation.
#[derive(Debug)]
pub struct Message {
    pub role: Role,
    pub content: String,
}

pub struct MessageView {
    pub role: Role,
    pub content: Seq<char>,
}

impl View for Message {
    type V = MessageView;

    open spec fn view(&self) -> MessageView {
        MessageView { role: self.role, content: self.content@ }
    }
}

pub open spec fn message_views(ms: Seq<Message>) -> Seq<MessageView> {
    Seq::new(ms.len(), |i: int| ms[i]@)
}

/// A request for one completion of a prompt.
#[derive(Debug)]
pub struct GenerateRequest {
    pub model: String,
    pub prompt: String,
    pub stream: bool,
    pub temperature: Option<Temperature>,
}

#[derive(Debug)]
pub struct GenerateResponse {
    pub response: String,
}

/// A request for the next message of a conversation.
#[derive(Debug)]
pub struct ChatRequest {
    pub model: String,
    pub messages: Vec<Message>,
    pub stream: bool,
    pub temperature: Option<Temperature>,
}

#[derive(Debug)]
pub struct ChatResponse {
    pub message: Message,
}

/// One message of a streamed reply.
#[derive(Debug)]
pub struct ChatStreamResponse {
    pub message: Message,
}

/// What one line of a streamed reply holds.
#[derive(Debug)]
pub enum ChatStreamChunk {
    Data(ChatStreamResponse),
    Done,
    Empty,
}


/// A text that is there and not empty.
pub open spec fn nonempty(t: Option<Seq<char>>) -> Option<Seq<char>> {
    match t {
        Some(s) => if s.len() > 0 {
            Some(s)
        } else {
            None
        },
        None => None,
    }
}

/// The first of the `choices` of a reply.
pub open spec fn first_choice(j: JsonValue) -> Option<JsonValue> {
    match field(j, "choices"@) {
        Some(JsonValue::Array(items)) => if items.len() > 0 {
            Some(items[0])
        } else {
            None
        },
        _ => None,
    }
}

/// The text of one part of a content list: its member `text`, or the part
/// itself where it is a string.
pub open spec fn part_text(p: JsonValue) -> Seq<char> {
    match text_field(p, "text"@) {
        Some(t) => t,
        None => match p {
            JsonValue::Text(t) => t,
            _ => Seq::empty(),
        },
    }
}

/// The texts of the parts from `i` on, one after the other.
pub open spec fn parts_text(items: Seq<JsonValue>, i: nat) -> Seq<char>
    decreases items.len() - i,
{
    if i >= items.len() {
        Seq::empty()
    } else {
        part_text(items[i as int]) + parts_text(items, i + 1)
    }
}

/// The content of a message: a string, or the texts of a list of parts.
pub open spec fn content_text(m: JsonValue) -> Option<Seq<char>> {
    match field(m, "content"@) {
        Some(JsonValue::Text(t)) => nonempty(Some(t)),
        Some(JsonValue::Array(parts)) => nonempty(Some(parts_text(parts, 0))),
        _ => None,
    }
}

/// The text that a message carries: its content, else its
/// `reasoning_content`, else its `reasoning`.
pub open spec fn message_text(m: JsonValue) -> Option<Seq<char>> {
    match content_text(m) {
        Some(t) => Some(t),
        None => match nonempty(text_field(m, "reasoning_content"@)) {
            Some(t) => Some(t),
            None => nonempty(text_field(m, "reasoning"@)),
        },
    }
}

pub open spec fn member_of(j: Option<JsonValue>, key: Seq<char>) -> Option<JsonValue> {
    match j {
        Some(x) => field(x, key),
        None => None,
    }
}

pub open spec fn text_member_of(j: Option<JsonValue>, key: Seq<char>) -> Option<Seq<char>> {
    match j {
        Some(x) => nonempty(text_field(x, key)),
        None => None,
    }
}

/// The text of a whole reply: what the message of the first choice
/// carries; else the `text` of the first choice; else the `output_text` of
/// the reply; else, where the first choice has a message that is an object,
/// that message printed as JSON.
pub open spec fn extracted_text(j: JsonValue) -> Option<Seq<char>> {
    let message = member_of(first_choice(j), "message"@);
    let from_message = match message {
        Some(m) => message_text(m),
        None => None,
    };
    match from_message {
        Some(t) => Some(t),
        None => match text_member_of(first_choice(j), "text"@) {
            Some(t) => Some(t),
            None => match nonempty(text_field(j, "output_text"@)) {
                Some(t) => Some(t),
                None => match message {
                    Some(JsonValue::Object(members)) => Some(
                        rendered_json(encoded_json(JsonValue::Object(members))),
                    ),
                    _ => None,
                },
            },
        },
    }
}

/// The text of one step of a streamed reply: what the `delta` of the first
/// choice carries, else what its `message` carries, else its `text`.
pub open spec fn delta_text(j: JsonValue) -> Option<Seq<char>> {
    let from_delta = match member_of(first_choice(j), "delta"@) {
        Some(d) => message_text(d),
        None => None,
    };
    match from_delta {
        Some(t) => Some(t),
        None => match member_of(first_choice(j), "message"@) {
            Some(m) => match message_text(m) {
                Some(t) => Some(t),
                None => text_member_of(first_choice(j), "text"@),
            },
            None => text_member_of(first_choice(j), "text"@),
        },
    }
}

/// Whether a step of a streamed reply ends the stream: the first choice has
/// a `finish_reason` that is a string and not empty.
pub open spec fn finishes(j: JsonValue) -> bool {
    text_member_of(first_choice(j), "finish_reason"@) is Some
}

fn nonempty_copy(t: Option<&String>) -> (r: Option<String>)
    ensures
        text_option_view(r) == nonempty(
            match t {
                Some(s) => Some(s@),
                None => None,
            },
        ),
{
    match t {
        Some(s) => if s.as_str().is_empty() {
            None
        } else {
            Some(s.clone())
        },
        None => None,
    }
}

fn choice_of(j: &Json) -> (r: Option<&Json>)
    ensures
        node_option_view(r) == first_choice(j@),
{
    match j.get("choices") {
        Some(Json::Array(items)) => {
            proof {
                lemma_array_view(*items);
            }
            if items.len() > 0 {
                assert(views(items@)[0] == items@[0]@);
                Some(&items[0])
            } else {
                None
            }
        },
        _ => None,
    }
}

fn part_text_of(p: &Json, out: &mut Vec<char>)
    ensures
        final(out)@ == old(out)@ + part_text(p@),
{
    match p.get_text("text") {
        Some(t) => push_str(out, t.as_str()),
        None => match p {
            Json::Text(t) => push_str(out, t.as_str()),
            _ => {
                assert(out@ =~= old(out)@ + Seq::<char>::empty());
            },
        },
    }
}

fn content_of(m: &Json) -> (r: Option<String>)
    ensures
        text_option_view(r) == content_text(m@),
{
    match m.get("content") {
        Some(Json::Text(t)) => nonempty_copy(Some(t)),
        Some(Json::Array(parts)) => {
            proof {
                lemma_array_view(*parts);
            }
            let ghost pv = views(parts@);
            let mut out: Vec<char> = Vec::new();
            let mut i: usize = 0;
            assert(out@ + parts_text(pv, 0) =~= parts_text(pv, 0));
            while i < parts.len()
                invariant
                    i <= parts.len(),
                    pv == views(parts@),
                    out@ + parts_text(pv, i as nat) == parts_text(pv, 0),
                decreases parts.len() - i,
            {
                assert(pv[i as int] == parts@[i as int]@);
                let ghost before = out@;
                part_text_of(&parts[i], &mut out);
                assert(out@ + parts_text(pv, (i + 1) as nat) =~= before + parts_text(pv, i as nat));
                i = i + 1;
            }
            assert(out@ + parts_text(pv, parts@.len() as nat) =~= out@);
            if out.len() > 0 {
                Some(string_of(&out))
            } else {
                None
            }
        },
        _ => None,
    }
}

fn message_text_of(m: &Json) -> (r: Option<String>)
    ensures
        text_option_view(r) == message_text(m@),
{
    if let Some(t) = content_of(m) {
        return Some(t);
    }
    if let Some(t) = nonempty_copy(m.get_text("reasoning_content")) {
        return Some(t);
    }
    nonempty_copy(m.get_text("reasoning"))
}

fn text_member(j: Option<&Json>, key: &str) -> (r: Option<String>)
    ensures
        text_option_view(r) == text_member_of(node_option_view(j), key@),
{
    match j {
        Some(x) => nonempty_copy(x.get_text(key)),
        None => None,
    }
}

/// Takes the text out of a whole reply.
pub fn extract_text(j: &Json) -> (r: Option<String>)
    ensures
        text_option_view(r) == extracted_text(j@),
{
    let choice = choice_of(j);
    let message = match choice {
        Some(c) => c.get("message"),
        None => None,
    };
    if let Some(m) = message {
        if let Some(t) = message_text_of(m) {
            return Some(t);
        }
    }
    if let Some(t) = text_member(choice, "text") {
        return Some(t);
    }
    if let Some(t) = nonempty_copy(j.get_text("output_text")) {
        return Some(t);
    }
    match message {
        Some(m) => match m {
            Json::Object(_) => Some(render_json(m)),
            _ => None,
        },
        None => None,
    }
}

/// Takes the text out of one step of a streamed reply.
pub fn extract_delta(j: &Json) -> (r: Option<String>)
    ensures
        text_option_view(r) == delta_text(j@),
{
    let choice = choice_of(j);
    let delta = match choice {
        Some(c) => c.get("delta"),
        None => None,
    };
    if let Some(d) = delta {
        if let Some(t) = message_text_of(d) {
            return Some(t);
        }
    }
    let message = match choice {
        Some(c) => c.get("message"),
        None => None,
    };
    if let Some(m) = message {
        if let Some(t) = message_text_of(m) {
            return Some(t);
        }
    }
    text_member(choice, "text")
}

/// Whether one step of a streamed reply ends the stream.
pub fn is_finished(j: &Json) -> (r: bool)
    ensures
        r == finishes(j@),
{
    text_member(choice_of(j), "finish_reason").is_some()
}

/// Whether a text speaks of a failure: it holds, in any case of the
/// letters, one of `error`, `fail`, `invalid`, `denied`, `unauthorized`.
pub open spec fn speaks_of_failure(t: Seq<char>) -> bool {
    let l = lower(t);
    contains(l, "error"@) || contains(l, "fail"@) || contains(l, "invalid"@) || contains(
        l,
        "denied"@,
    ) || contains(l, "unauthorized"@)
}

fn has_failure_word(t: &str) -> (r: bool)
    ensures
        r == speaks_of_failure(t@),
{
    let l = lower_chars(&chars_of(t));
    contains_chars(&l, &chars_of("error")) || contains_chars(&l, &chars_of("fail"))
        || contains_chars(&l, &chars_of("invalid")) || contains_chars(&l, &chars_of("denied"))
        || contains_chars(&l, &chars_of("unauthorized"))
}

/// Whether a `status` or `code` signals a failure: a number other than 0
/// and 200, or a string that speaks of a failure.
pub open spec fn signals_failure(v: Option<JsonValue>) -> bool {
    match v {
        Some(JsonValue::Number(t)) => match decimal_millis(t) {
            Some(m) => m != 0 && m != 200_000,
            None => false,
        },
        Some(JsonValue::Text(t)) => speaks_of_failure(t),
        _ => false,
    }
}

fn is_failure_signal(v: Option<&Json>) -> (r: bool)
    ensures
        r == signals_failure(node_option_view(v)),
{
    match v {
        Some(Json::Number(t)) => match parse_millis(t.as_str()) {
            Some(m) => m != 0 && m != 200_000,
            None => false,
        },
        Some(Json::Text(t)) => has_failure_word(t.as_str()),
        _ => false,
    }
}

/// The text of a scalar: a string as it is, a number as it is written.
pub open spec fn scalar_text(v: Option<JsonValue>) -> Option<Seq<char>> {
    match v {
        Some(JsonValue::Text(t)) => nonempty(Some(t)),
        Some(JsonValue::Number(t)) => nonempty(Some(t)),
        _ => None,
    }
}

fn scalar_of(v: Option<&Json>) -> (r: Option<String>)
    ensures
        text_option_view(r) == scalar_text(node_option_view(v)),
{
    match v {
        Some(Json::Text(t)) => nonempty_copy(Some(t)),
        Some(Json::Number(t)) => nonempty_copy(Some(t)),
        _ => None,
    }
}

/// What an `error` member says: itself where it is a string; else its
/// `message`, else its `code`, else its `status`, else `provider error`.
pub open spec fn error_member_text(e: JsonValue) -> Option<Seq<char>> {
    match e {
        JsonValue::Text(t) => nonempty(Some(t)),
        JsonValue::Object(_) => match scalar_text(field(e, "message"@)) {
            Some(t) => Some(t),
            None => match scalar_text(field(e, "code"@)) {
                Some(t) => Some(t),
                None => match scalar_text(field(e, "status"@)) {
                    Some(t) => Some(t),
                    None => Some("provider error"@),
                },
            },
        },
        _ => None,
    }
}

/// The error that a reply without text reports, if it reports one: what its
/// `error` member says; else, where its `status` or `code` signals a
/// failure, where its `success` is false, or where its `message` speaks of
/// a failure, its `message`, and `provider error` where it has none.
pub open spec fn provider_error(j: JsonValue) -> Option<Seq<char>> {
    let from_error = match field(j, "error"@) {
        Some(e) => error_member_text(e),
        None => None,
    };
    let message = nonempty(text_field(j, "message"@));
    match from_error {
        Some(t) => Some(t),
        None => if signals_failure(field(j, "status"@)) || signals_failure(field(j, "code"@))
            || field(j, "success"@) == Some(JsonValue::Bool(false)) {
            match message {
                Some(m) => Some(m),
                None => Some("provider error"@),
            }
        } else {
            match message {
                Some(m) => if speaks_of_failure(m) {
                    Some(m)
                } else {
                    None
                },
                None => None,
            }
        },
    }
}

fn error_member_of(e: &Json) -> (r: Option<String>)
    ensures
        text_option_view(r) == error_member_text(e@),
{
    match e {
        Json::Text(t) => nonempty_copy(Some(t)),
        Json::Object(_) => {
            if let Some(t) = scalar_of(e.get("message")) {
                return Some(t);
            }
            if let Some(t) = scalar_of(e.get("code")) {
                return Some(t);
            }
            if let Some(t) = scalar_of(e.get("status")) {
                return Some(t);
            }
            Some("provider error".to_owned())
        },
        _ => None,
    }
}

/// Looks for the error that a reply without text reports.
pub fn detect_provider_error(j: &Json) -> (r: Option<String>)
    ensures
        text_option_view(r) == provider_error(j@),
{
    if let Some(e) = j.get("error") {
        if let Some(t) = error_member_of(e) {
            return Some(t);
        }
    }
    let message = nonempty_copy(j.get_text("message"));
    let success_false = match j.get("success") {
        Some(Json::Bool(b)) => !*b,
        _ => false,
    };
    if is_failure_signal(j.get("status")) || is_failure_signal(j.get("code")) || success_false {
        return match message {
            Some(m) => Some(m),
            None => Some("provider error".to_owned()),
        };
    }
    match message {
        Some(m) => if has_failure_word(m.as_str()) {
            Some(m)
        } else {
            None
        },
        None => None,
    }
}

/// The first `n` characters of a text.
pub open spec fn head_of(s: Seq<char>, n: nat) -> Seq<char> {
    if s.len() <= n {
        s
    } else {
        s.subrange(0, n as int)
    }
}

/// How much of a body is carried in a message.
pub const BODY_HEAD: usize = 200;

pub open spec fn http_failure_text(status: u16, body: Seq<char>) -> Seq<char> {
    "upstream returned status "@ + decimal(status as nat) + ": "@ + head_of(body, BODY_HEAD as nat)
}

pub open spec fn not_json_text(body: Seq<char>) -> Seq<char> {
    "upstream reply is not JSON: "@ + head_of(body, BODY_HEAD as nat)
}

pub open spec fn no_text_text(body: Seq<char>) -> Seq<char> {
    "upstream reply holds no text: "@ + body
}

/// What a whole reply gives: an HTTP error for a status outside 200 to 299;
/// else the text of the body; else the error that the body reports; else an
/// error that carries the body.
pub open spec fn interpreted(status: u16, body: Seq<char>, parsed: Option<JsonValue>) -> Result<
    Seq<char>,
    (ErrorKind, Seq<char>),
> {
    if status < 200 || status >= 300 {
        Err((ErrorKind::HttpError, http_failure_text(status, body)))
    } else {
        match parsed {
            None => Err((ErrorKind::JsonParse, not_json_text(body))),
            Some(j) => match extracted_text(j) {
                Some(t) => Ok(t),
                None => match provider_error(j) {
                    Some(e) => Err((ErrorKind::LLMError, e)),
                    None => Err((ErrorKind::LLMError, no_text_text(body))),
                },
            },
        }
    }
}

pub open spec fn reply_view(r: Result<String, AppError>) -> Result<Seq<char>, (ErrorKind, Seq<char>)> {
    match r {
        Ok(t) => Ok(t@),
        Err(e) => Err((e@.kind, e@.detail)),
    }
}

fn push_head(out: &mut Vec<char>, body: &str)
    ensures
        final(out)@ == old(out)@ + head_of(body@, BODY_HEAD as nat),
{
    let v = chars_of(body);
    if v.len() <= BODY_HEAD {
        push_chars(out, &v);
    } else {
        let ghost before = out@;
        let mut i: usize = 0;
        while i < BODY_HEAD
            invariant
                i <= BODY_HEAD < v.len(),
                out@ == before + v@.subrange(0, i as int),
            decreases BODY_HEAD - i,
        {
            out.push(v[i]);
            assert(out@ =~= before + v@.subrange(0, i + 1));
            i = i + 1;
        }
    }
}

/// Reads a whole reply whose body has been read as JSON already.
pub fn interpret_reply(status: u16, body: &str, parsed: Option<&Json>) -> (r: Result<
    String,
    AppError,
>)
    ensures
        reply_view(r) == interpreted(status, body@, node_option_view(parsed)),
{
    if status < 200 || status >= 300 {
        let mut out: Vec<char> = Vec::new();
        push_str(&mut out, "upstream returned status ");
        push_decimal(&mut out, status as u64);
        push_str(&mut out, ": ");
        push_head(&mut out, body);
        assert(out@ =~= http_failure_text(status, body@));
        return Err(AppError::HttpError(string_of(&out)));
    }
    match parsed {
        None => {
            let mut out: Vec<char> = Vec::new();
            push_str(&mut out, "upstream reply is not JSON: ");
            push_head(&mut out, body);
            Err(AppError::JsonParse(string_of(&out)))
        },
        Some(j) => {
            if let Some(t) = extract_text(j) {
                return Ok(t);
            }
            if let Some(e) = detect_provider_error(j) {
                return Err(AppError::LLMError(e));
            }
            let mut out: Vec<char> = Vec::new();
            push_str(&mut out, "upstream reply holds no text: ");
            push_str(&mut out, body);
            Err(AppError::LLMError(string_of(&out)))
        },
    }
}

/// Reads a whole reply: its status and its body.
pub fn interpret_response(status: u16, body: &str) -> (r: Result<String, AppError>)
    ensures
        reply_view(r) == interpreted(status, body@, parsed_json(body@)),
{
    let parsed = parse_json(body);
    match &parsed {
        Some(j) => interpret_reply(status, body, Some(j)),
        None => interpret_reply(status, body, None),
    }
}

/// A status outside 200 to 299 is an HTTP error whatever the body holds,
/// and a reply with text is that text whatever else it holds.
pub proof fn law_reply_precedence(status: u16, body: Seq<char>, j: JsonValue)
    ensures
        status < 200 || status >= 300 ==> interpreted(status, body, Some(j)) is Err && interpreted(
            status,
            body,
            Some(j),
        )->Err_0.0 == ErrorKind::HttpError,
        200 <= status < 300 && extracted_text(j) is Some ==> interpreted(status, body, Some(j))
            == Ok::<Seq<char>, (ErrorKind, Seq<char>)>(extracted_text(j)->0),
        200 <= status < 300 && extracted_text(j) is None ==> interpreted(status, body, Some(j))
            is Err,
{
}

} // verus!

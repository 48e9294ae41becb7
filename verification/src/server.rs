//! What the HTTP surface decides: the prompt that a request carries, the
//! events of a streamed reply, and the bodies of errors and listings.

use crate::config::{model_views, ModelConfig, ModelView};
use crate::error::{code_of, prefix_of, AppError, ErrorKind};
use crate::json::{
    field, lemma_array_view, lemma_object_view, member_views, text_field, views, Json, JsonValue,
};
use crate::llm::{
    message_views, nonempty, role_of_name, Message, MessageView, Role,
};
use crate::plan::lemma_field_decreases;
use crate::selector::{node_option_view, text_option_view};
use crate::temperature::{millis_text, Temperature};
use crate::text::{
    chars_of, decimal, join_strings, joined, push_decimal, push_decimal_wide, push_str,
    string_of, string_of_range, string_views,
};
use crate::workflow::{
    PhaseDetails, PhaseView, SelectorDetails, SelectorView, WorkerDetails,
    WorkflowExecutionDetails,
};
use vstd::prelude::*;

verus! {

/// The longest text that one event carries.
pub const CHUNK_LIMIT: usize = 120;

/// The index after the last line feed in `s[from..to]`; `from` where there
/// is none.
pub open spec fn after_last_newline(s: Seq<char>, from: int, to: int) -> int
    decreases to - from,
{
    if to <= from || to > s.len() || from < 0 {
        from
    } else if s[to - 1] == '\n' {
        to
    } else {
        after_last_newline(s, from, to - 1)
    }
}

/// Where the piece that begins at `i` ends: at the end of the text where
/// what is left fits; else after the last line feed within the limit; else
/// at the limit.
pub open spec fn cut_point(s: Seq<char>, i: int, max: int) -> int {
    if s.len() - i <= max {
        s.len() as int
    } else if after_last_newline(s, i, i + max) > i {
        after_last_newline(s, i, i + max)
    } else {
        i + max
    }
}

pub proof fn lemma_after_last_newline(s: Seq<char>, from: int, to: int)
    requires
        0 <= from <= to <= s.len(),
    ensures
        from <= after_last_newline(s, from, to) <= to,
    decreases to - from,
{
    if to > from && s[to - 1] != '\n' {
        lemma_after_last_newline(s, from, to - 1);
    }
}

pub proof fn lemma_cut_point(s: Seq<char>, i: int, max: int)
    requires
        0 <= i < s.len(),
        max >= 1,
    ensures
        i < cut_point(s, i, max) <= s.len(),
        cut_point(s, i, max) - i <= max,
{
    if s.len() - i > max {
        lemma_after_last_newline(s, i, i + max);
    }
}

/// The pieces of a text from `i` on, none longer than `max`.
pub open spec fn pieces_from(s: Seq<char>, i: int, max: int) -> Seq<Seq<char>>
    decreases s.len() - i,
{
    if i < 0 || i >= s.len() || max < 1 {
        Seq::empty()
    } else {
        proof {
            lemma_cut_point(s, i, max);
        }
        seq![s.subrange(i, cut_point(s, i, max))] + pieces_from(s, cut_point(s, i, max), max)
    }
}

/// The pieces put together again.
pub open spec fn concat_all(pieces: Seq<Seq<char>>, i: nat) -> Seq<char>
    decreases pieces.len() - i,
{
    if i >= pieces.len() {
        Seq::empty()
    } else {
        pieces[i as int] + concat_all(pieces, i + 1)
    }
}

pub open spec fn piece_views(pieces: Seq<String>) -> Seq<Seq<char>> {
    Seq::new(pieces.len(), |i: int| pieces[i]@)
}

/// Cuts a text into pieces of at most `max` characters, each ending after
/// a line feed where one stands within the limit.
pub fn rechunk(text: &str, max: usize) -> (r: Vec<String>)
    requires
        max >= 1,
    ensures
        piece_views(r@) == pieces_from(text@, 0, max as int),
{
    let v = chars_of(text);
    let mut r: Vec<String> = Vec::new();
    let mut i: usize = 0;
    assert(piece_views(r@) + pieces_from(v@, 0, max as int) =~= pieces_from(v@, 0, max as int));
    while i < v.len()
        invariant
            i <= v.len(),
            max >= 1,
            v@ == text@,
            piece_views(r@) + pieces_from(v@, i as int, max as int) == pieces_from(
                v@,
                0,
                max as int,
            ),
        decreases v.len() - i,
    {
        proof {
            lemma_cut_point(v@, i as int, max as int);
        }
        let end: usize = if v.len() - i <= max {
            v.len()
        } else {
            let limit: usize = i + max;
            let mut e: usize = limit;
            while e > i && v[e - 1] != '\n'
                invariant
                    i <= e <= limit <= v.len(),
                    after_last_newline(v@, i as int, limit as int) == after_last_newline(
                        v@,
                        i as int,
                        e as int,
                    ),
                decreases e,
            {
                e = e - 1;
            }
            if e > i {
                e
            } else {
                limit
            }
        };
        let ghost before = piece_views(r@);
        r.push(string_of_range(&v, i, end));
        assert(piece_views(r@) =~= before + seq![v@.subrange(i as int, end as int)]);
        assert(piece_views(r@) + pieces_from(v@, end as int, max as int) =~= before + pieces_from(
            v@,
            i as int,
            max as int,
        ));
        i = end;
    }
    assert(piece_views(r@) + pieces_from(v@, v@.len() as int, max as int) =~= piece_views(r@));
    r
}

/// The pieces of a text, put together again, are the text, and no piece is
/// empty or longer than the limit.
pub proof fn law_pieces_rebuild_the_text(s: Seq<char>, i: int, max: int)
    requires
        0 <= i <= s.len(),
        max >= 1,
    ensures
        concat_all(pieces_from(s, i, max), 0) == s.subrange(i, s.len() as int),
        forall|k: int|
            0 <= k < pieces_from(s, i, max).len() ==> 1 <= (#[trigger] pieces_from(
                s,
                i,
                max,
            )[k]).len() <= max,
    decreases s.len() - i,
{
    if i >= s.len() {
        assert(s.subrange(i, s.len() as int) =~= Seq::<char>::empty());
    } else {
        lemma_cut_point(s, i, max);
        let c = cut_point(s, i, max);
        let first = s.subrange(i, c);
        let rest = pieces_from(s, c, max);
        let all = pieces_from(s, i, max);
        law_pieces_rebuild_the_text(s, c, max);
        assert(all =~= seq![first] + rest);
        lemma_concat_cons(first, rest);
        assert(first + s.subrange(c, s.len() as int) =~= s.subrange(i, s.len() as int));
        assert forall|k: int| 0 <= k < all.len() implies 1 <= (#[trigger] all[k]).len() <= max by {
            if k > 0 {
                assert(all[k] == rest[k - 1]);
            }
        }
    }
}

pub proof fn lemma_concat_shift(first: Seq<char>, rest: Seq<Seq<char>>, i: nat)
    requires
        i <= rest.len(),
    ensures
        concat_all(seq![first] + rest, i + 1) == concat_all(rest, i),
    decreases rest.len() - i,
{
    let all = seq![first] + rest;
    if i < rest.len() {
        assert(all[(i + 1) as int] == rest[i as int]);
        lemma_concat_shift(first, rest, i + 1);
    }
}

pub proof fn lemma_concat_cons(first: Seq<char>, rest: Seq<Seq<char>>)
    ensures
        concat_all(seq![first] + rest, 0) == first + concat_all(rest, 0),
{
    let all = seq![first] + rest;
    assert(all[0] == first);
    lemma_concat_shift(first, rest, 0);
}

/// One event of the stream that answers a chat completion.
#[derive(Debug)]
pub enum ChunkEvent {
    /// The opening event: a delta that names the assistant.
    Role,
    /// A delta with a piece of the answer.
    Content(String),
    /// The closing event: an empty delta and the reason `stop`.
    Stop,
    /// The closing event of a stream that failed, with the message.
    Failed(String),
    /// The line `[DONE]`.
    Done,
}

pub enum EventShape {
    Role,
    Content(Seq<char>),
    Stop,
    Failed(Seq<char>),
    Done,
}

impl View for ChunkEvent {
    type V = EventShape;

    open spec fn view(&self) -> EventShape {
        match self {
            ChunkEvent::Role => EventShape::Role,
            ChunkEvent::Content(t) => EventShape::Content(t@),
            ChunkEvent::Stop => EventShape::Stop,
            ChunkEvent::Failed(m) => EventShape::Failed(m@),
            ChunkEvent::Done => EventShape::Done,
        }
    }
}

pub open spec fn event_views(es: Seq<ChunkEvent>) -> Seq<EventShape> {
    Seq::new(es.len(), |i: int| es[i]@)
}

/// One content event for each piece from `i` on.
pub open spec fn content_events(pieces: Seq<Seq<char>>, i: nat) -> Seq<EventShape>
    decreases pieces.len() - i,
{
    if i >= pieces.len() {
        Seq::empty()
    } else {
        seq![EventShape::Content(pieces[i as int])] + content_events(pieces, i + 1)
    }
}

/// The events of a whole answer: the opening event, the pieces of the
/// text, the closing event, and the line `[DONE]`.
pub open spec fn answer_events(text: Seq<char>) -> Seq<EventShape> {
    seq![EventShape::Role] + content_events(pieces_from(text, 0, CHUNK_LIMIT as int), 0) + seq![
        EventShape::Stop,
        EventShape::Done,
    ]
}

/// The events that carry one fragment of the answer.
pub fn delta_events(fragment: &str) -> (r: Vec<ChunkEvent>)
    ensures
        event_views(r@) == content_events(pieces_from(fragment@, 0, CHUNK_LIMIT as int), 0),
{
    let pieces = rechunk(fragment, CHUNK_LIMIT);
    let ghost pv = piece_views(pieces@);
    let mut r: Vec<ChunkEvent> = Vec::new();
    let mut i: usize = 0;
    assert(event_views(r@) + content_events(pv, 0) =~= content_events(pv, 0));
    while i < pieces.len()
        invariant
            i <= pieces.len(),
            pv == piece_views(pieces@),
            event_views(r@) + content_events(pv, i as nat) == content_events(pv, 0),
        decreases pieces.len() - i,
    {
        let ghost before = event_views(r@);
        assert(pv[i as int] == pieces@[i as int]@);
        r.push(ChunkEvent::Content(pieces[i].clone()));
        assert(event_views(r@) =~= before + seq![EventShape::Content(pv[i as int])]);
        assert(event_views(r@) + content_events(pv, (i + 1) as nat) =~= before + content_events(
            pv,
            i as nat,
        ));
        i = i + 1;
    }
    assert(event_views(r@) + content_events(pv, pieces@.len() as nat) =~= event_views(r@));
    r
}

/// The events of a whole answer.
pub fn completion_events(text: &str) -> (r: Vec<ChunkEvent>)
    ensures
        event_views(r@) == answer_events(text@),
{
    let pieces = rechunk(text, CHUNK_LIMIT);
    let ghost pv = piece_views(pieces@);
    let mut r: Vec<ChunkEvent> = Vec::new();
    r.push(ChunkEvent::Role);
    let ghost head = event_views(r@);
    assert(head =~= seq![EventShape::Role]);
    let mut i: usize = 0;
    while i < pieces.len()
        invariant
            i <= pieces.len(),
            pv == piece_views(pieces@),
            event_views(r@) + content_events(pv, i as nat) == head + content_events(pv, 0),
        decreases pieces.len() - i,
    {
        let ghost before = event_views(r@);
        assert(pv[i as int] == pieces@[i as int]@);
        r.push(ChunkEvent::Content(pieces[i].clone()));
        assert(event_views(r@) =~= before + seq![EventShape::Content(pv[i as int])]);
        assert(event_views(r@) + content_events(pv, (i + 1) as nat) =~= before + content_events(
            pv,
            i as nat,
        ));
        i = i + 1;
    }
    assert(event_views(r@) + content_events(pv, pieces@.len() as nat) =~= event_views(r@));
    let ghost body = event_views(r@);
    r.push(ChunkEvent::Stop);
    r.push(ChunkEvent::Done);
    assert(event_views(r@) =~= body + seq![EventShape::Stop, EventShape::Done]);
    r
}

/// The text that the content events from `i` on carry, put together.
pub open spec fn carried_text(events: Seq<EventShape>, i: nat) -> Seq<char>
    decreases events.len() - i,
{
    if i >= events.len() {
        Seq::empty()
    } else {
        match events[i as int] {
            EventShape::Content(t) => t + carried_text(events, i + 1),
            _ => carried_text(events, i + 1),
        }
    }
}

proof fn lemma_carried_content(pieces: Seq<Seq<char>>, i: nat)
    ensures
        content_events(pieces, i).len() == if i >= pieces.len() {
            0
        } else {
            pieces.len() - i
        },
        forall|k: int|
            0 <= k < content_events(pieces, i).len() ==> content_events(pieces, i)[k]
                == EventShape::Content(pieces[i + k]),
    decreases pieces.len() - i,
{
    if i < pieces.len() {
        lemma_carried_content(pieces, i + 1);
        let rest = content_events(pieces, i + 1);
        let all = content_events(pieces, i);
        assert(all =~= seq![EventShape::Content(pieces[i as int])] + rest);
        assert forall|k: int| 0 <= k < all.len() implies all[k] == EventShape::Content(
            pieces[i + k],
        ) by {
            if k > 0 {
                assert(all[k] == rest[k - 1]);
            }
        }
    }
}

proof fn lemma_carried_matches(events: Seq<EventShape>, pieces: Seq<Seq<char>>, i: nat)
    requires
        events.len() == pieces.len() + 3,
        events[0] == EventShape::Role,
        events[events.len() - 2] == EventShape::Stop,
        events[events.len() - 1] == EventShape::Done,
        forall|k: int| 0 <= k < pieces.len() ==> events[k + 1] == EventShape::Content(pieces[k]),
        i <= pieces.len(),
    ensures
        carried_text(events, i + 1) == concat_all(pieces, i),
    decreases pieces.len() - i,
{
    if i < pieces.len() {
        lemma_carried_matches(events, pieces, i + 1);
    } else {
        assert(carried_text(events, i + 2) == carried_text(events, i + 3));
        assert(carried_text(events, i + 3) =~= Seq::<char>::empty());
    }
}

/// The stream that answers a chat completion opens with the event that
/// names the assistant, closes with the stop event and the line `[DONE]`,
/// and the text of its content events, put together, is the answer.
pub proof fn law_stream_carries_the_answer(text: Seq<char>)
    ensures
        answer_events(text).len() >= 3,
        answer_events(text)[0] == EventShape::Role,
        answer_events(text)[answer_events(text).len() - 2] == EventShape::Stop,
        answer_events(text)[answer_events(text).len() - 1] == EventShape::Done,
        carried_text(answer_events(text), 0) == text,
{
    let pieces = pieces_from(text, 0, CHUNK_LIMIT as int);
    let middle = content_events(pieces, 0);
    let events = answer_events(text);
    lemma_carried_content(pieces, 0);
    assert(events =~= seq![EventShape::Role] + middle + seq![EventShape::Stop, EventShape::Done]);
    assert(events.len() == pieces.len() + 3);
    assert forall|k: int| 0 <= k < pieces.len() implies events[k + 1] == EventShape::Content(
        pieces[k],
    ) by {
        assert(events[k + 1] == middle[k]);
    }
    lemma_carried_matches(events, pieces, 0);
    law_pieces_rebuild_the_text(text, 0, CHUNK_LIMIT as int);
    assert(text.subrange(0, text.len() as int) =~= text);
    assert(carried_text(events, 0) == carried_text(events, 1));
}

/// The prompt of a conversation: the content of its last message, and the
/// empty text where it has none.
pub open spec fn last_content(ms: Seq<MessageView>) -> Seq<char> {
    if ms.len() == 0 {
        Seq::empty()
    } else {
        ms.last().content
    }
}

/// Takes the prompt out of a conversation.
pub fn prompt_of_messages(messages: &Vec<Message>) -> (s: String)
    ensures
        s@ == last_content(message_views(messages@)),
{
    if messages.len() == 0 {
        String::new()
    } else {
        assert(message_views(messages@).last() == messages@[messages@.len() - 1]@);
        messages[messages.len() - 1].content.clone()
    }
}

/// The body of an error: its message and its code.
pub open spec fn error_body_of(kind: ErrorKind, detail: Seq<char>) -> JsonValue {
    JsonValue::Object(
        seq![
            (
                "error"@,
                JsonValue::Object(
                    seq![
                        ("message"@, JsonValue::Text(prefix_of(kind) + detail)),
                        ("code"@, JsonValue::Text(code_of(kind))),
                    ],
                ),
            ),
        ],
    )
}

/// Builds the body that reports an error.
pub fn error_body(err: &AppError) -> (j: Json)
    ensures
        j@ == error_body_of(err@.kind, err@.detail),
{
    let mut inner: Vec<(String, Json)> = Vec::new();
    inner.push(("message".to_owned(), Json::Text(err.message())));
    inner.push(("code".to_owned(), Json::Text(err.error_code().to_owned())));
    proof {
        lemma_object_view(inner);
        assert(member_views(inner@) =~= seq![
            ("message"@, JsonValue::Text(prefix_of(err@.kind) + err@.detail)),
            ("code"@, JsonValue::Text(code_of(err@.kind))),
        ]);
    }
    let mut outer: Vec<(String, Json)> = Vec::new();
    outer.push(("error".to_owned(), Json::Object(inner)));
    proof {
        lemma_object_view(outer);
        assert(member_views(outer@) =~= error_body_of(err@.kind, err@.detail)->Object_0);
    }
    Json::Object(outer)
}

/// The entry of one model in the listing.
pub open spec fn model_entry(name: Seq<char>, created: u64) -> JsonValue {
    JsonValue::Object(
        seq![
            ("id"@, JsonValue::Text(name)),
            ("object"@, JsonValue::Text("model"@)),
            ("created"@, JsonValue::Number(decimal(created as nat))),
            ("owned_by"@, JsonValue::Text("chorus"@)),
        ],
    )
}

pub open spec fn model_entries(ms: Seq<ModelView>, created: u64) -> Seq<JsonValue> {
    Seq::new(ms.len(), |i: int| model_entry(ms[i].name, created))
}

/// The listing of the models: one entry for each, in their order.
pub open spec fn models_body_of(ms: Seq<ModelView>, created: u64) -> JsonValue {
    JsonValue::Object(
        seq![
            ("object"@, JsonValue::Text("list"@)),
            ("data"@, JsonValue::Array(model_entries(ms, created))),
        ],
    )
}

/// Builds the listing of the models.
pub fn models_body(models: &Vec<ModelConfig>, created: u64) -> (j: Json)
    ensures
        j@ == models_body_of(model_views(models@), created),
{
    let ghost ms = model_views(models@);
    let mut data: Vec<Json> = Vec::new();
    let mut i: usize = 0;
    while i < models.len()
        invariant
            i <= models.len(),
            ms == model_views(models@),
            data@.len() == i,
            forall|k: int| 0 <= k < i ==> (#[trigger] data@[k])@ == model_entry(ms[k].name, created),
        decreases models.len() - i,
    {
        assert(ms[i as int] == models@[i as int]@);
        let mut entry: Vec<(String, Json)> = Vec::new();
        entry.push(("id".to_owned(), Json::Text(models[i].name.clone())));
        entry.push(("object".to_owned(), Json::Text("model".to_owned())));
        let mut digits: Vec<char> = Vec::new();
        push_decimal(&mut digits, created);
        assert(digits@ =~= decimal(created as nat));
        entry.push(("created".to_owned(), Json::Number(string_of(&digits))));
        entry.push(("owned_by".to_owned(), Json::Text("chorus".to_owned())));
        proof {
            lemma_object_view(entry);
            assert(member_views(entry@) =~= model_entry(ms[i as int].name, created)->Object_0);
        }
        data.push(Json::Object(entry));
        i = i + 1;
    }
    proof {
        lemma_array_view(data);
        assert(views(data@) =~= model_entries(ms, created));
    }
    let mut outer: Vec<(String, Json)> = Vec::new();
    outer.push(("object".to_owned(), Json::Text("list".to_owned())));
    outer.push(("data".to_owned(), Json::Array(data)));
    proof {
        lemma_object_view(outer);
        assert(member_views(outer@) =~= models_body_of(ms, created)->Object_0);
    }
    Json::Object(outer)
}


/// The text of a content block: its `text`, else its `input_text`, else
/// the block itself where it is a string, else its `content`, which is a
/// string or a list of blocks whose texts follow one another.
pub open spec fn block_text(b: JsonValue) -> Seq<char>
    decreases b, 0nat,
{
    match nonempty(text_field(b, "text"@)) {
        Some(t) => t,
        None => match nonempty(text_field(b, "input_text"@)) {
            Some(t) => t,
            None => match b {
                JsonValue::Text(t) => t,
                _ => match field(b, "content"@) {
                    Some(JsonValue::Text(t)) => t,
                    Some(JsonValue::Array(parts)) => {
                        proof {
                            lemma_field_decreases(b, "content"@);
                        }
                        blocks_text(parts, 0)
                    },
                    _ => Seq::empty(),
                },
            },
        },
    }
}

pub open spec fn blocks_text(parts: Seq<JsonValue>, i: nat) -> Seq<char>
    decreases parts, parts.len() - i,
{
    if i >= parts.len() {
        Seq::empty()
    } else {
        block_text(parts[i as int]) + blocks_text(parts, i + 1)
    }
}

/// The role of an entry: the one that its `role` names, and the user where
/// it names none.
pub open spec fn entry_role(j: JsonValue) -> Role {
    match text_field(j, "role"@) {
        Some(r) => match role_of_name(r) {
            Some(role) => role,
            None => Role::User,
        },
        None => Role::User,
    }
}

/// The messages of the entries from `i` on; an entry without text gives
/// none.
pub open spec fn entries_from(items: Seq<JsonValue>, i: nat) -> Seq<MessageView>
    decreases items.len() - i,
{
    if i >= items.len() {
        Seq::empty()
    } else if block_text(items[i as int]).len() > 0 {
        seq![
            MessageView { role: entry_role(items[i as int]), content: block_text(items[i as int]) },
        ] + entries_from(items, i + 1)
    } else {
        entries_from(items, i + 1)
    }
}

pub open spec fn one_message(role: Role, t: Option<Seq<char>>) -> Seq<MessageView> {
    match nonempty(t) {
        Some(s) => seq![MessageView { role, content: s }],
        None => Seq::empty(),
    }
}

pub open spec fn entries_of(v: Option<JsonValue>) -> Seq<MessageView> {
    match v {
        Some(JsonValue::Text(t)) => one_message(Role::User, Some(t)),
        Some(JsonValue::Array(items)) => entries_from(items, 0),
        _ => Seq::empty(),
    }
}

/// The conversation of a request: its `instructions` as a message of the
/// system, then its `messages`, then its `input`, then its `prompt`.
pub open spec fn flattened(body: JsonValue) -> Seq<MessageView> {
    one_message(Role::System, text_field(body, "instructions"@)) + (match field(
        body,
        "messages"@,
    ) {
        Some(JsonValue::Array(items)) => entries_from(items, 0),
        _ => Seq::empty(),
    }) + entries_of(field(body, "input"@)) + one_message(Role::User, text_field(body, "prompt"@))
}

pub open spec fn missing_input_text() -> Seq<char> {
    "Missing required field: input, messages, or instructions"@
}

#[verifier::loop_isolation(false)]
fn block_text_into(b: &Json, out: &mut Vec<char>)
    ensures
        final(out)@ == old(out)@ + block_text(b@),
    decreases b@, 0nat,
{
    if let Some(t) = b.get_text("text") {
        if !t.as_str().is_empty() {
            push_str(out, t.as_str());
            return ;
        }
    }
    if let Some(t) = b.get_text("input_text") {
        if !t.as_str().is_empty() {
            push_str(out, t.as_str());
            return ;
        }
    }
    if let Json::Text(t) = b {
        push_str(out, t.as_str());
        return ;
    }
    match b.get("content") {
        Some(Json::Text(t)) => {
            push_str(out, t.as_str());
        },
        Some(Json::Array(parts)) => {
            proof {
                lemma_array_view(*parts);
                lemma_field_decreases(b@, "content"@);
            }
            let ghost pv = views(parts@);
            let ghost start = out@;
            let mut i: usize = 0;
            assert(out@ + blocks_text(pv, 0) =~= start + blocks_text(pv, 0));
            while i < parts.len()
                invariant
                    i <= parts.len(),
                    out@ + blocks_text(pv, i as nat) == start + blocks_text(pv, 0),
                decreases parts.len() - i,
            {
                let ghost before = out@;
                proof {
                    assert(pv[i as int] == parts@[i as int]@);
                    assert(decreases_to!(b@ => pv[i as int]));
                }
                block_text_into(&parts[i], out);
                assert(out@ + blocks_text(pv, (i + 1) as nat) =~= before + blocks_text(pv, i as nat));
                i = i + 1;
            }
            assert(out@ + blocks_text(pv, parts@.len() as nat) =~= out@);
        },
        _ => {
            assert(out@ =~= old(out)@ + Seq::<char>::empty());
        },
    }
}

fn role_of_entry(j: &Json) -> (r: Role)
    ensures
        r == entry_role(j@),
{
    match j.get_text("role") {
        Some(name) => match Role::from_name(name.as_str()) {
            Some(role) => role,
            None => Role::User,
        },
        None => Role::User,
    }
}

fn push_entries(items: &Vec<Json>, out: &mut Vec<Message>)
    ensures
        message_views(final(out)@) == message_views(old(out)@) + entries_from(views(items@), 0),
{
    let ghost iv = views(items@);
    let ghost start = message_views(out@);
    let mut i: usize = 0;
    assert(message_views(out@) + entries_from(iv, 0) =~= start + entries_from(iv, 0));
    while i < items.len()
        invariant
            i <= items.len(),
            iv == views(items@),
            message_views(out@) + entries_from(iv, i as nat) == start + entries_from(iv, 0),
        decreases items.len() - i,
    {
        assert(iv[i as int] == items@[i as int]@);
        let ghost before = message_views(out@);
        let mut text: Vec<char> = Vec::new();
        block_text_into(&items[i], &mut text);
        assert(text@ =~= block_text(iv[i as int]));
        if text.len() > 0 {
            let m = Message { role: role_of_entry(&items[i]), content: string_of(&text) };
            out.push(m);
            assert(message_views(out@) =~= before + seq![
                MessageView { role: entry_role(iv[i as int]), content: block_text(iv[i as int]) },
            ]);
        }
        assert(message_views(out@) + entries_from(iv, (i + 1) as nat) =~= before + entries_from(
            iv,
            i as nat,
        ));
        i = i + 1;
    }
    assert(message_views(out@) + entries_from(iv, items@.len() as nat) =~= message_views(out@));
}

fn push_one(role: Role, t: Option<&String>, out: &mut Vec<Message>)
    ensures
        message_views(final(out)@) == message_views(old(out)@) + one_message(
            role,
            match t {
                Some(s) => Some(s@),
                None => None,
            },
        ),
{
    let ghost before = message_views(out@);
    match t {
        Some(s) => {
            if !s.as_str().is_empty() {
                out.push(Message { role, content: s.clone() });
                assert(message_views(out@) =~= before + seq![MessageView { role, content: s@ }]);
            } else {
                assert(message_views(out@) =~= before + Seq::<MessageView>::empty());
            }
        },
        None => {
            assert(message_views(out@) =~= before + Seq::<MessageView>::empty());
        },
    }
}

pub open spec fn messages_result_view(r: Result<Vec<Message>, AppError>) -> Result<
    Seq<MessageView>,
    (ErrorKind, Seq<char>),
> {
    match r {
        Ok(ms) => Ok(message_views(ms@)),
        Err(e) => Err((e@.kind, e@.detail)),
    }
}

/// Flattens the body of a request into its conversation; a request that
/// carries none is refused.
pub fn request_messages(body: &Json) -> (r: Result<Vec<Message>, AppError>)
    ensures
        messages_result_view(r) == if flattened(body@).len() == 0 {
            Err::<Seq<MessageView>, (ErrorKind, Seq<char>)>(
                (ErrorKind::InvalidRequest, missing_input_text()),
            )
        } else {
            Ok(flattened(body@))
        },
{
    let mut out: Vec<Message> = Vec::new();
    assert(message_views(out@) =~= Seq::<MessageView>::empty());
    push_one(Role::System, body.get_text("instructions"), &mut out);
    let ghost first = message_views(out@);
    match body.get("messages") {
        Some(Json::Array(items)) => {
            proof {
                lemma_array_view(*items);
            }
            push_entries(items, &mut out);
        },
        _ => {
            assert(message_views(out@) =~= first + Seq::<MessageView>::empty());
        },
    }
    let ghost second = message_views(out@);
    match body.get("input") {
        Some(Json::Text(t)) => {
            push_one(Role::User, Some(t), &mut out);
        },
        Some(Json::Array(items)) => {
            proof {
                lemma_array_view(*items);
            }
            push_entries(items, &mut out);
        },
        _ => {
            assert(message_views(out@) =~= second + Seq::<MessageView>::empty());
        },
    }
    push_one(Role::User, body.get_text("prompt"), &mut out);
    assert(message_views(out@) =~= flattened(body@));
    if out.len() == 0 {
        Err(
            AppError::InvalidRequest(
                "Missing required field: input, messages, or instructions".to_owned(),
            ),
        )
    } else {
        Ok(out)
    }
}

/// The strings among the items from `i` on.
pub open spec fn texts_from(items: Seq<JsonValue>, i: nat) -> Seq<Seq<char>>
    decreases items.len() - i,
{
    if i >= items.len() {
        Seq::empty()
    } else {
        match items[i as int] {
            JsonValue::Text(t) => seq![t] + texts_from(items, i + 1),
            _ => texts_from(items, i + 1),
        }
    }
}

/// The prompt of a completion request: a string, or a list of strings
/// that are joined by line feeds.
pub open spec fn completion_prompt_of(body: JsonValue) -> Option<Seq<char>> {
    match field(body, "prompt"@) {
        Some(JsonValue::Text(t)) => Some(t),
        Some(JsonValue::Array(items)) => Some(
            joined(texts_from(items, 0), texts_from(items, 0).len(), "\n"@),
        ),
        _ => None,
    }
}

/// Takes the prompt out of a completion request.
pub fn completion_prompt(body: &Json) -> (r: Option<String>)
    ensures
        text_option_view(r) == completion_prompt_of(body@),
{
    match body.get("prompt") {
        Some(Json::Text(t)) => Some(t.clone()),
        Some(Json::Array(items)) => {
            proof {
                lemma_array_view(*items);
            }
            let ghost iv = views(items@);
            let mut texts: Vec<String> = Vec::new();
            let mut i: usize = 0;
            assert(string_views(texts@) + texts_from(iv, 0) =~= texts_from(iv, 0));
            while i < items.len()
                invariant
                    i <= items.len(),
                    iv == views(items@),
                    string_views(texts@) + texts_from(iv, i as nat) == texts_from(iv, 0),
                decreases items.len() - i,
            {
                assert(iv[i as int] == items@[i as int]@);
                let ghost before = string_views(texts@);
                if let Json::Text(t) = &items[i] {
                    texts.push(t.clone());
                    assert(string_views(texts@) =~= before + seq![t@]);
                }
                assert(string_views(texts@) + texts_from(iv, (i + 1) as nat) =~= before
                    + texts_from(iv, i as nat));
                i = i + 1;
            }
            assert(string_views(texts@) + texts_from(iv, items@.len() as nat) =~= string_views(
                texts@,
            ));
            Some(join_strings(&texts, "\n"))
        },
        _ => None,
    }
}


fn member(key: &str, value: Json) -> (r: (String, Json))
    ensures
        r.0@ == key@,
        r.1@ == value@,
{
    (key.to_owned(), value)
}

fn object_of(members: Vec<(String, Json)>) -> (j: Json)
    ensures
        j@ == JsonValue::Object(member_views(members@)),
{
    proof {
        lemma_object_view(members);
    }
    Json::Object(members)
}

fn text_node(t: &str) -> (j: Json)
    ensures
        j@ == JsonValue::Text(t@),
{
    Json::Text(t.to_owned())
}

pub open spec fn number_node(n: nat) -> JsonValue {
    JsonValue::Number(decimal(n))
}

fn number(n: u64) -> (j: Json)
    ensures
        j@ == number_node(n as nat),
{
    let mut digits: Vec<char> = Vec::new();
    push_decimal(&mut digits, n);
    assert(digits@ =~= decimal(n as nat));
    Json::Number(string_of(&digits))
}

pub open spec fn optional_text_node(t: Option<Seq<char>>) -> JsonValue {
    match t {
        Some(s) => JsonValue::Text(s),
        None => JsonValue::Null,
    }
}

fn optional_text(t: &Option<String>) -> (j: Json)
    ensures
        j@ == optional_text_node(text_option_view(*t)),
{
    match t {
        Some(s) => Json::Text(s.clone()),
        None => Json::Null,
    }
}

pub open spec fn temperature_node(t: Temperature) -> JsonValue {
    JsonValue::Number(millis_text(t.millis as nat))
}

pub open spec fn optional_temperature_node(t: Option<Temperature>) -> JsonValue {
    match t {
        Some(x) => temperature_node(x),
        None => JsonValue::Null,
    }
}

fn temperature_of(t: Temperature) -> (j: Json)
    ensures
        j@ == temperature_node(t),
{
    Json::Number(t.to_text())
}

/// The record of a stage, as it is shown to the client.
pub open spec fn phase_json(p: PhaseView) -> JsonValue {
    JsonValue::Object(
        seq![
            ("model"@, JsonValue::Text(p.model)),
            ("temperature"@, temperature_node(p.temperature)),
            ("auto_temperature_used"@, JsonValue::Bool(p.auto_temperature_used)),
            ("success"@, JsonValue::Bool(p.success)),
            ("error"@, optional_text_node(p.error)),
            ("output"@, optional_text_node(p.output)),
        ],
    )
}

pub open spec fn optional_phase_json(p: Option<PhaseDetails>) -> JsonValue {
    match p {
        Some(x) => phase_json(x@),
        None => JsonValue::Null,
    }
}

fn phase_to_json(p: &Option<PhaseDetails>) -> (j: Json)
    ensures
        j@ == optional_phase_json(*p),
{
    match p {
        None => Json::Null,
        Some(x) => {
            let mut m: Vec<(String, Json)> = Vec::new();
            m.push(member("model", text_node(x.model.as_str())));
            m.push(member("temperature", temperature_of(x.temperature)));
            m.push(member("auto_temperature_used", Json::Bool(x.auto_temperature_used)));
            m.push(member("success", Json::Bool(x.success)));
            m.push(member("error", optional_text(&x.error)));
            m.push(member("output", optional_text(&x.output)));
            assert(member_views(m@) =~= phase_json(x@)->Object_0);
            object_of(m)
        },
    }
}

/// The record of the selector, as it is shown to the client.
pub open spec fn selector_json(s: SelectorView) -> JsonValue {
    JsonValue::Object(
        seq![
            ("model"@, JsonValue::Text(s.model)),
            ("temperature"@, temperature_node(s.temperature)),
            (
                "chosen_index"@,
                match s.choice {
                    Some(c) => number_node(c.index as nat),
                    None => JsonValue::Null,
                },
            ),
            (
                "chosen_worker"@,
                match s.choice {
                    Some(c) => JsonValue::Text(c.chosen_worker),
                    None => JsonValue::Null,
                },
            ),
            (
                "chosen_response"@,
                match s.choice {
                    Some(c) => JsonValue::Text(c.chosen_response),
                    None => JsonValue::Null,
                },
            ),
            (
                "reasoning"@,
                match s.choice {
                    Some(c) => optional_text_node(c.reasoning),
                    None => JsonValue::Null,
                },
            ),
            ("success"@, JsonValue::Bool(s.success)),
            ("error"@, optional_text_node(s.error)),
            ("raw_output"@, optional_text_node(s.raw_output)),
        ],
    )
}

pub open spec fn optional_selector_json(s: Option<SelectorDetails>) -> JsonValue {
    match s {
        Some(x) => selector_json(x@),
        None => JsonValue::Null,
    }
}

fn selector_to_json(s: &Option<SelectorDetails>) -> (j: Json)
    ensures
        j@ == optional_selector_json(*s),
{
    match s {
        None => Json::Null,
        Some(x) => {
            let mut m: Vec<(String, Json)> = Vec::new();
            m.push(member("model", text_node(x.model.as_str())));
            m.push(member("temperature", temperature_of(x.temperature)));
            match &x.choice {
                Some(c) => {
                    m.push(member("chosen_index", number(c.index as u64)));
                    m.push(member("chosen_worker", text_node(c.chosen_worker.as_str())));
                    m.push(member("chosen_response", text_node(c.chosen_response.as_str())));
                    m.push(member("reasoning", optional_text(&c.reasoning)));
                },
                None => {
                    m.push(member("chosen_index", Json::Null));
                    m.push(member("chosen_worker", Json::Null));
                    m.push(member("chosen_response", Json::Null));
                    m.push(member("reasoning", Json::Null));
                },
            }
            m.push(member("success", Json::Bool(x.success)));
            m.push(member("error", optional_text(&x.error)));
            m.push(member("raw_output", optional_text(&x.raw_output)));
            assert(member_views(m@) =~= selector_json(x@)->Object_0);
            object_of(m)
        },
    }
}

/// The record of a worker, as it is shown to the client, with the record
/// of its nested plan where it has one.
pub open spec fn worker_json(w: WorkerDetails) -> JsonValue
    decreases w,
{
    JsonValue::Object(
        seq![
            ("name"@, JsonValue::Text(w.name@)),
            ("effective_temperature"@, optional_temperature_node(w.effective_temperature)),
            ("response"@, optional_text_node(text_option_view(w.response))),
            ("success"@, JsonValue::Bool(w.success)),
            ("error"@, optional_text_node(text_option_view(w.error))),
            (
                "nested_record"@,
                match w.nested {
                    Some(d) => details_json(*d),
                    None => JsonValue::Null,
                },
            ),
        ],
    )
}

/// The record of an evaluation, as it is shown to the client.
pub open spec fn details_json(d: WorkflowExecutionDetails) -> JsonValue
    decreases d,
{
    JsonValue::Object(
        seq![
            ("workflow_id"@, JsonValue::Text(d.workflow_id@)),
            ("total_duration_ms"@, number_node(d.total_duration_ms as nat)),
            ("analyzer"@, optional_phase_json(d.analyzer)),
            (
                "workers"@,
                JsonValue::Array(
                    Seq::new(
                        d.workers@.len(),
                        |i: int|
                            if 0 <= i < d.workers@.len() {
                                worker_json(d.workers@[i])
                            } else {
                                JsonValue::Null
                            },
                    ),
                ),
            ),
            ("worker_count"@, number_node(d.worker_count as nat)),
            ("worker_successful"@, number_node(d.worker_successful as nat)),
            ("worker_failures"@, number_node(d.worker_failures as nat)),
            ("selector"@, optional_selector_json(d.selector)),
            ("synthesizer"@, optional_phase_json(d.synthesizer)),
        ],
    )
}

/// Writes the record of an evaluation as a tree.
pub fn details_to_json(d: &WorkflowExecutionDetails) -> (j: Json)
    ensures
        j@ == details_json(*d),
    decreases d,
{
    let ghost target = details_json(*d)->Object_0[3].1->Array_0;
    let mut items: Vec<Json> = Vec::new();
    let mut i: usize = 0;
    while i < d.workers.len()
        invariant
            i <= d.workers.len(),
            target == details_json(*d)->Object_0[3].1->Array_0,
            items@.len() == i,
            forall|k: int| 0 <= k < i ==> (#[trigger] items@[k])@ == target[k],
        decreases d.workers.len() - i,
    {
        let w = &d.workers[i];
        let nested = match &w.nested {
            Some(n) => {
                proof {
                    assert(decreases_to!(d => d.workers));
                    assert(decreases_to!(d.workers => d.workers@));
                    assert(decreases_to!(d.workers@ => d.workers@[i as int]));
                    assert(decreases_to!(d.workers@[i as int] => d.workers@[i as int].nested));
                    assert(decreases_to!(d.workers@[i as int].nested => d.workers@[i as int].nested->0));
                }
                details_to_json(n)
            },
            None => Json::Null,
        };
        let mut m: Vec<(String, Json)> = Vec::new();
        m.push(member("name", text_node(w.name.as_str())));
        m.push(
            member(
                "effective_temperature",
                match w.effective_temperature {
                    Some(t) => temperature_of(t),
                    None => Json::Null,
                },
            ),
        );
        m.push(member("response", optional_text(&w.response)));
        m.push(member("success", Json::Bool(w.success)));
        m.push(member("error", optional_text(&w.error)));
        m.push(member("nested_record", nested));
        assert(member_views(m@) =~= worker_json(d.workers@[i as int])->Object_0);
        items.push(object_of(m));
        i = i + 1;
    }
    proof {
        lemma_array_view(items);
        assert(views(items@) =~= target);
    }
    let mut digits: Vec<char> = Vec::new();
    push_decimal_wide(&mut digits, d.total_duration_ms);
    assert(digits@ =~= decimal(d.total_duration_ms as nat));
    let mut m: Vec<(String, Json)> = Vec::new();
    m.push(member("workflow_id", text_node(d.workflow_id.as_str())));
    m.push(member("total_duration_ms", Json::Number(string_of(&digits))));
    m.push(member("analyzer", phase_to_json(&d.analyzer)));
    m.push(member("workers", Json::Array(items)));
    m.push(member("worker_count", number(d.worker_count as u64)));
    m.push(member("worker_successful", number(d.worker_successful as u64)));
    m.push(member("worker_failures", number(d.worker_failures as u64)));
    m.push(member("selector", selector_to_json(&d.selector)));
    m.push(member("synthesizer", phase_to_json(&d.synthesizer)));
    assert(member_views(m@) =~= details_json(*d)->Object_0);
    object_of(m)
}

/// The member that discloses the record, where the request asked for it
/// and there is one.
pub open spec fn workflow_member(
    include_workflow: bool,
    details: Option<WorkflowExecutionDetails>,
) -> Seq<(Seq<char>, JsonValue)> {
    match details {
        Some(d) => if include_workflow {
            seq![("workflow"@, details_json(d))]
        } else {
            Seq::empty()
        },
        None => Seq::empty(),
    }
}

fn push_workflow(
    m: &mut Vec<(String, Json)>,
    include_workflow: bool,
    details: &Option<WorkflowExecutionDetails>,
)
    ensures
        member_views(final(m)@) == member_views(old(m)@) + workflow_member(
            include_workflow,
            *details,
        ),
{
    let ghost before = member_views(m@);
    match details {
        Some(d) => {
            if include_workflow {
                m.push(member("workflow", details_to_json(d)));
                assert(member_views(m@) =~= before + seq![("workflow"@, details_json(*d))]);
            } else {
                assert(member_views(m@) =~= before + Seq::<(Seq<char>, JsonValue)>::empty());
            }
        },
        None => {
            assert(member_views(m@) =~= before + Seq::<(Seq<char>, JsonValue)>::empty());
        },
    }
}

/// The body that answers a generate request.
pub open spec fn generate_body_of(
    response: Seq<char>,
    include_workflow: bool,
    details: Option<WorkflowExecutionDetails>,
) -> JsonValue {
    JsonValue::Object(
        seq![("response"@, JsonValue::Text(response)), ("done"@, JsonValue::Bool(true))]
            + workflow_member(include_workflow, details),
    )
}

/// Builds the body that answers a generate request.
pub fn generate_body(
    response: &str,
    include_workflow: bool,
    details: &Option<WorkflowExecutionDetails>,
) -> (j: Json)
    ensures
        j@ == generate_body_of(response@, include_workflow, *details),
{
    let mut m: Vec<(String, Json)> = Vec::new();
    m.push(member("response", text_node(response)));
    m.push(member("done", Json::Bool(true)));
    assert(member_views(m@) =~= seq![
        ("response"@, JsonValue::Text(response@)),
        ("done"@, JsonValue::Bool(true)),
    ]);
    push_workflow(&mut m, include_workflow, details);
    object_of(m)
}

pub open spec fn assistant_message(content: Seq<char>) -> JsonValue {
    JsonValue::Object(
        seq![("role"@, JsonValue::Text("assistant"@)), ("content"@, JsonValue::Text(content))],
    )
}

fn assistant(content: &str) -> (j: Json)
    ensures
        j@ == assistant_message(content@),
{
    let mut m: Vec<(String, Json)> = Vec::new();
    m.push(member("role", text_node("assistant")));
    m.push(member("content", text_node(content)));
    assert(member_views(m@) =~= assistant_message(content@)->Object_0);
    object_of(m)
}

/// The body that answers a chat request.
pub open spec fn chat_body_of(
    content: Seq<char>,
    include_workflow: bool,
    details: Option<WorkflowExecutionDetails>,
) -> JsonValue {
    JsonValue::Object(
        seq![("message"@, assistant_message(content)), ("done"@, JsonValue::Bool(true))]
            + workflow_member(include_workflow, details),
    )
}

/// Builds the body that answers a chat request.
pub fn chat_body(
    content: &str,
    include_workflow: bool,
    details: &Option<WorkflowExecutionDetails>,
) -> (j: Json)
    ensures
        j@ == chat_body_of(content@, include_workflow, *details),
{
    let mut m: Vec<(String, Json)> = Vec::new();
    m.push(member("message", assistant(content)));
    m.push(member("done", Json::Bool(true)));
    assert(member_views(m@) =~= seq![
        ("message"@, assistant_message(content@)),
        ("done"@, JsonValue::Bool(true)),
    ]);
    push_workflow(&mut m, include_workflow, details);
    object_of(m)
}

pub open spec fn zero_usage() -> JsonValue {
    JsonValue::Object(
        seq![
            ("prompt_tokens"@, number_node(0)),
            ("completion_tokens"@, number_node(0)),
            ("total_tokens"@, number_node(0)),
        ],
    )
}

fn usage() -> (j: Json)
    ensures
        j@ == zero_usage(),
{
    let mut m: Vec<(String, Json)> = Vec::new();
    m.push(member("prompt_tokens", number(0)));
    m.push(member("completion_tokens", number(0)));
    m.push(member("total_tokens", number(0)));
    assert(member_views(m@) =~= zero_usage()->Object_0);
    object_of(m)
}

fn one_item(item: Json) -> (j: Json)
    ensures
        j@ == JsonValue::Array(seq![item@]),
{
    let mut items: Vec<Json> = Vec::new();
    items.push(item);
    proof {
        lemma_array_view(items);
        assert(views(items@) =~= seq![item@]);
    }
    Json::Array(items)
}

/// The body that answers a completion request.
pub open spec fn completions_body_of(
    id: Seq<char>,
    created: u64,
    model: Seq<char>,
    text: Seq<char>,
) -> JsonValue {
    JsonValue::Object(
        seq![
            ("id"@, JsonValue::Text(id)),
            ("object"@, JsonValue::Text("text_completion"@)),
            ("created"@, number_node(created as nat)),
            ("model"@, JsonValue::Text(model)),
            (
                "choices"@,
                JsonValue::Array(
                    seq![
                        JsonValue::Object(
                            seq![
                                ("text"@, JsonValue::Text(text)),
                                ("index"@, number_node(0)),
                                ("logprobs"@, JsonValue::Null),
                                ("finish_reason"@, JsonValue::Text("stop"@)),
                            ],
                        ),
                    ],
                ),
            ),
            ("usage"@, zero_usage()),
        ],
    )
}

/// Builds the body that answers a completion request.
pub fn completions_body(id: &str, created: u64, model: &str, text: &str) -> (j: Json)
    ensures
        j@ == completions_body_of(id@, created, model@, text@),
{
    let mut c: Vec<(String, Json)> = Vec::new();
    c.push(member("text", text_node(text)));
    c.push(member("index", number(0)));
    c.push(member("logprobs", Json::Null));
    c.push(member("finish_reason", text_node("stop")));
    assert(member_views(c@) =~= seq![
        ("text"@, JsonValue::Text(text@)),
        ("index"@, number_node(0)),
        ("logprobs"@, JsonValue::Null),
        ("finish_reason"@, JsonValue::Text("stop"@)),
    ]);
    let mut m: Vec<(String, Json)> = Vec::new();
    m.push(member("id", text_node(id)));
    m.push(member("object", text_node("text_completion")));
    m.push(member("created", number(created)));
    m.push(member("model", text_node(model)));
    m.push(member("choices", one_item(object_of(c))));
    m.push(member("usage", usage()));
    assert(member_views(m@) =~= completions_body_of(id@, created, model@, text@)->Object_0);
    object_of(m)
}

/// The body that answers a chat completion request.
pub open spec fn chat_completions_body_of(
    id: Seq<char>,
    created: u64,
    model: Seq<char>,
    content: Seq<char>,
) -> JsonValue {
    JsonValue::Object(
        seq![
            ("id"@, JsonValue::Text(id)),
            ("object"@, JsonValue::Text("chat.completion"@)),
            ("created"@, number_node(created as nat)),
            ("model"@, JsonValue::Text(model)),
            (
                "choices"@,
                JsonValue::Array(
                    seq![
                        JsonValue::Object(
                            seq![
                                ("index"@, number_node(0)),
                                ("message"@, assistant_message(content)),
                                ("finish_reason"@, JsonValue::Text("stop"@)),
                            ],
                        ),
                    ],
                ),
            ),
            ("usage"@, zero_usage()),
        ],
    )
}

/// Builds the body that answers a chat completion request.
pub fn chat_completions_body(id: &str, created: u64, model: &str, content: &str) -> (j: Json)
    ensures
        j@ == chat_completions_body_of(id@, created, model@, content@),
{
    let mut c: Vec<(String, Json)> = Vec::new();
    c.push(member("index", number(0)));
    c.push(member("message", assistant(content)));
    c.push(member("finish_reason", text_node("stop")));
    assert(member_views(c@) =~= seq![
        ("index"@, number_node(0)),
        ("message"@, assistant_message(content@)),
        ("finish_reason"@, JsonValue::Text("stop"@)),
    ]);
    let mut m: Vec<(String, Json)> = Vec::new();
    m.push(member("id", text_node(id)));
    m.push(member("object", text_node("chat.completion")));
    m.push(member("created", number(created)));
    m.push(member("model", text_node(model)));
    m.push(member("choices", one_item(object_of(c))));
    m.push(member("usage", usage()));
    assert(member_views(m@) =~= chat_completions_body_of(id@, created, model@, content@)->Object_0);
    object_of(m)
}

/// The body that answers a responses request.
pub open spec fn responses_body_of(id: Seq<char>, created_at: Seq<char>, text: Seq<char>)
    -> JsonValue {
    JsonValue::Object(
        seq![
            ("id"@, JsonValue::Text(id)),
            ("object"@, JsonValue::Text("response"@)),
            ("created_at"@, JsonValue::Text(created_at)),
            (
                "output"@,
                JsonValue::Array(
                    seq![
                        JsonValue::Object(
                            seq![
                                ("type"@, JsonValue::Text("text"@)),
                                ("text"@, JsonValue::Text(text)),
                            ],
                        ),
                    ],
                ),
            ),
        ],
    )
}

/// Builds the body that answers a responses request.
pub fn responses_body(id: &str, created_at: &str, text: &str) -> (j: Json)
    ensures
        j@ == responses_body_of(id@, created_at@, text@),
{
    let mut o: Vec<(String, Json)> = Vec::new();
    o.push(member("type", text_node("text")));
    o.push(member("text", text_node(text)));
    assert(member_views(o@) =~= seq![
        ("type"@, JsonValue::Text("text"@)),
        ("text"@, JsonValue::Text(text@)),
    ]);
    let mut m: Vec<(String, Json)> = Vec::new();
    m.push(member("id", text_node(id)));
    m.push(member("object", text_node("response")));
    m.push(member("created_at", text_node(created_at)));
    m.push(member("output", one_item(object_of(o))));
    assert(member_views(m@) =~= responses_body_of(id@, created_at@, text@)->Object_0);
    object_of(m)
}

/// The delta and the reason to finish that an event carries; `None` for
/// the line `[DONE]`, which is no JSON.
pub open spec fn chunk_parts(e: EventShape) -> Option<(JsonValue, JsonValue)> {
    match e {
        EventShape::Role => Some(
            (JsonValue::Object(seq![("role"@, JsonValue::Text("assistant"@))]), JsonValue::Null),
        ),
        EventShape::Content(t) => Some(
            (JsonValue::Object(seq![("content"@, JsonValue::Text(t))]), JsonValue::Null),
        ),
        EventShape::Stop => Some((JsonValue::Object(Seq::empty()), JsonValue::Text("stop"@))),
        EventShape::Failed(m) => Some(
            (JsonValue::Object(seq![("error"@, JsonValue::Text(m))]), JsonValue::Text("error"@)),
        ),
        EventShape::Done => None,
    }
}

/// The body of one event of the stream that answers a chat completion.
pub open spec fn chunk_body_of(e: EventShape, id: Seq<char>, created: u64, model: Seq<char>)
    -> Option<JsonValue> {
    match chunk_parts(e) {
        None => None,
        Some(parts) => Some(
            JsonValue::Object(
                seq![
                    ("id"@, JsonValue::Text(id)),
                    ("object"@, JsonValue::Text("chat.completion.chunk"@)),
                    ("created"@, number_node(created as nat)),
                    ("model"@, JsonValue::Text(model)),
                    (
                        "choices"@,
                        JsonValue::Array(
                            seq![
                                JsonValue::Object(
                                    seq![
                                        ("index"@, number_node(0)),
                                        ("delta"@, parts.0),
                                        ("finish_reason"@, parts.1),
                                    ],
                                ),
                            ],
                        ),
                    ),
                ],
            ),
        ),
    }
}

/// Builds the body of one event of the stream that answers a chat
/// completion; the line `[DONE]` has none.
pub fn chunk_body(e: &ChunkEvent, id: &str, created: u64, model: &str) -> (r: Option<Json>)
    ensures
        node_option_view(
            match &r {
                Some(j) => Some(j),
                None => None,
            },
        ) == chunk_body_of(e@, id@, created, model@),
{
    let mut d: Vec<(String, Json)> = Vec::new();
    let reason = match e {
        ChunkEvent::Role => {
            d.push(member("role", text_node("assistant")));
            assert(member_views(d@) =~= seq![("role"@, JsonValue::Text("assistant"@))]);
            Json::Null
        },
        ChunkEvent::Content(t) => {
            d.push(member("content", text_node(t.as_str())));
            assert(member_views(d@) =~= seq![("content"@, JsonValue::Text(t@))]);
            Json::Null
        },
        ChunkEvent::Stop => {
            assert(member_views(d@) =~= Seq::<(Seq<char>, JsonValue)>::empty());
            text_node("stop")
        },
        ChunkEvent::Failed(m) => {
            d.push(member("error", text_node(m.as_str())));
            assert(member_views(d@) =~= seq![("error"@, JsonValue::Text(m@))]);
            text_node("error")
        },
        ChunkEvent::Done => {
            return None;
        },
    };
    let ghost parts = chunk_parts(e@)->0;
    let delta = object_of(d);
    assert(delta@ == parts.0);
    let mut c: Vec<(String, Json)> = Vec::new();
    c.push(member("index", number(0)));
    c.push(member("delta", delta));
    c.push(member("finish_reason", reason));
    assert(member_views(c@) =~= seq![
        ("index"@, number_node(0)),
        ("delta"@, parts.0),
        ("finish_reason"@, parts.1),
    ]);
    let mut m: Vec<(String, Json)> = Vec::new();
    m.push(member("id", text_node(id)));
    m.push(member("object", text_node("chat.completion.chunk")));
    m.push(member("created", number(created)));
    m.push(member("model", text_node(model)));
    m.push(member("choices", one_item(object_of(c))));
    assert(member_views(m@) =~= chunk_body_of(e@, id@, created, model@)->0->Object_0);
    Some(object_of(m))
}

} // verus!

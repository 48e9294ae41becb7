//! Event streams: the framing of a streamed upstream reply, and the cutting
//! of text into the events that go to the client.

use crate::error::{AppError, ErrorKind};
use crate::json::{parse_json, parsed_json, Json, JsonValue};
use crate::llm::{
    delta_text, extract_delta, finishes, is_finished, role_of_name, ChatStreamChunk,
    ChatStreamResponse, Message, MessageView, Role,
};
use crate::json::text_field;
use crate::selector::{node_option_view, text_option_view};
use crate::text::{chars_of, join_strings, joined, matches_at, push_str, starts_with, string_of, string_of_range, string_views, trim, trim_chars};
use vstd::prelude::*;

verus! {

/// The length of the event separator that stands at `i`: 2 for two line
/// feeds, 4 for two pairs of carriage return and line feed, 0 for none.
pub open spec fn separator_len(s: Seq<char>, i: int) -> nat {
    if 0 <= i && i + 2 <= s.len() && s[i] == '\n' && s[i + 1] == '\n' {
        2
    } else if 0 <= i && i + 4 <= s.len() && s[i] == '\r' && s[i + 1] == '\n' && s[i + 2] == '\r'
        && s[i + 3] == '\n' {
        4
    } else {
        0
    }
}

/// The events that are complete in `s` from `start` on, read from `i`, and
/// what is left after the last of them.
pub open spec fn split_events(s: Seq<char>, start: int, i: int) -> (Seq<Seq<char>>, Seq<char>)
    decreases s.len() - i,
{
    if i < 0 || start < 0 || start > i {
        (Seq::empty(), Seq::empty())
    } else if i >= s.len() {
        (Seq::empty(), s.subrange(start, s.len() as int))
    } else if separator_len(s, i) > 0 {
        let next = i + separator_len(s, i);
        (
            seq![s.subrange(start, i)] + split_events(s, next, next).0,
            split_events(s, next, next).1,
        )
    } else {
        split_events(s, start, i + 1)
    }
}

/// The reader of a streamed reply: what has arrived and is not yet a
/// complete event.
#[derive(Debug)]
pub struct SseParser {
    pub buffer: Vec<char>,
}

fn separator_at(v: &Vec<char>, i: usize) -> (k: usize)
    requires
        i < v.len(),
    ensures
        k == separator_len(v@, i as int),
        k == 0 || k == 2 || k == 4,
        i + k <= v.len(),
{
    let n = v.len();
    if n - i >= 2 && v[i] == '\n' && v[i + 1] == '\n' {
        2
    } else if n - i >= 4 && v[i] == '\r' && v[i + 1] == '\n' && v[i + 2] == '\r' && v[i + 3]
        == '\n' {
        4
    } else {
        0
    }
}

impl SseParser {
    /// A reader that has seen nothing.
    pub fn new() -> (r: Self)
        ensures
            r.buffer@ == Seq::<char>::empty(),
    {
        SseParser { buffer: Vec::new() }
    }

    /// Takes what arrived next and gives the events that are now complete,
    /// in order; what follows the last of them is kept for later.
    pub fn feed(&mut self, chunk: &str) -> (events: Vec<String>)
        ensures
            string_views(events@) == split_events(old(self).buffer@ + chunk@, 0, 0).0,
            final(self).buffer@ == split_events(old(self).buffer@ + chunk@, 0, 0).1,
    {
        push_str(&mut self.buffer, chunk);
        let ghost s = self.buffer@;
        let mut events: Vec<String> = Vec::new();
        let mut start: usize = 0;
        let mut i: usize = 0;
        assert(string_views(events@) + split_events(s, 0, 0).0 =~= split_events(s, 0, 0).0);
        while i < self.buffer.len()
            invariant
                start <= i <= self.buffer.len(),
                self.buffer@ == s,
                string_views(events@) + split_events(s, start as int, i as int).0 == split_events(
                    s,
                    0,
                    0,
                ).0,
                split_events(s, start as int, i as int).1 == split_events(s, 0, 0).1,
            decreases self.buffer.len() - i,
        {
            let k = separator_at(&self.buffer, i);
            if k > 0 {
                let ghost before = string_views(events@);
                let event = string_of_range(&self.buffer, start, i);
                events.push(event);
                assert(string_views(events@) =~= before + seq![s.subrange(start as int, i as int)]);
                assert(string_views(events@) + split_events(s, i + k, i + k).0 =~= before
                    + split_events(s, start as int, i as int).0);
                start = i + k;
                i = i + k;
            } else {
                i = i + 1;
            }
        }
        assert(string_views(events@) + split_events(s, start as int, i as int).0 =~= string_views(
            events@,
        ));
        let mut rest: Vec<char> = Vec::new();
        let mut j: usize = start;
        while j < self.buffer.len()
            invariant
                start <= j <= self.buffer.len(),
                self.buffer@ == s,
                rest@ == s.subrange(start as int, j as int),
            decreases self.buffer.len() - j,
        {
            rest.push(self.buffer[j]);
            j = j + 1;
        }
        self.buffer = rest;
        events
    }
}

/// Where the line that begins at `i` ends: at the next line feed, or at the
/// end of the text.
pub open spec fn line_end(s: Seq<char>, i: int) -> int
    decreases s.len() - i,
{
    if 0 <= i < s.len() && s[i] != '\n' {
        line_end(s, i + 1)
    } else {
        i
    }
}

/// A line without the carriage return at its end.
pub open spec fn without_return(line: Seq<char>) -> Seq<char> {
    if line.len() > 0 && line.last() == '\r' {
        line.drop_last()
    } else {
        line
    }
}

/// The value of a `data:` line, without the one space that may follow the
/// colon; `None` for any other line.
pub open spec fn data_value(line: Seq<char>) -> Option<Seq<char>> {
    if starts_with(line, "data:"@) {
        if line.len() > 5 && line[5] == ' ' {
            Some(line.subrange(6, line.len() as int))
        } else {
            Some(line.subrange(5, line.len() as int))
        }
    } else {
        None
    }
}

/// The values of the `data:` lines of an event from `i` on.
pub open spec fn data_lines(s: Seq<char>, i: int) -> Seq<Seq<char>>
    decreases s.len() - i,
{
    if i < 0 || i >= s.len() {
        Seq::empty()
    } else {
        let e = line_end(s, i);
        if e < i || e > s.len() {
            Seq::empty()
        } else {
            let rest = if e >= s.len() {
                Seq::empty()
            } else {
                data_lines(s, e + 1)
            };
            match data_value(without_return(s.subrange(i, e))) {
                Some(v) => seq![v] + rest,
                None => rest,
            }
        }
    }
}

/// The payload of an event: the values of its `data:` lines, joined by
/// line feeds; `None` for an event without such a line.
pub open spec fn event_payload(event: Seq<char>) -> Option<Seq<char>> {
    let lines = data_lines(event, 0);
    if lines.len() == 0 {
        None
    } else {
        Some(joined(lines, lines.len(), "\n"@))
    }
}

fn data_value_of(v: &Vec<char>, from: usize, to: usize) -> (r: Option<String>)
    requires
        from <= to <= v.len(),
    ensures
        text_option_view(r) == data_value(without_return(v@.subrange(from as int, to as int))),
{
    let end: usize = if to > from && v[to - 1] == '\r' {
        to - 1
    } else {
        to
    };
    let ghost raw = v@.subrange(from as int, to as int);
    let ghost line = v@.subrange(from as int, end as int);
    proof {
        if to > from {
            assert(raw.last() == v@[to - 1]);
        }
        assert(without_return(raw) =~= line);
        reveal_strlit("data:");
    }
    let prefix = chars_of("data:");
    assert(prefix@.len() == 5);
    if end - from >= 5 && matches_at(v, &prefix, from) {
        assert(line.subrange(0, 5) =~= v@.subrange(from as int, from + 5));
        if end - from > 5 && v[from + 5] == ' ' {
            assert(line[5] == v@[from + 5]);
            let r = string_of_range(v, from + 6, end);
            assert(line.subrange(6, line.len() as int) =~= v@.subrange(from + 6, end as int));
            Some(r)
        } else {
            if end - from > 5 {
                assert(line[5] == v@[from + 5]);
            }
            let r = string_of_range(v, from + 5, end);
            assert(line.subrange(5, line.len() as int) =~= v@.subrange(from + 5, end as int));
            Some(r)
        }
    } else {
        proof {
            if end - from >= 5 {
                assert(line.subrange(0, 5) =~= v@.subrange(from as int, from + 5));
            }
        }
        None
    }
}

/// Takes the payload out of an event.
pub fn payload_of_event(event: &str) -> (r: Option<String>)
    ensures
        text_option_view(r) == event_payload(event@),
{
    let v = chars_of(event);
    let mut lines: Vec<String> = Vec::new();
    let mut i: usize = 0;
    assert(string_views(lines@) + data_lines(v@, 0) =~= data_lines(v@, 0));
    while i < v.len()
        invariant
            i <= v.len(),
            v@ == event@,
            string_views(lines@) + data_lines(v@, i as int) == data_lines(v@, 0),
        decreases v.len() - i,
    {
        let mut e: usize = i;
        while e < v.len() && v[e] != '\n'
            invariant
                i <= e <= v.len(),
                line_end(v@, i as int) == line_end(v@, e as int),
            decreases v.len() - e,
        {
            e = e + 1;
        }
        let ghost before = string_views(lines@);
        match data_value_of(&v, i, e) {
            Some(value) => {
                lines.push(value);
                assert(string_views(lines@) =~= before + seq![
                    data_value(without_return(v@.subrange(i as int, e as int)))->0,
                ]);
            },
            None => {},
        }
        assert(string_views(lines@) + data_lines(v@, e + 1) =~= before + data_lines(v@, i as int));
        if e >= v.len() {
            assert(data_lines(v@, e + 1) =~= Seq::<Seq<char>>::empty());
            assert(data_lines(v@, v@.len() as int) =~= Seq::<Seq<char>>::empty());
            i = v.len();
        } else {
            i = e + 1;
        }
    }
    assert(string_views(lines@) + data_lines(v@, v@.len() as int) =~= string_views(lines@));
    if lines.len() == 0 {
        None
    } else {
        Some(join_strings(&lines, "\n"))
    }
}

/// What one event of a streamed reply brings.
#[derive(Debug)]
pub struct StreamUpdate {
    /// The text that the event adds to the reply.
    pub text: Option<String>,
    /// Whether the stream ends with this event.
    pub done: bool,
}

pub struct UpdateView {
    pub text: Option<Seq<char>>,
    pub done: bool,
}

impl View for StreamUpdate {
    type V = UpdateView;

    open spec fn view(&self) -> UpdateView {
        UpdateView { text: text_option_view(self.text), done: self.done }
    }
}

/// What a payload brings: the payload `[DONE]` ends the stream; a payload
/// that is JSON adds its text and ends the stream where it gives a reason
/// to finish; any other payload brings nothing.
pub open spec fn update_of(payload: Seq<char>, parsed: Option<JsonValue>) -> UpdateView {
    if trim(payload) == "[DONE]"@ {
        UpdateView { text: None, done: true }
    } else {
        match parsed {
            Some(j) => UpdateView { text: delta_text(j), done: finishes(j) },
            None => UpdateView { text: None, done: false },
        }
    }
}

/// Reads a payload that has been read as JSON already.
pub fn update_from(payload: &str, parsed: Option<&Json>) -> (r: StreamUpdate)
    ensures
        r@ == update_of(payload@, node_option_view(parsed)),
{
    let t = string_of(&trim_chars(&chars_of(payload)));
    if str::eq(t.as_str(), "[DONE]") {
        return StreamUpdate { text: None, done: true };
    }
    match parsed {
        Some(j) => StreamUpdate { text: extract_delta(j), done: is_finished(j) },
        None => StreamUpdate { text: None, done: false },
    }
}

/// Reads the payload of one event of a streamed reply.
pub fn read_payload(payload: &str) -> (r: StreamUpdate)
    ensures
        r@ == update_of(payload@, parsed_json(payload@)),
{
    let parsed = parse_json(payload);
    match &parsed {
        Some(j) => update_from(payload, Some(j)),
        None => update_from(payload, None),
    }
}

/// The message that a step of a streamed chat reply carries: the `role`
/// and the `content` of its `message`.
pub open spec fn chunk_message(j: JsonValue) -> Option<MessageView> {
    match crate::json::field(j, "message"@) {
        Some(m) => match (text_field(m, "role"@), text_field(m, "content"@)) {
            (Some(r), Some(c)) => match role_of_name(r) {
                Some(role) => Some(MessageView { role, content: c }),
                None => None,
            },
            _ => None,
        },
        None => None,
    }
}

/// What one line of a streamed chat reply holds. A line that does not begin
/// with `data: ` is empty; `[DONE]` ends the stream; anything else must be
/// JSON with a message.
pub open spec fn chunk_of_line(line: Seq<char>, parsed: Option<JsonValue>) -> Result<
    Option<Option<MessageView>>,
    ErrorKind,
> {
    if !starts_with(line, "data: "@) {
        Ok(Some(None))
    } else if trim(line.subrange(6, line.len() as int)) == "[DONE]"@ {
        Ok(None)
    } else {
        match parsed {
            Some(j) => match chunk_message(j) {
                Some(m) => Ok(Some(Some(m))),
                None => Err(ErrorKind::JsonParse),
            },
            None => Err(ErrorKind::JsonParse),
        }
    }
}

pub open spec fn chunk_view(r: Result<ChatStreamChunk, AppError>) -> Result<
    Option<Option<MessageView>>,
    ErrorKind,
> {
    match r {
        Ok(ChatStreamChunk::Empty) => Ok(Some(None)),
        Ok(ChatStreamChunk::Done) => Ok(None),
        Ok(ChatStreamChunk::Data(d)) => Ok(Some(Some(d.message@))),
        Err(e) => Err(e@.kind),
    }
}

/// The text of a line after `data: `, trimmed; `None` for a line that does
/// not begin with `data: `.
pub open spec fn line_data(line: Seq<char>) -> Option<Seq<char>> {
    if starts_with(line, "data: "@) {
        Some(trim(line.subrange(6, line.len() as int)))
    } else {
        None
    }
}

/// Cuts the data out of one line of a streamed chat reply.
pub fn data_of_line(line: &str) -> (r: Option<String>)
    ensures
        text_option_view(r) == line_data(line@),
{
    proof {
        reveal_strlit("data: ");
    }
    match crate::text::strip_prefix(line, "data: ") {
        Some(rest) => Some(string_of(&trim_chars(&chars_of(rest.as_str())))),
        None => None,
    }
}

/// Reads one line of a streamed chat reply whose data has been read as JSON
/// already.
pub fn chunk_from(line: &str, parsed: Option<&Json>) -> (r: Result<ChatStreamChunk, AppError>)
    ensures
        chunk_view(r) == chunk_of_line(line@, node_option_view(parsed)),
{
    let data = match data_of_line(line) {
        None => {
            return Ok(ChatStreamChunk::Empty);
        },
        Some(d) => d,
    };
    if str::eq(data.as_str(), "[DONE]") {
        return Ok(ChatStreamChunk::Done);
    }
    let message = match parsed {
        Some(j) => match j.get("message") {
            Some(m) => match (m.get_text("role"), m.get_text("content")) {
                (Some(r), Some(c)) => match Role::from_name(r.as_str()) {
                    Some(role) => Some(Message { role, content: c.clone() }),
                    None => None,
                },
                _ => None,
            },
            None => None,
        },
        None => None,
    };
    match message {
        Some(m) => Ok(ChatStreamChunk::Data(ChatStreamResponse { message: m })),
        None => Err(AppError::JsonParse("stream chunk holds no message".to_owned())),
    }
}

/// Reads one line of a streamed chat reply.
pub fn parse_stream_chunk(line: &str) -> (r: Result<ChatStreamChunk, AppError>)
    ensures
        chunk_view(r) == chunk_of_line(
            line@,
            match line_data(line@) {
                Some(d) => parsed_json(d),
                None => None,
            },
        ),
{
    match data_of_line(line) {
        Some(d) => {
            let parsed = parse_json(d.as_str());
            match &parsed {
                Some(j) => chunk_from(line, Some(j)),
                None => chunk_from(line, None),
            }
        },
        None => chunk_from(line, None),
    }
}

} // verus!

//! The analyzer stage: the prompt that asks a model for a temperature, and
//! the reading of its reply.

use crate::json::{field, Json, JsonValue};
use crate::selector::{node_option_view, read_reply_object, reply_object, text_option_view};
use crate::temperature::{
    clamp, decimal_millis, parse_millis, Temperature, DEFAULT_MILLIS, MAX_REPLY_MILLIS,
};
use crate::text::{chars_of, push_str, string_of, trim, trim_chars};
use vstd::prelude::*;

verus! {

/// The pattern that finds a temperature in a reply that is no JSON: the word
/// `temperature`, in any case, and the first number after it on the same
/// line.
pub open spec fn temperature_pattern() -> Seq<char> {
    "(?i)temperature[^0-9\n]*([0-9]+(?:\\.[0-9]+)?)"@
}

/// What the first capture group of a pattern holds at the leftmost match of
/// the pattern in a text, as the `regex` crate finds it; `None` where the
/// pattern does not compile, does not match, or the group took no part.
pub uninterp spec fn regex_first_group(pattern: Seq<char>, text: Seq<char>) -> Option<Seq<char>>;

/// `regex::Regex::new`, `Regex::captures` and `Captures::get(1)`: compiles
/// the pattern, searches the text for the leftmost match, and gives the text
/// of the first capture group. The result is the named one; nothing is
/// claimed of which texts match.
#[verifier::external_body]
fn first_group(pattern: &str, text: &str) -> (r: Option<String>)
    ensures
        text_option_view(r) == regex_first_group(pattern@, text@),
{
    let re = regex::Regex::new(pattern).ok()?;
    let caps = re.captures(text)?;
    caps.get(1).map(|m| m.as_str().to_string())
}

/// A number of thousandths, brought into the range from 0 to 2.
pub open spec fn reply_range(m: int) -> Temperature {
    Temperature { millis: clamp(m, 0, MAX_REPLY_MILLIS as int) as u32 }
}

/// The temperature that a decimal numeral asks for.
pub open spec fn numeral_temperature(t: Seq<char>) -> Option<Temperature> {
    match decimal_millis(t) {
        Some(m) => Some(reply_range(m)),
        None => None,
    }
}

/// The temperature that the object of a reply gives: its member
/// `temperature`, a number or a string that writes one.
pub open spec fn json_temperature(object: Option<JsonValue>) -> Option<Temperature> {
    match object {
        Some(j) => match field(j, "temperature"@) {
            Some(JsonValue::Number(t)) => numeral_temperature(t),
            Some(JsonValue::Text(t)) => numeral_temperature(trim(t)),
            _ => None,
        },
        None => None,
    }
}

/// The temperature that a reply asks for: what its object gives; else what
/// the pattern captured, where that is a numeral; else 1.4.
pub open spec fn reply_temperature(object: Option<JsonValue>, captured: Option<Seq<char>>)
    -> Temperature {
    match json_temperature(object) {
        Some(t) => t,
        None => match captured {
            Some(c) => match numeral_temperature(c) {
                Some(t) => t,
                None => Temperature::default_value(),
            },
            None => Temperature::default_value(),
        },
    }
}

fn read_numeral(t: &str) -> (r: Option<Temperature>)
    ensures
        r == numeral_temperature(t@),
{
    match parse_millis(t) {
        Some(m) => {
            let millis: u32 = if m < 0 {
                0
            } else if m > 2000 {
                MAX_REPLY_MILLIS
            } else {
                m as u32
            };
            Some(Temperature { millis })
        },
        None => None,
    }
}

fn read_json_temperature(object: Option<&Json>) -> (r: Option<Temperature>)
    ensures
        r == json_temperature(node_option_view(object)),
{
    match object {
        Some(j) => match j.get("temperature") {
            Some(Json::Number(t)) => read_numeral(t.as_str()),
            Some(Json::Text(t)) => {
                let v = chars_of(t.as_str());
                let w = trim_chars(&v);
                let s = string_of(&w);
                read_numeral(s.as_str())
            },
            _ => None,
        },
        None => None,
    }
}

/// Picks the temperature out of what was read from a reply: its first
/// balanced object, read as JSON, and what the pattern captured in it.
pub fn temperature_from_parts(object: Option<&Json>, captured: Option<&str>) -> (t: Temperature)
    ensures
        t == reply_temperature(
            node_option_view(object),
            match captured {
                Some(c) => Some(c@),
                None => None,
            },
        ),
        t.millis <= MAX_REPLY_MILLIS,
{
    if let Some(t) = read_json_temperature(object) {
        return t;
    }
    if let Some(c) = captured {
        if let Some(t) = read_numeral(c) {
            return t;
        }
    }
    Temperature::fallback()
}

/// Reads the temperature that the analyzer's reply asks for.
pub fn temperature_from_reply(reply: &str) -> (t: Temperature)
    ensures
        t == reply_temperature(
            reply_object(reply@),
            regex_first_group(temperature_pattern(), reply@),
        ),
        t.millis <= MAX_REPLY_MILLIS,
{
    let object = read_reply_object(reply);
    let captured = first_group("(?i)temperature[^0-9\n]*([0-9]+(?:\\.[0-9]+)?)", reply);
    let c: Option<&str> = match &captured {
        Some(s) => Some(s.as_str()),
        None => None,
    };
    match &object {
        Some(j) => temperature_from_parts(Some(j), c),
        None => temperature_from_parts(None, c),
    }
}

/// The temperature at which the analyzer itself is asked: 0.3.
pub const ANALYZER_CALL_MILLIS: u32 = 300;

/// The prompt that asks the analyzer for a temperature.
pub open spec fn analyzer_prompt_text(prompt: Seq<char>) -> Seq<char> {
    "Choose a sampling temperature between 0.0 and 2.0 for answering the task below, with brief reasoning.\nReply with one JSON object with the fields `temperature` and `reasoning`.\n\nTask:\n"@
        + prompt
}

/// Builds the prompt that asks the analyzer for a temperature.
pub fn analyzer_prompt(prompt: &str) -> (s: String)
    ensures
        s@ == analyzer_prompt_text(prompt@),
{
    let mut out: Vec<char> = Vec::new();
    push_str(
        &mut out,
        "Choose a sampling temperature between 0.0 and 2.0 for answering the task below, with brief reasoning.\nReply with one JSON object with the fields `temperature` and `reasoning`.\n\nTask:\n",
    );
    push_str(&mut out, prompt);
    assert(out@ =~= analyzer_prompt_text(prompt@));
    string_of(&out)
}

/// Whatever the reply holds, the temperature read from it lies from 0 to 2.
pub proof fn law_reply_temperature_in_range(
    object: Option<JsonValue>,
    captured: Option<Seq<char>>,
)
    ensures
        reply_temperature(object, captured).millis <= MAX_REPLY_MILLIS,
        json_temperature(object) is None && (captured is None || numeral_temperature(
            captured->0,
        ) is None) ==> reply_temperature(object, captured).millis == DEFAULT_MILLIS,
{
}

} // verus!

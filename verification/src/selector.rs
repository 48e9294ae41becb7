//! The selector stage: the prompt that lists the candidates, and the reading
//! of the model's reply into a choice.

use crate::json::{
    field, lemma_array_view, lemma_object_view, member_views, parse_json, parsed_json, views, Json,
    JsonValue,
};
use crate::temperature::{clamp, digits_value, lemma_scan_digits, read_digits, scan_digits};
use crate::text::{
    chars_of, decimal, is_digit, push_chars, push_decimal, push_str, string_of, string_of_range,
    trim, trim_chars,
};
use vstd::prelude::*;

verus! {

/// No index of this size or above is ever a choice.
pub const INDEX_LIMIT: u64 = 1_000_000_000_000;

/// One successful worker answer that the selector may pick.
#[derive(Debug)]
pub struct Candidate {
    pub name: String,
    pub response: String,
}

/// What the selector picked.
#[derive(Debug)]
pub struct SelectorChoice {
    /// The position of the pick among the candidates, counted from 1.
    pub index: usize,
    pub chosen_worker: String,
    pub chosen_response: String,
    /// The answer text that the reply itself carries, if it carries one.
    pub selected_response: Option<String>,
    pub reasoning: Option<String>,
}

pub struct ChoiceView {
    pub index: int,
    pub chosen_worker: Seq<char>,
    pub chosen_response: Seq<char>,
    pub selected_response: Option<Seq<char>>,
    pub reasoning: Option<Seq<char>>,
}

pub open spec fn text_option_view(t: Option<String>) -> Option<Seq<char>> {
    match t {
        Some(s) => Some(s@),
        None => None,
    }
}

impl View for SelectorChoice {
    type V = ChoiceView;

    open spec fn view(&self) -> ChoiceView {
        ChoiceView {
            index: self.index as int,
            chosen_worker: self.chosen_worker@,
            chosen_response: self.chosen_response@,
            selected_response: text_option_view(self.selected_response),
            reasoning: text_option_view(self.reasoning),
        }
    }
}

/// Why the selector stage has no choice.
#[derive(Clone, Copy, Debug, PartialEq, Eq, Structural)]
pub enum SelectorError {
    /// There was no successful worker answer to choose from.
    NoCandidates,
    /// The reply holds neither a choice in JSON nor a standalone index.
    Unparseable,
}

/// Where the first `{` at or after `i` stands; the length where there is none.
pub open spec fn first_open(s: Seq<char>, i: int) -> int
    decreases s.len() - i,
{
    if 0 <= i < s.len() && s[i] != '{' {
        first_open(s, i + 1)
    } else {
        i
    }
}

/// Where the object that is open at `i` ends: the index after the `}` that
/// brings the depth back to zero. Braces inside a string do not count, and
/// inside a string a backslash hides the character after it.
pub open spec fn object_end(s: Seq<char>, i: int, depth: nat, in_string: bool, escaped: bool)
    -> Option<int>
    decreases s.len() - i,
{
    if i < 0 || i >= s.len() {
        None
    } else if in_string {
        if escaped {
            object_end(s, i + 1, depth, true, false)
        } else if s[i] == '\\' {
            object_end(s, i + 1, depth, true, true)
        } else if s[i] == '"' {
            object_end(s, i + 1, depth, false, false)
        } else {
            object_end(s, i + 1, depth, true, false)
        }
    } else if s[i] == '"' {
        object_end(s, i + 1, depth, true, false)
    } else if s[i] == '{' {
        object_end(s, i + 1, depth + 1, false, false)
    } else if s[i] == '}' {
        if depth <= 1 {
            Some(i + 1)
        } else {
            object_end(s, i + 1, (depth - 1) as nat, false, false)
        }
    } else {
        object_end(s, i + 1, depth, false, false)
    }
}

/// The first balanced object in a text: from the first `{` to the `}` that
/// closes it.
pub open spec fn embedded_object(s: Seq<char>) -> Option<Seq<char>> {
    let a = first_open(s, 0);
    match object_end(s, a, 0, false, false) {
        Some(e) => Some(s.subrange(a, e)),
        None => None,
    }
}

/// Cuts the first balanced object out of a text.
pub fn find_embedded_object(text: &str) -> (r: Option<String>)
    ensures
        text_option_view(r) == embedded_object(text@),
{
    let v = chars_of(text);
    let mut a: usize = 0;
    while a < v.len() && v[a] != '{'
        invariant
            a <= v.len(),
            first_open(v@, 0) == first_open(v@, a as int),
        decreases v.len() - a,
    {
        a = a + 1;
    }
    let mut i: usize = a;
    let mut depth: usize = 0;
    let mut in_string = false;
    let mut escaped = false;
    while i < v.len()
        invariant
            a <= i <= v.len(),
            depth <= i - a,
            v@ == text@,
            escaped ==> in_string,
            first_open(v@, 0) == a,
            object_end(v@, a as int, 0, false, false) == object_end(
                v@,
                i as int,
                depth as nat,
                in_string,
                escaped,
            ),
        decreases v.len() - i,
    {
        let c = v[i];
        if in_string {
            if escaped {
                escaped = false;
            } else if c == '\\' {
                escaped = true;
            } else if c == '"' {
                in_string = false;
            }
        } else if c == '"' {
            in_string = true;
        } else if c == '{' {
            depth = depth + 1;
        } else if c == '}' {
            if depth <= 1 {
                let r = string_of_range(&v, a, i + 1);
                return Some(r);
            }
            depth = depth - 1;
        }
        i = i + 1;
    }
    None
}

/// The index that a text writes: digits only, from 1 to `n`, below
/// `INDEX_LIMIT`.
pub open spec fn index_of_text(t: Seq<char>, n: int) -> Option<int> {
    if t.len() > 0 && scan_digits(t, 0) == t.len() && 1 <= digits_value(t) <= n && digits_value(t)
        < INDEX_LIMIT {
        Some(digits_value(t) as int)
    } else {
        None
    }
}

/// The index that a tree node gives: a number or a string that writes one.
pub open spec fn index_of_value(v: JsonValue, n: int) -> Option<int> {
    match v {
        JsonValue::Number(t) => index_of_text(t, n),
        JsonValue::Text(t) => index_of_text(trim(t), n),
        _ => None,
    }
}

/// What a search accepts under a name.
#[derive(Clone, Copy, Debug, PartialEq, Eq, Structural)]
pub enum Want {
    /// An index from 1 to the given number.
    Index(usize),
    /// Any string.
    Text,
}

pub open spec fn accepted(v: JsonValue, want: Want) -> bool {
    match want {
        Want::Index(n) => index_of_value(v, n as int) is Some,
        Want::Text => v is Text,
    }
}

/// The member under the first of the first `k` names that holds an accepted
/// value.
pub open spec fn alias_hit(j: JsonValue, aliases: Seq<Seq<char>>, k: nat, want: Want) -> Option<
    JsonValue,
>
    decreases k,
{
    if k == 0 || k > aliases.len() {
        None
    } else {
        match alias_hit(j, aliases, (k - 1) as nat, want) {
            Some(v) => Some(v),
            None => match field(j, aliases[k - 1]) {
                Some(v) => if accepted(v, want) {
                    Some(v)
                } else {
                    None
                },
                None => None,
            },
        }
    }
}

/// Searches a tree for an accepted value under one of the names: first the
/// members of the node itself, the names in their order; then the nodes
/// below it, in their order, each searched in the same way.
pub open spec fn find_member(j: JsonValue, aliases: Seq<Seq<char>>, want: Want) -> Option<
    JsonValue,
>
    decreases j, 0nat,
{
    match j {
        JsonValue::Object(members) => match alias_hit(j, aliases, aliases.len(), want) {
            Some(v) => Some(v),
            None => find_in_members(members, members.len(), aliases, want),
        },
        JsonValue::Array(items) => find_in_items(items, items.len(), aliases, want),
        _ => None,
    }
}

pub open spec fn find_in_members(
    members: Seq<(Seq<char>, JsonValue)>,
    k: nat,
    aliases: Seq<Seq<char>>,
    want: Want,
) -> Option<JsonValue>
    decreases members, k,
{
    if k == 0 || k > members.len() {
        None
    } else {
        match find_in_members(members, (k - 1) as nat, aliases, want) {
            Some(v) => Some(v),
            None => find_member(members[k - 1].1, aliases, want),
        }
    }
}

pub open spec fn find_in_items(items: Seq<JsonValue>, k: nat, aliases: Seq<Seq<char>>, want: Want)
    -> Option<JsonValue>
    decreases items, k,
{
    if k == 0 || k > items.len() {
        None
    } else {
        match find_in_items(items, (k - 1) as nat, aliases, want) {
            Some(v) => Some(v),
            None => find_member(items[k - 1], aliases, want),
        }
    }
}

proof fn lemma_alias_hit_stable(j: JsonValue, aliases: Seq<Seq<char>>, k: nat, n: nat, want: Want)
    requires
        k <= n <= aliases.len(),
        alias_hit(j, aliases, k, want) is Some,
    ensures
        alias_hit(j, aliases, n, want) == alias_hit(j, aliases, k, want),
    decreases n,
{
    if k < n {
        lemma_alias_hit_stable(j, aliases, k, (n - 1) as nat, want);
    }
}

proof fn lemma_members_hit_stable(
    members: Seq<(Seq<char>, JsonValue)>,
    k: nat,
    n: nat,
    aliases: Seq<Seq<char>>,
    want: Want,
)
    requires
        k <= n <= members.len(),
        find_in_members(members, k, aliases, want) is Some,
    ensures
        find_in_members(members, n, aliases, want) == find_in_members(members, k, aliases, want),
    decreases n,
{
    if k < n {
        lemma_members_hit_stable(members, k, (n - 1) as nat, aliases, want);
    }
}

proof fn lemma_items_hit_stable(
    items: Seq<JsonValue>,
    k: nat,
    n: nat,
    aliases: Seq<Seq<char>>,
    want: Want,
)
    requires
        k <= n <= items.len(),
        find_in_items(items, k, aliases, want) is Some,
    ensures
        find_in_items(items, n, aliases, want) == find_in_items(items, k, aliases, want),
    decreases n,
{
    if k < n {
        lemma_items_hit_stable(items, k, (n - 1) as nat, aliases, want);
    }
}

pub open spec fn alias_views(aliases: Seq<String>) -> Seq<Seq<char>> {
    Seq::new(aliases.len(), |i: int| aliases[i]@)
}

/// Reads the digits of `v` as a whole; `None` where `v` is empty, holds
/// anything else, or writes `INDEX_LIMIT` or more.
fn read_index(v: &Vec<char>, n: usize) -> (r: Option<usize>)
    ensures
        match r {
            Some(i) => index_of_text(v@, n as int) == Some(i as int),
            None => index_of_text(v@, n as int) is None,
        },
{
    if v.len() == 0 {
        return None;
    }
    let mut i: usize = 0;
    let mut acc: u64 = 0;
    assert(v@.subrange(0, 0) =~= Seq::<char>::empty());
    while i < v.len()
        invariant
            i <= v.len(),
            forall|k: int| 0 <= k < i ==> is_digit(#[trigger] v@[k]),
            acc == clamp(
                digits_value(v@.subrange(0, i as int)) as int,
                0,
                INDEX_LIMIT as int,
            ),
        decreases v.len() - i,
    {
        if !('0' <= v[i] && v[i] <= '9') {
            proof {
                lemma_scan_digits(v@, 0, i as int);
            }
            return None;
        }
        let d: u64 = (v[i] as u32 - '0' as u32) as u64;
        proof {
            let next = v@.subrange(0, i + 1);
            assert(next.drop_last() =~= v@.subrange(0, i as int));
            assert(next.last() == v@[i as int]);
        }
        let grown: u64 = acc * 10 + d;
        acc = if grown > INDEX_LIMIT {
            INDEX_LIMIT
        } else {
            grown
        };
        i = i + 1;
    }
    proof {
        lemma_scan_digits(v@, 0, v@.len() as int);
        assert(v@.subrange(0, v@.len() as int) =~= v@);
    }
    if 1 <= acc && acc < INDEX_LIMIT && acc <= n as u64 {
        Some(acc as usize)
    } else {
        None
    }
}

fn index_of_node(j: &Json, n: usize) -> (r: Option<usize>)
    ensures
        match r {
            Some(i) => index_of_value(j@, n as int) == Some(i as int),
            None => index_of_value(j@, n as int) is None,
        },
{
    match j {
        Json::Number(t) => {
            let v = chars_of(t.as_str());
            read_index(&v, n)
        },
        Json::Text(t) => {
            let v = chars_of(t.as_str());
            let w = trim_chars(&v);
            read_index(&w, n)
        },
        _ => None,
    }
}

fn is_accepted(j: &Json, want: Want) -> (r: bool)
    ensures
        r == accepted(j@, want),
{
    match want {
        Want::Index(n) => index_of_node(j, n).is_some(),
        Want::Text => match j {
            Json::Text(_) => true,
            _ => false,
        },
    }
}

pub open spec fn node_option_view(r: Option<&Json>) -> Option<JsonValue> {
    match r {
        Some(x) => Some(x@),
        None => None,
    }
}

/// Searches a tree for an accepted value under one of the names.
#[verifier::loop_isolation(false)]
pub fn search<'a>(j: &'a Json, aliases: &Vec<String>, want: Want) -> (r: Option<&'a Json>)
    ensures
        node_option_view(r) == find_member(j@, alias_views(aliases@), want),
    decreases j,
{
    let ghost names = alias_views(aliases@);
    match j {
        Json::Object(members) => {
            proof {
                lemma_object_view(*members);
            }
            let ghost mv = member_views(members@);
            let mut a: usize = 0;
            while a < aliases.len()
                invariant
                    a <= aliases.len(),
                    alias_hit(j@, names, a as nat, want) is None,
                decreases aliases.len() - a,
            {
                assert(names[a as int] == aliases@[a as int]@);
                match j.get(aliases[a].as_str()) {
                    Some(x) => {
                        if is_accepted(x, want) {
                            proof {
                                lemma_alias_hit_stable(j@, names, (a + 1) as nat, names.len(), want);
                            }
                            return Some(x);
                        }
                    },
                    None => {},
                }
                a = a + 1;
            }
            let mut i: usize = 0;
            while i < members.len()
                invariant
                    i <= members.len(),
                    find_in_members(mv, i as nat, names, want) is None,
                decreases members.len() - i,
            {
                proof {
                    assert(decreases_to!(j => j->Object_0));
                    assert(decreases_to!(j->Object_0 => members@));
                    assert(decreases_to!(members@ => members@[i as int]));
                    assert(decreases_to!(members@[i as int] => members@[i as int].1));
                    assert(mv[i as int].1 == members@[i as int].1@);
                }
                match search(&members[i].1, aliases, want) {
                    Some(x) => {
                        proof {
                            lemma_members_hit_stable(mv, (i + 1) as nat, mv.len(), names, want);
                        }
                        return Some(x);
                    },
                    None => {},
                }
                i = i + 1;
            }
            None
        },
        Json::Array(items) => {
            proof {
                lemma_array_view(*items);
            }
            let ghost iv = views(items@);
            let mut i: usize = 0;
            while i < items.len()
                invariant
                    i <= items.len(),
                    find_in_items(iv, i as nat, names, want) is None,
                decreases items.len() - i,
            {
                proof {
                    assert(decreases_to!(j => j->Array_0));
                    assert(decreases_to!(j->Array_0 => items@));
                    assert(decreases_to!(items@ => items@[i as int]));
                    assert(iv[i as int] == items@[i as int]@);
                }
                match search(&items[i], aliases, want) {
                    Some(x) => {
                        proof {
                            lemma_items_hit_stable(iv, (i + 1) as nat, iv.len(), names, want);
                        }
                        return Some(x);
                    },
                    None => {},
                }
                i = i + 1;
            }
            None
        },
        _ => None,
    }
}


/// A letter of ASCII or an underscore: what may not touch a standalone
/// number.
pub open spec fn is_word(c: char) -> bool {
    ('a' <= c <= 'z') || ('A' <= c <= 'Z') || c == '_'
}

pub proof fn lemma_scan_bounds(s: Seq<char>, i: int)
    requires
        0 <= i <= s.len(),
    ensures
        i <= scan_digits(s, i) <= s.len(),
        i < s.len() && is_digit(s[i]) ==> i < scan_digits(s, i),
    decreases s.len() - i,
{
    if i < s.len() && is_digit(s[i]) {
        lemma_scan_bounds(s, i + 1);
    }
}

/// The first standalone number at or after `i` that lies from 1 to `n`
/// and below `INDEX_LIMIT`. A number is a whole run of digits; it stands
/// alone where no letter and no underscore touches it.
pub open spec fn first_standalone(s: Seq<char>, i: int, n: int) -> Option<int>
    decreases s.len() - i,
{
    if i < 0 || i >= s.len() {
        None
    } else if is_digit(s[i]) {
        let e = scan_digits(s, i);
        let value = digits_value(s.subrange(i, e));
        let alone = (i == 0 || !is_word(s[i - 1])) && (e == s.len() || !is_word(s[e]));
        if alone && 1 <= value <= n && value < INDEX_LIMIT {
            Some(value as int)
        } else {
            proof {
                lemma_scan_bounds(s, i);
            }
            first_standalone(s, e, n)
        }
    } else {
        first_standalone(s, i + 1, n)
    }
}

fn is_word_char(c: char) -> (r: bool)
    ensures
        r == is_word(c),
{
    ('a' <= c && c <= 'z') || ('A' <= c && c <= 'Z') || c == '_'
}

/// Scans a text for the first standalone number from 1 to `n`.
pub fn find_standalone(v: &Vec<char>, n: usize) -> (r: Option<usize>)
    ensures
        match r {
            Some(i) => first_standalone(v@, 0, n as int) == Some(i as int),
            None => first_standalone(v@, 0, n as int) is None,
        },
{
    let mut i: usize = 0;
    while i < v.len()
        invariant
            i <= v.len(),
            first_standalone(v@, 0, n as int) == first_standalone(v@, i as int, n as int),
        decreases v.len() - i,
    {
        if '0' <= v[i] && v[i] <= '9' {
            let (e, value) = read_digits(v, i, INDEX_LIMIT);
            proof {
                lemma_scan_bounds(v@, i as int);
            }
            let alone = (i == 0 || !is_word_char(v[i - 1])) && (e == v.len() || !is_word_char(
                v[e],
            ));
            if alone && 1 <= value && value < INDEX_LIMIT && value <= n as u64 {
                return Some(value as usize);
            }
            i = e;
        } else {
            i = i + 1;
        }
    }
    None
}

pub struct CandidateView {
    pub name: Seq<char>,
    pub response: Seq<char>,
}

impl View for Candidate {
    type V = CandidateView;

    open spec fn view(&self) -> CandidateView {
        CandidateView { name: self.name@, response: self.response@ }
    }
}

pub open spec fn candidate_views(cs: Seq<Candidate>) -> Seq<CandidateView> {
    Seq::new(cs.len(), |i: int| cs[i]@)
}

/// The names under which a reply may give its index, in the order in which
/// they are tried.
pub open spec fn index_aliases() -> Seq<Seq<char>> {
    seq!["selected_index"@, "index"@, "choice"@, "selected"@, "best_index"@, "best"@]
}

/// The names under which a reply may give its reasons.
pub open spec fn reasoning_aliases() -> Seq<Seq<char>> {
    seq!["reasoning"@, "reason"@, "rationale"@, "explanation"@]
}

/// The names under which a reply may give an answer text of its own.
pub open spec fn response_aliases() -> Seq<Seq<char>> {
    seq!["selected_response"@, "response"@, "answer"@]
}

fn make_index_aliases() -> (r: Vec<String>)
    ensures
        alias_views(r@) == index_aliases(),
{
    let mut r: Vec<String> = Vec::new();
    r.push("selected_index".to_owned());
    r.push("index".to_owned());
    r.push("choice".to_owned());
    r.push("selected".to_owned());
    r.push("best_index".to_owned());
    r.push("best".to_owned());
    assert(alias_views(r@) =~= index_aliases());
    r
}

fn make_reasoning_aliases() -> (r: Vec<String>)
    ensures
        alias_views(r@) == reasoning_aliases(),
{
    let mut r: Vec<String> = Vec::new();
    r.push("reasoning".to_owned());
    r.push("reason".to_owned());
    r.push("rationale".to_owned());
    r.push("explanation".to_owned());
    assert(alias_views(r@) =~= reasoning_aliases());
    r
}

fn make_response_aliases() -> (r: Vec<String>)
    ensures
        alias_views(r@) == response_aliases(),
{
    let mut r: Vec<String> = Vec::new();
    r.push("selected_response".to_owned());
    r.push("response".to_owned());
    r.push("answer".to_owned());
    assert(alias_views(r@) =~= response_aliases());
    r
}

/// The index that the object of a reply gives for `n` candidates.
pub open spec fn json_index(object: Option<JsonValue>, n: usize) -> Option<int> {
    match object {
        Some(j) => match find_member(j, index_aliases(), Want::Index(n)) {
            Some(v) => index_of_value(v, n as int),
            None => None,
        },
        None => None,
    }
}

/// The string that a tree holds under one of the names.
pub open spec fn found_text(j: JsonValue, aliases: Seq<Seq<char>>) -> Option<Seq<char>> {
    match find_member(j, aliases, Want::Text) {
        Some(JsonValue::Text(t)) => Some(t),
        _ => None,
    }
}

/// The choice that a reply makes among the candidates.
///
/// `object` is the first balanced object of the reply, read as JSON, where
/// there is one. An index in it decides; else the first standalone number
/// of the reply that names a candidate decides, and the trimmed reply
/// stands as the reasoning; else there is no choice.
pub open spec fn selection(reply: Seq<char>, object: Option<JsonValue>, cs: Seq<CandidateView>)
    -> Result<ChoiceView, SelectorError> {
    if cs.len() == 0 {
        Err(SelectorError::NoCandidates)
    } else {
        match json_index(object, cs.len() as usize) {
            Some(i) => Ok(
                ChoiceView {
                    index: i,
                    chosen_worker: cs[i - 1].name,
                    chosen_response: cs[i - 1].response,
                    selected_response: found_text(object->0, response_aliases()),
                    reasoning: found_text(object->0, reasoning_aliases()),
                },
            ),
            None => match first_standalone(reply, 0, cs.len() as int) {
                Some(i) => Ok(
                    ChoiceView {
                        index: i,
                        chosen_worker: cs[i - 1].name,
                        chosen_response: cs[i - 1].response,
                        selected_response: None,
                        reasoning: Some(trim(reply)),
                    },
                ),
                None => Err(SelectorError::Unparseable),
            },
        }
    }
}

pub open spec fn choice_result_view(r: Result<SelectorChoice, SelectorError>) -> Result<
    ChoiceView,
    SelectorError,
> {
    match r {
        Ok(c) => Ok(c@),
        Err(e) => Err(e),
    }
}

fn search_text(j: &Json, aliases: &Vec<String>) -> (r: Option<String>)
    ensures
        text_option_view(r) == found_text(j@, alias_views(aliases@)),
{
    match search(j, aliases, Want::Text) {
        Some(Json::Text(t)) => Some(t.clone()),
        _ => None,
    }
}

/// Reads the choice out of a reply whose first balanced object has been
/// read as JSON already.
pub fn select_from_reply(reply: &str, object: Option<&Json>, candidates: &Vec<Candidate>) -> (r: Result<
    SelectorChoice,
    SelectorError,
>)
    ensures
        choice_result_view(r) == selection(
            reply@,
            node_option_view(object),
            candidate_views(candidates@),
        ),
{
    let n = candidates.len();
    if n == 0 {
        return Err(SelectorError::NoCandidates);
    }
    let ghost cs = candidate_views(candidates@);
    if let Some(j) = object {
        let names = make_index_aliases();
        if let Some(v) = search(j, &names, Want::Index(n)) {
            if let Some(i) = index_of_node(v, n) {
                assert(cs[i - 1] == candidates@[i - 1]@);
                return Ok(
                    SelectorChoice {
                        index: i,
                        chosen_worker: candidates[i - 1].name.clone(),
                        chosen_response: candidates[i - 1].response.clone(),
                        selected_response: search_text(j, &make_response_aliases()),
                        reasoning: search_text(j, &make_reasoning_aliases()),
                    },
                );
            }
        }
    }
    let v = chars_of(reply);
    match find_standalone(&v, n) {
        Some(i) => {
            proof {
                lemma_standalone_range(v@, 0, n as int);
                assert(cs[i - 1] == candidates@[i - 1]@);
            }
            let trimmed = trim_chars(&v);
            Ok(
                SelectorChoice {
                    index: i,
                    chosen_worker: candidates[i - 1].name.clone(),
                    chosen_response: candidates[i - 1].response.clone(),
                    selected_response: None,
                    reasoning: Some(string_of(&trimmed)),
                },
            )
        },
        None => Err(SelectorError::Unparseable),
    }
}

/// A standalone number that is found names a candidate.
pub proof fn lemma_standalone_range(s: Seq<char>, i: int, n: int)
    requires
        0 <= i,
    ensures
        first_standalone(s, i, n) matches Some(k) ==> 1 <= k <= n,
    decreases s.len() - i,
{
    if i < s.len() {
        if is_digit(s[i]) {
            lemma_scan_bounds(s, i);
            lemma_standalone_range(s, scan_digits(s, i), n);
        } else {
            lemma_standalone_range(s, i + 1, n);
        }
    }
}

/// The first balanced object of a reply, read as JSON.
pub open spec fn reply_object(reply: Seq<char>) -> Option<JsonValue> {
    match embedded_object(reply) {
        Some(slice) => parsed_json(slice),
        None => None,
    }
}

/// Reads the first balanced object of a reply as JSON.
pub fn read_reply_object(reply: &str) -> (r: Option<Json>)
    ensures
        match r {
            Some(j) => reply_object(reply@) == Some(j@),
            None => reply_object(reply@) is None,
        },
{
    match find_embedded_object(reply) {
        Some(slice) => parse_json(slice.as_str()),
        None => None,
    }
}

/// Reads the selector's reply into a choice among the candidates.
pub fn parse_selection(reply: &str, candidates: &Vec<Candidate>) -> (r: Result<
    SelectorChoice,
    SelectorError,
>)
    ensures
        choice_result_view(r) == selection(
            reply@,
            reply_object(reply@),
            candidate_views(candidates@),
        ),
{
    let object = read_reply_object(reply);
    match &object {
        Some(j) => select_from_reply(reply, Some(j), candidates),
        None => select_from_reply(reply, None, candidates),
    }
}

/// The three cases of reading a reply. An index that the object gives is
/// the choice. Without one, the first standalone number that names a
/// candidate is the choice. Without either, reading fails.
pub proof fn law_selection_cases(reply: Seq<char>, object: Option<JsonValue>, cs: Seq<CandidateView>)
    requires
        0 < cs.len() <= usize::MAX,
    ensures
        json_index(object, cs.len() as usize) matches Some(i) ==> selection(reply, object, cs) is Ok
            && selection(reply, object, cs)->Ok_0.index == i && 1 <= i <= cs.len(),
        json_index(object, cs.len() as usize) is None ==> (first_standalone(
            reply,
            0,
            cs.len() as int,
        ) matches Some(i) ==> selection(reply, object, cs) is Ok && selection(
            reply,
            object,
            cs,
        )->Ok_0.index == i && 1 <= i <= cs.len()),
        json_index(object, cs.len() as usize) is None && first_standalone(
            reply,
            0,
            cs.len() as int,
        ) is None ==> selection(reply, object, cs) == Err::<ChoiceView, SelectorError>(
            SelectorError::Unparseable,
        ),
{
    lemma_standalone_range(reply, 0, cs.len() as int);
}

/// An object that holds a valid index under one of the names gives an
/// index: the one under the first name, in the order of the names, that holds
/// a valid one.
pub proof fn law_alias_is_found(j: JsonValue, aliases: Seq<Seq<char>>, k: int, want: Want)
    requires
        j is Object,
        0 <= k < aliases.len(),
        field(j, aliases[k]) is Some,
        accepted(field(j, aliases[k])->0, want),
        forall|e: int|
            0 <= e < k ==> !(field(j, #[trigger] aliases[e]) is Some && accepted(
                field(j, aliases[e])->0,
                want,
            )),
    ensures
        find_member(j, aliases, want) == field(j, aliases[k]),
{
    lemma_alias_misses(j, aliases, k as nat, want);
    lemma_alias_hit_stable(j, aliases, (k + 1) as nat, aliases.len(), want);
}

proof fn lemma_alias_misses(j: JsonValue, aliases: Seq<Seq<char>>, k: nat, want: Want)
    requires
        k <= aliases.len(),
        forall|e: int|
            0 <= e < k ==> !(field(j, #[trigger] aliases[e]) is Some && accepted(
                field(j, aliases[e])->0,
                want,
            )),
    ensures
        alias_hit(j, aliases, k, want) is None,
    decreases k,
{
    if k > 0 {
        lemma_alias_misses(j, aliases, (k - 1) as nat, want);
    }
}

/// The lines that list the first `k` candidates, numbered from 1.
pub open spec fn candidate_lines(cs: Seq<CandidateView>, k: nat) -> Seq<char>
    decreases k,
{
    if k == 0 || k > cs.len() {
        Seq::empty()
    } else {
        candidate_lines(cs, (k - 1) as nat) + "\n\n["@ + decimal(k) + "] "@ + cs[k - 1].name
            + ":\n"@ + cs[k - 1].response
    }
}

/// The prompt that asks a model to pick one of the candidates.
pub open spec fn selector_prompt_text(prompt: Seq<char>, cs: Seq<CandidateView>) -> Seq<char> {
    "You are judging candidate answers to a question. Pick the single best candidate.\n\nQuestion:\n"@
        + prompt + "\n\nCandidates:"@ + candidate_lines(cs, cs.len())
        + "\n\nReply with one JSON object with the fields `selected_index` (a number from 1 to "@
        + decimal(cs.len()) + "), `selected_worker`, optionally `selected_response`, and `reasoning`."@
}

/// Builds the prompt that asks a model to pick one of the candidates.
pub fn selector_prompt(prompt: &str, candidates: &Vec<Candidate>) -> (s: String)
    ensures
        s@ == selector_prompt_text(prompt@, candidate_views(candidates@)),
{
    let ghost cs = candidate_views(candidates@);
    let mut out: Vec<char> = Vec::new();
    push_str(
        &mut out,
        "You are judging candidate answers to a question. Pick the single best candidate.\n\nQuestion:\n",
    );
    push_str(&mut out, prompt);
    push_str(&mut out, "\n\nCandidates:");
    let ghost head = out@;
    let mut i: usize = 0;
    assert(out@ =~= head + candidate_lines(cs, 0));
    while i < candidates.len()
        invariant
            i <= candidates.len(),
            cs == candidate_views(candidates@),
            out@ == head + candidate_lines(cs, i as nat),
        decreases candidates.len() - i,
    {
        let ghost before = out@;
        push_str(&mut out, "\n\n[");
        push_decimal(&mut out, (i + 1) as u64);
        push_str(&mut out, "] ");
        let name = chars_of(candidates[i].name.as_str());
        push_chars(&mut out, &name);
        push_str(&mut out, ":\n");
        let response = chars_of(candidates[i].response.as_str());
        push_chars(&mut out, &response);
        proof {
            assert(cs[i as int] == candidates@[i as int]@);
            assert(out@ =~= head + candidate_lines(cs, (i + 1) as nat));
        }
        i = i + 1;
    }
    push_str(
        &mut out,
        "\n\nReply with one JSON object with the fields `selected_index` (a number from 1 to ",
    );
    push_decimal(&mut out, candidates.len() as u64);
    push_str(&mut out, "), `selected_worker`, optionally `selected_response`, and `reasoning`.");
    assert(out@ =~= selector_prompt_text(prompt@, cs));
    string_of(&out)
}

} // verus!

//! Sampling temperatures and the rules that pick one for each role.
//!
//! A temperature is held in thousandths, so `1.4` is `1400`.

use crate::text::{chars_of, decimal, digit_char, digit_value, is_digit, push_decimal, string_of};
use vstd::prelude::*;

verus! {

/// A sampling temperature, in thousandths.
#[derive(Clone, Copy, Debug, PartialEq, Eq, Structural)]
pub struct Temperature {
    pub millis: u32,
}

/// The temperature used where nothing else decides: 1.4.
pub const DEFAULT_MILLIS: u32 = 1400;

/// The highest temperature that a model's reply can ask for: 2.0.
pub const MAX_REPLY_MILLIS: u32 = 2000;

/// The magnitude beyond which a parsed decimal is cut off; every `u32` lies
/// below it.
pub const MILLIS_LIMIT: i64 = 4_294_967_296;

impl Temperature {
    pub open spec fn default_value() -> Temperature {
        Temperature { millis: DEFAULT_MILLIS }
    }

    /// 1.4, the temperature used where nothing else decides.
    pub fn fallback() -> (t: Temperature)
        ensures
            t == Temperature::default_value(),
    {
        Temperature { millis: DEFAULT_MILLIS }
    }
}

/// The first index at or after `i` that holds no digit.
pub open spec fn scan_digits(s: Seq<char>, i: int) -> int
    decreases s.len() - i,
{
    if 0 <= i < s.len() && is_digit(s[i]) {
        scan_digits(s, i + 1)
    } else {
        i
    }
}

/// The number that a sequence of digits writes.
pub open spec fn digits_value(ds: Seq<char>) -> nat
    decreases ds.len(),
{
    if ds.len() == 0 {
        0
    } else {
        (digits_value(ds.drop_last()) * 10 + digit_value(ds.last())) as nat
    }
}

/// The digit at `i`, zero where there is none.
pub open spec fn digit_or_zero(ds: Seq<char>, i: int) -> int {
    if 0 <= i < ds.len() {
        digit_value(ds[i])
    } else {
        0
    }
}

/// The first three digits of a fraction, as thousandths.
pub open spec fn thousandths(frac: Seq<char>) -> int {
    digit_or_zero(frac, 0) * 100 + digit_or_zero(frac, 1) * 10 + digit_or_zero(frac, 2)
}

/// The value of a decimal numeral in thousandths, cut off towards zero.
///
/// The numeral is an optional sign, digits, and optionally a point and more
/// digits; there is at least one digit, and nothing stands before or after.
pub open spec fn decimal_millis(s: Seq<char>) -> Option<int> {
    let signed = s.len() > 0 && (s[0] == '-' || s[0] == '+');
    let start: int = if signed {
        1
    } else {
        0
    };
    let int_end = scan_digits(s, start);
    let has_point = int_end < s.len() && s[int_end] == '.';
    let frac_start = if has_point {
        int_end + 1
    } else {
        int_end
    };
    let frac_end = scan_digits(s, frac_start);
    if frac_end != s.len() || (int_end - start) + (frac_end - frac_start) == 0 {
        None
    } else {
        let magnitude = digits_value(s.subrange(start, int_end)) * 1000 + thousandths(
            s.subrange(frac_start, frac_end),
        );
        Some(
            if s[0] == '-' {
                -magnitude
            } else {
                magnitude
            },
        )
    }
}

pub open spec fn clamp(v: int, low: int, high: int) -> int {
    if v < low {
        low
    } else if v > high {
        high
    } else {
        v
    }
}

pub proof fn lemma_scan_digits(s: Seq<char>, from: int, to: int)
    requires
        0 <= from <= to <= s.len(),
        forall|k: int| from <= k < to ==> is_digit(#[trigger] s[k]),
        to == s.len() || !is_digit(s[to]),
    ensures
        scan_digits(s, from) == to,
    decreases to - from,
{
    if from < to {
        lemma_scan_digits(s, from + 1, to);
    }
}

/// Reads the digits from `from` on; returns where they end and their value,
/// cut off at `cap`.
pub fn read_digits(v: &Vec<char>, from: usize, cap: u64) -> (r: (usize, u64))
    requires
        from <= v.len(),
        cap <= 1_000_000_000_000,
    ensures
        r.0 == scan_digits(v@, from as int),
        from <= r.0 <= v.len(),
        forall|k: int| from <= k < r.0 ==> is_digit(#[trigger] v@[k]),
        r.1 == clamp(digits_value(v@.subrange(from as int, r.0 as int)) as int, 0, cap as int),
{
    let mut i: usize = from;
    let mut acc: u64 = 0;
    assert(v@.subrange(from as int, from as int) =~= Seq::<char>::empty());
    while i < v.len() && '0' <= v[i] && v[i] <= '9'
        invariant
            from <= i <= v.len(),
            cap <= 1_000_000_000_000,
            forall|k: int| from <= k < i ==> is_digit(#[trigger] v@[k]),
            acc == clamp(digits_value(v@.subrange(from as int, i as int)) as int, 0, cap as int),
        decreases v.len() - i,
    {
        let d: u64 = (v[i] as u32 - '0' as u32) as u64;
        proof {
            let next = v@.subrange(from as int, i + 1);
            assert(next.drop_last() =~= v@.subrange(from as int, i as int));
            assert(next.last() == v@[i as int]);
        }
        let grown: u64 = acc * 10 + d;
        acc = if grown > cap {
            cap
        } else {
            grown
        };
        i = i + 1;
    }
    proof {
        lemma_scan_digits(v@, from as int, i as int);
    }
    (i, acc)
}

/// Reads a decimal numeral as thousandths, cut off at `MILLIS_LIMIT` on
/// either side of zero.
pub fn parse_millis(s: &str) -> (r: Option<i64>)
    ensures
        r == match decimal_millis(s@) {
            Some(m) => Some(clamp(m, -MILLIS_LIMIT as int, MILLIS_LIMIT as int) as i64),
            None => None,
        },
{
    let v = chars_of(s);
    let signed = v.len() > 0 && (v[0] == '-' || v[0] == '+');
    let start: usize = if signed {
        1
    } else {
        0
    };
    let (int_end, whole) = read_digits(&v, start, 4_294_968);
    let has_point = int_end < v.len() && v[int_end] == '.';
    let frac_start: usize = if has_point {
        int_end + 1
    } else {
        int_end
    };
    let (frac_end, _) = read_digits(&v, frac_start, 0);
    if frac_end != v.len() || (int_end - start) + (frac_end - frac_start) == 0 {
        return None;
    }
    let ghost frac = v@.subrange(frac_start as int, frac_end as int);
    let mut frac3: u64 = 0;
    let mut k: usize = 0;
    while k < 3
        invariant
            k <= 3,
            frac_start <= frac_end <= v.len(),
            frac == v@.subrange(frac_start as int, frac_end as int),
            forall|j: int| frac_start <= j < frac_end ==> is_digit(#[trigger] v@[j]),
            k == 0 ==> frac3 == 0,
            k == 1 ==> frac3 == digit_or_zero(frac, 0),
            k == 2 ==> frac3 == digit_or_zero(frac, 0) * 10 + digit_or_zero(frac, 1),
            k == 3 ==> frac3 == thousandths(frac),
        decreases 3 - k,
    {
        let d: u64 = if k < frac_end - frac_start {
            assert(frac[k as int] == v@[frac_start + k]);
            (v[frac_start + k] as u32 - '0' as u32) as u64
        } else {
            0
        };
        frac3 = frac3 * 10 + d;
        k = k + 1;
    }
    let total: u64 = whole * 1000 + frac3;
    let magnitude: i64 = if total > 4_294_967_296 {
        4_294_967_296
    } else {
        total as i64
    };
    if v[0] == '-' {
        Some(-magnitude)
    } else {
        Some(magnitude)
    }
}

/// The optional hints that a plan node or a model definition carries.
#[derive(Clone, Copy, Debug, PartialEq, Eq, Structural)]
pub struct TemperatureHints {
    pub temperature: Option<Temperature>,
    pub auto_temperature: Option<bool>,
}

/// The role that an upstream call plays in a plan.
#[derive(Clone, Copy, Debug, PartialEq, Eq, Structural)]
pub enum PlanRole {
    Analyzer,
    Worker,
    Selector,
    Synthesizer,
}

/// What the rules decide for one call.
#[derive(Clone, Copy, Debug, PartialEq, Eq, Structural)]
pub enum Resolution {
    /// The call uses this temperature.
    Fixed(Temperature),
    /// The analyzer model is asked for a temperature first.
    AskAnalyzer,
}

/// The explicit temperature of a call: the node's, else the model's.
pub open spec fn explicit_temperature(node: TemperatureHints, model: TemperatureHints) -> Option<
    Temperature,
> {
    match node.temperature {
        Some(t) => Some(t),
        None => model.temperature,
    }
}

/// Whether a worker follows the analyzer: the node's flag, else the model's,
/// else whether the analyzer itself ran in auto mode.
pub open spec fn worker_follows_analyzer(
    node: TemperatureHints,
    model: TemperatureHints,
    analyzer_auto: bool,
) -> bool {
    match node.auto_temperature {
        Some(flag) => flag,
        None => match model.auto_temperature {
            Some(flag) => flag,
            None => analyzer_auto,
        },
    }
}

/// The temperature rules, first match first.
pub open spec fn resolution(
    role: PlanRole,
    node: TemperatureHints,
    model: TemperatureHints,
    analyzer_temperature: Temperature,
    analyzer_auto: bool,
) -> Resolution {
    match explicit_temperature(node, model) {
        Some(t) => Resolution::Fixed(t),
        None => match role {
            PlanRole::Analyzer => if node.auto_temperature == Some(true) || model.auto_temperature
                == Some(true) {
                Resolution::AskAnalyzer
            } else {
                Resolution::Fixed(Temperature::default_value())
            },
            PlanRole::Worker => if worker_follows_analyzer(node, model, analyzer_auto) {
                Resolution::Fixed(analyzer_temperature)
            } else {
                Resolution::Fixed(Temperature::default_value())
            },
            PlanRole::Selector | PlanRole::Synthesizer => Resolution::Fixed(
                Temperature::default_value(),
            ),
        },
    }
}

/// Applies the temperature rules to one call.
///
/// `analyzer_temperature` and `analyzer_auto` are what the analyzer of the
/// same plan level resolved to; the rules read them for workers only.
pub fn resolve_temperature(
    role: PlanRole,
    node: &TemperatureHints,
    model: &TemperatureHints,
    analyzer_temperature: Temperature,
    analyzer_auto: bool,
) -> (r: Resolution)
    ensures
        r == resolution(role, *node, *model, analyzer_temperature, analyzer_auto),
{
    if let Some(t) = node.temperature {
        return Resolution::Fixed(t);
    }
    if let Some(t) = model.temperature {
        return Resolution::Fixed(t);
    }
    match role {
        PlanRole::Analyzer => {
            let node_auto = match node.auto_temperature {
                Some(flag) => flag,
                None => false,
            };
            let model_auto = match model.auto_temperature {
                Some(flag) => flag,
                None => false,
            };
            if node_auto || model_auto {
                Resolution::AskAnalyzer
            } else {
                Resolution::Fixed(Temperature::fallback())
            }
        },
        PlanRole::Worker => {
            let follows = match node.auto_temperature {
                Some(flag) => flag,
                None => match model.auto_temperature {
                    Some(flag) => flag,
                    None => analyzer_auto,
                },
            };
            if follows {
                Resolution::Fixed(analyzer_temperature)
            } else {
                Resolution::Fixed(Temperature::fallback())
            }
        },
        PlanRole::Selector => Resolution::Fixed(Temperature::fallback()),
        PlanRole::Synthesizer => Resolution::Fixed(Temperature::fallback()),
    }
}

/// An explicit temperature on the node decides every role, whatever the
/// model and the analyzer say.
pub proof fn law_node_temperature_wins(
    role: PlanRole,
    node: TemperatureHints,
    model: TemperatureHints,
    analyzer_temperature: Temperature,
    analyzer_auto: bool,
)
    requires
        node.temperature is Some,
    ensures
        resolution(role, node, model, analyzer_temperature, analyzer_auto) == Resolution::Fixed(
            node.temperature->0,
        ),
{
}

/// Where the node names no temperature, the model's default decides every
/// role, whatever the auto flags and the analyzer say.
pub proof fn law_model_temperature_beats_auto(
    role: PlanRole,
    node: TemperatureHints,
    model: TemperatureHints,
    analyzer_temperature: Temperature,
    analyzer_auto: bool,
)
    requires
        node.temperature is None,
        model.temperature is Some,
    ensures
        resolution(role, node, model, analyzer_temperature, analyzer_auto) == Resolution::Fixed(
            model.temperature->0,
        ),
{
}

/// Only the analyzer is ever asked, and a selector or synthesizer without an
/// explicit temperature runs at 1.4 whatever the auto flags say.
pub proof fn law_auto_paths(
    role: PlanRole,
    node: TemperatureHints,
    model: TemperatureHints,
    analyzer_temperature: Temperature,
    analyzer_auto: bool,
)
    ensures
        resolution(role, node, model, analyzer_temperature, analyzer_auto) == Resolution::AskAnalyzer
            ==> role == PlanRole::Analyzer,
        (role == PlanRole::Selector || role == PlanRole::Synthesizer) && explicit_temperature(
            node,
            model,
        ) is None ==> resolution(role, node, model, analyzer_temperature, analyzer_auto)
            == Resolution::Fixed(Temperature::default_value()),
        role == PlanRole::Worker && explicit_temperature(node, model) is None ==> resolution(
            role,
            node,
            model,
            analyzer_temperature,
            analyzer_auto,
        ) == Resolution::Fixed(
            if worker_follows_analyzer(node, model, analyzer_auto) {
                analyzer_temperature
            } else {
                Temperature::default_value()
            },
        ),
{
}


/// The digits that write a fraction of 1 to 999 thousandths, without
/// trailing zeros.
pub open spec fn fraction_digits(frac: int) -> Seq<char> {
    if frac % 100 == 0 {
        seq![digit_char(frac / 100)]
    } else if frac % 10 == 0 {
        seq![digit_char(frac / 100), digit_char((frac / 10) % 10)]
    } else {
        seq![digit_char(frac / 100), digit_char((frac / 10) % 10), digit_char(frac % 10)]
    }
}

/// The shortest decimal numeral of a number of thousandths: `1400` is
/// written `1.4`, `2000` is written `2`.
pub open spec fn millis_text(millis: nat) -> Seq<char> {
    if millis % 1000 == 0 {
        decimal(millis / 1000)
    } else {
        decimal(millis / 1000) + seq!['.'] + fraction_digits((millis % 1000) as int)
    }
}

impl Temperature {
    /// The shortest decimal numeral of this temperature.
    pub fn to_text(&self) -> (s: String)
        ensures
            s@ == millis_text(self.millis as nat),
    {
        let mut out: Vec<char> = Vec::new();
        push_decimal(&mut out, (self.millis / 1000) as u64);
        assert(out@ =~= decimal((self.millis / 1000) as nat));
        let frac: u32 = self.millis % 1000;
        if frac != 0 {
            out.push('.');
            out.push(((frac / 100) as u8 + 48) as char);
            if frac % 100 != 0 {
                out.push((((frac / 10) % 10) as u8 + 48) as char);
                if frac % 10 != 0 {
                    out.push(((frac % 10) as u8 + 48) as char);
                }
            }
            assert(out@ =~= millis_text(self.millis as nat));
        }
        string_of(&out)
    }
}

pub proof fn lemma_digits_value_push(ds: Seq<char>, c: char)
    requires
        is_digit(c),
    ensures
        digits_value(ds.push(c)) == digits_value(ds) * 10 + digit_value(c),
{
    assert(ds.push(c).drop_last() =~= ds);
    assert(ds.push(c).last() == c);
}

/// The numeral of `n` is made of digits, at least one, and writes `n`.
pub proof fn lemma_decimal(n: nat)
    ensures
        decimal(n).len() >= 1,
        forall|i: int| 0 <= i < decimal(n).len() ==> is_digit(#[trigger] decimal(n)[i]),
        digits_value(decimal(n)) == n,
    decreases n,
{
    if n < 10 {
        let c = digit_char(n as int);
        assert(is_digit(c));
        assert(digit_value(c) == n);
        assert(decimal(n) =~= Seq::<char>::empty().push(c));
        lemma_digits_value_push(Seq::<char>::empty(), c);
    } else {
        lemma_decimal(n / 10);
        let c = digit_char((n % 10) as int);
        assert(is_digit(c));
        assert(digit_value(c) == n % 10);
        lemma_digits_value_push(decimal(n / 10), c);
    }
}

/// A numeral that `millis_text` writes is read back as the same number.
pub proof fn law_millis_text_reads_back(millis: nat)
    ensures
        decimal_millis(millis_text(millis)) == Some(millis as int),
{
    let whole = millis / 1000;
    let frac = (millis % 1000) as int;
    let head = decimal(whole);
    let s = millis_text(millis);
    lemma_decimal(whole);
    assert(is_digit(head[0]));
    if frac == 0 {
        assert(s == head);
        lemma_scan_digits(s, 0, s.len() as int);
        assert(scan_digits(s, s.len() as int) == s.len());
        assert(s.subrange(0, s.len() as int) =~= head);
        assert(s.subrange(s.len() as int, s.len() as int) =~= Seq::<char>::empty());
    } else {
        let tail = fraction_digits(frac);
        assert(s =~= head + seq!['.'] + tail);
        let n = head.len() as int;
        assert(forall|k: int| 0 <= k < n ==> s[k] == head[k]);
        assert(s[n] == '.');
        lemma_scan_digits(s, 0, n);
        assert(is_digit(digit_char(frac / 100)));
        assert(is_digit(digit_char((frac / 10) % 10)));
        assert(is_digit(digit_char(frac % 10)));
        assert(forall|k: int| n + 1 <= k < s.len() ==> s[k] == tail[k - n - 1]);
        lemma_scan_digits(s, n + 1, s.len() as int);
        assert(s.subrange(0, n) =~= head);
        assert(s.subrange(n + 1, s.len() as int) =~= tail);
        assert(digit_value(digit_char(frac / 100)) == frac / 100);
        assert(digit_value(digit_char((frac / 10) % 10)) == (frac / 10) % 10);
        assert(digit_value(digit_char(frac % 10)) == frac % 10);
        assert(thousandths(tail) == frac);
    }
}

} // verus!

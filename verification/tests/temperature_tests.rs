use chorus::analyzer::{analyzer_prompt, temperature_from_parts, temperature_from_reply};
use chorus::json::parse_json;
use chorus::temperature::{
    parse_millis, resolve_temperature, PlanRole, Resolution, Temperature, TemperatureHints,
};

fn hints(temperature: Option<u32>, auto: Option<bool>) -> TemperatureHints {
    TemperatureHints {
        temperature: temperature.map(|millis| Temperature { millis }),
        auto_temperature: auto,
    }
}

fn fixed(millis: u32) -> Resolution {
    Resolution::Fixed(Temperature { millis })
}

#[test]
fn decimal_numerals_are_read_in_thousandths() {
    assert_eq!(parse_millis("0.65"), Some(650));
    assert_eq!(parse_millis("1.4"), Some(1400));
    assert_eq!(parse_millis("2"), Some(2000));
    assert_eq!(parse_millis("1.4999"), Some(1499));
    assert_eq!(parse_millis("0.0009"), Some(0));
    assert_eq!(parse_millis("5."), Some(5000));
    assert_eq!(parse_millis(".5"), Some(500));
    assert_eq!(parse_millis("+2.05"), Some(2050));
    assert_eq!(parse_millis("-0.5"), Some(-500));
    assert_eq!(parse_millis("007"), Some(7000));
}

#[test]
fn texts_that_are_no_numeral_are_refused() {
    for text in ["", ".", "-", "+", "1.2.3", "1e3", "abc", " 1", "1 ", "0x10", "1,5"] {
        assert_eq!(parse_millis(text), None, "{:?} should not be read", text);
    }
}

#[test]
fn huge_numerals_are_cut_off_at_the_limit() {
    assert_eq!(parse_millis("4294967.295"), Some(4_294_967_295));
    assert_eq!(parse_millis("4294967.296"), Some(4_294_967_296));
    assert_eq!(parse_millis("99999999999999999999999999"), Some(4_294_967_296));
    assert_eq!(parse_millis("-99999999999999999999999999"), Some(-4_294_967_296));
}

#[test]
fn temperature_text_is_the_shortest_numeral() {
    let text = |millis: u32| Temperature { millis }.to_text();
    assert_eq!(text(1400), "1.4");
    assert_eq!(text(2000), "2");
    assert_eq!(text(650), "0.65");
    assert_eq!(text(5), "0.005");
    assert_eq!(text(1050), "1.05");
    assert_eq!(text(0), "0");
    assert_eq!(text(u32::MAX), "4294967.295");
}

#[test]
fn temperature_text_reads_back() {
    for millis in [0u32, 1, 10, 100, 999, 1000, 1001, 1400, 2000, 123_456, u32::MAX] {
        let text = Temperature { millis }.to_text();
        assert_eq!(parse_millis(&text), Some(millis as i64), "through {:?}", text);
    }
}

#[test]
fn node_temperature_wins_for_every_role() {
    for role in [PlanRole::Analyzer, PlanRole::Worker, PlanRole::Selector, PlanRole::Synthesizer] {
        let r = resolve_temperature(
            role,
            &hints(Some(300), Some(true)),
            &hints(Some(900), Some(true)),
            Temperature { millis: 1700 },
            true,
        );
        assert_eq!(r, fixed(300));
    }
}

#[test]
fn model_default_wins_over_any_auto_path() {
    for role in [PlanRole::Analyzer, PlanRole::Worker, PlanRole::Selector, PlanRole::Synthesizer] {
        let r = resolve_temperature(
            role,
            &hints(None, Some(true)),
            &hints(Some(900), Some(true)),
            Temperature { millis: 1700 },
            true,
        );
        assert_eq!(r, fixed(900));
    }
}

#[test]
fn analyzer_asks_only_when_a_flag_is_set() {
    let t = Temperature { millis: 1700 };
    let ask = |node, model| resolve_temperature(PlanRole::Analyzer, &node, &model, t, false);
    assert_eq!(ask(hints(None, Some(true)), hints(None, None)), Resolution::AskAnalyzer);
    assert_eq!(ask(hints(None, None), hints(None, Some(true))), Resolution::AskAnalyzer);
    assert_eq!(ask(hints(None, Some(false)), hints(None, Some(true))), Resolution::AskAnalyzer);
    assert_eq!(ask(hints(None, None), hints(None, None)), fixed(1400));
    assert_eq!(ask(hints(None, Some(false)), hints(None, Some(false))), fixed(1400));
}

#[test]
fn worker_auto_decision_falls_through_node_model_analyzer() {
    let t = Temperature { millis: 650 };
    let w = |node, model, analyzer_auto| {
        resolve_temperature(PlanRole::Worker, &node, &model, t, analyzer_auto)
    };
    assert_eq!(w(hints(None, Some(true)), hints(None, Some(false)), false), fixed(650));
    assert_eq!(w(hints(None, Some(false)), hints(None, Some(true)), true), fixed(1400));
    assert_eq!(w(hints(None, None), hints(None, Some(true)), false), fixed(650));
    assert_eq!(w(hints(None, None), hints(None, Some(false)), true), fixed(1400));
    assert_eq!(w(hints(None, None), hints(None, None), true), fixed(650));
    assert_eq!(w(hints(None, None), hints(None, None), false), fixed(1400));
}

#[test]
fn selector_and_synthesizer_never_follow_the_analyzer() {
    for role in [PlanRole::Selector, PlanRole::Synthesizer] {
        let r = resolve_temperature(
            role,
            &hints(None, Some(true)),
            &hints(None, Some(true)),
            Temperature { millis: 650 },
            true,
        );
        assert_eq!(r, fixed(1400));
    }
}

#[test]
fn reply_temperature_accepts_number_and_quoted_string() {
    assert_eq!(temperature_from_reply("{\"temperature\": 0.65}").millis, 650);
    assert_eq!(temperature_from_reply("{\"temperature\":\"0.65\"}").millis, 650);
    assert_eq!(temperature_from_reply("{\"temperature\":\" 1.1 \"}").millis, 1100);
    assert_eq!(
        temperature_from_reply("Sure! {\"reasoning\":\"a {brace}\",\"temperature\":1} bye").millis,
        1000
    );
}

#[test]
fn reply_temperature_is_clamped_to_zero_and_two() {
    assert_eq!(temperature_from_reply("{\"temperature\": 7}").millis, 2000);
    assert_eq!(temperature_from_reply("{\"temperature\": -3}").millis, 0);
    assert_eq!(temperature_from_reply("{\"temperature\": 2.0}").millis, 2000);
}

#[test]
fn reply_temperature_falls_back_to_the_first_number_on_a_matching_line() {
    assert_eq!(temperature_from_reply("I suggest 3 things.\nTemperature: 0.7 is fine").millis, 700);
    assert_eq!(temperature_from_reply("temperature = 1.25, top_p = 0.9").millis, 1250);
    assert_eq!(temperature_from_reply("{\"temperature\": \"hot\"} temperature 0.2").millis, 200);
}

#[test]
fn reply_temperature_defaults_when_nothing_parses() {
    assert_eq!(temperature_from_reply("").millis, 1400);
    assert_eq!(temperature_from_reply("no idea").millis, 1400);
    assert_eq!(temperature_from_reply("temperature\n0.3").millis, 1400);
    assert_eq!(temperature_from_reply("{\"temp\": 0.3}").millis, 1400);
}

#[test]
fn reply_parts_prefer_the_object_over_the_captured_text() {
    let object = parse_json("{\"temperature\": 0.4}").unwrap();
    assert_eq!(temperature_from_parts(Some(&object), Some("1.9")).millis, 400);
    assert_eq!(temperature_from_parts(None, Some("1.9")).millis, 1900);
    assert_eq!(temperature_from_parts(None, Some("1.9.1")).millis, 1400);
    assert_eq!(temperature_from_parts(None, None).millis, 1400);
}

#[test]
fn analyzer_prompt_ends_with_the_task() {
    let p = analyzer_prompt("why is the sky blue?");
    assert!(p.starts_with("Choose a sampling temperature between 0.0 and 2.0"));
    assert!(p.ends_with("\n\nTask:\nwhy is the sky blue?"));
}

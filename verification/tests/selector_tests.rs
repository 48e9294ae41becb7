use chorus::json::parse_json;
use chorus::selector::{
    find_embedded_object, find_standalone, parse_selection, search, select_from_reply,
    selector_prompt, Candidate, SelectorError, Want,
};

fn candidates(n: usize) -> Vec<Candidate> {
    (1..=n)
        .map(|i| Candidate { name: format!("w{}", i), response: format!("answer {}", i) })
        .collect()
}

#[test]
fn json_index_is_found_under_every_alias() {
    for alias in ["selected_index", "index", "choice", "selected", "best_index", "best"] {
        let reply = format!("{{\"{}\": 2, \"reasoning\": \"because\"}}", alias);
        let choice = parse_selection(&reply, &candidates(3)).unwrap();
        assert_eq!(choice.index, 2, "alias {}", alias);
        assert_eq!(choice.chosen_worker, "w2");
        assert_eq!(choice.chosen_response, "answer 2");
        assert_eq!(choice.reasoning.as_deref(), Some("because"));
        assert_eq!(choice.selected_response, None);
    }
}

#[test]
fn json_index_may_be_quoted_or_nested() {
    let choice = parse_selection("{\"result\": {\"choice\": \" 3 \"}}", &candidates(3)).unwrap();
    assert_eq!(choice.index, 3);
    let choice =
        parse_selection("[ignored] {\"list\": [{\"x\": 1}, {\"best\": 1}]} tail", &candidates(3))
            .unwrap();
    assert_eq!(choice.index, 1);
}

#[test]
fn earlier_alias_wins_and_invalid_values_are_passed_over() {
    let choice =
        parse_selection("{\"index\": 1, \"selected_index\": 2}", &candidates(3)).unwrap();
    assert_eq!(choice.index, 2);
    let choice =
        parse_selection("{\"selected_index\": 9, \"choice\": 3}", &candidates(3)).unwrap();
    assert_eq!(choice.index, 3);
    let choice =
        parse_selection("{\"selected_index\": 2.0, \"best\": 1}", &candidates(3)).unwrap();
    assert_eq!(choice.index, 1);
}

#[test]
fn reply_may_carry_its_own_answer_text() {
    let choice = parse_selection(
        "{\"selected_index\":1,\"selected_worker\":\"w1\",\"selected_response\":\"polished\",\"reason\":\"short\"}",
        &candidates(2),
    )
    .unwrap();
    assert_eq!(choice.selected_response.as_deref(), Some("polished"));
    assert_eq!(choice.reasoning.as_deref(), Some("short"));
    assert_eq!(choice.chosen_response, "answer 1");
}

#[test]
fn without_json_choice_the_first_standalone_integer_in_range_decides() {
    let reply = "  Option 7 is out, v2 is a name, I pick 3, not 1.  ";
    let choice = parse_selection(reply, &candidates(3)).unwrap();
    assert_eq!(choice.index, 3);
    assert_eq!(choice.chosen_worker, "w3");
    assert_eq!(choice.reasoning.as_deref(), Some(reply.trim()));
    assert_eq!(choice.selected_response, None);
}

#[test]
fn json_without_valid_index_falls_back_to_the_text() {
    let choice = parse_selection("{\"selected_index\": 0} so take 2", &candidates(2)).unwrap();
    assert_eq!(choice.index, 2);
    let choice = parse_selection("{\"note\": \"go with 1\"}", &candidates(2)).unwrap();
    assert_eq!(choice.index, 1);
}

#[test]
fn reply_without_any_choice_fails() {
    for reply in ["", "none of them", "{\"selected_index\": 5}", "take 4 or 0", "abc2 2nd _1"] {
        assert_eq!(
            parse_selection(reply, &candidates(3)).unwrap_err(),
            SelectorError::Unparseable,
            "reply {:?}",
            reply
        );
    }
}

#[test]
fn no_candidates_is_a_structural_failure() {
    assert_eq!(
        parse_selection("{\"selected_index\": 1}", &candidates(0)).unwrap_err(),
        SelectorError::NoCandidates
    );
}

#[test]
fn choice_from_parts_ignores_a_missing_object() {
    let cs = candidates(2);
    let choice = select_from_reply("2", None, &cs).unwrap();
    assert_eq!(choice.index, 2);
    let object = parse_json("{\"best\": 1}").unwrap();
    let choice = select_from_reply("2", Some(&object), &cs).unwrap();
    assert_eq!(choice.index, 1);
}

#[test]
fn embedded_object_scan_honours_strings_and_escapes() {
    assert_eq!(find_embedded_object("x {\"a\": \"}\"} y").as_deref(), Some("{\"a\": \"}\"}"));
    assert_eq!(
        find_embedded_object("{\"a\": \"q\\\"}\", \"b\": {\"c\": 1}} {\"d\":2}").as_deref(),
        Some("{\"a\": \"q\\\"}\", \"b\": {\"c\": 1}}")
    );
    assert_eq!(find_embedded_object("no braces"), None);
    assert_eq!(find_embedded_object("{ never closed"), None);
    assert_eq!(find_embedded_object("{}tail").as_deref(), Some("{}"));
}

#[test]
fn standalone_scan_skips_numbers_touched_by_letters() {
    let find = |text: &str, n: usize| find_standalone(&text.chars().collect(), n);
    assert_eq!(find("a1 1a _1 1_ 2", 3), Some(2));
    assert_eq!(find("10 3", 5), Some(3));
    assert_eq!(find("(2)", 2), Some(2));
    assert_eq!(find("1.5", 2), Some(1));
    assert_eq!(find("0 00 4", 3), None);
    assert_eq!(find("999999999999999999999999 1", 1), Some(1));
}

#[test]
fn search_looks_at_the_node_before_its_children() {
    let tree = parse_json("{\"a\": {\"index\": 1}, \"index\": 2}").unwrap();
    let names = vec!["index".to_string()];
    match search(&tree, &names, Want::Index(3)) {
        Some(chorus::json::Json::Number(t)) => assert_eq!(t, "2"),
        other => panic!("expected the number 2, got {:?}", other),
    }
    assert!(search(&tree, &names, Want::Text).is_none());
}

#[test]
fn selector_prompt_lists_candidates_from_one() {
    let prompt = selector_prompt("hello", &candidates(2));
    assert_eq!(
        prompt,
        "You are judging candidate answers to a question. Pick the single best candidate.\n\nQuestion:\nhello\n\nCandidates:\n\n[1] w1:\nanswer 1\n\n[2] w2:\nanswer 2\n\nReply with one JSON object with the fields `selected_index` (a number from 1 to 2), `selected_worker`, optionally `selected_response`, and `reasoning`."
    );
}

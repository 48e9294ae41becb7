use chorus::json::{parse_json, render_json, Json};

#[test]
fn parses_and_prints_a_small_object() {
    let tree = parse_json("{\"b\": [1, 2.5, \"x\"], \"a\": null}").unwrap();
    match &tree {
        Json::Object(members) => {
            assert_eq!(members.len(), 2);
            assert_eq!(members[0].0, "a");
            assert_eq!(members[1].0, "b");
        }
        other => panic!("expected an object, got {:?}", other),
    }
    assert_eq!(render_json(&tree), "{\"a\":null,\"b\":[1,2.5,\"x\"]}");
}

#[test]
fn rejects_text_that_is_not_json() {
    assert!(parse_json("{\"a\": ").is_none());
    assert!(parse_json("").is_none());
}

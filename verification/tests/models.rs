use warp_ai::json::{as_bool, as_i64, at_zero, member, parse_json, text_member, Json};
use warp_ai::models::{
    bearer_for, codex_models_in_answer, codex_models_in_response, models_in_answer,
    models_in_response,
};
use warp_ai::order::sort_ranked;
use warp_ai::text::{decimal_text, eq_ignore_ascii_case, is_blank, split, split_once, trim};

fn json(text: &str) -> Json {
    parse_json(text).unwrap()
}

#[test]
fn documents_are_read() {
    let document = json(r#"{"b": [1, -2, 2.5, true, null], "a": "x"}"#);
    let list = member(Some(&document), "b");
    assert_eq!(as_i64(at_zero(list)), Some(1));
    assert_eq!(text_member(Some(&document), "a"), Some("x"));
    assert_eq!(text_member(Some(&document), "b"), None);
    assert_eq!(text_member(Some(&document), "c"), None);
    assert_eq!(
        list,
        Some(&Json::Array(vec![
            Json::Number { unsigned: Some(1), signed: Some(1) },
            Json::Number { unsigned: None, signed: Some(-2) },
            Json::Number { unsigned: None, signed: None },
            Json::Bool(true),
            Json::Null,
        ]))
    );
    assert_eq!(as_bool(Some(&Json::Bool(true))), Some(true));
    assert_eq!(parse_json("{"), None);
    assert_eq!(parse_json(""), None);
    let zero = json(r#"{"0": "first"}"#);
    assert_eq!(at_zero(Some(&zero)), Some(&Json::Text("first".to_string())));
    assert_eq!(at_zero(Some(&Json::Array(vec![]))), None);
    assert_eq!(document.clone(), document);
}

#[test]
fn openai_models_are_listed_in_order() {
    let body = json(r#"{"data": [{"id": "b"}, {"id": 3}, {}, {"id": "a"}, {"id": "B"}, {"id": "a"}]}"#);
    assert_eq!(models_in_response(&body), vec!["B", "a", "a", "b"]);
}

#[test]
fn ollama_models_are_listed_in_order() {
    let body = json(r#"{"models": [{"name": "z:1"}, {"name": "llama3:8b"}]}"#);
    assert_eq!(models_in_response(&body), vec!["llama3:8b", "z:1"]);
    // The OpenAI format comes first, even when it is empty.
    let body = json(r#"{"data": [], "models": [{"name": "x"}]}"#);
    assert!(models_in_response(&body).is_empty());
    // A `data` that is no list does not count.
    let body = json(r#"{"data": 1, "models": [{"name": "x"}]}"#);
    assert_eq!(models_in_response(&body), vec!["x"]);
    assert!(models_in_response(&json("[]")).is_empty());
}

#[test]
fn codex_models_come_by_priority() {
    let data = json(
        r#"{"models": [
            {"slug": " slow ", "priority": 5},
            {"slug": "plain"},
            {"slug": "fast", "priority": 1},
            {"slug": "hidden", "visibility": "HIDE", "priority": 0},
            {"slug": "gone", "visibility": "Hidden"},
            {"slug": "  "},
            {"name": "nameless"},
            {"slug": "fast", "priority": 9},
            {"slug": "also", "priority": 1},
            {"slug": "odd", "priority": "2"}
        ]}"#,
    );
    assert_eq!(codex_models_in_response(&data), vec!["also", "fast", "slow", "odd", "plain"]);
    assert!(codex_models_in_response(&json("{}")).is_empty());
    assert!(codex_models_in_response(&json(r#"{"models": {}}"#)).is_empty());
}

#[test]
fn blank_keys_make_no_bearer() {
    assert_eq!(bearer_for(" key "), Some("key"));
    assert_eq!(bearer_for(" \t"), None);
}

#[test]
fn ranks_come_before_texts() {
    let entries = vec![
        (2, "a".to_string()),
        (1, "b".to_string()),
        (1, "ab".to_string()),
        (-5, "é".to_string()),
        (-5, "z".to_string()),
    ];
    let sorted: Vec<(i64, String)> = sort_ranked(entries.clone());
    let mut expected = entries;
    expected.sort();
    assert_eq!(sorted, expected);
}

#[test]
fn texts_are_taken_apart_as_usual() {
    for text in ["", " a ", "\u{85}x\u{2028}", "a\u{200b}", "\u{1680}\u{202f}"] {
        assert_eq!(trim(text), text.trim());
        assert_eq!(is_blank(text), text.trim().is_empty());
    }
    for c in (0u32..0x11_0000).filter_map(char::from_u32) {
        assert_eq!(warp_ai::text::is_whitespace(c), c.is_whitespace());
    }
    assert_eq!(split("a--b-", '-'), "a--b-".split('-').collect::<Vec<_>>());
    assert_eq!(split("", '-'), vec![""]);
    assert_eq!(split_once("aXXXb", "XX"), Some(("a", "Xb")));
    assert_eq!(split_once("ab", "abc"), None);
    assert!(eq_ignore_ascii_case("HiDe", "hide"));
    assert!(!eq_ignore_ascii_case("É", "é"));
    for n in [0, 9, 10, 12345, usize::MAX] {
        assert_eq!(decimal_text(n), n.to_string());
    }
}

#[test]
fn errors_list_no_models() {
    let body = json(r#"{"data": [{"id": "a"}], "models": [{"slug": "b"}]}"#);
    assert_eq!(models_in_answer(200, Some(&body)), vec!["a"]);
    assert!(models_in_answer(401, Some(&body)).is_empty());
    assert!(models_in_answer(200, None).is_empty());
    assert_eq!(codex_models_in_answer(204, Some(&body)), vec!["b"]);
    assert!(codex_models_in_answer(500, Some(&body)).is_empty());
    assert!(codex_models_in_answer(200, None).is_empty());
}

//! The `updateDataModel` upsert on a surface's data model.

use ag_ui::data_model::{apply_data_model_update, parse_index, tokens_of, unescape, JsonTree, PointerError};

fn text(s: &str) -> JsonTree {
    JsonTree::Text(s.to_string())
}

fn number(s: &str) -> JsonTree {
    JsonTree::Number(s.to_string())
}

fn object(members: Vec<(&str, JsonTree)>) -> JsonTree {
    JsonTree::Object(members.into_iter().map(|(k, v)| (k.to_string(), v)).collect())
}

#[test]
fn upsert_creates_missing_intermediates_and_null_deletes() {
    let mut model = object(vec![]);
    apply_data_model_update(&mut model, "/user/name", &text("Ada")).unwrap();
    assert_eq!(model, object(vec![("user", object(vec![("name", text("Ada"))]))]));

    apply_data_model_update(&mut model, "/user/name", &JsonTree::Null).unwrap();
    assert_eq!(model, object(vec![("user", object(vec![]))]));

    apply_data_model_update(&mut model, "/", &object(vec![("replaced", JsonTree::Bool(true))])).unwrap();
    assert_eq!(model, object(vec![("replaced", JsonTree::Bool(true))]));
}

#[test]
fn upsert_into_arrays_preserves_length_on_delete() {
    let mut model = object(vec![(
        "items",
        JsonTree::Array(vec![number("1"), number("2"), number("3")]),
    )]);
    apply_data_model_update(&mut model, "/items/1", &JsonTree::Null).unwrap();
    assert_eq!(
        model,
        object(vec![("items", JsonTree::Array(vec![number("1"), JsonTree::Null, number("3")]))])
    );

    apply_data_model_update(&mut model, "/items/3", &number("4")).unwrap();
    assert_eq!(
        model,
        object(vec![(
            "items",
            JsonTree::Array(vec![number("1"), JsonTree::Null, number("3"), number("4")])
        )])
    );

    let err = apply_data_model_update(&mut model, "/items/9", &number("0")).unwrap_err();
    assert!(matches!(err, PointerError { .. }));
}

#[test]
fn escaped_pointer_tokens_are_decoded() {
    let mut model = object(vec![]);
    apply_data_model_update(&mut model, "/a~1b", &number("1")).unwrap();
    assert_eq!(model, object(vec![("a/b", number("1"))]));
}

#[test]
fn an_empty_path_replaces_the_whole_model() {
    let mut model = object(vec![("a", number("1"))]);
    apply_data_model_update(&mut model, "  ", &JsonTree::Null).unwrap();
    assert_eq!(model, JsonTree::Null);
}

#[test]
fn a_null_model_becomes_an_object_on_write() {
    let mut model = JsonTree::Null;
    apply_data_model_update(&mut model, " /a/b ", &text("x")).unwrap();
    assert_eq!(model, object(vec![("a", object(vec![("b", text("x"))]))]));
}

#[test]
fn a_relative_path_is_refused_and_changes_nothing() {
    let mut model = object(vec![("a", number("1"))]);
    let err = apply_data_model_update(&mut model, " a/b", &number("2")).unwrap_err();
    assert_eq!(err.path, "a/b");
    assert_eq!(
        err.reason,
        "updateDataModel path must be an absolute JSON Pointer starting with '/'"
    );
    assert_eq!(model, object(vec![("a", number("1"))]));
}

#[test]
fn a_path_through_a_scalar_fails_and_changes_nothing() {
    let mut model = object(vec![("a", number("1"))]);
    let err = apply_data_model_update(&mut model, "/a/b", &number("2")).unwrap_err();
    assert_eq!(err.reason, "path walks through a scalar value");
    assert_eq!(model, object(vec![("a", number("1"))]));
}

#[test]
fn an_index_past_the_end_names_the_index_and_the_length() {
    let mut model = JsonTree::Array(vec![number("1")]);
    let err = apply_data_model_update(&mut model, "/5/x", &number("2")).unwrap_err();
    assert_eq!(err.path, "/5/x");
    assert_eq!(err.reason, "array index 5 is out of bounds (len 1)");
    assert_eq!(model, JsonTree::Array(vec![number("1")]));
}

#[test]
fn a_segment_that_is_no_index_is_quoted() {
    let mut model = JsonTree::Array(vec![number("1")]);
    let err = apply_data_model_update(&mut model, "/first", &number("2")).unwrap_err();
    assert_eq!(err.reason, "expected an array index, found segment \"first\"");
}

#[test]
fn one_past_the_end_of_a_nested_array_adds_a_slot() {
    let mut model = object(vec![("rows", JsonTree::Array(vec![]))]);
    apply_data_model_update(&mut model, "/rows/0/name", &text("n")).unwrap();
    assert_eq!(
        model,
        object(vec![("rows", JsonTree::Array(vec![object(vec![("name", text("n"))])]))])
    );
}

#[test]
fn pointer_tokens_follow_rfc_6901() {
    assert_eq!(tokens_of("/a/b"), vec!["a".to_string(), "b".to_string()]);
    assert_eq!(tokens_of("/"), vec![String::new()]);
    assert_eq!(tokens_of("/a/"), vec!["a".to_string(), String::new()]);
    assert_eq!(unescape("~01"), "~1");
    assert_eq!(unescape("m~0n~1o~2"), "m~n/o~2");
}

#[test]
fn indexes_parse_as_usize_does() {
    assert_eq!(parse_index("0"), Some(0));
    assert_eq!(parse_index("+7"), Some(7));
    assert_eq!(parse_index("007"), Some(7));
    assert_eq!(parse_index(""), None);
    assert_eq!(parse_index("+"), None);
    assert_eq!(parse_index("-1"), None);
    assert_eq!(parse_index("1a"), None);
    assert_eq!(parse_index("99999999999999999999999"), None);
}

#[test]
fn a_copy_is_equal() {
    let tree = object(vec![("a", JsonTree::Array(vec![number("1"), text("t"), JsonTree::Bool(false)]))]);
    assert_eq!(tree.duplicate(), tree);
}

//! The Gemini agent's configuration and its schema dialect.

use ag_ui::data_model::JsonTree;
use ag_ui::gemini::{to_gemini_schema, weather_parameters};

fn object(members: Vec<(&str, JsonTree)>) -> JsonTree {
    JsonTree::Object(members.into_iter().map(|(k, v)| (k.to_string(), v)).collect())
}

fn text(s: &str) -> JsonTree {
    JsonTree::Text(s.to_string())
}

fn member<'a>(tree: &'a JsonTree, key: &str) -> Option<&'a JsonTree> {
    match tree {
        JsonTree::Object(members) => members.iter().find(|(k, _)| k == key).map(|(_, v)| v),
        _ => None,
    }
}

#[test]
fn schemas_are_translated_into_the_v1beta_dialect() {
    let schema = to_gemini_schema(&weather_parameters());
    assert_eq!(member(&schema, "type"), Some(&text("OBJECT")));
    let city = member(member(&schema, "properties").unwrap(), "city").unwrap();
    assert_eq!(member(city, "type"), Some(&text("STRING")));
    assert_eq!(member(&schema, "required"), Some(&JsonTree::Array(vec![text("city")])));
}

#[test]
fn keywords_v1beta_rejects_are_dropped() {
    let schema = to_gemini_schema(&object(vec![
        ("$schema", text("https://json-schema.org/draft/2020-12/schema")),
        ("type", text("object")),
        ("additionalProperties", JsonTree::Bool(false)),
        (
            "properties",
            object(vec![("tags", object(vec![("type", text("array")), ("items", object(vec![("type", text("string"))]))]))]),
        ),
    ]));
    assert_eq!(member(&schema, "type"), Some(&text("OBJECT")));
    assert!(member(&schema, "$schema").is_none());
    assert!(member(&schema, "additionalProperties").is_none());
    let tags = member(member(&schema, "properties").unwrap(), "tags").unwrap();
    assert_eq!(member(member(tags, "items").unwrap(), "type"), Some(&text("STRING")));
}

#[test]
fn anything_but_an_object_becomes_an_empty_schema() {
    assert_eq!(to_gemini_schema(&text("x")), object(vec![]));
}

#[test]
fn copied_keywords_keep_their_order_after_the_type() {
    let schema = to_gemini_schema(&object(vec![
        ("nullable", JsonTree::Bool(true)),
        ("description", text("d")),
        ("type", text("integer")),
    ]));
    assert_eq!(
        schema,
        object(vec![("type", text("INTEGER")), ("description", text("d")), ("nullable", JsonTree::Bool(true))])
    );
}

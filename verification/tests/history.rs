//! Rebuilding a previously rendered surface from the operations a
//! conversation holds.

use ag_ui::a2ui::{AgentMessage, Component};
use ag_ui::data_model::JsonTree;
use ag_ui::history::{
    find_prior_surface, find_prior_surface_by_id, next_surface_id, operation_values, HistoryMessage,
    DEFAULT_SURFACE_ID,
};
use serde_json::Value;

const CATALOG: &str = "https://a2ui.org/catalogs/basic";

fn text(s: &str) -> JsonTree {
    JsonTree::Text(s.to_string())
}

fn object(members: Vec<(&str, JsonTree)>) -> JsonTree {
    JsonTree::Object(members.into_iter().map(|(k, v)| (k.to_string(), v)).collect())
}

fn rendered(surface: &str, title: &str) -> Vec<AgentMessage> {
    vec![
        AgentMessage::create_surface(surface, CATALOG),
        AgentMessage::update_components(
            surface,
            vec![
                Component::new("root", "Column").with("children", JsonTree::Array(vec![text("label")])),
                Component::new("label", "Text").with("text", object(vec![("path", text("/title"))])),
            ],
        ),
        AgentMessage::update_data_model(surface, "/", object(vec![("title", text(title))])),
    ]
}

#[test]
fn a_surface_is_recovered_from_its_operations() {
    let prior = find_prior_surface(&rendered("cart", "Your cart")).unwrap();
    assert_eq!(prior.surface_id, "cart");
    assert_eq!(prior.catalog_id.as_deref(), Some(CATALOG));
    assert_eq!(prior.components.len(), 2);
    assert_eq!(
        prior.component("label").unwrap().prop("text"),
        Some(&object(vec![("path", text("/title"))]))
    );
    assert_eq!(prior.data_model, object(vec![("title", text("Your cart"))]));
    assert!(!prior.deleted);
}

#[test]
fn the_newest_surface_wins() {
    let mut history = rendered("first", "one");
    history.extend(rendered("second", "two"));
    assert_eq!(find_prior_surface(&history).unwrap().surface_id, "second");
    assert_eq!(
        find_prior_surface_by_id(&history, Some("first")).unwrap().data_model,
        object(vec![("title", text("one"))])
    );
}

#[test]
fn later_updates_are_folded_onto_the_original() {
    let mut history = rendered("cart", "Your cart");
    history.push(AgentMessage::update_components(
        "cart",
        vec![
            Component::new("label", "Text").with("text", text("Checkout")),
            Component::new("extra", "Text").with("text", text("free shipping")),
        ],
    ));
    history.push(AgentMessage::update_data_model("cart", "/title", text("Updated")));

    let prior = find_prior_surface(&history).unwrap();
    let ids: Vec<&str> = prior.components.iter().map(|c| c.id.as_str()).collect();
    assert_eq!(ids, vec!["root", "label", "extra"]);
    assert_eq!(prior.component("label").unwrap().prop("text"), Some(&text("Checkout")));
    assert_eq!(prior.data_model, object(vec![("title", text("Updated"))]));
    assert_eq!(prior.catalog_id.as_deref(), Some(CATALOG));
}

#[test]
fn a_deleted_surface_is_reported_as_deleted() {
    let mut history = rendered("cart", "Your cart");
    history.push(AgentMessage::delete_surface("cart"));
    let prior = find_prior_surface(&history).unwrap();
    assert!(prior.deleted);
    assert!(prior.components.is_empty());
    assert_eq!(prior.data_model, JsonTree::Null);
}

#[test]
fn recreating_a_surface_id_starts_it_over() {
    let mut history = rendered("cart", "old");
    history.extend(rendered("cart", "new"));
    let prior = find_prior_surface(&history).unwrap();
    assert_eq!(prior.data_model, object(vec![("title", text("new"))]));
    assert_eq!(prior.components.len(), 2);
}

#[test]
fn history_without_a2ui_yields_nothing() {
    assert!(find_prior_surface(&[]).is_none());
    assert!(find_prior_surface_by_id(&[], Some("cart")).is_none());
    assert!(find_prior_surface_by_id(&rendered("other", "x"), Some("cart")).is_none());
}

#[test]
fn updates_without_a_create_leave_the_catalog_unknown() {
    let history = vec![AgentMessage::update_data_model("cart", "/n", text("1"))];
    let prior = find_prior_surface(&history).unwrap();
    assert_eq!(prior.catalog_id, None);
    assert_eq!(prior.data_model, object(vec![("n", text("1"))]));
}

#[test]
fn an_update_that_cannot_apply_is_skipped() {
    let mut history = rendered("cart", "Your cart");
    history.push(AgentMessage::update_data_model("cart", "/title/deeper", text("x")));
    let prior = find_prior_surface(&history).unwrap();
    assert_eq!(prior.data_model, object(vec![("title", text("Your cart"))]));
}

#[test]
fn next_surface_id_avoids_ids_already_used() {
    let history = rendered("cart", "one");
    assert_eq!(next_surface_id(&history, "cart"), "cart-2");
    assert_eq!(next_surface_id(&history, "other"), "other");
    assert_eq!(next_surface_id(&[], ""), DEFAULT_SURFACE_ID);
}

#[test]
fn numbering_skips_every_number_in_use() {
    let mut history = rendered("cart", "one");
    history.push(AgentMessage::create_surface("cart-2", CATALOG));
    history.push(AgentMessage::delete_surface("cart-3"));
    assert_eq!(next_surface_id(&history, "cart"), "cart-4");
    let mut many = Vec::new();
    many.push(AgentMessage::create_surface(DEFAULT_SURFACE_ID, CATALOG));
    for n in 2..=11 {
        many.push(AgentMessage::create_surface(&format!("{DEFAULT_SURFACE_ID}-{n}"), CATALOG));
    }
    assert_eq!(next_surface_id(&many, ""), format!("{DEFAULT_SURFACE_ID}-12"));
}

fn parsed(text: &str) -> Value {
    serde_json::from_str(text).expect("JSON")
}

#[test]
fn an_envelope_gives_the_operations_it_carries() {
    let envelope = r#"{"a2ui_operations": [{"deleteSurface": {"surfaceId": "cart"}}, {"x": 1}]}"#;
    let values = operation_values(envelope, None);
    assert_eq!(values, vec![parsed(r#"{"deleteSurface": {"surfaceId": "cart"}}"#), parsed(r#"{"x": 1}"#)]);
    assert!(operation_values(r#"{"a2ui_operations": "not a list"}"#, None).is_empty());
}

#[test]
fn structured_payloads_come_before_text() {
    let message = HistoryMessage::data("tool", parsed(r#"[{"a": 1}, {"b": 2}]"#));
    assert_eq!(message.content, "");
    let values = operation_values("  {\"c\": 3}\n", message.data.as_ref());
    assert_eq!(values, vec![parsed(r#"{"a": 1}"#), parsed(r#"{"b": 2}"#), parsed(r#"{"c": 3}"#)]);
}

#[test]
fn plain_text_holds_no_operations() {
    let message = HistoryMessage::text("user", "hello");
    assert!(operation_values(&message.content, message.data.as_ref()).is_empty());
    assert!(operation_values("   ", None).is_empty());
    assert!(operation_values("42", None).is_empty());
    assert_eq!(
        operation_values(r#"{"some": "unrelated json"}"#, None),
        vec![parsed(r#"{"some": "unrelated json"}"#)]
    );
}

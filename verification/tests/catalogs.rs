//! Negotiating the component catalog a surface speaks.

use ag_ui::catalogs::{select_catalog_schema, CatalogRegistry, ClientCapabilities};
use ag_ui::data_model::JsonTree;

fn text(s: &str) -> JsonTree {
    JsonTree::Text(s.to_string())
}

fn object(members: Vec<(&str, JsonTree)>) -> JsonTree {
    JsonTree::Object(members.into_iter().map(|(k, v)| (k.to_string(), v)).collect())
}

fn catalog(id: &str, components: Vec<&str>) -> JsonTree {
    object(vec![
        ("catalogId", text(id)),
        ("components", object(components.into_iter().map(|c| (c, object(vec![]))).collect())),
    ])
}

fn id_of(tree: &JsonTree) -> &JsonTree {
    match tree {
        JsonTree::Object(members) => &members.iter().find(|(k, _)| k == "catalogId").unwrap().1,
        _ => panic!("not an object"),
    }
}

fn agent_catalogs() -> Vec<JsonTree> {
    vec![catalog("id_basic", vec![]), catalog("id_custom1", vec![]), catalog("id_custom2", vec![])]
}

#[test]
fn no_preference_takes_the_agents_default() {
    let chosen = select_catalog_schema(&agent_catalogs(), &ClientCapabilities::default(), false).unwrap();
    assert_eq!(id_of(&chosen), &text("id_basic"));
}

#[test]
fn the_renderers_order_decides() {
    let chosen = select_catalog_schema(
        &agent_catalogs(),
        &ClientCapabilities::supporting(&["id_custom2", "id_custom1"]),
        false,
    )
    .unwrap();
    assert_eq!(id_of(&chosen), &text("id_custom2"));

    let chosen = select_catalog_schema(
        &agent_catalogs(),
        &ClientCapabilities::supporting(&["id_custom1", "id_custom2"]),
        false,
    )
    .unwrap();
    assert_eq!(id_of(&chosen), &text("id_custom1"));
}

#[test]
fn no_overlap_is_an_error() {
    let error = select_catalog_schema(
        &agent_catalogs(),
        &ClientCapabilities::supporting(&["id_not_exists"]),
        false,
    )
    .unwrap_err();
    assert!(error.to_string().contains("No client-supported catalog found"));
    assert_eq!(
        error.to_string(),
        "No client-supported catalog found: the renderer supports [id_not_exists], the agent offers [id_basic, id_custom1, id_custom2]"
    );
}

#[test]
fn inline_catalogs_extend_the_selection() {
    let capabilities = ClientCapabilities {
        supported_catalog_ids: vec![],
        inline_catalogs: vec![catalog("id_inline", vec!["Button"])],
    };
    let chosen = select_catalog_schema(&[catalog("id_basic", vec!["Text"])], &capabilities, true).unwrap();
    assert_eq!(chosen, catalog("id_basic", vec!["Text", "Button"]));
}

#[test]
fn several_inline_catalogs_merge_in_order() {
    let capabilities = ClientCapabilities {
        supported_catalog_ids: vec![],
        inline_catalogs: vec![catalog("id_basic", vec!["Button"]), catalog("id_basic", vec!["Icon"])],
    };
    let chosen = select_catalog_schema(&[catalog("id_basic", vec!["Text"])], &capabilities, true).unwrap();
    assert_eq!(chosen, catalog("id_basic", vec!["Text", "Button", "Icon"]));
}

#[test]
fn inline_catalogs_rescue_a_failed_match() {
    let capabilities = ClientCapabilities {
        supported_catalog_ids: vec!["id_not_exists".to_string()],
        inline_catalogs: vec![catalog("id_basic", vec!["Button"])],
    };
    let chosen = select_catalog_schema(
        &[catalog("id_basic", vec!["Text"]), catalog("id_custom1", vec![])],
        &capabilities,
        true,
    )
    .unwrap();
    assert_eq!(chosen, catalog("id_basic", vec!["Text", "Button"]));
}

#[test]
fn inline_catalogs_are_refused_when_the_agent_says_so() {
    let capabilities = ClientCapabilities {
        supported_catalog_ids: vec![],
        inline_catalogs: vec![object(vec![("catalogId", text("id_inline"))])],
    };
    let error = select_catalog_schema(&[object(vec![("catalogId", text("id_basic"))])], &capabilities, false)
        .unwrap_err();
    assert!(error.to_string().contains("the agent does not accept inline catalogs"));
}

#[test]
fn an_agent_without_catalogs_has_nothing_to_offer() {
    let error = select_catalog_schema(&[], &ClientCapabilities::default(), false).unwrap_err();
    assert_eq!(error.to_string(), "the agent has no catalogs to offer");
}

#[test]
fn functions_are_merged_and_a_missing_section_is_created() {
    let capabilities = ClientCapabilities {
        supported_catalog_ids: vec![],
        inline_catalogs: vec![object(vec![("functions", object(vec![("format", object(vec![]))]))])],
    };
    let chosen = select_catalog_schema(&[object(vec![("catalogId", text("c"))])], &capabilities, true).unwrap();
    assert_eq!(
        chosen,
        object(vec![("catalogId", text("c")), ("functions", object(vec![("format", object(vec![]))]))])
    );
}

#[test]
fn a_registry_reports_wire_ids_not_local_names() {
    let mut registry = CatalogRegistry::new();
    registry.insert("standard", object(vec![("catalogId", text("basic"))]));
    registry.insert("Custom", object(vec![("components", object(vec![]))]));
    assert_eq!(registry.supported_catalog_ids(), vec!["basic".to_string(), "Custom".to_string()]);
    assert!(registry.get("basic").is_some());
    assert!(registry.get("standard").is_some());
    assert!(registry.get("nope").is_none());
    assert_eq!(registry.schemas().len(), 2);
    assert_eq!(registry.entries()[1].catalog_id(), "Custom");
}

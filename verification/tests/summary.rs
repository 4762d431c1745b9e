//! One-line descriptions of recovered surfaces.

use ag_ui::a2ui::Component;
use ag_ui::data_model::JsonTree;
use ag_ui::history::PriorSurface;
use ag_ui::order::text_precedes;
use ag_ui::summary::describe_surface;

fn prior(components: Vec<Component>) -> PriorSurface {
    PriorSurface {
        surface_id: "cart".to_string(),
        catalog_id: Some("cat".to_string()),
        components,
        data_model: JsonTree::Object(vec![("total".to_string(), JsonTree::Number("12".to_string()))]),
        deleted: false,
    }
}

#[test]
fn surfaces_summarize_for_logs() {
    let surface = prior(vec![
        Component::new("root", "Column")
            .with("children", JsonTree::Array(vec![JsonTree::Text("title".to_string())])),
        Component::new("title", "Text").with("text", JsonTree::Text("Cart".to_string())),
    ]);
    assert_eq!(
        describe_surface(&surface),
        "surface 'cart' with 2 component(s) [Column, Text]"
    );
}

#[test]
fn kinds_are_listed_once_in_order() {
    let surface = prior(vec![
        Component::new("root", "Column"),
        Component::new("b", "Text"),
        Component::new("a", "Button"),
        Component::new("c", "Text"),
        Component::new("d", "Column"),
    ]);
    assert_eq!(
        describe_surface(&surface),
        "surface 'cart' with 5 component(s) [Button, Column, Text]"
    );
}

#[test]
fn an_empty_surface_lists_no_kinds() {
    assert_eq!(describe_surface(&prior(vec![])), "surface 'cart' with 0 component(s) []");
}

#[test]
fn kinds_sort_as_str_does() {
    let mut kinds = vec!["text", "Text", "TextField", "Téxt", "Tex", ""];
    kinds.sort_unstable();
    for i in 0..kinds.len() {
        for j in 0..kinds.len() {
            assert_eq!(text_precedes(kinds[i], kinds[j]), i < j, "{} vs {}", kinds[i], kinds[j]);
        }
    }
}

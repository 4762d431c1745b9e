//! Assembling the generating model's system prompt.

use ag_ui::prompt::{
    build_subagent_prompt, render_data_model, render_prior_surface, Intent, PromptSpec, RenderedSurface, A2UI_CLOSE_TAG,
    A2UI_OPEN_TAG,
};

const CATALOG: &str = "### Component catalog\n- Text required: text (value)\n\n";

fn cart() -> RenderedSurface {
    RenderedSurface {
        surface_id: "cart".to_string(),
        catalog_id: Some("cat".to_string()),
        components_json: "[\n  {\n    \"id\": \"title\"\n  }\n]".to_string(),
        data_model_json: "{\n  \"total\": 12\n}".to_string(),
    }
}

#[test]
fn a_create_prompt_has_every_section() {
    let conversation = vec![("user".to_string(), "show my cart ".to_string())];
    let spec = PromptSpec::new("  You build UI.", "Render the cart.").with_conversation(conversation);
    let prompt = build_subagent_prompt(&spec, CATALOG);

    assert!(prompt.starts_with("You build UI.\n\n## Task\nRender the cart.\n\nTarget surfaceId: main\nIntent: create"));
    assert!(prompt.contains("## Generation rules\n- Reply with a flat list"));
    assert!(prompt.contains("\n\n### Component catalog\n- Text required: text (value)\n\n### Conversation so far\nuser: show my cart\n\n## Response format"));
    assert!(prompt.contains(A2UI_OPEN_TAG));
    assert!(prompt.contains(A2UI_CLOSE_TAG));
    assert!(!prompt.contains("## Surface currently on screen"));
    assert!(!prompt.contains("Do NOT emit"));
}

#[test]
fn an_update_prompt_forbids_create_surface_and_shows_the_current_tree() {
    let spec = PromptSpec::new("You build UI.", "Add a checkout button.").updating(cart());
    assert_eq!(spec.intent, Intent::Update);
    let prompt = build_subagent_prompt(&spec, CATALOG);

    assert!(prompt.contains("Intent: update"));
    assert!(prompt.contains("Do NOT emit `createSurface` for 'cart'; send only the components and data that change."));
    assert!(prompt.contains("## Surface currently on screen"));
    assert!(prompt.contains("catalogId: cat (fixed; it cannot change)"));
    assert!(prompt.contains("\"id\": \"title\""));
    assert!(prompt.contains("\"total\": 12"));
    assert!(prompt.contains("Target surfaceId: cart"));
}

#[test]
fn the_response_format_section_can_be_suppressed() {
    let mut spec = PromptSpec::new("role", "request");
    spec.include_response_format = false;
    let prompt = build_subagent_prompt(&spec, CATALOG);
    assert!(!prompt.contains(A2UI_OPEN_TAG));
    assert!(prompt.ends_with("- Text required: text (value)"));
}

#[test]
fn design_guidance_is_included_when_supplied() {
    let mut spec = PromptSpec::new("role", "request");
    spec.ui_description = Some(" Use the brand blue for primary buttons. ".to_string());
    let prompt = build_subagent_prompt(&spec, CATALOG);
    assert!(prompt.contains("\n\n## Design guidance\nUse the brand blue for primary buttons.\n\n### Component catalog"));
}

#[test]
fn the_surface_on_screen_is_rendered_exactly() {
    let mut surface = cart();
    surface.catalog_id = None;
    assert_eq!(
        render_prior_surface(&surface),
        "## Surface currently on screen\nsurfaceId: cart\n\nComponents:\n```json\n[\n  {\n    \"id\": \"title\"\n  }\n]\n```\n\nData model:\n```json\n{\n  \"total\": 12\n}\n```\n\nRe-send only the components you change, keeping their ids. Keep 'root' as the root."
    );
    assert_eq!(Intent::Create.to_string(), "create");
}

#[test]
fn a_data_model_is_shown_as_indented_json() {
    let model: serde_json::Value = serde_json::from_str(r#"{"title":"Cart","items":[1]}"#).expect("JSON");
    assert_eq!(
        render_data_model(&model),
        "{\n  \"items\": [\n    1\n  ],\n  \"title\": \"Cart\"\n}"
    );
    assert_eq!(render_data_model(&serde_json::Value::Null), "null");
}

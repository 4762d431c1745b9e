//! A2UI child lists and the retry prompt.

use ag_ui::a2ui::{
    augment_prompt_with_errors, format_validation_errors, root_pointer, Action, AgentMessage,
    AgentPayload, ChildList, ChildTemplate, Component, ErrorCode, FunctionResponse,
    RendererMessage, RendererPayload, UpdateDataModel, ValidationError, GENERATION_GUIDELINES,
    PROTOCOL_VERSION,
};
use ag_ui::data_model::JsonTree;

#[test]
fn validation_errors_render_one_actionable_line_each() {
    let errors = vec![
        ValidationError::new(ErrorCode::NoRoot, "components", "No component has id 'root'."),
        ValidationError::new(
            ErrorCode::ChildCycle,
            "components[1].child",
            "Child references form a loop: a -> b -> a.",
        ),
    ];
    let rendered = format_validation_errors(&errors);
    assert!(rendered.contains("- [no_root] at components: No component has id 'root'."));
    assert!(rendered.contains("- [child_cycle] at components[1].child:"));
    assert_eq!(format_validation_errors(&[]), "");

    let augmented = augment_prompt_with_errors("base prompt", &errors);
    assert!(augmented.starts_with("base prompt"));
    assert!(augmented.contains("## Correction required"));
    assert_eq!(augment_prompt_with_errors("base prompt", &[]), "base prompt");
}

#[test]
fn guidelines_state_the_rules_the_validator_enforces() {
    for rule in ["\"id\": \"root\"", "NEVER nested inline", "reference loop", "top-down"] {
        assert!(
            GENERATION_GUIDELINES.to_lowercase().contains(&rule.to_lowercase()),
            "guidelines omit {rule}"
        );
    }
}

#[test]
fn the_retry_text_is_exact() {
    let errors = vec![ValidationError::new(ErrorCode::DuplicateId, "components[2]", "Id 'a' is used twice.  ")];
    assert_eq!(
        format_validation_errors(&errors),
        "The previous attempt was rejected. Fix every problem below and return the corrected A2UI, not a diff:\n- [duplicate_id] at components[2]: Id 'a' is used twice."
    );
    assert_eq!(
        augment_prompt_with_errors("p", &errors),
        "p\n\n## Correction required\nThe previous attempt was rejected. Fix every problem below and return the corrected A2UI, not a diff:\n- [duplicate_id] at components[2]: Id 'a' is used twice."
    );
    assert_eq!(ErrorCode::UnresolvedChild.as_str(), "unresolved_child");
}

#[test]
fn child_list_names_what_it_references() {
    let ids = ChildList::Ids(vec!["a".to_owned(), "b".to_owned()]);
    assert_eq!(ids.referenced_ids(), vec!["a", "b"]);
    let template = ChildList::Template(ChildTemplate { component_id: "tpl".to_owned(), path: "/items".to_owned() });
    assert_eq!(template.referenced_ids(), vec!["tpl"]);
    assert!(ChildList::Ids(Vec::new()).referenced_ids().is_empty());
}

#[test]
fn agent_messages_carry_the_protocol_version_and_their_surface() {

    let created = AgentMessage::create_surface("s1", "cat");
    assert_eq!(created.version, PROTOCOL_VERSION);
    assert_eq!(created.version, "v0.9");
    assert_eq!(created.surface_id(), Some("s1"));
    let AgentPayload::CreateSurface(payload) = &created.payload else {
        panic!("expected createSurface");
    };
    assert_eq!(payload.catalog_id, "cat");
    assert_eq!(payload.theme, None);

    let update = AgentMessage::update_data_model("s2", "/a", JsonTree::Bool(true));
    assert_eq!(update.surface_id(), Some("s2"));
    assert_eq!(AgentMessage::delete_surface("s3").surface_id(), Some("s3"));

    let answer = AgentMessage::new(AgentPayload::AgentFunctionResponse(FunctionResponse {
        function_call_id: "f".to_string(),
        result: None,
        error: None,
    }));
    assert_eq!(answer.surface_id(), None);
}

#[test]
fn component_properties_are_set_in_place_and_read_back() {

    let c = Component::new("t", "Text")
        .with("text", JsonTree::Text("hi".to_string()))
        .with("variant", JsonTree::Text("h1".to_string()))
        .with("text", JsonTree::Text("bye".to_string()));
    assert_eq!(c.props.len(), 2);
    assert_eq!(c.prop("text"), Some(&JsonTree::Text("bye".to_string())));
    assert_eq!(c.prop("variant"), Some(&JsonTree::Text("h1".to_string())));
    assert_eq!(c.prop("missing"), None);
}

#[test]
fn an_update_message_applies_to_a_model() {

    let update = UpdateDataModel {
        surface_id: "s".to_string(),
        path: root_pointer(),
        value: JsonTree::Number("1".to_string()),
    };
    let mut model = JsonTree::Null;
    update.apply(&mut model).unwrap();
    assert_eq!(model, JsonTree::Number("1".to_string()));
}

#[test]
fn renderer_messages_name_their_surface() {

    let msg = RendererMessage::new(RendererPayload::Action(Action {
        name: "submit".to_string(),
        surface_id: "s1".to_string(),
        source_component_id: "btn".to_string(),
        timestamp: "2026-01-01T00:00:00Z".to_string(),
        context: Vec::new(),
        user_message: None,
    }));
    assert_eq!(msg.surface_id(), Some("s1"));
    assert_eq!(msg.version, "v0.9");
}

//! The built-in stream transformers and the chain that runs them.

use ag_ui::event::{Event, ReasoningEncryptedValueSubtype, TextMessageRole};
use ag_ui::ids::ToolCallId;
use ag_ui::patch::PatchOperation;
use ag_ui::transform::{FilterToolCalls, StreamTransformer, ToolResultToState, TransformerChain};

fn json(text: &str) -> serde_json::Value {
    serde_json::from_str(text).expect("test JSON parses")
}

#[test]
fn allow_list_drops_everything_unlisted() {
    let mut filter = FilterToolCalls::allow(&["search"]);
    assert_eq!(filter.transform(Event::tool_call_start("c1", "search")).len(), 1);
    assert!(filter.transform(Event::tool_call_start("c2", "delete_everything")).is_empty());
    assert!(filter.transform(Event::tool_call_args("c2", "{}")).is_empty());
    assert!(filter.transform(Event::tool_call_result("m1", "c2", "gone")).is_empty());
    assert_eq!(filter.transform(Event::tool_call_args("c1", "{}")).len(), 1);
}

#[test]
fn filter_leaves_unrelated_events_alone() {
    let mut filter = FilterToolCalls::deny(&["nope"]);
    let event = Event::text_message_start("m1", TextMessageRole::Assistant);
    assert_eq!(filter.transform(event.clone()), vec![event]);
}

#[test]
fn filter_drops_encrypted_reasoning_for_a_dropped_call() {
    let mut filter = FilterToolCalls::deny(&["nope"]);
    filter.transform(Event::tool_call_start("c1", "nope"));
    let blob = Event::reasoning_encrypted_value(ReasoningEncryptedValueSubtype::ToolCall, "c1", "opaque");
    assert!(filter.transform(blob).is_empty());
}

#[test]
fn a_deny_list_drops_the_whole_call_and_nothing_else() {
    let mut filter = FilterToolCalls::deny(&["secret_tool"]);
    assert!(filter.transform(Event::tool_call_start("c1", "secret_tool")).is_empty());
    assert!(filter.transform(Event::tool_call_args("c1", "{}")).is_empty());
    assert!(filter.transform(Event::tool_call_end("c1")).is_empty());
    assert!(filter.transform(Event::tool_call_result("m1", "c1", "x")).is_empty());
    assert!(filter
        .transform(Event::tool_call_chunk(Some(ToolCallId::new("c1")), None, Some("{}".to_owned())))
        .is_empty());
    assert_eq!(filter.transform(Event::tool_call_start("c2", "public")).len(), 1);
    assert_eq!(filter.transform(Event::tool_call_args("c2", "{}")).len(), 1);
    // A call that reuses the id for an allowed tool is let through again.
    assert_eq!(filter.transform(Event::tool_call_start("c1", "public")).len(), 1);
    assert_eq!(filter.transform(Event::tool_call_args("c1", "{}")).len(), 1);
}

#[test]
fn promoting_keeps_the_result_by_default() {
    let mut promote = ToolResultToState::snapshot("load");
    promote.transform(Event::tool_call_start("c1", "load"));
    let result = Event::tool_call_result("m1", "c1", r#"{"a":1}"#);
    assert_eq!(
        promote.transform(result.clone()),
        vec![result, Event::state_snapshot(json(r#"{"a": 1}"#))]
    );
}

#[test]
fn promoting_a_patch_emits_a_delta() {
    let mut promote = ToolResultToState::delta("patch_state").replacing();
    promote.transform(Event::tool_call_start("c1", "patch_state"));
    let content = r#"[{"op":"replace","path":"/step","value":2}]"#;
    assert_eq!(
        promote.transform(Event::tool_call_result("m1", "c1", content)),
        vec![Event::state_delta(vec![PatchOperation::replace("/step", serde_json::Value::from(2))])]
    );
}

#[test]
fn unparseable_content_passes_through_untouched() {
    let mut promote = ToolResultToState::snapshot("load").replacing();
    promote.transform(Event::tool_call_start("c1", "load"));
    let result = Event::tool_call_result("m1", "c1", "not json");
    assert_eq!(promote.transform(result.clone()), vec![result]);
}

#[test]
fn other_tools_are_not_promoted() {
    let mut promote = ToolResultToState::snapshot("load");
    promote.transform(Event::tool_call_start("c1", "something_else"));
    let result = Event::tool_call_result("m1", "c1", r#"{"a":1}"#);
    assert_eq!(promote.transform(result.clone()), vec![result]);
}

#[test]
fn chain_runs_transformers_in_order() {
    let mut chain = TransformerChain::new()
        .with(FilterToolCalls::deny(&["load"]))
        .with(ToolResultToState::snapshot("load"));
    assert!(chain.transform(Event::tool_call_start("c1", "load")).is_empty());
    assert!(chain.transform(Event::tool_call_result("m1", "c1", r#"{"a":1}"#)).is_empty());
}

#[test]
fn a_chain_reports_its_length() {
    let chain = TransformerChain::new()
        .with(FilterToolCalls::deny(&["internal_debug"]))
        .with(ToolResultToState::snapshot("load_document").replacing());
    assert_eq!(chain.len(), 2);
    assert!(!chain.is_empty());
    assert!(TransformerChain::new().is_empty());
}

#[test]
fn an_empty_chain_passes_events_through() {
    let mut chain = TransformerChain::new();
    let event = Event::text_message_start("m1", TextMessageRole::Assistant);
    assert_eq!(chain.transform(event.clone()), vec![event]);
}

#[test]
fn a_promoted_result_replaces_the_result_when_asked() {
    let mut promote = ToolResultToState::snapshot("load_document").replacing();
    promote.transform(Event::tool_call_start("c1", "load_document"));
    let out = promote.transform(Event::tool_call_result("m1", "c1", r#"{"title":"Notes"}"#));
    assert_eq!(out, vec![Event::state_snapshot(json(r#"{"title": "Notes"}"#))]);
    // The call was consumed: a second result for it is not promoted.
    let again = Event::tool_call_result("m1", "c1", r#"{"title":"Other"}"#);
    assert_eq!(promote.transform(again.clone()), vec![again]);
}

#[test]
fn a_malformed_patch_is_not_promoted() {
    let mut promote = ToolResultToState::delta("patch_state");
    promote.transform(Event::tool_call_start("c1", "patch_state"));
    let result = Event::tool_call_result("m1", "c1", r#"[{"op":"replace","path":"/step"}]"#);
    assert_eq!(promote.transform(result.clone()), vec![result]);
}

#[test]
fn a_custom_transformer_can_stamp_every_event() {
    struct Stamp;
    impl StreamTransformer for Stamp {
        fn transform(&mut self, event: Event) -> Vec<Event> {
            vec![event.with_timestamp(42)]
        }
    }
    let mut chain = TransformerChain::new().with(Stamp);
    let out = chain.transform(Event::step_started("plan"));
    assert_eq!(out.len(), 1);
    assert_eq!(out[0].base().timestamp, Some(42));
}

#[test]
fn patch_operations_read_from_their_wire_form() {
    let ops = PatchOperation::document_from_json(&json(
        r#"[{"op":"add","path":"/a","value":null},{"op":"move","from":"/a","path":"/b"},{"op":"remove","path":"/b","extra":1}]"#,
    ))
    .expect("a patch document");
    assert_eq!(
        ops,
        vec![
            PatchOperation::add("/a", serde_json::Value::Null),
            PatchOperation::mv("/a", "/b"),
            PatchOperation::remove("/b"),
        ]
    );
    assert!(PatchOperation::from_json(&json(r#"{"op":"jump","path":"/a"}"#)).is_none());
    assert!(PatchOperation::from_json(&json(r#"{"op":"copy","path":"/a"}"#)).is_none());
    assert!(PatchOperation::document_from_json(&json(r#"{"op":"remove","path":"/a"}"#)).is_none());
}

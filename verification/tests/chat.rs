//! The conversation as the model endpoints read it, and the agents'
//! settings.

use ag_ui::chat::{messages_of, system_instruction, text_of};
use ag_ui::data_model::JsonTree;
use ag_ui::gemini::{GeminiAgent, WEATHER_TOOL};
use ag_ui::ids::MessageId;
use ag_ui::llm::{setting, LlmAgent, MissingApiKey, DEFAULT_BASE_URL, DEFAULT_MODEL};
use ag_ui::message::{AssistantMessage, InputContent, Message, ToolCall, UserContent, UserMessage};

fn at<'a>(tree: &'a JsonTree, key: &str) -> &'a JsonTree {
    match tree {
        JsonTree::Object(members) => members.iter().find(|(k, _)| k == key).map(|(_, v)| v).expect("the member is there"),
        _ => panic!("not an object"),
    }
}

fn index(tree: &JsonTree, i: usize) -> &JsonTree {
    match tree {
        JsonTree::Array(items) => &items[i],
        _ => panic!("not an array"),
    }
}

fn text(s: &str) -> JsonTree {
    JsonTree::Text(s.to_string())
}

#[test]
fn a_tool_result_is_matched_to_its_call_by_id() {
    let messages = vec![
        Message::system("m0", "Be brief."),
        Message::user("m1", "weather in Seoul?"),
        Message::Assistant(AssistantMessage {
            id: MessageId::new("m2"),
            tool_calls: Some(vec![ToolCall::new("c1", WEATHER_TOOL, r#"{"city":"Seoul"}"#)]),
            ..Default::default()
        }),
        Message::tool("m3", "c1", r#"{"temperatureC":21}"#),
    ];

    let sent = messages_of(&messages);
    assert_eq!(sent.len(), 4);
    assert_eq!(at(&sent[0], "role"), &text("system"));
    assert_eq!(at(&sent[1], "role"), &text("user"));
    assert_eq!(at(&sent[2], "role"), &text("assistant"));
    let call = index(at(&sent[2], "tool_calls"), 0);
    assert_eq!(at(call, "id"), &text("c1"));
    assert_eq!(at(at(call, "function"), "name"), &text(WEATHER_TOOL));
    assert_eq!(at(at(call, "function"), "arguments"), &text(r#"{"city":"Seoul"}"#));
    assert_eq!(at(&sent[3], "role"), &text("tool"));
    assert_eq!(at(&sent[3], "tool_call_id"), &text("c1"));
}

#[test]
fn an_empty_assistant_turn_is_not_sent() {
    let messages = vec![
        Message::assistant("m1", ""),
        Message::developer("m2", "be kind"),
    ];
    let sent = messages_of(&messages);
    assert_eq!(sent.len(), 1);
    assert_eq!(at(&sent[0], "role"), &text("system"));
}

#[test]
fn instructions_are_folded_with_a_blank_line() {
    let messages = vec![
        Message::system("m0", "Be brief."),
        Message::user("m1", "hi"),
        Message::developer("m2", "Use metric units."),
    ];
    assert_eq!(system_instruction(&messages).as_deref(), Some("Be brief.\n\nUse metric units."));
    assert_eq!(system_instruction(&[Message::user("m1", "hi")]), None);
}

#[test]
fn a_user_turn_keeps_only_its_text_parts() {
    let content = UserContent::Parts(vec![
        InputContent::text("one"),
        InputContent::Binary(ag_ui::message::BinaryInputContent {
            mime_type: "image/png".to_string(),
            id: None,
            url: None,
            data: Some("AAAA".to_string()),
            filename: None,
        }),
        InputContent::text("two"),
    ]);
    assert_eq!(text_of(&content), "one\ntwo");
    let message = Message::User(UserMessage {
        id: MessageId::new("m"),
        content,
        ..Default::default()
    });
    assert_eq!(at(&messages_of(&[message])[0], "content"), &text("one\ntwo"));
}

#[test]
fn a_blank_key_is_absent_rather_than_empty() {
    let agent = LlmAgent::new("http://localhost:11434/v1", "qwen3", Some("  ".to_owned()));
    assert!(agent.api_key().is_none());
}

#[test]
fn a_trailing_slash_does_not_double_up_the_path() {
    let agent = LlmAgent::new("http://localhost:1234/v1/", "local", None);
    assert_eq!(agent.base_url(), "http://localhost:1234/v1");
}

#[test]
fn the_default_endpoint_needs_a_key() {
    assert!(matches!(LlmAgent::from_settings(None, None, None, None), Err(MissingApiKey)));
    let with_slash = Some(format!("{DEFAULT_BASE_URL}/"));
    assert!(LlmAgent::from_settings(with_slash, None, None, None).is_err());
    let agent = LlmAgent::from_settings(None, None, None, Some("k".to_string())).unwrap();
    assert_eq!(agent.api_key(), Some("k"));
    assert_eq!(agent.model_name(), DEFAULT_MODEL);
    let local = LlmAgent::from_settings(Some("http://localhost:11434/v1".to_string()), Some("m".to_string()), None, None)
        .unwrap();
    assert_eq!(local.api_key(), None);
    assert_eq!(local.model("other").model_name(), "other");
}

#[test]
fn settings_are_trimmed_and_blank_is_unset() {
    assert_eq!(setting(Some("  v ".to_string())).as_deref(), Some("v"));
    assert_eq!(setting(Some("   ".to_string())), None);
    assert_eq!(setting(None), None);
}

#[test]
fn a_gemini_agent_needs_a_key_that_is_not_blank() {
    assert!(GeminiAgent::from_key(Some(" ".to_string())).is_err());
    let agent = GeminiAgent::from_key(Some("key".to_string())).unwrap();
    assert_eq!(agent.api_key(), "key");
    assert_eq!(agent.model("gemini-x").model_name(), "gemini-x");
}

#[test]
fn gemini_the_key_never_reaches_a_debug_line() {
    let rendered = GeminiAgent::new("super-secret-key".to_string()).debug_line();
    assert!(!rendered.contains("super-secret-key"), "{rendered}");
    assert_eq!(rendered, "GeminiAgent { model: \"gemini-2.5-flash-lite\", api_key: \"<redacted>\" }");
}

#[test]
fn llm_the_key_never_reaches_a_debug_line() {
    let agent = LlmAgent::new(DEFAULT_BASE_URL, DEFAULT_MODEL, Some("s3cret".to_owned()));
    let rendered = agent.debug_line();
    assert!(!rendered.contains("s3cret"), "{rendered}");
    assert!(rendered.contains("<redacted>"), "{rendered}");
}

#[test]
fn an_agent_without_a_key_shows_none() {
    let agent = LlmAgent::new("http://localhost:11434/v1/", "qwen3", None);
    assert_eq!(
        agent.debug_line(),
        "LlmAgent { base_url: \"http://localhost:11434/v1\", model: \"qwen3\", api_key: None }"
    );
}

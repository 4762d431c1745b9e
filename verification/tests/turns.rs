//! The native Gemini dialect: streamed frames, the model's own turn sent
//! back, and the conversation as `contents`.

use ag_ui::frames::{payload, take_block};
use ag_ui::gemini::WEATHER_TOOL;
use ag_ui::ids::MessageId;
use ag_ui::message::{AssistantMessage, Message, ToolCall};
use ag_ui::turns::{
    contents_of, function_response, model_turn, Call, Candidate, Content, FunctionCall, Part, Role,
    SentPart, StreamFrame, Turn, TurnAction, turn_step,
};
use serde_json::Value;

/// The exact bytes of a live tool-call turn, captured from the wire.
const TOOL_CALL_FRAME: &[u8] = b"data: {\"candidates\": [{\"content\": {\"parts\": [{\"functionCall\": {\"name\": \"get_weather\",\"args\": {\"city\": \"Seoul\"}}}],\"role\": \"model\"},\"finishReason\": \"STOP\",\"index\": 0}],\"modelVersion\": \"gemini-2.5-flash-lite\",\"responseId\": \"igGDauC1F_6C0-kPwsTq-Ag\"}\r\n\r\n";

/// A 3.x turn: an id and a part-level `thoughtSignature` on the call.
const SIGNED_CALL: &[u8] = b"data: {\"candidates\":[{\"content\":{\"parts\":[{\"functionCall\":{\"name\":\"get_weather\",\"args\":{\"city\":\"Seoul\"},\"id\":\"call_1\"},\"thoughtSignature\":\"CvsBAdHtim8=\"}],\"role\":\"model\"},\"finishReason\":\"STOP\"}],\"responseId\":\"r1\"}\n\n";

fn text_field(value: &Value, key: &str) -> Option<String> {
    value.get(key).and_then(Value::as_str).map(str::to_string)
}

fn part_of(value: &Value) -> Part {
    Part {
        text: text_field(value, "text"),
        function_call: value.get("functionCall").map(|call| FunctionCall {
            name: text_field(call, "name").unwrap_or_default(),
            args: call.get("args").cloned().unwrap_or(Value::Null),
            id: text_field(call, "id"),
        }),
        thought: value.get("thought").and_then(Value::as_bool),
        thought_signature: text_field(value, "thoughtSignature"),
    }
}

fn frame_of(value: &Value) -> StreamFrame {
    let candidates = value
        .get("candidates")
        .and_then(Value::as_array)
        .map(|all| {
            all.iter()
                .map(|candidate| Candidate {
                    content: candidate.get("content").map(|content| Content {
                        parts: content
                            .get("parts")
                            .and_then(Value::as_array)
                            .map(|parts| parts.iter().map(part_of).collect())
                            .unwrap_or_default(),
                    }),
                })
                .collect()
        })
        .unwrap_or_default();
    StreamFrame { response_id: text_field(value, "responseId"), candidates }
}

fn frame(bytes: &[u8]) -> StreamFrame {
    let mut buffer = bytes.to_vec();
    let block = take_block(&mut buffer).expect("the frame should be terminated");
    let data = payload(&block).expect("the frame should carry a data line");
    frame_of(&serde_json::from_str(&data).expect("the frame should decode"))
}

fn turn_of(bytes: &[u8]) -> Turn {
    let mut turn = Turn::new();
    turn.absorb(frame(bytes));
    turn
}

fn call_part(part: &SentPart) -> (&str, &Value, Option<&str>, Option<&str>) {
    match part {
        SentPart::FunctionCall { name, args, id, signature } => {
            (name.as_str(), args, id.as_deref(), signature.as_deref())
        }
        _ => panic!("not a call part"),
    }
}

#[test]
fn a_function_call_arrives_whole_in_one_frame() {
    let frame = frame(TOOL_CALL_FRAME);
    assert_eq!(frame.response_id.as_deref(), Some("igGDauC1F_6C0-kPwsTq-Ag"));
    assert_eq!(frame.text(), "");

    let calls = frame.into_calls();
    assert_eq!(calls.len(), 1);
    assert_eq!(calls[0].name, WEATHER_TOOL);
    assert_eq!(calls[0].args["city"], "Seoul");
    assert!(calls[0].id.is_none());
    assert!(calls[0].signature.is_none());
}

#[test]
fn the_empty_text_part_of_a_final_frame_is_not_an_update() {
    let bytes = b"data: {\"candidates\":[{\"content\":{\"parts\":[{\"text\":\"\"}],\"role\":\"model\"},\"finishReason\":\"STOP\"}],\"responseId\":\"r1\"}\n\n";
    assert_eq!(frame(bytes).text(), "");
}

#[test]
fn parallel_calls_each_arrive_in_the_same_frame() {
    let bytes = b"data: {\"candidates\":[{\"content\":{\"parts\":[{\"functionCall\":{\"name\":\"get_weather\",\"args\":{\"city\":\"Seoul\"}}},{\"functionCall\":{\"name\":\"get_weather\",\"args\":{\"city\":\"Oslo\"}}}]}}],\"responseId\":\"r1\"}\n\n";
    let calls = frame(bytes).into_calls();
    assert_eq!(calls.len(), 2);
    assert_eq!(calls[1].args["city"], "Oslo");
}

#[test]
fn a_signature_goes_back_on_the_part_it_arrived_on() {
    let turn = turn_of(SIGNED_CALL);
    assert_eq!(turn.calls[0].signature.as_deref(), Some("CvsBAdHtim8="));

    let sent = model_turn(&turn);
    assert_eq!(sent.role, Role::Model);
    let (name, _, id, signature) = call_part(&sent.parts[0]);
    assert_eq!(name, WEATHER_TOOL);
    assert_eq!(signature, Some("CvsBAdHtim8="));
    assert_eq!(id, Some("call_1"));
}

#[test]
fn a_model_that_sends_no_signature_is_echoed_without_one() {
    let turn = turn_of(TOOL_CALL_FRAME);
    assert!(turn.calls[0].signature.is_none());
    let sent = model_turn(&turn);
    assert_eq!(call_part(&sent.parts[0]).3, None);
}

#[test]
fn an_empty_signature_counts_as_no_signature() {
    let bytes = b"data: {\"candidates\":[{\"content\":{\"parts\":[{\"functionCall\":{\"name\":\"get_weather\",\"args\":{}},\"thoughtSignature\":\"\"}]}}],\"responseId\":\"r1\"}\n\n";
    let turn = turn_of(bytes);
    assert!(turn.calls[0].signature.is_none());
    assert_eq!(call_part(&model_turn(&turn).parts[0]).3, None);
}

#[test]
fn parallel_calls_keep_the_one_signature_and_their_order() {
    let bytes = b"data: {\"candidates\":[{\"content\":{\"parts\":[{\"functionCall\":{\"name\":\"get_weather\",\"args\":{\"city\":\"Seoul\"},\"id\":\"call_1\"},\"thoughtSignature\":\"first-only\"},{\"functionCall\":{\"name\":\"get_weather\",\"args\":{\"city\":\"Oslo\"},\"id\":\"call_2\"}}]}}],\"responseId\":\"r1\"}\n\n";
    let turn = turn_of(bytes);

    let sent = model_turn(&turn);
    let first = call_part(&sent.parts[0]);
    assert_eq!(first.3, Some("first-only"));
    assert_eq!(first.1["city"], "Seoul");
    let second = call_part(&sent.parts[1]);
    assert_eq!(second.3, None);
    assert_eq!(second.1["city"], "Oslo");
}

#[test]
fn text_alongside_a_call_keeps_its_own_signature_and_stays_first() {
    let bytes = b"data: {\"candidates\":[{\"content\":{\"parts\":[{\"text\":\"Let me check.\",\"thoughtSignature\":\"text-sig\"},{\"functionCall\":{\"name\":\"get_weather\",\"args\":{\"city\":\"Seoul\"}},\"thoughtSignature\":\"call-sig\"}]}}],\"responseId\":\"r1\"}\n\n";
    let turn = turn_of(bytes);

    let sent = model_turn(&turn);
    match &sent.parts[0] {
        SentPart::Text { text, signature } => {
            assert_eq!(text, "Let me check.");
            assert_eq!(signature.as_deref(), Some("text-sig"));
        }
        _ => panic!("the text should lead"),
    }
    assert_eq!(call_part(&sent.parts[1]).3, Some("call-sig"));
}

#[test]
fn an_answer_carries_the_id_its_call_arrived_with() {
    let turn = turn_of(SIGNED_CALL);
    let result: Value = serde_json::from_str(r#"{"temperatureC": 21}"#).unwrap();
    match function_response(&turn.calls[0], &result) {
        SentPart::FunctionResponse { name, id, result } => {
            assert_eq!(id.as_deref(), Some("call_1"));
            assert_eq!(name, WEATHER_TOOL);
            assert_eq!(result["temperatureC"], 21);
        }
        _ => panic!("not an answer"),
    }
}

#[test]
fn a_thinking_part_is_not_reply_text() {
    let bytes = b"data: {\"candidates\":[{\"content\":{\"parts\":[{\"text\":\"hmm\",\"thought\":true},{\"text\":\"Hello\"}]}}],\"responseId\":\"r1\"}\n\n";
    assert_eq!(frame(bytes).text(), "Hello");
}

fn weather_exchange() -> Vec<Message> {
    vec![
        Message::user("m1", "weather in Seoul?"),
        Message::Assistant(AssistantMessage {
            id: MessageId::new("m2"),
            tool_calls: Some(vec![ToolCall::new("c1", WEATHER_TOOL, r#"{"city":"Seoul"}"#)]),
            ..Default::default()
        }),
        Message::tool("m3", "c1", r#"{"temperatureC":21}"#),
    ]
}

#[test]
fn a_tool_result_is_matched_to_its_call_by_name() {
    let contents = contents_of(&weather_exchange());
    assert_eq!(contents.len(), 3);
    assert_eq!(contents[1].role, Role::Model);
    assert_eq!(call_part(&contents[1].parts[0]).0, WEATHER_TOOL);
    match &contents[2].parts[0] {
        SentPart::FunctionResponse { name, result, .. } => {
            assert_eq!(name, WEATHER_TOOL);
            assert_eq!(result["temperatureC"], 21);
        }
        _ => panic!("not an answer"),
    }
}

#[test]
fn system_text_and_empty_turns_are_not_contents() {
    let messages = vec![
        Message::system("m0", "Be brief."),
        Message::developer("m1", "Be kind."),
        Message::assistant("m2", ""),
        Message::user("m3", "hi"),
    ];
    let contents = contents_of(&messages);
    assert_eq!(contents.len(), 1);
    assert_eq!(contents[0].role, Role::User);
    match &contents[0].parts[0] {
        SentPart::Text { text, signature } => {
            assert_eq!(text, "hi");
            assert!(signature.is_none());
        }
        _ => panic!("a user turn is text"),
    }
}

#[test]
fn unparsable_arguments_become_an_empty_object_and_text_answers_stay_text() {
    let messages = vec![
        Message::Assistant(AssistantMessage {
            id: MessageId::new("m1"),
            tool_calls: Some(vec![ToolCall::new("c1", "lookup", "{not json")]),
            ..Default::default()
        }),
        Message::tool("m2", "c1", "plain words"),
        Message::tool("m3", "unknown", "42"),
    ];
    let contents = contents_of(&messages);
    assert_eq!(contents.len(), 3);
    let (_, args, _, _) = call_part(&contents[0].parts[0]);
    assert_eq!(args, &Value::Object(serde_json::Map::new()));
    match &contents[1].parts[0] {
        SentPart::FunctionResponse { name, result, .. } => {
            assert_eq!(name, "lookup");
            assert_eq!(result, &Value::String("plain words".to_string()));
        }
        _ => panic!("not an answer"),
    }
    match &contents[2].parts[0] {
        SentPart::FunctionResponse { name, result, .. } => {
            assert_eq!(name, "");
            assert_eq!(result, &Value::from(42));
        }
        _ => panic!("not an answer"),
    }
}

#[test]
fn the_latest_call_under_an_id_names_the_answer() {
    let messages = vec![
        Message::Assistant(AssistantMessage {
            id: MessageId::new("m1"),
            tool_calls: Some(vec![ToolCall::new("c1", "first", "{}")]),
            ..Default::default()
        }),
        Message::Assistant(AssistantMessage {
            id: MessageId::new("m2"),
            tool_calls: Some(vec![ToolCall::new("c1", "second", "{}")]),
            ..Default::default()
        }),
        Message::tool("m3", "c1", "done"),
    ];
    let contents = contents_of(&messages);
    match &contents[2].parts[0] {
        SentPart::FunctionResponse { name, .. } => assert_eq!(name, "second"),
        _ => panic!("not an answer"),
    }
}

#[test]
fn frames_fold_into_one_turn() {
    let mut turn = Turn::new();
    let first = turn.absorb(frame(b"data: {\"candidates\":[{\"content\":{\"parts\":[{\"text\":\"It is \",\"thoughtSignature\":\"a\"}]}}]}\n\n"));
    let second = turn.absorb(frame(b"data: {\"candidates\":[{\"content\":{\"parts\":[{\"text\":\"sunny.\"}]}}]}\n\n"));
    let third = turn.absorb(frame(SIGNED_CALL));
    assert_eq!((first.as_str(), second.as_str(), third.as_str()), ("It is ", "sunny.", ""));
    assert_eq!(turn.text, "It is sunny.");
    assert_eq!(turn.text_signature.as_deref(), Some("a"));
    assert_eq!(turn.calls.len(), 1);
    let _: &Call = &turn.calls[0];
}

#[test]
fn a_turn_opens_its_message_on_the_first_text() {
    let mut turn = Turn::new();
    let mut opened = false;
    let call_only = frame(TOOL_CALL_FRAME);
    assert!(matches!(turn_step(&mut turn, &mut opened, call_only), TurnAction::Nothing));
    assert!(!opened);
    let first = frame(b"data: {\"candidates\":[{\"content\":{\"parts\":[{\"text\":\"It is \"}]}}],\"responseId\":\"r1\"}\n\n");
    match turn_step(&mut turn, &mut opened, first) {
        TurnAction::Open { id, text } => {
            assert_eq!(id.as_deref(), Some("r1"));
            assert_eq!(text, "It is ");
        }
        _ => panic!("the first text opens the message"),
    }
    let second = frame(b"data: {\"candidates\":[{\"content\":{\"parts\":[{\"text\":\"sunny.\"}]}}],\"responseId\":\"r1\"}\n\n");
    match turn_step(&mut turn, &mut opened, second) {
        TurnAction::Delta { text } => assert_eq!(text, "sunny."),
        _ => panic!("later text is a delta"),
    }
    let last = frame(b"data: {\"candidates\":[{\"content\":{\"parts\":[{\"text\":\"\"}]},\"finishReason\":\"STOP\"}]}\n\n");
    assert!(matches!(turn_step(&mut turn, &mut opened, last), TurnAction::Nothing));
    assert_eq!(turn.text, "It is sunny.");
    assert_eq!(turn.calls.len(), 1);
}

#[test]
fn a_frame_without_a_response_id_leaves_the_id_to_the_caller() {
    let mut turn = Turn::new();
    let mut opened = false;
    let bytes = b"data: {\"candidates\":[{\"content\":{\"parts\":[{\"text\":\"Hi\"}]}}]}\n\n";
    match turn_step(&mut turn, &mut opened, frame(bytes)) {
        TurnAction::Open { id, .. } => assert!(id.is_none()),
        _ => panic!("the first text opens the message"),
    }
}

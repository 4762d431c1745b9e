//! Reassembling streamed tool calls from their fragments.

use ag_ui::data_model::JsonTree;
use ag_ui::tool_calls::{
    reply_step, Call, Calls, ChatChoice, ChatDelta, ChatFrame, FunctionDelta, ReplyAction, ToolCallDelta,
};

fn delta(index: Option<u64>, id: Option<&str>, name: Option<&str>, args: Option<&str>) -> ToolCallDelta {
    ToolCallDelta {
        index,
        id: id.map(str::to_string),
        function: Some(FunctionDelta {
            name: name.map(str::to_string),
            arguments: args.map(str::to_string),
        }),
        extra: None,
    }
}

#[test]
fn calls_interleaved_by_index_stay_apart() {
    let mut calls = Calls::new();
    calls.merge(vec![delta(Some(0), Some("a"), Some("weather"), Some("{\"city\":"))]);
    calls.merge(vec![delta(Some(1), Some("b"), Some("time"), Some("{\"zone\":"))]);
    calls.merge(vec![delta(Some(0), None, None, Some("\"Seoul\"}"))]);
    calls.merge(vec![delta(Some(1), None, None, Some("\"KST\"}"))]);
    let done = calls.finish();
    assert_eq!(done.len(), 2);
    assert_eq!(done[0].name, "weather");
    assert_eq!(done[0].arguments, "{\"city\":\"Seoul\"}");
    assert_eq!(done[1].name, "time");
    assert_eq!(done[1].arguments, "{\"zone\":\"KST\"}");
}

#[test]
fn calls_without_an_index_are_kept_apart_by_id() {
    let mut calls = Calls::new();
    calls.merge(vec![
        delta(None, Some("a"), Some("weather"), Some("{}")),
        delta(None, Some("b"), Some("time"), Some("{}")),
    ]);
    let done = calls.finish();
    assert_eq!(done.len(), 2);
    assert_eq!(done[0].id.as_deref(), Some("a"));
    assert_eq!(done[1].id.as_deref(), Some("b"));
}

#[test]
fn a_call_identified_two_ways_stays_one_call() {
    let mut calls = Calls::new();
    calls.merge(vec![delta(None, Some("a"), Some("weather"), Some("{\"x\":"))]);
    calls.merge(vec![delta(Some(0), Some("a"), None, Some("1"))]);
    calls.merge(vec![delta(Some(0), None, None, Some("}"))]);
    let done = calls.finish();
    assert_eq!(done.len(), 1);
    assert_eq!(done[0].arguments, "{\"x\":1}");
}

#[test]
fn a_bare_fragment_joins_the_call_at_its_position() {
    let mut calls = Calls::new();
    calls.merge(vec![delta(None, Some("a"), Some("f"), Some("[")), delta(None, Some("b"), Some("g"), Some("("))]);
    calls.merge(vec![delta(None, None, None, Some("]")), delta(None, None, None, Some(")"))]);
    let done = calls.finish();
    assert_eq!(done[0].arguments, "[]");
    assert_eq!(done[1].arguments, "()");
}

#[test]
fn the_name_is_set_once_and_the_first_id_wins() {
    let mut calls = Calls::new();
    calls.merge(vec![delta(Some(0), Some(""), Some("first"), None)]);
    calls.merge(vec![delta(Some(0), Some("late"), Some("second"), None)]);
    calls.merge(vec![delta(Some(0), Some("later"), None, None)]);
    let done = calls.finish();
    assert_eq!(done[0].name, "first");
    assert_eq!(done[0].id.as_deref(), Some("late"));
}

#[test]
fn the_first_extension_is_kept_and_null_is_none() {
    let mut calls = Calls::new();
    let mut first = delta(Some(0), Some("a"), Some("f"), None);
    first.extra = Some(JsonTree::Null);
    let mut second = delta(Some(0), None, None, None);
    second.extra = Some(JsonTree::Text("sig".to_string()));
    let mut third = delta(Some(0), None, None, None);
    third.extra = Some(JsonTree::Text("other".to_string()));
    calls.merge(vec![first]);
    calls.merge(vec![second]);
    calls.merge(vec![third]);
    let done = calls.finish();
    assert_eq!(done[0].extra, Some(JsonTree::Text("sig".to_string())));
}

#[test]
fn a_call_whose_name_never_arrived_is_dropped() {
    let mut calls = Calls::new();
    calls.merge(vec![delta(Some(0), Some("a"), None, Some("{}"))]);
    calls.merge(vec![delta(Some(1), Some("b"), Some("named"), Some("{}"))]);
    let done = calls.finish();
    assert_eq!(done.len(), 1);
    assert_eq!(done[0].name, "named");
}

#[test]
fn blank_arguments_read_as_an_empty_object() {
    let call = Call { id: None, name: "f".to_string(), arguments: "  ".to_string(), extra: None };
    assert_eq!(call.arguments(), "{}");
    let call = Call { id: None, name: "f".to_string(), arguments: "{\"a\":1}".to_string(), extra: None };
    assert_eq!(call.arguments(), "{\"a\":1}");
}

fn chat_frame(id: Option<&str>, content: Option<&str>, fragments: Vec<ToolCallDelta>) -> ChatFrame {
    ChatFrame {
        id: id.map(str::to_string),
        choices: vec![ChatChoice {
            delta: Some(ChatDelta { content: content.map(str::to_string), tool_calls: fragments }),
        }],
    }
}

#[test]
fn a_reply_opens_on_its_first_text_and_streams_the_rest() {
    let mut calls = Calls::new();
    let mut text = String::new();
    let mut opened = false;
    let role_only = chat_frame(Some("cmpl-1"), None, vec![]);
    assert!(matches!(reply_step(&mut calls, &mut text, &mut opened, role_only), ReplyAction::Nothing));
    assert!(!opened);
    match reply_step(&mut calls, &mut text, &mut opened, chat_frame(Some("cmpl-1"), Some("It is "), vec![])) {
        ReplyAction::Open { id, text } => {
            assert_eq!(id.as_deref(), Some("cmpl-1"));
            assert_eq!(text, "It is ");
        }
        _ => panic!("the first text opens the message"),
    }
    match reply_step(&mut calls, &mut text, &mut opened, chat_frame(Some("cmpl-1"), Some("sunny."), vec![])) {
        ReplyAction::Delta { text } => assert_eq!(text, "sunny."),
        _ => panic!("later text is a delta"),
    }
    let last = chat_frame(Some("cmpl-1"), Some(""), vec![delta(Some(0), Some("c1"), Some("get_weather"), Some("{}"))]);
    assert!(matches!(reply_step(&mut calls, &mut text, &mut opened, last), ReplyAction::Nothing));
    assert_eq!(text, "It is sunny.");
    let finished: Vec<Call> = calls.finish();
    assert_eq!(finished.len(), 1);
}

#[test]
fn an_empty_completion_id_gets_a_fresh_one() {
    let mut calls = Calls::new();
    let mut text = String::new();
    let mut opened = false;
    match reply_step(&mut calls, &mut text, &mut opened, chat_frame(Some(""), Some("Hi"), vec![])) {
        ReplyAction::Open { id, .. } => assert!(id.is_none()),
        _ => panic!("the first text opens the message"),
    }
    let frame = ChatFrame { id: None, choices: vec![] };
    assert_eq!(frame.content(), "");
    assert!(frame.into_tool_calls().is_empty());
}

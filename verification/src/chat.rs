//! The conversation as a model endpoint reads it: an OpenAI-compatible
//! `messages` array, the text of a user turn, and the system instruction
//! the native dialect takes apart from the turns.

use vstd::prelude::*;

use crate::data_model::{lemma_array_model, lemma_object_model, members_model, items_model, Json, JsonTree};
use crate::message::{InputContent, Message, ToolCall, UserContent};
use crate::text::cat;

verus! {

/// The text parts of a multimodal message, in order.
pub open spec fn text_parts(parts: Seq<InputContent>) -> Seq<Seq<char>>
    decreases parts.len(),
{
    if parts.len() == 0 {
        Seq::empty()
    } else {
        match parts.last() {
            InputContent::Text(t) => text_parts(parts.drop_last()).push(t.text@),
            _ => text_parts(parts.drop_last()),
        }
    }
}

/// `pieces` joined with `separator` between each two.
pub open spec fn joined(pieces: Seq<Seq<char>>, separator: Seq<char>) -> Seq<char>
    decreases pieces.len(),
{
    if pieces.len() == 0 {
        Seq::empty()
    } else if pieces.len() == 1 {
        pieces[0]
    } else {
        joined(pieces.drop_last(), separator) + separator + pieces.last()
    }
}

/// The text of a user turn: the text itself, or the text parts one per
/// line. Other parts are left out: the agents are not multimodal.
pub open spec fn user_text(content: UserContent) -> Seq<char> {
    match content {
        UserContent::Text(t) => t@,
        UserContent::Parts(parts) => joined(text_parts(parts@), seq!['\n']),
    }
}

/// `pieces` joined with `separator`, one piece appended after another.
pub(crate) fn join_next(acc: String, count: usize, piece: &str, separator: &str) -> (out: String)
    ensures
        out@ == if count == 0 {
            piece@
        } else {
            acc@ + separator@ + piece@
        },
{
    if count == 0 {
        piece.to_owned()
    } else {
        cat(cat(acc, separator), piece)
    }
}

/// The text of a user turn.
pub fn text_of(content: &UserContent) -> (text: String)
    ensures
        text@ == user_text(*content),
{
    match content {
        UserContent::Text(t) => t.clone(),
        UserContent::Parts(parts) => {
            let mut text = String::new();
            let mut count: usize = 0;
            let mut i: usize = 0;
            proof {
                reveal_strlit("\n");
            }
            assert(parts@.take(0) =~= Seq::<InputContent>::empty());
            while i < parts.len()
                invariant
                    i <= parts@.len(),
                    count <= i,
                    count == text_parts(parts@.take(i as int)).len(),
                    text@ == joined(text_parts(parts@.take(i as int)), seq!['\n']),
                    "\n"@ == seq!['\n'],
                decreases parts@.len() - i,
            {
                assert(parts@.take(i + 1).drop_last() =~= parts@.take(i as int));
                match &parts[i] {
                    InputContent::Text(t) => {
                        let ghost before = text_parts(parts@.take(i as int));
                        text = join_next(text, count, t.text.as_str(), "\n");
                        count = count + 1;
                        proof {
                            let after = before.push(t.text@);
                            assert(after.drop_last() =~= before);
                            if before.len() == 0 {
                                assert(after =~= seq![t.text@]);
                            }
                        }
                    },
                    _ => {},
                }
                i = i + 1;
            }
            assert(parts@.take(parts@.len() as int) =~= parts@);
            text
        },
    }
}

/// A JSON object from its members.
pub open spec fn object(members: Seq<(Seq<char>, Json)>) -> Json {
    Json::Object(members)
}

/// A tool call as the chat wire writes it.
pub open spec fn chat_call(call: ToolCall) -> Json {
    object(
        seq![
            ("id"@, Json::Text(call.id@)),
            ("type"@, Json::Text("function"@)),
            ("function"@, object(seq![("name"@, Json::Text(call.function.name@)), ("arguments"@, Json::Text(call.function.arguments@))])),
        ],
    )
}

/// The calls of an assistant turn.
pub open spec fn calls_of(calls: Option<Vec<ToolCall>>) -> Seq<ToolCall> {
    match calls {
        Some(c) => c@,
        None => Seq::empty(),
    }
}

/// The text of an assistant turn, where it has some.
pub open spec fn reply_text(content: Option<String>) -> Option<Seq<char>> {
    match content {
        Some(t) => if t@.len() > 0 {
            Some(t@)
        } else {
            None
        },
        None => None,
    }
}

/// One message as the chat wire writes it, or `None` for a message the
/// model is not shown (reasoning, activity, and an assistant turn with
/// neither text nor calls). `developer` goes as `system`, which every
/// compatible server understands.
pub open spec fn chat_message(message: Message) -> Option<Json> {
    match message {
        Message::System(m) => Some(object(seq![("role"@, Json::Text("system"@)), ("content"@, Json::Text(m.content@))])),
        Message::Developer(m) => Some(object(seq![("role"@, Json::Text("system"@)), ("content"@, Json::Text(m.content@))])),
        Message::User(m) => Some(object(seq![("role"@, Json::Text("user"@)), ("content"@, Json::Text(user_text(m.content)))])),
        Message::Assistant(m) => {
            let calls = calls_of(m.tool_calls);
            let text = reply_text(m.content);
            if text is None && calls.len() == 0 {
                None
            } else {
                Some(
                    object(
                        seq![("role"@, Json::Text("assistant"@))] + match text {
                            Some(t) => seq![("content"@, Json::Text(t))],
                            None => Seq::empty(),
                        } + if calls.len() > 0 {
                            seq![("tool_calls"@, Json::Array(calls.map_values(|c: ToolCall| chat_call(c))))]
                        } else {
                            Seq::empty()
                        },
                    ),
                )
            }
        },
        Message::Tool(m) => Some(
            object(seq![("role"@, Json::Text("tool"@)), ("tool_call_id"@, Json::Text(m.tool_call_id@)), ("content"@, Json::Text(m.content@))]),
        ),
        _ => None,
    }
}

/// The conversation as the chat wire's `messages`.
pub open spec fn chat_messages(messages: Seq<Message>) -> Seq<Json>
    decreases messages.len(),
{
    if messages.len() == 0 {
        Seq::empty()
    } else {
        match chat_message(messages.last()) {
            Some(j) => chat_messages(messages.drop_last()).push(j),
            None => chat_messages(messages.drop_last()),
        }
    }
}

/// A text value.
fn text_tree(text: &str) -> (tree: JsonTree)
    ensures
        tree@ == Json::Text(text@),
{
    JsonTree::Text(text.to_owned())
}

/// An object with two text members.
fn pair(k1: &str, v1: &str, k2: &str, v2: &str) -> (tree: JsonTree)
    ensures
        tree@ == object(seq![(k1@, Json::Text(v1@)), (k2@, Json::Text(v2@))]),
{
    let mut members: Vec<(String, JsonTree)> = Vec::new();
    members.push((k1.to_owned(), text_tree(v1)));
    members.push((k2.to_owned(), text_tree(v2)));
    proof {
        lemma_object_model(members);
    }
    assert(members_model(members@) =~= seq![(k1@, Json::Text(v1@)), (k2@, Json::Text(v2@))]);
    JsonTree::Object(members)
}

/// A tool call as the chat wire writes it.
fn call_tree(call: &ToolCall) -> (tree: JsonTree)
    ensures
        tree@ == chat_call(*call),
{
    let function = pair("name", call.function.name.as_str(), "arguments", call.function.arguments.as_str());
    let mut members: Vec<(String, JsonTree)> = Vec::new();
    members.push(("id".to_owned(), text_tree(call.id.as_str())));
    members.push(("type".to_owned(), text_tree("function")));
    members.push(("function".to_owned(), function));
    proof {
        lemma_object_model(members);
        reveal_strlit("id");
        reveal_strlit("type");
        reveal_strlit("function");
        reveal_strlit("name");
        reveal_strlit("arguments");
    }
    assert(members_model(members@) =~= chat_call(*call)->Object_0);
    JsonTree::Object(members)
}

/// One message as the chat wire writes it, if the model is shown it.
pub fn chat_message_of(message: &Message) -> (tree: Option<JsonTree>)
    ensures
        match chat_message(*message) {
            Some(j) => tree matches Some(t) && t@ == j,
            None => tree is None,
        },
{
    proof {
        reveal_strlit("role");
        reveal_strlit("content");
        reveal_strlit("system");
        reveal_strlit("user");
        reveal_strlit("assistant");
        reveal_strlit("tool");
        reveal_strlit("tool_call_id");
        reveal_strlit("tool_calls");
    }
    match message {
        Message::System(m) => Some(pair("role", "system", "content", m.content.as_str())),
        Message::Developer(m) => Some(pair("role", "system", "content", m.content.as_str())),
        Message::User(m) => {
            let text = text_of(&m.content);
            Some(pair("role", "user", "content", text.as_str()))
        },
        Message::Tool(m) => {
            let mut members: Vec<(String, JsonTree)> = Vec::new();
            members.push(("role".to_owned(), text_tree("tool")));
            members.push(("tool_call_id".to_owned(), text_tree(m.tool_call_id.as_str())));
            members.push(("content".to_owned(), text_tree(m.content.as_str())));
            proof {
                lemma_object_model(members);
            }
            assert(members_model(members@) =~= chat_message(*message)->Some_0->Object_0);
            Some(JsonTree::Object(members))
        },
        Message::Assistant(m) => {
            let mut calls: Vec<JsonTree> = Vec::new();
            let ghost all = calls_of(m.tool_calls);
            match &m.tool_calls {
                Some(list) => {
                    let mut i: usize = 0;
                    while i < list.len()
                        invariant
                            all == list@,
                            i <= list@.len(),
                            calls@.len() == i,
                            forall|j: int| 0 <= j < i ==> (#[trigger] calls@[j])@ == chat_call(list@[j]),
                        decreases list@.len() - i,
                    {
                        calls.push(call_tree(&list[i]));
                        i = i + 1;
                    }
                },
                None => {},
            }
            assert(items_model(calls@) =~= all.map_values(|c: ToolCall| chat_call(c)));
            let text: Option<&String> = match &m.content {
                Some(t) => if t.as_str().is_empty() {
                    None
                } else {
                    Some(t)
                },
                None => None,
            };
            if text.is_none() && calls.len() == 0 {
                return None;
            }
            let mut members: Vec<(String, JsonTree)> = Vec::new();
            members.push(("role".to_owned(), text_tree("assistant")));
            let ghost role_part = seq![("role"@, Json::Text("assistant"@))];
            assert(members_model(members@) =~= role_part);
            let ghost text_part = match reply_text(m.content) {
                Some(t) => seq![("content"@, Json::Text(t))],
                None => Seq::<(Seq<char>, Json)>::empty(),
            };
            match text {
                Some(t) => {
                    members.push(("content".to_owned(), text_tree(t.as_str())));
                },
                None => {},
            }
            assert(members_model(members@) =~= role_part + text_part);
            let ghost calls_part = if all.len() > 0 {
                seq![("tool_calls"@, Json::Array(all.map_values(|c: ToolCall| chat_call(c))))]
            } else {
                Seq::<(Seq<char>, Json)>::empty()
            };
            if calls.len() > 0 {
                proof {
                    lemma_array_model(calls);
                }
                let ghost before = members_model(members@);
                members.push(("tool_calls".to_owned(), JsonTree::Array(calls)));
                assert(members_model(members@) =~= before + calls_part);
            } else {
                assert(role_part + text_part + calls_part =~= role_part + text_part);
            }
            proof {
                lemma_object_model(members);
            }
            assert(members_model(members@) =~= role_part + text_part + calls_part);
            Some(JsonTree::Object(members))
        },
        _ => None,
    }
}

/// The conversation as the chat wire's `messages`: each message the model
/// is shown, in order.
pub fn messages_of(messages: &[Message]) -> (out: Vec<JsonTree>)
    ensures
        items_model(out@) == chat_messages(messages@),
{
    let mut out: Vec<JsonTree> = Vec::new();
    let mut i: usize = 0;
    assert(messages@.take(0) =~= Seq::<Message>::empty());
    while i < messages.len()
        invariant
            i <= messages@.len(),
            items_model(out@) == chat_messages(messages@.take(i as int)),
        decreases messages@.len() - i,
    {
        assert(messages@.take(i + 1).drop_last() =~= messages@.take(i as int));
        let ghost before = items_model(out@);
        match chat_message_of(&messages[i]) {
            Some(tree) => {
                let ghost j = tree@;
                out.push(tree);
                assert(items_model(out@) =~= before.push(j));
            },
            None => {},
        }
        i = i + 1;
    }
    assert(messages@.take(messages@.len() as int) =~= messages@);
    out
}

/// The system and developer messages, in order.
pub open spec fn instructions(messages: Seq<Message>) -> Seq<Seq<char>>
    decreases messages.len(),
{
    if messages.len() == 0 {
        Seq::empty()
    } else {
        match messages.last() {
            Message::System(m) => instructions(messages.drop_last()).push(m.content@),
            Message::Developer(m) => instructions(messages.drop_last()).push(m.content@),
            _ => instructions(messages.drop_last()),
        }
    }
}

/// The system and developer messages folded into one instruction, a blank
/// line between each two; `None` where there are none.
pub fn system_instruction(messages: &[Message]) -> (instruction: Option<String>)
    ensures
        match instruction {
            Some(t) => instructions(messages@).len() > 0 && t@ == joined(instructions(messages@), seq!['\n', '\n']),
            None => instructions(messages@).len() == 0,
        },
{
    let mut text = String::new();
    let mut count: usize = 0;
    let mut i: usize = 0;
    proof {
        reveal_strlit("\n\n");
    }
    assert(messages@.take(0) =~= Seq::<Message>::empty());
    while i < messages.len()
        invariant
            i <= messages@.len(),
            count <= i,
            count == instructions(messages@.take(i as int)).len(),
            text@ == joined(instructions(messages@.take(i as int)), seq!['\n', '\n']),
            "\n\n"@ == seq!['\n', '\n'],
        decreases messages@.len() - i,
    {
        assert(messages@.take(i + 1).drop_last() =~= messages@.take(i as int));
        let ghost before = instructions(messages@.take(i as int));
        let content: Option<&String> = match &messages[i] {
            Message::System(m) => Some(&m.content),
            Message::Developer(m) => Some(&m.content),
            _ => None,
        };
        match content {
            Some(c) => {
                text = join_next(text, count, c.as_str(), "\n\n");
                count = count + 1;
                proof {
                    let after = before.push(c@);
                    assert(after.drop_last() =~= before);
                    if before.len() == 0 {
                        assert(after =~= seq![c@]);
                    }
                }
            },
            None => {},
        }
        i = i + 1;
    }
    assert(messages@.take(messages@.len() as int) =~= messages@);
    if count == 0 {
        None
    } else {
        Some(text)
    }
}

/// The model sees the conversation in its order: the chat messages of two
/// stretches of conversation, one after the other, are those of the first
/// followed by those of the second.
pub proof fn law_the_conversation_keeps_its_order(a: Seq<Message>, b: Seq<Message>)
    ensures
        chat_messages(a + b) == chat_messages(a) + chat_messages(b),
    decreases b.len(),
{
    if b.len() == 0 {
        assert(a + b =~= a);
        assert(chat_messages(a) + chat_messages(b) =~= chat_messages(a));
    } else {
        law_the_conversation_keeps_its_order(a, b.drop_last());
        assert((a + b).drop_last() =~= a + b.drop_last());
        assert((a + b).last() == b.last());
        match chat_message(b.last()) {
            Some(j) => {
                assert(chat_messages(a) + chat_messages(b.drop_last()).push(j) =~= (chat_messages(a) + chat_messages(
                    b.drop_last(),
                )).push(j));
            },
            None => {},
        }
    }
}

/// Only reasoning, activity and empty assistant turns are kept from the
/// model: every system, developer, user and tool message is shown, one chat
/// message each.
pub proof fn law_every_spoken_message_is_shown(message: Message)
    ensures
        (message is System || message is Developer || message is User || message is Tool) ==> chat_message(message) is Some,
        chat_messages(seq![message]) == match chat_message(message) {
            Some(j) => seq![j],
            None => Seq::<Json>::empty(),
        },
{
    let one = seq![message];
    assert(one.drop_last() =~= Seq::<Message>::empty());
    assert(one.last() == message);
    assert(chat_messages(one.drop_last()) == Seq::<Json>::empty());
    match chat_message(message) {
        Some(j) => {
            assert(Seq::<Json>::empty().push(j) =~= seq![j]);
        },
        None => {},
    }
}

} // verus!

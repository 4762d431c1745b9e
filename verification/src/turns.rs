//! The native Gemini dialect's turns: what one streamed frame says, the
//! model's own turn rebuilt to be sent back, and the conversation as the
//! `contents` of a request.
//!
//! JSON the library never looks into (a call's arguments, a tool's answer)
//! is carried as `serde_json::Value`; the shape around it is the library's
//! own, and is turned into request JSON at the edge.

use vstd::prelude::*;

use crate::chat::{calls_of, reply_text, text_of, user_text};
use crate::ids::text_eq;
use crate::json::{empty_object, json_members, json_parsed, json_text, parse_json, string_value};
use crate::message::{AssistantMessage, Message, ToolCall};

verus! {

/// The `functionCall` object of a part.
pub struct FunctionCall {
    /// The tool's name.
    pub name: String,
    /// A JSON object, not an argument string.
    pub args: serde_json::Value,
    /// Absent on 2.5; 3.x sends `"call_…"`.
    pub id: Option<String>,
}

/// One part of a candidate's content.
pub struct Part {
    /// The text, on a text part.
    pub text: Option<String>,
    /// The call, on a call part.
    pub function_call: Option<FunctionCall>,
    /// Set on a reasoning part, whose text is not reply text.
    pub thought: Option<bool>,
    /// The opaque signature of the thinking behind this part. It has to go
    /// back on the part it arrived on.
    pub thought_signature: Option<String>,
}

/// A candidate's content.
pub struct Content {
    /// Its parts, in order.
    pub parts: Vec<Part>,
}

/// One candidate answer.
pub struct Candidate {
    /// What it says, if anything.
    pub content: Option<Content>,
}

/// One decoded `data:` frame. Everything is optional, so a field appearing
/// or moving on the provider's side degrades into missing data.
pub struct StreamFrame {
    /// The response this frame belongs to.
    pub response_id: Option<String>,
    /// The candidates; only the first is read.
    pub candidates: Vec<Candidate>,
}

/// One call as Gemini sends it, with the signature of the part it came in.
/// An absent signature stays absent, never an empty string.
pub struct Call {
    /// The tool's name.
    pub name: String,
    /// The arguments object.
    pub args: serde_json::Value,
    /// The call's id, where the model sent one.
    pub id: Option<String>,
    /// The part's signature, where it had a non-empty one.
    pub signature: Option<String>,
}

/// A signature worth sending back: present, and not empty.
pub open spec fn kept_signature(value: Option<Seq<char>>) -> Option<Seq<char>> {
    match value {
        Some(s) => if s.len() > 0 {
            Some(s)
        } else {
            None
        },
        None => None,
    }
}

/// The view of an optional text.
pub open spec fn opt_view(value: Option<String>) -> Option<Seq<char>> {
    match value {
        Some(s) => Some(s@),
        None => None,
    }
}

/// The parts of the first candidate's content, the only ones read.
pub open spec fn first_parts(frame: StreamFrame) -> Seq<Part> {
    if frame.candidates@.len() > 0 {
        match frame.candidates@[0].content {
            Some(c) => c.parts@,
            None => Seq::empty(),
        }
    } else {
        Seq::empty()
    }
}

/// Whether `part` is reasoning rather than reply.
pub open spec fn is_thought(part: Part) -> bool {
    part.thought == Some(true)
}

/// The reply text of `parts`: the text of each part that is not a thought,
/// in order.
pub open spec fn frame_text(parts: Seq<Part>) -> Seq<char>
    decreases parts.len(),
{
    if parts.len() == 0 {
        Seq::empty()
    } else {
        let last = parts.last();
        frame_text(parts.drop_last()) + match last.text {
            Some(t) => if is_thought(last) {
                Seq::empty()
            } else {
                t@
            },
            None => Seq::empty(),
        }
    }
}

/// The signature carried by the reply text of `parts`: that of the first
/// text part, not a thought, with a non-empty one.
pub open spec fn text_signature_of(parts: Seq<Part>) -> Option<Seq<char>>
    decreases parts.len(),
{
    if parts.len() == 0 {
        None
    } else {
        let first = parts[0];
        if first.text is Some && !is_thought(first) && kept_signature(opt_view(first.thought_signature)) is Some {
            kept_signature(opt_view(first.thought_signature))
        } else {
            text_signature_of(parts.drop_first())
        }
    }
}

/// A call by value: name, arguments, id and signature.
pub struct CallView {
    pub name: Seq<char>,
    pub args: serde_json::Value,
    pub id: Option<Seq<char>>,
    pub signature: Option<Seq<char>>,
}

impl Call {
    /// This call by value.
    pub open spec fn view(self) -> CallView {
        CallView { name: self.name@, args: self.args, id: opt_view(self.id), signature: opt_view(self.signature) }
    }
}

/// The calls `parts` ask for, in order, each with its part's signature.
pub open spec fn calls_in(parts: Seq<Part>) -> Seq<CallView>
    decreases parts.len(),
{
    if parts.len() == 0 {
        Seq::empty()
    } else {
        let last = parts.last();
        match last.function_call {
            Some(f) => calls_in(parts.drop_last()).push(
                CallView {
                    name: f.name@,
                    args: f.args,
                    id: opt_view(f.id),
                    signature: kept_signature(opt_view(last.thought_signature)),
                },
            ),
            None => calls_in(parts.drop_last()),
        }
    }
}

/// A signature worth sending back: present, and not the empty string.
pub fn signature(value: Option<&str>) -> (kept: Option<&str>)
    ensures
        match value {
            Some(s) => if s@.len() > 0 {
                kept == Some(s)
            } else {
                kept is None
            },
            None => kept is None,
        },
{
    match value {
        Some(s) => if s.is_empty() {
            None
        } else {
            Some(s)
        },
        None => None,
    }
}

impl StreamFrame {
    /// The parts read from this frame.
    fn parts(&self) -> (parts: &[Part])
        ensures
            parts@ == first_parts(*self),
    {
        if self.candidates.len() > 0 {
            match &self.candidates[0].content {
                Some(c) => c.parts.as_slice(),
                None => &[],
            }
        } else {
            &[]
        }
    }

    /// The frame's text, thinking parts excluded.
    pub fn text(&self) -> (text: String)
        ensures
            text@ == frame_text(first_parts(*self)),
    {
        let parts = self.parts();
        let mut text = String::new();
        let mut i: usize = 0;
        assert(parts@.take(0) =~= Seq::<Part>::empty());
        while i < parts.len()
            invariant
                i <= parts@.len(),
                parts@ == first_parts(*self),
                text@ == frame_text(parts@.take(i as int)),
            decreases parts@.len() - i,
        {
            let part = &parts[i];
            assert(parts@.take(i + 1).drop_last() =~= parts@.take(i as int));
            match &part.text {
                Some(t) => {
                    if part.thought != Some(true) {
                        text.append(t.as_str());
                    } else {
                        assert(text@ =~= text@ + Seq::<char>::empty());
                    }
                },
                None => {
                    assert(text@ =~= text@ + Seq::<char>::empty());
                },
            }
            i = i + 1;
        }
        assert(parts@.take(parts@.len() as int) =~= parts@);
        text
    }

    /// The signature carried by this frame's text, if it carried one. Only
    /// the last part of a turn has one.
    pub fn text_signature(&self) -> (found: Option<&str>)
        ensures
            opt_str(found) == text_signature_of(first_parts(*self)),
    {
        let parts = self.parts();
        let mut i: usize = 0;
        assert(parts@.skip(0) =~= parts@);
        while i < parts.len()
            invariant
                i <= parts@.len(),
                parts@ == first_parts(*self),
                text_signature_of(parts@.skip(i as int)) == text_signature_of(parts@),
            decreases parts@.len() - i,
        {
            let part = &parts[i];
            assert(parts@.skip(i as int)[0] == parts@[i as int]);
            assert(parts@.skip(i as int).drop_first() =~= parts@.skip(i + 1));
            if part.text.is_some() && part.thought != Some(true) {
                let sig = match &part.thought_signature {
                    Some(s) => signature(Some(s.as_str())),
                    None => None,
                };
                if sig.is_some() {
                    return sig;
                }
            }
            i = i + 1;
        }
        None
    }

    /// The calls the frame asks for. Several arrive together when the model
    /// calls tools in parallel; each keeps the signature of its own part.
    pub fn into_calls(self) -> (calls: Vec<Call>)
        ensures
            calls@.map_values(|c: Call| c.view()) == calls_in(first_parts(self)),
    {
        let ghost all = first_parts(self);
        let mut calls: Vec<Call> = Vec::new();
        let mut candidates = self.candidates;
        if candidates.len() == 0 {
            assert(calls@.map_values(|c: Call| c.view()) =~= Seq::<CallView>::empty());
            return calls;
        }
        let first = candidates.swap_remove(0);
        let parts = match first.content {
            Some(c) => c.parts,
            None => Vec::new(),
        };
        assert(parts@ == all);
        assert(calls@.map_values(|c: Call| c.view()) =~= calls_in(all.take(0)));
        for part in it: parts
            invariant
                all == it.seq(),
                calls@.map_values(|c: Call| c.view()) == calls_in(all.take(it.index() as int)),
        {
            let ghost k = it.index() as int;
            assert(all.take(k + 1).drop_last() =~= all.take(k));
            assert(all.take(k + 1).last() == part);
            let Part { function_call, thought_signature, .. } = part;
            match function_call {
                Some(f) => {
                    let sig = match &thought_signature {
                        Some(s) => match signature(Some(s.as_str())) {
                            Some(kept) => Some(kept.to_owned()),
                            None => None,
                        },
                        None => None,
                    };
                    let ghost before = calls@;
                    calls.push(Call { name: f.name, args: f.args, id: f.id, signature: sig });
                    assert(calls@.map_values(|c: Call| c.view()) =~= before.map_values(|c: Call| c.view()).push(
                        calls@.last().view(),
                    ));
                },
                None => {},
            }
        }
        assert(all.take(all.len() as int) =~= all);
        calls
    }
}

/// The model's turn, as it streamed in: its text, the signature that text
/// carried, and its calls in the order they arrived.
pub struct Turn {
    /// The reply text.
    pub text: String,
    /// The signature of the text, where it carried one.
    pub text_signature: Option<String>,
    /// The calls.
    pub calls: Vec<Call>,
}

impl Turn {
    /// A turn that has said nothing yet.
    pub fn new() -> (turn: Self)
        ensures
            turn.text@.len() == 0,
            turn.text_signature is None,
            turn.calls@.len() == 0,
    {
        Turn { text: String::new(), text_signature: None, calls: Vec::new() }
    }

    /// Takes in one frame of the turn's stream and gives back the frame's
    /// text: the text is appended, the calls follow those before them, and a
    /// signature on the frame's text replaces the one before it (the
    /// signature rides on the last part of a turn, and the streamed
    /// fragments reassemble into that part).
    pub fn absorb(&mut self, frame: StreamFrame) -> (text: String)
        ensures
            text@ == frame_text(first_parts(frame)),
            final(self).text@ == old(self).text@ + text@,
            opt_view(final(self).text_signature) == match text_signature_of(first_parts(frame)) {
                Some(s) => Some(s),
                None => opt_view(old(self).text_signature),
            },
            final(self).calls@.map_values(|c: Call| c.view()) == old(self).calls@.map_values(|c: Call| c.view())
                + calls_in(first_parts(frame)),
    {
        let text = frame.text();
        match frame.text_signature() {
            Some(s) => {
                self.text_signature = Some(s.to_owned());
            },
            None => {},
        }
        self.text.append(text.as_str());
        let ghost before = self.calls@;
        let mut calls = frame.into_calls();
        let ghost added = calls@;
        self.calls.append(&mut calls);
        assert(self.calls@.map_values(|c: Call| c.view()) =~= before.map_values(|c: Call| c.view())
            + added.map_values(|c: Call| c.view()));
        text
    }
}

/// What to do with the reply message after one frame of a streamed turn.
pub enum TurnAction {
    /// Nothing: the frame carried no reply text, and an empty delta is not
    /// an update.
    Nothing,
    /// Open the reply message and stream `text` as its first delta: under
    /// `id`, the frame's response id (stable across the stream), or under a
    /// fresh id where the frame has none.
    Open {
        /// The message id, where the frame names one.
        id: Option<String>,
        /// The first text.
        text: String,
    },
    /// Stream `text` into the message already open.
    Delta {
        /// The text.
        text: String,
    },
}

/// One step of streaming a model turn: `frame` is folded into `turn` (see
/// [`Turn::absorb`]), and the reply message opens on the first frame that
/// carries text and takes every later frame's text as a delta. `opened`
/// records whether it has opened.
pub fn turn_step(turn: &mut Turn, opened: &mut bool, frame: StreamFrame) -> (action: TurnAction)
    ensures
        ({
            let text = frame_text(first_parts(frame));
            &&& final(turn).text@ == old(turn).text@ + text
            &&& opt_view(final(turn).text_signature) == match text_signature_of(first_parts(frame)) {
                Some(s) => Some(s),
                None => opt_view(old(turn).text_signature),
            }
            &&& final(turn).calls@.map_values(|c: Call| c.view()) == old(turn).calls@.map_values(|c: Call| c.view())
                + calls_in(first_parts(frame))
            &&& *final(opened) == (*old(opened) || text.len() > 0)
            &&& if text.len() == 0 {
                action is Nothing
            } else if !*old(opened) {
                action matches TurnAction::Open { id, text: t } && opt_view(id) == opt_view(frame.response_id)
                    && t@ == text
            } else {
                action matches TurnAction::Delta { text: t } && t@ == text
            }
        }),
{
    let id = match &frame.response_id {
        Some(r) => Some(r.clone()),
        None => None,
    };
    let text = turn.absorb(frame);
    if text.as_str().is_empty() {
        TurnAction::Nothing
    } else if !*opened {
        *opened = true;
        TurnAction::Open { id, text }
    } else {
        TurnAction::Delta { text }
    }
}

/// Who a turn of the conversation is from.
#[derive(Clone, Copy, Debug, PartialEq, Eq, Structural)]
pub enum Role {
    /// The user, or a tool's answer.
    User,
    /// The model.
    Model,
}

/// One part of a turn as it is sent.
pub enum SentPart {
    /// Text, with the signature it arrived with.
    Text {
        /// The text.
        text: String,
        /// Its signature, where it had one.
        signature: Option<String>,
    },
    /// A call the model made, with the signature of the part it arrived on.
    FunctionCall {
        /// The tool's name.
        name: String,
        /// The arguments object.
        args: serde_json::Value,
        /// The call's id, where it had one.
        id: Option<String>,
        /// The part's signature, where it had one.
        signature: Option<String>,
    },
    /// A tool's answer to a call.
    FunctionResponse {
        /// The name of the tool that answered.
        name: String,
        /// The id of the call answered, where it had one.
        id: Option<String>,
        /// The answer.
        result: serde_json::Value,
    },
}

/// A part by value.
pub enum PartView {
    Text(Seq<char>, Option<Seq<char>>),
    FunctionCall(CallView),
    FunctionResponse(Seq<char>, Option<Seq<char>>, serde_json::Value),
}

impl SentPart {
    /// This part by value.
    pub open spec fn view(self) -> PartView {
        match self {
            SentPart::Text { text, signature } => PartView::Text(text@, opt_view(signature)),
            SentPart::FunctionCall { name, args, id, signature } => PartView::FunctionCall(
                CallView { name: name@, args, id: opt_view(id), signature: opt_view(signature) },
            ),
            SentPart::FunctionResponse { name, id, result } => PartView::FunctionResponse(name@, opt_view(id), result),
        }
    }
}

/// One turn of the conversation as it is sent.
pub struct SentContent {
    /// Who it is from.
    pub role: Role,
    /// Its parts, in order.
    pub parts: Vec<SentPart>,
}

/// A turn by value.
pub struct ContentView {
    pub role: Role,
    pub parts: Seq<PartView>,
}

/// Parts by value.
pub open spec fn parts_view(parts: Seq<SentPart>) -> Seq<PartView> {
    parts.map_values(|p: SentPart| p.view())
}

/// Calls as parts of the model's turn, by value.
pub open spec fn call_parts(calls: Seq<Call>) -> Seq<PartView> {
    calls.map_values(|c: Call| PartView::FunctionCall(c.view()))
}

impl SentContent {
    /// This turn by value.
    pub open spec fn view(self) -> ContentView {
        ContentView { role: self.role, parts: parts_view(self.parts@) }
    }
}

/// The parts of the model's own turn: its text first where it has some,
/// then each call on a part of its own, in the order they arrived, each
/// with the signature of the part it came on.
pub open spec fn model_parts(turn: Turn) -> Seq<PartView> {
    (if turn.text@.len() > 0 {
        seq![PartView::Text(turn.text@, opt_view(turn.text_signature))]
    } else {
        Seq::empty()
    }) + call_parts(turn.calls@)
}

/// A copy of an optional text.
fn copy_opt(value: &Option<String>) -> (copy: Option<String>)
    ensures
        opt_view(copy) == opt_view(*value),
{
    match value {
        Some(s) => Some(s.clone()),
        None => None,
    }
}

/// A call as a part of the model's turn.
fn call_part(call: &Call) -> (part: SentPart)
    ensures
        part.view() == PartView::FunctionCall(call.view()),
{
    SentPart::FunctionCall {
        name: call.name.clone(),
        args: call.args.clone(),
        id: copy_opt(&call.id),
        signature: copy_opt(&call.signature),
    }
}

/// The model's own turn, rebuilt so the next request carries it as context.
pub fn model_turn(turn: &Turn) -> (content: SentContent)
    ensures
        content.role == Role::Model,
        content.view().parts == model_parts(*turn),
{
    let mut parts: Vec<SentPart> = Vec::new();
    if !turn.text.as_str().is_empty() {
        parts.push(SentPart::Text { text: turn.text.clone(), signature: copy_opt(&turn.text_signature) });
    }
    let ghost lead = parts_view(parts@);
    assert(lead =~= if turn.text@.len() > 0 {
        seq![PartView::Text(turn.text@, opt_view(turn.text_signature))]
    } else {
        Seq::<PartView>::empty()
    });
    let mut i: usize = 0;
    while i < turn.calls.len()
        invariant
            i <= turn.calls@.len(),
            parts_view(parts@) == lead + call_parts(turn.calls@.take(i as int)),
        decreases turn.calls@.len() - i,
    {
        let part = call_part(&turn.calls[i]);
        let ghost pv = part.view();
        let ghost before = parts@;
        parts.push(part);
        proof {
            assert(parts_view(parts@) =~= parts_view(before).push(pv));
            assert(call_parts(turn.calls@.take(i + 1)) =~= call_parts(turn.calls@.take(i as int)).push(pv));
            assert(parts_view(parts@) =~= lead + call_parts(turn.calls@.take(i + 1)));
        }
        i = i + 1;
    }
    assert(turn.calls@.take(turn.calls@.len() as int) =~= turn.calls@);
    SentContent { role: Role::Model, parts }
}

/// One tool result, in the shape the model reads it back in: under the
/// call's name, and its id where it had one.
pub fn function_response(call: &Call, result: &serde_json::Value) -> (part: SentPart)
    ensures
        part.view() == PartView::FunctionResponse(call.name@, opt_view(call.id), *result),
{
    SentPart::FunctionResponse { name: call.name.clone(), id: copy_opt(&call.id), result: result.clone() }
}

/// The name of the latest of `calls` made under `id`.
pub open spec fn last_call_named(calls: Seq<ToolCall>, id: Seq<char>) -> Option<Seq<char>>
    decreases calls.len(),
{
    if calls.len() == 0 {
        None
    } else if calls.last().id@ == id {
        Some(calls.last().function.name@)
    } else {
        last_call_named(calls.drop_last(), id)
    }
}

/// The name of the tool the latest call under `id` in `messages` called.
/// A tool's answer names its call only by id, and the native dialect wants
/// the tool's name back.
pub open spec fn called_name(messages: Seq<Message>, id: Seq<char>) -> Option<Seq<char>>
    decreases messages.len(),
{
    if messages.len() == 0 {
        None
    } else {
        let earlier = called_name(messages.drop_last(), id);
        match messages.last() {
            Message::Assistant(m) => match last_call_named(calls_of(m.tool_calls), id) {
                Some(name) => Some(name),
                None => earlier,
            },
            _ => earlier,
        }
    }
}

/// Whether `args` is what a call's argument text is sent as: the JSON it
/// parses as, or else an empty object.
pub open spec fn sent_args(arguments: Seq<char>, args: serde_json::Value) -> bool {
    match json_parsed(arguments) {
        Some(v) => args == v,
        None => json_members(args) == Some(Seq::<(Seq<char>, serde_json::Value)>::empty()),
    }
}

/// Whether `result` is what a tool's answer is sent as: the JSON it parses
/// as, or else the text itself as a JSON string.
pub open spec fn sent_result(content: Seq<char>, result: serde_json::Value) -> bool {
    match json_parsed(content) {
        Some(v) => result == v,
        None => json_text(result) == Some(content),
    }
}

/// Whether `part` is how `call` of an earlier assistant turn is sent: a
/// call part with its name and arguments, and nothing else.
pub open spec fn call_sent(call: ToolCall, part: PartView) -> bool {
    part matches PartView::FunctionCall(v) && v.name == call.function.name@ && v.id is None && v.signature is None
        && sent_args(call.function.arguments@, v.args)
}

/// Whether `message` is sent at all: system and developer text goes into
/// the system instruction instead, reasoning and activity are for the
/// client, and an assistant turn with neither text nor calls says nothing.
pub open spec fn is_sent(message: Message) -> bool {
    match message {
        Message::User(_) => true,
        Message::Assistant(m) => reply_text(m.content) is Some || calls_of(m.tool_calls).len() > 0,
        Message::Tool(_) => true,
        _ => false,
    }
}

/// The text part an assistant turn leads with, where it has text.
pub open spec fn lead_parts(content: Option<String>) -> Seq<PartView> {
    match reply_text(content) {
        Some(t) => seq![PartView::Text(t, None)],
        None => Seq::empty(),
    }
}

/// Whether `sent` is how `message`, coming after `earlier`, is sent.
pub open spec fn sent_content(earlier: Seq<Message>, message: Message, sent: ContentView) -> bool {
    match message {
        Message::User(m) => sent.role == Role::User && sent.parts == seq![PartView::Text(user_text(m.content), None)],
        Message::Assistant(m) => {
            let calls = calls_of(m.tool_calls);
            let lead = lead_parts(m.content);
            &&& sent.role == Role::Model
            &&& sent.parts.len() == lead.len() + calls.len()
            &&& sent.parts.take(lead.len() as int) == lead
            &&& forall|k: int| 0 <= k < calls.len() ==> #[trigger] call_sent(calls[k], sent.parts.skip(lead.len() as int)[k])
        },
        Message::Tool(m) => {
            &&& sent.role == Role::User
            &&& sent.parts.len() == 1
            &&& sent.parts[0] matches PartView::FunctionResponse(name, id, result) && id is None
                && sent_result(m.content@, result) && name == match called_name(earlier, m.tool_call_id@) {
                Some(n) => n,
                None => Seq::empty(),
            }
        },
        _ => false,
    }
}

/// Whether `contents` is how `messages` are sent, one turn for each message
/// that is sent at all, in order.
pub open spec fn sent_as(messages: Seq<Message>, contents: Seq<ContentView>) -> bool
    decreases messages.len(),
{
    if messages.len() == 0 {
        contents.len() == 0
    } else if is_sent(messages.last()) {
        &&& contents.len() > 0
        &&& sent_as(messages.drop_last(), contents.drop_last())
        &&& sent_content(messages.drop_last(), messages.last(), contents.last())
    } else {
        sent_as(messages.drop_last(), contents)
    }
}

/// Turns by value.
pub open spec fn contents_view(contents: Seq<SentContent>) -> Seq<ContentView> {
    contents.map_values(|c: SentContent| c.view())
}

/// The latest entry for `id` among `entries` of (id, name).
pub open spec fn last_entry(entries: Seq<(Seq<char>, Seq<char>)>, id: Seq<char>) -> Option<Seq<char>>
    decreases entries.len(),
{
    if entries.len() == 0 {
        None
    } else if entries.last().0 == id {
        Some(entries.last().1)
    } else {
        last_entry(entries.drop_last(), id)
    }
}

/// Pairs of texts by value.
pub open spec fn entries_view(entries: Seq<(String, String)>) -> Seq<(Seq<char>, Seq<char>)> {
    entries.map_values(|e: (String, String)| (e.0@, e.1@))
}

/// The name of the latest call recorded under `id`.
fn recorded_name<'a>(called: &'a Vec<(String, String)>, id: &str) -> (name: Option<&'a str>)
    ensures
        opt_str(name) == last_entry(entries_view(called@), id@),
{
    let mut j: usize = called.len();
    assert(called@.take(j as int) =~= called@);
    while j > 0
        invariant
            j <= called@.len(),
            last_entry(entries_view(called@.take(j as int)), id@) == last_entry(entries_view(called@), id@),
        decreases j,
    {
        let entry = &called[j - 1];
        assert(entries_view(called@.take(j as int)).drop_last() =~= entries_view(called@.take(j - 1)));
        if text_eq(entry.0.as_str(), id) {
            return Some(entry.1.as_str());
        }
        j = j - 1;
    }
    assert(entries_view(called@.take(0)) =~= Seq::<(Seq<char>, Seq<char>)>::empty());
    None
}

/// A call's arguments as they are sent.
fn args_of(arguments: &str) -> (args: serde_json::Value)
    ensures
        sent_args(arguments@, args),
{
    match parse_json(arguments) {
        Some(v) => v,
        None => empty_object(),
    }
}

/// A tool's answer as it is sent.
fn result_of(content: &str) -> (result: serde_json::Value)
    ensures
        sent_result(content@, result),
{
    match parse_json(content) {
        Some(v) => v,
        None => string_value(content),
    }
}

/// An assistant turn as it is sent, if it is sent at all, with each of its
/// calls recorded in `called` under its id.
fn assistant_turn(m: &AssistantMessage, called: &mut Vec<(String, String)>) -> (sent: Option<SentContent>)
    ensures
        forall|id: Seq<char>| #[trigger] last_entry(entries_view(final(called)@), id)
            == match last_call_named(calls_of(m.tool_calls), id) {
                Some(n) => Some(n),
                None => last_entry(entries_view(old(called)@), id),
            },
        match sent {
            Some(c) => is_sent(Message::Assistant(*m)) && sent_content(Seq::empty(), Message::Assistant(*m), c.view()),
            None => !is_sent(Message::Assistant(*m)),
        },
{
    let mut parts: Vec<SentPart> = Vec::new();
    match &m.content {
        Some(t) => if !t.as_str().is_empty() {
            parts.push(SentPart::Text { text: t.clone(), signature: None });
        },
        None => {},
    }
    let ghost lead = lead_parts(m.content);
    assert(parts_view(parts@) =~= lead);
    let ghost calls = calls_of(m.tool_calls);
    match &m.tool_calls {
        Some(list) => {
            let mut k: usize = 0;
            assert(parts_view(parts@).take(lead.len() as int) =~= lead);
            while k < list.len()
                invariant
                    calls == list@,
                    k <= list@.len(),
                    parts_view(parts@).len() == lead.len() + k,
                    parts_view(parts@).take(lead.len() as int) == lead,
                    forall|q: int| 0 <= q < k ==> #[trigger] call_sent(calls[q], parts_view(parts@).skip(lead.len() as int)[q]),
                    forall|id: Seq<char>| #[trigger] last_entry(entries_view(called@), id)
                        == match last_call_named(calls.take(k as int), id) {
                            Some(n) => Some(n),
                            None => last_entry(entries_view(old(called)@), id),
                        },
                decreases list@.len() - k,
            {
                let call = &list[k];
                let ghost prev_called = called@;
                let ghost prev_parts = parts@;
                called.push((call.id.as_str().to_owned(), call.function.name.clone()));
                let part = SentPart::FunctionCall {
                    name: call.function.name.clone(),
                    args: args_of(call.function.arguments.as_str()),
                    id: None,
                    signature: None,
                };
                let ghost pv = part.view();
                parts.push(part);
                proof {
                    assert(call_sent(calls[k as int], pv));
                    assert(parts_view(parts@) =~= parts_view(prev_parts).push(pv));
                    assert(parts_view(parts@).take(lead.len() as int) =~= parts_view(prev_parts).take(lead.len() as int));
                    assert forall|q: int| 0 <= q < k + 1 implies #[trigger] call_sent(
                        calls[q],
                        parts_view(parts@).skip(lead.len() as int)[q],
                    ) by {
                        if q < k {
                            assert(parts_view(parts@).skip(lead.len() as int)[q] == parts_view(prev_parts).skip(
                                lead.len() as int,
                            )[q]);
                        } else {
                            assert(parts_view(parts@).skip(lead.len() as int)[q] == pv);
                        }
                    }
                    assert(entries_view(called@).drop_last() =~= entries_view(prev_called));
                    assert(entries_view(called@).last() == (calls[k as int].id@, calls[k as int].function.name@));
                    assert(calls.take(k + 1).drop_last() =~= calls.take(k as int));
                    assert(calls.take(k + 1).last() == calls[k as int]);
                    assert forall|id: Seq<char>| #[trigger] last_entry(entries_view(called@), id)
                        == match last_call_named(calls.take(k + 1), id) {
                            Some(n) => Some(n),
                            None => last_entry(entries_view(old(called)@), id),
                        } by {
                        assert(last_entry(entries_view(prev_called), id) == match last_call_named(calls.take(k as int), id) {
                            Some(n) => Some(n),
                            None => last_entry(entries_view(old(called)@), id),
                        });
                    }
                }
                k = k + 1;
            }
            assert(calls.take(list@.len() as int) =~= calls);
        },
        None => {
            assert(parts_view(parts@).take(lead.len() as int) =~= lead);
        },
    }
    if parts.len() == 0 {
        return None;
    }
    Some(SentContent { role: Role::Model, parts })
}

/// A tool's answer as it is sent: under the name of the tool its call
/// called, or no name where no earlier call had its id.
fn tool_turn(content: &str, name: Option<&str>) -> (sent: SentContent)
    ensures
        sent.role == Role::User,
        sent.view().parts.len() == 1,
        sent.view().parts[0] matches PartView::FunctionResponse(n, id, result) && id is None && sent_result(
            content@,
            result,
        ) && n == match opt_str(name) {
            Some(x) => x,
            None => Seq::empty(),
        },
{
    proof {
        reveal_strlit("");
    }
    let name = match name {
        Some(n) => n,
        None => "",
    };
    let mut parts: Vec<SentPart> = Vec::new();
    parts.push(SentPart::FunctionResponse { name: name.to_owned(), id: None, result: result_of(content) });
    SentContent { role: Role::User, parts }
}

/// The conversation as the native dialect's `contents`. A tool's answer
/// is matched to its call by the tool's name, which the conversation keeps
/// on the assistant turn that made the call, so those calls are recorded on
/// the way past.
pub fn contents_of(messages: &[Message]) -> (contents: Vec<SentContent>)
    ensures
        sent_as(messages@, contents_view(contents@)),
{
    let mut contents: Vec<SentContent> = Vec::new();
    let mut called: Vec<(String, String)> = Vec::new();
    let mut i: usize = 0;
    assert(contents_view(contents@) =~= Seq::<ContentView>::empty());
    while i < messages.len()
        invariant
            i <= messages@.len(),
            sent_as(messages@.take(i as int), contents_view(contents@)),
            forall|id: Seq<char>| #[trigger] last_entry(entries_view(called@), id) == called_name(
                messages@.take(i as int),
                id,
            ),
        decreases messages@.len() - i,
    {
        let ghost earlier = messages@.take(i as int);
        let ghost before = contents@;
        let ghost before_called = called@;
        proof {
            assert(messages@.take(i + 1).drop_last() =~= earlier);
            assert(messages@.take(i + 1).last() == messages@[i as int]);
        }
        match &messages[i] {
            Message::User(m) => {
                let text = text_of(&m.content);
                let mut parts: Vec<SentPart> = Vec::new();
                parts.push(SentPart::Text { text, signature: None });
                let content = SentContent { role: Role::User, parts };
                assert(content.view().parts =~= seq![PartView::Text(user_text(m.content), None)]);
                contents.push(content);
                assert(contents_view(contents@).drop_last() =~= contents_view(before));
            },
            Message::Assistant(m) => {
                match assistant_turn(m, &mut called) {
                    Some(content) => {
                        contents.push(content);
                        assert(contents_view(contents@).drop_last() =~= contents_view(before));
                    },
                    None => {},
                }
            },
            Message::Tool(m) => {
                let content = tool_turn(m.content.as_str(), recorded_name(&called, m.tool_call_id.as_str()));
                contents.push(content);
                assert(contents_view(contents@).drop_last() =~= contents_view(before));
            },
            _ => {},
        }
        i = i + 1;
    }
    assert(messages@.take(messages@.len() as int) =~= messages@);
    contents
}

/// An empty signature counts as none: no call taken from a frame carries a
/// signature that is the empty string.
pub proof fn law_no_call_carries_an_empty_signature(parts: Seq<Part>, j: int)
    requires
        0 <= j < calls_in(parts).len(),
    ensures
        calls_in(parts)[j].signature matches Some(s) ==> s.len() > 0,
    decreases parts.len(),
{
    if parts.len() > 0 {
        let rest = calls_in(parts.drop_last());
        if j < rest.len() {
            law_no_call_carries_an_empty_signature(parts.drop_last(), j);
            if parts.last().function_call is Some {
                assert(calls_in(parts)[j] == rest[j]);
            }
        }
    }
}

/// The calls of a turn go back in the order they arrived, each as a part
/// of its own after the text, with its own id and the signature of the
/// part it arrived on.
pub proof fn law_calls_go_back_as_they_came(turn: Turn, k: int)
    requires
        0 <= k < turn.calls@.len(),
    ensures
        model_parts(turn)[(if turn.text@.len() > 0 { 1int } else { 0int }) + k] == PartView::FunctionCall(
            turn.calls@[k].view(),
        ),
{
}

/// The view of an optional text slice.
pub open spec fn opt_str(value: Option<&str>) -> Option<Seq<char>> {
    match value {
        Some(s) => Some(s@),
        None => None,
    }
}

} // verus!

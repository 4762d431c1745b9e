//! Reassembling the tool calls a model streams in fragments.
//!
//! An OpenAI-compatible endpoint sends each call in pieces: the frame that
//! opens a call carries its id and name, later frames carry fragments of its
//! JSON arguments. Parallel calls interleave. Servers disagree on how they
//! say which call a fragment belongs to (an `index`, an `id`, or neither), so
//! a fragment is placed by the first of those that finds a call, and opens a
//! new one otherwise.

use vstd::prelude::*;

use crate::data_model::{Json, JsonTree};
use crate::text::{trim, trimmed};

verus! {

/// The function part of a fragment.
#[derive(Clone, Debug, Default, PartialEq)]
pub struct FunctionDelta {
    /// The tool's name, on the fragment that opens the call.
    pub name: Option<String>,
    /// A fragment of the JSON arguments; not JSON on its own.
    pub arguments: Option<String>,
}

/// One fragment of one tool call.
#[derive(Clone, Debug, Default, PartialEq)]
pub struct ToolCallDelta {
    /// Which call this fragment belongs to, where the server says.
    pub index: Option<u64>,
    /// The server's call id, on the fragment that opens the call.
    pub id: Option<String>,
    /// The function's name and an argument fragment.
    pub function: Option<FunctionDelta>,
    /// A provider extension riding along with the call, echoed untouched.
    pub extra: Option<JsonTree>,
}

/// One call, as far as it has arrived.
#[derive(Clone, Debug, Default, PartialEq)]
pub struct Call {
    /// The server's own id; absent only for a server that sends none.
    pub id: Option<String>,
    /// The tool's name.
    pub name: String,
    /// The JSON text of the arguments, concatenated from the fragments.
    pub arguments: String,
    /// The provider's extension, carried back on the call it arrived on.
    pub extra: Option<JsonTree>,
}

/// What a call holds, with the `index` its slot was opened under.
pub struct SlotView {
    pub id: Option<Seq<char>>,
    pub name: Seq<char>,
    pub arguments: Seq<char>,
    pub extra: Option<Json>,
    pub key: Option<u64>,
}

/// The text of an optional string.
pub open spec fn opt_view(s: Option<String>) -> Option<Seq<char>> {
    match s {
        Some(t) => Some(t@),
        None => None,
    }
}

/// The value of an optional tree.
pub open spec fn opt_json(t: Option<JsonTree>) -> Option<Json> {
    match t {
        Some(v) => Some(v@),
        None => None,
    }
}

/// A fragment's id, where it sends one that is not empty.
pub open spec fn delta_id(delta: ToolCallDelta) -> Option<Seq<char>> {
    match delta.id {
        Some(i) => if i@.len() > 0 {
            Some(i@)
        } else {
            None
        },
        None => None,
    }
}

/// Whether `i` is the first slot opened under `index`.
pub open spec fn is_first_key(slots: Seq<SlotView>, index: u64, i: int) -> bool {
    &&& 0 <= i < slots.len()
    &&& slots[i].key == Some(index)
    &&& forall|j: int| 0 <= j < i ==> slots[j].key != Some(index)
}

/// The first slot opened under `index`.
pub open spec fn slot_by_index(slots: Seq<SlotView>, index: u64) -> Option<int> {
    if exists|i: int| is_first_key(slots, index, i) {
        Some(choose|i: int| is_first_key(slots, index, i))
    } else {
        None
    }
}

/// Whether `i` is the first slot whose call has id `id`.
pub open spec fn is_first_id(slots: Seq<SlotView>, id: Seq<char>, i: int) -> bool {
    &&& 0 <= i < slots.len()
    &&& slots[i].id == Some(id)
    &&& forall|j: int| 0 <= j < i ==> slots[j].id != Some(id)
}

/// The first slot whose call has id `id`.
pub open spec fn slot_by_id(slots: Seq<SlotView>, id: Seq<char>) -> Option<int> {
    if exists|i: int| is_first_id(slots, id, i) {
        Some(choose|i: int| is_first_id(slots, id, i))
    } else {
        None
    }
}

/// A slot with nothing in it yet.
pub open spec fn empty_slot() -> SlotView {
    SlotView { id: None, name: Seq::empty(), arguments: Seq::empty(), extra: None, key: None }
}

/// Which existing slot `delta`, the fragment at `position` of its frame,
/// belongs to: by its `index`, else by its id, else (for a fragment that
/// says neither) by its position; `None` means a new slot.
pub open spec fn existing_slot(slots: Seq<SlotView>, delta: ToolCallDelta, position: int) -> Option<int> {
    let by_index = match delta.index {
        Some(index) => slot_by_index(slots, index),
        None => None,
    };
    let by_id = match delta_id(delta) {
        Some(id) => slot_by_id(slots, id),
        None => None,
    };
    if by_index is Some {
        by_index
    } else if by_id is Some {
        by_id
    } else if delta.index is None && delta_id(delta) is None && position < slots.len() {
        Some(position)
    } else {
        None
    }
}

/// The slots once `delta` has a slot, and which one it is; a slot without an
/// `index` learns the fragment's.
pub open spec fn with_slot_for(slots: Seq<SlotView>, delta: ToolCallDelta, position: int) -> (Seq<SlotView>, int) {
    let (opened, at) = match existing_slot(slots, delta, position) {
        Some(at) => (slots, at),
        None => (slots.push(empty_slot()), slots.len() as int),
    };
    if opened[at].key is None {
        (opened.update(at, SlotView { key: delta.index, ..opened[at] }), at)
    } else {
        (opened, at)
    }
}

/// `slot` with `delta` folded in: the id and the extension are the first
/// ones that arrive, the name is set once, and the argument fragments are
/// appended.
pub open spec fn folded(slot: SlotView, delta: ToolCallDelta) -> SlotView {
    SlotView {
        id: if slot.id is None {
            delta_id(delta)
        } else {
            slot.id
        },
        extra: if slot.extra is None {
            match opt_json(delta.extra) {
                Some(e) => if e is Null {
                    None
                } else {
                    Some(e)
                },
                None => None,
            }
        } else {
            slot.extra
        },
        name: match delta.function {
            Some(f) => match f.name {
                Some(n) => if n@.len() > 0 && slot.name.len() == 0 {
                    n@
                } else {
                    slot.name
                },
                None => slot.name,
            },
            None => slot.name,
        },
        arguments: match delta.function {
            Some(f) => match f.arguments {
                Some(a) => slot.arguments + a@,
                None => slot.arguments,
            },
            None => slot.arguments,
        },
        key: slot.key,
    }
}

/// The slots after the fragment at `position` of a frame.
pub open spec fn merged_one(slots: Seq<SlotView>, delta: ToolCallDelta, position: int) -> Seq<SlotView> {
    let (opened, at) = with_slot_for(slots, delta, position);
    opened.update(at, folded(opened[at], delta))
}

/// The slots after every fragment of a frame, in order.
pub open spec fn merged(slots: Seq<SlotView>, deltas: Seq<ToolCallDelta>) -> Seq<SlotView>
    decreases deltas.len(),
{
    if deltas.len() == 0 {
        slots
    } else {
        merged_one(merged(slots, deltas.drop_last()), deltas.last(), deltas.len() - 1)
    }
}

/// The calls that have a name, in arrival order.
pub open spec fn named(slots: Seq<SlotView>) -> Seq<SlotView>
    decreases slots.len(),
{
    if slots.len() == 0 {
        Seq::empty()
    } else if slots.last().name.len() > 0 {
        named(slots.drop_last()).push(slots.last())
    } else {
        named(slots.drop_last())
    }
}

impl Call {
    /// What this call holds, opened under `key`.
    pub open spec fn slot(self, key: Option<u64>) -> SlotView {
        SlotView { id: opt_view(self.id), name: self.name@, arguments: self.arguments@, extra: opt_json(self.extra), key }
    }

    /// The arguments as JSON text: `{}` where none arrived but white space.
    pub fn arguments(&self) -> (text: &str)
        ensures
            text@ == if trimmed(self.arguments@).len() == 0 {
                "{}"@
            } else {
                self.arguments@
            },
    {
        if trim(self.arguments.as_str()).is_empty() {
            "{}"
        } else {
            self.arguments.as_str()
        }
    }
}

/// The calls of one turn, as they arrive.
#[derive(Clone, Debug, Default)]
pub struct Calls {
    slots: Vec<Call>,
    keys: Vec<Option<u64>>,
}

impl Calls {
    /// What the calls hold, in arrival order.
    pub closed spec fn view_slots(&self) -> Seq<SlotView> {
        Seq::new(self.slots@.len(), |i: int| self.slots@[i].slot(self.keys@[i]))
    }

    /// Every call has its `index` beside it.
    pub closed spec fn wf(&self) -> bool {
        self.slots@.len() == self.keys@.len()
    }

    /// No calls yet.
    pub fn new() -> (calls: Self)
        ensures
            calls.wf(),
            calls.view_slots().len() == 0,
    {
        Calls { slots: Vec::new(), keys: Vec::new() }
    }

    /// The first slot opened under `index`.
    fn find_index(&self, index: u64) -> (found: Option<usize>)
        requires
            self.wf(),
        ensures
            match found {
                Some(i) => slot_by_index(self.view_slots(), index) == Some(i as int),
                None => slot_by_index(self.view_slots(), index) is None,
            },
    {
        let ghost slots = self.view_slots();
        let mut i: usize = 0;
        while i < self.keys.len()
            invariant
                self.wf(),
                slots == self.view_slots(),
                i <= self.keys@.len(),
                forall|j: int| 0 <= j < i ==> slots[j].key != Some(index),
            decreases self.keys@.len() - i,
        {
            if self.keys[i] == Some(index) {
                assert(is_first_key(slots, index, i as int));
                let ghost c = choose|c: int| is_first_key(slots, index, c);
                assert(c == i) by {
                    if c < i {
                        assert(slots[c].key != Some(index));
                    } else if c > i {
                        assert(slots[i as int].key == Some(index));
                    }
                }
                return Some(i);
            }
            i = i + 1;
        }
        assert(!exists|c: int| is_first_key(slots, index, c));
        None
    }

    /// The first slot whose call has id `id`.
    fn find_id(&self, id: &String) -> (found: Option<usize>)
        requires
            self.wf(),
        ensures
            match found {
                Some(i) => slot_by_id(self.view_slots(), id@) == Some(i as int),
                None => slot_by_id(self.view_slots(), id@) is None,
            },
    {
        let ghost slots = self.view_slots();
        let mut i: usize = 0;
        while i < self.slots.len()
            invariant
                self.wf(),
                slots == self.view_slots(),
                i <= self.slots@.len(),
                forall|j: int| 0 <= j < i ==> slots[j].id != Some(id@),
            decreases self.slots@.len() - i,
        {
            let hit = match &self.slots[i].id {
                Some(own) => *own == *id,
                None => false,
            };
            if hit {
                assert(is_first_id(slots, id@, i as int));
                let ghost c = choose|c: int| is_first_id(slots, id@, c);
                assert(c == i) by {
                    if c < i {
                        assert(slots[c].id != Some(id@));
                    } else if c > i {
                        assert(slots[i as int].id == Some(id@));
                    }
                }
                return Some(i);
            }
            i = i + 1;
        }
        assert(!exists|c: int| is_first_id(slots, id@, c));
        None
    }

    /// Which slot `delta`, the fragment at `position` of its frame, belongs
    /// to, opening one if it is new.
    pub fn slot_for(&mut self, delta: &ToolCallDelta, position: usize) -> (at: usize)
        requires
            old(self).wf(),
        ensures
            final(self).wf(),
            at < final(self).view_slots().len(),
            (final(self).view_slots(), at as int) == with_slot_for(old(self).view_slots(), *delta, position as int),
    {
        let ghost before = self.view_slots();
        let id: Option<&String> = match &delta.id {
            Some(i) => if i.as_str().is_empty() {
                None
            } else {
                Some(i)
            },
            None => None,
        };
        let by_index = match delta.index {
            Some(index) => self.find_index(index),
            None => None,
        };
        let by_id = match id {
            Some(i) => self.find_id(i),
            None => None,
        };
        let at: usize = match by_index {
            Some(at) => at,
            None => match by_id {
                Some(at) => at,
                None => if delta.index.is_none() && id.is_none() && position < self.slots.len() {
                    position
                } else {
                    self.slots.push(Call { id: None, name: String::new(), arguments: String::new(), extra: None });
                    self.keys.push(None);
                    assert(self.view_slots() =~= before.push(empty_slot()));
                    self.slots.len() - 1
                },
            },
        };
        let ghost opened = self.view_slots();
        if self.keys[at].is_none() {
            let _old_key = self.keys.remove(at);
            self.keys.insert(at, delta.index);
            assert(self.view_slots() =~= opened.update(at as int, SlotView { key: delta.index, ..opened[at as int] }));
        }
        at
    }

    /// Folds the fragment at `position` of a frame into the calls.
    fn merge_one(&mut self, delta: ToolCallDelta, position: usize)
        requires
            old(self).wf(),
        ensures
            final(self).wf(),
            final(self).view_slots() == merged_one(old(self).view_slots(), delta, position as int),
    {
        let at = self.slot_for(&delta, position);
        let ghost opened = self.view_slots();
        let key = self.keys[at];
        let mut slot = self.slots.remove(at);
        let ghost was = slot.slot(key);
        assert(was == opened[at as int]);
        if slot.id.is_none() {
            slot.id = match delta.id {
                Some(i) => if i.as_str().is_empty() {
                    None
                } else {
                    Some(i)
                },
                None => None,
            };
        }
        if slot.extra.is_none() {
            slot.extra = match delta.extra {
                Some(e) => if e.is_null() {
                    None
                } else {
                    Some(e)
                },
                None => None,
            };
        }
        match delta.function {
            Some(function) => {
                match function.name {
                    Some(name) => {
                        if !name.as_str().is_empty() && slot.name.as_str().is_empty() {
                            slot.name = name;
                        }
                    },
                    None => {},
                }
                match function.arguments {
                    Some(arguments) => {
                        slot.arguments.append(arguments.as_str());
                    },
                    None => {},
                }
            },
            None => {},
        }
        assert(slot.slot(key) == folded(was, delta));
        self.slots.insert(at, slot);
        assert(self.view_slots() =~= opened.update(at as int, folded(opened[at as int], delta)));
    }

    /// Folds one frame's fragments into the calls, in order.
    pub fn merge(&mut self, deltas: Vec<ToolCallDelta>)
        requires
            old(self).wf(),
        ensures
            final(self).wf(),
            final(self).view_slots() == merged(old(self).view_slots(), deltas@),
    {
        let ghost start = self.view_slots();
        let ghost all = deltas@;
        let n = deltas.len();
        let mut position: usize = 0;
        assert(all.take(0) =~= Seq::<ToolCallDelta>::empty());
        for delta in it: deltas
            invariant
                all == deltas@,
                n == all.len(),
                it.seq() == all,
                position == it.index(),
                self.wf(),
                self.view_slots() == merged(start, all.take(it.index() as int)),
        {
            let ghost i = it.index() as int;
            assert(all.take(i + 1).drop_last() =~= all.take(i));
            assert(all.take(i + 1).last() == delta);
            self.merge_one(delta, position);
            position = position + 1;
        }
        assert(all.take(all.len() as int) =~= all);
    }

    /// The finished calls: those that have a name, in arrival order. A slot
    /// whose name never arrived is dropped.
    pub fn finish(self) -> (calls: Vec<Call>)
        requires
            self.wf(),
        ensures
            calls@.len() == named(self.view_slots()).len(),
            forall|i: int| 0 <= i < calls@.len() ==> {
                let s = #[trigger] named(self.view_slots())[i];
                &&& opt_view(calls@[i].id) == s.id
                &&& calls@[i].name@ == s.name
                &&& calls@[i].arguments@ == s.arguments
                &&& opt_json(calls@[i].extra) == s.extra
            },
    {
        let ghost all = self.view_slots();
        let Calls { slots, keys } = self;
        let ghost calls_in = slots@;
        assert(all.len() == calls_in.len());
        assert forall|j: int| 0 <= j < all.len() implies all[j] == (#[trigger] calls_in[j]).slot(keys@[j]) by {}
        let mut out: Vec<Call> = Vec::new();
        assert(all.take(0) =~= Seq::<SlotView>::empty());
        for call in it: slots
            invariant
                it.seq() == calls_in,
                all.len() == calls_in.len(),
                forall|j: int| 0 <= j < all.len() ==> all[j] == (#[trigger] calls_in[j]).slot(all[j].key),
                out@.len() == named(all.take(it.index() as int)).len(),
                forall|j: int| 0 <= j < out@.len() ==> {
                    let s = #[trigger] named(all.take(it.index() as int))[j];
                    &&& opt_view(out@[j].id) == s.id
                    &&& out@[j].name@ == s.name
                    &&& out@[j].arguments@ == s.arguments
                    &&& opt_json(out@[j].extra) == s.extra
                },
        {
            let ghost i = it.index() as int;
            let ghost prefix = all.take(i + 1);
            assert(prefix.drop_last() =~= all.take(i));
            assert(prefix.last() == all[i]);
            if !call.name.as_str().is_empty() {
                out.push(call);
            }
        }
        assert(all.take(all.len() as int) =~= all);
        out
    }
}

/// A fragment whose `index` a call was opened under joins that call.
pub proof fn law_a_known_index_finds_its_call(slots: Seq<SlotView>, delta: ToolCallDelta, position: int, index: u64, at: int)
    requires
        delta.index == Some(index),
        slot_by_index(slots, index) == Some(at),
    ensures
        with_slot_for(slots, delta, position).1 == at,
        with_slot_for(slots, delta, position).0.len() == slots.len(),
{
}

/// A fragment that names no known `index` but carries the id of a call
/// joins that call, however the two fragments were numbered.
pub proof fn law_a_known_id_finds_its_call(slots: Seq<SlotView>, delta: ToolCallDelta, position: int, id: Seq<char>, at: int)
    requires
        match delta.index {
            Some(index) => slot_by_index(slots, index) is None,
            None => true,
        },
        delta_id(delta) == Some(id),
        slot_by_id(slots, id) == Some(at),
    ensures
        with_slot_for(slots, delta, position).1 == at,
        with_slot_for(slots, delta, position).0.len() == slots.len(),
{
}

/// A fragment under an `index` no call was opened under, and with no id a
/// call has, opens a new call at the end: parallel calls do not bleed into
/// each other.
pub proof fn law_an_unknown_index_opens_a_new_call(slots: Seq<SlotView>, delta: ToolCallDelta, position: int, index: u64)
    requires
        delta.index == Some(index),
        slot_by_index(slots, index) is None,
        match delta_id(delta) {
            Some(id) => slot_by_id(slots, id) is None,
            None => true,
        },
    ensures
        with_slot_for(slots, delta, position).1 == slots.len(),
        with_slot_for(slots, delta, position).0.len() == slots.len() + 1,
        with_slot_for(slots, delta, position).0[slots.len() as int].key == Some(index),
        with_slot_for(slots, delta, position).0.subrange(0, slots.len() as int) == slots,
{
    let opened = slots.push(empty_slot());
    assert(opened.update(slots.len() as int, SlotView { key: delta.index, ..opened[slots.len() as int] }).subrange(
        0,
        slots.len() as int,
    ) =~= slots);
}

/// A fragment's argument text is appended to its call's, and every other
/// call is left as it was.
pub proof fn law_arguments_accumulate(slots: Seq<SlotView>, delta: ToolCallDelta, position: int)
    requires
        0 <= position,
    ensures
        ({
            let (opened, at) = with_slot_for(slots, delta, position);
            let after = merged_one(slots, delta, position);
            &&& 0 <= at < opened.len()
            &&& after.len() == opened.len()
            &&& after[at].arguments == opened[at].arguments + match delta.function {
                Some(f) => match f.arguments {
                    Some(a) => a@,
                    None => Seq::empty(),
                },
                None => Seq::empty(),
            }
            &&& forall|j: int| 0 <= j < opened.len() && j != at ==> after[j] == opened[j]
        }),
{
    let (opened, at) = with_slot_for(slots, delta, position);
    match existing_slot(slots, delta, position) {
        Some(i) => {
            match delta.index {
                Some(index) => if slot_by_index(slots, index) is Some {
                    assert(is_first_key(slots, index, slot_by_index(slots, index)->Some_0));
                },
                None => {},
            }
            match delta_id(delta) {
                Some(id) => if slot_by_id(slots, id) is Some {
                    assert(is_first_id(slots, id, slot_by_id(slots, id)->Some_0));
                },
                None => {},
            }
        },
        None => {},
    }
    match delta.function {
        Some(f) => match f.arguments {
            Some(a) => {},
            None => {
                assert(opened[at].arguments + Seq::<char>::empty() =~= opened[at].arguments);
            },
        },
        None => {
            assert(opened[at].arguments + Seq::<char>::empty() =~= opened[at].arguments);
        },
    }
}

/// Every finished call has a name.
pub proof fn law_finished_calls_have_names(slots: Seq<SlotView>)
    ensures
        forall|i: int| 0 <= i < named(slots).len() ==> (#[trigger] named(slots)[i]).name.len() > 0,
    decreases slots.len(),
{
    if slots.len() > 0 {
        law_finished_calls_have_names(slots.drop_last());
    }
}

/// What one choice of a streamed chat frame says.
#[derive(Clone, Debug, Default, PartialEq)]
pub struct ChatDelta {
    /// A fragment of the reply text; absent on a frame that carries only a
    /// role, a tool-call fragment or a finish reason.
    pub content: Option<String>,
    /// Fragments of tool calls, in array order.
    pub tool_calls: Vec<ToolCallDelta>,
}

/// One choice of a streamed chat frame.
#[derive(Clone, Debug, Default, PartialEq)]
pub struct ChatChoice {
    /// What it says; absent on a frame that carries only usage.
    pub delta: Option<ChatDelta>,
}

/// One decoded `data:` frame of an OpenAI-compatible stream. Only the first
/// choice is read.
#[derive(Clone, Debug, Default, PartialEq)]
pub struct ChatFrame {
    /// The completion id, stable for the whole stream.
    pub id: Option<String>,
    /// The choices.
    pub choices: Vec<ChatChoice>,
}

/// The first choice's delta, if the frame has one.
pub open spec fn first_delta(frame: ChatFrame) -> Option<ChatDelta> {
    if frame.choices@.len() > 0 {
        frame.choices@[0].delta
    } else {
        None
    }
}

/// The frame's reply text, empty when it carries none.
pub open spec fn chat_text(frame: ChatFrame) -> Seq<char> {
    match first_delta(frame) {
        Some(d) => match d.content {
            Some(c) => c@,
            None => Seq::empty(),
        },
        None => Seq::empty(),
    }
}

/// The frame's tool-call fragments, in array order.
pub open spec fn chat_fragments(frame: ChatFrame) -> Seq<ToolCallDelta> {
    match first_delta(frame) {
        Some(d) => d.tool_calls@,
        None => Seq::empty(),
    }
}

impl ChatFrame {
    /// This frame's text, empty when it carried none.
    pub fn content(&self) -> (text: &str)
        ensures
            text@ == chat_text(*self),
    {
        proof {
            reveal_strlit("");
        }
        if self.choices.len() > 0 {
            match &self.choices[0].delta {
                Some(d) => match &d.content {
                    Some(c) => c.as_str(),
                    None => "",
                },
                None => "",
            }
        } else {
            ""
        }
    }

    /// This frame's tool-call fragments, in array order.
    pub fn into_tool_calls(self) -> (fragments: Vec<ToolCallDelta>)
        ensures
            fragments@ == chat_fragments(self),
    {
        let mut choices = self.choices;
        if choices.len() == 0 {
            return Vec::new();
        }
        let first = choices.swap_remove(0);
        match first.delta {
            Some(d) => d.tool_calls,
            None => Vec::new(),
        }
    }
}

/// What to do with the reply message after one frame of a streamed reply.
pub enum ReplyAction {
    /// Nothing: the frame carried no text, and an empty delta is not an
    /// update.
    Nothing,
    /// Open the reply message and stream `text` as its first delta: under
    /// `id`, the completion id, or under a fresh id where the frame has
    /// none or an empty one.
    Open {
        /// The message id, where the frame names a non-empty one.
        id: Option<String>,
        /// The first text.
        text: String,
    },
    /// Stream `text` into the message already open.
    Delta {
        /// The text.
        text: String,
    },
}

/// The completion id worth naming a message after: present and not empty.
pub open spec fn usable_id(id: Option<String>) -> Option<Seq<char>> {
    match id {
        Some(i) => if i@.len() > 0 {
            Some(i@)
        } else {
            None
        },
        None => None,
    }
}

/// One step of streaming a reply: the frame's tool-call fragments are
/// merged into `calls` and its text appended to `text`; the reply message
/// opens on the first frame that carries text and takes every later frame's
/// text as a delta. `opened` records whether it has opened.
pub fn reply_step(calls: &mut Calls, text: &mut String, opened: &mut bool, frame: ChatFrame) -> (action: ReplyAction)
    requires
        old(calls).wf(),
    ensures
        ({
            let t = chat_text(frame);
            &&& final(calls).wf()
            &&& final(calls).view_slots() == merged(old(calls).view_slots(), chat_fragments(frame))
            &&& final(text)@ == old(text)@ + t
            &&& *final(opened) == (*old(opened) || t.len() > 0)
            &&& if t.len() == 0 {
                action is Nothing
            } else if !*old(opened) {
                action matches ReplyAction::Open { id, text: first } && first@ == t && usable_id(frame.id)
                    == usable_id(id) && (id matches Some(i) ==> i@.len() > 0)
            } else {
                action matches ReplyAction::Delta { text: more } && more@ == t
            }
        }),
{
    let content = frame.content().to_owned();
    let id: Option<String> = match &frame.id {
        Some(i) => if i.as_str().is_empty() {
            None
        } else {
            Some(i.clone())
        },
        None => None,
    };
    calls.merge(frame.into_tool_calls());
    text.append(content.as_str());
    if content.as_str().is_empty() {
        ReplyAction::Nothing
    } else if !*opened {
        *opened = true;
        ReplyAction::Open { id, text: content }
    } else {
        ReplyAction::Delta { text: content }
    }
}

} // verus!

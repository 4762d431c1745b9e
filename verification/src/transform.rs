//! The one extension point: rewriting the event stream on its way out.
//!
//! Everything that wants to observe, drop, rewrite or add events implements
//! [`StreamTransformer`]. The built-in transformers are [`FilterToolCalls`],
//! [`ToolResultToState`] and the [`SubagentFilter`] behind
//! [`SubagentVisibility`].
//!
//! Transformers run in the order they were added, each seeing what the
//! previous one produced, before the ordering verifier sees anything. That
//! order is what makes [`FilterToolCalls`] safe: the verifier never sees the
//! half of a tool call that was dropped.

use vstd::prelude::*;

use crate::event::{Event, ReasoningEncryptedValueSubtype, StateDeltaEvent, StateSnapshotEvent};
use crate::json::{json_parsed, parse_json};
use crate::patch::{document_decodable, document_decodes_to, PatchOperation};
use crate::ids::text_eq;
use crate::registry::{
    lemma_set_insert_has, lemma_set_insert_keeps, lemma_set_remove_keeps, set_insert, set_remove, IdSet,
};

verus! {

/// Rewrites events on their way from an agent to the transport.
///
/// Returning an empty `Vec` drops the event. Returning several events splices
/// them in, in order. A transformer that drops the start of something must
/// drop its continuation and terminator too, or the ordering verifier will
/// reject what it produces.
pub trait StreamTransformer: Send {
    /// Whether `out` is what this transformer, as it stands, may make of
    /// `event`. A transformer that says nothing of itself may make anything
    /// of it.
    open spec fn emits(&self, event: Event, out: Seq<Event>) -> bool {
        true
    }

    /// Rewrites one event into zero or more events.
    fn transform(&mut self, event: Event) -> (out: Vec<Event>)
        ensures
            old(self).emits(event, out@),
    ;
}

/// One transformer of a chain.
pub struct Stage {
    transformer: Box<dyn StreamTransformer>,
}

impl Stage {
    /// Whether `out` is what this stage, as it stands, may make of `event`.
    pub closed spec fn emits(&self, event: Event, out: Seq<Event>) -> bool {
        self.transformer.emits(event, out)
    }
}

/// The outputs of one stage, spliced in order.
pub open spec fn spliced(outs: Seq<Seq<Event>>) -> Seq<Event>
    decreases outs.len(),
{
    if outs.len() == 0 {
        Seq::empty()
    } else {
        spliced(outs.drop_last()) + outs.last()
    }
}

/// Whether a stage that stood as `before` can, handed `items` one at a time
/// and in order, stand as `after` having emitted `out`: each item goes to
/// the stage as the previous items left it, and the outputs are spliced in
/// order. Handed nothing, the stage is not called and stays as it was.
pub open spec fn stage_run(before: Stage, after: Stage, items: Seq<Event>, out: Seq<Event>) -> bool {
    exists|states: Seq<Stage>, outs: Seq<Seq<Event>>| {
        &&& states.len() == items.len() + 1
        &&& outs.len() == items.len()
        &&& states[0] == before
        &&& states.last() == after
        &&& forall|k: int| 0 <= k < items.len() ==> #[trigger] states[k].emits(items[k], outs[k])
        &&& out == spliced(outs)
    }
}

/// Whether a chain whose stages stood as `before` can stand as `after`
/// having made `out` of `event`: the first stage is handed the event, each
/// later stage every event the one before it produced, and the last stage's
/// output is the chain's.
pub open spec fn chain_run(before: Seq<Stage>, after: Seq<Stage>, event: Event, out: Seq<Event>) -> bool {
    &&& before.len() == after.len()
    &&& exists|lists: Seq<Seq<Event>>| {
        &&& lists.len() == before.len() + 1
        &&& lists[0] == seq![event]
        &&& lists.last() == out
        &&& forall|t: int| 0 <= t < before.len() ==> #[trigger] stage_run(before[t], after[t], lists[t], lists[t + 1])
    }
}

/// A stage handed nothing is not called: it stays as it was and emits
/// nothing.
proof fn lemma_idle_stage(stage: Stage)
    ensures
        stage_run(stage, stage, Seq::empty(), Seq::empty()),
{
    let states = seq![stage];
    let outs = Seq::<Seq<Event>>::empty();
    assert(spliced(outs) =~= Seq::<Event>::empty());
    assert(states.last() == stage);
}

/// A chain run that has handled its first `t` stages, and whose list of
/// events is empty or has passed every stage, is a whole chain run: the
/// stages not reached are not called.
proof fn lemma_idle_stages_pass_nothing(
    before: Seq<Stage>,
    after: Seq<Stage>,
    lists: Seq<Seq<Event>>,
    t: int,
    event: Event,
)
    requires
        before.len() == after.len(),
        0 <= t <= before.len(),
        lists.len() == t + 1,
        lists[0] == seq![event],
        t == before.len() || lists.last().len() == 0,
        forall|u: int| t <= u < before.len() ==> after[u] == before[u],
        forall|u: int| 0 <= u < t ==> #[trigger] stage_run(before[u], after[u], lists[u], lists[u + 1]),
    ensures
        chain_run(before, after, event, lists.last()),
    decreases before.len() - t,
{
    if t == before.len() {
        assert(chain_run(before, after, event, lists.last()));
    } else {
        let empty = Seq::<Event>::empty();
        assert(lists.last() =~= empty);
        lemma_idle_stage(before[t]);
        let next = lists.push(empty);
        assert forall|u: int| 0 <= u < t + 1 implies #[trigger] stage_run(before[u], after[u], next[u], next[u + 1]) by {
            if u < t {
                assert(next[u] == lists[u] && next[u + 1] == lists[u + 1]);
            } else {
                assert(next[u] == lists.last());
                assert(next[u + 1] == empty);
            }
        }
        lemma_idle_stages_pass_nothing(before, after, next, t + 1, event);
        assert(next.last() == lists.last());
    }
}

/// Transformers applied in sequence.
#[derive(Default)]
pub struct TransformerChain {
    transformers: Vec<Stage>,
}

impl TransformerChain {
    /// An empty chain.
    pub fn new() -> (chain: Self)
        ensures
            chain.len_spec() == 0,
    {
        TransformerChain { transformers: Vec::new() }
    }

    /// How many transformers the chain holds.
    pub open spec fn len_spec(&self) -> nat {
        self.stages().len()
    }

    /// The transformers, in the order events pass through them.
    pub closed spec fn stages(&self) -> Seq<Stage> {
        self.transformers@
    }

    /// Appends a transformer, returning the chain for further building.
    pub fn with<T: StreamTransformer + 'static>(self, transformer: T) -> (chain: Self)
        ensures
            chain.len_spec() == self.len_spec() + 1,
            chain.stages().take(self.len_spec() as int) == self.stages(),
    {
        let mut chain = self;
        chain.push(transformer);
        chain
    }

    /// Appends a transformer.
    pub fn push<T: StreamTransformer + 'static>(&mut self, transformer: T)
        ensures
            final(self).len_spec() == old(self).len_spec() + 1,
            final(self).stages().take(old(self).len_spec() as int) == old(self).stages(),
    {
        let boxed: Box<dyn StreamTransformer> = Box::new(transformer);
        let stage = Stage { transformer: boxed };
        let ghost before = self.transformers@;
        self.transformers.push(stage);
        proof {
            vstd::seq::axiom_seq_push_len(before, stage);
            assert(self.transformers@ == before.push(stage));
            let after = self.transformers@;
            vstd::seq::axiom_seq_subrange_len(after, 0, before.len() as int);
            assert forall|i: int| 0 <= i < before.len() implies #[trigger] after.take(before.len() as int)[i]
                == before[i] by {
                vstd::seq::axiom_seq_subrange_index(after, 0, before.len() as int, i);
                vstd::seq::axiom_seq_push_index_different(before, stage, i);
            }
            vstd::seq::axiom_seq_ext_equal(after.take(before.len() as int), before);
        }
    }

    /// How many transformers are in the chain.
    pub fn len(&self) -> (n: usize)
        ensures
            n == self.len_spec(),
    {
        self.transformers.len()
    }

    /// Whether the chain would pass every event through untouched.
    pub fn is_empty(&self) -> (empty: bool)
        ensures
            empty == (self.len_spec() == 0),
    {
        self.transformers.len() == 0
    }

    /// Runs `event` through every transformer in order: each sees, one at a
    /// time and in order, what the previous one produced. Once nothing is
    /// left, no later transformer is called.
    pub fn transform(&mut self, event: Event) -> (out: Vec<Event>)
        ensures
            final(self).len_spec() == old(self).len_spec(),
            chain_run(old(self).stages(), final(self).stages(), event, out@),
            old(self).len_spec() == 0 ==> out@ == seq![event],
    {
        let ghost before = self.transformers@;
        let mut current: Vec<Event> = Vec::new();
        current.push(event);
        let ghost mut lists: Seq<Seq<Event>> = seq![current@];
        let mut t: usize = 0;
        let n = self.transformers.len();
        while t < n
            invariant
                n == self.transformers@.len(),
                n == before.len(),
                t <= n,
                lists.len() == t + 1,
                lists[0] == seq![event],
                lists.last() == current@,
                forall|u: int| t <= u < n ==> self.transformers@[u] == before[u],
                forall|u: int| 0 <= u < t ==> #[trigger] stage_run(before[u], self.transformers@[u], lists[u], lists[u + 1]),
            ensures
                t == n || current@.len() == 0,
            decreases n - t,
        {
            let items = current;
            let ghost all = items@;
            let mut stage = self.transformers.remove(t);
            let ghost first = stage;
            let ghost mut states: Seq<Stage> = seq![stage];
            let ghost mut outs: Seq<Seq<Event>> = Seq::empty();
            let mut next: Vec<Event> = Vec::new();
            let mut pending = items;
            let mut i: usize = 0;
            let total = pending.len();
            assert(total == all.len());
            assert(all.skip(0) =~= all);
            while pending.len() > 0
                invariant
                    i <= all.len(),
                    all.len() <= usize::MAX,
                    pending@ == all.skip(i as int),
                    states.len() == i + 1,
                    outs.len() == i,
                    states[0] == first,
                    states.last() == stage,
                    forall|k: int| 0 <= k < i ==> #[trigger] states[k].emits(all[k], outs[k]),
                    next@ == spliced(outs),
                decreases pending@.len(),
            {
                let item = pending.remove(0);
                let ghost was = stage;
                let mut produced = stage.transformer.transform(item);
                proof {
                    assert(all[i as int] == item);
                    assert(was.emits(item, produced@));
                    let outs2 = outs.push(produced@);
                    assert(outs2.drop_last() =~= outs);
                    outs = outs2;
                    states = states.push(stage);
                }
                next.append(&mut produced);
                i = i + 1;
                assert(pending@ =~= all.skip(i as int));
            }
            proof {
                assert(stage_run(first, stage, all, next@));
            }
            self.transformers.insert(t, stage);
            current = next;
            proof {
                lists = lists.push(current@);
                assert forall|u: int| 0 <= u < t + 1 implies #[trigger] stage_run(
                    before[u],
                    self.transformers@[u],
                    lists[u],
                    lists[u + 1],
                ) by {
                    if u < t {
                        assert(lists[u] == lists.drop_last()[u]);
                        assert(lists[u + 1] == lists.drop_last()[u + 1]);
                    } else {
                        assert(lists[u] == all);
                    }
                }
            }
            t = t + 1;
            if current.len() == 0 {
                break;
            }
        }
        proof {
            lemma_idle_stages_pass_nothing(before, self.transformers@, lists, t as int, event);
        }
        current
    }
}

impl StreamTransformer for TransformerChain {
    open spec fn emits(&self, event: Event, out: Seq<Event>) -> bool {
        exists|after: Seq<Stage>| chain_run(self.stages(), after, event, out)
    }

    fn transform(&mut self, event: Event) -> (out: Vec<Event>)
        ensures
            final(self).len_spec() == old(self).len_spec(),
            chain_run(old(self).stages(), final(self).stages(), event, out@),
            old(self).len_spec() == 0 ==> out@ == seq![event],
    {
        TransformerChain::transform(self, event)
    }
}

/// What a [`FilterToolCalls`] holds: which side of its list passes, the list,
/// and the calls it has dropped so far, in the order they were dropped.
pub struct FilterState {
    /// Only listed tools pass (`true`), or only unlisted ones do.
    pub allow: bool,
    /// The tool names.
    pub names: Seq<Seq<char>>,
    /// The calls dropped so far.
    pub dropped: Seq<Seq<char>>,
}

/// Whether a call to `name` passes the filter.
pub open spec fn passes(st: FilterState, name: Seq<char>) -> bool {
    if st.allow {
        st.names.contains(name)
    } else {
        !st.names.contains(name)
    }
}

/// The filter's verdict on a call: it is dropped when its tool does not pass.
pub open spec fn judged(st: FilterState, id: Seq<char>, name: Seq<char>) -> FilterState {
    if passes(st, name) {
        FilterState { dropped: set_remove(st.dropped, id), ..st }
    } else {
        FilterState { dropped: set_insert(st.dropped, id), ..st }
    }
}

/// Whether the filter drops `event` in state `st`.
pub open spec fn filter_drops(st: FilterState, event: Event) -> bool {
    match event {
        Event::ToolCallStart(p) => !passes(st, p.tool_call_name@),
        Event::ToolCallChunk(p) => match (p.tool_call_id, p.tool_call_name) {
            (Some(id), Some(name)) => !passes(st, name@),
            (Some(id), None) => st.dropped.contains(id@),
            _ => false,
        },
        Event::ToolCallArgs(p) => st.dropped.contains(p.tool_call_id@),
        Event::ToolCallEnd(p) => st.dropped.contains(p.tool_call_id@),
        Event::ToolCallResult(p) => st.dropped.contains(p.tool_call_id@),
        Event::ReasoningEncryptedValue(p) => p.subtype == ReasoningEncryptedValueSubtype::ToolCall
            && st.dropped.contains(p.entity_id@),
        _ => false,
    }
}

/// The filter's state after `event`: a start, or a chunk that names both the
/// call and the tool, records the verdict on that call.
pub open spec fn filter_next(st: FilterState, event: Event) -> FilterState {
    match event {
        Event::ToolCallStart(p) => judged(st, p.tool_call_id@, p.tool_call_name@),
        Event::ToolCallChunk(p) => match (p.tool_call_id, p.tool_call_name) {
            (Some(id), Some(name)) => judged(st, id@, name@),
            _ => st,
        },
        _ => st,
    }
}

/// Drops whole tool calls by tool name.
///
/// Both halves of a call are removed — `TOOL_CALL_START`, its
/// `TOOL_CALL_ARGS`, the `TOOL_CALL_END`, the `TOOL_CALL_RESULT` and any
/// encrypted reasoning blob attached to it — so what reaches the client is a
/// stream that never mentions the tool.
#[derive(Debug)]
pub struct FilterToolCalls {
    allow: bool,
    names: Vec<String>,
    dropped: IdSet,
}

impl View for FilterToolCalls {
    type V = FilterState;

    closed spec fn view(&self) -> FilterState {
        FilterState {
            allow: self.allow,
            names: self.names@.map_values(|n: String| n@),
            dropped: self.dropped@,
        }
    }
}

impl FilterToolCalls {
    /// Passes only calls to the named tools.
    pub fn allow(names: &[&str]) -> (filter: Self)
        ensures
            filter@.allow,
            filter@.names == names@.map_values(|n: &str| n@),
            filter@.dropped.len() == 0,
    {
        Self::new(true, names)
    }

    /// Passes everything except calls to the named tools.
    pub fn deny(names: &[&str]) -> (filter: Self)
        ensures
            !filter@.allow,
            filter@.names == names@.map_values(|n: &str| n@),
            filter@.dropped.len() == 0,
    {
        Self::new(false, names)
    }

    fn new(allow: bool, names: &[&str]) -> (filter: Self)
        ensures
            filter@.allow == allow,
            filter@.names == names@.map_values(|n: &str| n@),
            filter@.dropped.len() == 0,
    {
        let mut owned: Vec<String> = Vec::new();
        let mut i: usize = 0;
        while i < names.len()
            invariant
                i <= names@.len(),
                owned@.len() == i,
                owned@.map_values(|n: String| n@) == names@.subrange(0, i as int).map_values(|n: &str| n@),
            decreases names@.len() - i,
        {
            let ghost prev = owned@;
            let name = names[i].to_owned();
            owned.push(name);
            proof {
                let lhs = owned@.map_values(|n: String| n@);
                let rhs = names@.subrange(0, i as int + 1).map_values(|n: &str| n@);
                assert forall|j: int| 0 <= j < lhs.len() implies lhs[j] == rhs[j] by {
                    if j < i {
                        assert(owned@[j] == prev[j]);
                        assert(prev.map_values(|n: String| n@)[j] == names@.subrange(0, i as int).map_values(|n: &str| n@)[j]);
                    }
                }
                assert(lhs =~= rhs);
            }
            i = i + 1;
        }
        proof {
            assert(names@.subrange(0, names@.len() as int) =~= names@);
        }
        FilterToolCalls { allow, names: owned, dropped: IdSet::new() }
    }

    /// Whether a call to `name` passes.
    fn passes(&self, name: &str) -> (pass: bool)
        ensures
            pass == passes(self@, name@),
    {
        let mut listed = false;
        let mut i: usize = 0;
        while i < self.names.len()
            invariant
                i <= self.names@.len(),
                listed == exists|j: int| 0 <= j < i && self.names@[j]@ == name@,
            decreases self.names@.len() - i,
        {
            if text_eq(self.names[i].as_str(), name) {
                listed = true;
            }
            i = i + 1;
        }
        proof {
            let names = self@.names;
            if listed {
                let j = choose|j: int| 0 <= j < i && self.names@[j]@ == name@;
                assert(names[j] == name@);
            }
            if names.contains(name@) {
                let j = choose|j: int| 0 <= j < names.len() && names[j] == name@;
                assert(self.names@[j]@ == name@);
            }
        }
        if self.allow { listed } else { !listed }
    }

    /// Records the verdict on a call and reports whether it is dropped.
    fn judge(&mut self, id: &str, name: &str) -> (drop: bool)
        ensures
            final(self)@ == judged(old(self)@, id@, name@),
            drop == !passes(old(self)@, name@),
    {
        if self.passes(name) {
            self.dropped.remove(id);
            false
        } else {
            self.dropped.insert(id);
            true
        }
    }

    /// Passes `event` or drops it.
    pub fn transform(&mut self, event: Event) -> (out: Vec<Event>)
        ensures
            final(self)@ == filter_next(old(self)@, event),
            out@ == if filter_drops(old(self)@, event) { Seq::<Event>::empty() } else { seq![event] },
    {
        let drop = match &event {
            Event::ToolCallStart(p) => self.judge(p.tool_call_id.as_str(), p.tool_call_name.as_str()),
            Event::ToolCallChunk(p) => match (&p.tool_call_id, &p.tool_call_name) {
                (Some(id), Some(name)) => self.judge(id.as_str(), name.as_str()),
                (Some(id), None) => self.dropped.contains(id.as_str()),
                _ => false,
            },
            Event::ToolCallArgs(p) => self.dropped.contains(p.tool_call_id.as_str()),
            Event::ToolCallEnd(p) => self.dropped.contains(p.tool_call_id.as_str()),
            Event::ToolCallResult(p) => self.dropped.contains(p.tool_call_id.as_str()),
            Event::ReasoningEncryptedValue(p) => match p.subtype {
                ReasoningEncryptedValueSubtype::ToolCall => self.dropped.contains(p.entity_id.as_str()),
                ReasoningEncryptedValueSubtype::Message => false,
            },
            _ => false,
        };
        let mut out: Vec<Event> = Vec::new();
        if !drop {
            out.push(event);
        }
        out
    }
}

impl StreamTransformer for FilterToolCalls {
    open spec fn emits(&self, event: Event, out: Seq<Event>) -> bool {
        out == if filter_drops(self@, event) {
            Seq::<Event>::empty()
        } else {
            seq![event]
        }
    }

    fn transform(&mut self, event: Event) -> (out: Vec<Event>)
        ensures
            final(self)@ == filter_next(old(self)@, event),
            out@ == if filter_drops(old(self)@, event) { Seq::<Event>::empty() } else { seq![event] },
    {
        FilterToolCalls::transform(self, event)
    }
}

/// What a [`ToolResultToState`] holds: the tool it promotes, whether the
/// result becomes a snapshot (or a delta), whether the result event is kept
/// beside the state event, and the calls to that tool seen so far.
pub struct PromoterState {
    /// The tool whose results become state.
    pub tool_name: Seq<char>,
    /// A `STATE_SNAPSHOT` (`true`) or a `STATE_DELTA`.
    pub snapshot: bool,
    /// Whether the `TOOL_CALL_RESULT` goes out too.
    pub keep_result: bool,
    /// The calls to the tool that have not returned yet.
    pub pending: Seq<Seq<char>>,
}

/// The promoter's state after `event`: a call to the tool is remembered until
/// its result arrives.
pub open spec fn promoter_next(st: PromoterState, event: Event) -> PromoterState {
    match event {
        Event::ToolCallStart(p) => if p.tool_call_name@ == st.tool_name {
            PromoterState { pending: set_insert(st.pending, p.tool_call_id@), ..st }
        } else {
            st
        },
        Event::ToolCallChunk(p) => match (p.tool_call_id, p.tool_call_name) {
            (Some(id), Some(name)) => if name@ == st.tool_name {
                PromoterState { pending: set_insert(st.pending, id@), ..st }
            } else {
                st
            },
            _ => st,
        },
        Event::ToolCallResult(p) => PromoterState { pending: set_remove(st.pending, p.tool_call_id@), ..st },
        _ => st,
    }
}

/// Whether a parsed result can become state: any JSON value makes a
/// snapshot, and a patch document makes a delta.
pub open spec fn promotable(st: PromoterState, parsed: Option<serde_json::Value>) -> bool {
    match parsed {
        Some(v) => st.snapshot || document_decodable(v),
        None => false,
    }
}

/// Whether `e` is the state event a parsed result becomes: the value itself
/// as a snapshot, or the operations of the patch document as a delta, with
/// nothing else set.
pub open spec fn is_state_event_for(st: PromoterState, parsed: Option<serde_json::Value>, e: Event) -> bool {
    match parsed {
        Some(v) => if st.snapshot {
            e matches Event::StateSnapshot(p) && p.base.blank() && p.snapshot == v
        } else {
            e matches Event::StateDelta(p) && p.base.blank() && document_decodes_to(v, p.delta@)
        },
        None => false,
    }
}

/// How a promoted tool result reaches the client's state.
#[derive(Clone, Copy, Debug, PartialEq, Eq, Structural)]
enum StateForm {
    /// The result is the new state.
    Snapshot,
    /// The result is an RFC 6902 patch against the current state.
    Delta,
}

/// Promotes a named tool's result into a state event.
///
/// When `tool_name` returns, its JSON content becomes a `STATE_SNAPSHOT` or a
/// `STATE_DELTA`. The result event is kept by default so the client still
/// sees the tool completed; [`replacing`](Self::replacing) drops it instead.
/// Content that is not JSON of the expected shape is left alone — a malformed
/// result must not take down the run.
#[derive(Debug)]
pub struct ToolResultToState {
    tool_name: String,
    form: StateForm,
    keep_result: bool,
    pending: IdSet,
}

impl View for ToolResultToState {
    type V = PromoterState;

    closed spec fn view(&self) -> PromoterState {
        PromoterState {
            tool_name: self.tool_name@,
            snapshot: self.form == StateForm::Snapshot,
            keep_result: self.keep_result,
            pending: self.pending@,
        }
    }
}

impl ToolResultToState {
    /// Turns `tool_name`'s result into a `STATE_SNAPSHOT`.
    pub fn snapshot(tool_name: &str) -> (promoter: Self)
        ensures
            promoter@ == (PromoterState { tool_name: tool_name@, snapshot: true, keep_result: true, pending: Seq::empty() }),
    {
        Self::new(tool_name, StateForm::Snapshot)
    }

    /// Turns `tool_name`'s result into a `STATE_DELTA`. The result content
    /// must be a JSON array of RFC 6902 operations.
    pub fn delta(tool_name: &str) -> (promoter: Self)
        ensures
            promoter@ == (PromoterState { tool_name: tool_name@, snapshot: false, keep_result: true, pending: Seq::empty() }),
    {
        Self::new(tool_name, StateForm::Delta)
    }

    fn new(tool_name: &str, form: StateForm) -> (promoter: Self)
        ensures
            promoter@ == (PromoterState {
                tool_name: tool_name@,
                snapshot: form == StateForm::Snapshot,
                keep_result: true,
                pending: Seq::empty(),
            }),
    {
        ToolResultToState { tool_name: tool_name.to_owned(), form, keep_result: true, pending: IdSet::new() }
    }

    /// Drops the `TOOL_CALL_RESULT` instead of emitting it alongside the
    /// state event.
    pub fn replacing(self) -> (promoter: Self)
        ensures
            promoter@ == (PromoterState { keep_result: false, ..self@ }),
    {
        let mut promoter = self;
        promoter.keep_result = false;
        promoter
    }

    /// The state event a parsed result becomes, if it can become one.
    pub fn state_event_for(&self, parsed: Option<serde_json::Value>) -> (state: Option<Event>)
        ensures
            state is Some <==> promotable(self@, parsed),
            state matches Some(e) ==> is_state_event_for(self@, parsed, e),
    {
        let value = match parsed {
            Some(v) => v,
            None => {
                return None;
            },
        };
        match self.form {
            StateForm::Snapshot => Some(Event::state_snapshot(value)),
            StateForm::Delta => match PatchOperation::document_from_json(&value) {
                Some(ops) => Some(Event::state_delta(ops)),
                None => None,
            },
        }
    }

    /// Promotes a result of the tool, keeping every other event as it is.
    pub fn transform(&mut self, event: Event) -> (out: Vec<Event>)
        ensures
            final(self)@ == promoter_next(old(self)@, event),
            match event {
                Event::ToolCallResult(p) => {
                    let parsed = json_parsed(p.content@);
                    if old(self)@.pending.contains(p.tool_call_id@) && promotable(old(self)@, parsed) {
                        if old(self)@.keep_result {
                            out@.len() == 2 && out@[0] == event && is_state_event_for(old(self)@, parsed, out@[1])
                        } else {
                            out@.len() == 1 && is_state_event_for(old(self)@, parsed, out@[0])
                        }
                    } else {
                        out@ == seq![event]
                    }
                },
                _ => out@ == seq![event],
            },
    {
        let mut out: Vec<Event> = Vec::new();
        match &event {
            Event::ToolCallStart(p) => {
                if text_eq(p.tool_call_name.as_str(), self.tool_name.as_str()) {
                    self.pending.insert(p.tool_call_id.as_str());
                }
            },
            Event::ToolCallChunk(p) => match (&p.tool_call_id, &p.tool_call_name) {
                (Some(id), Some(name)) => {
                    if text_eq(name.as_str(), self.tool_name.as_str()) {
                        self.pending.insert(id.as_str());
                    }
                },
                _ => {},
            },
            Event::ToolCallResult(p) => {
                let was_pending = self.pending.remove(p.tool_call_id.as_str());
                if was_pending {
                    let parsed = parse_json(p.content.as_str());
                    let state = self.state_event_for(parsed);
                    match state {
                        Some(e) => {
                            if self.keep_result {
                                out.push(event);
                            }
                            out.push(e);
                            return out;
                        },
                        None => {},
                    }
                }
            },
            _ => {},
        }
        out.push(event);
        out
    }
}

/// What a [`ToolResultToState`] standing as `st` makes of `event`.
pub open spec fn promoter_emits(st: PromoterState, event: Event, out: Seq<Event>) -> bool {
    match event {
        Event::ToolCallResult(p) => {
            let parsed = json_parsed(p.content@);
            if st.pending.contains(p.tool_call_id@) && promotable(st, parsed) {
                if st.keep_result {
                    out.len() == 2 && out[0] == event && is_state_event_for(st, parsed, out[1])
                } else {
                    out.len() == 1 && is_state_event_for(st, parsed, out[0])
                }
            } else {
                out == seq![event]
            }
        },
        _ => out == seq![event],
    }
}

impl StreamTransformer for ToolResultToState {
    open spec fn emits(&self, event: Event, out: Seq<Event>) -> bool {
        promoter_emits(self@, event, out)
    }

    fn transform(&mut self, event: Event) -> (out: Vec<Event>)
        ensures
            final(self)@ == promoter_next(old(self)@, event),
            match event {
                Event::ToolCallResult(p) => {
                    let parsed = json_parsed(p.content@);
                    if old(self)@.pending.contains(p.tool_call_id@) && promotable(old(self)@, parsed) {
                        if old(self)@.keep_result {
                            out@.len() == 2 && out@[0] == event && is_state_event_for(old(self)@, parsed, out@[1])
                        } else {
                            out@.len() == 1 && is_state_event_for(old(self)@, parsed, out@[0])
                        }
                    } else {
                        out@ == seq![event]
                    }
                },
                _ => out@ == seq![event],
            },
    {
        ToolResultToState::transform(self, event)
    }
}

/// The filter's state after each of `events` in turn.
pub open spec fn run_filter(st: FilterState, events: Seq<Event>) -> FilterState
    decreases events.len(),
{
    if events.len() == 0 {
        st
    } else {
        filter_next(run_filter(st, events.drop_last()), events.last())
    }
}

/// Whether `event` passes a fresh verdict on call `id`: a start of it, or a
/// chunk that names it and its tool.
pub open spec fn rejudges(event: Event, id: Seq<char>) -> bool {
    match event {
        Event::ToolCallStart(p) => p.tool_call_id@ == id,
        Event::ToolCallChunk(p) => p.tool_call_id matches Some(c) && c@ == id && p.tool_call_name is Some,
        _ => false,
    }
}

/// Whether `event` continues call `id`: its arguments, its end, its result,
/// a chunk that names it but not its tool, or an encrypted blob attached to it.
pub open spec fn continues_call(event: Event, id: Seq<char>) -> bool {
    match event {
        Event::ToolCallArgs(p) => p.tool_call_id@ == id,
        Event::ToolCallEnd(p) => p.tool_call_id@ == id,
        Event::ToolCallResult(p) => p.tool_call_id@ == id,
        Event::ToolCallChunk(p) => p.tool_call_id matches Some(c) && c@ == id && p.tool_call_name is None,
        Event::ReasoningEncryptedValue(p) => p.subtype == ReasoningEncryptedValueSubtype::ToolCall
            && p.entity_id@ == id,
        _ => false,
    }
}

/// A call the filter judged is dropped stays dropped while nothing passes a
/// new verdict on it.
pub proof fn lemma_dropped_persists(st: FilterState, event: Event, id: Seq<char>)
    requires
        st.dropped.contains(id),
        !rejudges(event, id),
    ensures
        filter_next(st, event).dropped.contains(id),
{
    match event {
        Event::ToolCallStart(p) => {
            if passes(st, p.tool_call_name@) {
                lemma_set_remove_keeps(st.dropped, p.tool_call_id@, id);
            } else {
                lemma_set_insert_keeps(st.dropped, p.tool_call_id@, id);
            }
        },
        Event::ToolCallChunk(p) => match (p.tool_call_id, p.tool_call_name) {
            (Some(c), Some(name)) => {
                if passes(st, name@) {
                    lemma_set_remove_keeps(st.dropped, c@, id);
                } else {
                    lemma_set_insert_keeps(st.dropped, c@, id);
                }
            },
            _ => {},
        },
        _ => {},
    }
}

/// A dropped call leaves no trace: once the filter has dropped a call, every
/// later event that continues it — its arguments, its end, its result, an
/// encrypted blob attached to it — is dropped too, for as long as no new start
/// of that call id comes along.
pub proof fn law_dropped_call_leaves_no_trace(st: FilterState, events: Seq<Event>, id: Seq<char>)
    requires
        st.dropped.contains(id),
        forall|i: int| 0 <= i < events.len() ==> !rejudges(#[trigger] events[i], id),
    ensures
        forall|i: int| 0 <= i < events.len() && continues_call(#[trigger] events[i], id)
            ==> filter_drops(run_filter(st, events.take(i)), events[i]),
        run_filter(st, events).dropped.contains(id),
    decreases events.len(),
{
    if events.len() > 0 {
        let front = events.drop_last();
        assert forall|i: int| 0 <= i < front.len() implies !rejudges(#[trigger] front[i], id) by {
            assert(front[i] == events[i]);
        }
        law_dropped_call_leaves_no_trace(st, front, id);
        assert(!rejudges(events[events.len() - 1], id));
        lemma_dropped_persists(run_filter(st, front), events.last(), id);
        assert forall|i: int| 0 <= i < events.len() && continues_call(#[trigger] events[i], id)
            implies filter_drops(run_filter(st, events.take(i)), events[i]) by {
            if i < front.len() {
                assert(events.take(i) =~= front.take(i));
                assert(front[i] == events[i]);
            } else {
                assert(events.take(i) =~= front);
            }
        }
    }
}

/// Dropping a call's start puts the call on the dropped list, so the law
/// above covers what follows it.
pub proof fn law_a_denied_start_is_remembered(st: FilterState, event: Event)
    requires
        event is ToolCallStart,
        filter_drops(st, event),
    ensures
        filter_next(st, event).dropped.contains(event->ToolCallStart_0.tool_call_id@),
{
    lemma_set_insert_has(st.dropped, event->ToolCallStart_0.tool_call_id@);
}

} // verus!

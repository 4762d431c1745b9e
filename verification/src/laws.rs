//! Laws that relate the chunk normalizer and the ordering verifier.

use vstd::prelude::*;

use crate::chunks::{
    appended, begin, close, current, realizes, realizes_all, run_chunks, normalized, step,
    with_content, Emission, NormalizerState, OpenStream,
};
use crate::event::{Event, RunFinishedEvent, RunStartedEvent};
use crate::verify::{
    bracket_of, complaint, initial_state, next_state, run_events, stream_complaint, Bracket,
    StreamKind, VerifierState,
};

verus! {

/// Whether every event is a chunk event.
pub open spec fn chunks_only(events: Seq<Event>) -> bool {
    forall|i: int| 0 <= i < events.len() ==> {
        let e = #[trigger] events[i];
        e is TextMessageChunk || e is ToolCallChunk || e is ReasoningMessageChunk
    }
}

/// The verifier's state mirrors the normalizer's: the run has started and is
/// still going, no step is running, and the stream the normalizer owes an end
/// for is the one the verifier sees open.
pub open spec fn mirrors(n: NormalizerState, v: VerifierState) -> bool {
    &&& v.started
    &&& !v.finished
    &&& v.steps.len() == 0
    &&& match n.open {
        None => v.open is None,
        Some(o) => o.owed && v.open == Some((o.stream, o.id)),
    }
}

/// Running `a` then `b` is running `a + b`.
pub proof fn lemma_run_concat(s: VerifierState, a: Seq<Event>, b: Seq<Event>, t: VerifierState)
    requires
        run_events(s, a) == Ok::<VerifierState, Seq<char>>(t),
    ensures
        run_events(s, a + b) == run_events(t, b),
    decreases b.len(),
{
    if b.len() == 0 {
        assert(a + b =~= a);
    } else {
        lemma_run_concat(s, a, b.drop_last(), t);
        assert((a + b).drop_last() =~= a + b.drop_last());
        assert((a + b).last() == b.last());
    }
}

/// Running one accepted event.
pub proof fn lemma_run_one(s: VerifierState, e: Event)
    requires
        complaint(s, e) is None,
    ensures
        run_events(s, seq![e]) == Ok::<VerifierState, Seq<char>>(next_state(s, e)),
{
    assert(seq![e].drop_last() =~= Seq::<Event>::empty());
    assert(run_events(s, Seq::<Event>::empty()) == Ok::<VerifierState, Seq<char>>(s));
    assert(seq![e].last() == e);
}

/// A realized emission is accepted where the verifier's open stream is the
/// one it belongs to, and moves the verifier as a bracket of that stream does.
pub proof fn lemma_emission_accepted(v: VerifierState, e: Event, d: Emission)
    requires
        realizes(e, d),
        v.started,
        !v.finished,
        d !is Pass,
        match d {
            Emission::End { stream, id } => v.open == Some((stream, id)),
            Emission::Content { stream, id, .. } => v.open == Some((stream, id)),
            _ => v.open is None,
        },
    ensures
        complaint(v, e) is None,
        next_state(v, e) == match d {
            Emission::End { .. } => VerifierState { open: None, ..v },
            Emission::Content { .. } => v,
            Emission::TextStart { id, .. } => VerifierState { open: Some((StreamKind::Text, id)), ..v },
            Emission::ToolStart { id, .. } => VerifierState { open: Some((StreamKind::Tool, id)), ..v },
            Emission::ReasoningStart { id, .. } => VerifierState { open: Some((StreamKind::Reasoning, id)), ..v },
            Emission::Pass(_) => v,
        },
{
}

/// One chunk event, normalized, is accepted by a verifier that mirrors the
/// normalizer, and the two still mirror each other afterwards.
pub proof fn lemma_chunk_step_accepted(n: NormalizerState, v: VerifierState, e: Event, out: Seq<Event>)
    requires
        mirrors(n, v),
        e is TextMessageChunk || e is ToolCallChunk || e is ReasoningMessageChunk,
        step(n, e) is Ok,
        realizes_all(out, step(n, e)->Ok_0.1),
    ensures
        run_events(v, out) is Ok,
        mirrors(step(n, e)->Ok_0.0, run_events(v, out)->Ok_0),
{
    let (stream, id, delta, base, start) = match e {
        Event::TextMessageChunk(c) => {
            let id = crate::chunks::chunk_id(n, StreamKind::Text, crate::chunks::message_id_view(c.message_id))->Some_0;
            (StreamKind::Text, id, c.delta, c.base, Emission::TextStart {
                id,
                role: match c.role {
                    Some(r) => r,
                    None => crate::event::TextMessageRole::Assistant,
                },
                name: c.name,
                base: c.base,
            })
        },
        Event::ToolCallChunk(c) => {
            let id = crate::chunks::chunk_id(n, StreamKind::Tool, crate::chunks::tool_call_id_view(c.tool_call_id))->Some_0;
            (StreamKind::Tool, id, c.delta, c.base, Emission::ToolStart {
                id,
                name: c.tool_call_name->Some_0,
                parent: c.parent_message_id,
                base: c.base,
            })
        },
        Event::ReasoningMessageChunk(c) => {
            let id = crate::chunks::chunk_id(n, StreamKind::Reasoning, crate::chunks::message_id_view(c.message_id))->Some_0;
            (StreamKind::Reasoning, id, c.delta, c.base, Emission::ReasoningStart { id, base: c.base })
        },
        _ => arbitrary(),
    };
    let next = step(n, e)->Ok_0;
    if current(n, stream) == Some(id) {
        // The chunk continues the open stream: at most a content event.
        assert(next.0 == n);
        assert(next.1 == with_content(Seq::empty(), stream, id, delta, base));
        match delta {
            None => {
                assert(out =~= Seq::<Event>::empty());
            },
            Some(d) => {
                assert(out =~= seq![out[0]]);
                lemma_emission_accepted(v, out[0], next.1[0]);
                lemma_run_one(v, out[0]);
            },
        }
    } else {
        // The chunk opens a new stream: the end of the previous one if it was
        // owed, the start, and at most a content event.
        let closed = close(n);
        let opened = begin(n, stream, id, start);
        assert(next.1 == with_content(opened.1, stream, id, delta, base));
        let k: int = closed.1.len() as int;
        let mut w = v;
        if k == 1 {
            let o = n.open->Some_0;
            assert(realizes(out[0], closed.1[0]));
            lemma_emission_accepted(v, out[0], closed.1[0]);
            lemma_run_one(v, out[0]);
            w = VerifierState { open: None, ..v };
        } else {
            assert(v.open is None);
        }
        let prefix = out.subrange(0, k);
        assert(run_events(v, prefix) == Ok::<VerifierState, Seq<char>>(w)) by {
            if k == 1 {
                assert(prefix =~= seq![out[0]]);
            } else {
                assert(prefix =~= Seq::<Event>::empty());
            }
        }
        assert(realizes(out[k], start));
        lemma_emission_accepted(w, out[k], start);
        let w2 = VerifierState { open: Some((stream, id)), ..w };
        lemma_run_one(w, out[k]);
        lemma_run_concat(v, prefix, seq![out[k]], w);
        assert(prefix + seq![out[k]] =~= out.subrange(0, k + 1));
        match delta {
            None => {
                assert(out =~= out.subrange(0, k + 1));
            },
            Some(d) => {
                assert(realizes(out[k + 1], next.1[k + 1]));
                lemma_emission_accepted(w2, out[k + 1], next.1[k + 1]);
                lemma_run_one(w2, out[k + 1]);
                lemma_run_concat(v, out.subrange(0, k + 1), seq![out[k + 1]], w2);
                assert(out.subrange(0, k + 1) + seq![out[k + 1]] =~= out);
            },
        }
    }
}

/// Normalizing a stream of chunk events yields a stream the verifier accepts,
/// once it is placed between the events that start and finish the run.
pub proof fn law_normalized_chunks_verify(
    events: Seq<Event>,
    out: Seq<Event>,
    started: RunStartedEvent,
    finished: RunFinishedEvent,
)
    requires
        chunks_only(events),
        normalized(events) is Ok,
        realizes_all(out, normalized(events)->Ok_0),
        finished.outcome matches Some(o) ==> o.well_formed(),
    ensures
        stream_complaint(seq![Event::RunStarted(started)] + out + seq![Event::RunFinished(finished)]) is None,
{
    let v0 = VerifierState { started: true, finished: false, open: None, steps: Seq::empty() };
    lemma_run_one(initial_state(), Event::RunStarted(started));
    assert(next_state(initial_state(), Event::RunStarted(started)) == v0);
    let n0 = NormalizerState { open: None };
    let (n, emitted) = run_chunks(n0, events)->Ok_0;
    lemma_chunks_mirror(events, out.subrange(0, emitted.len() as int));
    let v = run_events(v0, out.subrange(0, emitted.len() as int))->Ok_0;
    // The end owed at the end of the stream closes what the verifier sees open.
    let tail = out.subrange(emitted.len() as int, out.len() as int);
    let mut w = v;
    if close(n).1.len() == 1 {
        assert(realizes(tail[0], close(n).1[0])) by {
            assert(tail[0] == out[emitted.len() as int]);
        }
        lemma_emission_accepted(v, tail[0], close(n).1[0]);
        lemma_run_one(v, tail[0]);
        assert(tail =~= seq![tail[0]]);
        w = VerifierState { open: None, ..v };
    } else {
        assert(tail =~= Seq::<Event>::empty());
    }
    assert(run_events(v, tail) == Ok::<VerifierState, Seq<char>>(w));
    lemma_run_concat(v0, out.subrange(0, emitted.len() as int), tail, v);
    assert(out.subrange(0, emitted.len() as int) + tail =~= out);
    let fin = Event::RunFinished(finished);
    assert(complaint(w, fin) is None);
    lemma_run_one(w, fin);
    lemma_run_concat(v0, out, seq![fin], w);
    let whole = seq![Event::RunStarted(started)] + out + seq![fin];
    lemma_run_concat(initial_state(), seq![Event::RunStarted(started)], out + seq![fin], v0);
    assert(whole =~= seq![Event::RunStarted(started)] + (out + seq![fin]));
}

/// The verifier, fed a normalized chunk stream after the run started, mirrors
/// the normalizer throughout.
pub proof fn lemma_chunks_mirror(events: Seq<Event>, out: Seq<Event>)
    requires
        chunks_only(events),
        run_chunks(NormalizerState { open: None }, events) is Ok,
        realizes_all(out, run_chunks(NormalizerState { open: None }, events)->Ok_0.1),
    ensures
        run_events(VerifierState { started: true, finished: false, open: None, steps: Seq::empty() }, out) is Ok,
        mirrors(
            run_chunks(NormalizerState { open: None }, events)->Ok_0.0,
            run_events(VerifierState { started: true, finished: false, open: None, steps: Seq::empty() }, out)->Ok_0,
        ),
    decreases events.len(),
{
    let v0 = VerifierState { started: true, finished: false, open: None, steps: Seq::empty() };
    let n0 = NormalizerState { open: None };
    if events.len() == 0 {
        assert(out =~= Seq::<Event>::empty());
    } else {
        let prev = events.drop_last();
        let e = events.last();
        assert(chunks_only(prev)) by {
            assert forall|i: int| 0 <= i < prev.len() implies {
                let x = #[trigger] prev[i];
                x is TextMessageChunk || x is ToolCallChunk || x is ReasoningMessageChunk
            } by {
                assert(prev[i] == events[i]);
            }
        }
        assert(e == events[events.len() - 1]);
        let (n, em) = run_chunks(n0, prev)->Ok_0;
        let more = step(n, e)->Ok_0.1;
        let k = em.len() as int;
        let first = out.subrange(0, k);
        let second = out.subrange(k, out.len() as int);
        assert(realizes_all(first, em)) by {
            assert forall|i: int| 0 <= i < first.len() implies realizes(#[trigger] first[i], em[i]) by {
                assert(first[i] == out[i]);
                assert((em + more)[i] == em[i]);
            }
        }
        assert(realizes_all(second, more)) by {
            assert forall|i: int| 0 <= i < second.len() implies realizes(#[trigger] second[i], more[i]) by {
                assert(second[i] == out[k + i]);
                assert((em + more)[k + i] == more[i]);
            }
        }
        lemma_chunks_mirror(prev, first);
        let v = run_events(v0, first)->Ok_0;
        lemma_chunk_step_accepted(n, v, e, second);
        lemma_run_concat(v0, first, second, v);
        assert(first + second =~= out);
    }
}

} // verus!

//! What a client does with the events of one run before they reach the
//! conversation: chunk events are normalized, every event is verified (when
//! verification is on), and an event the producer should not have sent is
//! reported instead of applied, unless it ends the run.

use vstd::prelude::*;

use crate::chunks::{appended, close, realizes_all, step, ChunkNormalizer, NormalizerState};
use crate::error::Error;
use crate::event::Event;
use crate::verify::{complaint, end_complaint, initial_state, next_state, Verifier, VerifierState};

verus! {

/// What becomes of one event, or of the end of the stream.
#[derive(Debug, PartialEq)]
pub enum Admitted {
    /// The event goes on to be applied to the conversation.
    Apply(Event),
    /// The error is reported to the caller.
    Report(Error),
}

/// What an [`Admitted`] says.
pub enum AdmittedView {
    /// This event is applied.
    Apply(Event),
    /// A protocol error with this text is reported.
    Report(Seq<char>),
}

impl Admitted {
    /// What this says.
    pub open spec fn view_of(self) -> AdmittedView {
        match self {
            Admitted::Apply(e) => AdmittedView::Apply(e),
            Admitted::Report(e) => AdmittedView::Report(e.text()),
        }
    }
}

/// What a list of [`Admitted`] says.
pub open spec fn admitted_view(items: Seq<Admitted>) -> Seq<AdmittedView> {
    items.map_values(|a: Admitted| a.view_of())
}

/// Whether every report among `items` is a protocol error.
pub open spec fn reports_are_protocol(items: Seq<Admitted>) -> bool {
    forall|i: int| 0 <= i < items.len() ==> (#[trigger] items[i] matches Admitted::Report(e) ==> e is Protocol)
}

/// Whether `event` ends the run.
pub open spec fn ends_run(event: Event) -> bool {
    event is RunFinished || event is RunError
}

/// One event through verification: with verification off it is applied;
/// with it on, a violation is reported, and the event is applied only if it
/// broke no rule or ends the run.
pub open spec fn handled(verifier: Option<VerifierState>, event: Event) -> (Option<VerifierState>, Seq<AdmittedView>) {
    match verifier {
        None => (None, seq![AdmittedView::Apply(event)]),
        Some(s) => (
            Some(next_state(s, event)),
            match complaint(s, event) {
                None => seq![AdmittedView::Apply(event)],
                Some(m) => if ends_run(event) {
                    seq![AdmittedView::Report(m), AdmittedView::Apply(event)]
                } else {
                    seq![AdmittedView::Report(m)]
                },
            },
        ),
    }
}

/// Each of `events` through verification, in order.
pub open spec fn handled_all(verifier: Option<VerifierState>, events: Seq<Event>) -> (Option<VerifierState>, Seq<AdmittedView>)
    decreases events.len(),
{
    if events.len() == 0 {
        (verifier, Seq::empty())
    } else {
        let before = handled_all(verifier, events.drop_last());
        let last = handled(before.0, events.last());
        (last.0, before.1 + last.1)
    }
}

/// The state of one run's processing: its normalizer and, when verification
/// is on, its verifier.
pub struct RunPipeline {
    normalizer: ChunkNormalizer,
    verifier: Option<Verifier>,
}

impl RunPipeline {
    /// The normalizer's state.
    pub closed spec fn normalizer_state(&self) -> NormalizerState {
        self.normalizer@
    }

    /// The verifier's state, when verification is on.
    pub closed spec fn verifier_state(&self) -> Option<VerifierState> {
        match self.verifier {
            Some(v) => Some(v@),
            None => None,
        }
    }

    /// A fresh run, verified when `verify` is set.
    pub fn new(verify: bool) -> (pipeline: Self)
        ensures
            pipeline.normalizer_state().open is None,
            pipeline.verifier_state() == (if verify { Some(initial_state()) } else { None }),
    {
        RunPipeline {
            normalizer: ChunkNormalizer::new(),
            verifier: if verify { Some(Verifier::new()) } else { None },
        }
    }

    /// Runs one normalized event through verification.
    pub fn handle(&mut self, event: Event, out: &mut Vec<Admitted>)
        ensures
            final(self).normalizer_state() == old(self).normalizer_state(),
            final(self).verifier_state() == handled(old(self).verifier_state(), event).0,
            old(out)@.len() <= final(out)@.len(),
            final(out)@.subrange(0, old(out)@.len() as int) == old(out)@,
            admitted_view(final(out)@.subrange(old(out)@.len() as int, final(out)@.len() as int))
                == handled(old(self).verifier_state(), event).1,
            reports_are_protocol(old(out)@) ==> reports_are_protocol(final(out)@),
    {
        let ghost before = out@;
        let mut verdict: Option<Error> = None;
        match &mut self.verifier {
            Some(verifier) => {
                match verifier.verify(&event) {
                    Ok(()) => {},
                    Err(error) => {
                        verdict = Some(error);
                    },
                }
            },
            None => {},
        }
        let ends = match &event {
            Event::RunFinished(_) => true,
            Event::RunError(_) => true,
            _ => false,
        };
        match verdict {
            Some(error) => {
                out.push(Admitted::Report(error));
                if ends {
                    out.push(Admitted::Apply(event));
                }
            },
            None => {
                out.push(Admitted::Apply(event));
            },
        }
        proof {
            let added = out@.subrange(before.len() as int, out@.len() as int);
            assert(admitted_view(added) =~= handled(old(self).verifier_state(), event).1);
            assert(out@.subrange(0, before.len() as int) =~= before);
        }
    }

    /// Runs each of `events` through verification, in order.
    fn handle_all(&mut self, events: Vec<Event>, out: &mut Vec<Admitted>)
        ensures
            final(self).normalizer_state() == old(self).normalizer_state(),
            final(self).verifier_state() == handled_all(old(self).verifier_state(), events@).0,
            old(out)@.len() <= final(out)@.len(),
            final(out)@.subrange(0, old(out)@.len() as int) == old(out)@,
            admitted_view(final(out)@.subrange(old(out)@.len() as int, final(out)@.len() as int))
                == handled_all(old(self).verifier_state(), events@).1,
            reports_are_protocol(old(out)@) ==> reports_are_protocol(final(out)@),
    {
        let ghost start = out@.len();
        let ghost first = old(out)@;
        let ghost v0 = self.verifier_state();
        let ghost all = events@;
        assert(all.take(0) =~= Seq::<Event>::empty());
        assert(out@.subrange(start as int, out@.len() as int) =~= Seq::<Admitted>::empty());
        assert(out@.subrange(0, start as int) =~= first);
        for e in it: events
            invariant
                all == events@,
                it.seq() == all,
                self.normalizer_state() == old(self).normalizer_state(),
                self.verifier_state() == handled_all(v0, all.take(it.index() as int)).0,
                out@.subrange(0, start as int) == first,
                start <= out@.len(),
                admitted_view(out@.subrange(start as int, out@.len() as int)) == handled_all(
                    v0,
                    all.take(it.index() as int),
                ).1,
                reports_are_protocol(first) ==> reports_are_protocol(out@),
        {
            let ghost i = it.index() as int;
            let ghost mid = out@;
            assert(all.take(i + 1).drop_last() =~= all.take(i));
            assert(all.take(i + 1).last() == e);
            self.handle(e, out);
            proof {
                assert forall|k: int| 0 <= k < mid.len() implies out@[k] == mid[k] by {
                    assert(out@.subrange(0, mid.len() as int)[k] == out@[k]);
                }
                let a = out@.subrange(start as int, mid.len() as int);
                let b = out@.subrange(mid.len() as int, out@.len() as int);
                assert(out@.subrange(start as int, out@.len() as int) =~= a + b);
                assert(a =~= mid.subrange(start as int, mid.len() as int));
                assert(admitted_view(a + b) =~= admitted_view(a) + admitted_view(b));
                assert(out@.subrange(0, start as int) =~= mid.subrange(0, start as int));
            }
        }
        assert(all.take(all.len() as int) =~= all);
    }
}

impl RunPipeline {
    /// Runs one event from the transport through normalization and
    /// verification; a chunk the normalizer refuses is reported.
    pub fn ingest(&mut self, event: Event, out: &mut Vec<Admitted>)
        ensures
            old(out)@.len() <= final(out)@.len(),
            final(out)@.subrange(0, old(out)@.len() as int) == old(out)@,
            reports_are_protocol(old(out)@) ==> reports_are_protocol(final(out)@),
            match step(old(self).normalizer_state(), event) {
                Ok((t, emitted)) => {
                    &&& final(self).normalizer_state() == t
                    &&& exists|expanded: Seq<Event>| {
                        &&& realizes_all(expanded, emitted)
                        &&& final(self).verifier_state() == handled_all(old(self).verifier_state(), expanded).0
                        &&& admitted_view(final(out)@.subrange(old(out)@.len() as int, final(out)@.len() as int))
                            == handled_all(old(self).verifier_state(), expanded).1
                    }
                },
                Err(m) => {
                    &&& final(self).normalizer_state() == old(self).normalizer_state()
                    &&& final(self).verifier_state() == old(self).verifier_state()
                    &&& admitted_view(final(out)@.subrange(old(out)@.len() as int, final(out)@.len() as int))
                        == seq![AdmittedView::Report(m)]
                },
            },
    {
        let ghost before = out@;
        let mut expanded: Vec<Event> = Vec::new();
        let outcome = self.normalizer.normalize(event, &mut expanded);
        let ghost produced = expanded@;
        assert(expanded@.subrange(0, 0) =~= Seq::<Event>::empty());
        assert(expanded@.subrange(0, expanded@.len() as int) =~= expanded@);
        self.handle_all(expanded, out);
        match outcome {
            Ok(()) => {
                assert(realizes_all(produced, step(old(self).normalizer_state(), event)->Ok_0.1));
            },
            Err(error) => {
                assert(produced.len() == 0);
                assert(handled_all(old(self).verifier_state(), produced).1 =~= Seq::<AdmittedView>::empty());
                let ghost mid = out@;
                out.push(Admitted::Report(error));
                proof {
                    assert(out@.subrange(0, mid.len() as int) =~= mid);
                    assert(out@.subrange(before.len() as int, out@.len() as int) =~= seq![Admitted::Report(error)]);
                    assert(admitted_view(seq![Admitted::Report(error)]) =~= seq![AdmittedView::Report(error.text())]);
                    assert forall|k: int| 0 <= k < mid.len() implies out@[k] == mid[k] by {}
                }
            },
        }
    }

    /// The transport stopped sending: what the producer left open is closed,
    /// and, with verification on, a stream that ended before the run did is
    /// reported.
    pub fn end_of_stream(&mut self, out: &mut Vec<Admitted>)
        ensures
            old(out)@.len() <= final(out)@.len(),
            final(out)@.subrange(0, old(out)@.len() as int) == old(out)@,
            reports_are_protocol(old(out)@) ==> reports_are_protocol(final(out)@),
            final(self).normalizer_state() == close(old(self).normalizer_state()).0,
            final(self).normalizer_state().open is None,
            exists|expanded: Seq<Event>| {
                &&& realizes_all(expanded, close(old(self).normalizer_state()).1)
                &&& final(self).verifier_state() == handled_all(old(self).verifier_state(), expanded).0
                &&& admitted_view(final(out)@.subrange(old(out)@.len() as int, final(out)@.len() as int))
                    == handled_all(old(self).verifier_state(), expanded).1 + end_report(
                    handled_all(old(self).verifier_state(), expanded).0,
                )
            },
    {
        let ghost before = out@;
        let mut expanded: Vec<Event> = Vec::new();
        self.normalizer.finish(&mut expanded);
        let ghost produced = expanded@;
        assert(expanded@.subrange(0, 0) =~= Seq::<Event>::empty());
        assert(expanded@.subrange(0, expanded@.len() as int) =~= expanded@);
        self.handle_all(expanded, out);
        let ghost mid = out@;
        let ghost handled_part = handled_all(old(self).verifier_state(), produced);
        match &self.verifier {
            Some(verifier) => match verifier.finish() {
                Ok(()) => {
                    assert(handled_part.1 + end_report(handled_part.0) =~= handled_part.1);
                },
                Err(error) => {
                    out.push(Admitted::Report(error));
                    proof {
                        assert(out@.subrange(0, mid.len() as int) =~= mid);
                        assert forall|k: int| 0 <= k < mid.len() implies out@[k] == mid[k] by {}
                        let a = out@.subrange(before.len() as int, mid.len() as int);
                        assert(a =~= mid.subrange(before.len() as int, mid.len() as int));
                        assert(out@.subrange(before.len() as int, out@.len() as int) =~= a + seq![Admitted::Report(error)]);
                        assert(admitted_view(a + seq![Admitted::Report(error)]) =~= admitted_view(a) + seq![AdmittedView::Report(error.text())]);
                        assert(out@.subrange(0, before.len() as int) =~= before);
                    }
                },
            },
            None => {
                assert(handled_part.1 + end_report(handled_part.0) =~= handled_part.1);
            },
        }
        assert(realizes_all(produced, close(old(self).normalizer_state()).1));
    }
}

/// What the end of the stream reports: with verification on, a run that
/// had not finished.
pub open spec fn end_report(verifier: Option<VerifierState>) -> Seq<AdmittedView> {
    match verifier {
        Some(s) => match end_complaint(s) {
            Some(m) => seq![AdmittedView::Report(m)],
            None => Seq::empty(),
        },
        None => Seq::empty(),
    }
}

/// An event the verifier refuses is reported, and reaches the conversation
/// only if it ends the run; an event it accepts reaches the conversation.
pub proof fn law_a_refused_event_is_applied_only_if_it_ends_the_run(s: VerifierState, event: Event)
    ensures
        complaint(s, event) is None ==> handled(Some(s), event).1 == seq![AdmittedView::Apply(event)],
        complaint(s, event) matches Some(m) ==> handled(Some(s), event).1[0] == AdmittedView::Report(m),
        complaint(s, event) is Some && !ends_run(event) ==> handled(Some(s), event).1.len() == 1,
        complaint(s, event) is Some && ends_run(event) ==> handled(Some(s), event).1.last()
            == AdmittedView::Apply(event),
{
}

/// The end of a run reaches the conversation whether or not it broke a
/// rule, so a caller always hears that the run is over.
pub proof fn law_the_end_of_a_run_is_always_applied(verifier: Option<VerifierState>, event: Event)
    requires
        ends_run(event),
    ensures
        handled(verifier, event).1.last() == AdmittedView::Apply(event),
{
}

/// With verification off, every event is applied as it is.
pub proof fn law_unverified_events_pass(events: Seq<Event>)
    ensures
        handled_all(None, events).0 is None,
        handled_all(None, events).1 == events.map_values(|e: Event| AdmittedView::Apply(e)),
    decreases events.len(),
{
    if events.len() > 0 {
        law_unverified_events_pass(events.drop_last());
        assert(events.map_values(|e: Event| AdmittedView::Apply(e)) =~= events.drop_last().map_values(
            |e: Event| AdmittedView::Apply(e),
        ) + seq![AdmittedView::Apply(events.last())]);
    } else {
        assert(events.map_values(|e: Event| AdmittedView::Apply(e)) =~= Seq::<AdmittedView>::empty());
    }
}

} // verus!

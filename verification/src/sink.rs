//! Where a server's events go: through the run's transformers, past the
//! protocol verifier, and into the channel the transport reads.
//!
//! An event the verifier refuses never reaches the channel, so whatever the
//! client receives is a stream that follows the protocol's rules.

use vstd::prelude::*;

use futures_channel::mpsc::UnboundedSender;

use crate::cancel::CancellationToken;
use crate::event::Event;
use crate::server_verify::{server_initial, server_next, violation, ServerState, VerificationError, Verifier};
use crate::transform::{chain_run, Stage, TransformerChain};

verus! {

/// `futures_channel::mpsc::UnboundedSender`, the sending half of a run's
/// event channel.
#[verifier::external_type_specification]
#[verifier::external_body]
#[verifier::reject_recursive_types(T)]
pub struct ExUnboundedSender<T>(UnboundedSender<T>);

/// `UnboundedSender::unbounded_send`: queues `event` for the receiving half
/// and reports whether it could. It cannot once the receiving half is gone,
/// which depends on the other side, so nothing is stated of the result. (The
/// call panics only when the queue already holds its maximum number of
/// messages, a count memory runs out long before.)
#[verifier::external_body]
fn hand_over(tx: &UnboundedSender<Event>, event: Event) -> (queued: bool) {
    tx.unbounded_send(event).is_ok()
}

/// Why an event could not be emitted.
#[derive(Debug, PartialEq)]
pub enum EmitError {
    /// The run was cancelled.
    Cancelled,
    /// The receiving half of the channel is gone.
    Disconnected,
    /// The event broke a protocol rule.
    Violation(VerificationError),
}

/// The verifier's state after each of `events` in turn.
pub open spec fn server_run(events: Seq<Event>) -> ServerState
    decreases events.len(),
{
    if events.len() == 0 {
        server_initial()
    } else {
        server_next(server_run(events.drop_last()), events.last())
    }
}

/// Whether the verifier accepts each of `events` after the ones before it.
pub open spec fn all_accepted(events: Seq<Event>) -> bool {
    forall|i: int| 0 <= i < events.len() ==> violation(server_run(events.take(i)), #[trigger] events[i]) is None
}

/// Whether `event` ends the run.
pub open spec fn ends_run(event: Event) -> bool {
    event is RunFinished || event is RunError
}

/// Whether one of `events` ends the run.
pub open spec fn ended(events: Seq<Event>) -> bool {
    exists|i: int| 0 <= i < events.len() && ends_run(#[trigger] events[i])
}

/// Whether sending `out`, in order, to a sink that had handed over `before`
/// can leave it having handed over `after` with result `sent`. Each event
/// the verifier refuses stops the run of sends with the violation and is not
/// handed over; each it accepts is handed over, and the channel either takes
/// it, and the next is sent, or is gone, which stops the run. `sent` is Ok
/// exactly when every event went out.
pub open spec fn sent_in_order(
    before: Seq<Event>,
    out: Seq<Event>,
    after: Seq<Event>,
    sent: Result<(), EmitError>,
) -> bool
    decreases out.len(),
{
    if out.len() == 0 {
        after == before && sent is Ok
    } else {
        match violation(server_run(before), out[0]) {
            Some(_) => after == before && sent matches Err(EmitError::Violation(_)),
            None => {
                ||| after == before.push(out[0]) && sent matches Err(EmitError::Disconnected)
                ||| sent_in_order(before.push(out[0]), out.drop_first(), after, sent)
            },
        }
    }
}

/// Sending a list hands over a prefix of it, in order: all of it where the
/// result is Ok; where a violation stopped it, the next event was the one
/// the verifier refused; where the channel was gone, at least one event was
/// handed over, the last one the channel would not take.
pub proof fn law_sending_hands_over_a_prefix(
    before: Seq<Event>,
    out: Seq<Event>,
    after: Seq<Event>,
    sent: Result<(), EmitError>,
)
    requires
        sent_in_order(before, out, after, sent),
    ensures
        exists|k: int| {
            &&& 0 <= k <= out.len()
            &&& after == before + out.take(k)
            &&& sent is Ok ==> k == out.len()
            &&& sent matches Err(EmitError::Violation(_)) ==> k < out.len() && violation(server_run(after), out[k]) is Some
            &&& sent matches Err(EmitError::Disconnected) ==> k > 0
        },
        !(sent matches Err(EmitError::Cancelled)),
    decreases out.len(),
{
    if out.len() == 0 {
        assert(after == before + out.take(0));
    } else {
        match violation(server_run(before), out[0]) {
            Some(_) => {
                assert(before + out.take(0) =~= before);
            },
            None => {
                if after == before.push(out[0]) && sent matches Err(EmitError::Disconnected) {
                    assert(before + out.take(1) =~= before.push(out[0]));
                } else {
                    let rest = out.drop_first();
                    law_sending_hands_over_a_prefix(before.push(out[0]), rest, after, sent);
                    let k = choose|k: int| {
                        &&& 0 <= k <= rest.len()
                        &&& after == before.push(out[0]) + rest.take(k)
                        &&& sent is Ok ==> k == rest.len()
                        &&& sent matches Err(EmitError::Violation(_)) ==> k < rest.len() && violation(server_run(after), rest[k]) is Some
                        &&& sent matches Err(EmitError::Disconnected) ==> k > 0
                    };
                    assert(before.push(out[0]) + rest.take(k) =~= before + out.take(k + 1));
                    if sent matches Err(EmitError::Violation(_)) {
                        assert(rest[k] == out[k + 1]);
                    }
                }
            },
        }
    }
}

/// The sending side of one run.
pub struct EventSink {
    tx: UnboundedSender<Event>,
    chain: TransformerChain,
    verifier: Verifier,
    cancel: CancellationToken,
    terminated: bool,
    handed: Ghost<Seq<Event>>,
}

impl EventSink {
    /// Every event handed to the channel so far, in order.
    pub closed spec fn handed(&self) -> Seq<Event> {
        self.handed@
    }

    /// The verifier has seen exactly the events handed over, and the sink
    /// knows whether one of them ended the run.
    pub closed spec fn wf(&self) -> bool {
        &&& self.verifier@ == server_run(self.handed@)
        &&& all_accepted(self.handed@)
        &&& self.terminated == ended(self.handed@)
    }

    /// A sink for a fresh run, sending on `tx` through `chain`.
    pub fn new(tx: UnboundedSender<Event>, chain: TransformerChain, cancel: CancellationToken) -> (sink: Self)
        ensures
            sink.wf(),
            sink.handed().len() == 0,
            sink.chain_len() == chain.len_spec(),
    {
        EventSink { tx, chain, verifier: Verifier::new(), cancel, terminated: false, handed: Ghost(Seq::empty()) }
    }

    /// Verifies `event` and hands it to the channel. An event the verifier
    /// refuses is not handed over.
    pub fn send(&mut self, event: Event) -> (sent: Result<(), EmitError>)
        requires
            old(self).wf(),
        ensures
            final(self).wf(),
            final(self).chain_len() == old(self).chain_len(),
            final(self).stages() == old(self).stages(),
            match violation(server_run(old(self).handed()), event) {
                Some(_) => sent matches Err(EmitError::Violation(_)) && final(self).handed() == old(self).handed(),
                None => final(self).handed() == old(self).handed().push(event) && (sent is Ok
                    || sent matches Err(EmitError::Disconnected)),
            },
    {
        let ghost before = self.handed@;
        match self.verifier.observe(&event) {
            Err(error) => {
                return Err(EmitError::Violation(error));
            },
            Ok(()) => {},
        }
        let ends = match &event {
            Event::RunFinished(_) => true,
            Event::RunError(_) => true,
            _ => false,
        };
        self.terminated = self.terminated || ends;
        proof {
            let after = before.push(event);
            self.handed@ = after;
            assert(after.drop_last() =~= before);
            assert forall|i: int| 0 <= i < after.len() implies violation(server_run(after.take(i)), #[trigger] after[i]) is None by {
                if i < before.len() {
                    assert(after.take(i) =~= before.take(i));
                } else {
                    assert(after.take(i) =~= before);
                }
            }
            if ends {
                assert(ends_run(after[before.len() as int]));
            } else if ended(after) {
                let i = choose|i: int| 0 <= i < after.len() && ends_run(#[trigger] after[i]);
                assert(i < before.len());
                assert(before[i] == after[i]);
            }
            if ended(before) {
                let i = choose|i: int| 0 <= i < before.len() && ends_run(#[trigger] before[i]);
                assert(after[i] == before[i]);
            }
        }
        if hand_over(&self.tx, event) {
            Ok(())
        } else {
            Err(EmitError::Disconnected)
        }
    }

    /// Runs `event` through the transformers and sends what they make of
    /// it, in order, stopping at the first event that cannot be sent;
    /// cancellation is not consulted.
    pub fn emit_forced(&mut self, event: Event) -> (sent: Result<(), EmitError>)
        requires
            old(self).wf(),
        ensures
            final(self).wf(),
            final(self).chain_len() == old(self).chain_len(),
            exists|out: Seq<Event>| {
                &&& #[trigger] chain_run(old(self).stages(), final(self).stages(), event, out)
                &&& sent_in_order(old(self).handed(), out, final(self).handed(), sent)
            },
            old(self).chain_len() == 0 ==> sent_in_order(old(self).handed(), seq![event], final(self).handed(), sent),
            old(self).handed().len() <= final(self).handed().len(),
            final(self).handed().subrange(0, old(self).handed().len() as int) == old(self).handed(),
            !(sent matches Err(EmitError::Cancelled)),
            old(self).chain_len() == 0 ==> match violation(server_run(old(self).handed()), event) {
                Some(_) => sent matches Err(EmitError::Violation(_)) && final(self).handed() == old(self).handed(),
                None => final(self).handed() == old(self).handed().push(event) && (sent is Ok
                    || sent matches Err(EmitError::Disconnected)),
            },
    {
        let ghost before = self.handed@;
        let ghost stages0 = self.chain.stages();
        if self.chain.is_empty() {
            let sent = self.send(event);
            proof {
                let one = seq![event];
                assert(one.drop_first() =~= Seq::<Event>::empty());
                reveal_with_fuel(sent_in_order, 2);
                assert(sent_in_order(before, one, self.handed@, sent));
                let lists = seq![one];
                assert(lists.len() == stages0.len() + 1);
                assert(lists[0] == seq![event]);
                assert(lists.last() == one);
                assert(chain_run(old(self).stages(), self.stages(), event, one));
                assert(sent_in_order(old(self).handed(), one, self.handed(), sent));
            }
            assert(self.handed@.subrange(0, before.len() as int) =~= before);
            return sent;
        }
        assert(old(self).chain_len() != 0);
        let produced = self.chain.transform(event);
        let ghost all = produced@;
        let ghost stages1 = self.chain.stages();
        assert(all.skip(0) =~= all);
        for e in it: produced
            invariant
                old(self).chain_len() != 0,
                self.chain_len() == old(self).chain_len(),
                self.chain.stages() == stages1,
                stages0 == old(self).stages(),
                chain_run(stages0, stages1, event, all),
                it.seq() == all,
                before == old(self).handed(),
                self.wf(),
                before.len() <= self.handed@.len(),
                self.handed@.subrange(0, before.len() as int) == before,
                forall|after: Seq<Event>, s: Result<(), EmitError>|
                    #[trigger] sent_in_order(self.handed@, all.skip(it.index() as int), after, s)
                        ==> sent_in_order(before, all, after, s),
        {
            let ghost mid = self.handed@;
            let ghost k = it.index() as int;
            proof {
                assert(all.skip(k)[0] == e);
                assert(all.skip(k).drop_first() =~= all.skip(k + 1));
            }
            match self.send(e) {
                Ok(()) => {},
                Err(error) => {
                    proof {
                        assert(sent_in_order(mid, all.skip(k), self.handed@, Err::<(), EmitError>(error)));
                        assert(sent_in_order(before, all, self.handed@, Err::<(), EmitError>(error)));
                        assert(chain_run(old(self).stages(), self.stages(), event, all));
                        assert(sent_in_order(old(self).handed(), all, self.handed(), Err::<(), EmitError>(error)));
                    }
                    assert(self.handed@.subrange(0, before.len() as int) =~= before);
                    return Err(error);
                },
            }
            proof {
                assert forall|after: Seq<Event>, s: Result<(), EmitError>|
                    #[trigger] sent_in_order(self.handed@, all.skip(k + 1), after, s)
                        implies sent_in_order(before, all, after, s) by {
                    assert(sent_in_order(mid, all.skip(k), after, s));
                }
            }
            assert(self.handed@.subrange(0, before.len() as int) =~= mid.subrange(0, before.len() as int));
        }
        proof {
            assert(all.skip(all.len() as int) =~= Seq::<Event>::empty());
            assert(sent_in_order(self.handed@, all.skip(all.len() as int), self.handed@, Ok::<(), EmitError>(())));
            assert(sent_in_order(old(self).handed(), all, self.handed(), Ok::<(), EmitError>(())));
            assert(chain_run(old(self).stages(), self.stages(), event, all));
        }
        Ok(())
    }

    /// Like [`EventSink::emit_forced`], but refused once the run has been
    /// cancelled.
    pub fn emit(&mut self, event: Event) -> (sent: Result<(), EmitError>)
        requires
            old(self).wf(),
        ensures
            final(self).wf(),
            final(self).chain_len() == old(self).chain_len(),
            old(self).handed().len() <= final(self).handed().len(),
            final(self).handed().subrange(0, old(self).handed().len() as int) == old(self).handed(),
            sent matches Err(EmitError::Cancelled) ==> final(self).handed() == old(self).handed()
                && final(self).stages() == old(self).stages(),
            !(sent matches Err(EmitError::Cancelled)) ==> exists|out: Seq<Event>| {
                &&& #[trigger] chain_run(old(self).stages(), final(self).stages(), event, out)
                &&& sent_in_order(old(self).handed(), out, final(self).handed(), sent)
            },
            !(sent matches Err(EmitError::Cancelled)) && old(self).chain_len() == 0 ==> match violation(
                server_run(old(self).handed()),
                event,
            ) {
                Some(_) => sent matches Err(EmitError::Violation(_)) && final(self).handed() == old(self).handed(),
                None => final(self).handed() == old(self).handed().push(event) && (sent is Ok
                    || sent matches Err(EmitError::Disconnected)),
            },
    {
        if self.cancel.is_cancelled() {
            assert(self.handed@.subrange(0, self.handed@.len() as int) =~= self.handed@);
            return Err(EmitError::Cancelled);
        }
        self.emit_forced(event)
    }

    /// Whether an event that ends the run has been handed over.
    pub fn is_terminated(&self) -> (terminated: bool)
        requires
            self.wf(),
        ensures
            terminated == ended(self.handed()),
    {
        self.terminated
    }

    /// The token the sink consults.
    pub closed spec fn token(&self) -> CancellationToken {
        self.cancel
    }

    /// The run's cancellation token.
    pub fn cancel_token(&self) -> (token: &CancellationToken)
        ensures
            *token == self.token(),
    {
        &self.cancel
    }

    /// How many transformers the sink runs events through.
    pub closed spec fn chain_len(&self) -> nat {
        self.chain.len_spec()
    }

    /// The transformers the sink runs events through, as they stand.
    pub closed spec fn stages(&self) -> Seq<Stage> {
        self.chain.stages()
    }
}

/// Every event a sink hands to the channel is one the protocol verifier
/// accepted after the ones before it: the stream a client receives follows
/// the rules.
pub proof fn law_nothing_handed_over_breaks_the_rules(sink: EventSink)
    requires
        sink.wf(),
    ensures
        all_accepted(sink.handed()),
        forall|i: int| 0 <= i < sink.handed().len() ==> violation(server_run(sink.handed().take(i)), #[trigger] sink.handed()[i]) is None,
{
}

/// Once a sink has handed over an event that ends the run, every further
/// event is refused: nothing reaches the channel after the end.
pub proof fn law_nothing_follows_the_end(events: Seq<Event>, event: Event)
    requires
        all_accepted(events),
        ended(events),
    ensures
        violation(server_run(events), event) is Some,
{
    lemma_ended_stays(events);
}

/// The events before the last of an accepted run were accepted too.
proof fn lemma_accepted_prefix(events: Seq<Event>)
    requires
        all_accepted(events),
        events.len() > 0,
    ensures
        all_accepted(events.drop_last()),
{
    let before = events.drop_last();
    assert forall|i: int| 0 <= i < before.len() implies violation(server_run(before.take(i)), #[trigger] before[i]) is None by {
        assert(before.take(i) =~= events.take(i));
        assert(events[i] == before[i]);
    }
}

/// An accepted event that ends the run marks it ended.
proof fn lemma_end_marks_ended(s: ServerState, event: Event)
    requires
        violation(s, event) is None,
        ends_run(event),
    ensures
        server_next(s, event).ended,
{
}

/// The last event of an accepted run was accepted after the ones before it.
proof fn lemma_last_accepted(events: Seq<Event>)
    requires
        all_accepted(events),
        events.len() > 0,
    ensures
        violation(server_run(events.drop_last()), events.last()) is None,
{
    let n = events.len() as int;
    assert(events.take(n - 1) =~= events.drop_last());
    assert(events[n - 1] == events.last());
}

/// Where a run has ended, it ended before its last event or at it.
proof fn lemma_ended_split(events: Seq<Event>)
    requires
        ended(events),
    ensures
        ended(events.drop_last()) || ends_run(events.last()),
{
    let i = choose|i: int| 0 <= i < events.len() && ends_run(#[trigger] events[i]);
    if i < events.len() - 1 {
        assert(events.drop_last()[i] == events[i]);
    }
}

/// After an accepted event that ends the run, the verifier knows the run
/// has ended, and stays so.
proof fn lemma_ended_stays(events: Seq<Event>)
    requires
        all_accepted(events),
        ended(events),
    ensures
        server_run(events).ended,
    decreases events.len(),
{
    let before = events.drop_last();
    let last = events.last();
    lemma_accepted_prefix(events);
    lemma_last_accepted(events);
    lemma_ended_split(events);
    if ended(before) {
        lemma_ended_stays(before);
        crate::server_verify::law_nothing_is_accepted_after_the_run_ended(server_run(before), last);
    } else {
        lemma_end_marks_ended(server_run(before), last);
    }
}

} // verus!

//! A transport that replays a scripted list of events.
//!
//! Testing a client against a live agent is slow, flaky, and needs a model. It
//! is also unnecessary: the agent's half of the conversation is just a list of
//! events. [`ReplayTransport`] serves one per run — and records the requests it
//! was handed, which is how a test asserts that a resume carried the right
//! answers.

use vstd::prelude::*;

use crate::error::Error;
use crate::event::Event;
use crate::input::RunAgentInput;

verus! {

/// What a [`ReplayTransport`] holds: the runs still to serve, in order, and
/// every request it was handed, in order.
pub struct ReplayView {
    /// The events of each run still to serve.
    pub runs: Seq<Seq<Event>>,
    /// The requests so far.
    pub requests: Seq<RunAgentInput>,
}

/// The error a run past the end of the script gets.
pub open spec fn exhausted_text() -> Seq<char> {
    "the replay script has no runs left"@
}

/// One run of the script: the request is recorded; the next list is served
/// while one is left, and the exhausted error once none is.
pub open spec fn replayed(
    before: ReplayView,
    after: ReplayView,
    input: RunAgentInput,
    answer: Result<Vec<Event>, Error>,
) -> bool {
    &&& after.requests == before.requests.push(input)
    &&& before.runs.len() > 0 ==> {
        &&& answer matches Ok(events)
        &&& events@ == before.runs[0]
        &&& after.runs == before.runs.drop_first()
    }
    &&& before.runs.len() == 0 ==> {
        &&& answer matches Err(Error::Transport(m))
        &&& m@ == exhausted_text()
        &&& after.runs.len() == 0
    }
}

/// A transport that answers each run from a script. A script has one
/// owner: where a test and an agent both need it, they share it behind a
/// lock, and every holder then sees the same requests and the same runs.
#[derive(Debug, Default)]
pub struct ReplayTransport {
    runs: Vec<Vec<Event>>,
    requests: Vec<RunAgentInput>,
}

impl View for ReplayTransport {
    type V = ReplayView;

    closed spec fn view(&self) -> ReplayView {
        ReplayView { runs: self.runs@.map_values(|r: Vec<Event>| r@), requests: self.requests@ }
    }
}

impl ReplayTransport {
    /// A transport that answers the first run with these events, and every
    /// later run with an error.
    pub fn new(events: Vec<Event>) -> (transport: Self)
        ensures
            transport@.runs == seq![events@],
            transport@.requests.len() == 0,
    {
        let mut runs: Vec<Vec<Event>> = Vec::new();
        runs.push(events);
        Self::with_runs(runs)
    }

    /// A transport that answers each run with the next list in the script.
    pub fn with_runs(runs: Vec<Vec<Event>>) -> (transport: Self)
        ensures
            transport@.runs == runs@.map_values(|r: Vec<Event>| r@),
            transport@.requests.len() == 0,
    {
        ReplayTransport { runs, requests: Vec::new() }
    }

    /// Every request this transport has been handed, in order.
    pub fn requests(&self) -> (requests: &Vec<RunAgentInput>)
        ensures
            requests@ == self@.requests,
    {
        &self.requests
    }

    /// The most recent request, if there has been one.
    pub fn last_request(&self) -> (last: Option<&RunAgentInput>)
        ensures
            match last {
                Some(r) => self@.requests.len() > 0 && *r == self@.requests.last(),
                None => self@.requests.len() == 0,
            },
    {
        if self.requests.len() == 0 {
            None
        } else {
            Some(&self.requests[self.requests.len() - 1])
        }
    }

    /// How many runs are left in the script.
    pub fn remaining(&self) -> (n: usize)
        ensures
            n == self@.runs.len(),
    {
        self.runs.len()
    }

    /// Starts a run: records the request, and answers with the next run of
    /// the script, or an error once the script is used up.
    pub fn run(&mut self, input: RunAgentInput) -> (answer: Result<Vec<Event>, Error>)
        ensures
            replayed(old(self)@, final(self)@, input, answer),
    {
        self.requests.push(input);
        if self.runs.len() == 0 {
            return Err(Error::Transport("the replay script has no runs left".to_owned()));
        }
        let ghost before = self.runs@;
        let events = self.runs.remove(0);
        assert(self.runs@.map_values(|r: Vec<Event>| r@) =~= before.map_values(|r: Vec<Event>| r@).drop_first());
        Ok(events)
    }
}

/// The script counts down: each run serves the next list while one is left,
/// and once none is, answers the exhausted error and stays empty. Every run,
/// served or not, is recorded, in order.
pub proof fn law_the_script_counts_down(
    before: ReplayView,
    after: ReplayView,
    input: RunAgentInput,
    answer: Result<Vec<Event>, Error>,
)
    requires
        replayed(before, after, input, answer),
    ensures
        before.runs.len() > 0 ==> after.runs.len() == before.runs.len() - 1,
        before.runs.len() == 0 ==> after.runs.len() == 0 && answer is Err,
        after.requests.len() == before.requests.len() + 1,
        after.requests.last() == input,
        after.requests.subrange(0, before.requests.len() as int) == before.requests,
{
    assert(after.requests.subrange(0, before.requests.len() as int) =~= before.requests);
}

} // verus!

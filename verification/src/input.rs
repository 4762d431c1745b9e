//! The request that starts a run.

use vstd::prelude::*;

use crate::ids::{RunId, ThreadId};
use crate::json::json_null;
use crate::message::Message;
use crate::outcome::ResumeEntry;

verus! {

/// A tool the client offers the agent.
#[derive(Clone, Debug, PartialEq)]
pub struct Tool {
    /// The tool's name, as the agent calls it.
    pub name: String,
    /// What the tool does, for the model.
    pub description: String,
    /// The JSON Schema of the tool's arguments.
    pub parameters: serde_json::Value,
}

/// An ambient context entry.
#[derive(Clone, Debug, Default, PartialEq)]
pub struct Context {
    /// What the entry is.
    pub description: String,
    /// Its value.
    pub value: String,
}

/// Everything a run is started with.
#[derive(Clone, Debug, Default, PartialEq)]
pub struct RunAgentInput {
    /// The conversation.
    pub thread_id: ThreadId,
    /// This run.
    pub run_id: RunId,
    /// The run that spawned this one, for nested agents.
    pub parent_run_id: Option<RunId>,
    /// The shared state the agent starts from.
    pub state: serde_json::Value,
    /// Conversation history, oldest first.
    pub messages: Vec<Message>,
    /// Tools the client offers.
    pub tools: Vec<Tool>,
    /// Ambient context entries.
    pub context: Vec<Context>,
    /// Passthrough properties, never interpreted.
    pub forwarded_props: serde_json::Value,
    /// Answers to the interrupts a previous run paused on.
    pub resume: Option<Vec<ResumeEntry>>,
}

impl RunAgentInput {
    /// Whether this is the request for run `run_id` in thread `thread_id`
    /// with nothing else set: no parent, no history, tools or context, a
    /// `null` state and `null` passthrough properties, and nothing to resume.
    pub open spec fn is_fresh(self, thread_id: Seq<char>, run_id: Seq<char>) -> bool {
        &&& self.thread_id@ == thread_id
        &&& self.run_id@ == run_id
        &&& self.parent_run_id is None
        &&& self.state == json_null()
        &&& self.messages@.len() == 0
        &&& self.tools@.len() == 0
        &&& self.context@.len() == 0
        &&& self.forwarded_props == json_null()
        &&& self.resume is None
    }

    /// A request for run `run_id` in thread `thread_id`, with nothing else set.
    pub fn new(thread_id: &str, run_id: &str) -> (input: Self)
        ensures
            input.is_fresh(thread_id@, run_id@),
    {
        RunAgentInput {
            thread_id: ThreadId::new(thread_id),
            run_id: RunId::new(run_id),
            parent_run_id: None,
            state: crate::json::null_value(),
            messages: Vec::new(),
            tools: Vec::new(),
            context: Vec::new(),
            forwarded_props: crate::json::null_value(),
            resume: None,
        }
    }

    /// Whether this request resumes a paused run.
    pub fn is_resume(&self) -> (resumes: bool)
        ensures
            resumes == (self.resume is Some),
    {
        self.resume.is_some()
    }
}

/// Two fresh requests for the same thread and run are the same request:
/// they agree on every field.
pub proof fn law_a_fresh_request_is_fixed_by_its_ids(
    a: RunAgentInput,
    b: RunAgentInput,
    thread_id: Seq<char>,
    run_id: Seq<char>,
)
    requires
        a.is_fresh(thread_id, run_id),
        b.is_fresh(thread_id, run_id),
    ensures
        a.thread_id@ == b.thread_id@,
        a.run_id@ == b.run_id@,
        a.parent_run_id == b.parent_run_id,
        a.state == b.state,
        a.messages@ == b.messages@,
        a.tools@ == b.tools@,
        a.context@ == b.context@,
        a.forwarded_props == b.forwarded_props,
        a.resume == b.resume,
{
    assert(a.messages@ =~= b.messages@);
    assert(a.tools@ =~= b.tools@);
    assert(a.context@ =~= b.context@);
}
} // verus!

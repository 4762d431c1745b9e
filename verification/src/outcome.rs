//! How a run ends: successfully, or paused on questions for a human.

use vstd::prelude::*;

use crate::error::Error;
use crate::ids::{RunId, ToolCallId};

verus! {

/// A question the agent needs a human to answer before it can go on.
#[derive(Debug, Default, PartialEq)]
pub struct Interrupt {
    /// Identifies the interrupt; the answer names it.
    pub id: String,
    /// Why the run paused, for example `"tool_approval"`.
    pub reason: String,
    /// A message for the human.
    pub message: Option<String>,
    /// The tool call the question is about, when there is one.
    pub tool_call_id: Option<ToolCallId>,
    /// The JSON Schema the answer should satisfy.
    pub response_schema: Option<serde_json::Value>,
    /// Producer-defined extras.
    pub metadata: Option<serde_json::Value>,
    /// The subagent run that raised the question, when one did.
    pub subagent_run_id: Option<RunId>,
}

impl Interrupt {
    /// An interrupt with an id and a reason and nothing else.
    pub fn new(id: &str, reason: &str) -> (interrupt: Self)
        ensures
            interrupt.id@ == id@,
            interrupt.reason@ == reason@,
            interrupt.message is None,
            interrupt.tool_call_id is None,
            interrupt.response_schema is None,
            interrupt.metadata is None,
            interrupt.subagent_run_id is None,
    {
        Interrupt {
            id: id.to_owned(),
            reason: reason.to_owned(),
            message: None,
            tool_call_id: None,
            response_schema: None,
            metadata: None,
            subagent_run_id: None,
        }
    }

    /// The same interrupt, attributed to a subagent run.
    pub fn with_subagent_run_id(self, run: RunId) -> (interrupt: Self)
        ensures
            interrupt == (Interrupt { subagent_run_id: Some(run), ..self }),
    {
        Interrupt { subagent_run_id: Some(run), ..self }
    }
}

/// Whether a human answered an interrupt or declined it.
#[derive(Clone, Copy, Debug, PartialEq, Eq, Structural, Hash)]
pub enum ResumeStatus {
    /// The human answered.
    Resolved,
    /// The human declined.
    Cancelled,
}

/// The answer to one interrupt, sent on the request that resumes the run.
#[derive(Clone, Debug, PartialEq)]
pub struct ResumeEntry {
    /// The interrupt this answers.
    pub interrupt_id: String,
    /// Answered or declined.
    pub status: ResumeStatus,
    /// The answer itself.
    pub payload: Option<serde_json::Value>,
}

impl ResumeEntry {
    /// An answer to `interrupt_id`.
    pub fn resolved(interrupt_id: &str, payload: serde_json::Value) -> (entry: Self)
        ensures
            entry.interrupt_id@ == interrupt_id@,
            entry.status == ResumeStatus::Resolved,
            entry.payload == Some(payload),
    {
        ResumeEntry {
            interrupt_id: interrupt_id.to_owned(),
            status: ResumeStatus::Resolved,
            payload: Some(payload),
        }
    }

    /// Declines `interrupt_id`.
    pub fn cancelled(interrupt_id: &str) -> (entry: Self)
        ensures
            entry.interrupt_id@ == interrupt_id@,
            entry.status == ResumeStatus::Cancelled,
            entry.payload is None,
    {
        ResumeEntry {
            interrupt_id: interrupt_id.to_owned(),
            status: ResumeStatus::Cancelled,
            payload: None,
        }
    }
}

/// A copy of an optional text.
fn copy_text(text: &Option<String>) -> (copy: Option<String>)
    ensures
        copy == *text,
{
    match text {
        Some(t) => Some(t.clone()),
        None => None,
    }
}

/// A copy of an optional JSON value.
fn copy_value(value: &Option<serde_json::Value>) -> (copy: Option<serde_json::Value>)
    ensures
        copy == *value,
{
    match value {
        Some(v) => Some(v.clone()),
        None => None,
    }
}

impl Clone for Interrupt {
    /// The same question.
    fn clone(&self) -> (copy: Self)
        ensures
            copy == *self,
    {
        Interrupt {
            id: self.id.clone(),
            reason: self.reason.clone(),
            message: copy_text(&self.message),
            tool_call_id: match &self.tool_call_id {
                Some(c) => Some(c.clone()),
                None => None,
            },
            response_schema: copy_value(&self.response_schema),
            metadata: copy_value(&self.metadata),
            subagent_run_id: match &self.subagent_run_id {
                Some(r) => Some(r.clone()),
                None => None,
            },
        }
    }
}

/// A copy of a list of interrupts.
pub fn copy_interrupts(interrupts: &Vec<Interrupt>) -> (copy: Vec<Interrupt>)
    ensures
        copy@ == interrupts@,
{
    let mut copy: Vec<Interrupt> = Vec::new();
    let mut i: usize = 0;
    while i < interrupts.len()
        invariant
            i <= interrupts@.len(),
            copy@ == interrupts@.take(i as int),
        decreases interrupts@.len() - i,
    {
        copy.push(interrupts[i].clone());
        assert(interrupts@.take(i + 1) =~= interrupts@.take(i as int).push(interrupts@[i as int]));
        i = i + 1;
    }
    assert(interrupts@.take(interrupts@.len() as int) =~= interrupts@);
    copy
}

/// How a run ended, as carried on `RUN_FINISHED`.
#[derive(Clone, Debug, PartialEq)]
pub enum RunOutcome {
    /// The agent finished.
    Success,
    /// The agent paused for human input.
    Interrupt {
        /// What the agent is waiting for.
        interrupts: Vec<Interrupt>,
    },
}

/// The complaint about an interrupt outcome that carries no interrupt.
pub open spec fn empty_interrupt_text() -> Seq<char> {
    "an interrupt outcome must carry at least one interrupt"@
}

impl RunOutcome {
    /// Whether the outcome is well formed: an interrupt outcome must carry at
    /// least one interrupt.
    pub open spec fn well_formed(&self) -> bool {
        match self {
            RunOutcome::Success => true,
            RunOutcome::Interrupt { interrupts } => interrupts@.len() > 0,
        }
    }

    /// A paused outcome carrying `interrupts`.
    pub fn interrupt(interrupts: Vec<Interrupt>) -> (outcome: Self)
        ensures
            outcome == (RunOutcome::Interrupt { interrupts }),
    {
        RunOutcome::Interrupt { interrupts }
    }

    /// The interrupts the run paused on; empty for a success.
    pub fn interrupts(&self) -> (pending: &[Interrupt])
        ensures
            match self {
                RunOutcome::Success => pending@.len() == 0,
                RunOutcome::Interrupt { interrupts } => pending@ == interrupts@,
            },
    {
        match self {
            RunOutcome::Success => &[],
            RunOutcome::Interrupt { interrupts } => interrupts.as_slice(),
        }
    }

    /// Checks the one rule the type cannot express.
    pub fn validate(&self) -> (checked: Result<(), Error>)
        ensures
            checked is Ok <==> self.well_formed(),
            checked matches Err(e) ==> (e is Protocol && e.text() == empty_interrupt_text()),
    {
        match self {
            RunOutcome::Success => Ok(()),
            RunOutcome::Interrupt { interrupts } => {
                if interrupts.len() == 0 {
                    Err(Error::protocol("an interrupt outcome must carry at least one interrupt".to_owned()))
                } else {
                    Ok(())
                }
            },
        }
    }
}

} // verus!

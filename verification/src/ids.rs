//! Identifiers.
//!
//! Every identifier on the wire is an arbitrary string: producers send what
//! they like, and a stricter type would reject valid traffic. Each kind gets
//! its own type so that a message id cannot be passed where a tool call id is
//! expected. Two identifiers are equal exactly when their text is.

use vstd::prelude::*;
use vstd::string::StringSliceAdditionalSpecFns;

verus! {

/// Byte-wise equality of two strings, which is equality of their text.
pub fn text_eq(a: &str, b: &str) -> (same: bool)
    ensures
        same == (a@ == b@),
{
    let x = a.as_bytes();
    let y = b.as_bytes();
    proof {
        vstd::utf8::encode_utf8_decode_utf8(a@);
        vstd::utf8::encode_utf8_decode_utf8(b@);
    }
    if x.len() != y.len() {
        return false;
    }
    let mut i: usize = 0;
    while i < x.len()
        invariant
            x@ == a.spec_bytes(),
            y@ == b.spec_bytes(),
            x@.len() == y@.len(),
            i <= x@.len(),
            forall|j: int| 0 <= j < i ==> x@[j] == y@[j],
        decreases x@.len() - i,
    {
        if x[i] != y[i] {
            return false;
        }
        i = i + 1;
    }
    assert(x@ =~= y@);
    true
}

/// Identifies a message within a thread.
#[derive(Debug, Default)]
pub struct MessageId {
    text: String,
}

impl View for MessageId {
    type V = Seq<char>;

    closed spec fn view(&self) -> Seq<char> {
        self.text@
    }
}

impl MessageId {
    /// An identifier with this text.
    pub fn new(text: &str) -> (id: Self)
        ensures
            id@ == text@,
    {
        MessageId { text: text.to_owned() }
    }

    /// An identifier taking ownership of `text`.
    pub fn from_string(text: String) -> (id: Self)
        ensures
            id@ == text@,
    {
        MessageId { text }
    }

    /// The identifier's text.
    pub fn as_str(&self) -> (text: &str)
        ensures
            text@ == self@,
    {
        self.text.as_str()
    }

    /// Whether the identifier is the empty string.
    pub fn is_empty(&self) -> (empty: bool)
        ensures
            empty == (self@.len() == 0),
    {
        self.text.as_str().is_empty()
    }
}

impl Clone for MessageId {
    fn clone(&self) -> (copy: Self)
        ensures
            copy == *self,
    {
        MessageId { text: self.text.clone() }
    }
}

impl PartialEq for MessageId {
    fn eq(&self, other: &Self) -> (same: bool) {
        text_eq(self.text.as_str(), other.text.as_str())
    }
}

impl Eq for MessageId {}

impl vstd::std_specs::cmp::PartialEqSpecImpl for MessageId {
    open spec fn obeys_eq_spec() -> bool {
        true
    }

    open spec fn eq_spec(&self, other: &Self) -> bool {
        self@ == other@
    }
}

/// Identifies one tool call.
#[derive(Debug, Default)]
pub struct ToolCallId {
    text: String,
}

impl View for ToolCallId {
    type V = Seq<char>;

    closed spec fn view(&self) -> Seq<char> {
        self.text@
    }
}

impl ToolCallId {
    /// An identifier with this text.
    pub fn new(text: &str) -> (id: Self)
        ensures
            id@ == text@,
    {
        ToolCallId { text: text.to_owned() }
    }

    /// An identifier taking ownership of `text`.
    pub fn from_string(text: String) -> (id: Self)
        ensures
            id@ == text@,
    {
        ToolCallId { text }
    }

    /// The identifier's text.
    pub fn as_str(&self) -> (text: &str)
        ensures
            text@ == self@,
    {
        self.text.as_str()
    }

    /// Whether the identifier is the empty string.
    pub fn is_empty(&self) -> (empty: bool)
        ensures
            empty == (self@.len() == 0),
    {
        self.text.as_str().is_empty()
    }
}

impl Clone for ToolCallId {
    fn clone(&self) -> (copy: Self)
        ensures
            copy == *self,
    {
        ToolCallId { text: self.text.clone() }
    }
}

impl PartialEq for ToolCallId {
    fn eq(&self, other: &Self) -> (same: bool) {
        text_eq(self.text.as_str(), other.text.as_str())
    }
}

impl Eq for ToolCallId {}

impl vstd::std_specs::cmp::PartialEqSpecImpl for ToolCallId {
    open spec fn obeys_eq_spec() -> bool {
        true
    }

    open spec fn eq_spec(&self, other: &Self) -> bool {
        self@ == other@
    }
}

/// Identifies one run of an agent.
#[derive(Debug, Default)]
pub struct RunId {
    text: String,
}

impl View for RunId {
    type V = Seq<char>;

    closed spec fn view(&self) -> Seq<char> {
        self.text@
    }
}

impl RunId {
    /// An identifier with this text.
    pub fn new(text: &str) -> (id: Self)
        ensures
            id@ == text@,
    {
        RunId { text: text.to_owned() }
    }

    /// An identifier taking ownership of `text`.
    pub fn from_string(text: String) -> (id: Self)
        ensures
            id@ == text@,
    {
        RunId { text }
    }

    /// The identifier's text.
    pub fn as_str(&self) -> (text: &str)
        ensures
            text@ == self@,
    {
        self.text.as_str()
    }

    /// Whether the identifier is the empty string.
    pub fn is_empty(&self) -> (empty: bool)
        ensures
            empty == (self@.len() == 0),
    {
        self.text.as_str().is_empty()
    }
}

impl Clone for RunId {
    fn clone(&self) -> (copy: Self)
        ensures
            copy == *self,
    {
        RunId { text: self.text.clone() }
    }
}

impl PartialEq for RunId {
    fn eq(&self, other: &Self) -> (same: bool) {
        text_eq(self.text.as_str(), other.text.as_str())
    }
}

impl Eq for RunId {}

impl vstd::std_specs::cmp::PartialEqSpecImpl for RunId {
    open spec fn obeys_eq_spec() -> bool {
        true
    }

    open spec fn eq_spec(&self, other: &Self) -> bool {
        self@ == other@
    }
}

/// Identifies a conversation.
#[derive(Debug, Default)]
pub struct ThreadId {
    text: String,
}

impl View for ThreadId {
    type V = Seq<char>;

    closed spec fn view(&self) -> Seq<char> {
        self.text@
    }
}

impl ThreadId {
    /// An identifier with this text.
    pub fn new(text: &str) -> (id: Self)
        ensures
            id@ == text@,
    {
        ThreadId { text: text.to_owned() }
    }

    /// An identifier taking ownership of `text`.
    pub fn from_string(text: String) -> (id: Self)
        ensures
            id@ == text@,
    {
        ThreadId { text }
    }

    /// The identifier's text.
    pub fn as_str(&self) -> (text: &str)
        ensures
            text@ == self@,
    {
        self.text.as_str()
    }

    /// Whether the identifier is the empty string.
    pub fn is_empty(&self) -> (empty: bool)
        ensures
            empty == (self@.len() == 0),
    {
        self.text.as_str().is_empty()
    }
}

impl Clone for ThreadId {
    fn clone(&self) -> (copy: Self)
        ensures
            copy == *self,
    {
        ThreadId { text: self.text.clone() }
    }
}

impl PartialEq for ThreadId {
    fn eq(&self, other: &Self) -> (same: bool) {
        text_eq(self.text.as_str(), other.text.as_str())
    }
}

impl Eq for ThreadId {}

impl vstd::std_specs::cmp::PartialEqSpecImpl for ThreadId {
    open spec fn obeys_eq_spec() -> bool {
        true
    }

    open spec fn eq_spec(&self, other: &Self) -> bool {
        self@ == other@
    }
}

/// Names a step of a run.
#[derive(Debug, Default)]
pub struct StepName {
    text: String,
}

impl View for StepName {
    type V = Seq<char>;

    closed spec fn view(&self) -> Seq<char> {
        self.text@
    }
}

impl StepName {
    /// An identifier with this text.
    pub fn new(text: &str) -> (id: Self)
        ensures
            id@ == text@,
    {
        StepName { text: text.to_owned() }
    }

    /// An identifier taking ownership of `text`.
    pub fn from_string(text: String) -> (id: Self)
        ensures
            id@ == text@,
    {
        StepName { text }
    }

    /// The identifier's text.
    pub fn as_str(&self) -> (text: &str)
        ensures
            text@ == self@,
    {
        self.text.as_str()
    }

    /// Whether the identifier is the empty string.
    pub fn is_empty(&self) -> (empty: bool)
        ensures
            empty == (self@.len() == 0),
    {
        self.text.as_str().is_empty()
    }
}

impl Clone for StepName {
    fn clone(&self) -> (copy: Self)
        ensures
            copy == *self,
    {
        StepName { text: self.text.clone() }
    }
}

impl PartialEq for StepName {
    fn eq(&self, other: &Self) -> (same: bool) {
        text_eq(self.text.as_str(), other.text.as_str())
    }
}

impl Eq for StepName {}

impl vstd::std_specs::cmp::PartialEqSpecImpl for StepName {
    open spec fn obeys_eq_spec() -> bool {
        true
    }

    open spec fn eq_spec(&self, other: &Self) -> bool {
        self@ == other@
    }
}

} // verus!

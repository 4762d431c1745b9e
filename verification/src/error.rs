//! What can go wrong on the consuming side of a stream.

use vstd::prelude::*;

verus! {

/// An error from decoding, normalizing or verifying a stream.
#[derive(Clone, Debug, PartialEq)]
pub enum Error {
    /// The stream broke one of the protocol's rules.
    Protocol(String),
    /// The bytes on the wire are not a well-formed event stream.
    Decode(String),
    /// The transport failed.
    Transport(String),
    /// The agent reported a failed run.
    Run {
        /// What went wrong, for a human.
        message: String,
        /// The machine-readable code, when the agent sent one.
        code: Option<String>,
    },
}

impl Error {
    /// The text the error carries, whatever its kind.
    pub open spec fn text(&self) -> Seq<char> {
        match self {
            Error::Protocol(m) => m@,
            Error::Decode(m) => m@,
            Error::Transport(m) => m@,
            Error::Run { message, .. } => message@,
        }
    }

    /// A protocol violation described by `message`.
    pub fn protocol(message: String) -> (error: Self)
        ensures
            error matches Error::Protocol(m) && m@ == message@,
    {
        Error::Protocol(message)
    }

    /// A wire-format error described by `message`.
    pub fn decode(message: String) -> (error: Self)
        ensures
            error matches Error::Decode(m) && m@ == message@,
    {
        Error::Decode(message)
    }

    /// Whether this is a protocol violation.
    pub fn is_protocol(&self) -> (protocol: bool)
        ensures
            protocol == (self is Protocol),
    {
        match self {
            Error::Protocol(_) => true,
            _ => false,
        }
    }

    /// The error as a human reads it.
    pub fn to_string(&self) -> (text: String)
        ensures
            text@ == self.text(),
    {
        match self {
            Error::Protocol(m) => m.clone(),
            Error::Decode(m) => m.clone(),
            Error::Transport(m) => m.clone(),
            Error::Run { message, .. } => message.clone(),
        }
    }
}

} // verus!

//! The failures that the protocol layer itself can report.

use vstd::prelude::*;

verus! {

/// Why a command could not be turned into a frame.
#[derive(Debug, Clone, Copy, PartialEq, Eq, Structural)]
pub enum ProtocolError {
    /// The escaped message is longer than the two-byte length field can say.
    PayloadTooLong,
    /// A body could not be encoded as JSON.
    Serialize,
}

impl ProtocolError {
    /// The error in words.
    pub open spec fn text(&self) -> Seq<char> {
        match self {
            ProtocolError::PayloadTooLong => "Command does not fit in one frame"@,
            ProtocolError::Serialize => "Failed to encode the command body as JSON"@,
        }
    }

    /// The error in words, for a log line or an error event.
    pub fn describe(&self) -> (words: &'static str)
        ensures
            words@ == self.text(),
    {
        match self {
            ProtocolError::PayloadTooLong => "Command does not fit in one frame",
            ProtocolError::Serialize => "Failed to encode the command body as JSON",
        }
    }
}

} // verus!

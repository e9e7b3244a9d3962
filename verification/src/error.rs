//! The fatal error kinds of a node.

use vstd::prelude::*;

verus! {

/// Why a node stops. None of these is recoverable: the process ends and the
/// harness restarts or resends.
#[derive(Debug, Clone, Copy, PartialEq, Eq, Structural)]
pub enum MaelstromError {
    /// Reading or writing one of the standard streams failed.
    IOError,
    /// A line is not valid JSON or matches no payload shape that is
    /// accepted where it arrived.
    MessageParseError,
    /// The first line is not an initialization message.
    InitializationMessageMissing,
}

impl MaelstromError {
    /// The human-readable description of this error.
    pub open spec fn text(self) -> Seq<char> {
        match self {
            MaelstromError::IOError => "[maelstrom error] - io error"@,
            MaelstromError::MessageParseError => "[maelstrom error] - failed to parse message"@,
            MaelstromError::InitializationMessageMissing =>
                "[maelstrom error] - initialization message missing"@,
        }
    }

    /// Renders the description of this error.
    pub fn message(&self) -> (rendered: String)
        ensures
            rendered@ == self.text(),
    {
        match self {
            MaelstromError::IOError => "[maelstrom error] - io error".to_owned(),
            MaelstromError::MessageParseError =>
                "[maelstrom error] - failed to parse message".to_owned(),
            MaelstromError::InitializationMessageMissing =>
                "[maelstrom error] - initialization message missing".to_owned(),
        }
    }
}

} // verus!

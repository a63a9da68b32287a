use vstd::prelude::*;

verus! {

/// Why a call produced no payload.
#[derive(Clone, Copy, Debug, PartialEq, Eq, Structural)]
pub enum Failure {
    /// The key does not fit the two-byte length prefix; nothing was sent.
    KeyTooLong,
    /// The peer answered and reported that the command failed.
    CommandFailed,
    /// Every attempt went unanswered.
    RequestTimeout,
    /// The socket refused a send or a receive.
    Transport,
}

/// Why a datagram is not a frame.
#[derive(Clone, Copy, Debug, PartialEq, Eq, Structural)]
pub enum FrameError {
    /// Fewer bytes than the fields it announces.
    Truncated,
    /// A field holds a value the format does not allow.
    Malformed,
}

impl Failure {
    /// The text that describes this failure.
    pub open spec fn text(self) -> Seq<char> {
        match self {
            Failure::KeyTooLong => "keylen too long"@,
            Failure::CommandFailed => "command failed"@,
            Failure::RequestTimeout => "request timeout"@,
            Failure::Transport => "transport failed"@,
        }
    }

    /// A short human-readable description.
    pub fn message(&self) -> (s: &'static str)
        ensures
            s@ == self.text(),
    {
        match self {
            Failure::KeyTooLong => "keylen too long",
            Failure::CommandFailed => "command failed",
            Failure::RequestTimeout => "request timeout",
            Failure::Transport => "transport failed",
        }
    }
}

impl FrameError {
    /// The text that describes this error.
    pub open spec fn text(self) -> Seq<char> {
        match self {
            FrameError::Truncated => "frame too short"@,
            FrameError::Malformed => "failed parsing"@,
        }
    }

    /// A short human-readable description.
    pub fn message(&self) -> (s: &'static str)
        ensures
            s@ == self.text(),
    {
        match self {
            FrameError::Truncated => "frame too short",
            FrameError::Malformed => "failed parsing",
        }
    }
}

} // verus!

use vstd::prelude::*;

use crate::errors::Failure;
use crate::types::Bytes;

verus! {

/// Where the dispatcher stands.
#[derive(Clone, Copy, Debug, PartialEq, Eq, Structural)]
pub enum Phase {
    /// Taking frames from the outbound queue and writing them to the socket.
    Running,
    /// The outbound queue was closed; nothing more is written.
    Stopped,
    /// A write failed; nothing more is written.
    Failed,
}

/// What happened on the dispatcher's side since it was last asked.
#[derive(Debug)]
pub enum Outbound {
    /// The outbound queue yielded this frame.
    Frame(Bytes),
    /// The outbound queue is closed: every producer is gone.
    Closed,
    /// The socket refused the frame last handed out.
    SendFailed,
}

/// What the dispatcher's owner does next.
#[derive(Debug)]
pub enum Transmit {
    /// Write these bytes to the socket as one datagram, then take the next
    /// frame from the queue.
    Send(Bytes),
    /// Leave the loop with this result.
    Stop(Result<(), Failure>),
}

/// The mathematical content of a [`Transmit`].
pub enum Emission {
    Send(Seq<u8>),
    Stop(Result<(), Failure>),
}

impl View for Transmit {
    type V = Emission;

    open spec fn view(&self) -> Emission {
        match *self {
            Transmit::Send(frame) => Emission::Send(frame@),
            Transmit::Stop(result) => Emission::Stop(result),
        }
    }
}

/// The sole writer to the socket, as a state machine. It never sends a frame
/// twice: sending again is the callers' business.
pub struct Dispatcher {
    /// Where the dispatcher stands.
    pub phase: Phase,
}

impl Dispatcher {
    /// A dispatcher that is running.
    pub fn new() -> (d: Self)
        ensures
            d.phase == Phase::Running,
    {
        Dispatcher { phase: Phase::Running }
    }

    /// The phase after an event.
    pub open spec fn next(phase: Phase, event: Outbound) -> Phase {
        match phase {
            Phase::Running => match event {
                Outbound::Frame(_) => Phase::Running,
                Outbound::Closed => Phase::Stopped,
                Outbound::SendFailed => Phase::Failed,
            },
            Phase::Stopped => Phase::Stopped,
            Phase::Failed => Phase::Failed,
        }
    }

    /// What the owner is told to do upon an event.
    pub open spec fn emit(phase: Phase, event: Outbound) -> Emission {
        match phase {
            Phase::Running => match event {
                Outbound::Frame(frame) => Emission::Send(frame@),
                Outbound::Closed => Emission::Stop(Ok(())),
                Outbound::SendFailed => Emission::Stop(Err(Failure::Transport)),
            },
            Phase::Stopped => Emission::Stop(Ok(())),
            Phase::Failed => Emission::Stop(Err(Failure::Transport)),
        }
    }

    /// One turn of the dispatcher's loop.
    ///
    /// While running, a frame from the queue is to be written as it is, a
    /// closed queue ends the loop in good order, and a refused write ends it
    /// with `Transport`. Once it has ended it stays so and hands out nothing.
    pub fn run(&mut self, event: Outbound) -> (t: Transmit)
        ensures
            final(self).phase == Self::next(old(self).phase, event),
            t@ == Self::emit(old(self).phase, event),
    {
        match self.phase {
            Phase::Running => match event {
                Outbound::Frame(frame) => Transmit::Send(frame),
                Outbound::Closed => {
                    self.phase = Phase::Stopped;
                    Transmit::Stop(Ok(()))
                },
                Outbound::SendFailed => {
                    self.phase = Phase::Failed;
                    Transmit::Stop(Err(Failure::Transport))
                },
            },
            Phase::Stopped => Transmit::Stop(Ok(())),
            Phase::Failed => Transmit::Stop(Err(Failure::Transport)),
        }
    }
}

} // verus!

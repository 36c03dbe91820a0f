use vstd::prelude::*;
use crate::codec::{
    bytes_of, decode_input, decoded, words_of, CLASS_COUNT, INPUT_FRAME_BYTES, INPUT_VALUES,
    OUTPUT_FRAME_BYTES,
};

verus! {

/// One inbound event on an upgraded connection, as the transport reports it.
pub enum Inbound {
    /// A binary message with its payload.
    Binary(Vec<u8>),
    /// A text message (its content is never read).
    Text,
    /// A ping, a pong or a raw frame.
    Control,
    /// The peer closed the connection or the stream ended.
    PeerClosed,
    /// Reading the next message failed.
    ReadFailed,
}

/// Where a connection stands between two events.
#[derive(Clone, Copy, PartialEq, Eq, Structural, Debug)]
pub enum Phase {
    /// Waiting for the next inbound message.
    WaitFrame,
    /// A frame was decoded; its response is being computed and written.
    Responding,
    /// Terminal: nothing more is read or written.
    Closed,
}

/// What the handler must do after an inbound event.
pub enum Action {
    /// Score these pixel words and write the response.
    Score(Vec<u32>),
    /// Nothing: no response, the connection stays open.
    Ignore,
    /// Release the connection.
    Close,
}

/// The mathematical content of an [`Action`].
pub ghost enum Outcome {
    Score(Seq<u32>),
    Ignore,
    Close,
}

impl View for Action {
    type V = Outcome;

    open spec fn view(&self) -> Outcome {
        match self {
            Action::Score(w) => Outcome::Score(w@),
            Action::Ignore => Outcome::Ignore,
            Action::Close => Outcome::Close,
        }
    }
}

/// A message that is valid traffic but never answered: anything but a binary
/// message, or a binary message whose length is not one frame.
pub open spec fn is_discardable(m: &Inbound) -> bool {
    match m {
        Inbound::Binary(p) => p@.len() != INPUT_FRAME_BYTES,
        Inbound::Text => true,
        Inbound::Control => true,
        _ => false,
    }
}

/// The phase after `m` arrives in phase `phase` (not while responding).
pub open spec fn phase_after(phase: Phase, m: &Inbound) -> Phase {
    match phase {
        Phase::WaitFrame => match m {
            Inbound::Binary(p) => if decoded(p@) is Some {
                Phase::Responding
            } else {
                Phase::WaitFrame
            },
            Inbound::Text => Phase::WaitFrame,
            Inbound::Control => Phase::WaitFrame,
            _ => Phase::Closed,
        },
        _ => Phase::Closed,
    }
}

/// What the handler does when `m` arrives in phase `phase` (not while responding).
pub open spec fn outcome_of(phase: Phase, m: &Inbound) -> Outcome {
    match phase {
        Phase::WaitFrame => match m {
            Inbound::Binary(p) => match decoded(p@) {
                Some(words) => Outcome::Score(words),
                None => Outcome::Ignore,
            },
            Inbound::Text => Outcome::Ignore,
            Inbound::Control => Outcome::Ignore,
            _ => Outcome::Close,
        },
        _ => Outcome::Close,
    }
}

/// The phase after the response to a frame was written (`written`) or its
/// write failed.
pub open spec fn phase_after_write(written: bool) -> Phase {
    if written {
        Phase::WaitFrame
    } else {
        Phase::Closed
    }
}

/// The per-connection state machine. Requests are handled strictly one at a
/// time: no message is taken while a response is outstanding.
pub struct Connection {
    phase: Phase,
}

impl Connection {
    pub closed spec fn spec_phase(&self) -> Phase {
        self.phase
    }

    /// A connection whose handshake has completed: it waits for a frame.
    pub fn open() -> (c: Connection)
        ensures
            c.spec_phase() == Phase::WaitFrame,
    {
        Connection { phase: Phase::WaitFrame }
    }

    /// The current phase.
    pub fn phase(&self) -> (p: Phase)
        ensures
            p == self.spec_phase(),
    {
        self.phase
    }

    /// Takes one inbound event and says what to do with it. A frame of the
    /// right length is decoded and handed out for scoring; discardable
    /// messages change nothing; a close or a read failure ends the
    /// connection, which stays closed.
    pub fn receive(&mut self, msg: Inbound) -> (a: Action)
        requires
            old(self).spec_phase() != Phase::Responding,
        ensures
            a@ == outcome_of(old(self).spec_phase(), &msg),
            final(self).spec_phase() == phase_after(old(self).spec_phase(), &msg),
    {
        if self.phase != Phase::WaitFrame {
            return Action::Close;
        }
        match msg {
            Inbound::Binary(payload) => match decode_input(payload.as_slice()) {
                Some(words) => {
                    self.phase = Phase::Responding;
                    Action::Score(words)
                },
                None => Action::Ignore,
            },
            Inbound::Text => Action::Ignore,
            Inbound::Control => Action::Ignore,
            Inbound::PeerClosed => {
                self.phase = Phase::Closed;
                Action::Close
            },
            Inbound::ReadFailed => {
                self.phase = Phase::Closed;
                Action::Close
            },
        }
    }

    /// Records how writing the outstanding response ended: on success the
    /// connection waits for the next frame, on failure it is closed.
    pub fn finish_response(&mut self, written: bool)
        requires
            old(self).spec_phase() == Phase::Responding,
        ensures
            final(self).spec_phase() == phase_after_write(written),
    {
        if written {
            self.phase = Phase::WaitFrame;
        } else {
            self.phase = Phase::Closed;
        }
    }
}

/// A discardable message gets no response and leaves the connection waiting;
/// a valid frame that follows is still decoded and handed out for scoring.
pub proof fn lemma_discard_then_frame(first: Inbound, payload: Vec<u8>)
    requires
        is_discardable(&first),
        payload@.len() == INPUT_FRAME_BYTES,
    ensures
        outcome_of(Phase::WaitFrame, &first) == Outcome::Ignore,
        phase_after(Phase::WaitFrame, &first) == Phase::WaitFrame,
        outcome_of(phase_after(Phase::WaitFrame, &first), &Inbound::Binary(payload))
            == Outcome::Score(words_of(payload@)),
{
}

/// The same frame sent twice on one connection, with the first response
/// written in between, is handed out for scoring with the same words both
/// times.
pub proof fn lemma_same_frame_same_request(payload: Vec<u8>)
    requires
        payload@.len() == INPUT_FRAME_BYTES,
    ensures
        phase_after(Phase::WaitFrame, &Inbound::Binary(payload)) == Phase::Responding,
        outcome_of(phase_after_write(true), &Inbound::Binary(payload))
            == outcome_of(Phase::WaitFrame, &Inbound::Binary(payload)),
        outcome_of(Phase::WaitFrame, &Inbound::Binary(payload)) == Outcome::Score(words_of(payload@)),
{
}

/// Every frame of the right length is handed out for scoring with all of
/// its pixel words, and the response, one probability per class, encodes to
/// exactly one output frame.
pub proof fn lemma_valid_frame_gets_full_response(payload: Vec<u8>, probabilities: Seq<u32>)
    requires
        payload@.len() == INPUT_FRAME_BYTES,
        probabilities.len() == CLASS_COUNT,
    ensures
        outcome_of(Phase::WaitFrame, &Inbound::Binary(payload)) == Outcome::Score(words_of(payload@)),
        words_of(payload@).len() == INPUT_VALUES,
        bytes_of(probabilities).len() == OUTPUT_FRAME_BYTES,
{
}

/// A closed connection stays closed and never asks for scoring.
pub proof fn lemma_closed_is_terminal(m: Inbound)
    ensures
        phase_after(Phase::Closed, &m) == Phase::Closed,
        outcome_of(Phase::Closed, &m) == Outcome::Close,
{
}

} // verus!

//! The connection adapter's decision core.
//!
//! One adapter task owns each player's socket: it announces `Join` with the
//! player's outbound half, then loops over inbound frames, forwarding each
//! payload to the owning room session, until the socket closes — at which
//! point it announces `Leave`. The loop itself runs with the caller, who
//! owns the socket; [`adapter_translate`] is the step it applies to every
//! frame. The sender id on everything forwarded is the server-assigned id
//! the adapter was created with — never anything a client supplied: this is
//! exactly the boundary between untrusted frames and trusted commands.

use vstd::prelude::*;

use crate::comm::{Command, HostComm};

verus! {

/// One inbound socket frame, reduced to what the relay cares about: a text
/// payload, a binary payload, a close notice, or anything else (control
/// frames the adapter ignores).
#[derive(Debug, PartialEq, Eq)]
pub enum Frame {
    Text(String),
    Binary(Vec<u8>),
    Close,
    Other,
}

/// What the adapter does with one inbound frame: forward an event to the
/// room session, ignore the frame, or stop reading because the player is
/// gone.
#[derive(Debug, PartialEq, Eq)]
pub enum AdapterAction {
    Forward(HostComm),
    Ignore,
    Disconnect,
}

/// The adapter's translation contract: payload frames become `From`/
/// `FromStr` commands stamped with the adapter's own player id, a close
/// frame ends the read loop, and control frames are ignored.
pub open spec fn adapter_spec(id: u32, frame: Frame, action: AdapterAction) -> bool {
    match frame {
        Frame::Text(text) => {
            &&& action matches AdapterAction::Forward(h)
            &&& h matches HostComm::Command(c)
            &&& c matches Command::FromStr { from, data } && from == id && data@ == text@
        },
        Frame::Binary(bytes) => {
            &&& action matches AdapterAction::Forward(h)
            &&& h matches HostComm::Command(c)
            &&& c matches Command::From { from, data } && from == id && data@ == bytes@
        },
        Frame::Close => action == AdapterAction::Disconnect,
        Frame::Other => action == AdapterAction::Ignore,
    }
}

/// Translate one inbound frame from the player with this server-assigned
/// id. The id stamped on the forwarded command is this parameter and
/// nothing from the frame: the server is the sole authority on identity.
pub fn adapter_translate(id: u32, frame: Frame) -> (action: AdapterAction)
    ensures
        adapter_spec(id, frame, action),
{
    match frame {
        Frame::Text(text) => AdapterAction::Forward(
            HostComm::Command(Command::FromStr { from: id, data: text }),
        ),
        Frame::Binary(bytes) => AdapterAction::Forward(
            HostComm::Command(Command::From { from: id, data: bytes }),
        ),
        Frame::Close => AdapterAction::Disconnect,
        Frame::Other => AdapterAction::Ignore,
    }
}

} // verus!

//! The outbound protocol: the message types that the server sends, when each
//! goes out, and what turns a message into bytes.

use crate::packet::Packet;
use crate::wire::placed;
use vstd::prelude::*;

verus! {

/// The types of message that the server sends.
#[allow(non_camel_case_types)]
#[derive(Clone, Copy, Debug, PartialEq, Eq, Hash)]
pub enum ServerProtocol {
    REBUILD_NORMAL,
    IF_OPENTOP,
    IF_OPENSUB,
}

/// When a message goes out.
#[allow(non_camel_case_types)]
#[derive(Clone, Copy, Debug, PartialEq, Eq)]
pub enum ServerProtocolPriority {
    /// At the end of the tick, in the order of the calls.
    BUFFERED,
    /// At once, ahead of what waits for the end of the tick.
    IMMEDIATE,
}

impl ServerProtocol {
    /// The number under which the registry keeps the type's encoder.
    pub open spec fn key_of(self) -> u32 {
        match self {
            ServerProtocol::REBUILD_NORMAL => 0,
            ServerProtocol::IF_OPENTOP => 1,
            ServerProtocol::IF_OPENSUB => 2,
        }
    }

    pub fn key(&self) -> (key: u32)
        ensures
            key == self.key_of(),
    {
        match self {
            ServerProtocol::REBUILD_NORMAL => 0,
            ServerProtocol::IF_OPENTOP => 1,
            ServerProtocol::IF_OPENSUB => 2,
        }
    }
}

/// A message that the server sends.
pub trait OutgoingMessage {
    spec fn priority_of(&self) -> ServerProtocolPriority;

    spec fn protocol_of(&self) -> ServerProtocol;

    fn priority(&self) -> (priority: ServerProtocolPriority)
        ensures
            priority == self.priority_of(),
    ;

    fn protocol(&self) -> (protocol: ServerProtocol)
        ensures
            protocol == self.protocol_of(),
    ;
}

/// Turns the messages of one type into bytes.
pub trait MessageEncoder {
    /// What the encoder takes.
    type Message;

    /// The type of message that the encoder is for.
    spec fn protocol_of(&self) -> ServerProtocol;

    /// Whether the encoder can write `message` to a packet of `length` bytes
    /// whose cursor stands at `position`.
    spec fn encodable(&self, message: &Self::Message, position: usize, length: nat) -> bool;

    /// What `message` is on the wire.
    spec fn encoded(&self, message: &Self::Message) -> Seq<u8>;

    fn protocol(&self) -> (protocol: ServerProtocol)
        ensures
            protocol == self.protocol_of(),
    ;

    /// Writes `message` to `packet`, from its cursor on.
    fn encode(&self, packet: &mut Packet, message: &Self::Message)
        requires
            self.encodable(message, old(packet).position, old(packet).data@.len()),
        ensures
            final(packet).data@ == placed(
                old(packet).data@,
                old(packet).position as int,
                self.encoded(message),
            ),
            final(packet).position == old(packet).position + self.encoded(message).len(),
            final(packet).bit_position == old(packet).bit_position,
    ;
}

} // verus!

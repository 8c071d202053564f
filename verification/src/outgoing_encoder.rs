//! The encoders of the messages that the server sends, as one closed set, so
//! that one registry holds them all.

use crate::outgoing_message::OutgoingMessageEnum;
use crate::packet::Packet;
use crate::rebuild_normal_encoder::RebuildNormalEncoder;
use crate::server_protocol::{MessageEncoder, ServerProtocol};
use vstd::prelude::*;

verus! {

/// Any encoder of a message that the server sends.
pub enum OutgoingEncoder {
    RebuildNormal(RebuildNormalEncoder),
}

impl MessageEncoder for OutgoingEncoder {
    type Message = OutgoingMessageEnum;

    open spec fn protocol_of(&self) -> ServerProtocol {
        match *self {
            OutgoingEncoder::RebuildNormal(encoder) => encoder.protocol_of(),
        }
    }

    /// An encoder takes the messages of its own type only.
    open spec fn encodable(&self, message: &OutgoingMessageEnum, position: usize, length: nat) -> bool {
        match (*self, *message) {
            (
                OutgoingEncoder::RebuildNormal(encoder),
                OutgoingMessageEnum::RebuildNormal(rebuild),
            ) => encoder.encodable(&rebuild, position, length),
            _ => false,
        }
    }

    open spec fn encoded(&self, message: &OutgoingMessageEnum) -> Seq<u8> {
        match (*self, *message) {
            (
                OutgoingEncoder::RebuildNormal(encoder),
                OutgoingMessageEnum::RebuildNormal(rebuild),
            ) => encoder.encoded(&rebuild),
            _ => Seq::empty(),
        }
    }

    fn protocol(&self) -> (protocol: ServerProtocol) {
        match self {
            OutgoingEncoder::RebuildNormal(encoder) => encoder.protocol(),
        }
    }

    fn encode(&self, packet: &mut Packet, message: &OutgoingMessageEnum) {
        match self {
            OutgoingEncoder::RebuildNormal(encoder) => {
                if let OutgoingMessageEnum::RebuildNormal(rebuild) = message {
                    encoder.encode(packet, rebuild);
                }
            },
        }
    }
}

} // verus!

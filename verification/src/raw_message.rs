//! The plainest decoder and handler: the payload is taken as it came and put
//! in a queue, for whoever owns the player to act on once the tick's reading
//! is done.

use crate::client_protocol::ClientProtocol;
use crate::client_protocol_repository::{MessageDecoderErasure, MessageHandlerErasure};
use crate::packet::Packet;
use crate::wire::taken;
use vstd::prelude::*;

verus! {

/// A message as it came: the descriptor of its opcode and its payload.
#[derive(Clone, Debug, PartialEq, Eq)]
pub struct RawMessage {
    pub protocol: ClientProtocol,
    pub payload: Vec<u8>,
}

/// Decodes a payload into the bytes it consists of.
#[derive(Clone, Copy, Debug)]
pub struct RawDecoder {
    pub protocol: ClientProtocol,
}

/// Puts each message at the end of a queue.
#[derive(Clone, Copy, Debug)]
pub struct QueueHandler;

impl RawDecoder {
    pub fn new(protocol: ClientProtocol) -> (decoder: Self)
        ensures
            decoder.protocol == protocol,
    {
        RawDecoder { protocol }
    }
}

impl QueueHandler {
    pub fn new() -> Self {
        QueueHandler
    }
}

impl MessageDecoderErasure for RawDecoder {
    type Message = RawMessage;

    open spec fn protocol_of(&self) -> ClientProtocol {
        self.protocol
    }

    fn protocol(&self) -> (protocol: &ClientProtocol) {
        &self.protocol
    }

    /// The message holds the decoder's descriptor and the next `length` bytes
    /// of the packet, as many as it holds; the packet's cursor stands behind
    /// them.
    open spec fn decoded(
        &self,
        before: Packet,
        length: usize,
        after: Packet,
        message: RawMessage,
    ) -> bool {
        &&& message.protocol == self.protocol
        &&& message.payload@ == taken(before.data@, before.position as int, length as int)
        &&& after.read_from(before, length as int)
    }

    /// Takes the next `length` bytes of `packet`, as many as it holds.
    fn decode_erased(&self, packet: &mut Packet, length: usize) -> (message: RawMessage) {
        RawMessage { protocol: self.protocol, payload: packet.gbytes(length) }
    }
}

impl MessageHandlerErasure for QueueHandler {
    type Message = RawMessage;

    type Context = Vec<RawMessage>;

    /// The queue has grown by one message, which holds what `message` holds,
    /// and the answer is yes.
    open spec fn handled(
        &self,
        message: &RawMessage,
        before: Vec<RawMessage>,
        after: Vec<RawMessage>,
        done: bool,
    ) -> bool {
        &&& done
        &&& after@.len() == before@.len() + 1
        &&& after@.subrange(0, before@.len() as int) == before@
        &&& after@.last().protocol == message.protocol
        &&& after@.last().payload@ == message.payload@
    }

    /// Puts a copy of `message` at the end of `context`.
    fn handle_erased(&self, message: &RawMessage, context: &mut Vec<RawMessage>) -> (done: bool) {
        let copy = RawMessage { protocol: message.protocol, payload: message.payload.clone() };
        context.push(copy);
        assert(context@.subrange(0, old(context)@.len() as int) =~= old(context)@);
        true
    }
}

} // verus!

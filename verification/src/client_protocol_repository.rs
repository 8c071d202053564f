//! The inbound dispatch registry: for each opcode one decoder and one handler,
//! bound together in one call, held together in one map, and never rebound.

use crate::client_protocol::ClientProtocol;
use crate::packet::Packet;
use std::collections::HashMap;
use vstd::prelude::*;

verus! {

/// Turns the payload of one message type into a message.
pub trait MessageDecoderErasure {
    /// What the decoder makes of a payload.
    type Message;

    /// The descriptor of the message type that the decoder is for.
    spec fn protocol_of(&self) -> ClientProtocol;

    fn protocol(&self) -> (protocol: &ClientProtocol)
        ensures
            *protocol == self.protocol_of(),
    ;

    /// Whether `message` is what the decoder may make of the `length` bytes
    /// at the cursor of `before`, leaving the packet as `after`.
    spec fn decoded(
        &self,
        before: Packet,
        length: usize,
        after: Packet,
        message: Self::Message,
    ) -> bool;

    /// Decodes the payload of `length` bytes that starts at the cursor of
    /// `packet`.
    fn decode_erased(&self, packet: &mut Packet, length: usize) -> (message: Self::Message)
        ensures
            self.decoded(*old(packet), length, *final(packet), message),
    ;
}

/// Acts on a decoded message.
pub trait MessageHandlerErasure {
    /// What the handler takes: the message of the decoder it is bound with.
    type Message;

    /// The state that the handler works on.
    type Context;

    /// Whether the handler may make `after` of `before` when it is given
    /// `message`, and answer `done`.
    spec fn handled(
        &self,
        message: &Self::Message,
        before: Self::Context,
        after: Self::Context,
        done: bool,
    ) -> bool;

    /// Handles the message and says whether it did.
    fn handle_erased(&self, message: &Self::Message, context: &mut Self::Context) -> (done: bool)
        ensures
            self.handled(message, *old(context), *final(context), done),
    ;
}

/// An opcode was bound a second time.
#[derive(Clone, Copy, Debug, PartialEq, Eq)]
pub struct RepositoryError {
    pub protocol_id: u32,
}

/// The registry of the inbound side. It is filled before the first
/// connection is served and only read after that.
pub struct ClientProtocolRepository<
    D: MessageDecoderErasure,
    H: MessageHandlerErasure<Message = D::Message>,
> {
    bindings: HashMap<u32, (D, H)>,
}

impl<
    D: MessageDecoderErasure,
    H: MessageHandlerErasure<Message = D::Message>,
> ClientProtocolRepository<D, H> {
    /// The decoder and the handler of each bound opcode.
    pub closed spec fn bindings(&self) -> Map<u32, (D, H)> {
        self.bindings@
    }

    /// Every opcode that was bound in `before` is bound in `self`, to the same
    /// decoder and the same handler.
    pub open spec fn keeps(&self, before: &Self) -> bool {
        forall|id: u32| #[trigger]
            before.bindings().contains_key(id) ==> self.bindings().contains_key(id)
                && self.bindings()[id] == before.bindings()[id]
    }

    /// A registry in which no opcode is bound.
    pub fn new() -> (repository: Self)
        ensures
            repository.bindings() == Map::<u32, (D, H)>::empty(),
    {
        ClientProtocolRepository { bindings: HashMap::new() }
    }

    /// Binds `decoder` and `handler` to the opcode of the decoder's
    /// descriptor. An opcode that is bound stays as it is, and the call fails.
    pub fn bind(&mut self, decoder: D, handler: H) -> (result: Result<(), RepositoryError>)
        ensures
            result is Err <==> old(self).bindings().contains_key(decoder.protocol_of().id),
            result is Err ==> final(self).bindings() == old(self).bindings()
                && result->Err_0.protocol_id == decoder.protocol_of().id,
            result is Ok ==> final(self).bindings() == old(self).bindings().insert(
                decoder.protocol_of().id,
                (decoder, handler),
            ),
            final(self).keeps(old(self)),
    {
        let protocol_id: u32 = decoder.protocol().id;
        if self.bindings.contains_key(&protocol_id) {
            return Err(RepositoryError { protocol_id });
        }
        self.bindings.insert(protocol_id, (decoder, handler));
        Ok(())
    }

    /// The decoder bound to the opcode of `protocol`.
    pub fn get_local_decoder(&self, protocol: &ClientProtocol) -> (decoder: Option<&D>)
        ensures
            decoder is Some <==> self.bindings().contains_key(protocol.id),
            decoder is Some ==> *decoder->Some_0 == self.bindings()[protocol.id].0,
    {
        match self.bindings.get(&protocol.id) {
            Some(pair) => Some(&pair.0),
            None => None,
        }
    }

    /// The handler bound to the opcode of `protocol`.
    pub fn get_local_handler(&self, protocol: &ClientProtocol) -> (handler: Option<&H>)
        ensures
            handler is Some <==> self.bindings().contains_key(protocol.id),
            handler is Some ==> *handler->Some_0 == self.bindings()[protocol.id].1,
    {
        match self.bindings.get(&protocol.id) {
            Some(pair) => Some(&pair.1),
            None => None,
        }
    }

    /// Whether a dispatch of the `length` bytes at the cursor of `before` for
    /// the opcode `id` may leave the packet as `after`, make `later` of the
    /// context `earlier`, and answer `handled`. For a bound opcode the decoder
    /// bound to it makes a message of the payload, and the handler bound with it
    /// is given that message and the context; its answer is handed on. For any
    /// other opcode nothing changes and there is no answer.
    pub open spec fn dispatched(
        &self,
        id: u32,
        before: Packet,
        length: usize,
        after: Packet,
        earlier: H::Context,
        later: H::Context,
        handled: Option<bool>,
    ) -> bool {
        if self.bindings().contains_key(id) {
            &&& handled is Some
            &&& exists|message: D::Message|
                {
                    &&& #[trigger] self.bindings()[id].0.decoded(before, length, after, message)
                    &&& self.bindings()[id].1.handled(&message, earlier, later, handled->Some_0)
                }
        } else {
            handled is None && after == before && later == earlier
        }
    }

    /// Whether the handling of a message with the opcode `id` and the payload
    /// `payload` may make `later` of the context `earlier`: the payload is
    /// dispatched from a packet that holds it and nothing else, its cursors at
    /// the start.
    pub open spec fn message_handled(
        &self,
        id: u32,
        payload: Seq<u8>,
        earlier: H::Context,
        later: H::Context,
    ) -> bool {
        exists|before: Packet, after: Packet, handled: Option<bool>|
            {
                &&& before.data@ == payload
                &&& before.position == 0
                &&& before.bit_position == 0
                &&& #[trigger] self.dispatched(
                    id,
                    before,
                    payload.len() as usize,
                    after,
                    earlier,
                    later,
                    handled,
                )
            }
    }

    /// Decodes the payload in `packet` with the decoder bound to the opcode of
    /// `protocol` and hands the message to the handler bound with it. Says what
    /// the handler returned, or nothing where the opcode is not bound; the
    /// payload is then left as it is.
    pub fn dispatch(
        &self,
        protocol: &ClientProtocol,
        packet: &mut Packet,
        length: usize,
        context: &mut H::Context,
    ) -> (handled: Option<bool>)
        ensures
            handled is Some <==> self.bindings().contains_key(protocol.id),
            handled is None ==> *final(packet) == *old(packet) && *final(context) == *old(context),
            self.dispatched(
                protocol.id,
                *old(packet),
                length,
                *final(packet),
                *old(context),
                *final(context),
                handled,
            ),
    {
        match self.bindings.get(&protocol.id) {
            Some(pair) => {
                let message = pair.0.decode_erased(packet, length);
                let done: bool = pair.1.handle_erased(&message, context);
                proof {
                    assert(self.bindings()[protocol.id].0.decoded(
                        *old(packet),
                        length,
                        *packet,
                        message,
                    ));
                }
                Some(done)
            },
            None => None,
        }
    }
}

/// A registry never loses or changes a binding: whatever calls of `bind` lie
/// between `before` and `after`, one after the other, an opcode bound in
/// `before` has the same decoder and handler in `after`.
pub proof fn lemma_bindings_stay<
    D: MessageDecoderErasure,
    H: MessageHandlerErasure<Message = D::Message>,
>(
    before: &ClientProtocolRepository<D, H>,
    between: &ClientProtocolRepository<D, H>,
    after: &ClientProtocolRepository<D, H>,
)
    requires
        between.keeps(before),
        after.keeps(between),
    ensures
        after.keeps(before),
{
    assert forall|id: u32| #[trigger]
        before.bindings().contains_key(id) implies after.bindings().contains_key(id)
        && after.bindings()[id] == before.bindings()[id] by {
        assert(between.bindings().contains_key(id));
    }
}

} // verus!

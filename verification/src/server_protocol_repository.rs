//! The outbound registry: for each type of message the one encoder that turns
//! it into bytes.

use crate::outgoing_encoder::OutgoingEncoder;
use crate::rebuild_normal_encoder::{RebuildNormalEncoder, XteaKey};
use crate::server_protocol::{MessageEncoder, OutgoingMessage, ServerProtocol};
use std::collections::HashMap;
use vstd::prelude::*;

verus! {

/// The registry of the outbound side. It is filled before the first
/// connection is served and only read after that.
pub struct ServerProtocolRepository<E: MessageEncoder> {
    encoders: HashMap<u32, E>,
}

impl<E: MessageEncoder> ServerProtocolRepository<E> {
    /// The encoder of each type of message that has one, under the type's key.
    pub closed spec fn encoders(&self) -> Map<u32, E> {
        self.encoders@
    }

    /// Whether the type of message has an encoder.
    pub open spec fn bound(&self, protocol: ServerProtocol) -> bool {
        self.encoders().contains_key(protocol.key_of())
    }

    /// Whether the encoder of the type of `message`, if it has one, can write
    /// the message to an empty packet.
    pub open spec fn can_encode(&self, message: &E::Message) -> bool where
        E::Message: OutgoingMessage,
     {
        self.bound(message.protocol_of()) ==> self.encoders()[message.protocol_of().key_of()].encodable(
            message,
            0,
            0,
        )
    }

    /// What goes out for `message`: its bytes as the encoder of its type
    /// writes them, or nothing where the type has no encoder.
    pub open spec fn wire(&self, message: &E::Message) -> Seq<Seq<u8>> where
        E::Message: OutgoingMessage,
     {
        if self.bound(message.protocol_of()) {
            seq![self.encoders()[message.protocol_of().key_of()].encoded(message)]
        } else {
            Seq::empty()
        }
    }

    /// What goes out for `messages`, one after the other.
    pub open spec fn wires(&self, messages: Seq<E::Message>) -> Seq<Seq<u8>> where
        E::Message: OutgoingMessage,

        decreases messages.len(),
    {
        if messages.len() == 0 {
            Seq::empty()
        } else {
            self.wires(messages.drop_last()) + self.wire(&messages.last())
        }
    }

    /// A registry in which no type of message has an encoder.
    pub fn empty() -> (repository: Self)
        ensures
            repository.encoders() == Map::<u32, E>::empty(),
    {
        ServerProtocolRepository { encoders: HashMap::new() }
    }

    /// Whether the type of message has an encoder.
    pub fn is_bound(&self, protocol: ServerProtocol) -> (bound: bool)
        ensures
            bound == self.bound(protocol),
    {
        self.encoders.contains_key(&protocol.key())
    }

    /// Makes `encoder` the encoder of its type of message, which has none.
    pub fn bind(&mut self, encoder: E)
        requires
            !old(self).bound(encoder.protocol_of()),
        ensures
            final(self).encoders() == old(self).encoders().insert(
                encoder.protocol_of().key_of(),
                encoder,
            ),
    {
        let key: u32 = encoder.protocol().key();
        self.encoders.insert(key, encoder);
    }

    /// The encoder of the type of `message`.
    pub fn get_encoder(&self, message: &E::Message) -> (encoder: Option<&E>) where
        E::Message: OutgoingMessage,

        ensures
            encoder is Some <==> self.bound(message.protocol_of()),
            encoder is Some ==> *encoder->Some_0 == self.encoders()[message.protocol_of().key_of()],
    {
        self.encoders.get(&message.protocol().key())
    }
}

impl ServerProtocolRepository<OutgoingEncoder> {
    /// Whether the registry holds the encoder of the rebuild message, with the
    /// keys `keys`, and no other encoder.
    pub open spec fn holds_rebuild_encoder(&self, keys: Map<i32, XteaKey>) -> bool {
        &&& self.encoders().dom() == set![ServerProtocol::REBUILD_NORMAL.key_of()]
        &&& self.bound(ServerProtocol::REBUILD_NORMAL)
        &&& match self.encoders()[ServerProtocol::REBUILD_NORMAL.key_of()] {
            OutgoingEncoder::RebuildNormal(encoder) => encoder.keys() == keys,
        }
    }

    /// The registry of the server: the rebuild message has its encoder, which
    /// knows no key, so that every map square goes out with the zero key.
    pub fn new() -> (repository: Self)
        ensures
            repository.holds_rebuild_encoder(Map::<i32, XteaKey>::empty()),
    {
        let mut repository: ServerProtocolRepository<OutgoingEncoder> =
            ServerProtocolRepository::empty();
        repository.bind(OutgoingEncoder::RebuildNormal(RebuildNormalEncoder::new()));
        assert(repository.encoders().dom() =~= set![ServerProtocol::REBUILD_NORMAL.key_of()]);
        repository
    }

    /// The registry of the server: the rebuild message has its encoder, which
    /// knows the keys given, each under its map square.
    pub fn with_keys(keys: HashMap<i32, XteaKey>) -> (repository: Self)
        ensures
            repository.holds_rebuild_encoder(keys@),
    {
        let mut repository: ServerProtocolRepository<OutgoingEncoder> =
            ServerProtocolRepository::empty();
        repository.bind(OutgoingEncoder::RebuildNormal(RebuildNormalEncoder::with_keys(keys)));
        assert(repository.encoders().dom() =~= set![ServerProtocol::REBUILD_NORMAL.key_of()]);
        repository
    }
}

} // verus!

use proto_core::client_protocol::{ClientProtocol, ClientProtocolCategory, SizeMode};
use proto_core::client_protocol_repository::{
    ClientProtocolRepository, MessageDecoderErasure, MessageHandlerErasure, RepositoryError,
};
use proto_core::packet::Packet;

struct ByteDecoder {
    protocol: ClientProtocol,
    bias: u8,
}

struct SumHandler {
    weight: u32,
}

impl MessageDecoderErasure for ByteDecoder {
    type Message = u8;

    fn protocol_of(&self) -> ClientProtocol {
        self.protocol
    }

    fn decoded(&self, _before: Packet, _length: usize, _after: Packet, _message: Self::Message) -> bool {
        true
    }

    fn protocol(&self) -> &ClientProtocol {
        &self.protocol
    }

    fn decode_erased(&self, packet: &mut Packet, _length: usize) -> u8 {
        packet.g1().wrapping_add(self.bias)
    }
}

impl MessageHandlerErasure for SumHandler {
    type Message = u8;
    type Context = Vec<u32>;

    fn handled(
        &self,
        _message: &Self::Message,
        _before: Self::Context,
        _after: Self::Context,
        _done: bool,
    ) -> bool {
        true
    }

    fn handle_erased(&self, message: &u8, context: &mut Vec<u32>) -> bool {
        context.push(*message as u32 * self.weight);
        *message != 0
    }
}

fn protocol(id: u32) -> ClientProtocol {
    ClientProtocol { id, category: ClientProtocolCategory::UserEvent, size_mode: SizeMode::Fixed(1) }
}

#[test]
fn new_registry_binds_nothing() {
    let repository: ClientProtocolRepository<ByteDecoder, SumHandler> =
        ClientProtocolRepository::new();
    assert!(repository.get_local_decoder(&protocol(7)).is_none());
    assert!(repository.get_local_handler(&protocol(7)).is_none());
}

#[test]
fn bind_makes_decoder_and_handler_available_together() {
    let mut repository = ClientProtocolRepository::new();
    let bound = repository.bind(ByteDecoder { protocol: protocol(7), bias: 1 }, SumHandler { weight: 3 });
    assert_eq!(bound, Ok(()));
    assert_eq!(repository.get_local_decoder(&protocol(7)).unwrap().bias, 1);
    assert_eq!(repository.get_local_handler(&protocol(7)).unwrap().weight, 3);
    assert!(repository.get_local_decoder(&protocol(8)).is_none());
    assert!(repository.get_local_handler(&protocol(8)).is_none());
}

#[test]
fn second_binding_of_an_opcode_fails_and_changes_nothing() {
    let mut repository = ClientProtocolRepository::new();
    assert_eq!(
        repository.bind(ByteDecoder { protocol: protocol(7), bias: 1 }, SumHandler { weight: 3 }),
        Ok(())
    );
    assert_eq!(
        repository.bind(ByteDecoder { protocol: protocol(7), bias: 9 }, SumHandler { weight: 9 }),
        Err(RepositoryError { protocol_id: 7 })
    );
    assert_eq!(repository.get_local_decoder(&protocol(7)).unwrap().bias, 1);
    assert_eq!(repository.get_local_handler(&protocol(7)).unwrap().weight, 3);
}

#[test]
fn binding_another_opcode_keeps_the_first() {
    let mut repository = ClientProtocolRepository::new();
    assert!(repository
        .bind(ByteDecoder { protocol: protocol(7), bias: 1 }, SumHandler { weight: 3 })
        .is_ok());
    assert!(repository
        .bind(ByteDecoder { protocol: protocol(8), bias: 2 }, SumHandler { weight: 5 })
        .is_ok());
    assert_eq!(repository.get_local_decoder(&protocol(7)).unwrap().bias, 1);
    assert_eq!(repository.get_local_handler(&protocol(7)).unwrap().weight, 3);
    assert_eq!(repository.get_local_decoder(&protocol(8)).unwrap().bias, 2);
    assert_eq!(repository.get_local_handler(&protocol(8)).unwrap().weight, 5);
}

#[test]
fn dispatch_decodes_and_handles_with_the_bound_pair() {
    let mut repository = ClientProtocolRepository::new();
    assert!(repository
        .bind(ByteDecoder { protocol: protocol(7), bias: 1 }, SumHandler { weight: 3 })
        .is_ok());
    let mut context: Vec<u32> = Vec::new();
    let mut payload = Packet::from(vec![4]);
    let handled = repository.dispatch(&protocol(7), &mut payload, 1, &mut context);
    assert_eq!(handled, Some(true));
    assert_eq!(context, vec![15]);
    let mut zero = Packet::from(vec![255]);
    assert_eq!(repository.dispatch(&protocol(7), &mut zero, 1, &mut context), Some(false));
    assert_eq!(context, vec![15, 0]);
}

#[test]
fn dispatch_of_an_unbound_opcode_drops_the_message() {
    let repository: ClientProtocolRepository<ByteDecoder, SumHandler> =
        ClientProtocolRepository::new();
    let mut context: Vec<u32> = vec![1];
    let mut payload = Packet::from(vec![4, 5]);
    assert_eq!(repository.dispatch(&protocol(9), &mut payload, 2, &mut context), None);
    assert_eq!(context, vec![1]);
    assert_eq!(payload.position, 0);
    assert_eq!(payload.data, vec![4, 5]);
}

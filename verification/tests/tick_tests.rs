use proto_core::client_protocol::{
    ClientProtocol, ClientProtocolCategory, ClientProtocolTable, SizeMode,
};
use proto_core::client_protocol_repository::{
    ClientProtocolRepository, MessageDecoderErasure, MessageHandlerErasure,
};
use proto_core::coord_grid::CoordGrid;
use proto_core::game_client::{GameClient, ReadPhase};
use proto_core::packet::Packet;
use proto_core::player::{Player, PlayerType};
use proto_core::raw_message::{QueueHandler, RawDecoder, RawMessage};
use proto_core::window_status::{WindowMode, WindowStatus};

struct Decoder {
    protocol: ClientProtocol,
}

struct Handler;

impl MessageDecoderErasure for Decoder {
    type Message = (u32, Vec<u8>);

    fn protocol_of(&self) -> ClientProtocol {
        self.protocol
    }

    fn decoded(&self, _before: Packet, _length: usize, _after: Packet, _message: Self::Message) -> bool {
        true
    }

    fn protocol(&self) -> &ClientProtocol {
        &self.protocol
    }

    fn decode_erased(&self, packet: &mut Packet, length: usize) -> (u32, Vec<u8>) {
        (self.protocol.id, packet.gbytes(length))
    }
}

impl MessageHandlerErasure for Handler {
    type Message = (u32, Vec<u8>);
    type Context = Vec<(u32, Vec<u8>)>;

    fn handled(
        &self,
        _message: &Self::Message,
        _before: Self::Context,
        _after: Self::Context,
        _done: bool,
    ) -> bool {
        true
    }

    fn handle_erased(&self, message: &(u32, Vec<u8>), context: &mut Vec<(u32, Vec<u8>)>) -> bool {
        context.push(message.clone());
        true
    }
}

const USER: u32 = 1;
const CLIENT: u32 = 2;
const RESTRICTED: u32 = 3;
const UNBOUND: u32 = 4;

fn table() -> ClientProtocolTable {
    ClientProtocolTable::new(vec![
        ClientProtocol {
            id: USER,
            category: ClientProtocolCategory::UserEvent,
            size_mode: SizeMode::Fixed(1),
        },
        ClientProtocol {
            id: CLIENT,
            category: ClientProtocolCategory::ClientEvent,
            size_mode: SizeMode::VarLen1,
        },
        ClientProtocol {
            id: RESTRICTED,
            category: ClientProtocolCategory::RestrictedEvent,
            size_mode: SizeMode::Fixed(0),
        },
        ClientProtocol {
            id: UNBOUND,
            category: ClientProtocolCategory::UserEvent,
            size_mode: SizeMode::Fixed(2),
        },
    ])
}

fn repository() -> ClientProtocolRepository<Decoder, Handler> {
    let mut repository = ClientProtocolRepository::new();
    let table = table();
    for opcode in [USER, CLIENT, RESTRICTED] {
        let protocol = table.get(opcode as u8).unwrap();
        assert!(repository.bind(Decoder { protocol }, Handler).is_ok());
    }
    repository
}

fn player() -> Player {
    let mut client = Some(GameClient::new());
    Player::new(
        &mut client,
        CoordGrid::new(0, 3200, 3200),
        0,
        WindowStatus::new(WindowMode::Fixed, 765, 503),
        2,
        7,
        0,
        String::from("tester"),
    )
}

fn unread(player: &Player) -> Vec<u8> {
    player.client.buffered.data[player.client.buffered.position..].to_vec()
}

#[test]
fn a_tick_without_input_reads_nothing() {
    let mut player = player();
    let mut seen = Vec::new();
    assert!(player.decode_in(9, &table(), &repository(), &mut seen));
    assert!(seen.is_empty());
    assert_eq!(player.last_connected, 9);
    assert_eq!(player.last_response, -1);
    assert_eq!((player.user_limit, player.client_limit, player.restricted_limit), (0, 0, 0));
}

#[test]
fn a_tick_handles_the_messages_in_order() {
    let mut player = player();
    player.client.receive(&[1, 50, 2, 2, 8, 9, 3, 1, 51]);
    let mut seen = Vec::new();
    assert!(player.decode_in(4, &table(), &repository(), &mut seen));
    assert_eq!(
        seen,
        vec![(USER, vec![50]), (CLIENT, vec![8, 9]), (RESTRICTED, vec![]), (USER, vec![51])]
    );
    assert_eq!((player.user_limit, player.client_limit, player.restricted_limit), (2, 1, 1));
    assert_eq!(unread(&player), Vec::<u8>::new());
    assert_eq!(player.last_response, 4);
    assert_eq!(player.last_connected, 4);
    assert_eq!(player.bytes_read, 0);
}

#[test]
fn more_user_events_than_the_budget_wait_for_the_next_tick() {
    let mut player = player();
    player.client.receive(&[1, 10, 1, 11, 1, 12, 1, 13, 1, 14, 1, 15, 1, 16]);
    let mut seen = Vec::new();
    assert!(player.decode_in(1, &table(), &repository(), &mut seen));
    assert_eq!(seen.len(), 5);
    assert_eq!(seen[4], (USER, vec![14]));
    assert_eq!(player.user_limit, 5);
    assert_eq!(unread(&player), vec![1, 15, 1, 16]);
    assert!(player.client.active);
    assert!(player.decode_in(2, &table(), &repository(), &mut seen));
    assert_eq!(seen.len(), 7);
    assert_eq!(seen[5], (USER, vec![15]));
    assert_eq!(seen[6], (USER, vec![16]));
    assert_eq!(player.user_limit, 2);
    assert_eq!(unread(&player), Vec::<u8>::new());
    assert_eq!(player.last_response, 2);
}

#[test]
fn more_restricted_events_than_the_budget_wait_for_the_next_tick() {
    let mut player = player();
    player.client.receive(&[3, 3, 3, 1, 9]);
    let mut seen = Vec::new();
    assert!(player.decode_in(1, &table(), &repository(), &mut seen));
    assert_eq!(seen, vec![(RESTRICTED, vec![]), (RESTRICTED, vec![])]);
    assert_eq!(player.restricted_limit, 2);
    assert_eq!(unread(&player), vec![3, 1, 9]);
    assert_eq!(player.last_response, -1);
    assert!(player.decode_in(2, &table(), &repository(), &mut seen));
    assert_eq!(seen.len(), 4);
    assert_eq!(seen[2], (RESTRICTED, vec![]));
    assert_eq!(seen[3], (USER, vec![9]));
    assert_eq!(player.last_response, 2);
}

#[test]
fn more_client_events_than_the_budget_wait_for_the_next_tick() {
    let mut player = player();
    let mut bytes = Vec::new();
    for i in 0..23 {
        bytes.extend_from_slice(&[2, 1, i]);
    }
    player.client.receive(&bytes);
    let mut seen = Vec::new();
    assert!(player.decode_in(1, &table(), &repository(), &mut seen));
    assert_eq!(seen.len(), 20);
    assert_eq!(player.client_limit, 20);
    assert_eq!(unread(&player).len(), 9);
    assert!(player.decode_in(2, &table(), &repository(), &mut seen));
    assert_eq!(seen.len(), 23);
    assert_eq!(seen[22], (CLIENT, vec![22]));
    assert_eq!(player.client_limit, 3);
}

#[test]
fn one_used_up_budget_stops_the_other_categories_too() {
    let mut player = player();
    player.client.receive(&[3, 3, 1, 9, 2, 0]);
    let mut seen = Vec::new();
    assert!(player.decode_in(1, &table(), &repository(), &mut seen));
    assert_eq!(seen.len(), 2);
    assert_eq!(unread(&player), vec![1, 9, 2, 0]);
}

#[test]
fn a_message_cut_short_waits_with_its_header_kept() {
    let mut player = player();
    player.client.receive(&[1, 7, 2, 3, 5]);
    let mut seen = Vec::new();
    assert!(player.decode_in(1, &table(), &repository(), &mut seen));
    assert_eq!(seen, vec![(USER, vec![7])]);
    assert_eq!(unread(&player), vec![5]);
    assert!(matches!(player.client.phase, ReadPhase::AwaitingPayload { length: 3, .. }));
    player.client.receive(&[6, 7]);
    assert!(player.decode_in(2, &table(), &repository(), &mut seen));
    assert_eq!(seen, vec![(USER, vec![7]), (CLIENT, vec![5, 6, 7])]);
    assert_eq!(player.client.phase, ReadPhase::AwaitingOpcode);
}

#[test]
fn a_message_without_binding_is_dropped_and_counted() {
    let mut player = player();
    player.client.receive(&[4, 1, 2, 1, 9]);
    let mut seen = Vec::new();
    assert!(player.decode_in(1, &table(), &repository(), &mut seen));
    assert_eq!(seen, vec![(USER, vec![9])]);
    assert_eq!(player.user_limit, 2);
    assert!(player.client.active);
    assert_eq!(unread(&player), Vec::<u8>::new());
}

#[test]
fn a_violation_ends_the_tick_and_later_ticks_read_nothing() {
    let mut player = player();
    player.client.receive(&[1, 7, 200, 1, 8]);
    let mut seen = Vec::new();
    assert!(player.decode_in(1, &table(), &repository(), &mut seen));
    assert_eq!(seen, vec![(USER, vec![7])]);
    assert!(!player.client.active);
    assert_eq!(unread(&player), Vec::<u8>::new());
    assert!(!player.is_client_connected());
    player.client.receive(&[1, 9]);
    assert!(!player.decode_in(2, &table(), &repository(), &mut seen));
    assert_eq!(seen.len(), 1);
    assert_eq!(player.last_connected, 1);
    assert_eq!(player.user_limit, 1);
}

#[test]
fn a_headless_player_reads_nothing() {
    let mut player = player();
    player.player_type = PlayerType::Headless;
    player.client.receive(&[1, 7]);
    player.user_path.push(3);
    player.op_called = true;
    let mut seen = Vec::new();
    assert!(!player.decode_in(1, &table(), &repository(), &mut seen));
    assert!(seen.is_empty());
    assert!(player.user_path.is_empty());
    assert!(!player.op_called);
    assert_eq!(player.last_connected, -1);
    assert_eq!(unread(&player), vec![1, 7]);
}

#[test]
fn a_tick_clears_the_path_and_the_op_flag() {
    let mut player = player();
    player.user_path.push(3);
    player.op_called = true;
    let mut seen = Vec::new();
    assert!(player.decode_in(1, &table(), &repository(), &mut seen));
    assert!(player.user_path.is_empty());
    assert!(!player.op_called);
}

#[test]
fn payload_bytes_from_before_count_as_a_response() {
    let mut player = player();
    player.bytes_read = 3;
    let mut seen = Vec::new();
    assert!(player.decode_in(6, &table(), &repository(), &mut seen));
    assert_eq!(player.last_response, 6);
    assert_eq!(player.bytes_read, 0);
}

#[test]
fn raw_decoder_and_queue_handler_collect_the_messages_of_a_tick() {
    let table = table();
    let mut repository = ClientProtocolRepository::new();
    for opcode in [USER, CLIENT] {
        let protocol = table.get(opcode as u8).unwrap();
        assert!(repository.bind(RawDecoder::new(protocol), QueueHandler::new()).is_ok());
    }
    let mut player = player();
    player.client.receive(&[1, 50, 2, 2, 8, 9, 3]);
    let mut queue: Vec<RawMessage> = Vec::new();
    assert!(player.decode_in(4, &table, &repository, &mut queue));
    assert_eq!(
        queue,
        vec![
            RawMessage { protocol: table.get(1).unwrap(), payload: vec![50] },
            RawMessage { protocol: table.get(2).unwrap(), payload: vec![8, 9] },
        ]
    );
    assert_eq!(player.restricted_limit, 1);
}

#[test]
fn raw_decoder_takes_what_the_packet_holds() {
    let decoder = RawDecoder::new(table().get(1).unwrap());
    assert_eq!(*decoder.protocol(), table().get(1).unwrap());
    let mut packet = Packet::from(vec![1, 2, 3]);
    packet.position = 1;
    let message = decoder.decode_erased(&mut packet, 5);
    assert_eq!(message.payload, vec![2, 3]);
    assert_eq!(packet.position, 3);
}

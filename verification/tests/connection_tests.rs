use proto_core::client_protocol::{
    ClientProtocol, ClientProtocolCategory, ClientProtocolTable, SizeMode, CLIENT_EVENT_LIMIT,
    MAX_DECLARED_LENGTH, RESTRICTED_EVENT_LIMIT, USER_EVENT_LIMIT,
};
use proto_core::game_client::{GameClient, ReadOutcome, ReadPhase};

fn fixed(id: u32, length: u16) -> ClientProtocol {
    ClientProtocol { id, category: ClientProtocolCategory::UserEvent, size_mode: SizeMode::Fixed(length) }
}

fn var1(id: u32) -> ClientProtocol {
    ClientProtocol { id, category: ClientProtocolCategory::ClientEvent, size_mode: SizeMode::VarLen1 }
}

fn var2(id: u32) -> ClientProtocol {
    ClientProtocol {
        id,
        category: ClientProtocolCategory::RestrictedEvent,
        size_mode: SizeMode::VarLen2,
    }
}

fn table() -> ClientProtocolTable {
    ClientProtocolTable::new(vec![fixed(10, 3), var1(11), var2(12), fixed(13, 0), fixed(10, 9)])
}

fn unread(client: &GameClient) -> Vec<u8> {
    client.buffered.data[client.buffered.position..].to_vec()
}

fn message(outcome: ReadOutcome) -> (ClientProtocol, Vec<u8>) {
    match outcome {
        ReadOutcome::Message { protocol, payload } => (protocol, payload),
        _ => panic!("no message"),
    }
}

#[test]
fn limits_of_the_categories() {
    assert_eq!(ClientProtocolCategory::ClientEvent.limit(), CLIENT_EVENT_LIMIT);
    assert_eq!(ClientProtocolCategory::UserEvent.limit(), USER_EVENT_LIMIT);
    assert_eq!(ClientProtocolCategory::RestrictedEvent.limit(), RESTRICTED_EVENT_LIMIT);
    assert_eq!(CLIENT_EVENT_LIMIT, 20);
    assert_eq!(USER_EVENT_LIMIT, 5);
    assert_eq!(RESTRICTED_EVENT_LIMIT, 2);
    assert_eq!(MAX_DECLARED_LENGTH, 20000);
}

#[test]
fn table_gives_the_first_descriptor_of_an_opcode() {
    let table = table();
    assert_eq!(table.get(10), Some(fixed(10, 3)));
    assert_eq!(table.get(12), Some(var2(12)));
    assert_eq!(table.get(13), Some(fixed(13, 0)));
    assert_eq!(table.get(14), None);
    assert_eq!(ClientProtocolTable::new(Vec::new()).get(10), None);
}

#[test]
fn table_does_not_find_an_id_above_a_byte() {
    let table = ClientProtocolTable::new(vec![fixed(266, 1)]);
    assert_eq!(table.get(10), None);
}

#[test]
fn new_connection_is_active_and_awaits_an_opcode() {
    let client = GameClient::new();
    assert!(client.is_connection_active());
    assert_eq!(client.phase, ReadPhase::AwaitingOpcode);
    assert!(client.has_available(0));
    assert!(!client.has_available(1));
}

#[test]
fn receive_appends_to_what_has_arrived() {
    let mut client = GameClient::new();
    client.receive(&[1, 2]);
    client.receive(&[3]);
    assert_eq!(unread(&client), vec![1, 2, 3]);
    assert!(client.has_available(3));
    assert!(!client.has_available(4));
}

#[test]
fn read_packet_with_size_moves_bytes_into_inbound() {
    let mut client = GameClient::new();
    client.receive(&[1, 2, 3]);
    client.read_packet_with_size(2);
    assert_eq!(client.inbound.data, vec![1, 2]);
    assert_eq!(client.inbound.position, 0);
    assert_eq!(unread(&client), vec![3]);
    client.receive(&[4]);
    assert_eq!(unread(&client), vec![3, 4]);
}

#[test]
fn take_ownership_leaves_nothing_behind() {
    let mut slot = Some(GameClient::new());
    slot.as_mut().unwrap().receive(&[5]);
    let taken = GameClient::take_ownership(&mut slot);
    assert!(slot.is_none());
    assert_eq!(unread(&taken), vec![5]);
}

#[test]
fn nothing_arrived_is_not_ready() {
    let mut client = GameClient::new();
    assert!(matches!(client.read_message(&table()), ReadOutcome::NotReady));
    assert_eq!(client.phase, ReadPhase::AwaitingOpcode);
    assert!(client.active);
}

#[test]
fn fixed_message_is_read_whole() {
    let mut client = GameClient::new();
    client.receive(&[10, 1, 2, 3, 99]);
    let (protocol, payload) = message(client.read_message(&table()));
    assert_eq!(protocol, fixed(10, 3));
    assert_eq!(payload, vec![1, 2, 3]);
    assert_eq!(client.inbound.data, vec![1, 2, 3]);
    assert_eq!(client.inbound.position, 0);
    assert_eq!(client.phase, ReadPhase::AwaitingOpcode);
    assert_eq!(unread(&client), vec![99]);
}

#[test]
fn fixed_message_of_no_bytes_is_read_at_once() {
    let mut client = GameClient::new();
    client.receive(&[13]);
    let (protocol, payload) = message(client.read_message(&table()));
    assert_eq!(protocol, fixed(13, 0));
    assert_eq!(payload, Vec::<u8>::new());
    assert_eq!(unread(&client), Vec::<u8>::new());
}

#[test]
fn one_byte_length_gives_the_payload_length() {
    let mut client = GameClient::new();
    client.receive(&[11, 2, 7, 8, 10]);
    let (protocol, payload) = message(client.read_message(&table()));
    assert_eq!(protocol, var1(11));
    assert_eq!(payload, vec![7, 8]);
    assert_eq!(unread(&client), vec![10]);
}

#[test]
fn two_byte_length_gives_the_payload_length() {
    let mut bytes = vec![12, 0x01, 0x02];
    bytes.extend_from_slice(&[6; 258]);
    bytes.push(77);
    let mut client = GameClient::new();
    client.receive(&bytes);
    let (protocol, payload) = message(client.read_message(&table()));
    assert_eq!(protocol, var2(12));
    assert_eq!(payload, vec![6; 258]);
    assert_eq!(unread(&client), vec![77]);
}

#[test]
fn a_header_cut_short_is_kept_for_later() {
    let mut client = GameClient::new();
    client.receive(&[12]);
    assert!(matches!(client.read_message(&table()), ReadOutcome::NotReady));
    assert_eq!(client.phase, ReadPhase::AwaitingLength { protocol: var2(12) });
    assert_eq!(unread(&client), Vec::<u8>::new());
    client.receive(&[0]);
    assert!(matches!(client.read_message(&table()), ReadOutcome::NotReady));
    assert_eq!(client.phase, ReadPhase::AwaitingLength { protocol: var2(12) });
    assert_eq!(unread(&client), vec![0]);
    client.receive(&[2, 5]);
    assert!(matches!(client.read_message(&table()), ReadOutcome::NotReady));
    assert_eq!(client.phase, ReadPhase::AwaitingPayload { protocol: var2(12), length: 2 });
    assert_eq!(unread(&client), vec![5]);
    client.receive(&[6, 10]);
    let (protocol, payload) = message(client.read_message(&table()));
    assert_eq!(protocol, var2(12));
    assert_eq!(payload, vec![5, 6]);
    assert_eq!(client.phase, ReadPhase::AwaitingOpcode);
    assert_eq!(unread(&client), vec![10]);
    assert!(client.active);
}

#[test]
fn a_payload_cut_short_is_kept_for_later() {
    let mut client = GameClient::new();
    client.receive(&[10, 1]);
    assert!(matches!(client.read_message(&table()), ReadOutcome::NotReady));
    assert_eq!(client.phase, ReadPhase::AwaitingPayload { protocol: fixed(10, 3), length: 3 });
    assert_eq!(unread(&client), vec![1]);
    assert!(matches!(client.read_message(&table()), ReadOutcome::NotReady));
    assert_eq!(unread(&client), vec![1]);
    client.receive(&[2, 3]);
    let (_, payload) = message(client.read_message(&table()));
    assert_eq!(payload, vec![1, 2, 3]);
}

#[test]
fn declared_length_at_the_cap_is_accepted() {
    let mut bytes = vec![12, 0x4e, 0x20];
    bytes.extend_from_slice(&[1; 20000]);
    let mut client = GameClient::new();
    client.receive(&bytes);
    let (_, payload) = message(client.read_message(&table()));
    assert_eq!(payload.len(), 20000);
    assert!(client.active);
}

#[test]
fn declared_length_above_the_cap_shuts_the_connection_down() {
    let mut client = GameClient::new();
    client.receive(&[12, 0x4e, 0x21, 1, 2, 3]);
    assert!(matches!(client.read_message(&table()), ReadOutcome::Shutdown));
    assert!(!client.active);
    assert!(!client.is_connection_active());
    assert_eq!(unread(&client), Vec::<u8>::new());
    assert_eq!(client.phase, ReadPhase::AwaitingOpcode);
    assert!(matches!(client.read_message(&table()), ReadOutcome::NotReady));
}

#[test]
fn an_opcode_without_descriptor_shuts_the_connection_down() {
    let mut client = GameClient::new();
    client.receive(&[99, 1, 2]);
    assert!(matches!(client.read_message(&table()), ReadOutcome::Shutdown));
    assert!(!client.active);
    assert_eq!(unread(&client), Vec::<u8>::new());
}

#[test]
fn shutdown_discards_the_input_and_keeps_the_output() {
    let mut client = GameClient::new();
    client.receive(&[10, 1]);
    client.outbound.p1(5);
    client.shutdown();
    assert!(!client.active);
    assert_eq!(unread(&client), Vec::<u8>::new());
    assert_eq!(client.outbound.data, vec![5]);
}

#[test]
fn messages_are_read_one_after_the_other() {
    let mut client = GameClient::new();
    client.receive(&[10, 1, 2, 3, 11, 1, 9, 13, 10, 4, 5, 6]);
    assert_eq!(message(client.read_message(&table())).1, vec![1, 2, 3]);
    assert_eq!(message(client.read_message(&table())).1, vec![9]);
    assert_eq!(message(client.read_message(&table())).0, fixed(13, 0));
    assert_eq!(message(client.read_message(&table())).1, vec![4, 5, 6]);
    assert!(matches!(client.read_message(&table()), ReadOutcome::NotReady));
}

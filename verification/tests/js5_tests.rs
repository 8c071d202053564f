use proto_core::js5::{CacheRead, Js5Error, Js5Request, Js5Source, ARCHIVESET};
use proto_core::packet::Packet;

fn entry_with_payload(compression: u8, payload_len: usize) -> Vec<u8> {
    let extra: i64 = if compression != 0 { 8 } else { 4 };
    let stated = (payload_len as i64 - extra) as i32;
    let mut entry = vec![compression];
    entry.extend_from_slice(&stated.to_be_bytes());
    let mut i = 4;
    while i < payload_len {
        entry.push((i % 251) as u8 + 1);
        i += 1;
    }
    entry
}

fn answer(urgent: bool, entry: Vec<u8>) -> Packet {
    let mut outbound = Packet::new(0);
    let request = Js5Request::Group { urgent, archive: 3, group: 0x0102 };
    let result =
        Js5Request::fulfill_request(&mut outbound, &request, None, CacheRead::Found(entry));
    assert_eq!(result, Ok(()));
    outbound
}

fn closed_form(payload_len: usize) -> usize {
    2 + payload_len + (payload_len + 508) / 509 + (payload_len + 510) / 511 + 1
}

#[test]
fn source_of_the_reserved_id_is_the_master_index() {
    let request = Js5Request::Group { urgent: false, archive: ARCHIVESET, group: 255 };
    assert_eq!(request.source(), Js5Source::MasterIndex);
}

#[test]
fn source_of_a_group_is_its_entry() {
    let request = Js5Request::Group { urgent: true, archive: 255, group: 256 };
    assert_eq!(request.source(), Js5Source::Entry { archive: 255, group: 256 });
    let other = Js5Request::Group { urgent: true, archive: 4, group: 255 };
    assert_eq!(other.source(), Js5Source::Entry { archive: 4, group: 255 });
}

#[test]
fn source_of_other_requests_is_nothing() {
    assert_eq!(Js5Request::LoggedIn.source(), Js5Source::Nothing);
    assert_eq!(Js5Request::LoggedOut.source(), Js5Source::Nothing);
    assert_eq!(Js5Request::Rekey { key: 3 }.source(), Js5Source::Nothing);
    assert_eq!(Js5Request::Connected.source(), Js5Source::Nothing);
    assert_eq!(Js5Request::Disconnect.source(), Js5Source::Nothing);
    assert_eq!(Js5Request::Invalid.source(), Js5Source::Nothing);
}

#[test]
fn master_index_before_it_is_built_is_an_error() {
    let mut outbound = Packet::from(vec![1, 2, 3]);
    outbound.position = 2;
    let request = Js5Request::Group { urgent: false, archive: 255, group: 255 };
    let result = Js5Request::fulfill_request(&mut outbound, &request, None, CacheRead::Missing);
    assert_eq!(result, Err(Js5Error::MasterIndexNotInitialized));
    assert_eq!(outbound.data, vec![1, 2, 3]);
    assert_eq!(outbound.position, 2);
}

#[test]
fn master_index_answer_has_header_length_and_bytes() {
    let master: Vec<u8> = vec![1, 2, 3];
    let mut outbound = Packet::new(0);
    let request = Js5Request::Group { urgent: false, archive: 255, group: 255 };
    let result = Js5Request::fulfill_request(
        &mut outbound,
        &request,
        Some(&master),
        CacheRead::NotInitialized,
    );
    assert_eq!(result, Ok(()));
    assert_eq!(outbound.data, vec![255, 0, 255, 0, 0, 0, 0, 3, 1, 2, 3]);
    assert_eq!(outbound.position, 11);
    assert_eq!(outbound.bit_position, 0);
}

#[test]
fn master_index_length_field_is_the_length_of_the_index() {
    let master: Vec<u8> = vec![7; 70000];
    let mut outbound = Packet::new(0);
    let request = Js5Request::Group { urgent: true, archive: 255, group: 255 };
    let result =
        Js5Request::fulfill_request(&mut outbound, &request, Some(&master), CacheRead::Missing);
    assert_eq!(result, Ok(()));
    assert_eq!(outbound.len(), 8 + 70000);
    assert_eq!(outbound.data[0..4], [255, 0, 255, 0]);
    outbound.position = 4;
    assert_eq!(outbound.g4(), 70000);
    assert_eq!(outbound.gbytes(70000), master);
}

#[test]
fn empty_master_index_answer_is_the_header_alone() {
    let master: Vec<u8> = Vec::new();
    let mut outbound = Packet::new(0);
    let request = Js5Request::Group { urgent: false, archive: 255, group: 255 };
    let result =
        Js5Request::fulfill_request(&mut outbound, &request, Some(&master), CacheRead::Missing);
    assert_eq!(result, Ok(()));
    assert_eq!(outbound.data, vec![255, 0, 255, 0, 0, 0, 0, 0]);
}

#[test]
fn request_that_asks_for_no_data_is_an_error() {
    let master: Vec<u8> = vec![1];
    let mut outbound = Packet::from(vec![5]);
    let result = Js5Request::fulfill_request(
        &mut outbound,
        &Js5Request::LoggedIn,
        Some(&master),
        CacheRead::Found(vec![0, 0, 0, 0, 0]),
    );
    assert_eq!(result, Err(Js5Error::InvalidRequest));
    assert_eq!(outbound.data, vec![5]);
    let rekey = Js5Request::fulfill_request(
        &mut outbound,
        &Js5Request::Rekey { key: 1 },
        None,
        CacheRead::Missing,
    );
    assert_eq!(rekey, Err(Js5Error::InvalidRequest));
}

#[test]
fn entry_before_the_cache_is_opened_is_an_error() {
    let mut outbound = Packet::from(vec![5]);
    let request = Js5Request::Group { urgent: false, archive: 1, group: 2 };
    let result =
        Js5Request::fulfill_request(&mut outbound, &request, None, CacheRead::NotInitialized);
    assert_eq!(result, Err(Js5Error::CacheNotInitialized));
    assert_eq!(outbound.data, vec![5]);
}

#[test]
fn entry_that_the_cache_lacks_is_an_error() {
    let mut outbound = Packet::from(vec![5]);
    let request = Js5Request::Group { urgent: false, archive: 1, group: 2 };
    let result = Js5Request::fulfill_request(&mut outbound, &request, None, CacheRead::Missing);
    assert_eq!(result, Err(Js5Error::CacheMiss));
    assert_eq!(outbound.data, vec![5]);
}

#[test]
fn entry_shorter_than_its_header_says_is_an_error() {
    let request = Js5Request::Group { urgent: false, archive: 1, group: 2 };
    let mut outbound = Packet::from(vec![5]);
    let cut = Js5Request::fulfill_request(
        &mut outbound,
        &request,
        None,
        CacheRead::Found(vec![0, 0, 0, 0, 2, 9]),
    );
    assert_eq!(cut, Err(Js5Error::MalformedEntry));
    let empty =
        Js5Request::fulfill_request(&mut outbound, &request, None, CacheRead::Found(Vec::new()));
    assert_eq!(empty, Err(Js5Error::MalformedEntry));
    let negative = Js5Request::fulfill_request(
        &mut outbound,
        &request,
        None,
        CacheRead::Found(vec![0, 0xff, 0xff, 0xff, 0xf0, 1, 2, 3]),
    );
    assert_eq!(negative, Err(Js5Error::MalformedEntry));
    let packed = Js5Request::fulfill_request(
        &mut outbound,
        &request,
        None,
        CacheRead::Found(vec![1, 0, 0, 0, 0, 1, 2, 3]),
    );
    assert_eq!(packed, Err(Js5Error::MalformedEntry));
    assert_eq!(outbound.data, vec![5]);
}

#[test]
fn small_entry_answer_is_header_payload_and_padding() {
    let outbound = answer(false, vec![0, 0, 0, 0, 2, 9, 8]);
    assert_eq!(outbound.data, vec![3, 1, 2, 0, 0, 0, 0, 2, 9, 8, 0]);
    assert_eq!(outbound.len(), closed_form(6));
    assert_eq!(outbound.position, 10);
    assert_eq!(outbound.bit_position, 0);
}

#[test]
fn bytes_of_the_entry_behind_its_payload_are_not_sent() {
    let outbound = answer(false, vec![0, 0, 0, 0, 1, 9, 8, 7]);
    assert_eq!(outbound.data, vec![3, 1, 2, 0, 0, 0, 0, 1, 9, 0]);
}

#[test]
fn compressed_entry_has_eight_bytes_more() {
    let outbound = answer(false, vec![2, 0, 0, 0, 1, 0, 0, 0, 5, 9]);
    assert_eq!(outbound.data, vec![3, 1, 2, 2, 0, 0, 0, 1, 0, 0, 0, 5, 9, 0]);
    assert_eq!(outbound.position, 13);
}

#[test]
fn urgent_request_sets_the_top_bit_of_the_flags() {
    let plain = answer(false, vec![1, 0, 0, 0, 0, 0, 0, 0, 0]);
    assert_eq!(plain.data[3], 1);
    let urgent = answer(true, vec![1, 0, 0, 0, 0, 0, 0, 0, 0]);
    assert_eq!(urgent.data[3], 0x81);
    let uncompressed = answer(true, vec![0, 0, 0, 0, 0]);
    assert_eq!(uncompressed.data[3], 0x80);
    let set_already = answer(false, vec![0x85, 0, 0, 0, 0, 0, 0, 0, 0]);
    assert_eq!(set_already.data[3], 0x85);
    let both = answer(true, vec![0x85, 0, 0, 0, 0, 0, 0, 0, 0]);
    assert_eq!(both.data[3], 0x85);
}

#[test]
fn payload_of_no_bytes_gives_the_header_alone() {
    let entry = entry_with_payload(0, 0);
    assert_eq!(entry, vec![0, 0xff, 0xff, 0xff, 0xfc]);
    let outbound = answer(false, entry);
    assert_eq!(outbound.data, vec![3, 1, 2, 0]);
    assert_eq!(outbound.position, 4);
}

#[test]
fn payload_of_508_bytes_has_no_marker() {
    let entry = entry_with_payload(0, 508);
    let outbound = answer(false, entry.clone());
    assert_eq!(outbound.len(), closed_form(508));
    assert_eq!(outbound.len(), 513);
    assert_eq!(outbound.position, 512);
    assert_eq!(outbound.data[4..512], entry[1..509]);
    assert_eq!(outbound.data[512], 0);
}

#[test]
fn payload_of_509_bytes_has_no_marker() {
    let entry = entry_with_payload(0, 509);
    let outbound = answer(false, entry.clone());
    assert_eq!(outbound.len(), closed_form(509));
    assert_eq!(outbound.len(), 514);
    assert_eq!(outbound.position, 513);
    assert_eq!(outbound.data[4..513], entry[1..510]);
    assert_eq!(outbound.data[513], 0);
}

#[test]
fn payload_of_510_bytes_has_one_marker() {
    let entry = entry_with_payload(0, 510);
    let outbound = answer(false, entry.clone());
    assert_eq!(outbound.len(), closed_form(510));
    assert_eq!(outbound.position, 4 + 510 + 1);
    assert_eq!(outbound.data[4..513], entry[1..510]);
    assert_eq!(outbound.data[513], 0xff);
    assert_eq!(outbound.data[514], entry[510]);
}

#[test]
fn payload_of_1020_bytes_has_one_marker() {
    let entry = entry_with_payload(0, 1020);
    let outbound = answer(false, entry.clone());
    assert_eq!(outbound.len(), closed_form(1020));
    assert_eq!(outbound.len(), 1028);
    assert_eq!(outbound.position, 1025);
    assert_eq!(outbound.data[4..513], entry[1..510]);
    assert_eq!(outbound.data[513], 0xff);
    assert_eq!(outbound.data[514..1025], entry[510..1021]);
    assert_eq!(outbound.data[1025..1028], [0, 0, 0]);
}

#[test]
fn payload_of_1021_bytes_has_two_markers() {
    let entry = entry_with_payload(0, 1021);
    let outbound = answer(false, entry.clone());
    assert_eq!(outbound.len(), closed_form(1021));
    assert_eq!(outbound.position, 4 + 1021 + 2);
    assert_eq!(outbound.data[513], 0xff);
    assert_eq!(outbound.data[514..1025], entry[510..1021]);
    assert_eq!(outbound.data[1025], 0xff);
    assert_eq!(outbound.data[1026], entry[1021]);
}

#[test]
fn markers_stand_every_512_bytes_behind_the_first_block() {
    let entry = entry_with_payload(3, 5000);
    let outbound = answer(true, entry.clone());
    assert_eq!(outbound.len(), closed_form(5000));
    let mut sent: Vec<u8> = Vec::new();
    let mut markers = 0;
    let mut offset = 4;
    while offset < outbound.position {
        if offset >= 513 && (offset - 513) % 512 == 0 {
            assert_eq!(outbound.data[offset], 0xff);
            markers += 1;
        } else {
            sent.push(outbound.data[offset]);
        }
        offset += 1;
    }
    assert_eq!(markers, 9);
    assert_eq!(sent, entry[1..5001].to_vec());
    assert_eq!(outbound.position, 4 + 5000 + 9);
}

#[test]
fn answer_replaces_what_the_packet_held() {
    let mut outbound = Packet::from(vec![9; 40]);
    outbound.position = 17;
    outbound.bit_position = 5;
    let request = Js5Request::Group { urgent: false, archive: 0, group: 1 };
    let result = Js5Request::fulfill_request(
        &mut outbound,
        &request,
        None,
        CacheRead::Found(vec![0, 0, 0, 0, 0]),
    );
    assert_eq!(result, Ok(()));
    assert_eq!(outbound.data, vec![0, 0, 1, 0, 0, 0, 0, 0, 0]);
    assert_eq!(outbound.position, 8);
    assert_eq!(outbound.bit_position, 0);
}

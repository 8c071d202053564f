use proto_core::packet::Packet;

#[test]
fn new_packet_is_zero_filled() {
    let packet = Packet::new(4);
    assert_eq!(packet.data, vec![0, 0, 0, 0]);
    assert_eq!(packet.position, 0);
    assert_eq!(packet.bit_position, 0);
    assert_eq!(packet.len(), 4);
    assert!(!packet.is_empty());
}

#[test]
fn new_packet_of_no_bytes_is_empty() {
    let packet = Packet::new(0);
    assert!(packet.is_empty());
    assert_eq!(packet.len(), 0);
    assert_eq!(packet.remaining(), 0);
}

#[test]
fn from_takes_the_bytes_as_they_are() {
    let packet = Packet::from(vec![9, 8, 7]);
    assert_eq!(packet.data, vec![9, 8, 7]);
    assert_eq!(packet.position, 0);
    assert_eq!(packet.bit_position, 0);
    assert_eq!(packet.remaining(), 3);
}

#[test]
fn remaining_counts_from_the_cursor() {
    let mut packet = Packet::from(vec![1, 2, 3, 4, 5]);
    packet.g2();
    assert_eq!(packet.remaining(), 3);
}

#[test]
fn p1_writes_the_low_byte() {
    let mut packet = Packet::new(0);
    packet.p1(0x1234);
    assert_eq!(packet.data, vec![0x34]);
    assert_eq!(packet.position, 1);
    packet.p1(-1);
    assert_eq!(packet.data, vec![0x34, 0xff]);
    assert_eq!(packet.position, 2);
}

#[test]
fn p1add_adds_128() {
    let mut packet = Packet::new(0);
    packet.p1add(5);
    packet.p1add(200);
    packet.p1add(-128);
    packet.p1add(i32::MAX);
    assert_eq!(packet.data, vec![133, 72, 0, 127]);
    assert_eq!(packet.position, 4);
}

#[test]
fn p2_writes_big_endian() {
    let mut packet = Packet::new(0);
    packet.p2(0x1234);
    packet.p2(-1);
    packet.p2(0x12345);
    assert_eq!(packet.data, vec![0x12, 0x34, 0xff, 0xff, 0x23, 0x45]);
    assert_eq!(packet.position, 6);
}

#[test]
fn p2add_biases_the_low_byte() {
    let mut packet = Packet::new(0);
    packet.p2add(0x1234);
    packet.p2add(0x12ff);
    assert_eq!(packet.data, vec![0x12, 0xb4, 0x12, 0x7f]);
}

#[test]
fn p2leadd_writes_the_biased_low_byte_first() {
    let mut packet = Packet::new(0);
    packet.p2leadd(0x1234);
    assert_eq!(packet.data, vec![0xb4, 0x12]);
    assert_eq!(packet.position, 2);
}

#[test]
fn ip2_writes_little_endian() {
    let mut packet = Packet::new(0);
    packet.ip2(0x1234);
    assert_eq!(packet.data, vec![0x34, 0x12]);
}

#[test]
fn p3_writes_three_bytes() {
    let mut packet = Packet::new(0);
    packet.p3(0x12345678);
    assert_eq!(packet.data, vec![0x34, 0x56, 0x78]);
    assert_eq!(packet.position, 3);
}

#[test]
fn p4_writes_big_endian() {
    let mut packet = Packet::new(0);
    packet.p4(0x12345678);
    packet.p4(-2);
    assert_eq!(packet.data, vec![0x12, 0x34, 0x56, 0x78, 0xff, 0xff, 0xff, 0xfe]);
}

#[test]
fn p4me_writes_the_middle_endian_order() {
    let mut packet = Packet::new(0);
    packet.p4me(0x12345678);
    assert_eq!(packet.data, vec![0x34, 0x12, 0x78, 0x56]);
}

#[test]
fn p4rme_writes_the_reverse_middle_endian_order() {
    let mut packet = Packet::new(0);
    packet.p4rme(0x12345678);
    assert_eq!(packet.data, vec![0x56, 0x78, 0x12, 0x34]);
}

#[test]
fn ip4_writes_little_endian() {
    let mut packet = Packet::new(0);
    packet.ip4(0x12345678);
    assert_eq!(packet.data, vec![0x78, 0x56, 0x34, 0x12]);
}

#[test]
fn p8_writes_big_endian() {
    let mut packet = Packet::new(0);
    packet.p8(0x0102030405060708);
    assert_eq!(packet.data, vec![1, 2, 3, 4, 5, 6, 7, 8]);
    assert_eq!(packet.position, 8);
    let mut negative = Packet::new(0);
    negative.p8(-2);
    assert_eq!(negative.data, vec![0xff, 0xff, 0xff, 0xff, 0xff, 0xff, 0xff, 0xfe]);
}

#[test]
fn writes_overwrite_inside_a_sized_buffer() {
    let mut packet = Packet::new(4);
    packet.p2(0x1234);
    assert_eq!(packet.data, vec![0x12, 0x34, 0, 0]);
    assert_eq!(packet.position, 2);
    packet.p1(7);
    packet.p1(8);
    assert_eq!(packet.data, vec![0x12, 0x34, 7, 8]);
    assert_eq!(packet.len(), 4);
}

#[test]
fn writes_grow_the_buffer_once_the_cursor_is_at_its_end() {
    let mut packet = Packet::new(1);
    packet.p1(1);
    assert_eq!(packet.len(), 1);
    packet.p1(2);
    assert_eq!(packet.data, vec![1, 2]);
    packet.p4(0x01020304);
    assert_eq!(packet.data, vec![1, 2, 1, 2, 3, 4]);
    assert_eq!(packet.position, 6);
}

#[test]
fn a_write_across_the_end_overwrites_then_grows() {
    let mut packet = Packet::from(vec![9, 9, 9]);
    packet.position = 2;
    packet.p4(0x01020304);
    assert_eq!(packet.data, vec![9, 9, 1, 2, 3, 4]);
    assert_eq!(packet.position, 6);
    let mut short = Packet::new(1);
    short.p2(0x1234);
    assert_eq!(short.data, vec![0x12, 0x34]);
}

#[test]
fn a_write_behind_the_end_appends() {
    let mut packet = Packet::from(vec![9]);
    packet.position = 3;
    packet.p2(0x1234);
    assert_eq!(packet.data, vec![9, 0x12, 0x34]);
    assert_eq!(packet.position, 5);
}

#[test]
fn psmart_takes_one_byte_below_128() {
    let mut packet = Packet::new(0);
    packet.psmart(0);
    packet.psmart(100);
    packet.psmart(127);
    assert_eq!(packet.data, vec![0, 100, 127]);
}

#[test]
fn psmart_takes_two_bytes_from_128() {
    let mut packet = Packet::new(0);
    packet.psmart(128);
    packet.psmart(32767);
    assert_eq!(packet.data, vec![0x80, 0x80, 0xff, 0xff]);
}

#[test]
fn psmarts_takes_one_byte_from_minus_64_to_63() {
    let mut packet = Packet::new(0);
    packet.psmarts(-64);
    packet.psmarts(0);
    packet.psmarts(63);
    assert_eq!(packet.data, vec![0, 64, 127]);
}

#[test]
fn psmarts_takes_two_bytes_outside() {
    let mut packet = Packet::new(0);
    packet.psmarts(64);
    packet.psmarts(-65);
    packet.psmarts(16383);
    packet.psmarts(-16384);
    assert_eq!(packet.data, vec![0xc0, 0x40, 0xbf, 0xbf, 0xff, 0xff, 0x80, 0x00]);
}

#[test]
fn pbytes_copies_the_range() {
    let mut packet = Packet::new(0);
    packet.pbytes(&[1, 2, 3, 4, 5], 1, 3);
    assert_eq!(packet.data, vec![2, 3, 4]);
    assert_eq!(packet.position, 3);
    packet.position = 1;
    packet.pbytes(&[7, 8, 9], 0, 3);
    assert_eq!(packet.data, vec![2, 7, 8, 9]);
    assert_eq!(packet.position, 4);
}

#[test]
fn pbytes_of_nothing_changes_nothing() {
    let mut packet = Packet::from(vec![1, 2]);
    packet.pbytes(&[7, 8, 9], 3, 0);
    assert_eq!(packet.data, vec![1, 2]);
    assert_eq!(packet.position, 0);
}

#[test]
fn pbytes_behind_the_end_fills_the_gap_with_zeros() {
    let mut packet = Packet::from(vec![9]);
    packet.position = 3;
    packet.pbytes(&[5, 6], 0, 2);
    assert_eq!(packet.data, vec![9, 0, 0, 5, 6]);
    assert_eq!(packet.position, 5);
}

#[test]
fn pjstr_writes_the_text_and_the_terminator() {
    let mut packet = Packet::new(0);
    packet.pjstr("hello", 0);
    assert_eq!(packet.data, vec![b'h', b'e', b'l', b'l', b'o', 0]);
    assert_eq!(packet.position, 6);
    packet.pjstr("hi", 10);
    assert_eq!(packet.data, vec![b'h', b'e', b'l', b'l', b'o', 0, b'h', b'i', 10]);
}

#[test]
fn pjstr_drops_zero_bytes_of_the_text() {
    let mut packet = Packet::new(0);
    packet.pjstr("a\0b\0", 10);
    assert_eq!(packet.data, vec![b'a', b'b', 10]);
    assert_eq!(packet.position, 3);
}

#[test]
fn pjstr_of_the_empty_text_writes_the_terminator() {
    let mut packet = Packet::new(0);
    packet.pjstr("", 0);
    assert_eq!(packet.data, vec![0]);
}

#[test]
fn pjstr_overwrites_inside_a_sized_buffer() {
    let mut packet = Packet::from(vec![1, 2, 3, 4, 5]);
    packet.position = 1;
    packet.pjstr("ab", 0);
    assert_eq!(packet.data, vec![1, b'a', b'b', 0, 5]);
    assert_eq!(packet.position, 4);
}

#[test]
fn pjstr_writes_the_bytes_of_a_text_beyond_ascii() {
    let mut packet = Packet::new(0);
    packet.pjstr("\u{e9}", 0);
    assert_eq!(packet.data, vec![0xc3, 0xa9, 0]);
}

#[test]
fn pjstr2_writes_a_zero_byte_first() {
    let mut packet = Packet::new(0);
    packet.pjstr2("ok");
    assert_eq!(packet.data, vec![0, b'o', b'k', 0]);
    assert_eq!(packet.position, 4);
}

#[test]
fn bits_sets_the_bit_cursor_from_the_byte_cursor() {
    let mut packet = Packet::new(8);
    packet.position = 3;
    packet.bits();
    assert_eq!(packet.bit_position, 24);
    assert_eq!(packet.position, 3);
}

#[test]
fn bytes_rounds_the_bit_cursor_up() {
    let mut packet = Packet::new(8);
    packet.bit_position = 24;
    packet.bytes();
    assert_eq!(packet.position, 3);
    packet.bit_position = 25;
    packet.bytes();
    assert_eq!(packet.position, 4);
    packet.bit_position = 0;
    packet.bytes();
    assert_eq!(packet.position, 0);
    assert_eq!(packet.bit_position, 0);
}

#[test]
fn try_psmart_writes_a_value_in_range() {
    let mut packet = Packet::new(0);
    assert!(packet.try_psmart(0));
    assert!(packet.try_psmart(127));
    assert!(packet.try_psmart(128));
    assert!(packet.try_psmart(32767));
    assert_eq!(packet.data, vec![0, 127, 0x80, 0x80, 0xff, 0xff]);
    assert_eq!(packet.position, 6);
}

#[test]
fn try_psmart_refuses_a_value_out_of_range_and_writes_nothing() {
    let mut packet = Packet::from(vec![1, 2, 3]);
    packet.position = 1;
    packet.bit_position = 4;
    assert!(!packet.try_psmart(-1));
    assert!(!packet.try_psmart(32768));
    assert!(!packet.try_psmart(i32::MAX));
    assert!(!packet.try_psmart(i32::MIN));
    assert_eq!(packet.data, vec![1, 2, 3]);
    assert_eq!(packet.position, 1);
    assert_eq!(packet.bit_position, 4);
}

#[test]
fn try_psmarts_writes_a_value_in_range() {
    let mut packet = Packet::new(0);
    assert!(packet.try_psmarts(-64));
    assert!(packet.try_psmarts(63));
    assert!(packet.try_psmarts(-16384));
    assert!(packet.try_psmarts(16383));
    assert_eq!(packet.data, vec![0, 127, 0x80, 0x00, 0xff, 0xff]);
    assert_eq!(packet.position, 6);
}

#[test]
fn try_psmarts_refuses_a_value_out_of_range_and_writes_nothing() {
    let mut packet = Packet::from(vec![1, 2, 3]);
    packet.position = 2;
    assert!(!packet.try_psmarts(-16385));
    assert!(!packet.try_psmarts(16384));
    assert!(!packet.try_psmarts(i32::MAX));
    assert!(!packet.try_psmarts(i32::MIN));
    assert_eq!(packet.data, vec![1, 2, 3]);
    assert_eq!(packet.position, 2);
}

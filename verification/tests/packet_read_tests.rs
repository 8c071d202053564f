use proto_core::packet::Packet;

fn written(write: impl Fn(&mut Packet)) -> Packet {
    let mut packet = Packet::new(0);
    write(&mut packet);
    packet.position = 0;
    packet
}

#[test]
fn g1_reads_back_p1() {
    let mut packet = written(|p| p.p1(0x1ff));
    assert_eq!(packet.g1(), 0xff);
    assert_eq!(packet.position, 1);
}

#[test]
fn g1b_reads_back_p1_signed() {
    let mut packet = written(|p| {
        p.p1(-5);
        p.p1(127);
        p.p1(128);
    });
    assert_eq!(packet.g1b(), -5);
    assert_eq!(packet.g1b(), 127);
    assert_eq!(packet.g1b(), -128);
    assert_eq!(packet.position, 3);
}

#[test]
fn g2_reads_back_p2() {
    let mut packet = written(|p| {
        p.p2(0x1234);
        p.p2(-1);
        p.p2(0x54321);
    });
    assert_eq!(packet.g2(), 0x1234);
    assert_eq!(packet.g2(), 0xffff);
    assert_eq!(packet.g2(), 0x4321);
    assert_eq!(packet.position, 6);
}

#[test]
fn g2b_and_g2s_read_back_p2_signed() {
    let mut packet = written(|p| {
        p.p2(-2);
        p.p2(32767);
        p.p2(-32768);
        p.p2(40000);
    });
    assert_eq!(packet.g2b(), -2);
    assert_eq!(packet.g2s(), 32767);
    assert_eq!(packet.g2b(), -32768);
    assert_eq!(packet.g2s(), -25536);
}

#[test]
fn g2add_reads_back_p2add() {
    let mut packet = written(|p| {
        p.p2add(0x1234);
        p.p2add(0xffff);
        p.p2add(0);
        p.p2add(0x12380);
    });
    assert_eq!(packet.g2add(), 0x1234);
    assert_eq!(packet.g2add(), 0xffff);
    assert_eq!(packet.g2add(), 0);
    assert_eq!(packet.g2add(), 0x2380);
}

#[test]
fn ig2_and_ig2s_read_back_ip2() {
    let mut packet = written(|p| {
        p.ip2(0x1234);
        p.ip2(-2);
    });
    assert_eq!(packet.ig2(), 0x1234);
    assert_eq!(packet.ig2s(), -2);
    packet.position = 2;
    assert_eq!(packet.ig2(), 0xfffe);
}

#[test]
fn g3_reads_back_p3() {
    let mut packet = written(|p| {
        p.p3(0x123456);
        p.p3(-1);
    });
    assert_eq!(packet.g3(), 0x123456);
    assert_eq!(packet.g3(), 0xffffff);
    assert_eq!(packet.position, 6);
}

#[test]
fn g4_and_g4s_read_back_p4() {
    let mut packet = written(|p| {
        p.p4(0x12345678);
        p.p4(-2);
        p.p4(i32::MIN);
        p.p4(i32::MAX);
    });
    assert_eq!(packet.g4(), 0x12345678);
    assert_eq!(packet.g4s(), -2);
    assert_eq!(packet.g4(), i32::MIN);
    assert_eq!(packet.g4s(), i32::MAX);
}

#[test]
fn ig4s_reads_back_ip4() {
    let mut packet = written(|p| {
        p.ip4(0x12345678);
        p.ip4(-3);
    });
    assert_eq!(packet.ig4s(), 0x12345678);
    assert_eq!(packet.ig4s(), -3);
}

#[test]
fn g8_and_g8s_read_back_p8() {
    let mut packet = written(|p| {
        p.p8(0x0102030405060708);
        p.p8(-1);
        p.p8(i64::MIN);
    });
    assert_eq!(packet.g8(), 0x0102030405060708);
    assert_eq!(packet.g8(), u64::MAX);
    assert_eq!(packet.g8s(), i64::MIN);
    packet.position = 8;
    assert_eq!(packet.g8s(), -1);
    assert_eq!(packet.position, 16);
}

#[test]
fn gsmart_reads_back_psmart() {
    let mut packet = written(|p| {
        p.psmart(0);
        p.psmart(127);
        p.psmart(128);
        p.psmart(32767);
    });
    assert_eq!(packet.gsmart(), 0);
    assert_eq!(packet.position, 1);
    assert_eq!(packet.gsmart(), 127);
    assert_eq!(packet.position, 2);
    assert_eq!(packet.gsmart(), 128);
    assert_eq!(packet.position, 4);
    assert_eq!(packet.gsmart(), 32767);
    assert_eq!(packet.position, 6);
}

#[test]
fn gsmart_reads_back_every_value() {
    let mut value = 0;
    while value <= 32767 {
        let mut packet = Packet::new(0);
        packet.psmart(value);
        packet.position = 0;
        assert_eq!(packet.gsmart(), value);
        assert_eq!(packet.position, packet.len());
        value += 1;
    }
}

#[test]
fn gsmarts_reads_back_psmarts() {
    let mut packet = written(|p| {
        p.psmarts(-64);
        p.psmarts(63);
        p.psmarts(64);
        p.psmarts(-65);
        p.psmarts(16383);
        p.psmarts(-16384);
    });
    assert_eq!(packet.gsmarts(), -64);
    assert_eq!(packet.gsmarts(), 63);
    assert_eq!(packet.position, 2);
    assert_eq!(packet.gsmarts(), 64);
    assert_eq!(packet.gsmarts(), -65);
    assert_eq!(packet.gsmarts(), 16383);
    assert_eq!(packet.gsmarts(), -16384);
    assert_eq!(packet.position, 10);
}

#[test]
fn gsmarts_reads_back_every_value() {
    let mut value = -16384;
    while value <= 16383 {
        let mut packet = Packet::new(0);
        packet.psmarts(value);
        packet.position = 0;
        assert_eq!(packet.gsmarts(), value);
        assert_eq!(packet.position, packet.len());
        value += 1;
    }
}

#[test]
fn gjstr_reads_back_pjstr() {
    let mut packet = written(|p| {
        p.pjstr("hello", 0);
        p.pjstr("a\0b", 0);
        p.pjstr("", 0);
    });
    assert_eq!(packet.gjstr(), "hello");
    assert_eq!(packet.position, 6);
    assert_eq!(packet.gjstr(), "ab");
    assert_eq!(packet.position, 9);
    assert_eq!(packet.gjstr(), "");
    assert_eq!(packet.position, 10);
}

#[test]
fn gjstr_stops_at_a_zero_byte_only() {
    let mut packet = written(|p| {
        p.pjstr("ab", 10);
        p.pjstr("cd", 0);
    });
    assert_eq!(packet.gjstr(), "ab\ncd");
    assert_eq!(packet.position, 6);
}

#[test]
fn gjstr_reads_to_the_end_without_a_terminator() {
    let mut packet = Packet::from(vec![b'a', b'b']);
    assert_eq!(packet.gjstr(), "ab");
    assert_eq!(packet.position, 2);
    assert_eq!(packet.gjstr(), "");
    assert_eq!(packet.position, 2);
}

#[test]
fn gjstr_takes_each_byte_as_one_character() {
    let mut packet = Packet::from(vec![0xc3, 0xa9, 0]);
    assert_eq!(packet.gjstr(), "\u{c3}\u{a9}");
    assert_eq!(packet.position, 3);
}

#[test]
fn gbytes_reads_back_pbytes() {
    let mut packet = written(|p| p.pbytes(&[1, 2, 3, 4, 5], 1, 4));
    assert_eq!(packet.gbytes(3), vec![2, 3, 4]);
    assert_eq!(packet.position, 3);
    assert_eq!(packet.gbytes(1), vec![5]);
    assert_eq!(packet.position, 4);
}

#[test]
fn gbytes_gives_what_is_left() {
    let mut packet = Packet::from(vec![1, 2, 3]);
    packet.position = 1;
    assert_eq!(packet.gbytes(10), vec![2, 3]);
    assert_eq!(packet.position, 3);
    assert_eq!(packet.gbytes(10), Vec::<u8>::new());
    assert_eq!(packet.position, 3);
    assert_eq!(packet.gbytes(0), Vec::<u8>::new());
}

#[test]
fn reads_at_the_end_give_zero_and_stay_at_the_end() {
    let mut packet = Packet::from(vec![7]);
    packet.position = 1;
    assert_eq!(packet.g1(), 0);
    assert_eq!(packet.g1b(), 0);
    assert_eq!(packet.g2(), 0);
    assert_eq!(packet.g2add(), 0);
    assert_eq!(packet.g2b(), 0);
    assert_eq!(packet.g2s(), 0);
    assert_eq!(packet.ig2(), 0);
    assert_eq!(packet.ig2s(), 0);
    assert_eq!(packet.g3(), 0);
    assert_eq!(packet.g4(), 0);
    assert_eq!(packet.g4s(), 0);
    assert_eq!(packet.ig4s(), 0);
    assert_eq!(packet.g8(), 0);
    assert_eq!(packet.g8s(), 0);
    assert_eq!(packet.gsmart(), 0);
    assert_eq!(packet.gsmarts(), 0);
    assert_eq!(packet.gjstr(), "");
    assert_eq!(packet.position, 1);
    assert_eq!(packet.data, vec![7]);
}

#[test]
fn reads_of_an_empty_buffer_give_zero() {
    let mut packet = Packet::new(0);
    assert_eq!(packet.g1(), 0);
    assert_eq!(packet.g4(), 0);
    assert_eq!(packet.g8s(), 0);
    assert_eq!(packet.gsmart(), 0);
    assert_eq!(packet.position, 0);
}

#[test]
fn a_read_behind_the_end_moves_the_cursor_to_the_end() {
    let mut packet = Packet::from(vec![7, 8]);
    packet.position = 5;
    assert_eq!(packet.g2(), 0);
    assert_eq!(packet.position, 2);
}

#[test]
fn partial_two_byte_reads_fill_with_zero() {
    let mut packet = Packet::from(vec![0x12]);
    assert_eq!(packet.g2(), 0x1200);
    assert_eq!(packet.position, 1);
    packet.position = 0;
    assert_eq!(packet.ig2(), 0x12);
    assert_eq!(packet.position, 1);
    packet.position = 0;
    assert_eq!(packet.g2add(), 0x1200);
    assert_eq!(packet.position, 1);
    let mut high = Packet::from(vec![0xff]);
    assert_eq!(high.g2s(), -256);
    assert_eq!(high.position, 1);
    high.position = 0;
    assert_eq!(high.g2b(), -256);
    high.position = 0;
    assert_eq!(high.ig2s(), 255);
    assert_eq!(high.position, 1);
}

#[test]
fn partial_three_byte_read_fills_with_zero() {
    let mut packet = Packet::from(vec![1, 2]);
    assert_eq!(packet.g3(), 0x010200);
    assert_eq!(packet.position, 2);
    let mut one = Packet::from(vec![5]);
    assert_eq!(one.g3(), 0x050000);
    assert_eq!(one.position, 1);
}

#[test]
fn partial_four_byte_reads_fill_with_zero() {
    let mut packet = Packet::from(vec![1, 2, 3]);
    assert_eq!(packet.g4(), 0x01020300);
    assert_eq!(packet.position, 3);
    packet.position = 0;
    assert_eq!(packet.ig4s(), 0x00030201);
    assert_eq!(packet.position, 3);
    packet.position = 2;
    assert_eq!(packet.g4s(), 0x03000000);
    assert_eq!(packet.position, 3);
}

#[test]
fn partial_eight_byte_reads_fill_with_zero() {
    let mut packet = Packet::from(vec![1]);
    assert_eq!(packet.g8s(), 0x0100000000000000);
    assert_eq!(packet.position, 1);
    let mut five = Packet::from(vec![1, 2, 3, 4, 5]);
    assert_eq!(five.g8(), 0x0102030405000000);
    assert_eq!(five.position, 5);
    let mut negative = Packet::from(vec![0x80]);
    assert_eq!(negative.g8s(), i64::MIN);
}

#[test]
fn a_two_byte_smart_cut_short_reads_its_first_byte() {
    let mut packet = Packet::from(vec![0x81]);
    assert_eq!(packet.gsmart(), 0x8100 - 32768);
    assert_eq!(packet.position, 1);
    let mut signed = Packet::from(vec![0xc1]);
    assert_eq!(signed.gsmarts(), 0xc100 - 49152);
    assert_eq!(signed.position, 1);
}

#[test]
fn reads_leave_the_bytes_and_the_bit_cursor() {
    let mut packet = Packet::from(vec![1, 2, 3, 4]);
    packet.bit_position = 9;
    packet.g4();
    assert_eq!(packet.data, vec![1, 2, 3, 4]);
    assert_eq!(packet.bit_position, 9);
}

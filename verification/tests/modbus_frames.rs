use inverter::crc::with_crc;
use inverter::frame::{
    read_reply, read_request, write_reply, write_request, Framing, Progress, ReplyBuffer,
};
use inverter::register::RegKind;

fn tcp(body: &[u8]) -> Vec<u8> {
    let mut frame = vec![0, 1, 0, 0, 0, body.len() as u8];
    frame.extend_from_slice(body);
    frame
}

#[test]
fn requests_name_the_unit_the_table_and_the_registers() {
    assert_eq!(
        read_request(Framing::Rtu, 247, RegKind::Input, 11036, 1).unwrap(),
        with_crc(vec![247, 4, 0x2b, 0x1c, 0, 1])
    );
    assert_eq!(
        read_request(Framing::Tcp, 247, RegKind::Holding, 31024, 2).unwrap(),
        tcp(&[247, 3, 0x79, 0x30, 0, 2])
    );
    assert_eq!(
        read_request(Framing::Rtu, 1, RegKind::Holding, 1, 255).unwrap(),
        with_crc(vec![1, 3, 0, 1, 0, 255])
    );
    assert_eq!(
        read_request(Framing::Tcp, 1, RegKind::Input, 1, 3).unwrap(),
        tcp(&[1, 4, 0, 1, 0, 3])
    );
    assert_eq!(
        write_request(Framing::Rtu, 247, 44002, 0xf830).unwrap(),
        with_crc(vec![247, 6, 0xab, 0xe2, 0xf8, 0x30])
    );
    assert_eq!(
        write_request(Framing::Tcp, 247, 44000, 1).unwrap(),
        tcp(&[247, 6, 0xab, 0xe0, 0, 1])
    );
}

#[test]
fn a_read_reply_yields_its_words() {
    let reply = with_crc(vec![7, 4, 4, 0x12, 0x34, 0xff, 0xfe]);
    assert_eq!(
        read_reply(Framing::Rtu, 7, RegKind::Input, 5, 2, &reply).unwrap(),
        [0x1234, 0xfffe]
    );
    let reply = tcp(&[7, 3, 2, 0, 9]);
    assert_eq!(
        read_reply(Framing::Tcp, 7, RegKind::Holding, 5, 1, &reply).unwrap(),
        [9]
    );
}

#[test]
fn a_read_reply_without_data_yields_no_words() {
    let reply = with_crc(vec![7, 4, 0]);
    assert!(read_reply(Framing::Rtu, 7, RegKind::Input, 5, 2, &reply)
        .unwrap()
        .is_empty());
}

#[test]
fn surplus_words_are_dropped() {
    let reply = with_crc(vec![7, 4, 4, 0, 1, 0, 2]);
    assert_eq!(
        read_reply(Framing::Rtu, 7, RegKind::Input, 5, 1, &reply).unwrap(),
        [1]
    );
}

#[test]
fn bad_read_replies_say_what_is_bad() {
    let fault = |framing: Framing, reply: &[u8]| {
        read_reply(framing, 7, RegKind::Holding, 31024, 1, reply)
            .unwrap_err()
            .text()
    };
    let broken = "communication error: modbus read error at 31024: FrameBroken";
    let mut damaged = with_crc(vec![7, 3, 2, 0, 1]);
    damaged[4] ^= 1;
    assert_eq!(
        fault(Framing::Rtu, &damaged),
        "communication error: modbus read error at 31024: FrameCRCError"
    );
    assert_eq!(fault(Framing::Rtu, &[7, 3, 2]), broken);
    assert_eq!(fault(Framing::Rtu, &with_crc(vec![8, 3, 2, 0, 1])), broken);
    assert_eq!(
        fault(Framing::Rtu, &with_crc(vec![7, 0x83, 2])),
        "communication error: modbus read error at 31024: IllegalDataAddress"
    );
    assert_eq!(
        fault(Framing::Rtu, &with_crc(vec![7, 4, 2, 0, 1])),
        "communication error: modbus read error at 31024: IllegalDataAddress"
    );
    assert_eq!(
        fault(Framing::Rtu, &with_crc(vec![7, 0x83, 0x77])),
        "communication error: modbus read error at 31024: UnknownError"
    );
    assert_eq!(
        fault(Framing::Rtu, &with_crc(vec![7, 3, 1, 0, 1, 0, 2])),
        broken
    );
    // Another transaction.
    assert_eq!(fault(Framing::Tcp, &[0, 2, 0, 0, 0, 5, 7, 3, 2, 0, 1]), broken);
    assert_eq!(fault(Framing::Tcp, &[0, 1, 0, 0, 0]), broken);
}

#[test]
fn every_modbus_exception_has_its_name() {
    for (code, name) in [
        (1, "IllegalFunction"),
        (2, "IllegalDataAddress"),
        (3, "IllegalDataValue"),
        (4, "SlaveDeviceFailure"),
        (5, "Acknowledge"),
        (6, "SlaveDeviceBusy"),
        (7, "NegativeAcknowledge"),
        (8, "MemoryParityError"),
        (9, "GatewayPathUnavailable"),
        (0x10, "GatewayTargetFailed"),
        (0x0a, "UnknownError"),
    ] {
        assert_eq!(
            write_reply(Framing::Rtu, 7, 44000, &with_crc(vec![7, 0x86, code]))
                .unwrap_err()
                .text(),
            format!("communication error: modbus write error at 44000: {name}")
        );
    }
}

#[test]
fn a_write_is_acknowledged_by_its_echo() {
    for framing in [Framing::Rtu, Framing::Tcp] {
        let request = write_request(framing, 247, 44001, 60).unwrap();
        write_reply(framing, 247, 44001, &request).unwrap();
        assert!(write_reply(framing, 246, 44001, &request).is_err());
    }
}

#[test]
fn a_reply_in_pieces_is_put_together() {
    let reply = with_crc(vec![7, 4, 4, 0x12, 0x34, 0xff, 0xfe]);
    let mut buffer = ReplyBuffer::new(Framing::Rtu);
    for piece in [&reply[..1], &reply[1..2], &reply[2..7]] {
        assert!(matches!(buffer.accept(piece, false), Progress::Incomplete));
    }
    let mut rest = reply[7..].to_vec();
    rest.extend_from_slice(&[1, 2, 3]);
    match buffer.accept(&rest, true) {
        Progress::Complete(frame) => assert_eq!(frame, reply),
        _ => panic!("the reply was complete"),
    }
}

#[test]
fn a_tcp_reply_is_complete_when_its_header_says_so() {
    let reply = tcp(&[7, 3, 2, 0, 9]);
    let mut buffer = ReplyBuffer::new(Framing::Tcp);
    assert!(matches!(
        buffer.accept(&reply[..10], false),
        Progress::Incomplete
    ));
    match buffer.accept(&reply[10..], false) {
        Progress::Complete(frame) => assert_eq!(frame, reply),
        _ => panic!("the reply was complete"),
    }
}

#[test]
fn an_exception_reply_is_five_bytes() {
    let reply = with_crc(vec![7, 0x83, 2]);
    let mut buffer = ReplyBuffer::new(Framing::Rtu);
    match buffer.accept(&reply, false) {
        Progress::Complete(frame) => assert_eq!(frame, reply),
        _ => panic!("the reply was complete"),
    }
}

#[test]
fn a_reply_that_never_completes_fails_at_the_deadline() {
    let mut buffer = ReplyBuffer::new(Framing::Rtu);
    assert!(matches!(
        buffer.accept(&[7, 4], false),
        Progress::Incomplete
    ));
    match buffer.accept(&[4], true) {
        Progress::Failed(error) => assert_eq!(
            error.text(),
            "communication error: incomplete modbus response (3 bytes) before deadline"
        ),
        _ => panic!("the deadline had passed"),
    }
}

#[test]
fn an_empty_piece_is_a_failure() {
    let mut buffer = ReplyBuffer::new(Framing::Tcp);
    match buffer.accept(&[], false) {
        Progress::Failed(error) => {
            assert_eq!(error.text(), "communication error: empty modbus response")
        }
        _ => panic!("nothing came"),
    }
}

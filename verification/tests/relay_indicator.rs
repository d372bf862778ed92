use inverter::crc::{crc16_modbus, with_crc};
use inverter::mock::relay::{
    check_acknowledgement, check_response, check_slave, coil_mask, mask_for, RelayTransport,
    WaveshareRelay, CHARGE_MASK, DISCHARGE_MASK, EXPORT_MASK, PASSIVE_MASK,
};
use inverter::mock::{MockInverter, RelayMockInverter};
use inverter::{Command, Decimal, Error, Inverter, Mode};
use std::sync::{Arc, Mutex};
use std::time::Duration;

struct RecordingTransport {
    mask: Arc<Mutex<u8>>,
}

impl RelayTransport for RecordingTransport {
    fn exchange(&mut self, request: &[u8], response_len: usize) -> Result<Vec<u8>, Error> {
        check_response(request, 1, request[1], request.len())?;
        match request[1] {
            0x0f => {
                *self.mask.lock().unwrap() = request[7];
                assert_eq!(response_len, 8);
                Ok(with_crc(vec![1, 0x0f, 0, 0, 0, 4]))
            }
            0x01 => {
                assert_eq!(response_len, 6);
                Ok(with_crc(vec![1, 0x01, 1, *self.mask.lock().unwrap()]))
            }
            function => panic!("unexpected function 0x{function:02x}"),
        }
    }
}

/// A line that gives prepared answers, in order.
struct Scripted {
    answers: Vec<Result<Vec<u8>, Error>>,
    requests: Arc<Mutex<Vec<Vec<u8>>>>,
}

impl RelayTransport for Scripted {
    fn exchange(&mut self, request: &[u8], _response_len: usize) -> Result<Vec<u8>, Error> {
        self.requests.lock().unwrap().push(request.to_vec());
        self.answers.remove(0)
    }
}

fn scripted(answers: Vec<Result<Vec<u8>, Error>>) -> Scripted {
    Scripted {
        answers,
        requests: Arc::default(),
    }
}

fn indicated_mock() -> (RelayMockInverter<RecordingTransport>, Arc<Mutex<u8>>) {
    let mask = Arc::new(Mutex::new(0));
    let transport = RecordingTransport {
        mask: Arc::clone(&mask),
    };
    let mock = RelayMockInverter::with_transport(MockInverter::new(), transport, 1);
    (mock, mask)
}

#[test]
fn command_modes_select_the_four_relay_channels() {
    let ttl = Duration::from_secs(60);
    let two = Decimal::whole(2);
    let (mut mock, mask) = indicated_mock();
    for (command, expected) in [
        (Command::passive(), PASSIVE_MASK),
        (Command::hold(ttl), 0),
        (Command::charge(two, ttl), CHARGE_MASK),
        (Command::discharge(two, ttl), DISCHARGE_MASK),
        (Command::export(two, ttl), EXPORT_MASK),
    ] {
        mock.apply(command).unwrap();
        assert_eq!(*mask.lock().unwrap(), expected);
        assert_eq!(mask_for(command), expected);
    }
    assert_eq!(
        [PASSIVE_MASK, CHARGE_MASK, DISCHARGE_MASK, EXPORT_MASK],
        [1, 2, 4, 8]
    );
}

#[test]
fn ttl_expiry_returns_the_indicator_to_passive() {
    let (mut mock, mask) = indicated_mock();
    mock.apply(Command::charge(Decimal::whole(2), Duration::from_secs(5)))
        .unwrap();
    mock.advance(Duration::from_secs(5)).unwrap();
    assert_eq!(*mask.lock().unwrap(), PASSIVE_MASK);
    assert_eq!(mock.active_command().mode, Mode::Passive);
}

#[test]
fn close_switches_every_channel_off() {
    let (mut mock, mask) = indicated_mock();
    mock.apply(Command::passive()).unwrap();
    mock.close();
    assert_eq!(*mask.lock().unwrap(), 0);
}

#[test]
fn crc_matches_the_waveshare_protocol_example() {
    assert_eq!(
        with_crc(vec![1, 0x01, 0, 0, 0, 4]),
        vec![1, 0x01, 0, 0, 0, 4, 0x3d, 0xc9]
    );
}

#[test]
fn a_sealed_frame_leaves_no_residue() {
    let frame = with_crc(vec![1, 2, 3, 250, 0, 17]);
    assert_eq!(crc16_modbus(&frame), 0);
    assert_eq!(crc16_modbus(&[]), 0xffff);
}

#[test]
fn attaching_a_relay_shows_passive() {
    let mask = Arc::new(Mutex::new(0));
    let transport = RecordingTransport {
        mask: Arc::clone(&mask),
    };
    let mut mock = MockInverter::new()
        .with_waveshare_relay(transport, 1)
        .unwrap();
    assert_eq!(*mask.lock().unwrap(), PASSIVE_MASK);
    assert_eq!(mock.capabilities().model, "mock + Waveshare relay");
    *mask.lock().unwrap() = 0;
    mock.read_telemetry().unwrap();
    assert_eq!(*mask.lock().unwrap(), PASSIVE_MASK);
    *mask.lock().unwrap() = 0;
    assert_eq!(mock.mode().unwrap(), Mode::Passive);
    assert_eq!(*mask.lock().unwrap(), PASSIVE_MASK);
}

#[test]
fn the_broadcast_address_is_refused() {
    let error = MockInverter::new()
        .with_waveshare_relay(scripted(vec![]), 0)
        .err()
        .unwrap();
    assert_eq!(
        error.text(),
        "value out of range: mock relay slave must be in the range 1..=255"
    );
    assert!(check_slave(0).is_err() && check_slave(1).is_ok() && check_slave(255).is_ok());
    assert!(WaveshareRelay::open(scripted(vec![]), 7).is_ok());
}

#[test]
fn setting_channels_writes_and_reads_back() {
    let transport = scripted(vec![
        Ok(with_crc(vec![3, 15, 0, 0, 0, 4])),
        Ok(with_crc(vec![3, 1, 1, 5])),
    ]);
    let requests = transport.requests.clone();
    let mut relay = WaveshareRelay::with_transport(transport, 3);
    relay.set_mask(5).unwrap();
    assert_eq!(
        *requests.lock().unwrap(),
        [
            with_crc(vec![3, 15, 0, 0, 0, 4, 1, 5]),
            with_crc(vec![3, 1, 0, 0, 0, 4]),
        ]
    );
}

#[test]
fn a_mask_beyond_four_channels_is_refused_before_the_line_is_used() {
    let transport = scripted(vec![]);
    let requests = transport.requests.clone();
    let mut relay = WaveshareRelay::with_transport(transport, 1);
    assert_eq!(
        relay.set_mask(0x10).unwrap_err().text(),
        "value out of range: mock relay mask must fit four channels, got 0x10"
    );
    assert!(requests.lock().unwrap().is_empty());
}

#[test]
fn a_relay_that_keeps_other_channels_is_reported() {
    let transport = scripted(vec![
        Ok(with_crc(vec![1, 15, 0, 0, 0, 4])),
        Ok(with_crc(vec![1, 1, 1, 3])),
    ]);
    let mut relay = WaveshareRelay::with_transport(transport, 1);
    assert_eq!(
        relay.set_mask(12).unwrap_err().text(),
        "read-back mismatch: mock relay mask is 0x3, expected 0xc"
    );
}

#[test]
fn a_line_failure_is_passed_on() {
    let transport = scripted(vec![Err(Error::Comm("line down".to_string()))]);
    let mut relay = WaveshareRelay::with_transport(transport, 1);
    assert_eq!(
        relay.set_mask(1).unwrap_err().text(),
        "communication error: line down"
    );
    let transport = scripted(vec![
        Ok(with_crc(vec![1, 15, 0, 0, 0, 4])),
        Err(Error::Comm("line down".to_string())),
    ]);
    let mut relay = WaveshareRelay::with_transport(transport, 1);
    assert!(relay.set_mask(1).is_err());
}

#[test]
fn a_wrong_acknowledgement_is_reported() {
    assert!(check_acknowledgement(1, &with_crc(vec![1, 15, 0, 0, 0, 4])).is_ok());
    assert_eq!(
        check_acknowledgement(1, &with_crc(vec![1, 15, 0, 0, 0, 3]))
            .unwrap_err()
            .text(),
        "read-back mismatch: mock relay did not acknowledge coils 0..3"
    );
}

#[test]
fn nonsense_coils_are_reported() {
    assert_eq!(coil_mask(1, &with_crc(vec![1, 1, 1, 9])).unwrap(), 9);
    let response = with_crc(vec![1, 1, 1, 0x1f]);
    assert_eq!(
        coil_mask(1, &response).unwrap_err().text(),
        format!("read-back mismatch: invalid mock relay coil response: {response:02x?}")
    );
    assert!(coil_mask(1, &with_crc(vec![1, 1, 2, 1])).is_err());
}

#[test]
fn a_bad_response_says_what_is_bad() {
    let fault = |frame: &[u8]| check_response(frame, 1, 15, 8).unwrap_err().text();
    assert_eq!(
        fault(&[1, 2, 3]),
        "communication error: mock relay response has 3 bytes, expected 8"
    );
    let mut frame = with_crc(vec![1, 15, 0, 0, 0, 4]);
    let crc = crc16_modbus(&frame[..6]);
    frame[6] ^= 1;
    assert_eq!(
        fault(&frame),
        format!(
            "communication error: mock relay response has CRC 0x{:04x}, expected 0x{crc:04x}",
            crc ^ 1
        )
    );
    assert_eq!(
        fault(&with_crc(vec![2, 15, 0, 0, 0, 4])),
        "communication error: mock relay response came from slave 2, expected 1"
    );
    assert_eq!(
        fault(&with_crc(vec![1, 0x8f, 2, 0, 0, 4])),
        "communication error: mock relay returned Modbus exception 0x02"
    );
    assert_eq!(
        fault(&with_crc(vec![1, 5, 0, 0, 0, 4])),
        "communication error: mock relay response used function 0x05, expected 0x0f"
    );
}

#[test]
fn short_responses_are_judged_too() {
    assert_eq!(
        check_response(&[1, 2], 1, 15, 0).unwrap_err().text(),
        "communication error: mock relay response has 2 bytes, expected 0"
    );
    assert!(check_response(&[], 1, 15, 1).is_err());
    assert_eq!(
        check_response(&[1, 0x8f], 1, 15, 2).unwrap_err().text(),
        "communication error: mock relay response has CRC 0x8f01, expected 0xffff"
    );
    assert_eq!(
        check_response(&[0xff, 0xff], 1, 0x7f, 2).unwrap_err().text(),
        "communication error: mock relay response came from slave 255, expected 1"
    );
    assert_eq!(
        check_response(&[0xff, 0xff], 255, 15, 2).unwrap_err().text(),
        "communication error: mock relay response used function 0xff, expected 0x0f"
    );
}

#[test]
fn a_refused_command_leaves_the_indicator_alone() {
    let (mut mock, mask) = indicated_mock();
    mock.apply(Command::passive()).unwrap();
    assert!(mock
        .apply(Command::charge(Decimal::Nan, Duration::from_secs(5)))
        .is_err());
    assert_eq!(*mask.lock().unwrap(), PASSIVE_MASK);
}

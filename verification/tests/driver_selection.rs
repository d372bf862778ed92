use inverter::factory::Opening;
use inverter::{open, Decimal, Inverter, MockOptions, OpenOptions};

fn options(kind: &str) -> OpenOptions<'_> {
    OpenOptions {
        kind,
        serial_port: "/dev/null",
        baud_rate: 9_600,
        unit_id: 1,
        mock: MockOptions {
            capacity_kwh: Decimal::whole(12),
            max_power_kw: Decimal::whole(4),
            soc_pct: Decimal::whole(60),
            load_kw: Decimal::parts(700_000_000_000_000),
            solar_kw: Decimal::parts(200_000_000_000_000),
        },
    }
}

#[test]
fn unknown_driver_is_rejected() {
    let error = open(options("warpdrive")).err().unwrap();
    assert!(error.text().contains("unknown inverter type"));
    assert_eq!(
        error.text(),
        "unsupported: unknown inverter type \"warpdrive\"; expected mock, mock-relay or foxess"
    );
}

#[test]
fn mock_uses_the_supplied_telemetry() {
    let mut inverter = match open(options("mock")).unwrap() {
        Opening::Mock(inverter) => inverter,
        _ => panic!("expected a mock"),
    };
    let telemetry = inverter.read_telemetry().unwrap();

    let soc = match telemetry.soc_pct {
        Decimal::Finite(n) => n as f64 / 1e15,
        _ => f64::NAN,
    };
    assert!((soc - 60.0).abs() < 1e-5);
    assert_eq!(telemetry.load_kw, Decimal::parts(700_000_000_000_000));
    assert_eq!(telemetry.solar_kw, Decimal::parts(200_000_000_000_000));
}

#[test]
fn foxess_defaults_to_unit_247_and_the_g2_map() {
    for (given, meant) in [(0, 247), (1, 1), (9, 9)] {
        let mut options = options("foxess");
        options.unit_id = given;
        match open(options).unwrap() {
            Opening::FoxEss {
                serial_port,
                baud_rate,
                unit_id,
                map,
            } => {
                assert_eq!((serial_port, baud_rate), ("/dev/null", 9_600));
                assert_eq!(unit_id, meant);
                assert_eq!(map.battery_soc.address, 31024);
            }
            _ => panic!("expected a FoxESS inverter"),
        }
    }
}

#[test]
fn a_relay_needs_an_address() {
    match open(options("mock-relay")).unwrap() {
        Opening::MockRelay {
            mut mock,
            serial_port,
            baud_rate,
            slave,
        } => {
            assert_eq!((serial_port, baud_rate, slave), ("/dev/null", 9_600, 1));
            assert_eq!(
                mock.read_telemetry().unwrap().load_kw,
                Decimal::parts(700_000_000_000_000)
            );
        }
        _ => panic!("expected a mock with a relay"),
    }
    let mut options = options("mock-relay");
    options.unit_id = 0;
    assert!(open(options).is_err());
}

#[test]
fn the_default_mock_options_are_those_of_the_mock() {
    let defaults = MockOptions::default();
    assert_eq!(defaults.capacity_kwh, Decimal::whole(10));
    assert_eq!(defaults.max_power_kw, Decimal::whole(5));
    assert_eq!(defaults.soc_pct, Decimal::whole(50));
    assert_eq!(defaults.load_kw, Decimal::parts(400_000_000_000_000));
    assert_eq!(defaults.solar_kw, Decimal::whole(0));
}

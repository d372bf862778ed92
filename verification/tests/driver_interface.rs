use inverter::{
    Capabilities, Command, Decimal, DischargeTarget, Error, Expiry, MockOptions, Mode,
    ParseModeError, Telemetry,
};
use std::time::{Duration, Instant, SystemTime};

fn quantity(x: f64) -> Decimal {
    if x.is_nan() {
        return Decimal::Nan;
    }
    let text = format!("{}", x.abs());
    let (whole, fraction) = text.split_once('.').unwrap_or((&text, ""));
    match format!("{whole}{fraction:0<15}").parse::<i128>() {
        Ok(parts) if x < 0.0 => Decimal::parts(-parts),
        Ok(parts) => Decimal::parts(parts),
        Err(_) if x < 0.0 => Decimal::NegInfinity,
        Err(_) => Decimal::PosInfinity,
    }
}

#[test]
fn mode_round_trips_through_its_identifier() {
    for mode in [
        Mode::Passive,
        Mode::Hold,
        Mode::ForceCharge,
        Mode::ForceDischarge,
    ] {
        assert_eq!(mode.as_str().parse(), Ok(mode));
        assert_eq!(Mode::parse(mode.as_str()), Ok(mode));
    }
    let err: ParseModeError = "nonsense".parse::<Mode>().unwrap_err();
    assert!(err.text().contains("nonsense"), "{}", err.text());
}

#[test]
fn a_parse_error_quotes_what_it_was_given() {
    let err = Mode::parse("a\"b").unwrap_err();
    assert_eq!(
        err.text(),
        "unrecognised mode \"a\\\"b\": expected \"passive\", \"hold\", \"force_charge\" or \"force_discharge\""
    );
    assert!(Mode::parse("").is_err());
    assert!(Mode::parse("Passive").is_err());
    assert!(Mode::parse("force_charge ").is_err());
}

#[test]
fn only_a_one_shot_inverter_timeout_survives_a_dead_controller() {
    assert!(Expiry::InverterTimeout(Duration::from_secs(60)).is_dead_controller_safe());
    assert!(!Expiry::InverterTimeout(Duration::ZERO).is_dead_controller_safe());
    assert!(!Expiry::InverterCondition("target soc").is_dead_controller_safe());
    assert!(!Expiry::RecurringWindow.is_dead_controller_safe());
    assert!(!Expiry::UntilChanged.is_dead_controller_safe());
}

#[test]
fn a_single_nanosecond_of_timeout_is_dead_controller_safe() {
    assert!(Expiry::InverterTimeout(Duration::from_nanos(1)).is_dead_controller_safe());
    assert!(Expiry::InverterTimeout(Duration::MAX).is_dead_controller_safe());
}

#[test]
fn export_is_distinguishable_from_house_only_discharge() {
    let ttl = Duration::from_secs(60);
    assert_eq!(
        Command::discharge(quantity(1.5), ttl).target,
        DischargeTarget::HouseOnly
    );
    assert_eq!(
        Command::export(quantity(3.0), ttl).target,
        DischargeTarget::GridExport
    );
    assert!(Command::export(quantity(3.0), ttl)
        .text()
        .contains("grid-export"));
}

#[test]
fn display_names_the_mode_power_and_export_intent() {
    let ttl = Duration::from_secs(60);
    assert_eq!(Command::passive().text(), "passive");
    assert_eq!(Command::hold(ttl).text(), "hold");
    assert_eq!(
        Command::charge(quantity(2.0), ttl).text(),
        "force_charge@2kW"
    );
    assert_eq!(
        Command::discharge(quantity(1.5), ttl).text(),
        "force_discharge@1.5kW"
    );
    assert_eq!(
        Command::export(quantity(3.0), ttl).text(),
        "force_discharge@3kW(grid-export)"
    );
}

#[test]
fn non_passive_commands_have_explicit_ttls_but_passive_does_not() {
    let ttl = Duration::from_secs(60);
    assert_eq!(Command::hold(ttl).ttl(), Some(ttl));
    assert_eq!(Command::charge(quantity(1.0), ttl).ttl(), Some(ttl));
    assert_eq!(Command::discharge(quantity(1.0), ttl).ttl(), Some(ttl));
    assert_eq!(Command::export(quantity(1.0), ttl).ttl(), Some(ttl));
    assert_eq!(Command::passive().ttl(), None);
}

#[test]
fn export_kw_is_the_positive_part_of_negative_grid_flow() {
    let mut t = Telemetry {
        soc_pct: quantity(50.0),
        battery_kw: quantity(0.0),
        grid_kw: quantity(-0.3),
        load_kw: quantity(0.0),
        solar_kw: quantity(0.0),
        at: SystemTime::now(),
        read_at: Instant::now(),
    };
    assert_eq!(t.export_kw(), quantity(0.3));
    t.grid_kw = quantity(0.2);
    assert_eq!(t.export_kw(), quantity(0.0));
    t.grid_kw = Decimal::Nan;
    assert_eq!(t.export_kw(), quantity(0.0));
    t.grid_kw = Decimal::NegInfinity;
    assert_eq!(t.export_kw(), Decimal::PosInfinity);
}

#[test]
fn a_fresh_reading_is_young() {
    let t = Telemetry {
        soc_pct: quantity(50.0),
        battery_kw: quantity(0.0),
        grid_kw: quantity(0.0),
        load_kw: quantity(0.0),
        solar_kw: quantity(0.0),
        at: SystemTime::now(),
        read_at: Instant::now(),
    };
    assert!(t.age() < Duration::from_secs(10));
}

#[test]
fn the_age_of_a_reading_is_measured_from_its_start() {
    let start = Instant::now();
    let t = Telemetry {
        soc_pct: quantity(50.0),
        battery_kw: quantity(0.0),
        grid_kw: quantity(0.0),
        load_kw: quantity(0.0),
        solar_kw: quantity(0.0),
        at: SystemTime::now(),
        read_at: start,
    };
    assert_eq!(
        t.age_at(start + Duration::from_millis(7_250)),
        Duration::from_millis(7_250)
    );
    assert_eq!(t.age_at(start), Duration::ZERO);
    let mut later = t;
    later.read_at = start + Duration::from_secs(9);
    assert_eq!(later.age_at(start), Duration::ZERO);
}

#[test]
fn integer_and_float_powers_build_the_same_command() {
    let ttl = Duration::from_secs(60);
    assert_eq!(
        Command::charge(Decimal::whole(2), ttl),
        Command::charge(quantity(2.0), ttl)
    );
    assert_eq!(
        Command::discharge(Decimal::whole(1), ttl),
        Command::discharge(quantity(1.0), ttl)
    );
    assert_eq!(
        Command::export(Decimal::whole(3), ttl),
        Command::export(quantity(3.0), ttl)
    );
}

#[test]
fn a_writable_driver_supports_only_its_listed_modes() {
    let caps = Capabilities::writable(
        "test",
        &[Mode::Passive, Mode::ForceCharge],
        Expiry::UntilChanged,
    );
    assert!(caps.supports(Mode::Passive));
    assert!(caps.supports(Mode::ForceCharge));
    assert!(!caps.supports(Mode::ForceDischarge));
    assert_eq!(caps.write_blocked_reason, None);
}

#[test]
fn capabilities_refuse_every_mode_when_the_driver_cannot_write() {
    // Listed modes must not leak through while writes are off.
    let mut caps = Capabilities::writable(
        "test",
        &[Mode::Passive, Mode::ForceCharge],
        Expiry::UntilChanged,
    );
    caps.can_write = false;
    caps.write_blocked_reason = Some("unverified map");
    assert!(!caps.supports(Mode::Passive));
    assert!(!caps.supports(Mode::ForceCharge));
}

#[test]
fn a_read_only_driver_carries_its_reason_and_reports_nothing_extra() {
    let caps = Capabilities::read_only("test", "map unverified");
    assert!(!caps.can_write);
    assert_eq!(caps.write_blocked_reason, Some("map unverified"));
    assert!(!caps.reports_solar && !caps.reports_mode);
    assert!(!caps.supports(Mode::Passive));
}

#[test]
fn errors_name_their_kind_and_detail() {
    assert_eq!(
        Error::Comm("x".to_string()).text(),
        "communication error: x"
    );
    assert_eq!(
        Error::Readback("x".to_string()).text(),
        "read-back mismatch: x"
    );
    assert_eq!(
        Error::Range("x".to_string()).text(),
        "value out of range: x"
    );
    assert_eq!(Error::Unsupported("x".to_string()).text(), "unsupported: x");
}

#[test]
fn quantities_print_in_plain_decimal() {
    assert_eq!(quantity(0.0).text(), "0");
    assert_eq!(quantity(2.0).text(), "2");
    assert_eq!(quantity(1.5).text(), "1.5");
    assert_eq!(quantity(-0.25).text(), "-0.25");
    assert_eq!(quantity(12.000001).text(), "12.000001");
    assert_eq!(Decimal::parts(-1).text(), "-0.000000000000001");
    assert_eq!(quantity(-1000000.0).text(), "-1000000");
    assert_eq!(Decimal::PosInfinity.text(), "inf");
    assert_eq!(Decimal::NegInfinity.text(), "-inf");
    assert_eq!(Decimal::Nan.text(), "NaN");
}

#[test]
fn quantities_saturate_and_compare_like_floating_point() {
    let most = Decimal::parts(i128::MAX);
    let least = Decimal::parts(i128::MIN);
    assert_eq!(most.plus(Decimal::parts(1)), Decimal::PosInfinity);
    assert_eq!(least.plus(Decimal::parts(-1)), Decimal::NegInfinity);
    assert_eq!(least.negated(), Decimal::PosInfinity);
    assert_eq!(least.abs(), Decimal::PosInfinity);
    assert!(matches!(
        Decimal::PosInfinity.plus(Decimal::NegInfinity),
        Decimal::Nan
    ));
    assert_eq!(Decimal::parts(1_500_000_000_000_000), quantity(1.5));
    assert!(!Decimal::Nan.less_than(quantity(1.0)));
    assert!(!Decimal::Nan.at_most(Decimal::Nan));
    assert!(quantity(1.0).at_most(quantity(1.0)));
    assert!(!quantity(1.0).less_than(quantity(1.0)));
    assert!(Decimal::NegInfinity.less_than(least));
    assert!(most.less_than(Decimal::PosInfinity));
    assert_eq!(Decimal::Nan.non_negative(), quantity(0.0));
    assert_eq!(quantity(-3.0).non_negative(), quantity(0.0));
    assert!(!Decimal::Nan.is_finite() && quantity(1.0).is_finite());
}

#[test]
fn what_is_not_a_number_equals_nothing() {
    assert!(Decimal::Nan != Decimal::Nan);
    assert!(Decimal::Nan != quantity(0.0));
    assert!(Decimal::PosInfinity == Decimal::PosInfinity);
    assert!(Decimal::PosInfinity != Decimal::NegInfinity);
    assert!(quantity(1.0) == quantity(1.0) && quantity(1.0) != quantity(1.5));
    // Whatever carries one is not equal to itself either.
    let ttl = Duration::from_secs(60);
    assert!(Command::charge(Decimal::Nan, ttl) != Command::charge(Decimal::Nan, ttl));
    assert!(Command::charge(quantity(2.0), ttl) == Command::charge(quantity(2.0), ttl));
    let options = MockOptions {
        soc_pct: Decimal::Nan,
        ..MockOptions::default()
    };
    assert!(options != options);
}

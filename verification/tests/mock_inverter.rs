use inverter::mock::MockInverter;
use inverter::{Command, Decimal, DischargeTarget, Error, Expiry, Inverter, InverterExt, Mode};
use std::time::{Duration, Instant};

const TTL: Duration = Duration::from_secs(300);

fn quantity(x: f64) -> Decimal {
    if x.is_nan() {
        return Decimal::Nan;
    }
    let text = format!("{}", x.abs());
    let (whole, fraction) = text.split_once('.').unwrap_or((&text, ""));
    match format!("{whole}{fraction:0<15}").parse::<i128>() {
        Ok(parts) if x < 0.0 => Decimal::parts(-parts),
        Ok(parts) => Decimal::parts(parts),
        Err(_) if x < 0.0 => Decimal::NegInfinity,
        Err(_) => Decimal::PosInfinity,
    }
}

fn number(d: Decimal) -> f64 {
    match d {
        Decimal::Finite(n) => n as f64 / 1e15,
        Decimal::PosInfinity => f64::INFINITY,
        Decimal::NegInfinity => f64::NEG_INFINITY,
        Decimal::Nan => f64::NAN,
    }
}

fn pass(time: Duration) {
    let start = Instant::now();
    while start.elapsed() < time {}
}

#[test]
fn ext_methods_are_partial_applications_of_apply() {
    let mut sugared = MockInverter::new();
    let mut explicit = MockInverter::new();
    for (via_ext, command) in [
        (
            sugared.charge(quantity(2.0), TTL),
            Command::charge(quantity(2.0), TTL),
        ),
        (
            sugared.discharge(quantity(1.5), TTL),
            Command::discharge(quantity(1.5), TTL),
        ),
        (
            sugared.export(quantity(3.0), TTL),
            Command::export(quantity(3.0), TTL),
        ),
        (sugared.hold(TTL), Command::hold(TTL)),
        (sugared.passive(), Command::passive()),
    ] {
        let via_ext = via_ext.unwrap();
        let via_apply = explicit.apply(command).unwrap();
        assert_eq!(via_ext.expiry, via_apply.expiry);
        assert_eq!(via_ext.power_kw, via_apply.power_kw);
    }
}

#[test]
fn telemetry_getters_are_partial_applications_of_read_telemetry() {
    let mut inv = MockInverter::new()
        .with_load_kw(quantity(0.3))
        .with_solar_kw(quantity(2.3));
    inv.apply(Command::passive()).unwrap();
    let t = inv.read_telemetry().unwrap();
    // The simulation steps by real elapsed time, so SoC drifts a hair
    // between reads; the powers are functions of the command and config.
    assert!((number(inv.get_soc_pct().unwrap()) - number(t.soc_pct)).abs() < 1e-6);
    assert_eq!(inv.get_battery_kw().unwrap(), t.battery_kw);
    assert_eq!(inv.get_grid_kw().unwrap(), t.grid_kw);
    assert_eq!(inv.get_load_kw().unwrap(), t.load_kw);
    assert_eq!(inv.get_solar_kw().unwrap(), t.solar_kw);
    assert_eq!(inv.get_export_kw().unwrap(), t.export_kw());
}

#[test]
fn mode_reports_the_live_state_including_the_timeout_revert() {
    let mut inv = MockInverter::new();
    assert_eq!(inv.mode().unwrap(), Mode::Passive);
    inv.apply(Command::charge(quantity(1.0), Duration::from_millis(500)))
        .unwrap();
    assert_eq!(inv.get_mode().unwrap(), Mode::ForceCharge);
    pass(Duration::from_millis(505));
    assert_eq!(
        inv.mode().unwrap(),
        Mode::Passive,
        "mode must report the hardware's revert, not the last command"
    );
}

#[test]
fn applied_power_is_clamped_to_the_inverter_limit() {
    let mut inv = MockInverter::new().with_max_power_kw(quantity(5.0));
    let applied = inv.apply(Command::charge(quantity(50.0), TTL)).unwrap();
    assert_eq!(
        applied.power_kw,
        quantity(5.0),
        "the clamp must be reported back"
    );
}

#[test]
fn the_mock_advertises_a_dead_controller_safe_expiry() {
    let inv = MockInverter::new();
    let caps = inv.capabilities();
    assert!(caps.can_write);
    assert!(caps.expiry.is_dead_controller_safe());
    assert!(caps.reports_mode, "the mock can always answer mode()");
}

#[test]
fn the_mock_advertises_every_mode_and_the_longest_timeout() {
    let caps = MockInverter::default().capabilities();
    assert_eq!(caps.model, "mock");
    assert_eq!(caps.expiry, Expiry::InverterTimeout(Duration::MAX));
    assert!(caps.reports_solar);
    for mode in [
        Mode::Passive,
        Mode::Hold,
        Mode::ForceCharge,
        Mode::ForceDischarge,
    ] {
        assert!(caps.supports(mode));
    }
}

#[test]
fn charging_raises_the_state_of_charge() {
    let mut inv = MockInverter::new().with_soc_pct(quantity(50.0));
    inv.apply(Command::charge(quantity(1.0), Duration::from_secs(3600)))
        .unwrap();
    inv.advance(Duration::from_secs(3600));
    // 1 kWh into a 10 kWh battery is ten percentage points.
    let soc = number(inv.get_soc_pct().unwrap());
    assert!((soc - 60.0).abs() < 0.5, "soc was {soc}");
}

#[test]
fn a_command_reverts_to_passive_once_its_hold_elapses() {
    let mut inv = MockInverter::new();
    inv.apply(Command::charge(quantity(1.0), Duration::from_secs(60)))
        .unwrap();
    assert_eq!(inv.active_command().mode, Mode::ForceCharge);
    inv.advance(Duration::from_secs(61));
    assert_eq!(
        inv.active_command().mode,
        Mode::Passive,
        "a one-shot timeout must revert without the controller"
    );
}

#[test]
fn the_hold_expires_in_simulated_time_and_charging_stops_at_the_boundary() {
    let mut inv = MockInverter::new()
        .with_soc_pct(quantity(50.0))
        .with_load_kw(quantity(0.0))
        .with_solar_kw(quantity(0.0));
    inv.apply(Command::charge(quantity(3.6), Duration::from_secs(1800)))
        .unwrap();
    inv.advance(Duration::from_secs(3600));
    // 3.6 kW for the 30-minute hold is 1.8 kWh (18 points); the second
    // half hour must run passive, with nothing flowing.
    let soc = inv.get_soc_pct().unwrap();
    assert_eq!(soc, quantity(68.0));
    assert_eq!(inv.active_command().mode, Mode::Passive);
}

#[test]
fn active_command_reports_an_elapsed_timeout_without_a_prior_read() {
    let mut inv = MockInverter::new();
    inv.apply(Command::charge(quantity(1.0), Duration::from_millis(1)))
        .unwrap();
    pass(Duration::from_millis(5));
    // No advance() or read in between: the answer must still be honest.
    assert_eq!(inv.active_command().mode, Mode::Passive);
}

#[test]
fn state_of_charge_is_clamped_at_both_ends() {
    let hold = Duration::from_secs(4 * 3600);
    let mut inv = MockInverter::new().with_soc_pct(quantity(99.0));
    inv.apply(Command::charge(quantity(5.0), hold)).unwrap();
    inv.advance(Duration::from_secs(4 * 3600));
    assert!(number(inv.get_soc_pct().unwrap()) <= 100.0);

    let mut inv = MockInverter::new().with_soc_pct(quantity(1.0));
    inv.apply(Command::discharge(quantity(5.0), hold)).unwrap();
    inv.advance(Duration::from_secs(4 * 3600));
    assert!(number(inv.get_soc_pct().unwrap()) >= 0.0);
}

#[test]
fn nonsense_builder_values_are_clamped_not_propagated() {
    // A zero capacity must not poison the SoC arithmetic with NaN, and a
    // negative power limit must not panic the passive flow clamp.
    let mut inv = MockInverter::new()
        .with_capacity_kwh(quantity(0.0))
        .with_max_power_kw(quantity(-5.0))
        .with_soc_pct(quantity(f64::NAN));
    inv.apply(Command::charge(quantity(1.0), TTL)).unwrap();
    inv.advance(Duration::from_secs(60));
    let t = inv.read_telemetry().unwrap();
    assert!(t.soc_pct.is_finite(), "soc was {}", t.soc_pct.text());
}

#[test]
fn a_boundless_capacity_does_not_poison_the_charge() {
    let mut inv = MockInverter::new()
        .with_capacity_kwh(Decimal::PosInfinity)
        .with_soc_pct(quantity(40.0));
    inv.advance(Duration::from_secs(3600));
    let t = inv.read_telemetry().unwrap();
    assert!((number(t.soc_pct) - 40.0).abs() < 1e-6);
}

#[test]
fn boundless_powers_are_shown_and_fill_or_empty_the_battery() {
    let mut inv = MockInverter::new()
        .with_max_power_kw(Decimal::PosInfinity)
        .with_load_kw(Decimal::NegInfinity)
        .with_solar_kw(Decimal::PosInfinity)
        .with_soc_pct(Decimal::NegInfinity);
    inv.advance(Duration::from_nanos(1));
    let t = inv.read_telemetry().unwrap();
    assert_eq!(t.soc_pct, quantity(100.0));
    assert_eq!(t.load_kw, quantity(0.0));
    assert_eq!(t.solar_kw, Decimal::PosInfinity);
    assert_eq!(t.battery_kw, Decimal::PosInfinity);

    let mut inv = MockInverter::new().with_load_kw(Decimal::PosInfinity);
    let t = inv.read_telemetry().unwrap();
    assert_eq!(t.battery_kw, quantity(-5.0));
    assert_eq!(t.grid_kw, Decimal::PosInfinity);

    // Boundless load and PV leave the flow undefined and the charge as it is.
    let mut inv = inv.with_solar_kw(Decimal::PosInfinity).with_soc_pct(quantity(30.0));
    inv.advance(Duration::from_secs(60));
    let t = inv.read_telemetry().unwrap();
    assert!(matches!(t.battery_kw, Decimal::Nan));
    assert_eq!(t.soc_pct, quantity(30.0));
}

#[test]
fn enormous_limits_and_powers_are_kept_exactly() {
    let mut inv = MockInverter::new()
        .with_max_power_kw(quantity(1e13))
        .with_load_kw(quantity(3e13))
        .with_capacity_kwh(quantity(1e20));
    let applied = inv.apply(Command::charge(quantity(1e13), TTL)).unwrap();
    assert_eq!(applied.power_kw, quantity(1e13));
    let t = inv.read_telemetry().unwrap();
    assert_eq!(t.battery_kw, quantity(1e13));
    assert_eq!(t.grid_kw, quantity(4e13));
    let applied = inv.apply(Command::charge(quantity(2e13), TTL)).unwrap();
    assert_eq!(applied.power_kw, quantity(1e13));
}

#[test]
fn house_only_discharge_does_not_export() {
    let mut inv = MockInverter::new().with_load_kw(quantity(0.2));
    inv.apply(Command::discharge(quantity(3.0), TTL)).unwrap();
    let t = inv.read_telemetry().unwrap();
    assert_eq!(
        t.export_kw(),
        quantity(0.0),
        "house-only discharge must not export"
    );
}

#[test]
fn a_grid_export_command_does_export() {
    let mut inv = MockInverter::new().with_load_kw(quantity(0.2));
    inv.apply(Command::export(quantity(3.0), TTL)).unwrap();
    let t = inv.read_telemetry().unwrap();
    assert!(
        number(t.export_kw()) > 0.0,
        "export command must reach the grid"
    );
    assert_eq!(t.export_kw(), quantity(2.8));
    assert_eq!(t.battery_kw, quantity(-3.0));
}

#[test]
fn rejects_a_nonsensical_power_value() {
    let mut inv = MockInverter::new();
    assert!(inv
        .apply(Command::charge(quantity(f64::NAN), TTL))
        .is_err());
    assert!(inv.apply(Command::charge(quantity(-1.0), TTL)).is_err());
}

#[test]
fn refusals_say_why_and_leave_the_command_in_force() {
    let mut inv = MockInverter::new();
    inv.apply(Command::export(quantity(1.0), TTL)).unwrap();
    assert_eq!(
        inv.apply(Command::charge(quantity(-1.0), TTL))
            .unwrap_err()
            .text(),
        "value out of range: power must be finite and non-negative, got -1"
    );
    assert_eq!(
        inv.apply(Command::hold(Duration::ZERO)).unwrap_err().text(),
        "value out of range: hold requires a non-zero TTL"
    );
    let untimed = Command {
        mode: Mode::ForceCharge,
        power_kw: quantity(1.0),
        target: DischargeTarget::HouseOnly,
        ttl: None,
    };
    assert!(matches!(inv.apply(untimed), Err(Error::Range(_))));
    assert_eq!(
        inv.active_command(),
        Command::export(quantity(1.0), TTL)
    );
}

#[test]
fn passive_and_hold_ignore_the_power() {
    let mut inv = MockInverter::new();
    for power_kw in [quantity(3.0), quantity(-3.0), Decimal::Nan, Decimal::PosInfinity] {
        for (mode, ttl) in [(Mode::Passive, None), (Mode::Hold, Some(TTL))] {
            let applied = inv
                .apply(Command {
                    mode,
                    power_kw,
                    target: DischargeTarget::HouseOnly,
                    ttl,
                })
                .unwrap();
            assert_eq!(applied.power_kw, quantity(0.0));
            assert_eq!(inv.mode().unwrap(), mode);
        }
    }
}

#[test]
fn real_time_is_taken_in_up_to_the_clock_reading_and_only_once() {
    let start = Instant::now();
    let mut inv = MockInverter::new()
        .with_load_kw(quantity(0.0))
        .with_soc_pct(quantity(50.0));
    inv.sync_at(start + Duration::from_secs(10));
    inv.sync_at(start + Duration::from_secs(10));
    assert_eq!(inv.active_command(), Command::passive());
    inv.charge(quantity(5.0), Duration::from_secs(7200)).unwrap();
    let now = Instant::now();
    inv.sync_at(now);
    inv.sync_at(now + Duration::from_secs(3600));
    inv.sync_at(now + Duration::from_secs(3600));
    // Half an hour back in time adds nothing, and the watermark moves back.
    inv.sync_at(now + Duration::from_secs(1800));
    inv.sync_at(now + Duration::from_secs(1800));
    let soc = number(inv.get_soc_pct().unwrap());
    assert!((soc - 100.0).abs() < 0.1, "soc was {soc}");
}

#[test]
fn a_reading_is_stamped_with_the_time_it_shows() {
    let mut inv = MockInverter::new();
    let before = Instant::now();
    let t = inv.read_telemetry().unwrap();
    assert!(before <= t.read_at && t.read_at <= Instant::now());
}

#[test]
fn passive_soaks_surplus_solar() {
    let mut inv = MockInverter::new()
        .with_load_kw(quantity(0.3))
        .with_solar_kw(quantity(2.3));
    inv.apply(Command::passive()).unwrap();
    let t = inv.read_telemetry().unwrap();
    assert_eq!(t.battery_kw, quantity(2.0));
}

#[test]
fn hold_keeps_the_battery_still() {
    let mut inv = MockInverter::new()
        .with_soc_pct(quantity(40.0))
        .with_solar_kw(quantity(3.0));
    let applied = inv.hold(TTL).unwrap();
    assert_eq!(applied.expiry, Expiry::InverterTimeout(TTL));
    assert_eq!(applied.power_kw, quantity(0.0));
    inv.advance(Duration::from_secs(200));
    let t = inv.read_telemetry().unwrap();
    assert_eq!(t.battery_kw, quantity(0.0));
    assert_eq!(t.grid_kw, quantity(-2.6));
}

#[test]
fn passive_cancels_an_override_for_good() {
    let mut inv = MockInverter::new();
    inv.charge(quantity(2.0), TTL).unwrap();
    let applied = inv.passive().unwrap();
    assert_eq!(applied.expiry, Expiry::UntilChanged);
    assert_eq!(inv.active_command(), Command::passive());
    inv.close();
    assert_eq!(inv.get_mode().unwrap(), Mode::Passive);
}

#[test]
fn changing_the_capacity_keeps_the_state_of_charge() {
    let mut inv = MockInverter::new()
        .with_load_kw(quantity(0.0))
        .with_soc_pct(quantity(33.3))
        .with_capacity_kwh(quantity(12.7));
    assert_eq!(inv.get_soc_pct().unwrap(), quantity(33.3));
    // 1.27 kWh is a tenth of the new capacity.
    inv.charge(quantity(1.27), Duration::from_secs(3600))
        .unwrap();
    inv.advance(Duration::from_secs(3600));
    assert_eq!(inv.get_soc_pct().unwrap(), quantity(43.3));
}

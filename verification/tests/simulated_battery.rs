use inverter::decimal::UNIT;
use inverter::mock::simulation::{limit, Simulation, MIN_CAPACITY};
use inverter::{Command, Decimal, DischargeTarget, Mode};
use std::time::{Duration, Instant, SystemTime};

/// A 10 kWh battery at 50% on a 5 kW inverter, charging at 3 kW for an hour.
fn charging() -> Simulation {
    Simulation {
        capacity: 10 * UNIT,
        max_power: Decimal::whole(5),
        stored: 5_000_000_000_000_000,
        spare: 0,
        load: Decimal::parts(400_000_000_000_000),
        solar: Decimal::whole(1),
        command: Command::charge(Decimal::whole(3), Duration::from_secs(3600)),
        since: 0,
    }
}

#[test]
fn stepping_twice_is_stepping_once() {
    for (a, b) in [(0, 10), (3599, 1), (1800, 3600), (3600, 7), (5000, 5000)] {
        let (a, b) = (Duration::from_secs(a), Duration::from_secs(b));
        let mut twice = charging();
        twice.step(a);
        twice.step(b);
        let mut once = charging();
        once.step(a + b);
        assert_eq!((twice.stored, twice.spare), (once.stored, once.spare));
        assert_eq!(twice.since, once.since);
        assert_eq!(twice.command, once.command);
    }
}

#[test]
fn an_hour_of_charging_is_worth_its_energy() {
    let mut sim = charging();
    sim.step(Duration::from_secs(1800));
    assert_eq!(sim.soc_parts(), 65 * UNIT);
    assert_eq!(sim.command.mode, Mode::ForceCharge);
    sim.step(Duration::from_secs(1800));
    assert_eq!(sim.soc_parts(), 80 * UNIT);
    assert_eq!(sim.command, Command::passive());
    // Passive soaks the 0.6 kW of surplus.
    sim.step(Duration::from_secs(3600));
    assert_eq!(sim.soc_parts(), 86 * UNIT);
}

#[test]
fn the_command_in_force_is_known_ahead() {
    let sim = charging();
    assert_eq!(
        sim.active_after(Duration::from_nanos(3_599_999_999_999)),
        sim.command
    );
    assert_eq!(
        sim.active_after(Duration::from_secs(3600)),
        Command::passive()
    );
}

#[test]
fn the_longest_step_fills_or_empties_the_battery() {
    let mut sim = charging();
    sim.step(Duration::MAX);
    assert_eq!(sim.soc_parts(), 100 * UNIT);
    sim.solar = Decimal::whole(0);
    sim.step(Duration::MAX);
    assert_eq!(sim.soc_parts(), 0);
    assert_eq!(sim.command, Command::passive());
}

#[test]
fn readings_balance_unless_house_only_discharge_holds_back() {
    let mut sim = charging();
    let read = |sim: &Simulation| sim.telemetry(SystemTime::now(), Instant::now());
    let t = read(&sim);
    assert_eq!(t.battery_kw, Decimal::whole(3));
    assert_eq!(t.grid_kw, Decimal::parts(2_400_000_000_000_000));
    sim.command = Command::export(Decimal::whole(9), Duration::from_secs(60));
    let t = read(&sim);
    assert_eq!(t.battery_kw, Decimal::whole(-5));
    assert_eq!(t.grid_kw, Decimal::parts(-5_600_000_000_000_000));
    assert_eq!(t.grid_kw.plus(t.solar_kw), t.load_kw.plus(t.battery_kw));
    sim.command.target = DischargeTarget::HouseOnly;
    let t = read(&sim);
    assert_eq!(t.battery_kw, Decimal::whole(-5));
    assert_eq!(t.grid_kw, Decimal::whole(0));
    assert_eq!(t.export_kw(), Decimal::whole(0));
}

#[test]
fn a_reading_carries_the_times_it_was_given() {
    let (at, read_at) = (SystemTime::now(), Instant::now());
    let t = charging().telemetry(at, read_at);
    assert_eq!((t.at, t.read_at), (at, read_at));
}

#[test]
fn setting_charge_and_capacity_keeps_percentages_exact() {
    let mut sim = charging();
    sim.set_soc(12_345_678_901_234_567);
    assert_eq!(sim.soc_parts(), 12_345_678_901_234_567);
    sim.set_capacity(MIN_CAPACITY);
    assert_eq!(sim.soc_parts(), 12_345_678_901_234_567);
    sim.set_capacity(i128::MAX);
    assert_eq!(sim.soc_parts(), 12_345_678_901_234_567);
}

#[test]
fn limits_clamp_and_catch_what_is_no_number() {
    assert_eq!(limit(Decimal::parts(7), 0, 10), 7);
    assert_eq!(limit(Decimal::parts(-7), 0, 10), 0);
    assert_eq!(limit(Decimal::parts(70), 0, 10), 10);
    assert_eq!(limit(Decimal::Nan, 2, 10), 2);
    assert_eq!(limit(Decimal::NegInfinity, 2, 10), 2);
    assert_eq!(limit(Decimal::PosInfinity, 2, 10), 10);
}

#[test]
fn a_nanosecond_shows() {
    let mut sim = charging();
    sim.command = Command::passive();
    sim.solar = Decimal::whole(0);
    sim.step(Duration::from_nanos(1));
    // 0.4 kW for a nanosecond out of 10 kWh, rounded down.
    assert_eq!(sim.soc_parts(), 49_999_999_999_998_888);
    for _ in 0..8 {
        sim.step(Duration::from_nanos(1));
    }
    // Nine of them are a whole number of parts: nothing was lost on the way.
    assert_eq!(sim.soc_parts(), 49_999_999_999_990_000);
}

#[test]
fn the_charge_is_exact_at_every_size() {
    for capacity in [MIN_CAPACITY, 7_777_777_777_777, 10 * UNIT, i128::MAX / 3, i128::MAX] {
        let mut sim = charging();
        sim.set_capacity(capacity);
        assert_eq!(sim.soc_parts(), 50 * UNIT);
        for soc in [0, 1, 33_333_333_333_333_333, 99_999_999_999_999_999, 100 * UNIT] {
            sim.set_soc(soc);
            assert_eq!(sim.soc_parts(), soc);
        }
    }
}

#[test]
fn energy_carries_between_whole_parts_and_ticks() {
    let mut there = charging();
    there.command = Command::charge(Decimal::parts(1_234_567_890_123), Duration::MAX);
    let start = (there.stored, there.spare);
    let mut back = there;
    for nanos in [1, 999_999_999, 7_777_777_777] {
        there.step(Duration::from_nanos(nanos));
    }
    back.stored = there.stored;
    back.spare = there.spare;
    back.command.mode = Mode::ForceDischarge;
    back.step(Duration::from_nanos(1 + 999_999_999 + 7_777_777_777));
    assert!((there.stored, there.spare) != start);
    assert_eq!((back.stored, back.spare), start);
}

//! What the simulated inverter shows and does, in terms of its settings and
//! commands: powers in parts of a kilowatt, energies in ticks.
use super::simulation::{
    law_stepping_adds_up, lemma_charging_adds_up, lemma_holding_reads_back, lemma_soc_is_bounded,
    limited, Simulation,
};
use super::relay::{RelayMockInverter, RelayTransport};
use super::{initial, MockInverter};
use crate::capabilities::Capabilities;
use crate::command::{Applied, Command, Expiry};
use crate::decimal::Decimal;
use crate::driver::Inverter;
use crate::error::Error;
use crate::mode::{lemma_every_mode_is_listed, DischargeTarget, Mode};
use crate::telemetry::Telemetry;
use crate::text::{lemma_mentions, mentions};
use crate::time::{duration_nanos, nanos_between};
use std::time::Instant;
use vstd::arithmetic::div_mod::{lemma_fundamental_div_mod, lemma_fundamental_div_mod_converse};
use vstd::prelude::*;

verus! {

/// The energy in the battery, in ticks, of which a part of a kilowatt-hour has
/// 3.6 * 10^18.
pub open spec fn ticks_in(s: Simulation) -> int {
    s.stored * 3_600_000_000_000_000_000 + s.spare
}

/// The energy in a full battery, in ticks.
pub open spec fn ticks_when_full(s: Simulation) -> int {
    s.capacity * 3_600_000_000_000_000_000
}

/// `post` has what was set of `s`: its capacity, power limit, load and PV.
pub open spec fn same_settings(s: Simulation, post: Simulation) -> bool {
    &&& post.capacity == s.capacity
    &&& post.max_power == s.max_power
    &&& post.load == s.load
    &&& post.solar == s.solar
}

/// A reading shows the load and the PV generation as they were set, and as the
/// state of charge the stored share of the capacity, to a part of a percent:
/// a hundred percent has 10^17 parts.
pub proof fn law_a_reading_shows_settings_and_charge(s: Simulation, t: Telemetry)
    requires
        s.wf(),
        s.shows(t),
    ensures
        t.load_kw == s.load,
        t.solar_kw == s.solar,
        t.soc_pct matches Decimal::Finite(soc) && 0 <= soc <= 100_000_000_000_000_000 && soc
            * s.capacity * 36 <= ticks_in(s) < (soc + 1) * s.capacity * 36,
{
    lemma_soc_is_bounded(s);
    let (e, u) = (s.energy(), s.capacity * 36);
    lemma_fundamental_div_mod(e, u);
    let q = e / u;
    assert(q * s.capacity * 36 <= e < (q + 1) * s.capacity * 36) by (nonlinear_arith)
        requires
            e == u * q + e % u,
            0 <= e % u < u,
            u == s.capacity * 36,
    ;
}

/// In passive the battery takes up exactly what PV leaves of the load, or what
/// the load leaves of PV, so that the grid reads zero; beyond the power limit it
/// runs at the limit, and the grid makes up the rest.
pub proof fn law_passive_balances_the_house(s: Simulation, t: Telemetry, load: i128, solar: i128)
    requires
        s.wf(),
        s.shows(t),
        s.command.mode == Mode::Passive,
        t.load_kw == Decimal::Finite(load),
        t.solar_kw == Decimal::Finite(solar),
    ensures
        s.max_power matches Decimal::Finite(max) ==> {
            &&& -max <= solar - load <= max ==> {
                &&& t.battery_kw matches Decimal::Finite(battery)
                &&& battery == solar - load
                &&& t.grid_kw == Decimal::Finite(0)
            }
            &&& solar - load > max ==> t.battery_kw == Decimal::Finite(max) && (
            t.grid_kw matches Decimal::Finite(grid) && grid == load + max - solar && grid < 0)
            &&& solar - load < -max ==> (t.battery_kw matches Decimal::Finite(battery) && battery
                == -max) && (t.grid_kw matches Decimal::Finite(grid) && grid == load - max - solar
                && grid > 0)
        },
        s.max_power is PosInfinity ==> {
            &&& t.battery_kw matches Decimal::Finite(battery)
            &&& battery == solar - load
            &&& t.grid_kw == Decimal::Finite(0)
        },
{
}

/// In passive a boundless load empties the battery at the power limit, and
/// boundless PV fills it at the limit.
pub proof fn law_passive_meets_boundless_powers_at_the_limit(s: Simulation, t: Telemetry)
    requires
        s.wf(),
        s.shows(t),
        s.command.mode == Mode::Passive,
    ensures
        t.load_kw is PosInfinity && t.solar_kw is Finite && s.max_power is Finite ==> {
            &&& t.battery_kw matches Decimal::Finite(battery)
            &&& battery == -s.max_power->Finite_0
            &&& t.grid_kw is PosInfinity
        },
        t.load_kw is Finite && t.solar_kw is PosInfinity ==> t.battery_kw == s.max_power,
        t.load_kw is PosInfinity && t.solar_kw is PosInfinity ==> t.battery_kw is Nan,
{
}

/// Charging and discharging run at the power asked for, or at the power limit
/// where that is less; holding runs at none.
pub proof fn law_an_override_runs_at_its_power(s: Simulation, t: Telemetry, asked: i128)
    requires
        s.wf(),
        s.shows(t),
        s.command.mode != Mode::Passive,
        s.command.mode != Mode::Hold ==> s.command.power_kw == Decimal::Finite(asked),
    ensures
        s.command.mode == Mode::Hold ==> t.battery_kw == Decimal::Finite(0),
        s.command.mode == Mode::ForceCharge ==> {
            &&& t.battery_kw matches Decimal::Finite(battery)
            &&& s.max_power is PosInfinity ==> battery == asked
            &&& s.max_power matches Decimal::Finite(max) ==> battery == if asked <= max {
                asked
            } else {
                max
            }
        },
        s.command.mode == Mode::ForceDischarge ==> {
            &&& t.battery_kw matches Decimal::Finite(battery)
            &&& s.max_power is PosInfinity ==> battery == -asked
            &&& s.max_power matches Decimal::Finite(max) ==> battery == if asked <= max {
                -asked
            } else {
                -max
            }
        },
{
}

/// Grid and PV supply the load and the battery, whatever the command, except
/// that house-only discharge shows no export: there the grid reads what the load
/// needs beyond PV and the battery, and zero when it needs nothing.
pub proof fn law_the_grid_makes_up_the_rest(
    s: Simulation,
    t: Telemetry,
    load: i128,
    solar: i128,
    battery: i128,
)
    requires
        s.wf(),
        s.shows(t),
        t.load_kw == Decimal::Finite(load),
        t.solar_kw == Decimal::Finite(solar),
        t.battery_kw == Decimal::Finite(battery),
    ensures
        s.command.mode == Mode::ForceDischarge && s.command.target == DischargeTarget::HouseOnly
            ==> {
            &&& t.grid_kw matches Decimal::Finite(grid)
            &&& load + battery - solar >= 0 ==> grid + solar == load + battery
            &&& load + battery - solar < 0 ==> grid == 0
        },
        s.command.mode != Mode::ForceDischarge || s.command.target == DischargeTarget::GridExport
            ==> (i128::MIN <= load + battery - solar <= i128::MAX ==> (
        t.grid_kw matches Decimal::Finite(grid) && grid + solar == load + battery)),
{
}

/// `post` holds the energy of `s` after the battery ran at `battery` for
/// `nanos`: a part of a kilowatt gives 10^6 ticks in a nanosecond. It stops at
/// empty and at full.
pub open spec fn charged_by(s: Simulation, battery: Decimal, nanos: nat, post: Simulation) -> bool {
    match battery {
        Decimal::Finite(power) => {
            let reached = ticks_in(s) + power * nanos * 1_000_000;
            &&& 0 <= reached <= ticks_when_full(s) ==> ticks_in(post) == reached
            &&& reached < 0 ==> ticks_in(post) == 0
            &&& reached > ticks_when_full(s) ==> ticks_in(post) == ticks_when_full(s)
        },
        Decimal::PosInfinity => ticks_in(post) == if nanos > 0 {
            ticks_when_full(s)
        } else {
            ticks_in(s)
        },
        Decimal::NegInfinity => ticks_in(post) == if nanos > 0 {
            0
        } else {
            ticks_in(s)
        },
        Decimal::Nan => ticks_in(post) == ticks_in(s),
    }
}

/// While nothing expires, the battery charges by the power that a reading shows
/// times the time that passes, and the command and the settings stay.
pub proof fn law_energy_follows_the_battery(s: Simulation, t: Telemetry, nanos: nat)
    requires
        s.wf(),
        s.shows(t),
        s.command.mode == Mode::Passive || (s.command.ttl matches Some(ttl) && s.since + nanos
            < duration_nanos(ttl)),
    ensures
        s.stepped(nanos).wf(),
        charged_by(s, t.battery_kw, nanos, s.stepped(nanos)),
        s.stepped(nanos).command == s.command,
        s.command.mode != Mode::Passive ==> s.stepped(nanos).since == s.since + nanos,
        same_settings(s, s.stepped(nanos)),
{
    law_stepping_adds_up(s, nanos, 0);
    lemma_charging_adds_up(s, nanos, 0);
    lemma_energy_after_is_bounded(s, nanos);
    lemma_holding_reads_back(s, s.energy_after(nanos));
}

/// What is stored never leaves the battery's bounds.
proof fn lemma_energy_after_is_bounded(s: Simulation, nanos: nat)
    requires
        s.wf(),
    ensures
        0 <= s.energy_after(nanos) <= s.full(),
{
}

/// An override runs at the power that a reading shows until its time to live
/// has passed since it was applied; then the inverter is in passive by itself.
pub proof fn law_an_override_runs_until_it_expires(s: Simulation, t: Telemetry, left: nat)
    requires
        s.wf(),
        s.shows(t),
        s.command.mode != Mode::Passive,
        s.command.ttl matches Some(ttl) && left == (if duration_nanos(ttl) > s.since {
            duration_nanos(ttl) - s.since
        } else {
            0
        }),
    ensures
        s.stepped(left).wf(),
        charged_by(s, t.battery_kw, left, s.stepped(left)),
        s.stepped(left).command.mode == Mode::Passive,
        same_settings(s, s.stepped(left)),
{
    law_stepping_adds_up(s, left, 0);
    lemma_charging_adds_up(s, left, 0);
    lemma_energy_after_is_bounded(s, left);
    lemma_holding_reads_back(s, s.energy_after(left));
    let reverted = s.charged(left).commanded(Command::self_use());
    assert(reverted.wf());
    assert(reverted.energy() == s.charged(left).energy());
    if let Decimal::Finite(f) = reverted.flow() {
        assert(f * 0 * 1_000_000 == 0) by (nonlinear_arith);
    }
    lemma_holding_reads_back(reverted, reverted.energy());
    assert(reverted.energy_after(0) == reverted.energy());
    assert(reverted.ran(0).energy() == reverted.energy());
}

/// After its time to live an override is over for good: the inverter is in
/// passive, however much later, and what it does then it does as passive.
pub proof fn law_an_expired_override_is_over(s: Simulation, left: nat, later: nat)
    requires
        s.wf(),
        s.command.mode != Mode::Passive,
        s.command.ttl matches Some(ttl) && left == (if duration_nanos(ttl) > s.since {
            duration_nanos(ttl) - s.since
        } else {
            0
        }),
    ensures
        s.stepped(left + later) == s.stepped(left).stepped(later),
        s.stepped(left + later).command.mode == Mode::Passive,
        s.stepped(left + later).command.power_kw == Decimal::Finite(0),
        s.stepped(left + later).command.ttl is None,
{
    law_stepping_adds_up(s, left, later);
}

/// The command in force after a while is the command that the simulation has
/// after that while.
pub proof fn law_the_command_in_force_expires(s: Simulation, nanos: nat)
    requires
        s.wf(),
    ensures
        s.command.mode == Mode::Passive ==> s.command_after(nanos) == s.command,
        s.command.mode != Mode::Passive ==> (s.command.ttl matches Some(ttl) && {
            &&& s.since + nanos < duration_nanos(ttl) ==> s.command_after(nanos) == s.command
            &&& s.since + nanos >= duration_nanos(ttl) ==> s.command_after(nanos).mode
                == Mode::Passive
        }),
        s.stepped(nanos).command == s.command_after(nanos),
{
}

/// Setting the state of charge stores that share of the capacity, to the tick,
/// and a reading shows it.
pub proof fn law_a_set_charge_is_stored(s: Simulation, soc: int)
    requires
        s.wf(),
        0 <= soc <= 100_000_000_000_000_000,
    ensures
        s.at_soc(soc).wf(),
        ticks_in(s.at_soc(soc)) == s.capacity * 36 * soc,
        s.at_soc(soc).soc() == soc,
        same_settings(s, s.at_soc(soc)),
        s.at_soc(soc).command == s.command,
        s.at_soc(soc).since == s.since,
{
    let e = s.capacity * 36 * soc;
    assert(0 <= e <= s.capacity * 3_600_000_000_000_000_000) by (nonlinear_arith)
        requires
            e == s.capacity * 36 * soc,
            0 <= soc <= 100_000_000_000_000_000,
            0 <= s.capacity,
    ;
    lemma_holding_reads_back(s, e);
    assert(e == soc * (s.capacity * 36)) by (nonlinear_arith)
        requires
            e == s.capacity * 36 * soc,
    ;
    lemma_fundamental_div_mod_converse(e, s.capacity * 36, soc, 0);
}

/// A setting within its bounds is kept, one outside falls to the nearer bound,
/// and one that is not a number to the lower.
pub proof fn law_settings_are_clamped(d: Decimal, low: int, high: int)
    requires
        low <= high,
    ensures
        d matches Decimal::Finite(n) ==> {
            &&& low <= n <= high ==> limited(d, low, high) == n
            &&& n < low ==> limited(d, low, high) == low
            &&& n > high ==> limited(d, low, high) == high
        },
        d is PosInfinity ==> limited(d, low, high) == high,
        d is NegInfinity || d is Nan ==> limited(d, low, high) == low,
{
}

/// A reading always succeeds, carries the clock reading up to which time has
/// passed in the simulation, and shows the simulation as it is then.
pub proof fn law_a_mock_reading_shows_the_simulation(
    pre: MockInverter,
    post: MockInverter,
    r: Result<Telemetry, Error>,
)
    requires
        pre.reads(&post, r),
    ensures
        r matches Ok(t) && t.read_at == post.synced_at() && post.sim().shows(t),
        post.sim() == pre.sim().stepped(nanos_between(post.synced_at(), pre.synced_at())),
{
}

/// The mode reported is that of the command in force once the time since the
/// last interaction has passed, and it is always reported.
pub proof fn law_a_mock_reports_the_mode_in_force(
    pre: MockInverter,
    post: MockInverter,
    r: Result<Mode, Error>,
)
    requires
        pre.valid(),
        pre.reports(&post, r),
    ensures
        r matches Ok(mode) && mode == post.sim().command.mode,
        ({
            let nanos = nanos_between(post.synced_at(), pre.synced_at());
            &&& pre.sim().command.mode == Mode::Passive ==> (r matches Ok(mode) && mode
                == Mode::Passive)
            &&& pre.sim().command.mode != Mode::Passive ==> (pre.sim().command.ttl matches Some(
                ttl,
            ) && (r matches Ok(mode) && mode == if pre.sim().since + nanos < duration_nanos(ttl) {
                pre.sim().command.mode
            } else {
                Mode::Passive
            }))
        }),
{
}

/// The mock takes on passive, a hold with a time to live, and a charge or
/// discharge with a time to live and a power that is a number and not negative.
/// The command is then in force from that moment, at its power or the power
/// limit where that is less, until its time to live has passed; nothing else
/// about the simulation changes but the time that has passed in it.
pub proof fn law_a_mock_command_takes_hold(
    pre: MockInverter,
    post: MockInverter,
    command: Command,
    r: Result<Applied, Error>,
)
    requires
        pre.applies(&post, command, r),
        command.mode == Mode::Passive || (command.ttl matches Some(ttl) && duration_nanos(ttl) > 0),
        command.mode == Mode::ForceCharge || command.mode == Mode::ForceDischarge ==> (
        command.power_kw matches Decimal::Finite(asked) && asked >= 0),
    ensures
        post.sim().command == command,
        post.sim().since == 0,
        ({
            let ran = pre.sim().stepped(nanos_between(post.synced_at(), pre.synced_at()));
            same_settings(ran, post.sim()) && ticks_in(ran) == ticks_in(post.sim())
        }),
        r matches Ok(applied) && {
            &&& command.mode == Mode::Passive ==> applied.expiry is UntilChanged
            &&& command.mode != Mode::Passive ==> applied.expiry == Expiry::InverterTimeout(
                command.ttl->Some_0,
            )
            &&& command.mode == Mode::Passive || command.mode == Mode::Hold ==> applied.power_kw
                == Decimal::Finite(0)
            &&& command.mode == Mode::ForceCharge || command.mode == Mode::ForceDischarge ==> {
                &&& command.power_kw.le(post.sim().max_power) ==> applied.power_kw
                    == command.power_kw
                &&& post.sim().max_power.lt(command.power_kw) ==> applied.power_kw
                    == post.sim().max_power
            }
        },
{
}

/// Any other command is refused as out of range, and changes nothing.
pub proof fn law_a_mock_refuses_the_rest(
    pre: MockInverter,
    post: MockInverter,
    command: Command,
    r: Result<Applied, Error>,
)
    requires
        pre.applies(&post, command, r),
        (command.mode != Mode::Passive && !(command.ttl matches Some(ttl) && duration_nanos(ttl)
            > 0)) || ((command.mode == Mode::ForceCharge || command.mode == Mode::ForceDischarge)
            && !(command.power_kw matches Decimal::Finite(asked) && asked >= 0)),
    ensures
        r matches Err(Error::Range(_)),
        post == pre,
{
}

/// The mock can command every mode, each with an inverter timeout of any
/// length, and reports PV and its mode.
pub proof fn law_a_mock_advertises_what_it_does(
    pre: MockInverter,
    caps: Capabilities,
    mode: Mode,
)
    requires
        pre.advertises(caps),
    ensures
        caps.can_write,
        exists|i: int| 0 <= i < caps.modes@.len() && #[trigger] caps.modes@[i] == mode,
        caps.expiry matches Expiry::InverterTimeout(longest) && duration_nanos(longest)
            == 18_446_744_073_709_551_615_999_999_999,
        caps.reports_solar,
        caps.reports_mode,
        caps.model@ == "mock"@,
        caps.write_blocked_reason is None,
{
    lemma_every_mode_is_listed(mode);
    let i = choose|i: int| 0 <= i < caps.modes@.len() && #[trigger] caps.modes@[i] == mode;
    assert(caps.modes@[i] == mode);
}

/// A mock with a relay advertises what the mock does, under its own name.
pub proof fn law_a_relay_mock_advertises_what_a_mock_does<T: RelayTransport>(
    pre: RelayMockInverter<T>,
    caps: Capabilities,
    mode: Mode,
)
    requires
        pre.advertises(caps),
    ensures
        caps.can_write,
        exists|i: int| 0 <= i < caps.modes@.len() && #[trigger] caps.modes@[i] == mode,
        caps.expiry matches Expiry::InverterTimeout(longest) && duration_nanos(longest)
            == 18_446_744_073_709_551_615_999_999_999,
        caps.reports_solar,
        caps.reports_mode,
        caps.model@ == "mock + Waveshare relay"@,
        caps.write_blocked_reason is None,
{
    lemma_every_mode_is_listed(mode);
    let i = choose|i: int| 0 <= i < caps.modes@.len() && #[trigger] caps.modes@[i] == mode;
    assert(caps.modes@[i] == mode);
}

/// Advancing lets the real time since the last interaction pass, and on top of
/// it exactly the simulated time asked for.
pub proof fn law_advancing_adds_simulated_time(
    pre: MockInverter,
    post: MockInverter,
    elapsed: nat,
)
    requires
        pre.valid(),
        pre.advanced(post, elapsed),
    ensures
        post.sim() == pre.sim().stepped(
            nanos_between(post.synced_at(), pre.synced_at()) + elapsed,
        ),
{
    law_stepping_adds_up(
        pre.sim(),
        nanos_between(post.synced_at(), pre.synced_at()),
        elapsed,
    );
}

/// The command in force is the last one applied, or passive once its time to
/// live has passed since then.
pub proof fn law_the_active_command_accounts_for_expiry(mock: MockInverter, command: Command) -> (
    now: Instant)
    requires
        mock.valid(),
        mock.in_force(command),
    ensures
        mock.sim().command.mode == Mode::Passive ==> command == mock.sim().command,
        mock.sim().command.mode != Mode::Passive ==> (mock.sim().command.ttl matches Some(ttl) && {
            let since = mock.sim().since + nanos_between(now, mock.synced_at());
            &&& since < duration_nanos(ttl) ==> command == mock.sim().command
            &&& since >= duration_nanos(ttl) ==> command.mode == Mode::Passive
        }),
{
    choose|now: Instant|
        command == mock.sim().command_after(#[trigger] nanos_between(now, mock.synced_at()))
}

/// Changing the capacity changes what is stored so that the state of charge
/// reads as before, and nothing else.
pub proof fn law_resizing_keeps_the_state_of_charge(s: Simulation, capacity: i128)
    requires
        s.wf(),
        capacity >= 1_000_000_000_000,
    ensures
        ({
            let post = s.resized(capacity);
            &&& post.wf()
            &&& post.capacity == capacity
            &&& forall|t: Telemetry, u: Telemetry| #[trigger]
                s.shows(t) && #[trigger] post.shows(u) ==> u.soc_pct == t.soc_pct
            &&& post.max_power == s.max_power && post.load == s.load && post.solar == s.solar
            &&& post.command == s.command && post.since == s.since
        }),
{
    lemma_soc_is_bounded(s);
    let empty = Simulation { capacity, stored: 0, spare: 0, ..s };
    assert(empty.wf());
    law_a_set_charge_is_stored(empty, s.soc());
    assert(s.resized(capacity) == empty.at_soc(s.soc()));
}

/// A new mock is a 10 kWh battery on a 5 kW inverter, half full, with a load of
/// 0.4 kW and no PV, in passive.
pub proof fn law_a_new_mock_is_as_described()
    ensures
        initial().wf(),
        initial().capacity == 10_000_000_000_000_000,
        initial().max_power == Decimal::Finite(5_000_000_000_000_000),
        2 * ticks_in(initial()) == ticks_when_full(initial()),
        initial().load == Decimal::Finite(400_000_000_000_000),
        initial().solar == Decimal::Finite(0),
        initial().command.mode == Mode::Passive,
{
}

/// A refusal says which power makes no sense, or which mode needs a time to
/// live.
pub proof fn law_a_mock_refusal_says_why(
    pre: MockInverter,
    post: MockInverter,
    command: Command,
    fault: String,
)
    requires
        pre.applies(&post, command, Err(Error::Range(fault))),
    ensures
        (command.mode == Mode::ForceCharge || command.mode == Mode::ForceDischarge) && !(
        command.power_kw matches Decimal::Finite(asked) && asked >= 0) ==> mentions(
            fault@,
            command.power_kw.shown(),
        ),
        (command.mode == Mode::Hold || (command.power_kw matches Decimal::Finite(asked) && asked
            >= 0)) ==> mentions(fault@, command.mode.name()),
{
    let none = Seq::<char>::empty();
    let before = "power must be finite and non-negative, got "@;
    if fault@ == before + command.power_kw.shown() {
        assert(fault@ =~= before + command.power_kw.shown() + none);
        lemma_mentions(fault@, before, command.power_kw.shown(), none);
    }
    if fault@ == command.mode.name() + " requires a non-zero TTL"@ {
        assert(fault@ =~= none + command.mode.name() + " requires a non-zero TTL"@);
        lemma_mentions(fault@, none, command.mode.name(), " requires a non-zero TTL"@);
    }
}

} // verus!

//! Configuration-driven inverter construction.
use crate::command::Command;
use crate::decimal::Decimal;
use crate::driver::Inverter;
use crate::error::Error;
use crate::foxess::registers::{h1_g2, is_h1_g2};
use crate::foxess::RegisterMap;
use crate::mock::guarantees::{law_a_set_charge_is_stored, ticks_in, ticks_when_full};
use crate::mock::relay::{check_slave, slave_checked};
use crate::mock::simulation::{limited, Simulation, FULL_SOC, MIN_CAPACITY};
use crate::mock::MockInverter;
use crate::mode::Mode;
use crate::text::{debug_str, same_text, str_debug_text};
use vstd::prelude::*;

verus! {

/// The unit that a FoxESS inverter answers to unless told otherwise.
pub const FOXESS_UNIT: u8 = 247;

/// Mock telemetry and physical limits used when opening a mock driver.
#[derive(Debug, Clone, Copy, PartialEq)]
pub struct MockOptions {
    /// Usable battery capacity in kilowatt-hours.
    pub capacity_kwh: Decimal,
    /// Maximum charge or discharge power in kilowatts.
    pub max_power_kw: Decimal,
    /// Initial battery state of charge in percent.
    pub soc_pct: Decimal,
    /// Simulated household load in kilowatts.
    pub load_kw: Decimal,
    /// Simulated PV generation in kilowatts.
    pub solar_kw: Decimal,
}

impl MockOptions {
    /// The simulation that starts from these options, each clamped as
    /// [`MockInverter`] clamps it.
    pub open spec fn simulation(self) -> Simulation {
        (Simulation {
            capacity: limited(self.capacity_kwh, MIN_CAPACITY as int, i128::MAX as int) as i128,
            max_power: self.max_power_kw.floored(0),
            stored: 0,
            spare: 0,
            load: self.load_kw.floored(0),
            solar: self.solar_kw.floored(0),
            command: Command::self_use(),
            since: 0,
        }).at_soc(limited(self.soc_pct, 0, FULL_SOC as int))
    }
}

impl Default for MockOptions {
    fn default() -> (r: Self)
        ensures
            r == (MockOptions {
                capacity_kwh: Decimal::Finite(10_000_000_000_000_000),
                max_power_kw: Decimal::Finite(5_000_000_000_000_000),
                soc_pct: Decimal::Finite(50_000_000_000_000_000),
                load_kw: Decimal::Finite(400_000_000_000_000),
                solar_kw: Decimal::Finite(0),
            }),
    {
        MockOptions {
            capacity_kwh: Decimal::Finite(10_000_000_000_000_000),
            max_power_kw: Decimal::Finite(5_000_000_000_000_000),
            soc_pct: Decimal::Finite(50_000_000_000_000_000),
            load_kw: Decimal::Finite(400_000_000_000_000),
            solar_kw: Decimal::Finite(0),
        }
    }
}

/// Driver selection and connection settings for [`open`].
#[derive(Debug, Clone, Copy, PartialEq)]
pub struct OpenOptions<'a> {
    /// Driver identifier: `mock`, `mock-relay` or `foxess`.
    pub kind: &'a str,
    /// Serial device path used by hardware-backed drivers.
    pub serial_port: &'a str,
    /// Serial baud rate used by hardware-backed drivers.
    pub baud_rate: u32,
    /// Modbus unit/slave identifier. FoxESS uses 247 when this is zero.
    pub unit_id: u8,
    /// Settings used by `mock` and `mock-relay`.
    pub mock: MockOptions,
}

/// The selected driver, as far as it can be made without opening a port.
pub enum Opening<'a> {
    /// A mock, ready for use.
    Mock(MockInverter),
    /// A mock that wants a relay on this port; attach it with
    /// [`MockInverter::with_waveshare_relay`].
    MockRelay {
        /// The mock.
        mock: MockInverter,
        /// The relay's serial port.
        serial_port: &'a str,
        /// The port's baud rate.
        baud_rate: u32,
        /// The relay's address.
        slave: u8,
    },
    /// A FoxESS inverter on this port; make it with
    /// [`crate::foxess::FoxEss::new`].
    FoxEss {
        /// The inverter's serial port.
        serial_port: &'a str,
        /// The port's baud rate.
        baud_rate: u32,
        /// The inverter's Modbus unit.
        unit_id: u8,
        /// The inverter's registers.
        map: &'static RegisterMap,
    },
}

/// The Modbus unit meant by a configured one.
pub open spec fn unit_meant(unit_id: u8) -> u8 {
    if unit_id == 0 {
        FOXESS_UNIT
    } else {
        unit_id
    }
}

/// `r` is what selecting a driver by `options` gives. A mock never stands in
/// for hardware.
pub open spec fn opened<'a>(options: OpenOptions<'a>, r: Result<Opening<'a>, Error>) -> bool {
    if options.kind@ == "mock"@ {
        r matches Ok(Opening::Mock(mock)) && mock.valid() && mock.sim()
            == options.mock.simulation()
    } else if options.kind@ == "mock-relay"@ {
        if options.unit_id == 0 {
            r matches Err(e) && slave_checked(0, Err(e))
        } else {
            &&& r matches Ok(Opening::MockRelay { mock, serial_port, baud_rate, slave })
            &&& mock.valid()
            &&& mock.sim() == options.mock.simulation()
            &&& serial_port@ == options.serial_port@
            &&& baud_rate == options.baud_rate
            &&& slave == options.unit_id
        }
    } else if options.kind@ == "foxess"@ {
        &&& r matches Ok(Opening::FoxEss { serial_port, baud_rate, unit_id, map })
        &&& serial_port@ == options.serial_port@
        &&& baud_rate == options.baud_rate
        &&& unit_id == unit_meant(options.unit_id)
        &&& is_h1_g2(*map)
        &&& map.decodable()
    } else {
        r matches Err(Error::Unsupported(fault)) && fault@ == "unknown inverter type "@
            + str_debug_text(options.kind@) + "; expected mock, mock-relay or foxess"@
    }
}

/// A mock with these options.
pub fn mock(options: MockOptions) -> (r: MockInverter)
    ensures
        r.valid(),
        r.sim() == options.simulation(),
{
    MockInverter::new().with_capacity_kwh(options.capacity_kwh).with_max_power_kw(
        options.max_power_kw,
    ).with_soc_pct(options.soc_pct).with_load_kw(options.load_kw).with_solar_kw(options.solar_kw)
}

/// Open the selected inverter without substituting a mock after failure.
///
/// What needs a serial port is returned as far as it can be made without one.
pub fn open<'a>(options: OpenOptions<'a>) -> (r: Result<Opening<'a>, Error>)
    ensures
        opened(options, r),
{
    proof {
        reveal_strlit("mock");
        reveal_strlit("mock-relay");
        reveal_strlit("foxess");
        assert("mock"@.len() == 4);
        assert("mock-relay"@.len() == 10);
        assert("foxess"@.len() == 6);
    }
    if same_text(options.kind, "mock") {
        Ok(Opening::Mock(mock(options.mock)))
    } else if same_text(options.kind, "mock-relay") {
        match check_slave(options.unit_id) {
            Ok(()) => Ok(
                Opening::MockRelay {
                    mock: mock(options.mock),
                    serial_port: options.serial_port,
                    baud_rate: options.baud_rate,
                    slave: options.unit_id,
                },
            ),
            Err(e) => Err(e),
        }
    } else if same_text(options.kind, "foxess") {
        Ok(
            Opening::FoxEss {
                serial_port: options.serial_port,
                baud_rate: options.baud_rate,
                unit_id: if options.unit_id == 0 {
                    FOXESS_UNIT
                } else {
                    options.unit_id
                },
                map: h1_g2(),
            },
        )
    } else {
        Err(
            Error::Unsupported(
                "unknown inverter type ".to_owned().concat(
                    debug_str(options.kind).as_str(),
                ).concat("; expected mock, mock-relay or foxess"),
            ),
        )
    }
}

/// A mock starts from its options as they are, as far as they are physically
/// meaningful: a capacity of at least 1 Wh, powers that are not negative, and a
/// state of charge between 0 and 100 percent, stored to the tick. It starts in
/// passive.
pub proof fn law_options_are_taken_as_given(options: MockOptions)
    ensures
        ({
            let sim = options.simulation();
            &&& options.capacity_kwh matches Decimal::Finite(n) ==> (n >= 1_000_000_000_000
                ==> sim.capacity == n)
            &&& Decimal::Finite(0).le(options.max_power_kw) ==> sim.max_power
                == options.max_power_kw
            &&& Decimal::Finite(0).le(options.load_kw) ==> sim.load == options.load_kw
            &&& Decimal::Finite(0).le(options.solar_kw) ==> sim.solar == options.solar_kw
            &&& options.soc_pct matches Decimal::Finite(n) ==> (0 <= n <= 100_000_000_000_000_000
                ==> ticks_in(sim) == sim.capacity * 36 * n)
            &&& sim.command.mode == Mode::Passive
        }),
{
    let empty = Simulation {
        capacity: limited(options.capacity_kwh, MIN_CAPACITY as int, i128::MAX as int) as i128,
        max_power: options.max_power_kw.floored(0),
        stored: 0,
        spare: 0,
        load: options.load_kw.floored(0),
        solar: options.solar_kw.floored(0),
        command: Command::self_use(),
        since: 0,
    };
    assert(empty.wf());
    law_a_set_charge_is_stored(empty, limited(options.soc_pct, 0, FULL_SOC as int));
}

/// An option that is not physically meaningful falls to the nearest value that
/// is: a capacity to 1 Wh, a power to zero, a state of charge to 0 or 100
/// percent, and what is not a number to the least.
pub proof fn law_nonsense_options_are_clamped(options: MockOptions)
    ensures
        ({
            let sim = options.simulation();
            &&& options.capacity_kwh is Nan || options.capacity_kwh.lt(
                Decimal::Finite(1_000_000_000_000),
            ) ==> sim.capacity == 1_000_000_000_000
            &&& !Decimal::Finite(0).le(options.max_power_kw) ==> sim.max_power
                == Decimal::Finite(0)
            &&& !Decimal::Finite(0).le(options.load_kw) ==> sim.load == Decimal::Finite(0)
            &&& !Decimal::Finite(0).le(options.solar_kw) ==> sim.solar == Decimal::Finite(0)
            &&& !Decimal::Finite(0).le(options.soc_pct) ==> ticks_in(sim) == 0
            &&& Decimal::Finite(100_000_000_000_000_000).lt(options.soc_pct) ==> ticks_in(sim)
                == ticks_when_full(sim)
        }),
{
    let empty = Simulation {
        capacity: limited(options.capacity_kwh, MIN_CAPACITY as int, i128::MAX as int) as i128,
        max_power: options.max_power_kw.floored(0),
        stored: 0,
        spare: 0,
        load: options.load_kw.floored(0),
        solar: options.solar_kw.floored(0),
        command: Command::self_use(),
        since: 0,
    };
    assert(empty.wf());
    law_a_set_charge_is_stored(empty, limited(options.soc_pct, 0, FULL_SOC as int));
    let sim = options.simulation();
    assert(sim.capacity * 36 * 0 == 0) by (nonlinear_arith);
    assert(sim.capacity * 36 * 100_000_000_000_000_000 == sim.capacity * 3_600_000_000_000_000_000)
        by (nonlinear_arith);
}

/// The driver selected is the one asked for by name, on the port, speed and
/// unit given; a FoxESS inverter has unit 247 unless told otherwise, and the
/// relay needs a unit. A mock never stands in for hardware, and a name that is
/// none of the three is refused.
pub proof fn law_the_driver_is_the_one_asked_for<'a>(
    options: OpenOptions<'a>,
    r: Result<Opening<'a>, Error>,
)
    requires
        opened(options, r),
    ensures
        options.kind@ == "mock"@ ==> (r matches Ok(Opening::Mock(mock)) && mock.sim()
            == options.mock.simulation()),
        options.kind@ == "mock-relay"@ && options.unit_id == 0 ==> (r matches Err(Error::Range(_))),
        options.kind@ == "mock-relay"@ && options.unit_id != 0 ==> (r matches Ok(
            Opening::MockRelay { mock, serial_port, baud_rate, slave },
        ) && mock.sim() == options.mock.simulation() && serial_port@ == options.serial_port@
            && baud_rate == options.baud_rate && slave == options.unit_id),
        options.kind@ == "foxess"@ ==> (r matches Ok(
            Opening::FoxEss { serial_port, baud_rate, unit_id, map },
        ) && serial_port@ == options.serial_port@ && baud_rate == options.baud_rate && unit_id == (
        if options.unit_id == 0 {
            247
        } else {
            options.unit_id
        }) && is_h1_g2(*map)),
        options.kind@ != "mock"@ && options.kind@ != "mock-relay"@ && options.kind@ != "foxess"@
            ==> (r matches Err(Error::Unsupported(_))),
{
    reveal_strlit("mock");
    reveal_strlit("mock-relay");
    reveal_strlit("foxess");
    assert("mock"@.len() == 4);
    assert("mock-relay"@.len() == 10);
    assert("foxess"@.len() == 6);
}

} // verus!

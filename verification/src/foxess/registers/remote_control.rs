//! The H1 family's remote-control block.
//!
//! Semantics observed by the `foxess_modbus` project and in hardware reports:
//!
//! * Enabling: write `1` to [`remote_enable`], which resets the timeout on an
//!   H1 G2, and then write [`timeout_set`]. These registers reject
//!   multi-register writes; use function 6.
//! * While enabled, [`active_power`] sets inverter power: positive
//!   exports/discharges, negative imports/charges (opposite sign to
//!   [`crate::Telemetry::battery_kw`]; a write path must negate).
//! * [`timeout_set`] sets the watchdog period in seconds; writing
//!   [`active_power`] loads/reloads its countdown. If the controller stops
//!   writing, the inverter reverts *by itself* to the work mode in
//!   [`work_mode`]. The driver sets that fallback to self-use before enabling
//!   remote control, so expiry means [`crate::Mode::Passive`].
//! * The inverter does **not** respect [`max_soc`] while remote-control
//!   charging; it does respect [`min_soc`] and the max discharge current while
//!   discharging.
//! * The FoxESS app's "strategy periods" drive the same registers, so a phone
//!   app is a competing writer, not a passive observer.
//!
//! Addresses are common to H1 G1 and G2; the H3 family differs.
use crate::register::{RegKind, RegisterDef};
use vstd::prelude::*;

verus! {

/// Address of [`remote_enable`].
pub const REMOTE_ENABLE: u16 = 44000;

/// Address of [`timeout_set`].
pub const TIMEOUT_SET: u16 = 44001;

/// Address of [`active_power`].
pub const ACTIVE_POWER: u16 = 44002;

/// Address of [`work_mode`].
pub const WORK_MODE: u16 = 41000;

/// Address of [`min_soc`].
pub const MIN_SOC: u16 = 41009;

/// Address of [`max_soc`].
pub const MAX_SOC: u16 = 41010;

/// The value of [`remote_enable`] that enables remote control.
pub const ENABLED: u16 = 1;

/// The value of [`remote_enable`] that disables remote control.
pub const DISABLED: u16 = 0;

/// The value of [`work_mode`] that selects self-use.
pub const SELF_USE: u16 = 0;

/// Remote control on/off: write 1 to enable, 0 to disable.
pub fn remote_enable() -> (r: RegisterDef)
    ensures
        r == (RegisterDef {
            name: "remote_enable",
            address: 44000,
            kind: RegKind::Holding,
            words: 1,
            scale: 1_000_000_000_000_000,
            signed: false,
        }),
{
    RegisterDef::holding("remote_enable", REMOTE_ENABLE)
}

/// [`timeout_set`] as a value.
pub open spec fn timeout_register() -> RegisterDef {
    RegisterDef {
        name: "timeout_set",
        address: 44001,
        kind: RegKind::Holding,
        words: 1,
        scale: 1_000_000_000_000_000,
        signed: false,
    }
}

/// Watchdog reload value, seconds.
pub fn timeout_set() -> (r: RegisterDef)
    ensures
        r == timeout_register(),
{
    RegisterDef::holding("timeout_set", TIMEOUT_SET)
}

/// [`active_power`] as a value.
pub open spec fn power_register() -> RegisterDef {
    RegisterDef {
        name: "active_power",
        address: 44002,
        kind: RegKind::Holding,
        words: 1,
        scale: 1_000_000_000_000,
        signed: true,
    }
}

/// Power command, kilowatts (the raw register is watts).
/// Positive = export, negative = import.
pub fn active_power() -> (r: RegisterDef)
    ensures
        r == power_register(),
{
    RegisterDef::holding("active_power", ACTIVE_POWER).signed().scale(1_000_000_000_000)
}

/// Work mode the inverter reverts to when the watchdog expires:
/// 0 self-use, 1 feed-in first, 2 back-up.
pub fn work_mode() -> (r: RegisterDef)
    ensures
        r == (RegisterDef {
            name: "work_mode",
            address: 41000,
            kind: RegKind::Holding,
            words: 1,
            scale: 1_000_000_000_000_000,
            signed: false,
        }),
{
    RegisterDef::holding("work_mode", WORK_MODE)
}

/// Discharge floor, percent. Respected during remote control.
pub fn min_soc() -> (r: RegisterDef)
    ensures
        r == (RegisterDef {
            name: "min_soc",
            address: 41009,
            kind: RegKind::Holding,
            words: 1,
            scale: 1_000_000_000_000_000,
            signed: false,
        }),
{
    RegisterDef::holding("min_soc", MIN_SOC)
}

/// Charge ceiling, percent. NOT respected during remote control.
pub fn max_soc() -> (r: RegisterDef)
    ensures
        r == (RegisterDef {
            name: "max_soc",
            address: 41010,
            kind: RegKind::Holding,
            words: 1,
            scale: 1_000_000_000_000_000,
            signed: false,
        }),
{
    RegisterDef::holding("max_soc", MAX_SOC)
}

} // verus!

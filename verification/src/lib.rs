//! Control hybrid solar/battery inverters over Modbus.
//!
//! [`Inverter`] is the interface that every driver implements: what it can do,
//! how it is read and how it is commanded. [`InverterExt`] adds a method for
//! each command and each reading. There are drivers for FoxESS H1 inverters
//! ([`foxess`]) and for a simulated one ([`mock`]), and [`open`] selects one
//! from configuration.
//!
//! # Sign conventions
//!
//! | Field | Units and sign |
//! |---|---|
//! | `soc_pct` | Battery state of charge, percent |
//! | `battery_kw` | Positive when charging, negative when discharging |
//! | `grid_kw` | Positive when importing, negative when exporting |
//! | `load_kw` | Household consumption, non-negative |
//! | `solar_kw` | PV generation, non-negative; zero when unavailable |
//!
//! # Commands end by themselves
//!
//! Every override carries a time to live, and a driver accepts it only if the
//! inverter itself will end it in time: [`Applied::expiry`] is then a non-zero
//! one-shot inverter timeout no longer than the time to live. A controller
//! that dies leaves the inverter to return to self-use on its own. What each
//! driver ensures is stated in its contracts and proved; the proofs named
//! `law_` say what holds of the library as a whole.
//!
//! # Numbers
//!
//! Powers, percentages and energies are [`Decimal`]s: exact multiples of
//! 10^-15, or one of the values that are no quantity.

pub mod commissioning;
pub mod crc;
pub mod decimal;
pub mod factory;
pub mod foxess;
pub mod frame;
pub mod mock;
pub mod modbus;
pub mod record;
pub mod register;
pub mod text;
pub mod time;
mod capabilities;
mod command;
mod driver;
mod error;
mod mode;
mod telemetry;

pub use capabilities::Capabilities;
pub use command::{Applied, Command, Expiry};
pub use decimal::Decimal;
pub use driver::{Inverter, InverterExt};
pub use error::Error;
pub use factory::{open, MockOptions, OpenOptions};
pub use mode::{DischargeTarget, Mode, ParseModeError};
pub use telemetry::Telemetry;

//! FoxESS H1-shaped Modbus maps. Every address is unverified.
//!
//! Addresses live here and nowhere else, so a map can be checked against
//! hardware without reading driver code. They come from the `foxess_modbus`
//! project (MIT).
pub mod remote_control;

use crate::register::{RegKind, RegisterDef};
use vstd::prelude::*;

verus! {

/// The registers a FoxESS telemetry read needs, for one model generation.
///
/// Raw FoxESS power registers are watts, and battery/grid use the opposite
/// sign to this crate (positive raw means discharging and exporting), so
/// power registers carry a scale of a thousandth, negated where the sign
/// flips, to land on crate kilowatts.
pub struct RegisterMap {
    /// Human-readable model identifier, surfaced in
    /// [`crate::Capabilities::model`].
    pub model: &'static str,
    /// Battery state of charge, percent.
    pub battery_soc: RegisterDef,
    /// Battery power, kilowatts, normalised so positive means charging.
    pub battery_power: RegisterDef,
    /// Grid power, kilowatts, normalised so positive means importing.
    pub grid_power: RegisterDef,
    /// Household consumption, kilowatts.
    pub load_power: RegisterDef,
    /// Per-string PV generation; summed into [`crate::Telemetry::solar_kw`].
    pub pv_powers: &'static [RegisterDef],
}

impl RegisterMap {
    /// Every register in the map can be decoded.
    pub open spec fn decodable(self) -> bool {
        &&& self.battery_soc.decodable()
        &&& self.battery_power.decodable()
        &&& self.grid_power.decodable()
        &&& self.load_power.decodable()
        &&& forall|i: int|
            0 <= i < self.pv_powers@.len() ==> (#[trigger] self.pv_powers@[i]).decodable()
    }

    /// The registers in the order in which they are read.
    pub open spec fn in_order(self) -> Seq<RegisterDef> {
        seq![self.battery_soc, self.battery_power, self.grid_power, self.load_power]
            + self.pv_powers@
    }

    /// Whether every register in the map can be decoded.
    pub fn can_decode(&self) -> (r: bool)
        ensures
            r == self.decodable(),
    {
        let mut i: usize = 0;
        while i < self.pv_powers.len()
            invariant
                i <= self.pv_powers.len(),
                forall|j: int| 0 <= j < i ==> (#[trigger] self.pv_powers@[j]).decodable(),
            decreases self.pv_powers.len() - i,
        {
            if !self.pv_powers[i].can_decode() {
                return false;
            }
            i += 1;
        }
        self.battery_soc.can_decode() && self.battery_power.can_decode()
            && self.grid_power.can_decode() && self.load_power.can_decode()
    }

    /// No PV register can decode to a negative number.
    pub open spec fn pv_counts_up(self) -> bool {
        forall|i: int|
            0 <= i < self.pv_powers@.len() ==> {
                let pv = #[trigger] self.pv_powers@[i];
                !pv.signed && pv.words <= 3 && pv.scale >= 0
            }
    }
}

/// A single-word register.
pub open spec fn word(
    name: &'static str,
    address: u16,
    kind: RegKind,
    scale: int,
    signed: bool,
) -> RegisterDef {
    RegisterDef { name, address, kind, words: 1, scale: scale as i128, signed }
}

/// `map` is the H1 G1 map.
pub open spec fn is_h1_g1(map: RegisterMap) -> bool {
    &&& map.model@ == "FoxESS H1 G1 (RS485, community map, unverified)"@
    &&& map.battery_soc == word("battery_soc", 11036, RegKind::Input, 1_000_000_000_000_000, false)
    &&& map.battery_power == word("battery_power", 11008, RegKind::Input, -1_000_000_000_000, true)
    &&& map.grid_power == word("grid_ct", 11021, RegKind::Input, -1_000_000_000_000, true)
    &&& map.load_power == word("load_power", 11023, RegKind::Input, 1_000_000_000_000, true)
    &&& map.pv_powers@ == seq![
        word("pv1_power", 11002, RegKind::Input, 1_000_000_000_000, false),
        word("pv2_power", 11005, RegKind::Input, 1_000_000_000_000, false),
    ]
}

/// H1/AC1/AIO-H1 first generation over RS485: input registers.
pub fn h1_g1() -> (r: &'static RegisterMap)
    ensures
        is_h1_g1(*r),
        r.decodable(),
        r.pv_counts_up(),
{
    &RegisterMap {
        model: "FoxESS H1 G1 (RS485, community map, unverified)",
        battery_soc: RegisterDef {
            name: "battery_soc",
            address: 11036,
            kind: RegKind::Input,
            words: 1,
            scale: 1_000_000_000_000_000,
            signed: false,
        },
        // Raw: watts, positive = discharging. Scaled to charge-positive kW.
        battery_power: RegisterDef {
            name: "battery_power",
            address: 11008,
            kind: RegKind::Input,
            words: 1,
            scale: -1_000_000_000_000,
            signed: true,
        },
        // Raw: watts, positive = exporting. Scaled to import-positive kW.
        grid_power: RegisterDef {
            name: "grid_ct",
            address: 11021,
            kind: RegKind::Input,
            words: 1,
            scale: -1_000_000_000_000,
            signed: true,
        },
        load_power: RegisterDef {
            name: "load_power",
            address: 11023,
            kind: RegKind::Input,
            words: 1,
            scale: 1_000_000_000_000,
            signed: true,
        },
        pv_powers: &[
            RegisterDef {
                name: "pv1_power",
                address: 11002,
                kind: RegKind::Input,
                words: 1,
                scale: 1_000_000_000_000,
                signed: false,
            },
            RegisterDef {
                name: "pv2_power",
                address: 11005,
                kind: RegKind::Input,
                words: 1,
                scale: 1_000_000_000_000,
                signed: false,
            },
        ],
    }
}

/// `map` is the H1 G2 map.
pub open spec fn is_h1_g2(map: RegisterMap) -> bool {
    &&& map.model@ == "FoxESS H1 G2 (RS485, community map, unverified)"@
    &&& map.battery_soc == word("battery_soc", 31024, RegKind::Holding, 1_000_000_000_000_000, false)
    &&& map.battery_power == word("battery_power", 31022, RegKind::Holding, -1_000_000_000_000, true)
    &&& map.grid_power == word("grid_ct", 31014, RegKind::Holding, -1_000_000_000_000, true)
    &&& map.load_power == word("load_power", 31016, RegKind::Holding, 1_000_000_000_000, true)
    &&& map.pv_powers@ == seq![
        word("pv1_power", 39280, RegKind::Holding, 1_000_000_000_000, false),
        word("pv2_power", 39282, RegKind::Holding, 1_000_000_000_000, false),
    ]
}

/// H1-G2, AC1-G2 and P1 over RS485: holding registers.
///
/// The G2 does not serve the G1's 11000-range input registers; reading the
/// wrong generation's map fails rather than returning wrong numbers.
pub fn h1_g2() -> (r: &'static RegisterMap)
    ensures
        is_h1_g2(*r),
        r.decodable(),
        r.pv_counts_up(),
{
    &RegisterMap {
        model: "FoxESS H1 G2 (RS485, community map, unverified)",
        battery_soc: RegisterDef {
            name: "battery_soc",
            address: 31024,
            kind: RegKind::Holding,
            words: 1,
            scale: 1_000_000_000_000_000,
            signed: false,
        },
        // Raw: watts, positive = discharging. Scaled to charge-positive kW.
        battery_power: RegisterDef {
            name: "battery_power",
            address: 31022,
            kind: RegKind::Holding,
            words: 1,
            scale: -1_000_000_000_000,
            signed: true,
        },
        // Raw: watts, positive = exporting. Scaled to import-positive kW.
        grid_power: RegisterDef {
            name: "grid_ct",
            address: 31014,
            kind: RegKind::Holding,
            words: 1,
            scale: -1_000_000_000_000,
            signed: true,
        },
        load_power: RegisterDef {
            name: "load_power",
            address: 31016,
            kind: RegKind::Holding,
            words: 1,
            scale: 1_000_000_000_000,
            signed: true,
        },
        pv_powers: &[
            RegisterDef {
                name: "pv1_power",
                address: 39280,
                kind: RegKind::Holding,
                words: 1,
                scale: 1_000_000_000_000,
                signed: false,
            },
            RegisterDef {
                name: "pv2_power",
                address: 39282,
                kind: RegKind::Holding,
                words: 1,
                scale: 1_000_000_000_000,
                signed: false,
            },
        ],
    }
}

/// No register of one generation can be mistaken for one of the other: the G1
/// map lives in the input table and the G2 map in the holding table.
pub proof fn law_the_generations_share_no_register(g1: RegisterMap, g2: RegisterMap, i: int, j: int)
    requires
        is_h1_g1(g1),
        is_h1_g2(g2),
        0 <= i < g1.in_order().len(),
        0 <= j < g2.in_order().len(),
    ensures
        g1.in_order()[i].kind == RegKind::Input,
        g2.in_order()[j].kind == RegKind::Holding,
{
}

} // verus!

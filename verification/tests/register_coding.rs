use inverter::register::{decode, encode, RegKind, RegisterDef};
use inverter::{Decimal, Error};

fn quantity(x: f64) -> Decimal {
    if x.is_nan() {
        return Decimal::Nan;
    }
    let text = format!("{}", x.abs());
    let (whole, fraction) = text.split_once('.').unwrap_or((&text, ""));
    match format!("{whole}{fraction:0<15}").parse::<i128>() {
        Ok(parts) if x < 0.0 => Decimal::parts(-parts),
        Ok(parts) => Decimal::parts(parts),
        Err(_) if x < 0.0 => Decimal::NegInfinity,
        Err(_) => Decimal::PosInfinity,
    }
}

fn scale(x: f64) -> i128 {
    match quantity(x) {
        Decimal::Finite(parts) => parts,
        _ => panic!("no scale"),
    }
}

#[test]
fn decodes_a_scaled_unsigned_word() {
    let reg = RegisterDef::input("soc", 1).scale(scale(0.1));
    assert_eq!(decode(&reg, &[655]), quantity(65.5));
}

#[test]
fn decodes_a_negative_two_word_value() {
    let reg = RegisterDef::input("power", 1).words(2).signed();
    // -1000 as a 32-bit two's-complement value.
    assert_eq!(decode(&reg, &[0xFFFF, 0xFC18]), quantity(-1000.0));
}

#[test]
fn encodes_and_rejects_out_of_range_values() {
    let reg = RegisterDef::holding("current", 1).scale(scale(0.1));
    assert_eq!(encode(&reg, quantity(12.3)).unwrap(), 123);
    assert!(encode(&reg, quantity(-1.0)).is_err());
    assert!(encode(&reg, quantity(1e9)).is_err());
    assert!(encode(&reg, quantity(f64::NAN)).is_err());
    assert!(encode(&reg, quantity(f64::INFINITY)).is_err());
}

#[test]
fn encodes_negative_values_only_for_signed_registers() {
    let signed = RegisterDef::holding("setpoint", 1).signed();
    assert_eq!(
        encode(&signed, quantity(-1000.0)).unwrap(),
        (-1000i16) as u16
    );
    assert!(encode(&signed, quantity(40_000.0)).is_err());
}

#[test]
fn refuses_to_encode_a_multi_word_register() {
    let wide = RegisterDef::holding("wide", 1).words(2);
    assert!(encode(&wide, quantity(1.0)).is_err());
}

#[test]
fn constructors_set_the_register_table() {
    assert_eq!(RegisterDef::input("i", 1).kind, RegKind::Input);
    assert_eq!(RegisterDef::holding("h", 1).kind, RegKind::Holding);
}

#[test]
fn a_negative_scale_normalises_an_inverted_sign_convention() {
    // How the FoxESS maps flip discharge-positive raw values.
    let reg = RegisterDef::input("battery", 1).signed().scale(scale(-1.0));
    assert_eq!(decode(&reg, &[500]), quantity(-500.0));
    assert_eq!(decode(&reg, &[(-500i16) as u16]), quantity(500.0));
}

#[test]
fn decodes_the_full_unsigned_range_without_wrapping() {
    let one = RegisterDef::input("one", 1);
    assert_eq!(decode(&one, &[u16::MAX]), quantity(65_535.0));
    let two = RegisterDef::input("two", 1).words(2);
    assert_eq!(
        decode(&two, &[u16::MAX, u16::MAX]),
        quantity(4_294_967_295.0)
    );
}

#[test]
fn encode_rounds_to_the_nearest_raw_unit() {
    let reg = RegisterDef::holding("current", 1).scale(scale(0.1));
    assert_eq!(encode(&reg, quantity(12.34)).unwrap(), 123);
    assert_eq!(encode(&reg, quantity(12.38)).unwrap(), 124);
}

#[test]
fn encode_accepts_the_signed_boundaries_exactly() {
    let reg = RegisterDef::holding("setpoint", 1).signed();
    assert_eq!(encode(&reg, quantity(i16::MAX as f64)).unwrap(), 0x7FFF);
    assert_eq!(encode(&reg, quantity(i16::MIN as f64)).unwrap(), 0x8000);
    assert!(encode(&reg, quantity(i16::MAX as f64 + 1.0)).is_err());
    assert!(encode(&reg, quantity(i16::MIN as f64 - 1.0)).is_err());
}

#[test]
fn decode_then_encode_round_trips_scaled_values() {
    let reg = RegisterDef::holding("current", 1).scale(scale(0.1));
    for raw in [0u16, 1, 703, 65_535] {
        let value = decode(&reg, &[raw]);
        assert_eq!(encode(&reg, value).unwrap(), raw);
    }
}

#[test]
fn halves_round_away_from_zero() {
    let reg = RegisterDef::holding("setpoint", 1).signed();
    assert_eq!(encode(&reg, quantity(2.5)).unwrap(), 3);
    assert_eq!(encode(&reg, quantity(-2.5)).unwrap(), (-3i16) as u16);
    assert_eq!(encode(&reg, quantity(-0.4)).unwrap(), 0);
}

#[test]
fn a_refused_value_says_why() {
    let fault = |r: Result<u16, Error>| r.unwrap_err().text();
    let unsigned = RegisterDef::holding("current", 1).scale(scale(0.1));
    assert_eq!(
        fault(encode(&unsigned, quantity(-1.0))),
        "value out of range: value -1 out of range for register current (raw -10, valid 0..=65535)"
    );
    let signed = RegisterDef::holding("setpoint", 1).signed();
    assert_eq!(
        fault(encode(&signed, quantity(40_000.0))),
        "value out of range: value 40000 out of range for signed register setpoint (raw 40000, valid -32768..=32767)"
    );
    assert_eq!(
        fault(encode(&signed, Decimal::Nan)),
        "value out of range: value NaN is not finite for register setpoint"
    );
    assert_eq!(
        fault(encode(&signed.words(2), quantity(1.0))),
        "value out of range: setpoint spans 2 words; multi-word writes are not supported"
    );
}

#[test]
fn decodes_a_negative_three_word_value() {
    let reg = RegisterDef::input("energy", 1).words(3).signed();
    assert_eq!(
        decode(&reg, &[0xFFFF, 0xFFFF, 0xFFFF]),
        quantity(-1.0)
    );
    assert_eq!(decode(&reg, &[0, 1, 0]), quantity(65_536.0));
}

#[test]
fn a_value_too_large_to_count_is_infinite() {
    let reg = RegisterDef::input("energy", 1).words(3).scale(i128::MAX);
    assert_eq!(decode(&reg, &[0, 0, 1]), Decimal::parts(i128::MAX));
    assert_eq!(decode(&reg, &[0, 0, 2]), Decimal::PosInfinity);
    let reg = reg.scale(i128::MIN);
    assert_eq!(decode(&reg, &[0, 0, 1]), Decimal::parts(i128::MIN));
    assert_eq!(decode(&reg, &[0, 0, 2]), Decimal::NegInfinity);
    assert_eq!(decode(&reg, &[0, 0, 0]), quantity(0.0));
}

//! One bounded commissioning command for a FoxESS H1 G2.
//!
//! The command line is parsed and bounded here, the charge range is worked out
//! from the inverter's own limits, and [`trial::Trial`] decides what to do next as
//! readings and acknowledgements come in. Talking to the line, keeping time
//! and listening for signals is left to the program around it.
pub mod guarantees;
pub mod trial;

use crate::command::Command;
use crate::decimal::{Decimal, UNIT};
use crate::error::Error;
use crate::foxess::registers::remote_control::{max_soc, min_soc};
use crate::modbus::{read_words, register_read, reply_checked, ModbusBus};
use crate::mode::{DischargeTarget, Mode};
use crate::register::{RegKind, RegisterDef};
use crate::telemetry::Telemetry;
use crate::text::{debug_str, same_text, str_debug_text};
use crate::time::{duration_nanos, from_secs, NANOS_PER_SEC};
use std::time::{Duration, Instant};
use vstd::prelude::*;

verus! {

/// The most power that can be asked for: five kilowatts.
pub const MAX_POWER: i128 = 5 * UNIT;

/// The longest command, in seconds.
pub const MAX_SECONDS: u64 = 300;

/// The lowest charge level at which a test may run, in percent.
pub const FLOOR_SOC: u16 = 15;

/// The highest charge level at which a test may run, in percent.
pub const CEILING_SOC: u16 = 95;

/// The age past which a reading says nothing, in seconds.
pub const MAX_AGE_SECS: u128 = 5;

/// The pause between readings, in seconds.
pub const POLL_SECS: u128 = 2;

/// How the tool is used.
pub open spec fn usage_text() -> Seq<char> {
    "usage: scripts/foxess-write PORT passive\n       scripts/foxess-write PORT <charge|export> KW SECONDS\nH1 G2, 9600 baud, unit 247; power > 0 and <= 5 kW; duration 1..=300 seconds."@
}

/// How the tool is used.
pub fn usage() -> (r: &'static str)
    ensures
        r@ == usage_text(),
{
    "usage: scripts/foxess-write PORT passive\n       scripts/foxess-write PORT <charge|export> KW SECONDS\nH1 G2, 9600 baud, unit 247; power > 0 and <= 5 kW; duration 1..=300 seconds."
}

/// The number that decimal digits spell.
pub open spec fn digits_value(digits: Seq<char>) -> nat
    decreases digits.len(),
{
    if digits.len() == 0 {
        0
    } else {
        digits_value(digits.drop_last()) * 10 + (digits.last() as nat - '0' as nat) as nat
    }
}

/// `s` is decimal digits and nothing else, and not nothing.
pub open spec fn all_digits(s: Seq<char>) -> bool {
    s.len() > 0 && forall|i: int|
        0 <= i < s.len() ==> '0' <= #[trigger] s[i] && s[i] <= '9'
}

/// `s` without a leading `+`.
pub open spec fn without_plus(s: Seq<char>) -> Seq<char> {
    if s.len() > 0 && s[0] == '+' {
        s.skip(1)
    } else {
        s
    }
}

/// The number in `s`: decimal digits and nothing else, but for a leading `+`.
pub open spec fn whole_number(s: Seq<char>) -> Option<nat> {
    if all_digits(without_plus(s)) {
        Some(digits_value(without_plus(s)))
    } else {
        None
    }
}

/// What the standard library says of a string that is no `u64`: the text of
/// the error that parsing it gives.
pub uninterp spec fn whole_number_fault(s: Seq<char>) -> Seq<char>;

/// `str::parse::<u64>` takes decimal digits after an optional `+`, and refuses
/// anything else and anything too large. The contract gives the text of the
/// refusal a name, [`whole_number_fault`], and says only that it depends on
/// nothing but the string.
#[verifier::external_body]
fn parse_whole(s: &str) -> (r: Result<u64, String>)
    ensures
        r is Ok <==> (whole_number(s@) is Some && whole_number(s@)->Some_0 <= u64::MAX),
        r matches Ok(n) ==> whole_number(s@) == Some(n as nat),
        r matches Err(fault) ==> fault@ == whole_number_fault(s@),
{
    match s.parse::<u64>() {
        Ok(n) => Ok(n),
        Err(e) => Err(e.to_string()),
    }
}

/// Power and duration are within the tool's bounds.
pub open spec fn within_bounds(power: Decimal, seconds: nat) -> bool {
    &&& power matches Decimal::Finite(p)
    &&& 0 < p <= MAX_POWER
    &&& 1 <= seconds <= MAX_SECONDS
}

/// `command` charges (or exports, when not `charging`) `power` for `seconds`.
pub open spec fn asks_for(command: Command, charging: bool, power: Decimal, seconds: nat) -> bool {
    &&& command.mode == if charging {
        Mode::ForceCharge
    } else {
        Mode::ForceDischarge
    }
    &&& command.target == if charging {
        DischargeTarget::HouseOnly
    } else {
        DischargeTarget::GridExport
    }
    &&& command.power_kw == power
    &&& command.ttl matches Some(ttl)
    &&& duration_nanos(ttl) == seconds * NANOS_PER_SEC
}

/// `r` refuses with `text`.
pub open spec fn refuses(r: Result<(String, Command), String>, text: Seq<char>) -> bool {
    r matches Err(fault) && fault@ == text
}

/// `r` is what the command line `args` means, where `power` is what its power
/// reads as.
pub open spec fn parsed(
    args: Seq<String>,
    power: Result<Decimal, String>,
    r: Result<(String, Command), String>,
) -> bool {
    if args.len() == 2 && args[1]@ == "passive"@ {
        if args[0]@.len() == 0 {
            refuses(r, "serial port must not be empty"@)
        } else {
            r matches Ok((port, command)) && port@ == args[0]@ && command == Command::self_use()
        }
    } else if args.len() == 4 && (args[1]@ == "charge"@ || args[1]@ == "export"@) {
        match (power, whole_number(args[3]@)) {
            (Err(fault), _) => refuses(r, fault@),
            (Ok(kw), Some(seconds)) if seconds <= u64::MAX => {
                if !within_bounds(kw, seconds) {
                    refuses(r, usage_text())
                } else if args[0]@.len() == 0 {
                    refuses(r, "serial port must not be empty"@)
                } else {
                    r matches Ok((port, command)) && port@ == args[0]@ && asks_for(
                        command,
                        args[1]@ == "charge"@,
                        kw,
                        seconds,
                    )
                }
            },
            _ => refuses(r, whole_number_fault(args[3]@)),
        }
    } else {
        refuses(r, usage_text())
    }
}

/// Whether a string is empty.
fn is_blank(s: &String) -> (r: bool)
    ensures
        r == (s@.len() == 0),
{
    proof {
        reveal_strlit("");
        assert(""@ =~= Seq::<char>::empty());
        assert(s@.len() == 0 ==> s@ =~= ""@);
    }
    same_text(s.as_str(), "")
}

/// Work out the port and the command from a command line, where `power` is
/// what its power, the third argument, reads as.
pub fn parse(args: &[String], power: Result<Decimal, String>) -> (r: Result<
    (String, Command),
    String,
>)
    ensures
        parsed(args@, power, r),
{
    proof {
        reveal_strlit("charge");
        reveal_strlit("export");
        assert("charge"@[0] == 'c');
        assert("export"@[0] == 'e');
    }
    let command: Command = if args.len() == 2 && same_text(args[1].as_str(), "passive") {
        Command::passive()
    } else if args.len() == 4 && (same_text(args[1].as_str(), "charge") || same_text(
        args[1].as_str(),
        "export",
    )) {
        let kw: Decimal = match power {
            Ok(kw) => kw,
            Err(fault) => {
                return Err(fault);
            },
        };
        let seconds: u64 = match parse_whole(args[3].as_str()) {
            Ok(seconds) => seconds,
            Err(fault) => {
                return Err(fault);
            },
        };
        let powered: bool = match kw {
            Decimal::Finite(p) => 0 < p && p <= MAX_POWER,
            _ => false,
        };
        if !powered || seconds < 1 || seconds > MAX_SECONDS {
            return Err(usage().to_owned());
        }
        let ttl: Duration = from_secs(seconds);
        if same_text(args[1].as_str(), "charge") {
            Command::charge(kw, ttl)
        } else {
            Command::export(kw, ttl)
        }
    } else {
        return Err(usage().to_owned());
    };
    if is_blank(&args[0]) {
        return Err("serial port must not be empty".to_owned());
    }
    Ok((args[0].as_str().to_owned(), command))
}

/// A command that the command line yields is passive, or an override of more
/// than nothing and at most five kilowatts for one to three hundred seconds.
pub proof fn law_parsed_commands_are_bounded(
    args: Seq<String>,
    power: Result<Decimal, String>,
    port: String,
    command: Command,
)
    requires
        parsed(args, power, Ok((port, command))),
    ensures
        port@.len() > 0,
        command == Command::self_use() || {
            &&& command.power_kw matches Decimal::Finite(p)
            &&& 0 < p <= MAX_POWER
            &&& command.ttl matches Some(ttl)
            &&& NANOS_PER_SEC <= duration_nanos(ttl) <= MAX_SECONDS * NANOS_PER_SEC
        },
{
}

/// What keeps a test from going on at this reading, if anything: a charge
/// level that is nonsense or stale, or that has reached the limit which the
/// command moves towards.
pub open spec fn reading_fault(
    soc: Decimal,
    age: nat,
    command: Command,
    min_soc: Decimal,
    max_soc: Decimal,
) -> Option<Seq<char>> {
    if !(Decimal::Finite(0).le(soc) && soc.le(Decimal::Finite((100 * UNIT) as i128))) || age > MAX_AGE_SECS
        * NANOS_PER_SEC {
        Some("invalid or stale battery charge reading"@)
    } else if command.mode == Mode::ForceCharge && max_soc.le(soc) {
        Some(
            "charge level "@ + soc.shown() + "% has reached the "@ + max_soc.shown()
                + "% test ceiling"@,
        )
    } else if command.mode == Mode::ForceDischarge && soc.le(min_soc) {
        Some(
            "charge level "@ + soc.shown() + "% has reached the "@ + min_soc.shown()
                + "% test floor"@,
        )
    } else {
        None
    }
}

/// `r` is the verdict that `fault` calls for.
pub open spec fn verdict(fault: Option<Seq<char>>, r: Result<(), String>) -> bool {
    match fault {
        Some(text) => r matches Err(fault) && fault@ == text,
        None => r is Ok,
    }
}

/// Judge a charge level that was read `age` ago.
pub fn check_level(
    soc_pct: Decimal,
    age: Duration,
    command: Command,
    min_soc: Decimal,
    max_soc: Decimal,
) -> (r: Result<(), String>)
    ensures
        verdict(reading_fault(soc_pct, duration_nanos(age), command, min_soc, max_soc), r),
{
    let level: bool = Decimal::whole(0).at_most(soc_pct) && soc_pct.at_most(Decimal::whole(100));
    if !level || age.as_nanos() > MAX_AGE_SECS * NANOS_PER_SEC {
        return Err("invalid or stale battery charge reading".to_owned());
    }
    if command.mode == Mode::ForceCharge && max_soc.at_most(soc_pct) {
        return Err(
            "charge level ".to_owned().concat(soc_pct.text().as_str()).concat(
                "% has reached the ",
            ).concat(max_soc.text().as_str()).concat("% test ceiling"),
        );
    }
    if command.mode == Mode::ForceDischarge && soc_pct.at_most(min_soc) {
        return Err(
            "charge level ".to_owned().concat(soc_pct.text().as_str()).concat(
                "% has reached the ",
            ).concat(min_soc.text().as_str()).concat("% test floor"),
        );
    }
    Ok(())
}

/// Judge a reading by its age now. What the clock reads is the clock's alone;
/// see [`check_level`] for what each age amounts to.
pub fn check_reading(t: &Telemetry, command: Command, min_soc: Decimal, max_soc: Decimal) -> (r:
    Result<(), String>)
    ensures
        exists|now: Instant|
            verdict(
                reading_fault(
                    t.soc_pct,
                    #[trigger] t.age_nanos(now),
                    command,
                    min_soc,
                    max_soc,
                ),
                r,
            ),
{
    check_level(t.soc_pct, t.age(), command, min_soc, max_soc)
}

/// A commissioning test that went wrong.
#[derive(Debug)]
pub enum Failure {
    /// The driver reported an error.
    Driver(Error),
    /// The test itself found something wrong.
    Message(String),
}

/// An error in the notation of its definition, such as `Comm("lost")`.
pub open spec fn error_notation(e: Error) -> Seq<char> {
    match e {
        Error::Comm(detail) => "Comm("@ + str_debug_text(detail@) + ")"@,
        Error::Readback(detail) => "Readback("@ + str_debug_text(detail@) + ")"@,
        Error::Range(detail) => "Range("@ + str_debug_text(detail@) + ")"@,
        Error::Unsupported(detail) => "Unsupported("@ + str_debug_text(detail@) + ")"@,
    }
}

/// An error in the notation of its definition.
fn error_notation_text(e: &Error) -> (r: String)
    ensures
        r@ == error_notation(*e),
{
    match e {
        Error::Comm(detail) => "Comm(".to_owned().concat(
            debug_str(detail.as_str()).as_str(),
        ).concat(")"),
        Error::Readback(detail) => "Readback(".to_owned().concat(
            debug_str(detail.as_str()).as_str(),
        ).concat(")"),
        Error::Range(detail) => "Range(".to_owned().concat(
            debug_str(detail.as_str()).as_str(),
        ).concat(")"),
        Error::Unsupported(detail) => "Unsupported(".to_owned().concat(
            debug_str(detail.as_str()).as_str(),
        ).concat(")"),
    }
}

impl Failure {
    /// The failure as shown to a person.
    pub open spec fn shown(self) -> Seq<char> {
        match self {
            Failure::Driver(e) => e.shown(),
            Failure::Message(text) => text@,
        }
    }

    /// The failure in the notation of a programmer.
    pub open spec fn notation(self) -> Seq<char> {
        match self {
            Failure::Driver(e) => error_notation(e),
            Failure::Message(text) => str_debug_text(text@),
        }
    }

    /// The text a person is shown.
    pub fn text(&self) -> (r: String)
        ensures
            r@ == self.shown(),
    {
        match self {
            Failure::Driver(e) => e.text(),
            Failure::Message(text) => text.as_str().to_owned(),
        }
    }

    /// The failure in the notation of a programmer.
    fn notation_text(&self) -> (r: String)
        ensures
            r@ == self.notation(),
    {
        match self {
            Failure::Driver(e) => error_notation_text(e),
            Failure::Message(text) => debug_str(text.as_str()),
        }
    }
}

/// A test's result in the notation of a programmer.
pub open spec fn result_notation(result: Result<(), Failure>) -> Seq<char> {
    match result {
        Ok(_) => "Ok(())"@,
        Err(f) => "Err("@ + f.notation() + ")"@,
    }
}

/// `r` says `text`.
pub open spec fn says<V>(r: Result<V, Failure>, text: Seq<char>) -> bool {
    r matches Err(Failure::Message(message)) && message@ == text
}

/// `r` is the charge range left by an inverter's own limits, in percent.
pub open spec fn ranged(min: u16, max: u16, r: Result<(Decimal, Decimal), Failure>) -> bool {
    let low: u16 = if min < FLOOR_SOC {
        FLOOR_SOC
    } else {
        min
    };
    let high: u16 = if max > CEILING_SOC {
        CEILING_SOC
    } else {
        max
    };
    if min > 100 || max > 100 || min >= max {
        says(r, "invalid inverter charge limits; no write attempted"@)
    } else if low >= high {
        says(r, "inverter limits leave no commissioning charge range"@)
    } else {
        r == Ok::<(Decimal, Decimal), Failure>(
            (Decimal::Finite((low * UNIT) as i128), Decimal::Finite((high * UNIT) as i128)),
        )
    }
}

/// The charge range left by an inverter's own limits.
pub fn charge_range(min: u16, max: u16) -> (r: Result<(Decimal, Decimal), Failure>)
    ensures
        ranged(min, max, r),
{
    if min > 100 || max > 100 || min >= max {
        return Err(
            Failure::Message("invalid inverter charge limits; no write attempted".to_owned()),
        );
    }
    let low: u16 = if min < FLOOR_SOC {
        FLOOR_SOC
    } else {
        min
    };
    let high: u16 = if max > CEILING_SOC {
        CEILING_SOC
    } else {
        max
    };
    if low >= high {
        return Err(
            Failure::Message("inverter limits leave no commissioning charge range".to_owned()),
        );
    }
    Ok((Decimal::whole(low as i64), Decimal::whole(high as i64)))
}

/// A charge range lies within fifteen and ninety-five percent and within the
/// inverter's own limits, and is not empty.
pub proof fn law_the_charge_range_respects_both_limits(
    min: u16,
    max: u16,
    low: Decimal,
    high: Decimal,
)
    requires
        ranged(min, max, Ok((low, high))),
    ensures
        low.lt(high),
        Decimal::Finite((15 * UNIT) as i128).le(low) && high.le(Decimal::Finite((95 * UNIT) as i128)),
        Decimal::Finite((min * UNIT) as i128).le(low),
        high.le(Decimal::Finite((max * UNIT) as i128)),
{
}

/// One of the inverter's charge limits, a holding register of one word.
pub open spec fn limit_register(name: &'static str, address: u16) -> RegisterDef {
    RegisterDef { name, address, kind: RegKind::Holding, words: 1, scale: UNIT, signed: false }
}

/// Reading the charge limits may take the bus from `pre` to `post` and return
/// `r`: the lower limit first, and the upper one only when that could be read.
pub open spec fn limits_read<B: ModbusBus>(
    pre: B,
    post: B,
    r: Result<(Decimal, Decimal), Failure>,
) -> bool {
    exists|mid: B, first: Result<Vec<u16>, Error>, min: Result<Vec<u16>, Error>|
        {
            &&& #[trigger] register_read(limit_register("min_soc", 41009), pre, mid, first)
            &&& #[trigger] reply_checked(limit_register("min_soc", 41009), first, min)
            &&& match min {
                Err(e) => post == mid && r == Err::<(Decimal, Decimal), Failure>(
                    Failure::Driver(e),
                ),
                Ok(low) => exists|second: Result<Vec<u16>, Error>, max: Result<Vec<u16>, Error>|
                    {
                        &&& #[trigger] register_read(
                            limit_register("max_soc", 41010),
                            mid,
                            post,
                            second,
                        )
                        &&& #[trigger] reply_checked(
                            limit_register("max_soc", 41010),
                            second,
                            max,
                        )
                        &&& match max {
                            Err(e) => r == Err::<(Decimal, Decimal), Failure>(Failure::Driver(e)),
                            Ok(high) => ranged(low@[0], high@[0], r),
                        }
                    },
            }
        }
}

/// Finding the charge range for `command` may take the bus from `pre` to `post`
/// and return `r`.
pub open spec fn range_found<B: ModbusBus>(
    command: Command,
    pre: B,
    post: B,
    r: Result<(Decimal, Decimal), Failure>,
) -> bool {
    if command.mode == Mode::Passive {
        &&& post == pre
        &&& r == Ok::<(Decimal, Decimal), Failure>(
            (Decimal::Finite((15 * UNIT) as i128), Decimal::Finite((95 * UNIT) as i128)),
        )
    } else {
        limits_read(pre, post, r)
    }
}

/// The charge range for a command: what the inverter's own limits leave, or
/// the whole range for passive, which needs no reading.
pub fn read_charge_range<B: ModbusBus>(bus: &mut B, command: &Command) -> (r: Result<
    (Decimal, Decimal),
    Failure,
>)
    ensures
        range_found(*command, *old(bus), *final(bus), r),
{
    if command.mode == Mode::Passive {
        return Ok((Decimal::whole(FLOOR_SOC as i64), Decimal::whole(CEILING_SOC as i64)));
    }
    let min: Result<Vec<u16>, Error> = read_words(bus, &min_soc());
    let ghost mid: B = *bus;
    let ghost first: Result<Vec<u16>, Error> = choose|reply: Result<Vec<u16>, Error>|
        #[trigger] register_read(limit_register("min_soc", 41009), *old(bus), mid, reply)
            && reply_checked(limit_register("min_soc", 41009), reply, min);
    assert(register_read(limit_register("min_soc", 41009), *old(bus), mid, first));
    assert(reply_checked(limit_register("min_soc", 41009), first, min));
    let low: Vec<u16> = match min {
        Ok(low) => low,
        Err(e) => {
            return Err(Failure::Driver(e));
        },
    };
    let max: Result<Vec<u16>, Error> = read_words(bus, &max_soc());
    let ghost second: Result<Vec<u16>, Error> = choose|reply: Result<Vec<u16>, Error>|
        #[trigger] register_read(limit_register("max_soc", 41010), mid, *bus, reply)
            && reply_checked(limit_register("max_soc", 41010), reply, max);
    assert(register_read(limit_register("max_soc", 41010), mid, *bus, second));
    assert(reply_checked(limit_register("max_soc", 41010), second, max));
    match max {
        Ok(high) => charge_range(low[0], high[0]),
        Err(e) => Err(Failure::Driver(e)),
    }
}

} // verus!

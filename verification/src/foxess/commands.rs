//! What a command comes down to on the bus, register by register.
//!
//! The inverter's addresses stand here as numbers: 44000 enables remote
//! control, 44001 is its timeout in seconds, 44002 its power in watts (positive
//! exports), and 41000 the work mode that it falls back to.
use super::exchange::read_as;
use super::guarantees::{lemma_confirm_step, lemma_failed_override, lemma_write_step};
use super::program::{command_steps, confirmed_as, passive_steps, performed, stepped, Step};
use super::registers::remote_control::{power_register, timeout_register};
use super::program::timeout_mismatch;
use super::{disabled_after, overridden, remote_power, valued, FoxEss};
use crate::capabilities::Capabilities;
use crate::command::{Applied, Command, Expiry};
use crate::decimal::Decimal;
use crate::driver::Inverter;
use crate::error::Error;
use crate::modbus::ModbusBus;
use crate::mode::{lemma_every_mode_is_listed, DischargeTarget, Mode};
use crate::record::BusCall;
use crate::register::{
    is_nearest, law_a_value_is_encoded_as_its_nearest_count, law_an_encoded_word_is_nearest,
    law_one_word_decodes_to_its_count, word_count, RegKind,
};
use crate::telemetry::Telemetry;
use crate::text::{lemma_mentions, mentions};
use crate::time::{duration_debug_text, duration_nanos};
use vstd::prelude::*;

verus! {

/// The acknowledged writes in `calls`, address and value, in order.
pub open spec fn write_log(calls: Seq<BusCall>) -> Seq<(u16, u16)>
    decreases calls.len(),
{
    if calls.len() == 0 {
        seq![]
    } else {
        match calls.last() {
            BusCall::Write { address, value, ack: Ok(_) } => write_log(calls.drop_last()).push(
                (address, value),
            ),
            _ => write_log(calls.drop_last()),
        }
    }
}

/// The writes among `steps`, in order.
spec fn step_writes(steps: Seq<Step>) -> Seq<(u16, u16)>
    decreases steps.len(),
{
    if steps.len() == 0 {
        seq![]
    } else {
        match steps.last() {
            Step::Write { address, value } => step_writes(steps.drop_last()).push((address, value)),
            Step::Confirm { .. } => step_writes(steps.drop_last()),
        }
    }
}

/// The log of two stretches is the log of the first and then of the second.
proof fn lemma_log_adds_up(first: Seq<BusCall>, second: Seq<BusCall>)
    ensures
        write_log(first + second) == write_log(first) + write_log(second),
    decreases second.len(),
{
    if second.len() == 0 {
        assert(first + second == first);
        assert(write_log(first) + write_log(second) == write_log(first));
    } else {
        lemma_log_adds_up(first, second.drop_last());
        assert((first + second).drop_last() == first + second.drop_last());
        assert((first + second).last() == second.last());
        assert(write_log(first + second) =~= write_log(first) + write_log(second));
    }
}

/// Calls that acknowledge no write leave no log.
proof fn lemma_empty_log(calls: Seq<BusCall>)
    requires
        forall|i: int|
            0 <= i < calls.len() ==> !(#[trigger] calls[i] matches BusCall::Write { ack: Ok(_), .. }),
    ensures
        write_log(calls) == Seq::<(u16, u16)>::empty(),
    decreases calls.len(),
{
    if calls.len() > 0 {
        assert(calls.last() == calls[calls.len() - 1]);
        lemma_empty_log(calls.drop_last());
    }
}

/// A step logs its write when it succeeds, and nothing otherwise.
proof fn lemma_step_log(step: Step, calls: Seq<BusCall>, r: Result<(), Error>)
    requires
        stepped(step, calls, r),
    ensures
        write_log(calls) == (match step {
            Step::Write { address, value } if r is Ok => seq![(address, value)],
            _ => Seq::<(u16, u16)>::empty(),
        }),
{
    match step {
        Step::Write { address, value } => {
            lemma_write_step(address, value, calls, r);
            let n = calls.len();
            let before = calls.take(n - 2);
            lemma_empty_log(before);
            assert(calls.drop_last().drop_last() == before);
            assert(calls.drop_last().last() == calls[n - 2]);
            assert(write_log(calls) == write_log(calls.drop_last()));
            assert(write_log(calls.drop_last()) =~= if r is Ok {
                seq![(address, value)]
            } else {
                Seq::<(u16, u16)>::empty()
            });
        },
        Step::Confirm { timeout } => {
            lemma_confirm_step(timeout, calls, r);
            lemma_empty_log(calls);
        },
    }
}

/// Steps that all succeed log their writes.
proof fn lemma_log_of_success(steps: Seq<Step>, calls: Seq<BusCall>)
    requires
        performed(steps, calls, Ok(())),
    ensures
        write_log(calls) == step_writes(steps),
    decreases steps.len(),
{
    if steps.len() > 0 {
        let r: Result<(), Error> = Ok(());
        let cut = choose|cut: int|
            {
                &&& 0 <= cut <= calls.len()
                &&& performed(steps.drop_last(), calls.take(cut), Ok(()))
                &&& #[trigger] stepped(steps.last(), calls.skip(cut), r)
            };
        lemma_log_of_success(steps.drop_last(), calls.take(cut));
        lemma_step_log(steps.last(), calls.skip(cut), r);
        lemma_log_adds_up(calls.take(cut), calls.skip(cut));
        assert(calls == calls.take(cut) + calls.skip(cut));
        assert(write_log(calls) =~= step_writes(steps));
    }
}

/// `seconds` is the time to live in whole seconds, rounded down.
pub open spec fn whole_seconds(command: Command, seconds: int) -> bool {
    command.ttl matches Some(ttl) && seconds * 1_000_000_000 <= duration_nanos(ttl) < (seconds + 1)
        * 1_000_000_000
}

/// What a command is programmed with follows from the command.
proof fn lemma_values(command: Command, timeout: u16, word: u16, kw: Decimal)
    requires
        valued(command, Ok((timeout, word, kw))),
    ensures
        whole_seconds(command, timeout as int),
        1 <= timeout,
        is_power_of(command, word, kw),
{
    let power = remote_power(command);
    law_an_encoded_word_is_nearest(power_register(), power, word);
    law_one_word_decodes_to_its_count(power_register(), word);
    assert(whole_seconds(command, timeout as int));
}

/// `word` is the watts that `command` asks for, in two's complement and in the
/// inverter's sign, and `kw` the power that those watts are.
pub open spec fn is_power_of(command: Command, word: u16, kw: Decimal) -> bool {
    let watts: int = if word < 0x8000 {
        word as int
    } else {
        word - 0x1_0000
    };
    match command.mode {
        Mode::Passive => false,
        Mode::Hold => watts == 0 && kw == Decimal::Finite(0),
        Mode::ForceCharge => {
            &&& command.power_kw matches Decimal::Finite(asked)
            &&& asked > 0
            &&& watts <= 0
            &&& -500_000_000_000 <= -watts * 1_000_000_000_000 - asked <= 500_000_000_000
            &&& kw matches Decimal::Finite(given)
            &&& given == -watts * 1_000_000_000_000
        },
        Mode::ForceDischarge => {
            &&& command.target == DischargeTarget::GridExport
            &&& command.power_kw matches Decimal::Finite(asked)
            &&& asked > 0
            &&& watts >= 0
            &&& -500_000_000_000 <= watts * 1_000_000_000_000 - asked <= 500_000_000_000
            &&& kw matches Decimal::Finite(given)
            &&& given == watts * 1_000_000_000_000
        },
    }
}

/// An accepted override was programmed as asked for: the inverter acknowledged
/// these writes and no others, in this order; its timeout is the command's time
/// to live in whole seconds, rounded down, and read back as such before any
/// power was asked for; its power is the command's to within half a watt; and
/// what the driver reports is that timeout and that power.
pub proof fn law_an_override_is_programmed_as_asked<B: ModbusBus>(
    pre: FoxEss<B>,
    post: FoxEss<B>,
    command: Command,
    applied: Applied,
) -> (programmed: (u16, u16, int))
    requires
        pre.applies(&post, command, Ok(applied)),
        command.mode != Mode::Passive,
    ensures
        ({
            let (timeout, word, confirmed) = programmed;
            let calls = pre.calls_until(post);
            &&& command.ttl matches Some(ttl)
            &&& timeout * 1_000_000_000 <= duration_nanos(ttl) < (timeout + 1) * 1_000_000_000
            &&& timeout >= 1
            &&& write_log(calls) == seq![
                (44000u16, 0u16),
                (41000u16, 0u16),
                (44002u16, 0u16),
                (44000u16, 1u16),
                (44001u16, timeout),
                (44002u16, word),
            ]
            &&& 0 <= confirmed < calls.len()
            &&& write_log(calls.take(confirmed)) == seq![
                (44000u16, 0u16),
                (41000u16, 0u16),
                (44002u16, 0u16),
                (44000u16, 1u16),
                (44001u16, timeout),
            ]
            &&& calls[confirmed] matches BusCall::Read { kind, address, words, reply: Ok(reply) }
            &&& kind == RegKind::Holding && address == 44001 && words == 1 && reply@ == seq![
                timeout,
            ]
            &&& applied.expiry matches Expiry::InverterTimeout(armed)
            &&& duration_nanos(armed) == timeout * 1_000_000_000
            &&& is_power_of(command, word, applied.power_kw)
        }),
{
    let calls = pre.calls_until(post);
    let r: Result<Applied, Error> = Ok(applied);
    let values = choose|values: Result<(u16, u16, Decimal), Error>| #[trigger]
        valued(command, values) && match values {
            Ok((timeout, power, kw)) => overridden(timeout, power, kw, calls, r),
            Err(e) => calls.len() == 0 && r == Err::<Applied, Error>(e),
        };
    let (timeout, power, kw) = values->Ok_0;
    lemma_values(command, timeout, power, kw);
    let steps = command_steps(timeout, power);
    lemma_log_of_success(steps, calls);
    let confirmed = lemma_confirmed_before_power(timeout, power, calls);
    reveal_with_fuel(step_writes, 8);
    assert(steps.drop_last().last() == steps[5]);
    assert(steps.drop_last().drop_last().last() == steps[4]);
    assert(steps.drop_last().drop_last().drop_last().last() == steps[3]);
    assert(steps.drop_last().drop_last().drop_last().drop_last().last() == steps[2]);
    assert(steps.drop_last().drop_last().drop_last().drop_last().drop_last().last() == steps[1]);
    assert(write_log(calls) =~= seq![
        (44000u16, 0u16),
        (41000u16, 0u16),
        (44002u16, 0u16),
        (44000u16, 1u16),
        (44001u16, timeout),
        (44002u16, power),
    ]);
    (timeout, power, confirmed)
}

/// The timeout is read back after it was written and before the power is.
proof fn lemma_confirmed_before_power(timeout: u16, power: u16, calls: Seq<BusCall>) -> (confirmed:
    int)
    requires
        performed(command_steps(timeout, power), calls, Ok(())),
    ensures
        0 <= confirmed < calls.len(),
        write_log(calls.take(confirmed)) == seq![
            (44000u16, 0u16),
            (41000u16, 0u16),
            (44002u16, 0u16),
            (44000u16, 1u16),
            (44001u16, timeout),
        ],
        calls[confirmed] matches BusCall::Read { kind, address, words, reply: Ok(reply) } && kind
            == RegKind::Holding && address == 44001 && words == 1 && reply@ == seq![timeout],
{
    let steps = command_steps(timeout, power);
    let ok: Result<(), Error> = Ok(());
    let cut = choose|cut: int|
        {
            &&& 0 <= cut <= calls.len()
            &&& performed(steps.drop_last(), calls.take(cut), Ok(()))
            &&& #[trigger] stepped(steps.last(), calls.skip(cut), ok)
        };
    let armed = steps.drop_last();
    let before = calls.take(cut);
    let earlier = choose|c: int|
        {
            &&& 0 <= c <= before.len()
            &&& performed(armed.drop_last(), before.take(c), Ok(()))
            &&& #[trigger] stepped(armed.last(), before.skip(c), ok)
        };
    let segment = before.skip(earlier);
    assert(armed.last() == steps[5]);
    lemma_confirm_step(timeout, segment, ok);
    assert(segment.last() == calls[cut - 1]);
    lemma_log_of_success(armed, before);
    assert(before.drop_last() == calls.take(cut - 1));
    assert(before.last() == calls[cut - 1]);
    assert(write_log(before) == write_log(calls.take(cut - 1)));
    reveal_with_fuel(step_writes, 7);
    assert(armed.drop_last().last() == steps[4]);
    assert(armed.drop_last().drop_last().last() == steps[3]);
    assert(armed.drop_last().drop_last().drop_last().last() == steps[2]);
    assert(armed.drop_last().drop_last().drop_last().drop_last().last() == steps[1]);
    assert(step_writes(armed) =~= seq![
        (44000u16, 0u16),
        (41000u16, 0u16),
        (44002u16, 0u16),
        (44000u16, 1u16),
        (44001u16, timeout),
    ]);
    cut - 1
}

/// An accepted return to passive disabled remote control and then selected
/// self-use, wrote nothing else, and stays until changed.
pub proof fn law_passive_is_programmed_as_asked<B: ModbusBus>(
    pre: FoxEss<B>,
    post: FoxEss<B>,
    command: Command,
    applied: Applied,
)
    requires
        pre.applies(&post, command, Ok(applied)),
        command.mode == Mode::Passive,
    ensures
        write_log(pre.calls_until(post)) == seq![(44000u16, 0u16), (41000u16, 0u16)],
        applied.expiry is UntilChanged,
        applied.power_kw == Decimal::Finite(0),
{
    let calls = pre.calls_until(post);
    let r: Result<Applied, Error> = Ok(applied);
    let done = choose|done: Result<(), Error>| #[trigger]
        performed(passive_steps(), calls, done) && match done {
            Ok(_) => r matches Ok(applied) && applied.expiry == Expiry::UntilChanged
                && applied.power_kw == Decimal::Finite(0),
            Err(e) => r == Err::<Applied, Error>(e),
        };
    assert(done is Ok && done->Ok_0 == ());
    let steps = passive_steps();
    lemma_log_of_success(steps, calls);
    reveal_with_fuel(step_writes, 3);
    assert(steps.drop_last().last() == steps[0]);
    assert(write_log(calls) =~= seq![(44000u16, 0u16), (41000u16, 0u16)]);
}

/// The time to live is at least one second and at most 65535 seconds.
pub open spec fn in_timeout_range(command: Command) -> bool {
    command.ttl matches Some(ttl) && 1_000_000_000 <= duration_nanos(ttl) <= 65_535_000_000_000
}

/// An override without a time to live of 1 to 65535 seconds, a discharge
/// confined to the house, a power that is not a positive number, and one that
/// does not come to at most 32767 watts of export or 32768 of import is refused,
/// and the bus left alone; the discharge as unsupported, the rest as out of
/// range.
pub proof fn law_what_cannot_be_programmed_is_refused<B: ModbusBus>(
    pre: FoxEss<B>,
    post: FoxEss<B>,
    command: Command,
    r: Result<Applied, Error>,
)
    requires
        pre.applies(&post, command, r),
        command.mode != Mode::Passive,
    ensures
        !in_timeout_range(command) ==> (r matches Err(Error::Range(_))) && pre.calls_until(
            post,
        ).len() == 0,
        in_timeout_range(command) && command.mode == Mode::ForceDischarge && command.target
            == DischargeTarget::HouseOnly ==> (r matches Err(Error::Unsupported(_)))
            && pre.calls_until(post).len() == 0,
        in_timeout_range(command) && (command.mode == Mode::ForceCharge || command.mode
            == Mode::ForceDischarge && command.target == DischargeTarget::GridExport) && !(
        command.power_kw matches Decimal::Finite(asked) && asked > 0) ==> (r matches Err(
            Error::Range(_),
        )) && pre.calls_until(post).len() == 0,
        in_timeout_range(command) && command.mode == Mode::ForceCharge && (
        command.power_kw matches Decimal::Finite(asked) && asked >= 32_768_500_000_000_000) ==> (
        r matches Err(Error::Range(_))) && pre.calls_until(post).len() == 0,
        in_timeout_range(command) && command.mode == Mode::ForceDischarge && command.target
            == DischargeTarget::GridExport && (command.power_kw matches Decimal::Finite(asked)
            && asked >= 32_767_500_000_000_000) ==> (r matches Err(Error::Range(_)))
            && pre.calls_until(post).len() == 0,
{
    let calls = pre.calls_until(post);
    let values = choose|values: Result<(u16, u16, Decimal), Error>| #[trigger]
        valued(command, values) && match values {
            Ok((timeout, power, kw)) => overridden(timeout, power, kw, calls, r),
            Err(e) => calls.len() == 0 && r == Err::<Applied, Error>(e),
        };
    if let Ok((timeout, power, kw)) = values {
        lemma_values(command, timeout, power, kw);
    }
}

/// `command` is an override that the inverter can be programmed with.
pub open spec fn programmable(command: Command) -> bool {
    &&& in_timeout_range(command)
    &&& match command.mode {
        Mode::Passive => false,
        Mode::Hold => true,
        Mode::ForceCharge => command.power_kw matches Decimal::Finite(asked) && 0 < asked
            < 32_768_500_000_000_000,
        Mode::ForceDischarge => command.target == DischargeTarget::GridExport && (
        command.power_kw matches Decimal::Finite(asked) && 0 < asked < 32_767_500_000_000_000),
    }
}

/// `call` failed with `e`: a write that was not acknowledged, or a read that
/// failed, or came back with other words than `expected`.
pub open spec fn failed_with(call: BusCall, expected: Seq<u16>, e: Error) -> bool {
    match call {
        BusCall::Write { ack, .. } => ack == Err::<(), Error>(e),
        BusCall::Read { reply, .. } => match reply {
            Err(error) => e == error,
            Ok(words) => words@ != expected && (if words@.len() == 1 {
                e is Readback
            } else {
                e is Comm
            }),
        },
        _ => false,
    }
}

/// Steps that fail, fail because a call did.
proof fn lemma_steps_fail_on_the_bus(
    steps: Seq<Step>,
    calls: Seq<BusCall>,
    timeout: u16,
    e: Error,
) -> (at: int)
    requires
        performed(steps, calls, Err(e)),
        forall|k: int|
            0 <= k < steps.len() && (#[trigger] steps[k] is Confirm) ==> steps[k]
                == (Step::Confirm { timeout }),
    ensures
        0 <= at < calls.len(),
        failed_with(calls[at], seq![timeout], e),
    decreases steps.len(),
{
    let r: Result<(), Error> = Err(e);
    let front = steps.drop_last();
    if performed(front, calls, r) {
        lemma_steps_fail_on_the_bus(front, calls, timeout, e)
    } else {
        let cut = choose|cut: int|
            {
                &&& 0 <= cut <= calls.len()
                &&& performed(front, calls.take(cut), Ok(()))
                &&& #[trigger] stepped(steps.last(), calls.skip(cut), r)
            };
        let segment = calls.skip(cut);
        match steps.last() {
            Step::Write { address, value } => {
                lemma_write_step(address, value, segment, r);
                assert(segment[segment.len() - 2] == calls[calls.len() - 2]);
                calls.len() - 2
            },
            Step::Confirm { timeout: t } => {
                assert(steps[steps.len() - 1] is Confirm);
                lemma_confirm_step(timeout, segment, r);
                assert(segment.last() == calls[calls.len() - 1]);
                let reading = choose|reading: Result<Decimal, Error>| #[trigger]
                    read_as(timeout_register(), segment.last(), reading) && confirmed_as(
                        timeout,
                        reading,
                        r,
                    );
                law_one_word_decodes_to_its_count(timeout_register(), timeout);
                calls.len() - 1
            },
        }
    }
}

/// An override that the inverter can be programmed with fails only if the bus
/// does: some write was not acknowledged, or the timeout could not be read back
/// as the whole seconds of the time to live. What is returned is that failure;
/// or a report of two, when the return to passive failed as well.
pub proof fn law_a_sound_override_fails_only_on_the_bus<B: ModbusBus>(
    pre: FoxEss<B>,
    post: FoxEss<B>,
    command: Command,
    seconds: u16,
    error: Error,
) -> (failed: (int, Error))
    requires
        pre.applies(&post, command, Err(error)),
        programmable(command),
        whole_seconds(command, seconds as int),
    ensures
        ({
            let (at, e) = failed;
            &&& 0 <= at < pre.calls_until(post).len()
            &&& failed_with(pre.calls_until(post)[at], seq![seconds], e)
            &&& error == e || error is Comm && exists|i: int|
                at < i < pre.calls_until(post).len() && (
                #[trigger] pre.calls_until(post)[i] matches BusCall::Write { ack: Err(_), .. })
        }),
{
    let calls = pre.calls_until(post);
    let r: Result<Applied, Error> = Err(error);
    let values = choose|values: Result<(u16, u16, Decimal), Error>| #[trigger]
        valued(command, values) && match values {
            Ok((timeout, power, kw)) => overridden(timeout, power, kw, calls, r),
            Err(e) => calls.len() == 0 && r == Err::<Applied, Error>(e),
        };
    lemma_programmable_is_encoded(command);
    let (timeout, power, kw) = values->Ok_0;
    lemma_values(command, timeout, power, kw);
    assert(timeout == seconds);
    let (cut, e, cleanup) = lemma_failed_override(timeout, power, kw, calls, r);
    let at = lemma_steps_fail_on_the_bus(command_steps(timeout, power), calls.take(cut), timeout, e);
    assert(calls.take(cut)[at] == calls[at]);
    if let Err(also) = cleanup {
        let i = lemma_writes_fail_on_the_bus(passive_steps(), calls.skip(cut), also);
        assert(calls.skip(cut)[i] == calls[cut + i]);
    }
    (at, e)
}

/// The power of an override that the inverter can be programmed with fits its
/// register.
proof fn lemma_programmable_is_encoded(command: Command)
    requires
        programmable(command),
    ensures
        crate::register::encoded(power_register(), remote_power(command)) is Some,
{
    let v = remote_power(command)->Finite_0;
    let scale = 1_000_000_000_000int;
    // The whole watts nearest to the request, halves away from zero.
    let size = if v < 0 {
        -v as int
    } else {
        v as int
    };
    let watts = (2 * size + scale) / (2 * scale);
    let count = if v < 0 {
        -watts
    } else {
        watts
    };
    assert(is_nearest(count, scale, v as int));
    law_a_value_is_encoded_as_its_nearest_count(power_register(), v, count);
}

/// Returning to passive fails only if a write was not acknowledged, with what
/// the bus said of it.
pub proof fn law_passive_fails_only_on_the_bus<B: ModbusBus>(
    pre: FoxEss<B>,
    post: FoxEss<B>,
    command: Command,
    error: Error,
) -> (at: int)
    requires
        pre.applies(&post, command, Err(error)),
        command.mode == Mode::Passive,
    ensures
        0 <= at < pre.calls_until(post).len(),
        pre.calls_until(post)[at] matches BusCall::Write { ack, .. } && ack == Err::<(), Error>(
            error,
        ),
{
    let calls = pre.calls_until(post);
    let r: Result<Applied, Error> = Err(error);
    let done = choose|done: Result<(), Error>| #[trigger]
        performed(passive_steps(), calls, done) && match done {
            Ok(_) => r matches Ok(applied) && applied.expiry == Expiry::UntilChanged
                && applied.power_kw == Decimal::Finite(0),
            Err(e) => r == Err::<Applied, Error>(e),
        };
    lemma_writes_fail_on_the_bus(passive_steps(), calls, error)
}

/// Writes that fail, fail because one was not acknowledged.
proof fn lemma_writes_fail_on_the_bus(steps: Seq<Step>, calls: Seq<BusCall>, e: Error) -> (at: int)
    requires
        performed(steps, calls, Err(e)),
        forall|k: int| 0 <= k < steps.len() ==> #[trigger] steps[k] is Write,
    ensures
        0 <= at < calls.len(),
        calls[at] matches BusCall::Write { ack, .. } && ack == Err::<(), Error>(e),
    decreases steps.len(),
{
    let r: Result<(), Error> = Err(e);
    let front = steps.drop_last();
    if performed(front, calls, r) {
        lemma_writes_fail_on_the_bus(front, calls, e)
    } else {
        let cut = choose|cut: int|
            {
                &&& 0 <= cut <= calls.len()
                &&& performed(front, calls.take(cut), Ok(()))
                &&& #[trigger] stepped(steps.last(), calls.skip(cut), r)
            };
        let segment = calls.skip(cut);
        assert(steps[steps.len() - 1] is Write);
        match steps.last() {
            Step::Write { address, value } => {
                lemma_write_step(address, value, segment, r);
                assert(segment[segment.len() - 2] == calls[calls.len() - 2]);
            },
            Step::Confirm { .. } => {},
        }
        calls.len() - 2
    }
}

/// An override that fails after programming began is followed by a return to
/// passive: the inverter acknowledged remote control as disabled and then
/// self-use, and nothing after that; or one of those two writes failed as well,
/// and the report is of two failures.
pub proof fn law_a_failed_override_is_cleaned_up<B: ModbusBus>(
    pre: FoxEss<B>,
    post: FoxEss<B>,
    command: Command,
    error: Error,
) -> (cut: int)
    requires
        pre.applies(&post, command, Err(error)),
        programmable(command),
    ensures
        0 < cut < pre.calls_until(post).len(),
        pre.calls_until(post)[cut] matches BusCall::Write { address, value, .. } && address == 44000
            && value == 0,
        write_log(pre.calls_until(post).skip(cut)) == seq![(44000u16, 0u16), (41000u16, 0u16)] || (
        error is Comm && exists|i: int|
            cut <= i < pre.calls_until(post).len() && (
            #[trigger] pre.calls_until(post)[i] matches BusCall::Write { ack: Err(_), .. })),
{
    let calls = pre.calls_until(post);
    let r: Result<Applied, Error> = Err(error);
    let values = choose|values: Result<(u16, u16, Decimal), Error>| #[trigger]
        valued(command, values) && match values {
            Ok((timeout, power, kw)) => overridden(timeout, power, kw, calls, r),
            Err(e) => calls.len() == 0 && r == Err::<Applied, Error>(e),
        };
    lemma_programmable_is_encoded(command);
    let (timeout, power, kw) = values->Ok_0;
    let (cut, e, cleanup) = lemma_failed_override(timeout, power, kw, calls, r);
    let at = lemma_steps_fail_on_the_bus(command_steps(timeout, power), calls.take(cut), timeout, e);
    let steps = passive_steps();
    let rest = calls.skip(cut);
    lemma_passive_starts_by_disabling(rest, cleanup);
    assert(rest[0] == calls[cut]);
    match cleanup {
        Ok(done) => {
            assert(done == ());
            lemma_log_of_success(steps, rest);
            reveal_with_fuel(step_writes, 3);
            assert(steps.drop_last().last() == steps[0]);
            assert(write_log(rest) =~= seq![(44000u16, 0u16), (41000u16, 0u16)]);
        },
        Err(also) => {
            let i = lemma_writes_fail_on_the_bus(steps, rest, also);
            assert(rest[i] == calls[cut + i]);
        },
    }
    cut
}

/// Returning to passive starts by disabling remote control.
proof fn lemma_passive_starts_by_disabling(calls: Seq<BusCall>, r: Result<(), Error>)
    requires
        performed(passive_steps(), calls, r),
    ensures
        calls.len() > 0,
        calls[0] matches BusCall::Write { address, value, .. } && address == 44000 && value == 0,
{
    let steps = passive_steps();
    let front = steps.drop_last();
    if r is Err && performed(front, calls, r) {
        lemma_disabling(calls, r);
    } else {
        let cut = choose|cut: int|
            {
                &&& 0 <= cut <= calls.len()
                &&& performed(front, calls.take(cut), Ok(()))
                &&& #[trigger] stepped(steps.last(), calls.skip(cut), r)
            };
        lemma_disabling(calls.take(cut), Ok(()));
        assert(calls.take(cut)[0] == calls[0]);
    }
}

/// The step that disables remote control starts with the write that does so.
proof fn lemma_disabling(calls: Seq<BusCall>, r: Result<(), Error>)
    requires
        performed(passive_steps().drop_last(), calls, r),
    ensures
        calls.len() > 0,
        calls[0] matches BusCall::Write { address, value, .. } && address == 44000 && value == 0,
{
    let steps = passive_steps().drop_last();
    let front = steps.drop_last();
    assert(steps.last() == passive_steps()[0]);
    if r is Err && performed(front, calls, r) {
    } else {
        let cut = choose|cut: int|
            {
                &&& 0 <= cut <= calls.len()
                &&& performed(front, calls.take(cut), Ok(()))
                &&& #[trigger] stepped(steps.last(), calls.skip(cut), r)
            };
        assert(calls.take(cut).len() == 0);
        let segment = calls.skip(cut);
        assert(segment.drop_last()[0] == calls[0]);
    }
}

/// The driver's record grows by the calls that a command or a read makes, and
/// stays true; the register map stays the same.
pub proof fn law_calls_are_added_to_the_record<B: ModbusBus>(
    pre: FoxEss<B>,
    post: FoxEss<B>,
    command: Command,
    applied: Result<Applied, Error>,
    reading: Result<Telemetry, Error>,
)
    requires
        pre.applies(&post, command, applied) || pre.reads(&post, reading),
    ensures
        post.recorder().log() == pre.recorder().log() + pre.calls_until(post),
        post.recorder().origin() == pre.recorder().origin(),
        pre.valid() ==> crate::record::calls_made(
            post.recorder().origin(),
            post.recorder().log(),
            post.recorder().bus(),
        ),
        post.map() == pre.map(),
{
}

/// The driver can command every mode, each with an inverter timeout of at most
/// 65535 seconds; it reports PV exactly when its map has PV registers, and no
/// mode.
pub proof fn law_a_foxess_advertises_what_it_does<B: ModbusBus>(
    pre: FoxEss<B>,
    caps: Capabilities,
    mode: Mode,
)
    requires
        pre.advertises(caps),
    ensures
        caps.can_write,
        exists|i: int| 0 <= i < caps.modes@.len() && #[trigger] caps.modes@[i] == mode,
        caps.expiry matches Expiry::InverterTimeout(longest) && duration_nanos(longest)
            == 65_535_000_000_000,
        caps.reports_solar <==> pre.map().pv_powers@.len() > 0,
        !caps.reports_mode,
        caps.model == pre.map().model,
        caps.write_blocked_reason is None,
{
    lemma_every_mode_is_listed(mode);
    let i = choose|i: int| 0 <= i < caps.modes@.len() && #[trigger] caps.modes@[i] == mode;
    assert(caps.modes@[i] == mode);
}

/// The driver never guesses the inverter's mode: it says that it cannot, and
/// touches nothing.
pub proof fn law_a_foxess_does_not_guess_its_mode<B: ModbusBus>(
    pre: FoxEss<B>,
    post: FoxEss<B>,
    r: Result<Mode, Error>,
)
    requires
        pre.reports(&post, r),
    ensures
        r matches Err(Error::Unsupported(_)),
        post == pre,
{
}

/// A refused override says what is wrong with it: that its mode needs a time to
/// live, how long the one is that does not fit, or what the power is that is not
/// positive.
pub proof fn law_a_refused_override_says_why(command: Command, r: Result<(u16, u16, Decimal), Error>)
    requires
        valued(command, r),
        command.mode != Mode::Passive,
    ensures
        command.ttl is None ==> (r matches Err(Error::Range(fault)) && mentions(
            fault@,
            command.mode.name(),
        )),
        command.ttl matches Some(ttl) ==> (!in_timeout_range(command) ==> (r matches Err(
            Error::Range(fault),
        ) && mentions(fault@, duration_debug_text(duration_nanos(ttl))))),
        in_timeout_range(command) && (command.mode == Mode::ForceCharge || command.mode
            == Mode::ForceDischarge && command.target == DischargeTarget::GridExport) && !(
        command.power_kw matches Decimal::Finite(asked) && asked > 0) ==> (r matches Err(
            Error::Range(fault),
        ) && mentions(fault@, command.power_kw.shown()) || command.power_kw is PosInfinity),
{
    let none = Seq::<char>::empty();
    if let Err(Error::Range(fault)) = r {
        match command.ttl {
            None => {
                assert(fault@ =~= none + command.mode.name() + " requires a non-zero TTL"@);
                lemma_mentions(fault@, none, command.mode.name(), " requires a non-zero TTL"@);
            },
            Some(ttl) => {
                let said = duration_debug_text(duration_nanos(ttl));
                let before = "FoxESS command TTL must be 1..=65535 seconds, got "@;
                if !in_timeout_range(command) {
                    assert(fault@ =~= before + said + none);
                    lemma_mentions(fault@, before, said, none);
                } else if command.power_kw.le(Decimal::Finite(0)) && command.mode != Mode::Hold {
                    let before = "command power must be positive, got "@;
                    lemma_mentions(fault@, before, command.power_kw.shown(), " kW"@);
                } else if command.power_kw is Nan {
                    let value = remote_power(command);
                    crate::register::law_a_refused_value_is_named(power_register(), value);
                    assert(value.shown() == command.power_kw.shown());
                }
            },
        }
    }
}

/// When programming fails and the return to passive fails as well, the report
/// gives both failures.
pub proof fn law_two_failures_are_both_reported(
    error: Error,
    also: Error,
    r: Result<Applied, Error>,
)
    requires
        disabled_after(error, Err(also), r),
    ensures
        r matches Err(Error::Comm(fault)) && mentions(fault@, error.shown()) && mentions(
            fault@,
            also.shown(),
        ),
{
    let fault = r->Err_0->Comm_0@;
    let middle = "); also failed to return FoxESS to passive ("@;
    assert(fault =~= "command failed ("@ + error.shown() + (middle + also.shown() + ")"@));
    lemma_mentions(fault, "command failed ("@, error.shown(), middle + also.shown() + ")"@);
    assert(fault =~= ("command failed ("@ + error.shown() + middle) + also.shown() + ")"@);
    lemma_mentions(fault, "command failed ("@ + error.shown() + middle, also.shown(), ")"@);
}

/// A timeout that reads back as something else is reported with what it read
/// back as and what it should have been.
pub proof fn law_a_wrong_timeout_is_named(got: Decimal, timeout: u16)
    ensures
        mentions(timeout_mismatch(got, timeout), got.shown()),
        mentions(timeout_mismatch(got, timeout), crate::text::decimal_text(timeout as nat)),
{
    let text = timeout_mismatch(got, timeout);
    let before = "FoxESS timeout read-back returned "@;
    let middle = " seconds, expected "@;
    let wanted = crate::text::decimal_text(timeout as nat);
    assert(text =~= before + got.shown() + (middle + wanted));
    lemma_mentions(text, before, got.shown(), middle + wanted);
    assert(text =~= (before + got.shown() + middle) + wanted + Seq::<char>::empty());
    lemma_mentions(text, before + got.shown() + middle, wanted, Seq::<char>::empty());
}

} // verus!

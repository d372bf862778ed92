//! What the order of programming guarantees, whatever the bus replies.
use super::exchange::{asked, attempts, read_as, Ask};
use super::program::{
    command_steps, confirmed_as, passive_steps, performed, stepped, Step, WRITE_GAP_MILLIS,
};
use super::registers::remote_control::{
    power_register, timeout_register, ACTIVE_POWER, DISABLED, ENABLED, REMOTE_ENABLE, SELF_USE,
    TIMEOUT_SET, WORK_MODE,
};
use super::registers::RegisterMap;
use super::{
    applied_as, disabled_after, extended, overridden, remote_power, reported, surveyed,
    telemetry_read, total, ttl_fits, valued, FoxEss,
};
use crate::command::{Applied, Command, Expiry};
use crate::decimal::{Decimal, UNIT};
use crate::driver::Inverter;
use crate::error::Error;
use crate::modbus::{ModbusBus, BACKOFF_MILLIS, RETRIES};
use crate::mode::{DischargeTarget, Mode};
use crate::record::BusCall;
use crate::register::{
    big_endian, decoded, encoded, lemma_nearest_is_near, nearest, raw_count, word_of, RegKind,
    RegisterDef,
};
use crate::telemetry::Telemetry;
use crate::time::{duration_nanos, NANOS_PER_SEC};
use vstd::prelude::*;

verus! {

/// `call` writes `value` to `address`.
pub open spec fn writes(call: BusCall, address: u16, value: u16) -> bool {
    Ask::Write(address, value).made_by(call)
}

/// `call` leaves the line alone for at least the thirty milliseconds that go
/// between writes.
pub open spec fn rests(call: BusCall) -> bool {
    call matches BusCall::Pause { pause } && duration_nanos(pause) >= 30_000_000
}

/// Every write in `calls` is followed at once by a rest.
pub open spec fn spaced(calls: Seq<BusCall>) -> bool {
    forall|i: int|
        0 <= i < calls.len() && (#[trigger] calls[i] is Write) ==> i + 1 < calls.len() && rests(
            calls[i + 1],
        )
}

/// The value of the last acknowledged write to `address` in `calls`.
pub open spec fn acknowledged(calls: Seq<BusCall>, address: u16) -> Option<u16>
    decreases calls.len(),
{
    if calls.len() == 0 {
        None
    } else {
        match calls.last() {
            BusCall::Write { address: a, value, ack: Ok(_) } if a == address => Some(value),
            _ => acknowledged(calls.drop_last(), address),
        }
    }
}

/// The value that the last write to `address` in `steps` gives it.
pub open spec fn set_by(steps: Seq<Step>, address: u16) -> Option<u16>
    decreases steps.len(),
{
    if steps.len() == 0 {
        None
    } else {
        match steps.last() {
            Step::Write { address: a, value } if a == address => Some(value),
            _ => set_by(steps.drop_last(), address),
        }
    }
}

/// `call` read the timeout register and found `timeout` in it.
pub open spec fn reads_back(call: BusCall, timeout: u16) -> bool {
    call matches BusCall::Read { kind: RegKind::Holding, address, words: 1, reply: Ok(words) }
        && address == TIMEOUT_SET && words@ == seq![timeout]
}

/// The calls from `from` up to and with `to` write nothing but `value` to `address`.
pub open spec fn only_writes(
    calls: Seq<BusCall>,
    from: int,
    to: int,
    address: u16,
    value: u16,
) -> bool {
    forall|j: int|
        from <= j <= to ==> #[trigger] calls[j] is Pause || writes(calls[j], address, value)
}

/// Tries consist of the call asked for and rests, end with such a call, and
/// only the last of them can have succeeded.
proof fn lemma_attempts(ask: Ask, calls: Seq<BusCall>, tries: nat, delay: nat)
    requires
        attempts(ask, calls, tries, delay),
        delay >= WRITE_GAP_MILLIS,
    ensures
        ask.made_by(calls.last()),
        forall|i: int| 0 <= i < calls.len() ==> ask.made_by(#[trigger] calls[i]) || rests(calls[i]),
        forall|i: int|
            0 <= i < calls.len() - 1 && ask.made_by(#[trigger] calls[i]) ==> rests(calls[i + 1])
                && !ask.met_by(calls[i]),
    decreases tries,
{
    if ask.met_by(calls[0]) || tries <= 1 {
    } else {
        let rest = calls.skip(2);
        lemma_attempts(ask, rest, (tries - 1) as nat, delay * 2);
        assert(rest.last() == calls.last());
        assert(rests(calls[1]));
        assert forall|i: int| 0 <= i < calls.len() implies ask.made_by(#[trigger] calls[i])
            || rests(calls[i]) by {
            if i >= 2 {
                assert(rest[i - 2] == calls[i]);
            }
        }
        assert forall|i: int|
            0 <= i < calls.len() - 1 && ask.made_by(#[trigger] calls[i]) implies rests(calls[i + 1])
            && !ask.met_by(calls[i]) by {
            if i >= 2 {
                assert(rest[i - 2] == calls[i]);
                assert(rest[i - 1] == calls[i + 1]);
            }
        }
    }
}

/// A write step makes nothing but its write and rests, and acknowledges it
/// exactly when it succeeds.
pub(super) proof fn lemma_write_step(address: u16, value: u16, calls: Seq<BusCall>, r: Result<(), Error>)
    requires
        stepped(Step::Write { address, value }, calls, r),
    ensures
        forall|i: int|
            0 <= i < calls.len() ==> writes(#[trigger] calls[i], address, value) || rests(calls[i]),
        spaced(calls),
        forall|i: int|
            0 <= i < calls.len() - 2 && (#[trigger] calls[i] matches BusCall::Write { ack, .. })
                ==> calls[i]->ack is Err,
        writes(calls[calls.len() - 2], address, value),
        calls[calls.len() - 2]->ack == r,
        rests(calls.last()),
{
    let tried = calls.drop_last();
    let ask = Ask::Write(address, value);
    lemma_attempts(ask, tried, RETRIES as nat, BACKOFF_MILLIS as nat);
    assert(tried.last() == calls[calls.len() - 2]);
    assert forall|i: int| 0 <= i < calls.len() implies writes(#[trigger] calls[i], address, value)
        || rests(calls[i]) by {
        if i < calls.len() - 1 {
            assert(tried[i] == calls[i]);
        }
    }
    assert forall|i: int| 0 <= i < calls.len() && (#[trigger] calls[i] is Write) implies i + 1
        < calls.len() && rests(calls[i + 1]) by {
        if i < calls.len() - 2 {
            assert(tried[i] == calls[i]);
            assert(tried[i + 1] == calls[i + 1]);
        }
    }
    assert forall|i: int|
        0 <= i < calls.len() - 2 && (#[trigger] calls[i] matches BusCall::Write { ack, .. }) implies
    calls[i]->ack is Err by {
        assert(tried[i] == calls[i]);
    }
}

/// A confirming step writes nothing.
pub(super) proof fn lemma_confirm_step(timeout: u16, calls: Seq<BusCall>, r: Result<(), Error>)
    requires
        stepped(Step::Confirm { timeout }, calls, r),
    ensures
        calls.len() > 0,
        forall|i: int| 0 <= i < calls.len() ==> !(#[trigger] calls[i] is Write),
        r is Ok ==> reads_back(calls.last(), timeout),
{
    let ask = Ask::Read(timeout_register());
    lemma_attempts(ask, calls, RETRIES as nat, BACKOFF_MILLIS as nat);
    if r is Ok {
        let reading = choose|reading: Result<Decimal, Error>| #[trigger]
            read_as(timeout_register(), calls.last(), reading) && confirmed_as(timeout, reading, r);
        let words = calls.last()->reply->Ok_0@;
        assert(words.drop_last() == Seq::<u16>::empty());
        assert(big_endian(words.drop_last()) == 0);
        assert(big_endian(words) == words[0] as nat);
        assert(raw_count(timeout_register(), words) == words[0]);
        assert(decoded(timeout_register(), words) == Decimal::Finite(
            (words[0] * UNIT) as i128,
        ));
        assert(words == seq![timeout]);
    }
}

/// Calls that acknowledge no write to `address` leave it unacknowledged.
proof fn lemma_nothing_acknowledged(calls: Seq<BusCall>, address: u16)
    requires
        forall|i: int|
            0 <= i < calls.len() ==> !(#[trigger] calls[i] matches BusCall::Write {
                address: a,
                ack: Ok(_),
                ..
            } && a == address),
    ensures
        acknowledged(calls, address) is None,
    decreases calls.len(),
{
    if calls.len() > 0 {
        assert(calls.last() == calls[calls.len() - 1]);
        lemma_nothing_acknowledged(calls.drop_last(), address);
    }
}

/// Of two stretches of calls, the later acknowledgement counts.
proof fn lemma_later_counts(first: Seq<BusCall>, second: Seq<BusCall>, address: u16)
    ensures
        acknowledged(first + second, address) == (if acknowledged(second, address) is Some {
            acknowledged(second, address)
        } else {
            acknowledged(first, address)
        }),
    decreases second.len(),
{
    if second.len() == 0 {
        assert(first + second == first);
    } else {
        lemma_later_counts(first, second.drop_last(), address);
        assert((first + second).drop_last() == first + second.drop_last());
        assert((first + second).last() == second.last());
    }
}

/// A step that succeeds acknowledges the write it makes, and no other.
proof fn lemma_step_acknowledged(step: Step, calls: Seq<BusCall>, r: Result<(), Error>, address: u16)
    requires
        stepped(step, calls, r),
    ensures
        acknowledged(calls, address) == (match step {
            Step::Write { address: a, value } if a == address && r is Ok => Some(value),
            _ => None,
        }),
{
    match step {
        Step::Write { address: a, value } => {
            lemma_write_step(a, value, calls, r);
            let n = calls.len();
            let before = calls.take(n - 2);
            lemma_nothing_acknowledged(before, address);
            assert(calls.drop_last().drop_last() == before);
            assert(calls.drop_last().last() == calls[n - 2]);
            assert(acknowledged(calls, address) == acknowledged(calls.drop_last(), address));
        },
        Step::Confirm { timeout } => {
            lemma_confirm_step(timeout, calls, r);
            lemma_nothing_acknowledged(calls, address);
        },
    }
}

/// Steps that all succeed leave every register acknowledged as the steps set it.
proof fn lemma_success_acknowledged(steps: Seq<Step>, calls: Seq<BusCall>, address: u16)
    requires
        performed(steps, calls, Ok(())),
    ensures
        acknowledged(calls, address) == set_by(steps, address),
    decreases steps.len(),
{
    if steps.len() > 0 {
        let r: Result<(), Error> = Ok(());
        let cut = choose|cut: int|
            {
                &&& 0 <= cut <= calls.len()
                &&& performed(steps.drop_last(), calls.take(cut), Ok(()))
                &&& #[trigger] stepped(steps.last(), calls.skip(cut), r)
            };
        lemma_success_acknowledged(steps.drop_last(), calls.take(cut), address);
        lemma_step_acknowledged(steps.last(), calls.skip(cut), r, address);
        lemma_later_counts(calls.take(cut), calls.skip(cut), address);
        assert(calls == calls.take(cut) + calls.skip(cut));
    }
}

/// A write in the record belongs to one of the steps, and by then all steps
/// before that one had succeeded.
proof fn lemma_write_in_order(steps: Seq<Step>, calls: Seq<BusCall>, r: Result<(), Error>, i: int) -> (at: (
    int,
    int,
))
    requires
        performed(steps, calls, r),
        0 <= i < calls.len(),
        calls[i] is Write,
    ensures
        ({
            let (k, cut) = at;
            &&& 0 <= k < steps.len()
            &&& 0 <= cut <= i
            &&& performed(steps.take(k), calls.take(cut), Ok(()))
            &&& steps[k] matches Step::Write { address, value }
            &&& writes(calls[i], address, value)
            &&& only_writes(calls, cut, i, address, value)
        }),
    decreases steps.len(),
{
    let front = steps.drop_last();
    if r is Err && performed(front, calls, r) {
        let (k, cut) = lemma_write_in_order(front, calls, r, i);
        assert(front.take(k) == steps.take(k));
        (k, cut)
    } else {
        let cut = choose|cut: int|
            {
                &&& 0 <= cut <= calls.len()
                &&& performed(front, calls.take(cut), Ok(()))
                &&& #[trigger] stepped(steps.last(), calls.skip(cut), r)
            };
        if i < cut {
            let (k, earlier) = lemma_write_in_order(front, calls.take(cut), Ok(()), i);
            assert(front.take(k) == steps.take(k));
            assert(calls.take(cut).take(earlier) == calls.take(earlier));
            assert(calls.take(cut)[i] == calls[i]);
            assert forall|j: int| earlier <= j <= i implies #[trigger] calls[j] is Pause || writes(
                calls[j],
                steps[k]->address,
                steps[k]->value,
            ) by {
                assert(calls.take(cut)[j] == calls[j]);
            }
            (k, earlier)
        } else {
            let segment = calls.skip(cut);
            assert(segment[i - cut] == calls[i]);
            match steps.last() {
                Step::Write { address, value } => {
                    lemma_write_step(address, value, segment, r);
                    assert forall|j: int| cut <= j <= i implies #[trigger] calls[j] is Pause
                        || writes(calls[j], address, value) by {
                        assert(segment[j - cut] == calls[j]);
                    }
                },
                Step::Confirm { timeout } => {
                    lemma_confirm_step(timeout, segment, r);
                },
            }
            assert(steps.take(steps.len() - 1) == front);
            (steps.len() - 1, cut)
        }
    }
}

/// A stretch of calls that write to one address acknowledges no other.
proof fn lemma_stretch_acknowledges_one(
    calls: Seq<BusCall>,
    cut: int,
    i: int,
    address: u16,
    value: u16,
    other: u16,
)
    requires
        0 <= cut <= i < calls.len(),
        only_writes(calls, cut, i, address, value),
        other != address,
    ensures
        acknowledged(calls.take(i), other) == acknowledged(calls.take(cut), other),
{
    let stretch = calls.subrange(cut, i);
    assert(calls.take(i) == calls.take(cut) + stretch);
    assert forall|j: int| 0 <= j < stretch.len() implies !(
    #[trigger] stretch[j] matches BusCall::Write { address: a, ack: Ok(_), .. } && a == other) by {
        assert(stretch[j] == calls[cut + j]);
    }
    lemma_nothing_acknowledged(stretch, other);
    lemma_later_counts(calls.take(cut), stretch, other);
}

/// However the bus replies, every write of any step is followed at once by a
/// rest of at least the gap between writes.
pub proof fn law_writes_are_spaced(steps: Seq<Step>, calls: Seq<BusCall>, r: Result<(), Error>)
    requires
        performed(steps, calls, r),
    ensures
        spaced(calls),
    decreases steps.len(),
{
    if steps.len() > 0 {
        if r is Err && performed(steps.drop_last(), calls, r) {
            law_writes_are_spaced(steps.drop_last(), calls, r);
        } else {
            let cut = choose|cut: int|
                {
                    &&& 0 <= cut <= calls.len()
                    &&& performed(steps.drop_last(), calls.take(cut), Ok(()))
                    &&& #[trigger] stepped(steps.last(), calls.skip(cut), r)
                };
            law_writes_are_spaced(steps.drop_last(), calls.take(cut), Ok(()));
            match steps.last() {
                Step::Write { address, value } => lemma_write_step(
                    address,
                    value,
                    calls.skip(cut),
                    r,
                ),
                Step::Confirm { timeout } => lemma_confirm_step(timeout, calls.skip(cut), r),
            }
            assert forall|i: int| 0 <= i < calls.len() && (#[trigger] calls[i] is Write) implies i
                + 1 < calls.len() && rests(calls[i + 1]) by {
                if i < cut {
                    assert(calls.take(cut)[i] == calls[i]);
                    assert(calls.take(cut)[i + 1] == calls[i + 1]);
                } else {
                    assert(calls.skip(cut)[i - cut] == calls[i]);
                    assert(calls.skip(cut)[i + 1 - cut] == calls[i + 1]);
                }
            }
        }
    }
}

/// Remote control is never enabled before the old setpoint has been cleared
/// and self-use selected as the fallback: enabling resumes no old power.
pub proof fn law_enabling_resumes_nothing(
    timeout: u16,
    power: u16,
    calls: Seq<BusCall>,
    r: Result<(), Error>,
    i: int,
)
    requires
        performed(command_steps(timeout, power), calls, r),
        0 <= i < calls.len(),
        writes(calls[i], REMOTE_ENABLE, ENABLED),
    ensures
        acknowledged(calls.take(i), ACTIVE_POWER) == Some(0u16),
        acknowledged(calls.take(i), WORK_MODE) == Some(SELF_USE),
{
    let steps = command_steps(timeout, power);
    let (k, cut) = lemma_write_in_order(steps, calls, r, i);
    assert(k == 3);
    lemma_success_acknowledged(steps.take(3), calls.take(cut), ACTIVE_POWER);
    lemma_success_acknowledged(steps.take(3), calls.take(cut), WORK_MODE);
    let cleared = steps.take(3);
    assert(cleared.last() == steps[2]);
    assert(cleared.drop_last().last() == steps[1]);
    assert(set_by(cleared, ACTIVE_POWER) == Some(0u16));
    assert(set_by(cleared, WORK_MODE) == set_by(cleared.drop_last(), WORK_MODE));
    assert(set_by(cleared.drop_last(), WORK_MODE) == Some(SELF_USE));
    lemma_stretch_acknowledges_one(calls, cut, i, REMOTE_ENABLE, ENABLED, ACTIVE_POWER);
    lemma_stretch_acknowledges_one(calls, cut, i, REMOTE_ENABLE, ENABLED, WORK_MODE);
}

/// No power other than zero is asked for before the timeout has been written
/// after enabling, and read back as written; and nothing but that power is
/// written in between.
pub proof fn law_power_waits_for_a_confirmed_timeout(
    timeout: u16,
    power: u16,
    calls: Seq<BusCall>,
    r: Result<(), Error>,
    i: int,
    value: u16,
) -> (confirmed: int)
    requires
        performed(command_steps(timeout, power), calls, r),
        0 <= i < calls.len(),
        writes(calls[i], ACTIVE_POWER, value),
        value != 0,
    ensures
        value == power,
        acknowledged(calls.take(i), REMOTE_ENABLE) == Some(ENABLED),
        acknowledged(calls.take(i), TIMEOUT_SET) == Some(timeout),
        0 <= confirmed < i,
        reads_back(calls[confirmed], timeout),
        only_writes(calls, confirmed + 1, i, ACTIVE_POWER, power),
{
    let steps = command_steps(timeout, power);
    let (k, cut) = lemma_write_in_order(steps, calls, r, i);
    assert(k == 6);
    let armed = steps.take(6);
    let before = calls.take(cut);
    lemma_success_acknowledged(armed, before, REMOTE_ENABLE);
    lemma_success_acknowledged(armed, before, TIMEOUT_SET);
    let written = armed.drop_last();
    let enabled = written.drop_last();
    assert(armed.last() == steps[5]);
    assert(written.last() == steps[4]);
    assert(enabled.last() == steps[3]);
    assert(set_by(armed, TIMEOUT_SET) == set_by(written, TIMEOUT_SET));
    assert(set_by(armed, REMOTE_ENABLE) == set_by(written, REMOTE_ENABLE));
    assert(set_by(written, TIMEOUT_SET) == Some(timeout));
    assert(set_by(written, REMOTE_ENABLE) == set_by(enabled, REMOTE_ENABLE));
    assert(set_by(enabled, REMOTE_ENABLE) == Some(ENABLED));
    lemma_stretch_acknowledges_one(calls, cut, i, ACTIVE_POWER, power, REMOTE_ENABLE);
    lemma_stretch_acknowledges_one(calls, cut, i, ACTIVE_POWER, power, TIMEOUT_SET);
    let ok: Result<(), Error> = Ok(());
    let earlier = choose|c: int|
        {
            &&& 0 <= c <= before.len()
            &&& performed(armed.drop_last(), before.take(c), Ok(()))
            &&& #[trigger] stepped(armed.last(), before.skip(c), ok)
        };
    lemma_confirm_step(timeout, before.skip(earlier), ok);
    assert(before.skip(earlier).last() == calls[cut - 1]);
    cut - 1
}

/// Once an override is programmed, whatever was programmed before, every
/// register of the remote-control block was last acknowledged as the override
/// has it.
pub proof fn law_a_programmed_override_holds(
    timeout: u16,
    power: u16,
    before: Seq<BusCall>,
    calls: Seq<BusCall>,
)
    requires
        performed(command_steps(timeout, power), calls, Ok(())),
    ensures
        acknowledged(before + calls, REMOTE_ENABLE) == Some(ENABLED),
        acknowledged(before + calls, WORK_MODE) == Some(SELF_USE),
        acknowledged(before + calls, TIMEOUT_SET) == Some(timeout),
        acknowledged(before + calls, ACTIVE_POWER) == Some(power),
{
    lemma_later_counts(before, calls, REMOTE_ENABLE);
    lemma_later_counts(before, calls, WORK_MODE);
    lemma_later_counts(before, calls, TIMEOUT_SET);
    lemma_later_counts(before, calls, ACTIVE_POWER);
    let steps = command_steps(timeout, power);
    lemma_success_acknowledged(steps, calls, REMOTE_ENABLE);
    lemma_success_acknowledged(steps, calls, WORK_MODE);
    lemma_success_acknowledged(steps, calls, TIMEOUT_SET);
    lemma_success_acknowledged(steps, calls, ACTIVE_POWER);
    reveal_with_fuel(set_by, 8);
    assert(steps.drop_last().last() == steps[5]);
    assert(steps.drop_last().drop_last().last() == steps[4]);
    assert(steps.drop_last().drop_last().drop_last().last() == steps[3]);
    assert(steps.drop_last().drop_last().drop_last().drop_last().last() == steps[2]);
    assert(steps.drop_last().drop_last().drop_last().drop_last().drop_last().last() == steps[1]);
}

/// Once the inverter is back in passive, whatever was programmed before,
/// remote control was last acknowledged as disabled and the work mode as
/// self-use.
pub proof fn law_passive_disables_remote_control(before: Seq<BusCall>, calls: Seq<BusCall>)
    requires
        performed(passive_steps(), calls, Ok(())),
    ensures
        acknowledged(before + calls, REMOTE_ENABLE) == Some(DISABLED),
        acknowledged(before + calls, WORK_MODE) == Some(SELF_USE),
        exists|i: int|
            0 <= i < calls.len() && #[trigger] writes(calls[i], WORK_MODE, SELF_USE) && forall|j: int|
                i < j < calls.len() ==> !(#[trigger] calls[j] is Write),
{
    let steps = passive_steps();
    let front = steps.drop_last();
    lemma_success_acknowledged(steps, calls, REMOTE_ENABLE);
    lemma_success_acknowledged(steps, calls, WORK_MODE);
    assert(front.last() == steps[0]);
    assert(set_by(front, REMOTE_ENABLE) == Some(DISABLED));
    assert(set_by(steps, WORK_MODE) == Some(SELF_USE));
    lemma_later_counts(before, calls, REMOTE_ENABLE);
    lemma_later_counts(before, calls, WORK_MODE);
    let ok: Result<(), Error> = Ok(());
    let cut = choose|c: int|
        {
            &&& 0 <= c <= calls.len()
            &&& performed(front, calls.take(c), Ok(()))
            &&& #[trigger] stepped(steps.last(), calls.skip(c), ok)
        };
    let segment = calls.skip(cut);
    lemma_write_step(WORK_MODE, SELF_USE, segment, ok);
    let i = calls.len() - 2;
    assert(segment[segment.len() - 2] == calls[i]);
    assert(segment.last() == calls[i + 1]);
    assert(writes(calls[i], WORK_MODE, SELF_USE));
}

/// The driver takes `command` on: passive always, and an override whose time
/// to live fits the timeout register, whose power is positive and fits the
/// power register, and which is not confined to the house.
pub open spec fn acceptable(command: Command) -> bool {
    command.mode == Mode::Passive || {
        &&& command.ttl matches Some(ttl)
        &&& ttl_fits(ttl)
        &&& command.mode != Mode::ForceDischarge || command.target != DischargeTarget::HouseOnly
        &&& command.mode != Mode::Hold ==> !command.power_kw.le(Decimal::Finite(0))
        &&& encoded(power_register(), remote_power(command)) is Some
    }
}

/// A command that the driver does not take on is refused without touching the
/// bus.
pub proof fn law_refused_commands_leave_the_bus_alone(
    command: Command,
    calls: Seq<BusCall>,
    r: Result<Applied, Error>,
)
    requires
        applied_as(command, calls, r),
        !acceptable(command),
    ensures
        r is Err,
        calls.len() == 0,
{
}

/// Whatever the command and however the bus replies, every write is followed
/// at once by a rest of at least the gap between writes.
pub proof fn law_commands_space_their_writes(
    command: Command,
    calls: Seq<BusCall>,
    r: Result<Applied, Error>,
)
    requires
        applied_as(command, calls, r),
    ensures
        spaced(calls),
{
    if command.mode == Mode::Passive {
        let done = choose|done: Result<(), Error>| #[trigger]
            performed(passive_steps(), calls, done);
        law_writes_are_spaced(passive_steps(), calls, done);
    } else {
        let values = choose|values: Result<(u16, u16, Decimal), Error>| #[trigger]
            valued(command, values) && match values {
                Ok((timeout, power, kw)) => overridden(timeout, power, kw, calls, r),
                Err(e) => calls.len() == 0 && r == Err::<Applied, Error>(e),
            };
        if let Ok((timeout, power, kw)) = values {
            let steps = command_steps(timeout, power);
            if performed(steps, calls, Ok(())) {
                law_writes_are_spaced(steps, calls, Ok(()));
            } else {
                let (cut, error, cleanup) = lemma_failed_override(timeout, power, kw, calls, r);
                law_writes_are_spaced(steps, calls.take(cut), Err(error));
                law_writes_are_spaced(passive_steps(), calls.skip(cut), cleanup);
                assert forall|i: int| 0 <= i < calls.len() && (#[trigger] calls[i] is Write) implies i
                    + 1 < calls.len() && rests(calls[i + 1]) by {
                    if i < cut {
                        assert(calls.take(cut)[i] == calls[i]);
                        assert(calls.take(cut)[i + 1] == calls[i + 1]);
                    } else {
                        assert(calls.skip(cut)[i - cut] == calls[i]);
                        assert(calls.skip(cut)[i + 1 - cut] == calls[i + 1]);
                    }
                }
            }
        }
    }
}

/// An override that was not programmed in full splits into the failed
/// programming and the return to passive.
pub(super) proof fn lemma_failed_override(
    timeout: u16,
    power: u16,
    kw: Decimal,
    calls: Seq<BusCall>,
    r: Result<Applied, Error>,
) -> (split: (int, Error, Result<(), Error>))
    requires
        overridden(timeout, power, kw, calls, r),
        r is Err || !performed(command_steps(timeout, power), calls, Ok(())),
    ensures
        0 <= split.0 <= calls.len(),
        performed(command_steps(timeout, power), calls.take(split.0), Err(split.1)),
        performed(passive_steps(), calls.skip(split.0), split.2),
        disabled_after(split.1, split.2, r),
{
    choose|cut: int, error: Error, cleanup: Result<(), Error>|
        {
            &&& 0 <= cut <= calls.len()
            &&& #[trigger] performed(
                command_steps(timeout, power),
                calls.take(cut),
                Err::<(), Error>(error),
            )
            &&& #[trigger] performed(passive_steps(), calls.skip(cut), cleanup)
            &&& disabled_after(error, cleanup, r)
        }
}

/// Whatever the command and however the bus replies, no power other than zero
/// is asked for unless the inverter has confirmed a timeout of at least a
/// second and no longer than the command's time to live, with nothing but
/// that power written since.
pub proof fn law_no_power_without_a_watchdog(
    command: Command,
    calls: Seq<BusCall>,
    r: Result<Applied, Error>,
    i: int,
    value: u16,
) -> (watchdog: (u16, int))
    requires
        applied_as(command, calls, r),
        0 <= i < calls.len(),
        writes(calls[i], ACTIVE_POWER, value),
        value != 0,
    ensures
        ({
            let (timeout, confirmed) = watchdog;
            &&& command.ttl matches Some(ttl)
            &&& NANOS_PER_SEC <= timeout * NANOS_PER_SEC <= duration_nanos(ttl)
            &&& 0 <= confirmed < i
            &&& reads_back(calls[confirmed], timeout)
            &&& only_writes(calls, confirmed + 1, i, ACTIVE_POWER, value)
        }),
{
    if command.mode == Mode::Passive {
        let done = choose|done: Result<(), Error>| #[trigger]
            performed(passive_steps(), calls, done);
        let at = lemma_write_in_order(passive_steps(), calls, done, i);
        (0, 0)
    } else {
        let values = choose|values: Result<(u16, u16, Decimal), Error>| #[trigger]
            valued(command, values) && match values {
                Ok((timeout, power, kw)) => overridden(timeout, power, kw, calls, r),
                Err(e) => calls.len() == 0 && r == Err::<Applied, Error>(e),
            };
        let (timeout, power, kw) = values->Ok_0;
        let steps = command_steps(timeout, power);
        if performed(steps, calls, Ok(())) {
            let confirmed = law_power_waits_for_a_confirmed_timeout(
                timeout,
                power,
                calls,
                Ok(()),
                i,
                value,
            );
            (timeout, confirmed)
        } else {
            let (cut, error, cleanup) = lemma_failed_override(timeout, power, kw, calls, r);
            if i < cut {
                let programmed = calls.take(cut);
                assert(programmed[i] == calls[i]);
                let confirmed = law_power_waits_for_a_confirmed_timeout(
                    timeout,
                    power,
                    programmed,
                    Err(error),
                    i,
                    value,
                );
                assert(programmed[confirmed] == calls[confirmed]);
                assert forall|j: int| confirmed + 1 <= j <= i implies #[trigger] calls[j] is Pause
                    || writes(calls[j], ACTIVE_POWER, value) by {
                    assert(programmed[j] == calls[j]);
                }
                (timeout, confirmed)
            } else {
                assert(calls.skip(cut)[i - cut] == calls[i]);
                let at = lemma_write_in_order(passive_steps(), calls.skip(cut), cleanup, i - cut);
                (0, 0)
            }
        }
    }
}

/// An override that fails after programming began is followed by an attempt
/// to return to passive; when that succeeds, remote control was last
/// acknowledged as disabled and the work mode as self-use.
pub proof fn law_a_failed_override_returns_to_passive(
    command: Command,
    calls: Seq<BusCall>,
    r: Result<Applied, Error>,
) -> (cleanup: Result<(), Error>)
    requires
        applied_as(command, calls, r),
        acceptable(command),
        command.mode != Mode::Passive,
        r is Err,
    ensures
        exists|cut: int|
            0 <= cut <= calls.len() && #[trigger] performed(
                passive_steps(),
                calls.skip(cut),
                cleanup,
            ),
        cleanup is Ok ==> acknowledged(calls, REMOTE_ENABLE) == Some(DISABLED),
        cleanup is Ok ==> acknowledged(calls, WORK_MODE) == Some(SELF_USE),
        cleanup is Err ==> r matches Err(Error::Comm(_)),
{
    let values = choose|values: Result<(u16, u16, Decimal), Error>| #[trigger]
        valued(command, values) && match values {
            Ok((timeout, power, kw)) => overridden(timeout, power, kw, calls, r),
            Err(e) => calls.len() == 0 && r == Err::<Applied, Error>(e),
        };
    let (timeout, power, kw) = values->Ok_0;
    let (cut, error, cleanup) = lemma_failed_override(timeout, power, kw, calls, r);
    if let Ok(done) = cleanup {
        assert(done == ());
        law_passive_disables_remote_control(calls.take(cut), calls.skip(cut));
        assert(calls.take(cut) + calls.skip(cut) == calls);
    }
    cleanup
}

/// What a driver reports as applied is what the inverter last acknowledged,
/// whatever went before: passive with remote control disabled, an override
/// with the reported timeout and power; and self-use as the work mode in
/// either case.
pub proof fn law_an_accepted_command_is_what_the_registers_hold<B: ModbusBus>(
    pre: FoxEss<B>,
    post: FoxEss<B>,
    command: Command,
    applied: Applied,
) -> (held: (u16, u16))
    requires
        pre.applies(&post, command, Ok(applied)),
    ensures
        ({
            let log = post.recorder().log();
            let (timeout, power) = held;
            &&& acknowledged(log, WORK_MODE) == Some(SELF_USE)
            &&& command.mode == Mode::Passive ==> acknowledged(log, REMOTE_ENABLE) == Some(DISABLED)
            &&& command.mode != Mode::Passive ==> {
                &&& acknowledged(log, REMOTE_ENABLE) == Some(ENABLED)
                &&& acknowledged(log, TIMEOUT_SET) == Some(timeout)
                &&& applied.expiry.times_out_after((timeout * NANOS_PER_SEC) as nat)
                &&& acknowledged(log, ACTIVE_POWER) == Some(power)
                &&& applied.power_kw == decoded(power_register(), seq![power]).size()
            }
        }),
{
    let before = pre.recorder().log();
    let calls = pre.calls_until(post);
    let r: Result<Applied, Error> = Ok(applied);
    if command.mode == Mode::Passive {
        let done = choose|done: Result<(), Error>| #[trigger]
            performed(passive_steps(), calls, done) && match done {
                Ok(_) => r matches Ok(applied) && applied.expiry == Expiry::UntilChanged
                    && applied.power_kw == Decimal::Finite(0),
                Err(e) => r == Err::<Applied, Error>(e),
            };
        assert(done is Ok && done->Ok_0 == ());
        law_passive_disables_remote_control(before, calls);
        (0, 0)
    } else {
        let values = choose|values: Result<(u16, u16, Decimal), Error>| #[trigger]
            valued(command, values) && match values {
                Ok((timeout, power, kw)) => overridden(timeout, power, kw, calls, r),
                Err(e) => calls.len() == 0 && r == Err::<Applied, Error>(e),
            };
        let (timeout, power, kw) = values->Ok_0;
        law_a_programmed_override_holds(timeout, power, before, calls);
        (timeout, power)
    }
}

/// The power word follows FoxESS's sign, and stands for the power asked for to
/// within half a watt: charging writes a negative number or zero, discharging
/// a positive one or zero, and holding zero.
pub proof fn law_the_power_word_stands_for_the_request(
    command: Command,
    timeout: u16,
    word: u16,
    kw: Decimal,
)
    requires
        valued(command, Ok((timeout, word, kw))),
    ensures
        command.mode == Mode::Hold ==> word == 0 && kw == Decimal::Finite(0),
        command.mode == Mode::ForceCharge ==> raw_count(power_register(), seq![word]) <= 0,
        command.mode == Mode::ForceDischarge ==> raw_count(power_register(), seq![word]) >= 0,
        command.mode != Mode::Hold ==> {
            &&& command.power_kw matches Decimal::Finite(asked)
            &&& kw matches Decimal::Finite(given)
            &&& -500_000_000_000 <= given - asked <= 500_000_000_000
        },
{
    let words = seq![word];
    let v = remote_power(command)->Finite_0 as int;
    let n = nearest(v, 1_000_000_000_000);
    assert(words.drop_last() =~= seq![]);
    assert(big_endian(seq![]) == 0);
    assert(big_endian(words) == word as nat);
    assert(word == word_of(n));
    assert(raw_count(power_register(), words) == n);
    lemma_nearest_is_near(v, 1_000_000_000_000);
    assert(decoded(power_register(), words) == Decimal::Finite((n * 1_000_000_000_000) as i128));
}

/// `value` is what `reg` decodes some words of its width to.
pub open spec fn reads_as(reg: RegisterDef, value: Decimal) -> bool {
    exists|words: Seq<u16>|
        words.len() == reg.words && value == #[trigger] decoded(reg, words)
}

/// Every value of a survey is decoded from its register's words.
proof fn lemma_surveyed_values(regs: Seq<RegisterDef>, calls: Seq<BusCall>, values: Seq<Decimal>)
    requires
        surveyed(regs, calls, Ok(values)),
    ensures
        values.len() == regs.len(),
        forall|i: int| 0 <= i < regs.len() ==> reads_as(regs[i], #[trigger] values[i]),
    decreases regs.len(),
{
    if regs.len() > 0 {
        let r: Result<Seq<Decimal>, Error> = Ok(values);
        let (cut, front, reading) = choose|
            cut: int,
            front: Seq<Decimal>,
            reading: Result<Decimal, Error>,
        |
            {
                &&& 0 <= cut <= calls.len()
                &&& surveyed(regs.drop_last(), calls.take(cut), Ok(front))
                &&& #[trigger] asked(Ask::Read(regs.last()), calls.skip(cut))
                &&& read_as(regs.last(), calls.skip(cut).last(), reading)
                &&& r == #[trigger] extended(front, reading)
            };
        lemma_surveyed_values(regs.drop_last(), calls.take(cut), front);
        let words = calls.skip(cut).last()->reply->Ok_0@;
        assert(reading == Ok::<Decimal, Error>(decoded(regs.last(), words)));
        assert(reads_as(regs.last(), values.last()));
        assert forall|i: int| 0 <= i < regs.len() implies reads_as(regs[i], #[trigger] values[i]) by {
            if i < regs.len() - 1 {
                assert(regs.drop_last()[i] == regs[i]);
                assert(front[i] == values[i]);
            }
        }
    }
}

/// An unsigned register of up to three words decodes to nothing negative.
proof fn lemma_unsigned_counts_up(reg: RegisterDef, value: Decimal)
    requires
        !reg.signed,
        reg.words <= 3,
        reg.scale >= 0,
        reads_as(reg, value),
    ensures
        Decimal::Finite(0).le(value),
{
    let words = choose|words: Seq<u16>|
        words.len() == reg.words && value == #[trigger] decoded(reg, words);
    reveal_with_fuel(big_endian, 4);
    let b = big_endian(words) as int;
    assert(0 <= b < 0x1_0000_0000_0000);
    assert(raw_count(reg, words) == b);
    assert(0 <= b * reg.scale) by (nonlinear_arith)
        requires
            0 <= b,
            0 <= reg.scale,
    ;
}

/// A sum of quantities that are not negative is not negative.
proof fn lemma_total_counts_up(values: Seq<Decimal>)
    requires
        forall|i: int| 0 <= i < values.len() ==> Decimal::Finite(0).le(#[trigger] values[i]),
    ensures
        Decimal::Finite(0).le(total(values)),
    decreases values.len(),
{
    if values.len() > 0 {
        assert(values.last() == values[values.len() - 1]);
        lemma_total_counts_up(values.drop_last());
    }
}

/// A reading carries the time at which it began: its clock readings come before
/// the first register, so retries count towards its age.
pub proof fn law_a_reading_carries_the_time_it_began<B: ModbusBus>(
    pre: FoxEss<B>,
    post: FoxEss<B>,
    t: Telemetry,
)
    requires
        pre.reads(&post, Ok(t)),
    ensures
        pre.calls_until(post).len() > 0,
        pre.calls_until(post)[0] == (BusCall::Clock { at: t.at, now: t.read_at }),
        forall|i: int|
            0 <= i < pre.calls_until(post).len() && (#[trigger] pre.calls_until(post)[i] is Read)
                ==> i > 0,
{
}

/// Reported consumption is never negative, and neither is reported generation
/// when the map's PV registers count up.
pub proof fn law_load_and_solar_are_not_negative(
    map: RegisterMap,
    calls: Seq<BusCall>,
    t: Telemetry,
)
    requires
        telemetry_read(map, calls, Ok(t)),
    ensures
        Decimal::Finite(0).le(t.load_kw),
        map.pv_counts_up() ==> Decimal::Finite(0).le(t.solar_kw),
{
    let values = choose|values: Result<Seq<Decimal>, Error>| #[trigger]
        surveyed(map.in_order(), calls, values) && match values {
            Ok(values) => {
                &&& values.len() == map.in_order().len()
                &&& reported(values, t)
            },
            Err(e) => Ok::<Telemetry, Error>(t) == Err::<Telemetry, Error>(e),
        };
    let values = values->Ok_0;
    let regs = map.in_order();
    lemma_surveyed_values(regs, calls, values);
    assert(reads_as(regs[3], values[3]));
    if map.pv_counts_up() {
        let pv = values.skip(4);
        assert forall|i: int| 0 <= i < pv.len() implies Decimal::Finite(0).le(
            #[trigger] pv[i],
        ) by {
            assert(pv[i] == values[i + 4]);
            assert(regs[i + 4] == map.pv_powers@[i]);
            lemma_unsigned_counts_up(map.pv_powers@[i], values[i + 4]);
        }
        lemma_total_counts_up(pv);
    }
}

} // verus!

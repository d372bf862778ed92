//! Programming the remote-control block: which registers are written, in what
//! order, and what that guarantees.
use super::exchange::{
    acknowledged_as, added, asked, pauses_for, read_as, read_register, since, write_register, Ask,
};
use super::registers::remote_control::{
    timeout_register, timeout_set, ACTIVE_POWER, DISABLED, ENABLED, REMOTE_ENABLE, SELF_USE,
    TIMEOUT_SET, WORK_MODE,
};
use crate::decimal::{Decimal, UNIT};
use crate::error::Error;
use crate::modbus::ModbusBus;
use crate::record::{BusCall, RecordedBus};
use crate::text::{append_decimal, decimal_text};
use crate::time::from_millis;
use vstd::prelude::*;

verus! {

/// The pause after every write, in milliseconds.
pub const WRITE_GAP_MILLIS: u32 = 30;

/// One step in programming the remote-control block.
#[derive(Clone, Copy, PartialEq, Eq, Debug, Structural)]
pub enum Step {
    /// Write a holding register, then leave the line alone for a moment.
    Write {
        /// The register's address.
        address: u16,
        /// The value to write.
        value: u16,
    },
    /// Read the timeout back and compare it with what was written.
    Confirm {
        /// The timeout that was written, in seconds.
        timeout: u16,
    },
}

/// What is said of a timeout that reads back as something else.
pub open spec fn timeout_mismatch(got: Decimal, timeout: u16) -> Seq<char> {
    "FoxESS timeout read-back returned "@ + got.shown() + " seconds, expected "@ + decimal_text(
        timeout as nat,
    )
}

/// `r` is what reading the timeout back as `reading` amounts to.
pub open spec fn confirmed_as(
    timeout: u16,
    reading: Result<Decimal, Error>,
    r: Result<(), Error>,
) -> bool {
    match reading {
        Ok(got) => if got == Decimal::Finite((timeout * UNIT) as i128) {
            r is Ok
        } else {
            r matches Err(Error::Readback(fault)) && fault@ == timeout_mismatch(got, timeout)
        },
        Err(e) => r == Err::<(), Error>(e),
    }
}

/// Taking `step` may make `calls` and return `r`.
pub open spec fn stepped(step: Step, calls: Seq<BusCall>, r: Result<(), Error>) -> bool {
    match step {
        Step::Write { address, value } => {
            &&& calls.len() >= 2
            &&& asked(Ask::Write(address, value), calls.drop_last())
            &&& acknowledged_as(calls[calls.len() - 2], r)
            &&& pauses_for(calls.last(), WRITE_GAP_MILLIS as nat)
        },
        Step::Confirm { timeout } => {
            &&& asked(Ask::Read(timeout_register()), calls)
            &&& exists|reading: Result<Decimal, Error>| #[trigger]
                read_as(timeout_register(), calls.last(), reading) && confirmed_as(
                    timeout,
                    reading,
                    r,
                )
        },
    }
}

/// Taking `steps` in order may make `calls` and return `r`: a step is taken
/// only when all before it succeeded, and the first failure is returned.
pub open spec fn performed(steps: Seq<Step>, calls: Seq<BusCall>, r: Result<(), Error>) -> bool
    decreases steps.len(),
{
    if steps.len() == 0 {
        calls.len() == 0 && r is Ok
    } else {
        ||| r is Err && performed(steps.drop_last(), calls, r)
        ||| exists|cut: int|
            {
                &&& 0 <= cut <= calls.len()
                &&& performed(steps.drop_last(), calls.take(cut), Ok(()))
                &&& #[trigger] stepped(steps.last(), calls.skip(cut), r)
            }
    }
}

/// The steps that return the inverter to self-use.
pub open spec fn passive_steps() -> Seq<Step> {
    seq![
        Step::Write { address: REMOTE_ENABLE, value: DISABLED },
        Step::Write { address: WORK_MODE, value: SELF_USE },
    ]
}

/// The steps that program an override.
///
/// The old remote state is cancelled and its setpoint cleared first, so a
/// partially programmed replacement fails passive and enabling resumes
/// nothing. Enabling resets the timeout, so the timeout is written after it,
/// and read back before any power is asked for. Writing the power loads the
/// inverter's countdown.
pub open spec fn command_steps(timeout: u16, power: u16) -> Seq<Step> {
    seq![
        Step::Write { address: REMOTE_ENABLE, value: DISABLED },
        Step::Write { address: WORK_MODE, value: SELF_USE },
        Step::Write { address: ACTIVE_POWER, value: 0 },
        Step::Write { address: REMOTE_ENABLE, value: ENABLED },
        Step::Write { address: TIMEOUT_SET, value: timeout },
        Step::Confirm { timeout },
        Step::Write { address: ACTIVE_POWER, value: power },
    ]
}

/// Take one step.
fn take_step<B: ModbusBus>(bus: &mut RecordedBus<B>, step: Step) -> (r: Result<(), Error>)
    ensures
        added(*old(bus), since(*old(bus), *final(bus)), *final(bus)),
        stepped(step, since(*old(bus), *final(bus)), r),
{
    match step {
        Step::Write { address, value } => {
            let r: Result<(), Error> = write_register(bus, address, value);
            let ghost written = since(*old(bus), *bus);
            bus.pause(from_millis(WRITE_GAP_MILLIS));
            proof {
                let calls = since(*old(bus), *bus);
                assert(calls.drop_last() == written);
                assert(calls == written.push(calls.last()));
                assert(calls[calls.len() - 2] == written.last());
                assert(bus.log() == old(bus).log() + calls);
            }
            r
        },
        Step::Confirm { timeout } => {
            let reading: Result<Decimal, Error> = read_register(bus, &timeout_set());
            assert(read_as(timeout_register(), since(*old(bus), *bus).last(), reading));
            match reading {
                Ok(got) => if got == Decimal::whole(timeout as i64) {
                    Ok(())
                } else {
                    let mut fault: String = "FoxESS timeout read-back returned ".to_owned();
                    fault.append(got.text().as_str());
                    fault.append(" seconds, expected ");
                    append_decimal(&mut fault, timeout as u128);
                    Err(Error::Readback(fault))
                },
                Err(e) => Err(e),
            }
        },
    }
}

/// Steps that fail early fail with any more steps after them.
proof fn lemma_failure_stands(steps: Seq<Step>, more: Seq<Step>, calls: Seq<BusCall>, r: Result<
    (),
    Error,
>)
    requires
        performed(steps, calls, r),
        r is Err,
    ensures
        performed(steps + more, calls, r),
    decreases more.len(),
{
    if more.len() == 0 {
        assert(steps + more == steps);
    } else {
        lemma_failure_stands(steps, more.drop_last(), calls, r);
        assert((steps + more).drop_last() == steps + more.drop_last());
    }
}

/// Take steps in order, until one fails.
pub fn perform<B: ModbusBus>(bus: &mut RecordedBus<B>, steps: &[Step]) -> (r: Result<(), Error>)
    ensures
        added(*old(bus), since(*old(bus), *final(bus)), *final(bus)),
        performed(steps@, since(*old(bus), *final(bus)), r),
{
    let ghost pre: RecordedBus<B> = *bus;
    let mut i: usize = 0;
    assert(steps@.take(0) == Seq::<Step>::empty());
    assert(since(pre, *bus) == Seq::<BusCall>::empty());
    while i < steps.len()
        invariant
            i <= steps.len(),
            pre == *old(bus),
            added(pre, since(pre, *bus), *bus),
            performed(steps@.take(i as int), since(pre, *bus), Ok(())),
        decreases steps.len() - i,
    {
        let ghost mid: RecordedBus<B> = *bus;
        let r: Result<(), Error> = take_step(bus, steps[i]);
        proof {
            let cut = since(pre, mid).len() as int;
            let calls = since(pre, *bus);
            let done = steps@.take(i + 1);
            assert(calls.take(cut) == since(pre, mid));
            assert(calls.skip(cut) == since(mid, *bus));
            assert(done.drop_last() == steps@.take(i as int));
            assert(stepped(done.last(), calls.skip(cut), r));
            assert(performed(done, calls, r));
            assert(bus.log() == pre.log() + calls);
            if r is Err {
                lemma_failure_stands(done, steps@.skip(i + 1), calls, r);
                assert(done + steps@.skip(i + 1) == steps@);
            }
        }
        match r {
            Ok(done) => {
                assert(done == ());
                assert(performed(steps@.take(i + 1), since(pre, *bus), Ok(())));
            },
            Err(e) => {
                return Err(e);
            },
        }
        i += 1;
    }
    assert(steps@.take(steps@.len() as int) == steps@);
    Ok(())
}

/// Return the inverter to self-use.
pub fn return_to_passive<B: ModbusBus>(bus: &mut RecordedBus<B>) -> (r: Result<(), Error>)
    ensures
        added(*old(bus), since(*old(bus), *final(bus)), *final(bus)),
        performed(passive_steps(), since(*old(bus), *final(bus)), r),
{
    let steps: [Step; 2] = [
        Step::Write { address: REMOTE_ENABLE, value: DISABLED },
        Step::Write { address: WORK_MODE, value: SELF_USE },
    ];
    assert(steps@ == passive_steps());
    perform(bus, &steps)
}

/// Program an override of so many seconds at so many raw watts.
pub fn program_command<B: ModbusBus>(bus: &mut RecordedBus<B>, timeout: u16, raw_power: u16) -> (r:
    Result<(), Error>)
    ensures
        added(*old(bus), since(*old(bus), *final(bus)), *final(bus)),
        performed(command_steps(timeout, raw_power), since(*old(bus), *final(bus)), r),
{
    let steps: [Step; 7] = [
        Step::Write { address: REMOTE_ENABLE, value: DISABLED },
        Step::Write { address: WORK_MODE, value: SELF_USE },
        Step::Write { address: ACTIVE_POWER, value: 0 },
        Step::Write { address: REMOTE_ENABLE, value: ENABLED },
        Step::Write { address: TIMEOUT_SET, value: timeout },
        Step::Confirm { timeout },
        Step::Write { address: ACTIVE_POWER, value: raw_power },
    ];
    assert(steps@ == command_steps(timeout, raw_power));
    perform(bus, &steps)
}

} // verus!

//! Modbus access to one unit.
//!
//! Drivers are written against [`ModbusBus`] and do not care whether the unit
//! is reached over a serial line or a TCP bridge.
use crate::error::Error;
use crate::register::{RegKind, RegisterDef};
use crate::text::{append_decimal, decimal_text};
use crate::time::{duration_nanos, from_millis};
use std::time::Duration;
use vstd::prelude::*;

verus! {

/// How often a bus operation is tried.
pub const RETRIES: u32 = 3;

/// The pause before the second try, in milliseconds; it doubles each time.
pub const BACKOFF_MILLIS: u32 = 500;

/// A Modbus connection to one unit.
///
/// The specification functions are the connection's own account of what each
/// method does to it; one that gives no account promises nothing. They exist
/// only in proofs.
pub trait ModbusBus: Send {
    /// Reading input registers may take the connection to `post` and return `r`.
    open spec fn inputs_read(
        &self,
        post: &Self,
        address: u16,
        words: u8,
        r: Result<Vec<u16>, Error>,
    ) -> bool {
        true
    }

    /// Reading holding registers may take the connection to `post` and return `r`.
    open spec fn holdings_read(
        &self,
        post: &Self,
        address: u16,
        words: u8,
        r: Result<Vec<u16>, Error>,
    ) -> bool {
        true
    }

    /// Writing a register may take the connection to `post` and return `r`.
    open spec fn holding_written(
        &self,
        post: &Self,
        address: u16,
        value: u16,
        r: Result<(), Error>,
    ) -> bool {
        true
    }

    /// Pausing may take the connection to `post`.
    open spec fn paused(&self, post: &Self, pause: Duration) -> bool {
        true
    }

    /// Read `words` input registers starting at `address`.
    fn read_input(&mut self, address: u16, words: u8) -> (r: Result<Vec<u16>, Error>)
        ensures
            old(self).inputs_read(final(self), address, words, r),
    ;

    /// Read `words` holding registers starting at `address`.
    fn read_holding(&mut self, address: u16, words: u8) -> (r: Result<Vec<u16>, Error>)
        ensures
            old(self).holdings_read(final(self), address, words, r),
    ;

    /// Write one holding register.
    fn write_holding(&mut self, address: u16, value: u16) -> (r: Result<(), Error>)
        ensures
            old(self).holding_written(final(self), address, value, r),
    ;

    /// Leave the line alone for `pause`.
    fn pause(&mut self, pause: Duration)
        ensures
            old(self).paused(final(self), pause),
    ;
}

/// Reading a register's words may take the bus from `pre` to `post` and
/// return `reply`: the table that the register lives in is asked for its
/// words at its address.
pub open spec fn register_read<B: ModbusBus>(
    reg: RegisterDef,
    pre: B,
    post: B,
    reply: Result<Vec<u16>, Error>,
) -> bool {
    match reg.kind {
        RegKind::Input => pre.inputs_read(&post, reg.address, reg.words, reply),
        RegKind::Holding => pre.holdings_read(&post, reg.address, reg.words, reply),
    }
}

/// What is said of a reply that does not carry as many words as asked for.
pub open spec fn short_reply(reg: RegisterDef, got: nat) -> Seq<char> {
    "short modbus reply for "@ + reg.name@ + ": got "@ + decimal_text(got) + " words, expected "@
        + decimal_text(reg.words as nat)
}

/// `r` is what becomes of the words in a reply: the words themselves when
/// there are as many as asked for, and an error otherwise.
pub open spec fn words_checked(reg: RegisterDef, words: Vec<u16>, r: Result<Vec<u16>, Error>) -> bool {
    if words@.len() == reg.words {
        r == Ok::<Vec<u16>, Error>(words)
    } else {
        r matches Err(Error::Comm(fault)) && fault@ == short_reply(reg, words@.len())
    }
}

/// `r` is what becomes of a bus reply: a failure is passed on, and words are
/// checked.
pub open spec fn reply_checked(
    reg: RegisterDef,
    reply: Result<Vec<u16>, Error>,
    r: Result<Vec<u16>, Error>,
) -> bool {
    match reply {
        Ok(words) => words_checked(reg, words, r),
        Err(e) => r == Err::<Vec<u16>, Error>(e),
    }
}

/// Reject a reply that does not carry as many words as the register has.
///
/// A truncated reply decodes to plausible zeroes, which is worse than an error.
pub fn check_words(reg: &RegisterDef, words: Vec<u16>) -> (r: Result<Vec<u16>, Error>)
    ensures
        words_checked(*reg, words, r),
{
    if words.len() != reg.words as usize {
        let mut fault: String = "short modbus reply for ".to_owned();
        fault.append(reg.name);
        fault.append(": got ");
        append_decimal(&mut fault, words.len() as u128);
        fault.append(" words, expected ");
        append_decimal(&mut fault, reg.words as u128);
        return Err(Error::Comm(fault));
    }
    Ok(words)
}

/// Read a register definition's words, rejecting short replies.
pub fn read_words<B: ModbusBus>(bus: &mut B, reg: &RegisterDef) -> (r: Result<Vec<u16>, Error>)
    ensures
        exists|reply: Result<Vec<u16>, Error>| #[trigger]
            register_read(*reg, *old(bus), *final(bus), reply) && reply_checked(*reg, reply, r),
        r matches Ok(words) ==> words@.len() == reg.words,
{
    let reply: Result<Vec<u16>, Error> = match reg.kind {
        RegKind::Input => bus.read_input(reg.address, reg.words),
        RegKind::Holding => bus.read_holding(reg.address, reg.words),
    };
    assert(register_read(*reg, *old(bus), *bus, reply));
    match reply {
        Ok(words) => check_words(reg, words),
        Err(e) => Err(e),
    }
}

/// Something to do with a bus that may be worth trying again.
pub trait Operation<B: ModbusBus> {
    /// What it yields.
    type Output;

    /// What must hold before it is run.
    spec fn ready(&self) -> bool;

    /// One run may take the bus from `pre` to `post` and return `r`.
    spec fn ran(&self, pre: B, post: B, r: Result<Self::Output, Error>) -> bool;

    /// Run it once.
    fn run(&self, bus: &mut B) -> (r: Result<Self::Output, Error>)
        requires
            self.ready(),
        ensures
            self.ran(*old(bus), *final(bus), r),
    ;
}

/// Trying `operation` up to `tries` times may take the bus from `pre` to
/// `post` and return `r`: the first success ends it, the last failure is
/// returned, and after each other failure the bus pauses, first for `delay`
/// milliseconds and then for twice as long each time.
pub open spec fn retried<B: ModbusBus, O: Operation<B>>(
    operation: O,
    pre: B,
    post: B,
    r: Result<O::Output, Error>,
    tries: nat,
    delay: nat,
) -> bool
    decreases tries,
{
    ||| (r is Ok || tries <= 1) && operation.ran(pre, post, r)
    ||| tries > 1 && exists|failed: B, rested: B, e: Error, pause: Duration|
        {
            &&& #[trigger] operation.ran(pre, failed, Err(e))
            &&& #[trigger] failed.paused(&rested, pause)
            &&& duration_nanos(pause) == delay * 1_000_000
            &&& retried(operation, rested, post, r, (tries - 1) as nat, delay * 2)
        }
}

/// Run a bus operation, retrying with exponential backoff.
///
/// Serial lines drop frames; a single failure is not evidence of a broken
/// inverter. Persistent failure is, and is reported.
pub fn with_retries<B: ModbusBus, O: Operation<B>>(bus: &mut B, operation: &O) -> (r: Result<
    O::Output,
    Error,
>)
    requires
        operation.ready(),
    ensures
        retried(*operation, *old(bus), *final(bus), r, RETRIES as nat, BACKOFF_MILLIS as nat),
{
    try_again(bus, operation, RETRIES, BACKOFF_MILLIS)
}

/// Run a bus operation up to `tries` times, pausing in between.
fn try_again<B: ModbusBus, O: Operation<B>>(
    bus: &mut B,
    operation: &O,
    tries: u32,
    delay: u32,
) -> (r: Result<O::Output, Error>)
    requires
        operation.ready(),
        1 <= tries <= RETRIES,
        tries == 3 ==> delay <= 500,
        tries == 2 ==> delay <= 1_000,
    ensures
        retried(*operation, *old(bus), *final(bus), r, tries as nat, delay as nat),
    decreases tries,
{
    match operation.run(bus) {
        Ok(value) => Ok(value),
        Err(e) => {
            if tries == 1 {
                return Err(e);
            }
            let ghost failed: B = *bus;
            let pause: Duration = from_millis(delay);
            bus.pause(pause);
            let ghost rested: B = *bus;
            assert(operation.ran(*old(bus), failed, Err(e)));
            assert(failed.paused(&rested, pause));
            try_again(bus, operation, tries - 1, delay * 2)
        },
    }
}

/// A reply is passed on as it is exactly when it has as many words as the
/// register; any other number of words is a communication error, and so is a
/// failed read.
pub proof fn law_only_whole_replies_are_passed_on(
    reg: RegisterDef,
    reply: Result<Vec<u16>, Error>,
    r: Result<Vec<u16>, Error>,
)
    requires
        reply_checked(reg, reply, r),
    ensures
        reply matches Ok(words) ==> {
            &&& words@.len() == reg.words ==> r == Ok::<Vec<u16>, Error>(words)
            &&& words@.len() != reg.words ==> (r matches Err(Error::Comm(_)))
        },
        reply matches Err(e) ==> r == Err::<Vec<u16>, Error>(e),
{
}

/// A register is read from its own table, at its own address, all of its words.
pub proof fn law_a_register_is_read_where_it_lives<B: ModbusBus>(
    reg: RegisterDef,
    pre: B,
    post: B,
    reply: Result<Vec<u16>, Error>,
)
    requires
        register_read(reg, pre, post, reply),
    ensures
        reg.kind == RegKind::Input ==> pre.inputs_read(&post, reg.address, reg.words, reply),
        reg.kind == RegKind::Holding ==> pre.holdings_read(&post, reg.address, reg.words, reply),
{
}

} // verus!

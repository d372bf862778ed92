//! Register reads and writes with retries, as they show in a bus's record.
use crate::decimal::Decimal;
use crate::error::Error;
use crate::modbus::{
    read_words, register_read, reply_checked, retried, short_reply, with_retries, ModbusBus,
    Operation, BACKOFF_MILLIS, RETRIES,
};
use crate::record::{BusCall, RecordedBus};
use crate::register::{decode, decoded, RegisterDef};
use crate::time::duration_nanos;
use vstd::prelude::*;

verus! {

/// Something asked of a bus, as often as it takes.
pub enum Ask {
    /// Read a register.
    Read(RegisterDef),
    /// Write this value to this address.
    Write(u16, u16),
}

impl Ask {
    /// `call` asks for this.
    pub open spec fn made_by(self, call: BusCall) -> bool {
        match (self, call) {
            (Ask::Read(reg), BusCall::Read { kind, address, words, .. }) => {
                kind == reg.kind && address == reg.address && words == reg.words
            },
            (Ask::Write(to, word), BusCall::Write { address, value, .. }) => {
                address == to && value == word
            },
            _ => false,
        }
    }

    /// `call` got what was asked for: as many words as the register has, or
    /// an acknowledged write.
    pub open spec fn met_by(self, call: BusCall) -> bool {
        match (self, call) {
            (Ask::Read(reg), BusCall::Read { reply, .. }) => {
                reply matches Ok(words) && words@.len() == reg.words
            },
            (Ask::Write(..), BusCall::Write { ack, .. }) => ack is Ok,
            _ => false,
        }
    }
}

/// `call` pauses for `millis` milliseconds.
pub open spec fn pauses_for(call: BusCall, millis: nat) -> bool {
    call matches BusCall::Pause { pause } && duration_nanos(pause) == millis * 1_000_000
}

/// `calls` ask for `ask` up to `tries` times: the first success ends them, and
/// after each other failure comes a pause, of `delay` milliseconds at first
/// and twice as long each time.
pub open spec fn attempts(ask: Ask, calls: Seq<BusCall>, tries: nat, delay: nat) -> bool
    decreases tries,
{
    &&& calls.len() > 0
    &&& ask.made_by(calls[0])
    &&& if ask.met_by(calls[0]) || tries <= 1 {
        calls.len() == 1
    } else {
        &&& calls.len() > 2
        &&& pauses_for(calls[1], delay)
        &&& attempts(ask, calls.skip(2), (tries - 1) as nat, delay * 2)
    }
}

/// `calls` ask for `ask` as often as a driver tries.
pub open spec fn asked(ask: Ask, calls: Seq<BusCall>) -> bool {
    attempts(ask, calls, RETRIES as nat, BACKOFF_MILLIS as nat)
}

/// `r` is the acknowledgement in `call`.
pub open spec fn acknowledged_as(call: BusCall, r: Result<(), Error>) -> bool {
    call matches BusCall::Write { ack, .. } && r == ack
}

/// `r` is what the reply in `call` says of `reg`: the decoded value when it
/// has all of the register's words, and an error otherwise.
pub open spec fn read_as(reg: RegisterDef, call: BusCall, r: Result<Decimal, Error>) -> bool {
    &&& call matches BusCall::Read { reply, .. }
    &&& match reply {
        Ok(words) => if words@.len() == reg.words {
            r == Ok::<Decimal, Error>(decoded(reg, words@))
        } else {
            r matches Err(Error::Comm(fault)) && fault@ == short_reply(reg, words@.len())
        },
        Err(e) => r == Err::<Decimal, Error>(e),
    }
}

/// `calls` were made between `pre` and `post`, and recorded.
pub open spec fn added<B: ModbusBus>(
    pre: RecordedBus<B>,
    calls: Seq<BusCall>,
    post: RecordedBus<B>,
) -> bool {
    &&& post.log() == pre.log() + calls
    &&& post.origin() == pre.origin()
    &&& pre.faithful() ==> post.faithful()
}

/// The calls recorded between `pre` and `post`.
pub open spec fn since<B: ModbusBus>(pre: RecordedBus<B>, post: RecordedBus<B>) -> Seq<BusCall> {
    post.log().skip(pre.log().len() as int)
}

/// One write of a register.
struct WriteRegister {
    address: u16,
    value: u16,
}

impl<B: ModbusBus> Operation<RecordedBus<B>> for WriteRegister {
    type Output = ();

    open spec fn ready(&self) -> bool {
        true
    }

    closed spec fn ran(
        &self,
        pre: RecordedBus<B>,
        post: RecordedBus<B>,
        r: Result<(), Error>,
    ) -> bool {
        pre.holding_written(&post, self.address, self.value, r)
    }

    fn run(&self, bus: &mut RecordedBus<B>) -> (r: Result<(), Error>) {
        bus.write_holding(self.address, self.value)
    }
}

/// One read of a register.
struct ReadRegister {
    reg: RegisterDef,
}

impl<B: ModbusBus> Operation<RecordedBus<B>> for ReadRegister {
    type Output = Decimal;

    closed spec fn ready(&self) -> bool {
        self.reg.decodable()
    }

    closed spec fn ran(
        &self,
        pre: RecordedBus<B>,
        post: RecordedBus<B>,
        r: Result<Decimal, Error>,
    ) -> bool {
        exists|call: BusCall| #[trigger]
            pre.recorded(post, call) && Ask::Read(self.reg).made_by(call) && read_as(
                self.reg,
                call,
                r,
            )
    }

    fn run(&self, bus: &mut RecordedBus<B>) -> (r: Result<Decimal, Error>) {
        let words: Result<Vec<u16>, Error> = read_words(bus, &self.reg);
        let ghost reply: Result<Vec<u16>, Error> = choose|reply: Result<Vec<u16>, Error>|
            #[trigger] register_read(self.reg, *old(bus), *bus, reply) && reply_checked(
                self.reg,
                reply,
                words,
            );
        let ghost call = BusCall::Read {
            kind: self.reg.kind,
            address: self.reg.address,
            words: self.reg.words,
            reply,
        };
        assert(register_read(self.reg, *old(bus), *bus, reply));
        assert(old(bus).recorded(*bus, call));
        match words {
            Ok(words) => Ok(decode(&self.reg, words.as_slice())),
            Err(e) => Err(e),
        }
    }
}

/// Tries at a write show in the record as such.
proof fn lemma_writes_recorded<B: ModbusBus>(
    op: WriteRegister,
    pre: RecordedBus<B>,
    post: RecordedBus<B>,
    r: Result<(), Error>,
    tries: nat,
    delay: nat,
) -> (calls: Seq<BusCall>)
    requires
        tries >= 1,
        retried(op, pre, post, r, tries, delay),
    ensures
        added(pre, calls, post),
        attempts(Ask::Write(op.address, op.value), calls, tries, delay),
        acknowledged_as(calls.last(), r),
    decreases tries,
{
    let ask = Ask::Write(op.address, op.value);
    if (r is Ok || tries <= 1) && op.ran(pre, post, r) {
        let calls = seq![BusCall::Write { address: op.address, value: op.value, ack: r }];
        assert(post.log() == pre.log() + calls);
        calls
    } else {
        let (failed, rested, e, pause) = choose|
            failed: RecordedBus<B>,
            rested: RecordedBus<B>,
            e: Error,
            pause: std::time::Duration,
        |
            {
                &&& #[trigger] op.ran(pre, failed, Err(e))
                &&& #[trigger] failed.paused(&rested, pause)
                &&& duration_nanos(pause) == delay * 1_000_000
                &&& retried(op, rested, post, r, (tries - 1) as nat, delay * 2)
            };
        let rest = lemma_writes_recorded(op, rested, post, r, (tries - 1) as nat, delay * 2);
        let first = BusCall::Write { address: op.address, value: op.value, ack: Err(e) };
        let calls = seq![first, BusCall::Pause { pause }] + rest;
        assert(calls.skip(2) == rest);
        assert(post.log() == pre.log() + calls);
        calls
    }
}

/// Tries at a read show in the record as such.
proof fn lemma_reads_recorded<B: ModbusBus>(
    op: ReadRegister,
    pre: RecordedBus<B>,
    post: RecordedBus<B>,
    r: Result<Decimal, Error>,
    tries: nat,
    delay: nat,
) -> (calls: Seq<BusCall>)
    requires
        tries >= 1,
        retried(op, pre, post, r, tries, delay),
    ensures
        added(pre, calls, post),
        attempts(Ask::Read(op.reg), calls, tries, delay),
        read_as(op.reg, calls.last(), r),
    decreases tries,
{
    let ask = Ask::Read(op.reg);
    if (r is Ok || tries <= 1) && op.ran(pre, post, r) {
        let call = choose|call: BusCall| #[trigger]
            pre.recorded(post, call) && ask.made_by(call) && read_as(op.reg, call, r);
        let calls = seq![call];
        assert(post.log() == pre.log() + calls);
        calls
    } else {
        let (failed, rested, e, pause) = choose|
            failed: RecordedBus<B>,
            rested: RecordedBus<B>,
            e: Error,
            pause: std::time::Duration,
        |
            {
                &&& #[trigger] op.ran(pre, failed, Err(e))
                &&& #[trigger] failed.paused(&rested, pause)
                &&& duration_nanos(pause) == delay * 1_000_000
                &&& retried(op, rested, post, r, (tries - 1) as nat, delay * 2)
            };
        let first = choose|call: BusCall| #[trigger]
            pre.recorded(failed, call) && ask.made_by(call) && read_as(
                op.reg,
                call,
                Err::<Decimal, Error>(e),
            );
        let rest = lemma_reads_recorded(op, rested, post, r, (tries - 1) as nat, delay * 2);
        let calls = seq![first, BusCall::Pause { pause }] + rest;
        assert(calls.skip(2) == rest);
        assert(post.log() == pre.log() + calls);
        calls
    }
}

/// Write a register, retrying with backoff.
pub fn write_register<B: ModbusBus>(bus: &mut RecordedBus<B>, address: u16, value: u16) -> (r:
    Result<(), Error>)
    ensures
        ({
            let calls = since(*old(bus), *final(bus));
            &&& added(*old(bus), calls, *final(bus))
            &&& asked(Ask::Write(address, value), calls)
            &&& acknowledged_as(calls.last(), r)
        }),
{
    let op: WriteRegister = WriteRegister { address, value };
    let r: Result<(), Error> = with_retries(bus, &op);
    proof {
        let calls = lemma_writes_recorded(
            op,
            *old(bus),
            *bus,
            r,
            RETRIES as nat,
            BACKOFF_MILLIS as nat,
        );
        assert(since(*old(bus), *bus) == calls);
    }
    r
}

/// Read and decode a register, retrying with backoff.
pub fn read_register<B: ModbusBus>(bus: &mut RecordedBus<B>, reg: &RegisterDef) -> (r: Result<
    Decimal,
    Error,
>)
    requires
        reg.decodable(),
    ensures
        ({
            let calls = since(*old(bus), *final(bus));
            &&& added(*old(bus), calls, *final(bus))
            &&& asked(Ask::Read(*reg), calls)
            &&& read_as(*reg, calls.last(), r)
        }),
{
    let op: ReadRegister = ReadRegister { reg: *reg };
    let r: Result<Decimal, Error> = with_retries(bus, &op);
    proof {
        let calls = lemma_reads_recorded(
            op,
            *old(bus),
            *bus,
            r,
            RETRIES as nat,
            BACKOFF_MILLIS as nat,
        );
        assert(since(*old(bus), *bus) == calls);
    }
    r
}

/// Something asked of the bus is asked at most three times, with half a second
/// and then a second in between, and no more once it has succeeded.
pub proof fn law_three_tries_at_most(ask: Ask, calls: Seq<BusCall>)
    requires
        asked(ask, calls),
    ensures
        calls.len() == 1 || calls.len() == 3 || calls.len() == 5,
        forall|i: int|
            0 <= i < calls.len() && i % 2 == 0 ==> ask.made_by(#[trigger] calls[i]) && (ask.met_by(
                calls[i],
            ) ==> i == calls.len() - 1),
        calls.len() < 5 ==> ask.met_by(calls.last()),
        calls.len() > 1 ==> pauses_for(calls[1], 500),
        calls.len() > 3 ==> pauses_for(calls[3], 1_000),
{
    reveal_with_fuel(attempts, 4);
    if calls.len() > 3 {
        assert(calls.skip(2)[1] == calls[3]);
        assert(calls.skip(2).skip(2) == calls.skip(4));
    }
}

/// A write is tried again only after one that was not acknowledged, and given
/// up only after three of those; every try is the same write.
pub proof fn law_a_write_is_tried_until_acknowledged(address: u16, value: u16, calls: Seq<BusCall>)
    requires
        asked(Ask::Write(address, value), calls),
    ensures
        calls.len() == 1 || calls.len() == 3 || calls.len() == 5,
        forall|i: int|
            0 <= i < calls.len() && i % 2 == 0 ==> (#[trigger] calls[i] matches BusCall::Write {
                address: a,
                value: v,
                ack,
            } && a == address && v == value && (i < calls.len() - 1 ==> ack is Err) && (i
                == calls.len() - 1 && i < 4 ==> ack is Ok)),
        forall|i: int|
            0 <= i < calls.len() && i % 2 == 1 ==> (#[trigger] calls[i] matches BusCall::Pause {
                pause,
            } && duration_nanos(pause) == (if i == 1 {
                500_000_000int
            } else {
                1_000_000_000
            })),
{
    reveal_with_fuel(attempts, 4);
    if calls.len() > 3 {
        assert(calls.skip(2)[0] == calls[2]);
        assert(calls.skip(2)[1] == calls[3]);
        assert(calls.skip(2).skip(2) == calls.skip(4));
        assert(calls.skip(4)[0] == calls[4]);
    } else if calls.len() > 1 {
        assert(calls.skip(2)[0] == calls[2]);
    }
}

/// A read is tried again only after one that failed or came back with the wrong
/// number of words, and given up only after three of those; every try asks for
/// the same register.
pub proof fn law_a_read_is_tried_until_answered(reg: RegisterDef, calls: Seq<BusCall>)
    requires
        asked(Ask::Read(reg), calls),
    ensures
        calls.len() == 1 || calls.len() == 3 || calls.len() == 5,
        forall|i: int|
            0 <= i < calls.len() && i % 2 == 0 ==> (#[trigger] calls[i] matches BusCall::Read {
                kind,
                address,
                words,
                reply,
            } && kind == reg.kind && address == reg.address && words == reg.words && (i < calls.len()
                - 1 ==> !(reply matches Ok(got) && got@.len() == reg.words)) && (i == calls.len() - 1
                && i < 4 ==> (reply matches Ok(got) && got@.len() == reg.words))),
        forall|i: int|
            0 <= i < calls.len() && i % 2 == 1 ==> (#[trigger] calls[i] matches BusCall::Pause {
                pause,
            } && duration_nanos(pause) == (if i == 1 {
                500_000_000int
            } else {
                1_000_000_000
            })),
{
    reveal_with_fuel(attempts, 4);
    if calls.len() > 3 {
        assert(calls.skip(2)[0] == calls[2]);
        assert(calls.skip(2)[1] == calls[3]);
        assert(calls.skip(2).skip(2) == calls.skip(4));
        assert(calls.skip(4)[0] == calls[4]);
    } else if calls.len() > 1 {
        assert(calls.skip(2)[0] == calls[2]);
    }
}

} // verus!

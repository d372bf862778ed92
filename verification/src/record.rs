//! A bus that keeps a record of what it was asked.
use crate::error::Error;
use crate::modbus::ModbusBus;
use crate::register::RegKind;
use std::time::{Duration, Instant, SystemTime};
use vstd::prelude::*;

verus! {

/// One thing asked of a bus, and what came of it.
pub enum BusCall {
    /// Registers were read.
    Read {
        /// The table asked.
        kind: RegKind,
        /// The first address.
        address: u16,
        /// How many words were asked for.
        words: u8,
        /// What the bus returned.
        reply: Result<Vec<u16>, Error>,
    },
    /// A holding register was written.
    Write {
        /// The address.
        address: u16,
        /// The value.
        value: u16,
        /// Whether the bus acknowledged it.
        ack: Result<(), Error>,
    },
    /// The line was left alone.
    Pause {
        /// For how long.
        pause: Duration,
    },
    /// The bus was not touched; the clocks were read between calls.
    Clock {
        /// The wall clock.
        at: SystemTime,
        /// The monotonic clock.
        now: Instant,
    },
}

/// `call` takes a bus from `pre` to `post`.
pub open spec fn call_made<B: ModbusBus>(pre: B, call: BusCall, post: B) -> bool {
    match call {
        BusCall::Read { kind: RegKind::Input, address, words, reply } => pre.inputs_read(
            &post,
            address,
            words,
            reply,
        ),
        BusCall::Read { kind: RegKind::Holding, address, words, reply } => pre.holdings_read(
            &post,
            address,
            words,
            reply,
        ),
        BusCall::Write { address, value, ack } => pre.holding_written(
            &post,
            address,
            value,
            ack,
        ),
        BusCall::Pause { pause } => pre.paused(&post, pause),
        BusCall::Clock { .. } => pre == post,
    }
}

/// `calls`, made one after the other, take a bus from `pre` to `post`.
pub open spec fn calls_made<B: ModbusBus>(pre: B, calls: Seq<BusCall>, post: B) -> bool
    decreases calls.len(),
{
    if calls.len() == 0 {
        pre == post
    } else {
        exists|before: B|
            calls_made(pre, calls.drop_last(), before) && #[trigger] call_made(
                before,
                calls.last(),
                post,
            )
    }
}

/// A bus together with the record of everything asked of it since it was
/// wrapped. The record exists only in proofs.
pub struct RecordedBus<B: ModbusBus> {
    bus: B,
    origin: Ghost<B>,
    log: Ghost<Seq<BusCall>>,
}

impl<B: ModbusBus> RecordedBus<B> {
    /// The bus as it is now.
    pub closed spec fn bus(self) -> B {
        self.bus
    }

    /// The bus as it was when it was wrapped.
    pub closed spec fn origin(self) -> B {
        self.origin@
    }

    /// The record.
    pub closed spec fn log(self) -> Seq<BusCall> {
        self.log@
    }

    /// The record is true: the calls in it are what took the bus from what it
    /// was to what it is.
    pub open spec fn faithful(self) -> bool {
        calls_made(self.origin(), self.log(), self.bus())
    }

    /// `call` was made and recorded.
    pub open spec fn recorded(self, post: Self, call: BusCall) -> bool {
        &&& call_made(self.bus(), call, post.bus())
        &&& post.origin() == self.origin()
        &&& post.log() == self.log().push(call)
        &&& self.faithful() ==> post.faithful()
    }

    /// Wrap a bus; its record starts empty.
    pub fn new(bus: B) -> (r: Self)
        ensures
            r.bus() == bus,
            r.origin() == bus,
            r.log() == Seq::<BusCall>::empty(),
            r.faithful(),
    {
        RecordedBus { bus, origin: Ghost(bus), log: Ghost(Seq::empty()) }
    }
}

/// Recording a call that was made keeps the record true.
proof fn lemma_record_stays_true<B: ModbusBus>(
    origin: B,
    log: Seq<BusCall>,
    pre: B,
    call: BusCall,
    post: B,
)
    requires
        calls_made(origin, log, pre),
        call_made(pre, call, post),
    ensures
        calls_made(origin, log.push(call), post),
{
    assert(log.push(call).drop_last() == log);
    assert(call_made(pre, log.push(call).last(), post));
}

impl<B: ModbusBus> RecordedBus<B> {
    /// Read the clocks. What they read is theirs alone; the record says when,
    /// among the calls, they were read.
    pub fn read_clocks(&mut self) -> (r: (SystemTime, Instant))
        ensures
            old(self).recorded(*final(self), BusCall::Clock { at: r.0, now: r.1 }),
    {
        let at: SystemTime = SystemTime::now();
        let now: Instant = Instant::now();
        let ghost call = BusCall::Clock { at, now };
        self.log = Ghost(self.log@.push(call));
        proof {
            let pre: RecordedBus<B> = *old(self);
            if pre.faithful() {
                lemma_record_stays_true(pre.origin@, pre.log@, pre.bus, call, self.bus);
            }
        }
        (at, now)
    }
}

impl<B: ModbusBus> ModbusBus for RecordedBus<B> {
    open spec fn inputs_read(
        &self,
        post: &Self,
        address: u16,
        words: u8,
        r: Result<Vec<u16>, Error>,
    ) -> bool {
        self.recorded(*post, BusCall::Read { kind: RegKind::Input, address, words, reply: r })
    }

    open spec fn holdings_read(
        &self,
        post: &Self,
        address: u16,
        words: u8,
        r: Result<Vec<u16>, Error>,
    ) -> bool {
        self.recorded(*post, BusCall::Read { kind: RegKind::Holding, address, words, reply: r })
    }

    open spec fn holding_written(
        &self,
        post: &Self,
        address: u16,
        value: u16,
        r: Result<(), Error>,
    ) -> bool {
        self.recorded(*post, BusCall::Write { address, value, ack: r })
    }

    open spec fn paused(&self, post: &Self, pause: Duration) -> bool {
        self.recorded(*post, BusCall::Pause { pause })
    }

    fn read_input(&mut self, address: u16, words: u8) -> (r: Result<Vec<u16>, Error>) {
        let r: Result<Vec<u16>, Error> = self.bus.read_input(address, words);
        let ghost call = BusCall::Read { kind: RegKind::Input, address, words, reply: r };
        self.log = Ghost(self.log@.push(call));
        proof {
            let pre: RecordedBus<B> = *old(self);
            if pre.faithful() {
                lemma_record_stays_true(pre.origin@, pre.log@, pre.bus, call, self.bus);
            }
        }
        r
    }

    fn read_holding(&mut self, address: u16, words: u8) -> (r: Result<Vec<u16>, Error>) {
        let r: Result<Vec<u16>, Error> = self.bus.read_holding(address, words);
        let ghost call = BusCall::Read { kind: RegKind::Holding, address, words, reply: r };
        self.log = Ghost(self.log@.push(call));
        proof {
            let pre: RecordedBus<B> = *old(self);
            if pre.faithful() {
                lemma_record_stays_true(pre.origin@, pre.log@, pre.bus, call, self.bus);
            }
        }
        r
    }

    fn write_holding(&mut self, address: u16, value: u16) -> (r: Result<(), Error>) {
        let r: Result<(), Error> = self.bus.write_holding(address, value);
        let ghost call = BusCall::Write { address, value, ack: r };
        self.log = Ghost(self.log@.push(call));
        proof {
            let pre: RecordedBus<B> = *old(self);
            if pre.faithful() {
                lemma_record_stays_true(pre.origin@, pre.log@, pre.bus, call, self.bus);
            }
        }
        r
    }

    fn pause(&mut self, pause: Duration) {
        self.bus.pause(pause);
        let ghost call = BusCall::Pause { pause };
        self.log = Ghost(self.log@.push(call));
        proof {
            let pre: RecordedBus<B> = *old(self);
            if pre.faithful() {
                lemma_record_stays_true(pre.origin@, pre.log@, pre.bus, call, self.bus);
            }
        }
    }
}

/// A record is of what was asked: a call in it is that operation of the bus,
/// with the same address, words, value or pause, and the same outcome.
pub proof fn law_a_recorded_call_was_made<B: ModbusBus>(pre: B, call: BusCall, post: B)
    requires
        call_made(pre, call, post),
    ensures
        match call {
            BusCall::Read { kind, address, words, reply } => {
                &&& kind == RegKind::Input ==> pre.inputs_read(&post, address, words, reply)
                &&& kind == RegKind::Holding ==> pre.holdings_read(&post, address, words, reply)
            },
            BusCall::Write { address, value, ack } => pre.holding_written(
                &post,
                address,
                value,
                ack,
            ),
            BusCall::Pause { pause } => pre.paused(&post, pause),
            BusCall::Clock { .. } => pre == post,
        },
{
}

/// A true record leaves nothing out and puts nothing in: its calls, one after
/// the other, take the bus from what it was to what it is.
pub proof fn law_a_record_is_complete<B: ModbusBus>(pre: B, calls: Seq<BusCall>, post: B) -> (buses:
    Seq<B>)
    requires
        calls_made(pre, calls, post),
    ensures
        buses.len() == calls.len() + 1,
        buses[0] == pre,
        buses.last() == post,
        forall|i: int|
            0 <= i < calls.len() ==> #[trigger] call_made(buses[i], calls[i], buses[i + 1]),
    decreases calls.len(),
{
    if calls.len() == 0 {
        seq![pre]
    } else {
        let before = choose|before: B|
            calls_made(pre, calls.drop_last(), before) && #[trigger] call_made(
                before,
                calls.last(),
                post,
            );
        let earlier = law_a_record_is_complete(pre, calls.drop_last(), before);
        let buses = earlier.push(post);
        assert forall|i: int| 0 <= i < calls.len() implies #[trigger] call_made(
            buses[i],
            calls[i],
            buses[i + 1],
        ) by {
            if i < calls.len() - 1 {
                assert(call_made(earlier[i], calls.drop_last()[i], earlier[i + 1]));
            } else {
                assert(buses[i] == before);
            }
        }
        buses
    }
}

} // verus!

//! What a telemetry read reports, in terms of what the bus replied.
use super::exchange::{asked, attempts, read_as, Ask};
use super::registers::{is_h1_g1, is_h1_g2, RegisterMap};
use super::{extended, surveyed, total, FoxEss};
use crate::decimal::Decimal;
use crate::driver::Inverter;
use crate::error::Error;
use crate::modbus::{ModbusBus, BACKOFF_MILLIS, RETRIES};
use crate::record::BusCall;
use crate::register::{decoded, law_one_word_decodes_to_its_count, RegKind, RegisterDef};
use crate::telemetry::Telemetry;
use vstd::prelude::*;

verus! {

/// `call` asked for `reg` and got `words`, as many as the register has.
pub open spec fn fetched(reg: RegisterDef, call: BusCall, words: Seq<u16>) -> bool {
    &&& call matches BusCall::Read { kind, address, words: count, reply: Ok(reply) }
    &&& kind == reg.kind
    &&& address == reg.address
    &&& count == reg.words
    &&& reply@ == words
    &&& words.len() == reg.words
}

/// Tries end with the call asked for.
proof fn lemma_tries_end_with_the_call(ask: Ask, calls: Seq<BusCall>, tries: nat, delay: nat)
    requires
        attempts(ask, calls, tries, delay),
    ensures
        calls.len() > 0,
        ask.made_by(calls.last()),
    decreases tries,
{
    if ask.met_by(calls[0]) || tries <= 1 {
    } else {
        lemma_tries_end_with_the_call(ask, calls.skip(2), (tries - 1) as nat, delay * 2);
        assert(calls.skip(2).last() == calls.last());
    }
}

/// The values of a survey come from replies of their registers, in order.
proof fn lemma_survey_is_fetched(regs: Seq<RegisterDef>, calls: Seq<BusCall>, values: Seq<Decimal>) -> (
    at: Seq<int>)
    requires
        surveyed(regs, calls, Ok(values)),
    ensures
        values.len() == regs.len(),
        at.len() == regs.len(),
        forall|i: int|
            0 <= i < regs.len() ==> 0 <= #[trigger] at[i] < calls.len() && from_reply(
                regs[i],
                calls[at[i]],
                values[i],
            ),
        forall|i: int, j: int| 0 <= i < j < regs.len() ==> at[i] < at[j],
    decreases regs.len(),
{
    if regs.len() == 0 {
        seq![]
    } else {
        let r: Result<Seq<Decimal>, Error> = Ok(values);
        let (cut, front, reading) = choose|
            cut: int,
            front: Seq<Decimal>,
            reading: Result<Decimal, Error>,
        |
            {
                &&& 0 <= cut <= calls.len()
                &&& surveyed(regs.drop_last(), calls.take(cut), Ok(front))
                &&& #[trigger] asked(Ask::Read(regs.last()), calls.skip(cut))
                &&& read_as(regs.last(), calls.skip(cut).last(), reading)
                &&& r == #[trigger] extended(front, reading)
            };
        let earlier = lemma_survey_is_fetched(regs.drop_last(), calls.take(cut), front);
        let segment = calls.skip(cut);
        lemma_tries_end_with_the_call(
            Ask::Read(regs.last()),
            segment,
            RETRIES as nat,
            BACKOFF_MILLIS as nat,
        );
        let last = calls.len() - 1;
        let at = earlier.push(last);
        let words = segment.last()->reply->Ok_0@;
        assert(segment.last() == calls[last]);
        assert(fetched(regs.last(), calls[last], words));
        assert(from_reply(regs.last(), calls[last], values.last()));
        assert forall|i: int| 0 <= i < regs.len() implies 0 <= #[trigger] at[i] < calls.len()
            && from_reply(regs[i], calls[at[i]], values[i]) by {
            if i < regs.len() - 1 {
                assert(at[i] == earlier[i]);
                assert(regs.drop_last()[i] == regs[i]);
                assert(calls.take(cut)[at[i]] == calls[at[i]]);
                assert(front[i] == values[i]);
            }
        }
        at
    }
}

/// `value` is what `reg` decodes the words in the reply of `call` to.
pub open spec fn from_reply(reg: RegisterDef, call: BusCall, value: Decimal) -> bool {
    exists|words: Seq<u16>| #[trigger] fetched(reg, call, words) && value == decoded(reg, words)
}

/// Every value is a quantity, and `parts` are their parts.
pub open spec fn counts_of(values: Seq<Decimal>, parts: Seq<int>) -> bool {
    &&& values.len() == parts.len()
    &&& forall|i: int|
        0 <= i < values.len() ==> (#[trigger] values[i] matches Decimal::Finite(n) && n == parts[i])
}

/// The sum of `parts`.
pub open spec fn added_up(parts: Seq<int>) -> int {
    parts.fold_left(0int, |sum: int, part: int| sum + part)
}

/// Every sum on the way can be counted.
pub open spec fn countable(parts: Seq<int>) -> bool {
    forall|k: int|
        0 <= k <= parts.len() ==> i128::MIN <= #[trigger] added_up(parts.take(k)) <= i128::MAX
}

/// Adding up one more part adds that part.
proof fn lemma_added_up_grows(parts: Seq<int>)
    requires
        parts.len() > 0,
    ensures
        added_up(parts) == added_up(parts.drop_last()) + parts.last(),
{
    reveal_with_fuel(Seq::fold_left, 2);
}

/// Quantities total the sum of their parts.
pub proof fn law_quantities_total_their_sum(values: Seq<Decimal>, parts: Seq<int>)
    requires
        counts_of(values, parts),
        countable(parts),
    ensures
        total(values) matches Decimal::Finite(n) && n == added_up(parts),
    decreases values.len(),
{
    if values.len() > 0 {
        let (front, front_parts) = (values.drop_last(), parts.drop_last());
        assert(front_parts == parts.take(parts.len() - 1));
        assert forall|k: int| 0 <= k <= front_parts.len() implies i128::MIN <= #[trigger] added_up(
            front_parts.take(k),
        ) <= i128::MAX by {
            assert(front_parts.take(k) == parts.take(k));
        }
        law_quantities_total_their_sum(front, front_parts);
        lemma_added_up_grows(parts);
        assert(parts.take(parts.len() as int) == parts);
        assert(values[values.len() - 1] == values.last());
        assert(i128::MIN <= added_up(parts) <= i128::MAX);
    } else {
        assert(parts == Seq::<int>::empty());
        assert(total(values) == Decimal::Finite(0));
    }
}

/// When one quantity changes, their sum changes by as much, whichever it is.
pub proof fn law_each_part_counts_once(parts: Seq<int>, i: int, part: int)
    requires
        0 <= i < parts.len(),
    ensures
        added_up(parts.update(i, part)) == added_up(parts) + part - parts[i],
        added_up(Seq::<int>::empty()) == 0,
    decreases parts.len(),
{
    lemma_added_up_grows(parts);
    let changed = parts.update(i, part);
    lemma_added_up_grows(changed);
    if i < parts.len() - 1 {
        law_each_part_counts_once(parts.drop_last(), i, part);
        assert(changed.drop_last() == parts.drop_last().update(i, part));
    } else {
        assert(changed.drop_last() == parts.drop_last());
    }
    assert(added_up(Seq::<int>::empty()) == 0);
}

/// What a successful read did on the bus: where the reply of each register
/// stands, and what each decodes to.
proof fn lemma_read_is_fetched<B: ModbusBus>(pre: FoxEss<B>, post: FoxEss<B>, t: Telemetry) -> (found:
    (Seq<int>, Seq<Decimal>))
    requires
        pre.reads(&post, Ok(t)),
    ensures
        ({
            let (at, values) = found;
            let calls = pre.calls_until(post);
            let regs = pre.map().in_order();
            &&& at.len() == regs.len()
            &&& values.len() == regs.len()
            &&& forall|i: int|
                0 <= i < regs.len() ==> 0 < #[trigger] at[i] < calls.len() && from_reply(
                    regs[i],
                    calls[at[i]],
                    values[i],
                )
            &&& forall|i: int, j: int| 0 <= i < j < regs.len() ==> at[i] < at[j]
            &&& t.soc_pct == values[0]
            &&& t.battery_kw == values[1]
            &&& t.grid_kw == values[2]
            &&& t.load_kw == values[3].floored(0)
            &&& t.solar_kw == total(values.skip(4))
        }),
{
    let all = pre.calls_until(post);
    let calls = all.skip(1);
    let regs = pre.map().in_order();
    let found = choose|values: Result<Seq<Decimal>, Error>| #[trigger]
        surveyed(regs, calls, values) && match values {
            Ok(values) => {
                &&& values.len() == regs.len()
                &&& super::reported(values, t)
            },
            Err(e) => Ok::<Telemetry, Error>(t) == Err::<Telemetry, Error>(e),
        };
    let values = found->Ok_0;
    let from = lemma_survey_is_fetched(regs, calls, values);
    let at = Seq::new(from.len(), |i: int| from[i] + 1);
    assert forall|i: int| 0 <= i < regs.len() implies 0 < #[trigger] at[i] < all.len()
        && from_reply(regs[i], all[at[i]], values[i]) by {
        assert(0 <= from[i] < calls.len());
        assert(calls[from[i]] == all[at[i]]);
    }
    assert forall|i: int, j: int| 0 <= i < j < regs.len() implies at[i] < at[j] by {
        assert(from[i] < from[j]);
    }
    (at, values)
}

/// A reading reports what the registers of the map replied: state of charge,
/// battery and grid power as decoded, the load as decoded but for what dips
/// below zero, and as PV generation the sum of all PV registers.
pub proof fn law_a_reading_reports_its_registers<B: ModbusBus>(
    pre: FoxEss<B>,
    post: FoxEss<B>,
    t: Telemetry,
) -> (found: (Seq<int>, Decimal, Seq<Decimal>))
    requires
        pre.reads(&post, Ok(t)),
    ensures
        ({
            let (at, load, strings) = found;
            let calls = pre.calls_until(post);
            let map = pre.map();
            &&& at.len() == 4 + map.pv_powers@.len()
            &&& strings.len() == map.pv_powers@.len()
            &&& forall|i: int| 0 <= i < at.len() ==> 0 < #[trigger] at[i] < calls.len()
            &&& forall|i: int, j: int| 0 <= i < j < at.len() ==> at[i] < at[j]
            &&& from_reply(map.battery_soc, calls[at[0]], t.soc_pct)
            &&& from_reply(map.battery_power, calls[at[1]], t.battery_kw)
            &&& from_reply(map.grid_power, calls[at[2]], t.grid_kw)
            &&& from_reply(map.load_power, calls[at[3]], load)
            &&& Decimal::Finite(0).le(load) ==> t.load_kw == load
            &&& !Decimal::Finite(0).le(load) ==> t.load_kw == Decimal::Finite(0)
            &&& forall|i: int|
                0 <= i < strings.len() ==> from_reply(
                    map.pv_powers@[i],
                    calls[at[4 + i]],
                    #[trigger] strings[i],
                )
            &&& strings.len() == 0 ==> t.solar_kw == Decimal::Finite(0)
            &&& strings.len() == 1 ==> t.solar_kw == strings[0]
            &&& forall|parts: Seq<int>| #[trigger]
                counts_of(strings, parts) && countable(parts) ==> (
                t.solar_kw matches Decimal::Finite(n) && n == added_up(parts))
        }),
{
    let (at, values) = lemma_read_is_fetched(pre, post, t);
    let map = pre.map();
    let regs = map.in_order();
    let calls = pre.calls_until(post);
    let strings = values.skip(4);
    assert(regs[0] == map.battery_soc && regs[1] == map.battery_power && regs[2] == map.grid_power
        && regs[3] == map.load_power);
    assert(from_reply(regs[0], calls[at[0]], values[0]));
    assert(from_reply(regs[1], calls[at[1]], values[1]));
    assert(from_reply(regs[2], calls[at[2]], values[2]));
    assert(from_reply(regs[3], calls[at[3]], values[3]));
    assert forall|i: int| 0 <= i < strings.len() implies from_reply(
        map.pv_powers@[i],
        calls[at[4 + i]],
        #[trigger] strings[i],
    ) by {
        assert(regs[4 + i] == map.pv_powers@[i]);
        assert(0 < at[4 + i]);
        assert(strings[i] == values[4 + i]);
    }
    assert forall|parts: Seq<int>| #[trigger]
        counts_of(strings, parts) && countable(parts) implies (
    t.solar_kw matches Decimal::Finite(n) && n == added_up(parts)) by {
        law_quantities_total_their_sum(strings, parts);
    }
    if strings.len() == 1 {
        reveal_with_fuel(total, 2);
        assert(strings.drop_last() == Seq::<Decimal>::empty());
    }
    (at, values[3], strings)
}

/// One word was fetched from `address` of a table.
pub open spec fn word_fetched(calls: Seq<BusCall>, kind: RegKind, address: u16, word: u16) -> bool {
    exists|i: int|
        0 <= i < calls.len() && (#[trigger] calls[i] matches BusCall::Read {
            kind: k,
            address: a,
            words: 1,
            reply: Ok(reply),
        } && k == kind && a == address && reply@ == seq![word])
}

/// The number in a word in two's complement.
pub open spec fn signed_word(word: u16) -> int {
    if word < 0x8000 {
        word as int
    } else {
        word - 0x1_0000
    }
}

/// `t` is what an H1 reports with these words in its registers: percent of
/// charge; watts of discharge, of export and of load, signed; and watts of two
/// PV strings.
pub open spec fn h1_reports(t: Telemetry, words: Seq<u16>) -> bool {
    &&& t.soc_pct matches Decimal::Finite(soc)
    &&& soc == words[0] * 1_000_000_000_000_000
    &&& t.battery_kw matches Decimal::Finite(battery)
    &&& battery == -signed_word(words[1]) * 1_000_000_000_000
    &&& t.grid_kw matches Decimal::Finite(grid)
    &&& grid == -signed_word(words[2]) * 1_000_000_000_000
    &&& t.load_kw matches Decimal::Finite(load)
    &&& load == (if signed_word(words[3]) < 0 {
        0
    } else {
        signed_word(words[3]) * 1_000_000_000_000
    })
    &&& t.solar_kw matches Decimal::Finite(solar)
    &&& solar == (words[4] + words[5]) * 1_000_000_000_000
}

/// The word behind a value that was fetched from a one-word register.
proof fn lemma_word_behind(calls: Seq<BusCall>, i: int, reg: RegisterDef, value: Decimal) -> (word:
    u16)
    requires
        0 <= i < calls.len(),
        reg.words == 1,
        from_reply(reg, calls[i], value),
    ensures
        word_fetched(calls, reg.kind, reg.address, word),
        value == crate::decimal::counted(
            (if reg.signed {
                signed_word(word)
            } else {
                word as int
            }) * reg.scale,
        ),
{
    let words = choose|words: Seq<u16>| #[trigger]
        fetched(reg, calls[i], words) && value == decoded(reg, words);
    assert(words =~= seq![words[0]]);
    law_one_word_decodes_to_its_count(reg, words[0]);
    words[0]
}

/// An H1 of either generation reports what stands in its registers, the G1 in
/// the input table and the G2 in the holding table, in the crate's units and
/// signs: charging and importing are positive, and both PV strings are summed.
pub proof fn law_an_h1_reports_its_registers<B: ModbusBus>(
    pre: FoxEss<B>,
    post: FoxEss<B>,
    t: Telemetry,
) -> (words: Seq<u16>)
    requires
        pre.reads(&post, Ok(t)),
        is_h1_g1(pre.map()) || is_h1_g2(pre.map()),
    ensures
        words.len() == 6,
        h1_reports(t, words),
        is_h1_g1(pre.map()) ==> {
            let calls = pre.calls_until(post);
            &&& word_fetched(calls, RegKind::Input, 11036, words[0])
            &&& word_fetched(calls, RegKind::Input, 11008, words[1])
            &&& word_fetched(calls, RegKind::Input, 11021, words[2])
            &&& word_fetched(calls, RegKind::Input, 11023, words[3])
            &&& word_fetched(calls, RegKind::Input, 11002, words[4])
            &&& word_fetched(calls, RegKind::Input, 11005, words[5])
        },
        is_h1_g2(pre.map()) ==> {
            let calls = pre.calls_until(post);
            &&& word_fetched(calls, RegKind::Holding, 31024, words[0])
            &&& word_fetched(calls, RegKind::Holding, 31022, words[1])
            &&& word_fetched(calls, RegKind::Holding, 31014, words[2])
            &&& word_fetched(calls, RegKind::Holding, 31016, words[3])
            &&& word_fetched(calls, RegKind::Holding, 39280, words[4])
            &&& word_fetched(calls, RegKind::Holding, 39282, words[5])
        },
{
    let map = pre.map();
    let calls = pre.calls_until(post);
    let (at, load, strings) = law_a_reading_reports_its_registers(pre, post, t);
    assert(0 < at[0] && 0 < at[1] && 0 < at[2] && 0 < at[3] && 0 < at[4] && 0 < at[5]);
    assert(from_reply(map.pv_powers@[0], calls[at[4int + 0]], strings[0]));
    assert(from_reply(map.pv_powers@[1], calls[at[4int + 1]], strings[1]));
    let soc = lemma_word_behind(calls, at[0], map.battery_soc, t.soc_pct);
    let battery = lemma_word_behind(calls, at[1], map.battery_power, t.battery_kw);
    let grid = lemma_word_behind(calls, at[2], map.grid_power, t.grid_kw);
    let used = lemma_word_behind(calls, at[3], map.load_power, load);
    let first = lemma_word_behind(calls, at[4], map.pv_powers@[0], strings[0]);
    let second = lemma_word_behind(calls, at[5], map.pv_powers@[1], strings[1]);
    let parts = seq![first * 1_000_000_000_000, second * 1_000_000_000_000];
    assert(counts_of(strings, parts));
    assert(added_up(Seq::<int>::empty()) == 0);
    assert(parts.take(0) =~= Seq::<int>::empty());
    assert(parts.take(1) =~= seq![parts[0]]);
    assert(parts.take(2) =~= parts);
    lemma_added_up_grows(parts.take(1));
    lemma_added_up_grows(parts);
    assert(parts.take(1).drop_last() =~= Seq::<int>::empty());
    assert(parts.drop_last() =~= parts.take(1));
    assert(countable(parts)) by {
        assert forall|k: int| 0 <= k <= parts.len() implies i128::MIN <= #[trigger] added_up(
            parts.take(k),
        ) <= i128::MAX by {
            assert(k == 0 || k == 1 || k == 2);
        }
    }
    seq![soc, battery, grid, used, first, second]
}

/// A survey that fails, fails because a reply did, with what became of it.
proof fn lemma_survey_fails_on_the_bus(regs: Seq<RegisterDef>, calls: Seq<BusCall>, e: Error) -> (at: (
    int,
    int,
))
    requires
        surveyed(regs, calls, Err(e)),
    ensures
        0 <= at.0 < regs.len(),
        0 <= at.1 < calls.len(),
        reply_failed(regs[at.0], calls[at.1], e),
    decreases regs.len(),
{
    let r: Result<Seq<Decimal>, Error> = Err(e);
    if surveyed(regs.drop_last(), calls, r) {
        let (k, i) = lemma_survey_fails_on_the_bus(regs.drop_last(), calls, e);
        assert(regs.drop_last()[k] == regs[k]);
        (k, i)
    } else {
        let (cut, front, reading) = choose|
            cut: int,
            front: Seq<Decimal>,
            reading: Result<Decimal, Error>,
        |
            {
                &&& 0 <= cut <= calls.len()
                &&& surveyed(regs.drop_last(), calls.take(cut), Ok(front))
                &&& #[trigger] asked(Ask::Read(regs.last()), calls.skip(cut))
                &&& read_as(regs.last(), calls.skip(cut).last(), reading)
                &&& r == #[trigger] extended(front, reading)
            };
        lemma_tries_end_with_the_call(
            Ask::Read(regs.last()),
            calls.skip(cut),
            RETRIES as nat,
            BACKOFF_MILLIS as nat,
        );
        assert(calls.skip(cut).last() == calls[calls.len() - 1]);
        (regs.len() - 1, calls.len() - 1)
    }
}

/// `call` asked for `reg` and failed with `e`, or got another number of words
/// than the register has.
pub open spec fn reply_failed(reg: RegisterDef, call: BusCall, e: Error) -> bool {
    &&& call matches BusCall::Read { kind, address, words, reply }
    &&& kind == reg.kind
    &&& address == reg.address
    &&& words == reg.words
    &&& match reply {
        Err(error) => e == error,
        Ok(words) => words@.len() != reg.words && e is Comm,
    }
}

/// A read fails only if the bus does: some register of the map could not be
/// read, or came back with the wrong number of words.
pub proof fn law_a_read_fails_only_on_the_bus<B: ModbusBus>(
    pre: FoxEss<B>,
    post: FoxEss<B>,
    error: Error,
) -> (at: (int, int))
    requires
        pre.reads(&post, Err(error)),
    ensures
        0 <= at.0 < pre.map().in_order().len(),
        0 <= at.1 < pre.calls_until(post).len(),
        reply_failed(pre.map().in_order()[at.0], pre.calls_until(post)[at.1], error),
{
    let all = pre.calls_until(post);
    let calls = all.skip(1);
    let regs = pre.map().in_order();
    let found = choose|values: Result<Seq<Decimal>, Error>| #[trigger]
        surveyed(regs, calls, values) && match values {
            Ok(_) => false,
            Err(e) => e == error,
        };
    let (k, i) = lemma_survey_fails_on_the_bus(regs, calls, error);
    assert(calls[i] == all[i + 1]);
    (k, i + 1)
}

/// Reading touches nothing: it makes no write.
pub proof fn law_reading_writes_nothing<B: ModbusBus>(
    pre: FoxEss<B>,
    post: FoxEss<B>,
    r: Result<Telemetry, Error>,
    i: int,
)
    requires
        pre.reads(&post, r),
        0 <= i < pre.calls_until(post).len(),
    ensures
        !(pre.calls_until(post)[i] is Write),
{
    let all = pre.calls_until(post);
    let calls = all.skip(1);
    let regs = pre.map().in_order();
    let values = choose|values: Result<Seq<Decimal>, Error>| #[trigger]
        surveyed(regs, calls, values);
    if i > 0 {
        lemma_survey_writes_nothing(regs, calls, values, i - 1);
        assert(calls[i - 1] == all[i]);
    }
}

/// A survey makes no write.
proof fn lemma_survey_writes_nothing(
    regs: Seq<RegisterDef>,
    calls: Seq<BusCall>,
    r: Result<Seq<Decimal>, Error>,
    i: int,
)
    requires
        surveyed(regs, calls, r),
        0 <= i < calls.len(),
    ensures
        !(calls[i] is Write),
    decreases regs.len(),
{
    if regs.len() > 0 {
        if r is Err && surveyed(regs.drop_last(), calls, r) {
            lemma_survey_writes_nothing(regs.drop_last(), calls, r, i);
        } else {
            let (cut, front, reading) = choose|
                cut: int,
                front: Seq<Decimal>,
                reading: Result<Decimal, Error>,
            |
                {
                    &&& 0 <= cut <= calls.len()
                    &&& surveyed(regs.drop_last(), calls.take(cut), Ok(front))
                    &&& #[trigger] asked(Ask::Read(regs.last()), calls.skip(cut))
                    &&& read_as(regs.last(), calls.skip(cut).last(), reading)
                    &&& r == #[trigger] extended(front, reading)
                };
            if i < cut {
                lemma_survey_writes_nothing(regs.drop_last(), calls.take(cut), Ok(front), i);
                assert(calls.take(cut)[i] == calls[i]);
            } else {
                lemma_tries_write_nothing(
                    regs.last(),
                    calls.skip(cut),
                    RETRIES as nat,
                    BACKOFF_MILLIS as nat,
                    i - cut,
                );
                assert(calls.skip(cut)[i - cut] == calls[i]);
            }
        }
    }
}

/// Tries at a read make no write.
proof fn lemma_tries_write_nothing(
    reg: RegisterDef,
    calls: Seq<BusCall>,
    tries: nat,
    delay: nat,
    i: int,
)
    requires
        attempts(Ask::Read(reg), calls, tries, delay),
        0 <= i < calls.len(),
    ensures
        !(calls[i] is Write),
    decreases tries,
{
    if Ask::Read(reg).met_by(calls[0]) || tries <= 1 {
    } else if i >= 2 {
        lemma_tries_write_nothing(reg, calls.skip(2), (tries - 1) as nat, delay * 2, i - 2);
        assert(calls.skip(2)[i - 2] == calls[i]);
    }
}

} // verus!

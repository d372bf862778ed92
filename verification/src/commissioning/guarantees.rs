//! What the commissioning tool does with what it is told and what it reads.
use super::trial::{course, Action, Event, Phase, Sight, Trial};
use super::{
    all_digits, digits_value, limits_read, parsed, range_found, ranged, reading_fault, verdict,
    whole_number, Failure,
};
use crate::command::{Applied, Command, Expiry};
use crate::decimal::Decimal;
use crate::error::Error;
use crate::modbus::ModbusBus;
use crate::mode::{DischargeTarget, Mode};
use crate::text::{lemma_mentions, mentions};
use crate::time::duration_nanos;
use std::time::Duration;
use vstd::prelude::*;

verus! {

/// A digit at the end of a number counts once, and what is before it ten times.
pub proof fn law_digits_spell_a_number(digits: Seq<char>, digit: char)
    requires
        '0' <= digit <= '9',
    ensures
        digits_value(digits.push(digit)) == 10 * digits_value(digits) + (digit as int - '0' as int),
        digits_value(Seq::<char>::empty()) == 0,
        all_digits(digits) ==> whole_number(digits) == Some(digits_value(digits)),
        all_digits(digits) ==> whole_number(seq!['+'] + digits) == Some(digits_value(digits)),
{
    assert(digits.push(digit).drop_last() == digits);
    assert((seq!['+'] + digits).skip(1) == digits);
    if all_digits(digits) {
        assert(digits[0] >= '0');
    }
}

/// A string with anything but digits after an optional plus is no number.
pub proof fn law_only_digits_are_a_number(s: Seq<char>, i: int)
    requires
        0 <= i < s.len(),
        !('0' <= s[i] <= '9'),
        i > 0 || s[i] != '+' || s.len() == 1,
    ensures
        whole_number(s) is None,
{
    if s[0] == '+' {
        let rest = s.skip(1);
        if i > 0 {
            assert(rest[i - 1] == s[i]);
        }
    }
}

/// A command line of a port and `passive` is taken as passive.
pub proof fn law_passive_is_parsed(
    args: Seq<String>,
    power: Result<Decimal, String>,
    r: Result<(String, Command), String>,
)
    requires
        parsed(args, power, r),
        args.len() == 2,
        args[1]@ == "passive"@,
    ensures
        args[0]@.len() > 0 ==> (r matches Ok((port, command)) && port@ == args[0]@ && command.mode
            == Mode::Passive && command.ttl is None),
        args[0]@.len() == 0 ==> r is Err,
{
}

/// A command line of a port, `charge` or `export`, a power and a number of
/// seconds is taken as that override exactly when the port is not empty, the
/// power is more than nothing and at most five kilowatts, and the seconds are
/// from 1 to 300.
pub proof fn law_an_override_is_parsed(
    args: Seq<String>,
    power: Result<Decimal, String>,
    r: Result<(String, Command), String>,
)
    requires
        parsed(args, power, r),
        args.len() == 4,
        args[1]@ == "charge"@ || args[1]@ == "export"@,
    ensures
        r is Ok <==> {
            &&& args[0]@.len() > 0
            &&& power matches Ok(Decimal::Finite(kw))
            &&& 0 < kw <= 5_000_000_000_000_000
            &&& whole_number(args[3]@) matches Some(seconds)
            &&& 1 <= seconds <= 300
        },
        r matches Ok((port, command)) ==> {
            &&& port@ == args[0]@
            &&& args[1]@ == "charge"@ ==> command.mode == Mode::ForceCharge
            &&& args[1]@ == "export"@ ==> command.mode == Mode::ForceDischarge && command.target
                == DischargeTarget::GridExport
            &&& power == Ok::<Decimal, String>(command.power_kw)
            &&& command.ttl matches Some(ttl)
            &&& whole_number(args[3]@) matches Some(seconds)
            &&& duration_nanos(ttl) == seconds * 1_000_000_000
        },
{
    reveal_strlit("charge");
    reveal_strlit("export");
    assert("charge"@[0] == 'c');
    assert("export"@[0] == 'e');
}

/// Any other command line is refused.
pub proof fn law_other_command_lines_are_refused(
    args: Seq<String>,
    power: Result<Decimal, String>,
    r: Result<(String, Command), String>,
)
    requires
        parsed(args, power, r),
        !(args.len() == 2 && args[1]@ == "passive"@),
        !(args.len() == 4 && (args[1]@ == "charge"@ || args[1]@ == "export"@)),
    ensures
        r is Err,
{
}

/// The charge range is the larger of fifteen percent and the inverter's lower
/// limit, up to the smaller of ninety-five percent and its upper limit; there is
/// one exactly when the limits are percentages in order and leave room.
pub proof fn law_the_charge_range_is_what_the_limits_leave(
    min: u16,
    max: u16,
    r: Result<(Decimal, Decimal), Failure>,
)
    requires
        ranged(min, max, r),
    ensures
        r is Ok <==> min < max <= 100 && min < 95 && max > 15,
        r matches Ok((low, high)) ==> {
            &&& low == Decimal::Finite(
                (if min > 15 {
                    min * 1_000_000_000_000_000
                } else {
                    15_000_000_000_000_000
                }) as i128,
            )
            &&& high == Decimal::Finite(
                (if max < 95 {
                    max * 1_000_000_000_000_000
                } else {
                    95_000_000_000_000_000
                }) as i128,
            )
        },
{
}

/// The limits come from the inverter: the lower one from holding register 41009
/// and the upper one from 41010, one word each.
pub proof fn law_the_charge_range_is_read_from_the_inverter<B: ModbusBus>(
    pre: B,
    post: B,
    range: (Decimal, Decimal),
) -> (read: (B, Vec<u16>, Vec<u16>))
    requires
        limits_read(pre, post, Ok(range)),
    ensures
        ({
            let (mid, min, max) = read;
            &&& pre.holdings_read(&mid, 41009, 1, Ok(min))
            &&& mid.holdings_read(&post, 41010, 1, Ok(max))
            &&& min@.len() == 1 && max@.len() == 1
            &&& ranged(min@[0], max@[0], Ok(range))
        }),
{
    let r: Result<(Decimal, Decimal), Failure> = Ok(range);
    let (mid, first, min) = choose|
        mid: B,
        first: Result<Vec<u16>, Error>,
        min: Result<Vec<u16>, Error>,
    |
        {
            &&& #[trigger] crate::modbus::register_read(
                super::limit_register("min_soc", 41009),
                pre,
                mid,
                first,
            )
            &&& #[trigger] crate::modbus::reply_checked(
                super::limit_register("min_soc", 41009),
                first,
                min,
            )
            &&& match min {
                Err(e) => post == mid && r == Err::<(Decimal, Decimal), Failure>(
                    Failure::Driver(e),
                ),
                Ok(low) => exists|second: Result<Vec<u16>, Error>, max: Result<Vec<u16>, Error>|
                    {
                        &&& #[trigger] crate::modbus::register_read(
                            super::limit_register("max_soc", 41010),
                            mid,
                            post,
                            second,
                        )
                        &&& #[trigger] crate::modbus::reply_checked(
                            super::limit_register("max_soc", 41010),
                            second,
                            max,
                        )
                        &&& match max {
                            Err(e) => r == Err::<(Decimal, Decimal), Failure>(Failure::Driver(e)),
                            Ok(high) => ranged(low@[0], high@[0], r),
                        }
                    },
            }
        };
    let low = min->Ok_0;
    let (second, max) = choose|second: Result<Vec<u16>, Error>, max: Result<Vec<u16>, Error>|
        {
            &&& #[trigger] crate::modbus::register_read(
                super::limit_register("max_soc", 41010),
                mid,
                post,
                second,
            )
            &&& #[trigger] crate::modbus::reply_checked(
                super::limit_register("max_soc", 41010),
                second,
                max,
            )
            &&& match max {
                Err(e) => r == Err::<(Decimal, Decimal), Failure>(Failure::Driver(e)),
                Ok(high) => ranged(low@[0], high@[0], r),
            }
        };
    (mid, low, max->Ok_0)
}

/// A reading lets a test go on: its charge level is a percentage and at most
/// five seconds old, and has not reached the limit that the command moves it
/// towards.
pub open spec fn lets_go_on(
    soc: Decimal,
    age: nat,
    command: Command,
    min_soc: Decimal,
    max_soc: Decimal,
) -> bool {
    &&& soc matches Decimal::Finite(level)
    &&& 0 <= level <= 100_000_000_000_000_000
    &&& age <= 5_000_000_000
    &&& command.mode == Mode::ForceCharge ==> !max_soc.le(soc)
    &&& command.mode == Mode::ForceDischarge ==> !soc.le(min_soc)
}

/// A reading has no fault exactly when it lets the test go on.
pub proof fn law_a_good_reading_passes(
    soc: Decimal,
    age: nat,
    command: Command,
    min_soc: Decimal,
    max_soc: Decimal,
)
    ensures
        reading_fault(soc, age, command, min_soc, max_soc) is None <==> lets_go_on(
            soc,
            age,
            command,
            min_soc,
            max_soc,
        ),
{
}

/// What was seen lets `trial` go on.
pub open spec fn seen_well(trial: Trial, sight: Sight) -> bool {
    lets_go_on(
        sight.soc_pct,
        duration_nanos(sight.age),
        trial.command,
        trial.min_soc,
        trial.max_soc,
    )
}

/// `action` sends the command to return to passive.
pub open spec fn sends_passive(action: Action) -> bool {
    action matches Action::Apply(command) && command.mode == Mode::Passive && command.ttl is None
}

/// `action` ends a test as failed.
pub open spec fn ends_failed(action: Action) -> bool {
    action matches Action::Finish(Err(_))
}

/// A test stays the test of one command within one charge range.
pub proof fn law_a_test_keeps_its_command(trial: Trial, event: Event, post: Trial, action: Action)
    requires
        trial.advances(event, post, action),
    ensures
        post.command == trial.command,
        post.min_soc == trial.min_soc,
        post.max_soc == trial.max_soc,
{
}

/// A test of passive sends it and ends with the answer; any other test starts
/// with a reading.
pub proof fn law_a_test_begins(trial: Trial, event: Event, post: Trial, action: Action)
    requires
        trial.advances(event, post, action),
        trial.phase is Start || trial.phase is Pacifying,
    ensures
        trial.phase is Start && trial.command.mode == Mode::Passive ==> action == Action::Apply(
            trial.command,
        ) && post.phase is Pacifying,
        trial.phase is Start && trial.command.mode != Mode::Passive ==> action is Read
            && post.phase is Before,
        trial.phase is Pacifying ==> post.phase is Over && (event matches Event::Answer(answer) && {
            &&& answer is Ok ==> (action matches Action::Finish(Ok(_)))
            &&& answer matches Err(e) ==> action == Action::Finish(Err(Failure::Driver(e)))
        }),
{
}

/// The override is sent exactly when the reading before it lets the test go on,
/// nobody asked to stop, and the command has a time to live; otherwise the test
/// ends as failed with nothing sent.
pub proof fn law_the_override_is_sent_on_a_good_reading(
    trial: Trial,
    reading: Result<Sight, Error>,
    post: Trial,
    action: Action,
)
    requires
        trial.phase is Before,
        trial.advances(Event::Reading(reading), post, action),
    ensures
        reading matches Ok(sight) && seen_well(trial, sight) && !sight.stopped && trial.command.ttl
            is Some ==> action == Action::Apply(trial.command) && post.phase is Applying,
        !(reading matches Ok(sight) && seen_well(trial, sight) && !sight.stopped
            && trial.command.ttl is Some) ==> ends_failed(action) && post.phase is Over,
{
}

/// The test goes on with an override that was accepted with an inverter timeout
/// that is neither zero nor longer than the time to live, and ends any other.
pub proof fn law_only_a_bounded_override_goes_on(
    trial: Trial,
    answer: Result<Applied, Error>,
    post: Trial,
    action: Action,
)
    requires
        trial.phase is Applying,
        trial.command.ttl is Some,
        trial.advances(Event::Answer(answer), post, action),
    ensures
        answer matches Ok(applied) && (applied.expiry matches Expiry::InverterTimeout(timeout) && 0
            < duration_nanos(timeout) <= duration_nanos(trial.command.ttl->Some_0)) ==> (
        action matches Action::Wait(pause) && duration_nanos(pause) == 0) && post.phase is Ticking,
        !(answer matches Ok(applied) && (applied.expiry matches Expiry::InverterTimeout(timeout) && 0
            < duration_nanos(timeout) <= duration_nanos(trial.command.ttl->Some_0)))
            ==> sends_passive(action) && (post.phase matches Phase::Restoring(Err(_))),
        answer matches Err(e) ==> post.phase == Phase::Restoring(Err(Failure::Driver(e))),
{
}

/// An override is left in force and read until its time to live has passed or
/// the test is asked to stop; not a moment less, and then passive is sent.
pub proof fn law_a_test_runs_its_time(
    trial: Trial,
    elapsed: Duration,
    stopped: bool,
    post: Trial,
    action: Action,
)
    requires
        trial.phase is Ticking,
        trial.command.ttl is Some,
        trial.advances(Event::Tick { elapsed, stopped }, post, action),
    ensures
        !stopped && duration_nanos(elapsed) < duration_nanos(trial.command.ttl->Some_0)
            ==> action is Read && post.phase is During,
        stopped || duration_nanos(elapsed) >= duration_nanos(trial.command.ttl->Some_0)
            ==> sends_passive(action) && (post.phase matches Phase::Restoring(Ok(_))),
{
}

/// A good reading during the override is followed by a pause of two seconds, or
/// of what is left of the time to live if that is less; a failed or a bad one
/// ends the override, and the test as failed.
pub proof fn law_a_bad_reading_ends_the_override(
    trial: Trial,
    reading: Result<Sight, Error>,
    post: Trial,
    action: Action,
)
    requires
        trial.phase is During,
        trial.command.ttl is Some,
        trial.advances(Event::Reading(reading), post, action),
    ensures
        reading matches Ok(sight) ==> (seen_well(trial, sight) ==> post.phase is Ticking && (
        action matches Action::Wait(pause) && {
            let left = duration_nanos(trial.command.ttl->Some_0) - duration_nanos(sight.elapsed);
            &&& left >= 2_000_000_000 ==> duration_nanos(pause) == 2_000_000_000
            &&& 0 <= left < 2_000_000_000 ==> duration_nanos(pause) == left
            &&& left < 0 ==> duration_nanos(pause) == 0
        })),
        !(reading matches Ok(sight) && seen_well(trial, sight)) ==> sends_passive(action) && (
        post.phase matches Phase::Restoring(Err(_))),
        reading matches Err(e) ==> post.phase == Phase::Restoring(Err(Failure::Driver(e))),
{
}

/// Once passive is acknowledged, a test that went well takes a last reading and
/// one that did not ends as failed; a test whose passive was not acknowledged
/// ends as failed in any case.
pub proof fn law_a_test_ends_after_passive(
    trial: Trial,
    event: Event,
    post: Trial,
    action: Action,
)
    requires
        trial.phase is Restoring || trial.phase is After,
        trial.advances(event, post, action),
    ensures
        trial.phase matches Phase::Restoring(result) ==> (event matches Event::Answer(answer) && {
            &&& answer is Ok && result is Ok ==> action is Read && post.phase is After
            &&& answer is Err || result is Err ==> ends_failed(action) && post.phase is Over
        }),
        trial.phase is After ==> post.phase is Over && (event matches Event::Reading(reading) && {
            &&& reading is Ok ==> (action matches Action::Finish(Ok(_)))
            &&& reading matches Err(e) ==> action == Action::Finish(Err(Failure::Driver(e)))
        }),
{
}

/// The command does not change over a course.
proof fn lemma_course_keeps_the_command(
    trials: Seq<Trial>,
    events: Seq<Event>,
    actions: Seq<Action>,
    i: int,
)
    requires
        course(trials, events, actions),
        0 <= i < trials.len(),
    ensures
        trials[i].command == trials[0].command,
    decreases i,
{
    if i > 0 {
        lemma_course_keeps_the_command(trials, events, actions, i - 1);
        assert(trials[i - 1].advances(events[i - 1], trials[i - 1 + 1], actions[i - 1]));
    }
}

/// A test that has come as far as an override has sent it.
proof fn lemma_the_override_was_sent(
    trials: Seq<Trial>,
    events: Seq<Event>,
    actions: Seq<Action>,
    i: int,
) -> (sent: int)
    requires
        course(trials, events, actions),
        0 <= i < trials.len(),
        trials[i].phase is Applying || trials[i].phase is Ticking || trials[i].phase is During,
    ensures
        0 <= sent < i,
        actions[sent] == Action::Apply(trials[0].command),
        trials[0].command.ttl is Some,
        events[sent] matches Event::Reading(Ok(sight)) && seen_well(trials[sent], sight),
    decreases i,
{
    lemma_course_keeps_the_command(trials, events, actions, i);
    lemma_course_keeps_the_command(trials, events, actions, i - 1);
    assert(trials[i - 1].advances(events[i - 1], trials[i - 1 + 1], actions[i - 1]));
    if trials[i].phase is Applying {
        i - 1
    } else {
        lemma_the_override_was_sent(trials, events, actions, i - 1)
    }
}

/// A test of an override that is reported as a success was one: the override
/// was sent after a good reading, it ran until its time to live had passed or
/// the test was asked to stop, passive was then sent and acknowledged, and a
/// last reading was taken.
pub proof fn law_success_means_a_completed_test(
    trials: Seq<Trial>,
    events: Seq<Event>,
    actions: Seq<Action>,
    j: int,
) -> (sent: int)
    requires
        course(trials, events, actions),
        trials[0].command.mode != Mode::Passive,
        0 <= j < events.len(),
        actions[j] matches Action::Finish(Ok(_)),
    ensures
        0 <= sent < j - 2,
        actions[sent] == Action::Apply(trials[0].command),
        events[sent] matches Event::Reading(Ok(sight)) && seen_well(trials[sent], sight),
        events[j - 2] matches Event::Tick { elapsed, stopped } && (stopped || (
        trials[0].command.ttl matches Some(ttl) && duration_nanos(elapsed) >= duration_nanos(ttl))),
        sends_passive(actions[j - 2]),
        events[j - 1] matches Event::Answer(Ok(_)),
        events[j] matches Event::Reading(Ok(_)),
{
    assert(trials[j].advances(events[j], trials[j + 1], actions[j]));
    lemma_course_keeps_the_command(trials, events, actions, j);
    if trials[j].phase is Pacifying {
        assert(trials[j - 1].advances(events[j - 1], trials[j - 1 + 1], actions[j - 1]));
        lemma_course_keeps_the_command(trials, events, actions, j - 1);
    }
    assert(trials[j].phase is After);
    assert(trials[j - 1].advances(events[j - 1], trials[j - 1 + 1], actions[j - 1]));
    assert(trials[j - 2].advances(events[j - 2], trials[j - 2 + 1], actions[j - 2]));
    lemma_course_keeps_the_command(trials, events, actions, j - 2);
    lemma_the_override_was_sent(trials, events, actions, j - 2)
}

/// A reading during the override that failed or was bad is followed by passive
/// and by the end of the test as failed, whatever the inverter answers.
pub proof fn law_a_bad_reading_is_never_a_success(
    trials: Seq<Trial>,
    events: Seq<Event>,
    actions: Seq<Action>,
    i: int,
    j: int,
)
    requires
        course(trials, events, actions),
        0 <= i < j < events.len(),
        trials[i].phase is During,
        events[i] matches Event::Reading(reading) && !(reading matches Ok(sight) && seen_well(
            trials[i],
            sight,
        )),
    ensures
        sends_passive(actions[i]),
        j == i + 1,
        ends_failed(actions[j]),
{
    assert(trials[i].advances(events[i], trials[i + 1], actions[i]));
    assert(trials[i + 1].advances(events[i + 1], trials[i + 1 + 1], actions[i + 1]));
    if j > i + 1 {
        assert(trials[i + 2].advances(events[i + 2], trials[i + 2 + 1], actions[i + 2]));
    }
}

/// A test waits for the beginning, then for the answer to each command it sent,
/// the reading it asked for and the clock, and in the end for nothing.
pub proof fn law_a_test_awaits_what_it_asked_for(
    trial: Trial,
    event: Event,
    post: Trial,
    action: Action,
    next: Event,
)
    requires
        trial.advances(event, post, action),
    ensures
        action is Apply ==> (post.expects(next) <==> next is Answer),
        action is Read ==> (post.expects(next) <==> next is Reading),
        action is Wait ==> (post.expects(next) <==> next is Tick),
        action is Finish ==> !post.expects(next),
{
}

/// Reading the charge range fails only if one of the two limits could not be
/// read, or came back with another number of words than one, or the limits
/// leave no range.
pub proof fn law_the_charge_range_fails_for_a_reason<B: ModbusBus>(
    pre: B,
    post: B,
    failure: Failure,
)
    requires
        limits_read(pre, post, Err(failure)),
    ensures
        ({
            ||| exists|reply: Result<Vec<u16>, Error>| #[trigger]
                pre.holdings_read(&post, 41009, 1, reply) && unread(reply, failure)
            ||| exists|mid: B, min: Vec<u16>, reply: Result<Vec<u16>, Error>| #[trigger]
                pre.holdings_read(&mid, 41009, 1, Ok(min)) && #[trigger] mid.holdings_read(
                    &post,
                    41010,
                    1,
                    reply,
                ) && unread(reply, failure)
            ||| exists|mid: B, min: Vec<u16>, max: Vec<u16>| #[trigger]
                pre.holdings_read(&mid, 41009, 1, Ok(min)) && #[trigger] mid.holdings_read(
                    &post,
                    41010,
                    1,
                    Ok(max),
                ) && min@.len() == 1 && max@.len() == 1 && !(min@[0] < max@[0] <= 100 && min@[0]
                    < 95 && max@[0] > 15)
        }),
{
    let r: Result<(Decimal, Decimal), Failure> = Err(failure);
    let (mid, first, min) = choose|
        mid: B,
        first: Result<Vec<u16>, Error>,
        min: Result<Vec<u16>, Error>,
    |
        {
            &&& #[trigger] crate::modbus::register_read(
                super::limit_register("min_soc", 41009),
                pre,
                mid,
                first,
            )
            &&& #[trigger] crate::modbus::reply_checked(
                super::limit_register("min_soc", 41009),
                first,
                min,
            )
            &&& match min {
                Err(e) => post == mid && r == Err::<(Decimal, Decimal), Failure>(
                    Failure::Driver(e),
                ),
                Ok(low) => exists|second: Result<Vec<u16>, Error>, max: Result<Vec<u16>, Error>|
                    {
                        &&& #[trigger] crate::modbus::register_read(
                            super::limit_register("max_soc", 41010),
                            mid,
                            post,
                            second,
                        )
                        &&& #[trigger] crate::modbus::reply_checked(
                            super::limit_register("max_soc", 41010),
                            second,
                            max,
                        )
                        &&& match max {
                            Err(e) => r == Err::<(Decimal, Decimal), Failure>(Failure::Driver(e)),
                            Ok(high) => ranged(low@[0], high@[0], r),
                        }
                    },
            }
        };
    match min {
        Err(e) => {
            assert(pre.holdings_read(&post, 41009, 1, first) && unread(first, failure));
        },
        Ok(low) => {
            let (second, max) = choose|
                second: Result<Vec<u16>, Error>,
                max: Result<Vec<u16>, Error>,
            |
                {
                    &&& #[trigger] crate::modbus::register_read(
                        super::limit_register("max_soc", 41010),
                        mid,
                        post,
                        second,
                    )
                    &&& #[trigger] crate::modbus::reply_checked(
                        super::limit_register("max_soc", 41010),
                        second,
                        max,
                    )
                    &&& match max {
                        Err(e) => r == Err::<(Decimal, Decimal), Failure>(Failure::Driver(e)),
                        Ok(high) => ranged(low@[0], high@[0], r),
                    }
                };
            assert(pre.holdings_read(&mid, 41009, 1, Ok(low)));
            match max {
                Err(e) => {
                    assert(mid.holdings_read(&post, 41010, 1, second) && unread(second, failure));
                },
                Ok(high) => {
                    law_the_charge_range_is_what_the_limits_leave(low@[0], high@[0], r);
                    assert(mid.holdings_read(&post, 41010, 1, Ok(high)));
                },
            }
        },
    }
}

/// `reply` is no single word, and `failure` says so: a failed read as it failed,
/// and another number of words as a communication error.
pub open spec fn unread(reply: Result<Vec<u16>, Error>, failure: Failure) -> bool {
    match reply {
        Err(e) => failure == Failure::Driver(e),
        Ok(words) => words@.len() != 1 && (failure matches Failure::Driver(Error::Comm(_))),
    }
}

/// Passive needs no charge range and reads nothing; an override asks the
/// inverter for its limits.
pub proof fn law_only_an_override_reads_the_limits<B: ModbusBus>(
    command: Command,
    pre: B,
    post: B,
    r: Result<(Decimal, Decimal), Failure>,
)
    requires
        range_found(command, pre, post, r),
    ensures
        command.mode == Mode::Passive ==> post == pre && r == Ok::<(Decimal, Decimal), Failure>(
            (
                Decimal::Finite(15_000_000_000_000_000),
                Decimal::Finite(95_000_000_000_000_000),
            ),
        ),
        command.mode != Mode::Passive ==> limits_read(pre, post, r),
{
}

/// The verdict on a reading is good exactly when the reading lets the test go
/// on.
pub proof fn law_the_verdict_follows_the_reading(
    soc: Decimal,
    age: nat,
    command: Command,
    min_soc: Decimal,
    max_soc: Decimal,
    r: Result<(), String>,
)
    requires
        verdict(reading_fault(soc, age, command, min_soc, max_soc), r),
    ensures
        r is Ok <==> lets_go_on(soc, age, command, min_soc, max_soc),
{
}

/// A new test is of the command given, within the range given, and has not
/// begun.
pub proof fn law_a_new_test_is_of_its_command(command: Command, min_soc: Decimal, max_soc: Decimal)
    ensures
        Trial::fresh(command, min_soc, max_soc).command == command,
        Trial::fresh(command, min_soc, max_soc).min_soc == min_soc,
        Trial::fresh(command, min_soc, max_soc).max_soc == max_soc,
        Trial::fresh(command, min_soc, max_soc).phase is Start,
{
}

/// A charge level that has reached its limit is reported with the level and the
/// limit.
pub proof fn law_a_reached_limit_is_named(
    soc: Decimal,
    age: nat,
    command: Command,
    min_soc: Decimal,
    max_soc: Decimal,
)
    requires
        soc matches Decimal::Finite(level) && 0 <= level <= 100_000_000_000_000_000,
        age <= 5_000_000_000,
    ensures
        reading_fault(soc, age, command, min_soc, max_soc) matches Some(text) ==> {
            &&& mentions(text, soc.shown())
            &&& command.mode == Mode::ForceCharge ==> mentions(text, max_soc.shown())
            &&& command.mode == Mode::ForceDischarge ==> mentions(text, min_soc.shown())
        },
{
    if let Some(text) = reading_fault(soc, age, command, min_soc, max_soc) {
        let (before, middle) = ("charge level "@, "% has reached the "@);
        let (limit, after) = if command.mode == Mode::ForceCharge {
            (max_soc.shown(), "% test ceiling"@)
        } else {
            (min_soc.shown(), "% test floor"@)
        };
        assert(text =~= before + soc.shown() + (middle + limit + after));
        lemma_mentions(text, before, soc.shown(), middle + limit + after);
        assert(text =~= (before + soc.shown() + middle) + limit + after);
        lemma_mentions(text, before + soc.shown() + middle, limit, after);
    }
}

/// A test that failed says why, and whether passive was acknowledged; one whose
/// passive was not acknowledged says that it was not, and what the inverter
/// answered.
pub proof fn law_a_failed_test_says_why(
    trial: Trial,
    result: Result<(), Failure>,
    answer: Result<Applied, Error>,
    post: Trial,
    action: Action,
)
    requires
        trial.phase == Phase::Restoring(result),
        trial.advances(Event::Answer(answer), post, action),
    ensures
        answer is Ok && result is Err ==> (action matches Action::Finish(
            Err(Failure::Message(text)),
        ) && mentions(text@, result->Err_0.shown()) && mentions(
            text@,
            "; passive/self-use acknowledged"@,
        )),
        answer matches Err(e) ==> (action matches Action::Finish(Err(Failure::Message(text)))
            && mentions(text@, e.shown()) && mentions(text@, "; FAILED to restore passive: "@)),
{
    let none = Seq::<char>::empty();
    if let Action::Finish(Err(Failure::Message(text))) = action {
        match answer {
            Ok(_) => if let Err(failure) = result {
                let after = "; passive/self-use acknowledged"@;
                assert(text@ =~= none + failure.shown() + after);
                lemma_mentions(text@, none, failure.shown(), after);
                assert(text@ =~= failure.shown() + after + none);
                lemma_mentions(text@, failure.shown(), after, none);
            },
            Err(e) => {
                let before = "test result: "@ + super::result_notation(result);
                let (middle, after) = (
                    "; FAILED to restore passive: "@,
                    "; check inverter locally"@,
                );
                assert(text@ =~= before + middle + (e.shown() + after));
                lemma_mentions(text@, before, middle, e.shown() + after);
                assert(text@ =~= (before + middle) + e.shown() + after);
                lemma_mentions(text@, before + middle, e.shown(), after);
            },
        }
    }
}

} // verus!

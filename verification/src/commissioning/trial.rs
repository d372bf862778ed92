//! The course of one commissioning test.
use super::{check_level, reading_fault, result_notation, says, verdict, Failure, POLL_SECS};
use crate::command::{Applied, Command, Expiry};
use crate::decimal::Decimal;
use crate::error::Error;
use crate::mode::Mode;
use crate::time::{duration_nanos, from_nanos, NANOS_PER_SEC};
use std::time::Duration;
use vstd::prelude::*;

verus! {

/// What a test is waiting for.
pub enum Phase {
    /// To begin.
    Start,
    /// The answer to the passive command that it consists of.
    Pacifying,
    /// The reading before the command.
    Before,
    /// The answer to the override.
    Applying,
    /// The next look at the clock.
    Ticking,
    /// A reading during the override.
    During,
    /// The answer to the passive command that ends the override, after a test
    /// with this result.
    Restoring(Result<(), Failure>),
    /// The reading after the override.
    After,
    /// Nothing.
    Over,
}

/// A reading, and the state of things when it was taken.
pub struct Sight {
    /// Battery state of charge, percent.
    pub soc_pct: Decimal,
    /// How long ago the reading was taken.
    pub age: Duration,
    /// How long ago the override was sent, if it was.
    pub elapsed: Duration,
    /// Whether the test was asked to stop.
    pub stopped: bool,
}

/// Something that happens to a test.
pub enum Event {
    /// It begins.
    Begin,
    /// A reading comes in, or fails.
    Reading(Result<Sight, Error>),
    /// The inverter answers a command.
    Answer(Result<Applied, Error>),
    /// The clock is looked at.
    Tick {
        /// How long ago the override was sent.
        elapsed: Duration,
        /// Whether the test was asked to stop.
        stopped: bool,
    },
}

/// What a test wants done next.
pub enum Action {
    /// Send a command, and report the answer.
    Apply(Command),
    /// Take a reading, and report it.
    Read,
    /// Wait, then look at the clock and report it.
    Wait(Duration),
    /// End with this result.
    Finish(Result<(), Failure>),
}

/// One commissioning test.
pub struct Trial {
    /// The command under test.
    pub command: Command,
    /// The charge level at which discharging stops, percent.
    pub min_soc: Decimal,
    /// The charge level at which charging stops, percent.
    pub max_soc: Decimal,
    /// What the test is waiting for.
    pub phase: Phase,
}

/// The driver armed a one-shot timeout that is neither zero nor longer than
/// the time to live.
pub open spec fn bounded_timeout(expiry: Expiry, ttl: Duration) -> bool {
    expiry matches Expiry::InverterTimeout(timeout) && 0 < duration_nanos(timeout)
        <= duration_nanos(ttl)
}

/// How long to wait before the next reading: two seconds, or until the time to
/// live is over if that is sooner.
pub open spec fn next_wait(ttl: Duration, elapsed: Duration) -> nat {
    let left = if duration_nanos(ttl) > duration_nanos(elapsed) {
        (duration_nanos(ttl) - duration_nanos(elapsed)) as nat
    } else {
        0
    };
    if left < POLL_SECS * NANOS_PER_SEC {
        left
    } else {
        (POLL_SECS * NANOS_PER_SEC) as nat
    }
}

/// `f` says `text`.
pub open spec fn is_message(f: Failure, text: Seq<char>) -> bool {
    f matches Failure::Message(message) && message@ == text
}

/// `action` ends the test with a message.
pub open spec fn ends_saying(action: Action, text: Seq<char>) -> bool {
    action matches Action::Finish(r) && says(r, text)
}

/// `action` sends the passive command.
pub open spec fn restores(action: Action) -> bool {
    action matches Action::Apply(command) && command == Command::self_use()
}

/// `action` sends an override.
pub open spec fn overrides(action: Action) -> bool {
    action matches Action::Apply(command) && command.mode != Mode::Passive
}

impl Trial {
    /// The event that the test is waiting for.
    pub open spec fn expects(self, event: Event) -> bool {
        match self.phase {
            Phase::Start => event is Begin,
            Phase::Pacifying | Phase::Applying | Phase::Restoring(_) => event is Answer,
            Phase::Before | Phase::During | Phase::After => event is Reading,
            Phase::Ticking => event is Tick,
            Phase::Over => false,
        }
    }

    /// What is wrong with a reading, if anything.
    pub open spec fn fault(self, sight: Sight) -> Option<Seq<char>> {
        reading_fault(
            sight.soc_pct,
            duration_nanos(sight.age),
            self.command,
            self.min_soc,
            self.max_soc,
        )
    }

    /// `post` is the same test, whatever it is waiting for.
    pub open spec fn leads_to(self, post: Trial) -> bool {
        &&& post.command == self.command
        &&& post.min_soc == self.min_soc
        &&& post.max_soc == self.max_soc
    }

    /// The reading before the command may lead to `phase` and `action`.
    pub open spec fn starts(self, reading: Result<Sight, Error>, phase: Phase, action: Action) -> bool {
        match reading {
            Err(e) => phase is Over && action == Action::Finish(Err(Failure::Driver(e))),
            Ok(sight) => match self.fault(sight) {
                Some(text) => phase is Over && ends_saying(action, text),
                None => if sight.stopped {
                    phase is Over && ends_saying(action, "interrupted before command"@)
                } else if self.command.ttl is None {
                    phase is Over && ends_saying(action, "override requires a timeout"@)
                } else {
                    phase is Applying && action == Action::Apply(self.command)
                },
            },
        }
    }

    /// The answer to the override may lead to `phase` and `action`.
    pub open spec fn answered(
        self,
        answer: Result<Applied, Error>,
        phase: Phase,
        action: Action,
    ) -> bool {
        match answer {
            Err(e) => phase == Phase::Restoring(Err(Failure::Driver(e))) && restores(action),
            Ok(applied) => if self.command.ttl matches Some(ttl) && bounded_timeout(
                applied.expiry,
                ttl,
            ) {
                phase is Ticking && (action matches Action::Wait(pause) && duration_nanos(pause)
                    == 0)
            } else {
                &&& phase matches Phase::Restoring(Err(failure))
                &&& is_message(failure, "driver did not report a bounded hardware timeout"@)
                &&& restores(action)
            },
        }
    }

    /// A reading during the override may lead to `phase` and `action`.
    pub open spec fn watched(
        self,
        reading: Result<Sight, Error>,
        phase: Phase,
        action: Action,
    ) -> bool {
        match reading {
            Err(e) => phase == Phase::Restoring(Err(Failure::Driver(e))) && restores(action),
            Ok(sight) => match self.fault(sight) {
                Some(text) => {
                    &&& phase matches Phase::Restoring(Err(failure))
                    &&& is_message(failure, text)
                    &&& restores(action)
                },
                None => {
                    &&& phase is Ticking
                    &&& action matches Action::Wait(pause)
                    &&& self.command.ttl matches Some(ttl) ==> duration_nanos(pause) == next_wait(
                        ttl,
                        sight.elapsed,
                    )
                    &&& self.command.ttl is None ==> duration_nanos(pause) == 0
                },
            },
        }
    }

    /// A look at the clock may lead to `phase` and `action`: readings go on
    /// until the time to live is over or the test is asked to stop.
    pub open spec fn ticked(
        self,
        elapsed: Duration,
        stopped: bool,
        phase: Phase,
        action: Action,
    ) -> bool {
        if (self.command.ttl matches Some(ttl) && duration_nanos(elapsed) < duration_nanos(ttl))
            && !stopped {
            phase is During && action is Read
        } else {
            phase == Phase::Restoring(Ok(())) && restores(action)
        }
    }

    /// The answer to the passive command that ends an override, after a test
    /// with this result, may lead to `phase` and `action`.
    pub open spec fn restored(
        result: Result<(), Failure>,
        answer: Result<Applied, Error>,
        phase: Phase,
        action: Action,
    ) -> bool {
        match (answer, result) {
            (Ok(_), Ok(_)) => phase is After && action is Read,
            (Ok(_), Err(failure)) => phase is Over && ends_saying(
                action,
                failure.shown() + "; passive/self-use acknowledged"@,
            ),
            (Err(e), _) => phase is Over && ends_saying(
                action,
                "test result: "@ + result_notation(result) + "; FAILED to restore passive: "@
                    + e.shown() + "; check inverter locally"@,
            ),
        }
    }

    /// `event` may take the test to `post` and make it want `action`.
    pub open spec fn advances(self, event: Event, post: Trial, action: Action) -> bool {
        &&& self.leads_to(post)
        &&& match (self.phase, event) {
            (Phase::Start, _) => if self.command.mode == Mode::Passive {
                post.phase is Pacifying && action == Action::Apply(self.command)
            } else {
                post.phase is Before && action is Read
            },
            (Phase::Pacifying, Event::Answer(Ok(_))) => post.phase is Over && action
                == Action::Finish(Ok(())),
            (Phase::Pacifying, Event::Answer(Err(e))) => post.phase is Over && action
                == Action::Finish(Err(Failure::Driver(e))),
            (Phase::Before, Event::Reading(reading)) => self.starts(reading, post.phase, action),
            (Phase::Applying, Event::Answer(answer)) => self.answered(answer, post.phase, action),
            (Phase::Ticking, Event::Tick { elapsed, stopped }) => self.ticked(
                elapsed,
                stopped,
                post.phase,
                action,
            ),
            (Phase::During, Event::Reading(reading)) => self.watched(reading, post.phase, action),
            (Phase::Restoring(result), Event::Answer(answer)) => Trial::restored(
                result,
                answer,
                post.phase,
                action,
            ),
            (Phase::After, Event::Reading(Ok(_))) => post.phase is Over && action
                == Action::Finish(Ok(())),
            (Phase::After, Event::Reading(Err(e))) => post.phase is Over && action
                == Action::Finish(Err(Failure::Driver(e))),
            _ => false,
        }
    }

    /// A test of `command` within a charge range that has not begun.
    pub open spec fn fresh(command: Command, min_soc: Decimal, max_soc: Decimal) -> Trial {
        Trial { command, min_soc, max_soc, phase: Phase::Start }
    }

    /// A test of `command` within a charge range.
    pub fn new(command: Command, min_soc: Decimal, max_soc: Decimal) -> (r: Trial)
        ensures
            r == Trial::fresh(command, min_soc, max_soc),
    {
        Trial { command, min_soc, max_soc, phase: Phase::Start }
    }

    /// The test, waiting for something else.
    fn awaiting(self, phase: Phase) -> (r: Trial)
        ensures
            r == (Trial { phase, ..self }),
    {
        Trial { command: self.command, min_soc: self.min_soc, max_soc: self.max_soc, phase }
    }

    /// Judge a reading.
    fn check(&self, sight: &Sight) -> (r: Result<(), String>)
        ensures
            verdict(self.fault(*sight), r),
    {
        check_level(sight.soc_pct, sight.age, self.command, self.min_soc, self.max_soc)
    }

    /// End the override after a test with this result.
    fn restore(self, result: Result<(), Failure>) -> (r: (Trial, Action))
        ensures
            r.0 == (Trial { phase: Phase::Restoring(result), ..self }),
            restores(r.1),
    {
        (self.awaiting(Phase::Restoring(result)), Action::Apply(Command::passive()))
    }

    /// Decide whether to send the override.
    fn start(self, reading: Result<Sight, Error>) -> (r: (Trial, Action))
        requires
            self.phase is Before,
        ensures
            self.advances(Event::Reading(reading), r.0, r.1),
    {
        let sight: Sight = match reading {
            Ok(sight) => sight,
            Err(e) => {
                return (self.awaiting(Phase::Over), Action::Finish(Err(Failure::Driver(e))));
            },
        };
        let fault: Option<String> = match self.check(&sight) {
            Err(text) => Some(text),
            Ok(()) => if sight.stopped {
                Some("interrupted before command".to_owned())
            } else {
                match self.command.ttl {
                    None => Some("override requires a timeout".to_owned()),
                    Some(_) => None,
                }
            },
        };
        match fault {
            Some(text) => (
                self.awaiting(Phase::Over),
                Action::Finish(Err(Failure::Message(text))),
            ),
            None => {
                let command: Command = self.command;
                (self.awaiting(Phase::Applying), Action::Apply(command))
            },
        }
    }

    /// Decide whether the override was accepted with a bounded timeout.
    fn accept(self, answer: Result<Applied, Error>) -> (r: (Trial, Action))
        requires
            self.phase is Applying,
        ensures
            self.advances(Event::Answer(answer), r.0, r.1),
    {
        let applied: Applied = match answer {
            Ok(applied) => applied,
            Err(e) => {
                return self.restore(Err(Failure::Driver(e)));
            },
        };
        let bounded: bool = match (applied.expiry, self.command.ttl) {
            (Expiry::InverterTimeout(timeout), Some(ttl)) => timeout.as_nanos() > 0
                && timeout.as_nanos() <= ttl.as_nanos(),
            _ => false,
        };
        if bounded {
            (self.awaiting(Phase::Ticking), Action::Wait(from_nanos(0)))
        } else {
            self.restore(
                Err(
                    Failure::Message(
                        "driver did not report a bounded hardware timeout".to_owned(),
                    ),
                ),
            )
        }
    }

    /// Decide whether to go on reading.
    fn tick(self, elapsed: Duration, stopped: bool) -> (r: (Trial, Action))
        requires
            self.phase is Ticking,
        ensures
            self.advances(Event::Tick { elapsed, stopped }, r.0, r.1),
    {
        let running: bool = match self.command.ttl {
            Some(ttl) => elapsed.as_nanos() < ttl.as_nanos(),
            None => false,
        };
        if running && !stopped {
            (self.awaiting(Phase::During), Action::Read)
        } else {
            self.restore(Ok(()))
        }
    }

    /// Decide whether the override may go on.
    fn watch(self, reading: Result<Sight, Error>) -> (r: (Trial, Action))
        requires
            self.phase is During,
        ensures
            self.advances(Event::Reading(reading), r.0, r.1),
    {
        let sight: Sight = match reading {
            Ok(sight) => sight,
            Err(e) => {
                return self.restore(Err(Failure::Driver(e)));
            },
        };
        match self.check(&sight) {
            Err(text) => self.restore(Err(Failure::Message(text))),
            Ok(()) => {
                let left: u128 = match self.command.ttl {
                    Some(ttl) => if ttl.as_nanos() > sight.elapsed.as_nanos() {
                        ttl.as_nanos() - sight.elapsed.as_nanos()
                    } else {
                        0
                    },
                    None => 0,
                };
                let pause: u128 = if left < POLL_SECS * NANOS_PER_SEC {
                    left
                } else {
                    POLL_SECS * NANOS_PER_SEC
                };
                (self.awaiting(Phase::Ticking), Action::Wait(from_nanos(pause)))
            },
        }
    }

    /// Take in what happened, and decide what to do next.
    ///
    /// Once an override has been sent, every way out leads through the passive
    /// command that cancels it, failed writes included.
    pub fn next(self, event: Event) -> (r: (Trial, Action))
        requires
            self.expects(event),
        ensures
            self.advances(event, r.0, r.1),
    {
        let Trial { command, min_soc, max_soc, phase } = self;
        match (phase, event) {
            (Phase::Start, _) => {
                if command.mode == Mode::Passive {
                    (
                        Trial { command, min_soc, max_soc, phase: Phase::Pacifying },
                        Action::Apply(command),
                    )
                } else {
                    (Trial { command, min_soc, max_soc, phase: Phase::Before }, Action::Read)
                }
            },
            (Phase::Pacifying, Event::Answer(answer)) => (
                Trial { command, min_soc, max_soc, phase: Phase::Over },
                Action::Finish(
                    match answer {
                        Ok(_) => Ok(()),
                        Err(e) => Err(Failure::Driver(e)),
                    },
                ),
            ),
            (Phase::Before, Event::Reading(reading)) => Trial {
                command,
                min_soc,
                max_soc,
                phase: Phase::Before,
            }.start(reading),
            (Phase::Applying, Event::Answer(answer)) => Trial {
                command,
                min_soc,
                max_soc,
                phase: Phase::Applying,
            }.accept(answer),
            (Phase::Ticking, Event::Tick { elapsed, stopped }) => Trial {
                command,
                min_soc,
                max_soc,
                phase: Phase::Ticking,
            }.tick(elapsed, stopped),
            (Phase::During, Event::Reading(reading)) => Trial {
                command,
                min_soc,
                max_soc,
                phase: Phase::During,
            }.watch(reading),
            (Phase::Restoring(result), Event::Answer(answer)) => {
                let (phase, action) = Trial::conclude(result, answer);
                (Trial { command, min_soc, max_soc, phase }, action)
            },
            (Phase::After, Event::Reading(reading)) => (
                Trial { command, min_soc, max_soc, phase: Phase::Over },
                Action::Finish(
                    match reading {
                        Ok(_) => Ok(()),
                        Err(e) => Err(Failure::Driver(e)),
                    },
                ),
            ),
            (phase, _) => {
                assert(false);
                (Trial { command, min_soc, max_soc, phase }, Action::Finish(Ok(())))
            },
        }
    }

    /// Decide what the answer to the passive command that ends an override
    /// amounts to, after a test with this result.
    fn conclude(result: Result<(), Failure>, answer: Result<Applied, Error>) -> (r: (Phase, Action))
        ensures
            Trial::restored(result, answer, r.0, r.1),
    {
        match answer {
            Ok(_) => match result {
                Ok(()) => (Phase::After, Action::Read),
                Err(failure) => (
                    Phase::Over,
                    Action::Finish(
                        Err(
                            Failure::Message(
                                failure.text().concat("; passive/self-use acknowledged"),
                            ),
                        ),
                    ),
                ),
            },
            Err(e) => {
                let outcome: String = match &result {
                    Ok(()) => "Ok(())".to_owned(),
                    Err(failure) => "Err(".to_owned().concat(
                        failure.notation_text().as_str(),
                    ).concat(")"),
                };
                let text: String = "test result: ".to_owned().concat(outcome.as_str()).concat(
                    "; FAILED to restore passive: ",
                ).concat(e.text().as_str()).concat("; check inverter locally");
                (Phase::Over, Action::Finish(Err(Failure::Message(text))))
            },
        }
    }
}

/// The course of a test: `events` took it through `trials`, and made it want
/// `actions`.
pub open spec fn course(trials: Seq<Trial>, events: Seq<Event>, actions: Seq<Action>) -> bool {
    &&& trials.len() == events.len() + 1
    &&& actions.len() == events.len()
    &&& trials[0].phase is Start
    &&& forall|i: int|
        0 <= i < events.len() ==> trials[i].expects(events[i]) && #[trigger] trials[i].advances(
            events[i],
            trials[i + 1],
            actions[i],
        )
}

/// An override is, or may be, in force.
pub open spec fn in_force(phase: Phase) -> bool {
    phase is Applying || phase is Ticking || phase is During
}

/// How far a test has come.
pub open spec fn stage(phase: Phase) -> int {
    match phase {
        Phase::Start => 0,
        Phase::Before | Phase::Pacifying => 1,
        Phase::Applying => 2,
        Phase::Ticking | Phase::During => 3,
        Phase::Restoring(_) => 4,
        Phase::After => 5,
        Phase::Over => 6,
    }
}

/// A test only ever moves on.
proof fn lemma_stages_rise(
    trials: Seq<Trial>,
    events: Seq<Event>,
    actions: Seq<Action>,
    i: int,
    j: int,
)
    requires
        course(trials, events, actions),
        0 <= i <= j <= events.len(),
    ensures
        stage(trials[i].phase) <= stage(trials[j].phase),
    decreases j - i,
{
    if i < j {
        assert(trials[i].advances(events[i], trials[i + 1], actions[i]));
        lemma_stages_rise(trials, events, actions, i + 1, j);
    }
}

/// While an override may be in force, the test does not end.
proof fn lemma_leaves_through_passive(
    trials: Seq<Trial>,
    events: Seq<Event>,
    actions: Seq<Action>,
    i: int,
    j: int,
) -> (k: int)
    requires
        course(trials, events, actions),
        0 <= i <= j < events.len(),
        in_force(trials[i].phase),
        actions[j] is Finish,
    ensures
        i <= k < j,
        restores(actions[k]),
    decreases j - i,
{
    assert(trials[i].advances(events[i], trials[i + 1], actions[i]));
    if restores(actions[i]) {
        i
    } else {
        lemma_leaves_through_passive(trials, events, actions, i + 1, j)
    }
}

/// However a test goes, an override that was sent is followed by the passive
/// command before the test ends.
pub proof fn law_every_override_is_cancelled(
    trials: Seq<Trial>,
    events: Seq<Event>,
    actions: Seq<Action>,
    i: int,
    j: int,
) -> (k: int)
    requires
        course(trials, events, actions),
        0 <= i < j < events.len(),
        overrides(actions[i]),
        actions[j] is Finish,
    ensures
        i < k < j,
        restores(actions[k]),
{
    assert(trials[i].advances(events[i], trials[i + 1], actions[i]));
    lemma_leaves_through_passive(trials, events, actions, i + 1, j)
}

/// A test sends at most one override, and it is the command under test.
pub proof fn law_one_override_at_most(
    trials: Seq<Trial>,
    events: Seq<Event>,
    actions: Seq<Action>,
    i: int,
    j: int,
)
    requires
        course(trials, events, actions),
        0 <= i <= j < events.len(),
        overrides(actions[i]),
        overrides(actions[j]),
    ensures
        i == j,
        actions[i] == Action::Apply(trials[i].command),
{
    assert(trials[i].advances(events[i], trials[i + 1], actions[i]));
    assert(trials[j].advances(events[j], trials[j + 1], actions[j]));
    if i < j {
        lemma_stages_rise(trials, events, actions, i + 1, j);
    }
}

/// No override is sent unless a reading was just taken that is fresh, makes
/// sense and lies within the charge range, and nobody has asked to stop.
pub proof fn law_no_override_without_a_good_reading(
    trial: Trial,
    event: Event,
    post: Trial,
    action: Action,
)
    requires
        trial.advances(event, post, action),
        overrides(action),
    ensures
        event matches Event::Reading(Ok(sight)) && trial.fault(sight) is None && !sight.stopped,
        action == Action::Apply(trial.command),
{
}

/// A test of passive takes no readings and sends nothing but passive.
pub proof fn law_passive_needs_no_readings(
    trials: Seq<Trial>,
    events: Seq<Event>,
    actions: Seq<Action>,
    i: int,
)
    requires
        course(trials, events, actions),
        trials[0].command.mode == Mode::Passive,
        0 <= i < events.len(),
    ensures
        actions[i] is Apply || actions[i] is Finish,
        !overrides(actions[i]),
        trials[i].phase is Start || trials[i].phase is Pacifying,
        trials[i].command == trials[0].command,
    decreases i,
{
    if i > 0 {
        law_passive_needs_no_readings(trials, events, actions, i - 1);
        assert(trials[i - 1].advances(events[i - 1], trials[i - 1 + 1], actions[i - 1]));
    }
    assert(trials[i].advances(events[i], trials[i + 1], actions[i]));
}

/// A test never waits longer than two seconds at a time, nor past the end of
/// the command's time to live.
pub proof fn law_waits_are_short(trial: Trial, event: Event, post: Trial, pause: Duration)
    requires
        trial.advances(event, post, Action::Wait(pause)),
    ensures
        duration_nanos(pause) <= POLL_SECS * NANOS_PER_SEC,
        event matches Event::Reading(Ok(sight)) ==> (trial.command.ttl matches Some(ttl) ==> (
        duration_nanos(pause) > 0 ==> duration_nanos(sight.elapsed) + duration_nanos(pause)
            <= duration_nanos(ttl))),
{
}

} // verus!

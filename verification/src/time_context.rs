//! The wall clock: one topic, the hour and the minute on two lines.

use vstd::prelude::*;

use crate::context::{
    emission, emitted, Action, ActionModel, ContextError, Emission, Outcome, Probe, ProbeModel,
    Reading, RsbarContextContent,
};
use crate::rsbar_context::RsbarContext;
use crate::text::digit_char;

verus! {

/// `n` written with two digits.
pub open spec fn two_digits(n: nat) -> Seq<char> {
    seq![digit_char(n / 10), digit_char(n % 10)]
}

/// The value of the topic: the hour and the minute with two digits each, a
/// line feed between them.
pub open spec fn clock_text(hour: u32, minute: u32) -> Seq<char> {
    two_digits(hour as nat) + seq!['\n'] + two_digits(minute as nat)
}

/// The pattern that writes the hour and the minute: `%H`, a line feed, `%M`.
pub fn time_format() -> (format: &'static str)
    ensures
        format@ == "%H\n%M"@,
{
    "%H\n%M"
}

/// Calls `chrono::NaiveTime::from_hms_opt` with zero seconds and formats the
/// time with `NaiveTime::format`. With the pattern `%H`, a line feed, `%M`
/// that gives the hour and the minute, each padded with a zero to two
/// digits, and the line feed between them.
#[verifier::external_body]
fn format_clock(format: &str, hour: u32, minute: u32) -> (text: String)
    requires
        format@ == "%H\n%M"@,
        hour < 24,
        minute < 60,
    ensures
        text@ == clock_text(hour, minute),
{
    match chrono::NaiveTime::from_hms_opt(hour, minute, 0) {
        Some(time) => time.format(format).to_string(),
        None => String::new(),
    }
}

/// Writes the value of the topic for a time of day.
pub fn clock_face(hour: u32, minute: u32) -> (text: Option<String>)
    ensures
        match text {
            Some(face) => hour < 24 && minute < 60 && face@ == clock_text(hour, minute),
            None => !(hour < 24 && minute < 60),
        },
{
    if hour < 24 && minute < 60 {
        Some(format_clock(time_format(), hour, minute))
    } else {
        None
    }
}

/// The time that a reading gives, or why the reading is refused.
pub open spec fn clock_reading(reading: Reading) -> Result<(u32, u32), ContextError> {
    match reading {
        Reading::Clock(hour, minute) => if hour < 24 && minute < 60 {
            Ok((hour, minute))
        } else {
            Err(ContextError::BadReading)
        },
        Reading::Failed => Err(ContextError::ExternalFailure),
        _ => Err(ContextError::BadReading),
    }
}

/// The topic and its value at a time of day.
pub open spec fn clock_snapshot(hour: u32, minute: u32) -> Seq<(Seq<char>, Seq<char>)> {
    seq![("time"@, clock_text(hour, minute))]
}

/// The time of day as the clock last gave it.
pub struct TimeContext {
    hour: u32,
    minute: u32,
    attached: bool,
}

/// What a time context holds: the hour, the minute, and whether `init` has
/// been called.
pub struct TimeModel {
    pub hour: u32,
    pub minute: u32,
    pub attached: bool,
}

impl TimeContext {
    /// The context and the name to register it under, `time`. It holds the
    /// given time of day until the first reading of the clock.
    pub fn new(hour: u32, minute: u32) -> (entry: (String, RsbarContext))
        requires
            hour < 24,
            minute < 60,
        ensures
            entry.0@ == "time"@,
            entry.1 matches RsbarContext::Time(context) && context.model() == (TimeModel {
                hour,
                minute,
                attached: false,
            }),
    {
        let new_context = TimeContext { hour, minute, attached: false };
        ("time".to_owned(), RsbarContext::Time(new_context))
    }

    /// Takes a reading of the clock in.
    fn take_in(&mut self, reading: &Reading) -> (r: Result<(), ContextError>)
        requires
            Self::wf(old(self).model()),
        ensures
            Self::wf(final(self).model()),
            match clock_reading(*reading) {
                Ok((hour, minute)) => r == Ok::<(), ContextError>(()) && final(self).model() == (
                TimeModel { hour, minute, attached: old(self).model().attached }),
                Err(e) => r == Err::<(), ContextError>(e) && final(self).model() == old(
                    self,
                ).model(),
            },
    {
        match reading {
            Reading::Clock(hour, minute) => {
                if *hour < 24 && *minute < 60 {
                    self.hour = *hour;
                    self.minute = *minute;
                    Ok(())
                } else {
                    Err(ContextError::BadReading)
                }
            },
            Reading::Failed => Err(ContextError::ExternalFailure),
            _ => Err(ContextError::BadReading),
        }
    }
}

impl RsbarContextContent for TimeContext {
    type Model = TimeModel;

    closed spec fn model(&self) -> TimeModel {
        TimeModel { hour: self.hour, minute: self.minute, attached: self.attached }
    }

    /// The hour is below 24 and the minute below 60.
    open spec fn wf(m: TimeModel) -> bool {
        m.hour < 24 && m.minute < 60
    }

    open spec fn attached(m: TimeModel) -> bool {
        m.attached
    }

    open spec fn snapshot(m: TimeModel) -> Seq<(Seq<char>, Seq<char>)> {
        clock_snapshot(m.hour, m.minute)
    }

    open spec fn init_wanted(m: TimeModel) -> ProbeModel {
        ProbeModel::Clock
    }

    open spec fn wanted(m: TimeModel) -> ProbeModel {
        ProbeModel::Clock
    }

    /// `init` marks the context as initialised and takes the first reading
    /// of the clock in.
    open spec fn on_init(m: TimeModel, reading: Reading) -> Outcome<(), TimeModel> {
        match clock_reading(reading) {
            Ok((hour, minute)) => Outcome {
                result: Ok(()),
                state: TimeModel { hour, minute, attached: true },
            },
            Err(e) => Outcome {
                result: Err(e),
                state: TimeModel { hour: m.hour, minute: m.minute, attached: true },
            },
        }
    }

    /// `update` takes the time in and publishes it.
    open spec fn on_update(m: TimeModel, reading: Reading) -> Outcome<bool, TimeModel> {
        match clock_reading(reading) {
            Ok((hour, minute)) => Outcome {
                result: if m.attached {
                    Ok(true)
                } else {
                    Err(ContextError::HandlerMissing)
                },
                state: TimeModel { hour, minute, attached: m.attached },
            },
            Err(e) => Outcome { result: Err(e), state: m },
        }
    }

    /// The context accepts no calls.
    open spec fn on_call(m: TimeModel, procedure: Seq<char>, args: Seq<char>) -> Outcome<
        ActionModel,
        TimeModel,
    > {
        Outcome { result: Err(ContextError::Unsupported), state: m }
    }

    fn init_probe(&self) -> (probe: Probe) {
        Probe::Clock
    }

    fn init(&mut self, reading: &Reading) -> (r: Result<(), ContextError>) {
        self.attached = true;
        self.take_in(reading)
    }

    fn probe(&self) -> (probe: Probe) {
        Probe::Clock
    }

    fn update(&mut self, reading: &Reading) -> (r: Result<Vec<Emission>, ContextError>) {
        match self.take_in(reading) {
            Ok(()) => {
                let r = self.force_events();
                proof {
                    if r is Ok {
                        assert(emitted(r->Ok_0@).len() == r->Ok_0@.len());
                    }
                }
                r
            },
            Err(e) => Err(e),
        }
    }

    fn call(&mut self, procedure: &str, args: &str) -> (r: Result<Action, ContextError>) {
        Err(ContextError::Unsupported)
    }

    fn force_events(&self) -> (r: Result<Vec<Emission>, ContextError>) {
        if !self.attached {
            return Err(ContextError::HandlerMissing);
        }
        let mut list: Vec<Emission> = Vec::new();
        list.push(emission("time", format_clock(time_format(), self.hour, self.minute)));
        assert(emitted(list@) =~= Self::snapshot(self.model()));
        Ok(list)
    }
}

} // verus!

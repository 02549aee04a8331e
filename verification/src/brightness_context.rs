//! The screen brightness: one topic, the level in percent, and one procedure
//! that sets it.

use vstd::prelude::*;

use crate::context::{
    emission, emitted, Action, ActionModel, ContextError, Emission, Outcome, Probe,
    ProbeModel, Reading, RsbarContextContent,
};
use crate::rsbar_context::RsbarContext;
use crate::text::{decimal_text, parse_u32, str_eq, u32_literal, u32_to_string};

verus! {

/// The highest level that `setBrightness` accepts.
pub const MAX_BRIGHTNESS: u32 = 100;

/// The lowest level that `setBrightness` accepts.
pub const MIN_BRIGHTNESS: u32 = 0;

/// The brightness of the screen as the backlight last reported it, or as it
/// was last set.
pub struct BrightnessContext {
    brightness: u32,
    attached: bool,
}

/// What a brightness context holds: the level in percent, and whether
/// `init` has been called.
pub struct BrightnessModel {
    pub level: u32,
    pub attached: bool,
}

/// What `setBrightness` makes of its argument: the level, if the argument is
/// a decimal `u32` of at most [`MAX_BRIGHTNESS`].
pub open spec fn brightness_argument(args: Seq<char>) -> Result<u32, ContextError> {
    match u32_literal(args) {
        None => Err(ContextError::BadArgument),
        Some(level) => if MIN_BRIGHTNESS <= level <= MAX_BRIGHTNESS {
            Ok(level)
        } else {
            Err(ContextError::OutOfRange)
        },
    }
}

/// What a call makes of the context: the new level, or the refusal.
pub open spec fn brightness_call(procedure: Seq<char>, args: Seq<char>) -> Result<
    u32,
    ContextError,
> {
    if procedure == "setBrightness"@ {
        brightness_argument(args)
    } else {
        Err(ContextError::BadProcedure)
    }
}

/// The level that a reading gives, or why the reading is refused.
pub open spec fn brightness_reading(reading: Reading) -> Result<u32, ContextError> {
    match reading {
        Reading::Level(level) => Ok(level),
        Reading::Failed => Err(ContextError::ExternalFailure),
        _ => Err(ContextError::BadReading),
    }
}

/// The topic and its value at a level.
pub open spec fn brightness_snapshot(level: u32) -> Seq<(Seq<char>, Seq<char>)> {
    seq![("brightness"@, decimal_text(level as nat))]
}

impl BrightnessContext {
    /// The context and the name to register it under, `brightness`. The
    /// level is 0 until the first reading.
    pub fn new() -> (entry: (String, RsbarContext))
        ensures
            entry.0@ == "brightness"@,
            entry.1 matches RsbarContext::Brightness(context) && context.model() == (
            BrightnessModel { level: 0, attached: false }),
    {
        let new_context = BrightnessContext { brightness: 0, attached: false };
        ("brightness".to_owned(), RsbarContext::Brightness(new_context))
    }

    /// Reads the argument of `setBrightness`.
    pub fn parse_brightness(args: &str) -> (r: Result<u32, ContextError>)
        ensures
            r == brightness_argument(args@),
    {
        match parse_u32(args) {
            None => Err(ContextError::BadArgument),
            Some(value) => {
                if value < MIN_BRIGHTNESS || value > MAX_BRIGHTNESS {
                    Err(ContextError::OutOfRange)
                } else {
                    Ok(value)
                }
            },
        }
    }

    /// Takes a reading of the backlight in.
    fn take_in(&mut self, reading: &Reading) -> (r: Result<(), ContextError>)
        ensures
            match brightness_reading(*reading) {
                Ok(level) => r == Ok::<(), ContextError>(()) && final(self).model() == (
                BrightnessModel { level, attached: old(self).model().attached }),
                Err(e) => r == Err::<(), ContextError>(e) && final(self).model() == old(
                    self,
                ).model(),
            },
    {
        match reading {
            Reading::Level(level) => {
                self.brightness = *level;
                Ok(())
            },
            Reading::Failed => Err(ContextError::ExternalFailure),
            _ => Err(ContextError::BadReading),
        }
    }
}

impl RsbarContextContent for BrightnessContext {
    type Model = BrightnessModel;

    closed spec fn model(&self) -> BrightnessModel {
        BrightnessModel { level: self.brightness, attached: self.attached }
    }

    open spec fn wf(m: BrightnessModel) -> bool {
        true
    }

    open spec fn attached(m: BrightnessModel) -> bool {
        m.attached
    }

    open spec fn snapshot(m: BrightnessModel) -> Seq<(Seq<char>, Seq<char>)> {
        brightness_snapshot(m.level)
    }

    open spec fn init_wanted(m: BrightnessModel) -> ProbeModel {
        ProbeModel::Backlight
    }

    open spec fn wanted(m: BrightnessModel) -> ProbeModel {
        ProbeModel::Backlight
    }

    /// `init` marks the context as initialised and takes the first reading
    /// of the backlight in.
    open spec fn on_init(m: BrightnessModel, reading: Reading) -> Outcome<(), BrightnessModel> {
        match brightness_reading(reading) {
            Ok(level) => Outcome {
                result: Ok(()),
                state: BrightnessModel { level, attached: true },
            },
            Err(e) => Outcome {
                result: Err(e),
                state: BrightnessModel { level: m.level, attached: true },
            },
        }
    }

    /// `update` takes the level of the backlight in and publishes it.
    open spec fn on_update(m: BrightnessModel, reading: Reading) -> Outcome<
        bool,
        BrightnessModel,
    > {
        match brightness_reading(reading) {
            Ok(level) => Outcome {
                result: if m.attached {
                    Ok(true)
                } else {
                    Err(ContextError::HandlerMissing)
                },
                state: BrightnessModel { level, attached: m.attached },
            },
            Err(e) => Outcome { result: Err(e), state: m },
        }
    }

    /// `setBrightness` with a level from 0 to 100 sets the level and asks for
    /// the backlight to be set; the topic is published afterwards.
    open spec fn on_call(m: BrightnessModel, procedure: Seq<char>, args: Seq<char>) -> Outcome<
        ActionModel,
        BrightnessModel,
    > {
        match brightness_call(procedure, args) {
            Ok(level) => Outcome {
                result: Ok(ActionModel::SetBacklight(level)),
                state: BrightnessModel { level, attached: m.attached },
            },
            Err(e) => Outcome { result: Err(e), state: m },
        }
    }

    fn init_probe(&self) -> (probe: Probe) {
        Probe::Backlight
    }

    fn init(&mut self, reading: &Reading) -> (r: Result<(), ContextError>) {
        self.attached = true;
        self.take_in(reading)
    }

    fn probe(&self) -> (probe: Probe) {
        Probe::Backlight
    }

    fn update(&mut self, reading: &Reading) -> (r: Result<Vec<Emission>, ContextError>) {
        match self.take_in(reading) {
            Ok(()) => {
                let r = self.force_events();
                proof {
                    if r is Ok {
                        assert(emitted(r->Ok_0@).len() == r->Ok_0@.len());
                    }
                }
                r
            },
            Err(e) => Err(e),
        }
    }

    fn call(&mut self, procedure: &str, args: &str) -> (r: Result<Action, ContextError>) {
        if str_eq(procedure, "setBrightness") {
            match BrightnessContext::parse_brightness(args) {
                Ok(level) => {
                    self.brightness = level;
                    Ok(Action::SetBacklight(level))
                },
                Err(e) => Err(e),
            }
        } else {
            Err(ContextError::BadProcedure)
        }
    }

    fn force_events(&self) -> (r: Result<Vec<Emission>, ContextError>) {
        if !self.attached {
            return Err(ContextError::HandlerMissing);
        }
        let mut list: Vec<Emission> = Vec::new();
        list.push(emission("brightness", u32_to_string(self.brightness)));
        assert(emitted(list@) =~= Self::snapshot(self.model()));
        Ok(list)
    }
}

} // verus!

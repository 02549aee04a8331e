//! The audio volume: two topics, the level and whether the sink is muted,
//! and two procedures, one that sets the level and one that toggles the
//! mute.

use vstd::prelude::*;
use vstd::string::StringExecFns;

use crate::context::{
    emission, emitted, texts, words_of_three, Action, ActionModel, ContextError,
    Emission, Outcome, Probe, ProbeModel, Reading, RsbarContextContent,
};
use crate::decimal::{
    decimal_of, decimal_text, first_space, in_percent_range, is_zero, leading, no_space,
    times_hundred, Decimal, DecimalModel,
};
use crate::rsbar_context::RsbarContext;
use crate::text::{bool_text, bool_to_string, chars_of, str_eq};

verus! {

/// The level and the mute of the default audio sink, as the mixer last
/// reported them or as they were last set.
pub struct VolumeContext {
    volume: Decimal,
    is_muted: bool,
    attached: bool,
}

/// What a volume context holds: the level, the mute, and whether `init` has
/// been called.
pub struct VolumeModel {
    pub level: DecimalModel,
    pub muted: bool,
    pub attached: bool,
}

/// The level that a report of the mixer names: what stands behind the
/// first space, without its last character, read as a decimal number.
/// `None` where that is no number, as in the report of a muted sink.
pub open spec fn reported_level(report: Seq<char>) -> Option<DecimalModel> {
    let space = leading(report, no_space()) as int;
    if space < report.len() {
        let rest = report.skip(space + 1);
        if rest.len() > 0 {
            decimal_of(rest.drop_last())
        } else {
            None
        }
    } else {
        None
    }
}

/// What a call makes of the level and the mute, or why it is refused.
/// `setVolume` takes a decimal number from 0 to 100 as the new level;
/// `toggleMute` inverts the mute, whatever its argument.
pub open spec fn volume_call(
    level: DecimalModel,
    muted: bool,
    procedure: Seq<char>,
    args: Seq<char>,
) -> Result<(DecimalModel, bool), ContextError> {
    if procedure == "setVolume"@ {
        match decimal_of(args) {
            None => Err(ContextError::BadArgument),
            Some(value) => if in_percent_range(value) {
                Ok((value, muted))
            } else {
                Err(ContextError::OutOfRange)
            },
        }
    } else if procedure == "toggleMute"@ {
        Ok((level, !muted))
    } else {
        Err(ContextError::BadProcedure)
    }
}

/// The command that a call asks for, as the program and its arguments.
pub open spec fn volume_command(procedure: Seq<char>, level: DecimalModel) -> Seq<Seq<char>> {
    if procedure == "setVolume"@ {
        seq![
            "wpctl"@,
            "set-volume"@,
            "@DEFAULT_AUDIO_SINK@"@,
            decimal_text(times_hundred(level)) + "%"@,
        ]
    } else {
        seq!["wpctl"@, "set-mute"@, "@DEFAULT_AUDIO_SINK@"@, "toggle"@]
    }
}

/// What a reading makes of the level and the mute: a report that names a
/// level sets it and clears the mute; one that names none sets the mute.
pub open spec fn volume_after(level: DecimalModel, muted: bool, reading: Reading) -> (
    DecimalModel,
    bool,
) {
    match reading {
        Reading::Text(report) => match reported_level(report@) {
            Some(value) => (value, false),
            None => (level, true),
        },
        _ => (level, muted),
    }
}

/// The topics and their values at a level and a mute.
pub open spec fn volume_snapshot(level: DecimalModel, muted: bool) -> Seq<(Seq<char>, Seq<char>)> {
    seq![("volume"@, decimal_text(level)), ("isMuted"@, bool_text(muted))]
}

/// Why a reading is refused, if it is.
pub open spec fn volume_refusal(reading: Reading) -> Option<ContextError> {
    match reading {
        Reading::Text(_) => None,
        Reading::Failed => Some(ContextError::ExternalFailure),
        _ => Some(ContextError::BadReading),
    }
}

/// Reads the level that a report of the mixer names.
pub fn read_report(report: &str) -> (level: Option<Decimal>)
    ensures
        match level {
            Some(value) => reported_level(report@) == Some(value.model()),
            None => reported_level(report@) is None,
        },
{
    let chars = chars_of(report);
    let space: usize = first_space(&chars);
    if space >= chars.len() || chars.len() - space < 2 {
        return None;
    }
    proof {
        let rest = report@.skip(space + 1);
        assert(rest.drop_last() =~= report@.subrange(space + 1, chars@.len() - 1));
    }
    Decimal::read(report, &chars, space + 1, chars.len() - 1)
}

/// The command that reads the mixer, as the program and its arguments.
pub open spec fn volume_probe() -> ProbeModel {
    ProbeModel::CommandOutput(seq!["wpctl"@, "get-volume"@, "@DEFAULT_AUDIO_SINK@"@])
}

/// What a reading makes of a volume context.
pub open spec fn volume_taken_in(m: VolumeModel, reading: Reading) -> VolumeModel {
    let after = volume_after(m.level, m.muted, reading);
    VolumeModel { level: after.0, muted: after.1, attached: m.attached }
}

impl VolumeContext {
    /// The context and the name to register it under, `volume`. The level is
    /// 0 and the sink not muted until the first reading.
    pub fn new() -> (entry: (String, RsbarContext))
        ensures
            entry.0@ == "volume"@,
            entry.1 matches RsbarContext::Volume(context) && !context.model().attached && is_zero(
                context.model().level,
            ) && !context.model().muted,
    {
        let new_context = VolumeContext {
            volume: Decimal::zero(),
            is_muted: false,
            attached: false,
        };
        ("volume".to_owned(), RsbarContext::Volume(new_context))
    }

    /// Takes a report of the mixer in.
    fn take_in(&mut self, reading: &Reading) -> (r: Result<(), ContextError>)
        ensures
            final(self).model() == volume_taken_in(old(self).model(), *reading),
            match volume_refusal(*reading) {
                None => r == Ok::<(), ContextError>(()),
                Some(e) => r == Err::<(), ContextError>(e),
            },
    {
        match reading {
            Reading::Text(report) => {
                match read_report(report.as_str()) {
                    Some(value) => {
                        self.volume = value;
                        self.is_muted = false;
                    },
                    None => {
                        self.is_muted = true;
                    },
                }
                Ok(())
            },
            Reading::Failed => Err(ContextError::ExternalFailure),
            _ => Err(ContextError::BadReading),
        }
    }

    /// Sets the level from the argument of `setVolume` and returns the
    /// argument for the mixer: the level times one hundred, as a percentage.
    fn set_volume(&mut self, args: &str) -> (r: Result<String, ContextError>)
        ensures
            match decimal_of(args@) {
                None => r == Err::<String, ContextError>(ContextError::BadArgument)
                    && final(self).model() == old(self).model(),
                Some(value) => if in_percent_range(value) {
                    r matches Ok(amount) && amount@ == decimal_text(times_hundred(value)) + "%"@
                        && final(self).model() == (VolumeModel {
                        level: value,
                        muted: old(self).model().muted,
                        attached: old(self).model().attached,
                    })
                } else {
                    r == Err::<String, ContextError>(ContextError::OutOfRange)
                        && final(self).model() == old(self).model()
                },
            },
    {
        match Decimal::parse(args) {
            None => Err(ContextError::BadArgument),
            Some(value) => {
                if !value.is_percent() {
                    return Err(ContextError::OutOfRange);
                }
                let mut amount = value.times_hundred().to_text();
                amount.append("%");
                self.volume = value;
                Ok(amount)
            },
        }
    }

    /// Inverts the mute.
    fn toggle_muted(&mut self, _args: &str)
        ensures
            final(self).model() == (VolumeModel {
                level: old(self).model().level,
                muted: !old(self).model().muted,
                attached: old(self).model().attached,
            }),
    {
        self.is_muted = !self.is_muted;
    }
}

impl RsbarContextContent for VolumeContext {
    type Model = VolumeModel;

    closed spec fn model(&self) -> VolumeModel {
        VolumeModel { level: self.volume.model(), muted: self.is_muted, attached: self.attached }
    }

    open spec fn wf(m: VolumeModel) -> bool {
        true
    }

    open spec fn attached(m: VolumeModel) -> bool {
        m.attached
    }

    open spec fn snapshot(m: VolumeModel) -> Seq<(Seq<char>, Seq<char>)> {
        volume_snapshot(m.level, m.muted)
    }

    open spec fn init_wanted(m: VolumeModel) -> ProbeModel {
        volume_probe()
    }

    open spec fn wanted(m: VolumeModel) -> ProbeModel {
        volume_probe()
    }

    /// `init` marks the context as initialised and takes the first report of
    /// the mixer in.
    open spec fn on_init(m: VolumeModel, reading: Reading) -> Outcome<(), VolumeModel> {
        let after = volume_after(m.level, m.muted, reading);
        Outcome {
            result: match volume_refusal(reading) {
                None => Ok(()),
                Some(e) => Err(e),
            },
            state: VolumeModel { level: after.0, muted: after.1, attached: true },
        }
    }

    /// `update` takes a report of the mixer in and publishes the level and
    /// the mute.
    open spec fn on_update(m: VolumeModel, reading: Reading) -> Outcome<bool, VolumeModel> {
        Outcome {
            result: match volume_refusal(reading) {
                None => if m.attached {
                    Ok(true)
                } else {
                    Err(ContextError::HandlerMissing)
                },
                Some(e) => Err(e),
            },
            state: volume_taken_in(m, reading),
        }
    }

    /// `setVolume` and `toggleMute`: see [`volume_call`]. An accepted call
    /// asks for the mixer to be run, and the topics are published
    /// afterwards.
    open spec fn on_call(m: VolumeModel, procedure: Seq<char>, args: Seq<char>) -> Outcome<
        ActionModel,
        VolumeModel,
    > {
        match volume_call(m.level, m.muted, procedure, args) {
            Ok((level, muted)) => Outcome {
                result: Ok(ActionModel::Command(volume_command(procedure, level))),
                state: VolumeModel { level, muted, attached: m.attached },
            },
            Err(e) => Outcome { result: Err(e), state: m },
        }
    }

    fn init_probe(&self) -> (probe: Probe) {
        self.probe()
    }

    fn init(&mut self, reading: &Reading) -> (r: Result<(), ContextError>) {
        self.attached = true;
        self.take_in(reading)
    }

    fn probe(&self) -> (probe: Probe) {
        Probe::CommandOutput(words_of_three("wpctl", "get-volume", "@DEFAULT_AUDIO_SINK@"))
    }

    fn update(&mut self, reading: &Reading) -> (r: Result<Vec<Emission>, ContextError>) {
        match self.take_in(reading) {
            Ok(()) => {
                let r = self.force_events();
                proof {
                    if r is Ok {
                        assert(emitted(r->Ok_0@).len() == r->Ok_0@.len());
                    }
                }
                r
            },
            Err(e) => Err(e),
        }
    }

    fn call(&mut self, procedure: &str, args: &str) -> (r: Result<Action, ContextError>) {
        if str_eq(procedure, "setVolume") {
            match self.set_volume(args) {
                Ok(amount) => {
                    let mut words = words_of_three("wpctl", "set-volume", "@DEFAULT_AUDIO_SINK@");
                    let ghost before = words@;
                    let ghost last = amount@;
                    words.push(amount);
                    assert(texts(words@) =~= texts(before).push(last));
                    assert(texts(words@) =~= volume_command(procedure@, self.model().level));
                    Ok(Action::Command(words))
                },
                Err(e) => Err(e),
            }
        } else if str_eq(procedure, "toggleMute") {
            self.toggle_muted(args);
            let mut words = words_of_three("wpctl", "set-mute", "@DEFAULT_AUDIO_SINK@");
            let ghost before = words@;
            words.push("toggle".to_owned());
            proof {
                reveal_strlit("toggleMute");
                reveal_strlit("setVolume");
                assert("toggleMute"@.len() != "setVolume"@.len());
                assert(texts(words@) =~= texts(before).push("toggle"@));
            }
            assert(texts(words@) =~= volume_command(procedure@, self.model().level));
            Ok(Action::Command(words))
        } else {
            Err(ContextError::BadProcedure)
        }
    }

    fn force_events(&self) -> (r: Result<Vec<Emission>, ContextError>) {
        if !self.attached {
            return Err(ContextError::HandlerMissing);
        }
        let mut list: Vec<Emission> = Vec::new();
        list.push(emission("volume", self.volume.to_text()));
        list.push(emission("isMuted", bool_to_string(self.is_muted)));
        assert(emitted(list@) =~= Self::snapshot(self.model()));
        Ok(list)
    }
}

/// Two calls of `toggleMute` are both accepted and leave the context as it
/// was: the mute is inverted by the first and restored by the second, and
/// the level is untouched.
pub proof fn lemma_toggle_mute_twice(m: VolumeModel, first_args: Seq<char>, second_args: Seq<char>)
    ensures
        ({
            let first = VolumeContext::on_call(m, "toggleMute"@, first_args);
            let second = VolumeContext::on_call(first.state, "toggleMute"@, second_args);
            &&& first.result is Ok
            &&& first.state.muted == !m.muted
            &&& first.state.level == m.level
            &&& second.result is Ok
            &&& second.state == m
        }),
{
    reveal_strlit("toggleMute");
    reveal_strlit("setVolume");
    assert("toggleMute"@.len() != "setVolume"@.len());
}

/// A level that `setVolume` accepted is the level that is published next:
/// the number that the argument wrote, in its shortest writing, with the
/// mute as it was.
pub proof fn lemma_set_volume_is_published(m: VolumeModel, args: Seq<char>)
    requires
        VolumeContext::on_call(m, "setVolume"@, args).result is Ok,
    ensures
        decimal_of(args) is Some,
        in_percent_range(decimal_of(args)->0),
        VolumeContext::snapshot(VolumeContext::on_call(m, "setVolume"@, args).state) == seq![
            ("volume"@, decimal_text(decimal_of(args)->0)),
            ("isMuted"@, bool_text(m.muted)),
        ],
{
}

} // verus!

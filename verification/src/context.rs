//! What a context is to the registry: a named producer of topic events that
//! is told what was read from the system, and says what to publish and what
//! to do to the system.
//!
//! A context performs no input or output itself. Before an update the caller
//! performs the context's [`Probe`] and hands the [`Reading`] in; after a call
//! the caller performs the [`Action`] that the call returned, and the
//! context's topics are published if it succeeded.

use vstd::prelude::*;

verus! {

/// Why a context refused an operation.
#[derive(Clone, Copy, Debug, PartialEq, Eq, Structural)]
pub enum ContextError {
    /// The context was used before its `init`.
    HandlerMissing,
    /// The context has no procedure of that name.
    BadProcedure,
    /// The argument of the procedure could not be read.
    BadArgument,
    /// The argument of the procedure is outside the accepted range.
    OutOfRange,
    /// The context accepts no calls.
    Unsupported,
    /// The reading is not of the kind that the context probes for, or what
    /// it holds could not be read.
    BadReading,
    /// What the context needs from the system is not there.
    MissingPrerequisite,
    /// The work outside failed.
    ExternalFailure,
}

/// One child of a directory: its name, whether it is a directory itself,
/// and what the files that the probe named hold in it, in the order of the
/// probe; `None` for a file that could not be read.
#[derive(Debug, PartialEq, Eq)]
pub struct DirectoryEntry {
    pub name: String,
    pub is_dir: bool,
    pub contents: Vec<Option<String>>,
}

/// What a context needs read from the system before it is updated.
#[derive(Debug, PartialEq, Eq)]
pub enum Probe {
    /// Nothing.
    Nothing,
    /// Run the command, given as the program and its arguments; the reading
    /// is the `Text` it printed.
    CommandOutput(Vec<String>),
    /// Read the two files; the reading is the `TextPair` of their contents.
    FilePair(String, String),
    /// Read the backlight; the reading is its `Level`.
    Backlight,
    /// List the directory and read the named files in each child that is a
    /// directory; the reading is its `Entries`.
    Directory(String, Vec<String>),
    /// Read the local wall clock; the reading is the `Clock`.
    Clock,
}

/// What was read from the system for a context.
#[derive(Debug, PartialEq, Eq)]
pub enum Reading {
    /// Nothing was read.
    Nothing,
    /// What a command printed.
    Text(String),
    /// What two files hold.
    TextPair(String, String),
    /// The level of a device, in percent.
    Level(u32),
    /// The number of the active workspace.
    Workspace(i32),
    /// The hour and the minute of the local wall clock.
    Clock(u32, u32),
    /// The children of a directory, in the order in which they were listed.
    Entries(Vec<DirectoryEntry>),
    /// The work outside failed.
    Failed,
}

/// What a call asks to be done to the system.
#[derive(Debug, PartialEq, Eq)]
pub enum Action {
    /// Nothing.
    Nothing,
    /// Run the command, given as the program and its arguments.
    Command(Vec<String>),
    /// Set the backlight to this level, in percent.
    SetBacklight(u32),
    /// Write this request to the window manager's control socket.
    ControlRequest(String),
}

/// One value to publish: the parameter of the topic, without the name of the
/// context, and the value.
#[derive(Debug, PartialEq, Eq)]
pub struct Emission {
    pub parameter: String,
    pub value: String,
}

/// The words of a command as plain text.
pub open spec fn texts(words: Seq<String>) -> Seq<Seq<char>> {
    words.map_values(|word: String| word@)
}

/// The emissions as pairs of parameter and value.
pub open spec fn emitted(list: Seq<Emission>) -> Seq<(Seq<char>, Seq<char>)> {
    list.map_values(|e: Emission| (e.parameter@, e.value@))
}

/// The parameters of a list of pairs of parameter and value.
pub open spec fn parameters(pairs: Seq<(Seq<char>, Seq<char>)>) -> Seq<Seq<char>> {
    pairs.map_values(|pair: (Seq<char>, Seq<char>)| pair.0)
}

/// A probe as plain text.
pub enum ProbeModel {
    Nothing,
    CommandOutput(Seq<Seq<char>>),
    FilePair(Seq<char>, Seq<char>),
    Backlight,
    Directory(Seq<char>, Seq<Seq<char>>),
    Clock,
}

/// An action as plain text.
pub enum ActionModel {
    Nothing,
    Command(Seq<Seq<char>>),
    SetBacklight(u32),
    ControlRequest(Seq<char>),
}

/// What an operation of a context comes to: what it returns, and all that
/// the context holds afterwards.
pub struct Outcome<T, M> {
    pub result: Result<T, ContextError>,
    pub state: M,
}

/// The probe as plain text.
pub open spec fn probe_model(probe: Probe) -> ProbeModel {
    match probe {
        Probe::Nothing => ProbeModel::Nothing,
        Probe::CommandOutput(words) => ProbeModel::CommandOutput(texts(words@)),
        Probe::FilePair(first, second) => ProbeModel::FilePair(first@, second@),
        Probe::Backlight => ProbeModel::Backlight,
        Probe::Directory(path, files) => ProbeModel::Directory(path@, texts(files@)),
        Probe::Clock => ProbeModel::Clock,
    }
}

/// The action as plain text.
pub open spec fn action_model(action: Action) -> ActionModel {
    match action {
        Action::Nothing => ActionModel::Nothing,
        Action::Command(words) => ActionModel::Command(texts(words@)),
        Action::SetBacklight(level) => ActionModel::SetBacklight(level),
        Action::ControlRequest(request) => ActionModel::ControlRequest(request@),
    }
}

/// The four operations of a context, and what each promises to the registry.
///
/// A context owns a fixed list of parameters. Its topics are these
/// parameters behind the name under which the context is registered; the
/// registry adds the name, so a context cannot publish on the topic of
/// another.
pub trait RsbarContextContent {
    /// All that a context holds, as plain values.
    type Model;

    /// What the context holds.
    spec fn model(&self) -> Self::Model;

    /// The invariant of what a context holds.
    spec fn wf(m: Self::Model) -> bool;

    /// `init` has been called.
    spec fn attached(m: Self::Model) -> bool;

    /// The parameters that the context owns, each with its current value, in
    /// the order in which they are published.
    spec fn snapshot(m: Self::Model) -> Seq<(Seq<char>, Seq<char>)>;

    /// What `init` needs read from the system.
    spec fn init_wanted(m: Self::Model) -> ProbeModel;

    /// What `update` needs read from the system.
    spec fn wanted(m: Self::Model) -> ProbeModel;

    /// What `init` with this reading comes to.
    spec fn on_init(m: Self::Model, reading: Reading) -> Outcome<(), Self::Model>;

    /// What `update` with this reading comes to; the result says whether
    /// the parameters are published.
    spec fn on_update(m: Self::Model, reading: Reading) -> Outcome<bool, Self::Model>;

    /// What `call` comes to; the result is the action to perform. The
    /// parameters are published once it has succeeded.
    spec fn on_call(m: Self::Model, procedure: Seq<char>, args: Seq<char>) -> Outcome<
        ActionModel,
        Self::Model,
    >;

    /// What `init` needs read from the system.
    fn init_probe(&self) -> (probe: Probe)
        requires
            Self::wf(self.model()),
        ensures
            probe_model(probe) == Self::init_wanted(self.model()),
    ;

    /// Called once after registration, before any other operation, with the
    /// reading of `init_probe`. Fails if what the context needs is absent.
    /// The context counts as initialised even then.
    fn init(&mut self, reading: &Reading) -> (r: Result<(), ContextError>)
        requires
            Self::wf(old(self).model()),
        ensures
            Self::wf(final(self).model()),
            r == Self::on_init(old(self).model(), *reading).result,
            final(self).model() == Self::on_init(old(self).model(), *reading).state,
            Self::attached(final(self).model()),
            parameters(Self::snapshot(final(self).model())) == parameters(
                Self::snapshot(old(self).model()),
            ),
    ;

    /// What `update` needs read from the system.
    fn probe(&self) -> (probe: Probe)
        requires
            Self::wf(self.model()),
        ensures
            probe_model(probe) == Self::wanted(self.model()),
    ;

    /// Takes the reading of `probe` in. On success returns what to publish:
    /// every parameter with its new value, or nothing.
    fn update(&mut self, reading: &Reading) -> (r: Result<Vec<Emission>, ContextError>)
        requires
            Self::wf(old(self).model()),
        ensures
            Self::wf(final(self).model()),
            final(self).model() == Self::on_update(old(self).model(), *reading).state,
            Self::attached(final(self).model()) == Self::attached(old(self).model()),
            parameters(Self::snapshot(final(self).model())) == parameters(
                Self::snapshot(old(self).model()),
            ),
            match r {
                Ok(list) => Self::on_update(old(self).model(), *reading).result == Ok::<
                    bool,
                    ContextError,
                >(list@.len() > 0) && (list@.len() == 0 || (Self::attached(final(self).model())
                    && emitted(list@) == Self::snapshot(final(self).model()))),
                Err(e) => Self::on_update(old(self).model(), *reading).result == Err::<
                    bool,
                    ContextError,
                >(e),
            },
    ;

    /// Invokes the procedure. On success returns the action to perform.
    fn call(&mut self, procedure: &str, args: &str) -> (r: Result<Action, ContextError>)
        requires
            Self::wf(old(self).model()),
        ensures
            Self::wf(final(self).model()),
            final(self).model() == Self::on_call(old(self).model(), procedure@, args@).state,
            Self::attached(final(self).model()) == Self::attached(old(self).model()),
            parameters(Self::snapshot(final(self).model())) == parameters(
                Self::snapshot(old(self).model()),
            ),
            match r {
                Ok(action) => Self::on_call(old(self).model(), procedure@, args@).result == Ok::<
                    ActionModel,
                    ContextError,
                >(action_model(action)),
                Err(e) => Self::on_call(old(self).model(), procedure@, args@).result == Err::<
                    ActionModel,
                    ContextError,
                >(e),
            },
    ;

    /// Every parameter with its current value, to be published. Fails with
    /// `HandlerMissing` before `init`, and only then.
    fn force_events(&self) -> (r: Result<Vec<Emission>, ContextError>)
        requires
            Self::wf(self.model()),
        ensures
            match r {
                Ok(list) => Self::attached(self.model()) && emitted(list@) == Self::snapshot(
                    self.model(),
                ),
                Err(e) => !Self::attached(self.model()) && e == ContextError::HandlerMissing,
            },
    ;
}

/// Makes a list of words from three texts.
pub fn words_of_three(first: &str, second: &str, third: &str) -> (words: Vec<String>)
    ensures
        texts(words@) == seq![first@, second@, third@],
{
    let mut words: Vec<String> = Vec::new();
    words.push(first.to_owned());
    words.push(second.to_owned());
    words.push(third.to_owned());
    assert(texts(words@) =~= seq![first@, second@, third@]);
    words
}

/// Makes a list of words from two texts.
pub fn words_of_two(first: &str, second: &str) -> (words: Vec<String>)
    ensures
        texts(words@) == seq![first@, second@],
{
    let mut words: Vec<String> = Vec::new();
    words.push(first.to_owned());
    words.push(second.to_owned());
    assert(texts(words@) =~= seq![first@, second@]);
    words
}

/// Makes the emission of `value` for `parameter`.
pub fn emission(parameter: &str, value: String) -> (e: Emission)
    ensures
        e.parameter@ == parameter@,
        e.value@ == value@,
{
    Emission { parameter: parameter.to_owned(), value }
}

} // verus!

//! The battery: two topics, the capacity in percent and the charging
//! status, read from two files of the first battery found.

use vstd::prelude::*;
use vstd::string::StringExecFns;

use crate::context::{
    emission, emitted, words_of_two, Action, ActionModel, ContextError, DirectoryEntry,
    Emission, Outcome, Probe, ProbeModel, Reading, RsbarContextContent,
};
use crate::rsbar_context::RsbarContext;
use crate::text::{
    all_digits, decimal_text, parse_u32, str_eq, trim, trimmed, u32_literal, u32_to_string,
};

verus! {

/// What the battery is doing.
#[derive(Clone, Copy, Debug, PartialEq, Eq, Structural)]
pub enum BatteryStatus {
    Charging,
    Discharging,
    Full,
    NotCharging,
    Unknown,
}

/// How a status is published.
pub open spec fn status_text(status: BatteryStatus) -> Seq<char> {
    match status {
        BatteryStatus::Charging => "Charging"@,
        BatteryStatus::Discharging => "Discharging"@,
        BatteryStatus::Full => "Full"@,
        BatteryStatus::NotCharging => "NotCharging"@,
        BatteryStatus::Unknown => "Unknown"@,
    }
}

/// The status that the status file names, if it names one.
pub open spec fn status_of(text: Seq<char>) -> Option<BatteryStatus> {
    if text == "Charging"@ {
        Some(BatteryStatus::Charging)
    } else if text == "Discharging"@ {
        Some(BatteryStatus::Discharging)
    } else if text == "Full"@ {
        Some(BatteryStatus::Full)
    } else if text == "Not charging"@ {
        Some(BatteryStatus::NotCharging)
    } else if text == "Unknown"@ {
        Some(BatteryStatus::Unknown)
    } else {
        None
    }
}

/// The name of a battery's directory: `BAT` and a number.
pub open spec fn is_battery_name(name: Seq<char>) -> bool {
    name.len() > 3 && name.take(3) == seq!['B', 'A', 'T'] && all_digits(name.skip(3))
}

/// The entry that is taken for the battery: the last one that is a
/// directory with the name of a battery.
pub open spec fn battery_choice(entries: Seq<DirectoryEntry>) -> Option<int>
    decreases entries.len(),
{
    if entries.len() == 0 {
        None
    } else if entries.last().is_dir && is_battery_name(entries.last().name@) {
        Some(entries.len() - 1)
    } else {
        battery_choice(entries.drop_last())
    }
}

/// The directory of the battery named `name`.
pub open spec fn battery_path(name: Seq<char>) -> Seq<char> {
    "/sys/class/power_supply/"@ + name
}

/// What an update makes of the capacity and the status: both files are
/// trimmed; the capacity is taken if it is a number, and then the status if
/// it is one.
pub open spec fn battery_after(
    capacity: u32,
    status: BatteryStatus,
    capacity_text: Seq<char>,
    status_file: Seq<char>,
) -> (u32, BatteryStatus, bool) {
    match u32_literal(trimmed(capacity_text)) {
        None => (capacity, status, false),
        Some(level) => match status_of(trimmed(status_file)) {
            None => (level, status, false),
            Some(read) => (level, read, true),
        },
    }
}

/// The topics and their values at a capacity and a status.
pub open spec fn battery_snapshot(capacity: u32, status: BatteryStatus) -> Seq<
    (Seq<char>, Seq<char>),
> {
    seq![("capacity"@, decimal_text(capacity as nat)), ("status"@, status_text(status))]
}

/// The pattern of the name of a battery's directory.
pub fn battery_dir_regex() -> (pattern: &'static str)
    ensures
        pattern@ == "^BAT[0-9]+$"@,
{
    "^BAT[0-9]+$"
}

/// Calls `regex::Regex::new` on the pattern and `Regex::is_match` on
/// `name`. The pattern `^BAT[0-9]+$` is well formed, and matches a text that
/// is `BAT` followed by one or more of the digits 0 to 9 and nothing else.
#[verifier::external_body]
fn matches_battery_pattern(pattern: &str, name: &str) -> (matches: bool)
    requires
        pattern@ == "^BAT[0-9]+$"@,
    ensures
        matches == is_battery_name(name@),
{
    match regex::Regex::new(pattern) {
        Ok(pattern) => pattern.is_match(name),
        Err(_) => false,
    }
}

/// The directory where the power supplies are listed.
pub fn battery_symlink_path() -> (path: &'static str)
    ensures
        path@ == "/sys/class/power_supply/"@,
{
    "/sys/class/power_supply/"
}

/// What the battery's two files hold, as the listing gives it: the first
/// and the second of the entry's contents, if both could be read.
pub open spec fn battery_files(entry: DirectoryEntry) -> Option<(Seq<char>, Seq<char>)> {
    if entry.contents@.len() >= 2 {
        match (entry.contents@[0], entry.contents@[1]) {
            (Some(capacity_text), Some(status_file)) => Some((capacity_text@, status_file@)),
            _ => None,
        }
    } else {
        None
    }
}

/// Finds the battery among the children of the power supply directory.
pub fn find_battery(entries: &Vec<DirectoryEntry>) -> (found: Option<usize>)
    ensures
        match found {
            Some(at) => battery_choice(entries@) == Some(at as int) && at < entries@.len(),
            None => battery_choice(entries@) is None,
        },
{
    let mut found: Option<usize> = None;
    let mut i: usize = 0;
    while i < entries.len()
        invariant
            i <= entries.len(),
            match found {
                Some(at) => battery_choice(entries@.take(i as int)) == Some(at as int) && at < i,
                None => battery_choice(entries@.take(i as int)) is None,
            },
        decreases entries.len() - i,
    {
        proof {
            assert(entries@.take(i + 1).drop_last() =~= entries@.take(i as int));
            assert(entries@.take(i + 1).last() == entries@[i as int]);
        }
        if entries[i].is_dir && matches_battery_pattern(
            battery_dir_regex(),
            entries[i].name.as_str(),
        ) {
            found = Some(i);
        }
        i = i + 1;
    }
    assert(entries@.take(entries@.len() as int) =~= entries@);
    found
}

/// The directory of the battery named `name`.
pub fn battery_dir(name: &str) -> (path: String)
    ensures
        path@ == battery_path(name@),
{
    let mut path = String::from_str(battery_symlink_path());
    path.append(name);
    path
}

/// Finds the directory of the battery among the children of the power
/// supply directory. Fails with `MissingPrerequisite` if there is none.
pub fn find_battery_dir(entries: &Vec<DirectoryEntry>) -> (r: Result<String, ContextError>)
    ensures
        match r {
            Ok(path) => battery_choice(entries@) matches Some(i) && path@ == battery_path(
                entries@[i].name@,
            ),
            Err(e) => battery_choice(entries@) is None && e == ContextError::MissingPrerequisite,
        },
{
    match find_battery(entries) {
        Some(at) => Ok(battery_dir(entries[at].name.as_str())),
        None => Err(ContextError::MissingPrerequisite),
    }
}

impl BatteryStatus {
    /// Writes the status as it is published.
    pub fn to_string(&self) -> (text: String)
        ensures
            text@ == status_text(*self),
    {
        match self {
            BatteryStatus::Charging => String::from_str("Charging"),
            BatteryStatus::Discharging => String::from_str("Discharging"),
            BatteryStatus::Full => String::from_str("Full"),
            BatteryStatus::NotCharging => String::from_str("NotCharging"),
            BatteryStatus::Unknown => String::from_str("Unknown"),
        }
    }

    /// Reads the status from what the status file holds.
    pub fn parse(text: &str) -> (status: Option<BatteryStatus>)
        ensures
            status == status_of(text@),
    {
        if str_eq(text, "Charging") {
            Some(BatteryStatus::Charging)
        } else if str_eq(text, "Discharging") {
            Some(BatteryStatus::Discharging)
        } else if str_eq(text, "Full") {
            Some(BatteryStatus::Full)
        } else if str_eq(text, "Not charging") {
            Some(BatteryStatus::NotCharging)
        } else if str_eq(text, "Unknown") {
            Some(BatteryStatus::Unknown)
        } else {
            None
        }
    }
}

/// The capacity and the status of the battery as its files last gave them.
pub struct BatteryContext {
    capacity: u32,
    status: BatteryStatus,
    directory: Option<String>,
    attached: bool,
}

/// What a battery context holds: the capacity in percent, the status, the
/// directory of the battery once `init` has found it with both of its files
/// readable, and whether `init` has been called.
pub struct BatteryModel {
    pub capacity: u32,
    pub status: BatteryStatus,
    pub directory: Option<Seq<char>>,
    pub attached: bool,
}

/// What the two files make of a battery context, and whether both were
/// accepted.
pub open spec fn battery_taken_in(
    m: BatteryModel,
    capacity_text: Seq<char>,
    status_file: Seq<char>,
) -> (BatteryModel, bool) {
    let after = battery_after(m.capacity, m.status, capacity_text, status_file);
    (
        BatteryModel {
            capacity: after.0,
            status: after.1,
            directory: m.directory,
            attached: m.attached,
        },
        after.2,
    )
}

/// What `init` makes of a battery context. The context counts as
/// initialised whatever was read. Without a battery among the entries the
/// prerequisite is missing; if one of the battery's two files could not be
/// read, the work outside has failed. Otherwise the directory is kept and
/// the first reading is taken in, as by an update.
pub open spec fn battery_init(m: BatteryModel, reading: Reading) -> Outcome<(), BatteryModel> {
    let marked = BatteryModel {
        capacity: m.capacity,
        status: m.status,
        directory: m.directory,
        attached: true,
    };
    match reading {
        Reading::Entries(entries) => match battery_choice(entries@) {
            None => Outcome { result: Err(ContextError::MissingPrerequisite), state: marked },
            Some(i) => match battery_files(entries@[i]) {
                None => Outcome { result: Err(ContextError::ExternalFailure), state: marked },
                Some((capacity_text, status_file)) => {
                    let found = BatteryModel {
                        capacity: m.capacity,
                        status: m.status,
                        directory: Some(battery_path(entries@[i].name@)),
                        attached: true,
                    };
                    let after = battery_taken_in(found, capacity_text, status_file);
                    Outcome {
                        result: if after.1 {
                            Ok(())
                        } else {
                            Err(ContextError::BadReading)
                        },
                        state: after.0,
                    }
                },
            },
        },
        Reading::Failed => Outcome { result: Err(ContextError::ExternalFailure), state: marked },
        _ => Outcome { result: Err(ContextError::BadReading), state: marked },
    }
}

impl BatteryContext {
    /// The context and the name to register it under, `battery`. The
    /// capacity is 0 and the status `Full` until the first reading.
    pub fn new() -> (entry: (String, RsbarContext))
        ensures
            entry.0@ == "battery"@,
            entry.1 matches RsbarContext::Battery(context) && context.model() == (BatteryModel {
                capacity: 0,
                status: BatteryStatus::Full,
                directory: None,
                attached: false,
            }),
    {
        let new_context = BatteryContext {
            capacity: 0,
            status: BatteryStatus::Full,
            directory: None,
            attached: false,
        };
        ("battery".to_owned(), RsbarContext::Battery(new_context))
    }

    /// Takes what the two files hold in.
    fn take_in(&mut self, capacity_text: &str, status_file: &str) -> (accepted: bool)
        ensures
            (final(self).model(), accepted) == battery_taken_in(
                old(self).model(),
                capacity_text@,
                status_file@,
            ),
    {
        match parse_u32(trim(capacity_text)) {
            None => false,
            Some(level) => {
                self.capacity = level;
                match BatteryStatus::parse(trim(status_file)) {
                    None => false,
                    Some(read) => {
                        self.status = read;
                        true
                    },
                }
            },
        }
    }

    /// Takes the first reading in: the entry of the battery, with what its
    /// two files hold.
    fn take_first(&mut self, entry: &DirectoryEntry) -> (r: Result<(), ContextError>)
        ensures
            match battery_files(*entry) {
                None => r == Err::<(), ContextError>(ContextError::ExternalFailure)
                    && final(self).model() == old(self).model(),
                Some((capacity_text, status_file)) => {
                    let found = BatteryModel {
                        capacity: old(self).model().capacity,
                        status: old(self).model().status,
                        directory: Some(battery_path(entry.name@)),
                        attached: old(self).model().attached,
                    };
                    let after = battery_taken_in(found, capacity_text, status_file);
                    &&& final(self).model() == after.0
                    &&& r == if after.1 {
                        Ok::<(), ContextError>(())
                    } else {
                        Err::<(), ContextError>(ContextError::BadReading)
                    }
                },
            },
    {
        if entry.contents.len() < 2 {
            return Err(ContextError::ExternalFailure);
        }
        match &entry.contents[0] {
            None => Err(ContextError::ExternalFailure),
            Some(capacity_text) => match &entry.contents[1] {
                None => Err(ContextError::ExternalFailure),
                Some(status_file) => {
                    self.directory = Some(battery_dir(entry.name.as_str()));
                    if self.take_in(capacity_text.as_str(), status_file.as_str()) {
                        Ok(())
                    } else {
                        Err(ContextError::BadReading)
                    }
                },
            },
        }
    }
}

impl RsbarContextContent for BatteryContext {
    type Model = BatteryModel;

    closed spec fn model(&self) -> BatteryModel {
        BatteryModel {
            capacity: self.capacity,
            status: self.status,
            directory: match self.directory {
                Some(path) => Some(path@),
                None => None,
            },
            attached: self.attached,
        }
    }

    open spec fn wf(m: BatteryModel) -> bool {
        true
    }

    open spec fn attached(m: BatteryModel) -> bool {
        m.attached
    }

    open spec fn snapshot(m: BatteryModel) -> Seq<(Seq<char>, Seq<char>)> {
        battery_snapshot(m.capacity, m.status)
    }

    /// The listing of the power supplies, with the two files of each.
    open spec fn init_wanted(m: BatteryModel) -> ProbeModel {
        ProbeModel::Directory("/sys/class/power_supply/"@, seq!["capacity"@, "status"@])
    }

    /// The two files of the battery, once its directory is known.
    open spec fn wanted(m: BatteryModel) -> ProbeModel {
        match m.directory {
            Some(path) => ProbeModel::FilePair(path + "/capacity"@, path + "/status"@),
            None => ProbeModel::Nothing,
        }
    }

    open spec fn on_init(m: BatteryModel, reading: Reading) -> Outcome<(), BatteryModel> {
        battery_init(m, reading)
    }

    /// `update` takes what the two files hold in and publishes the capacity
    /// and the status. It fails with `MissingPrerequisite` while the
    /// directory of the battery is not known.
    open spec fn on_update(m: BatteryModel, reading: Reading) -> Outcome<bool, BatteryModel> {
        if m.directory is None {
            Outcome { result: Err(ContextError::MissingPrerequisite), state: m }
        } else {
            match reading {
                Reading::TextPair(capacity_text, status_file) => {
                    let after = battery_taken_in(m, capacity_text@, status_file@);
                    Outcome {
                        result: if !after.1 {
                            Err(ContextError::BadReading)
                        } else if m.attached {
                            Ok(true)
                        } else {
                            Err(ContextError::HandlerMissing)
                        },
                        state: after.0,
                    }
                },
                Reading::Failed => Outcome { result: Err(ContextError::ExternalFailure), state: m },
                _ => Outcome { result: Err(ContextError::BadReading), state: m },
            }
        }
    }

    /// The context accepts no calls.
    open spec fn on_call(m: BatteryModel, procedure: Seq<char>, args: Seq<char>) -> Outcome<
        ActionModel,
        BatteryModel,
    > {
        Outcome { result: Err(ContextError::Unsupported), state: m }
    }

    fn init_probe(&self) -> (probe: Probe) {
        Probe::Directory(
            String::from_str(battery_symlink_path()),
            words_of_two("capacity", "status"),
        )
    }

    fn init(&mut self, reading: &Reading) -> (r: Result<(), ContextError>) {
        self.attached = true;
        match reading {
            Reading::Entries(entries) => {
                match find_battery(entries) {
                    Some(at) => self.take_first(&entries[at]),
                    None => Err(ContextError::MissingPrerequisite),
                }
            },
            Reading::Failed => Err(ContextError::ExternalFailure),
            _ => Err(ContextError::BadReading),
        }
    }

    fn probe(&self) -> (probe: Probe) {
        match &self.directory {
            Some(path) => {
                let mut capacity = path.clone();
                capacity.append("/capacity");
                let mut status = path.clone();
                status.append("/status");
                Probe::FilePair(capacity, status)
            },
            None => Probe::Nothing,
        }
    }

    fn update(&mut self, reading: &Reading) -> (r: Result<Vec<Emission>, ContextError>) {
        if self.directory.is_none() {
            return Err(ContextError::MissingPrerequisite);
        }
        match reading {
            Reading::TextPair(capacity_text, status_file) => {
                if self.take_in(capacity_text.as_str(), status_file.as_str()) {
                    let r = self.force_events();
                    proof {
                        if r is Ok {
                            assert(emitted(r->Ok_0@).len() == r->Ok_0@.len());
                        }
                    }
                    r
                } else {
                    Err(ContextError::BadReading)
                }
            },
            Reading::Failed => Err(ContextError::ExternalFailure),
            _ => Err(ContextError::BadReading),
        }
    }

    fn call(&mut self, procedure: &str, args: &str) -> (r: Result<Action, ContextError>) {
        Err(ContextError::Unsupported)
    }

    fn force_events(&self) -> (r: Result<Vec<Emission>, ContextError>) {
        if !self.attached {
            return Err(ContextError::HandlerMissing);
        }
        let mut list: Vec<Emission> = Vec::new();
        list.push(emission("capacity", u32_to_string(self.capacity)));
        list.push(emission("status", self.status.to_string()));
        assert(emitted(list@) =~= Self::snapshot(self.model()));
        Ok(list)
    }
}

} // verus!

//! What the bot remembers between runs, and how it is kept in a file.
use crate::amount::Amount;
use crate::clock::unix_now;
use crate::rounding::{hours_left, hours_left_of, law_hours_left_are_zero_exactly_at_the_end, unit, EXACT_LIMIT};
use crate::text::concat2;
use crate::types::DeltaNeutralPosition;
use vstd::prelude::*;

verus! {

broadcast use vstd::string::group_string_axioms;

/// The state file, where the environment names no other.
pub open spec fn default_state_file() -> Seq<char> {
    "state/bot_state.json"@
}

/// Where the state file used to be. It is not read.
pub open spec fn legacy_state_file() -> Seq<char> {
    "bot_state.json"@
}

#[derive(Debug)]
pub struct BotState {
    pub current_position: Option<DeltaNeutralPosition>,
    /// Seconds since the Unix epoch.
    pub last_rotation_time: Option<u64>,
    pub total_rotations: u64,
}

/// Why the time, or the age of a position, cannot be told.
#[derive(Clone, Copy, PartialEq, Eq, Debug, Structural)]
pub enum ClockFault {
    /// The clock stands before the Unix epoch.
    BeforeEpoch,
    /// The clock stands before the time at which the position was opened.
    BeforeOpening,
    /// The clock stands after the last second that has a date.
    BeyondDates,
}

/// A position opened at `opened_at` has been open for the full hours to hold it.
pub open spec fn rotation_due(opened_at: u64, hold_time_hours: u64, now: u64) -> bool {
    (now - opened_at) / 3600 >= hold_time_hours
}

/// Whether the position of a state is to be rotated, where the clock says `now`.
pub open spec fn rotation_answer(state: BotState, hold_time_hours: u64, now: Option<u64>) -> Result<
    bool,
    ClockFault,
> {
    match state.current_position {
        None => Ok(false),
        Some(pos) => match now {
            None => Err(ClockFault::BeforeEpoch),
            Some(t) => if t < pos.opened_at {
                Err(ClockFault::BeforeOpening)
            } else {
                Ok(rotation_due(pos.opened_at, hold_time_hours, t))
            },
        },
    }
}

/// The seconds for which the position of a state has been open, where the clock
/// says `now`.
pub open spec fn elapsed_answer(state: BotState, now: Option<u64>) -> Result<Option<u64>, ClockFault> {
    match state.current_position {
        None => Ok(None),
        Some(pos) => match now {
            None => Err(ClockFault::BeforeEpoch),
            Some(t) => if t < pos.opened_at {
                Err(ClockFault::BeforeOpening)
            } else {
                Ok(Some((t - pos.opened_at) as u64))
            },
        },
    }
}

/// The hours until the rotation of the position of a state, where the clock says `now`.
pub open spec fn hours_answer(state: BotState, hold_time_hours: u64, now: Option<u64>) -> Result<
    Option<Amount>,
    ClockFault,
> {
    match elapsed_answer(state, now) {
        Err(fault) => Err(fault),
        Ok(None) => Ok(None),
        Ok(Some(elapsed)) => Ok(Some(hours_left_of(hold_time_hours, elapsed))),
    }
}

impl Clone for BotState {
    fn clone(&self) -> (r: BotState)
        ensures
            r == *self,
    {
        BotState {
            current_position: match &self.current_position {
                Some(p) => Some(p.clone()),
                None => None,
            },
            last_rotation_time: self.last_rotation_time,
            total_rotations: self.total_rotations,
        }
    }
}

impl BotState {
    /// The state of a bot that has done nothing yet.
    pub open spec fn fresh() -> BotState {
        BotState { current_position: None, last_rotation_time: None, total_rotations: 0 }
    }

    /// The clock does not stand before the opening of the position.
    pub open spec fn opened_by(self, now: u64) -> bool {
        self.current_position matches Some(pos) ==> pos.opened_at <= now
    }

    pub fn new() -> (r: BotState)
        ensures
            r == BotState::fresh(),
    {
        BotState { current_position: None, last_rotation_time: None, total_rotations: 0 }
    }

    /// Whether the position is to be rotated at the second `now`.
    pub fn should_rotate_at(&self, hold_time_hours: u64, now: u64) -> (r: bool)
        requires
            self.opened_by(now),
        ensures
            r == (self.current_position matches Some(pos) && rotation_due(
                pos.opened_at,
                hold_time_hours,
                now,
            )),
    {
        match &self.current_position {
            Some(pos) => (now - pos.opened_at) / 3600 >= hold_time_hours,
            None => false,
        }
    }

    /// Whether the position is to be rotated, given what the clock says.
    pub fn should_rotate_given(&self, hold_time_hours: u64, now: Option<u64>) -> (r: Result<
        bool,
        ClockFault,
    >)
        ensures
            r == rotation_answer(*self, hold_time_hours, now),
    {
        match &self.current_position {
            None => Ok(false),
            Some(pos) => match now {
                None => Err(ClockFault::BeforeEpoch),
                Some(t) => if t < pos.opened_at {
                    Err(ClockFault::BeforeOpening)
                } else {
                    Ok(self.should_rotate_at(hold_time_hours, t))
                },
            },
        }
    }

    /// Whether the position is to be rotated now. Without a position the answer
    /// is no, whatever the clock says.
    pub fn should_rotate(&self, hold_time_hours: u64) -> (r: Result<bool, ClockFault>)
        ensures
            exists|now: Option<u64>| r == #[trigger] rotation_answer(*self, hold_time_hours, now),
    {
        let now: Option<u64> = unix_now();
        self.should_rotate_given(hold_time_hours, now)
    }

    /// The seconds for which the position has been open at the second `now`.
    pub fn elapsed_secs_at(&self, now: u64) -> (r: Option<u64>)
        requires
            self.opened_by(now),
        ensures
            r is Some == self.current_position is Some,
            self.current_position matches Some(pos) ==> r == Some((now - pos.opened_at) as u64),
    {
        match &self.current_position {
            Some(pos) => Some(now - pos.opened_at),
            None => None,
        }
    }

    /// The seconds for which the position has been open, given what the clock says.
    pub fn elapsed_secs_given(&self, now: Option<u64>) -> (r: Result<Option<u64>, ClockFault>)
        ensures
            r == elapsed_answer(*self, now),
    {
        match &self.current_position {
            None => Ok(None),
            Some(pos) => match now {
                None => Err(ClockFault::BeforeEpoch),
                Some(t) => if t < pos.opened_at {
                    Err(ClockFault::BeforeOpening)
                } else {
                    Ok(self.elapsed_secs_at(t))
                },
            },
        }
    }

    /// The hours until the rotation, given what the clock says. None are left once the
    /// time to hold the position is over.
    pub fn hours_until_rotation_given(&self, hold_time_hours: u64, now: Option<u64>) -> (r: Result<
        Option<Amount>,
        ClockFault,
    >)
        ensures
            r == hours_answer(*self, hold_time_hours, now),
    {
        match self.elapsed_secs_given(now) {
            Err(fault) => Err(fault),
            Ok(passed) => match passed {
                None => Ok(None),
                Some(elapsed) => Ok(Some(hours_left(hold_time_hours, elapsed))),
            },
        }
    }

    /// The hours until the rotation.
    pub fn hours_until_rotation(&self, hold_time_hours: u64) -> (r: Result<
        Option<Amount>,
        ClockFault,
    >)
        ensures
            exists|now: Option<u64>| r == #[trigger] hours_answer(*self, hold_time_hours, now),
    {
        let now: Option<u64> = unix_now();
        self.hours_until_rotation_given(hold_time_hours, now)
    }
}

/// A position is due for rotation exactly when it has been open for the seconds of
/// the hours to hold it, and once it is due it stays so.
pub proof fn law_rotation_is_due_after_the_hold_time(
    opened_at: u64,
    hold_time_hours: u64,
    now: u64,
    later: u64,
)
    requires
        opened_at <= now <= later,
    ensures
        rotation_due(opened_at, hold_time_hours, now) <==> now - opened_at >= hold_time_hours * 3600,
        rotation_due(opened_at, hold_time_hours, now) ==> rotation_due(
            opened_at,
            hold_time_hours,
            later,
        ),
{
}

/// No hours are left exactly when the rotation is due: where the same second tells
/// both, there are hours exactly where there is a position, they lie between 0 and the
/// hours to hold, and they are 0 exactly where the position is to be rotated. That
/// holds while the seconds to hold are fewer than two to the 53.
pub proof fn law_no_hours_are_left_exactly_when_due(state: BotState, hold_time_hours: u64, now: u64)
    requires
        state.opened_by(now),
        hold_time_hours * 3600 < EXACT_LIMIT,
    ensures
        hours_answer(state, hold_time_hours, Some(now)) matches Ok(left) && {
            &&& left is None <==> state.current_position is None
            &&& left matches Some(hours) ==> {
                &&& hours.is_finite()
                &&& 0 <= hours.scaled_value() <= hold_time_hours * unit()
                &&& hours.scaled_value() == 0 <==> rotation_answer(state, hold_time_hours, Some(now))
                    == Ok::<bool, ClockFault>(true)
            }
        },
{
    if let Some(pos) = state.current_position {
        law_hours_left_are_zero_exactly_at_the_end(
            hold_time_hours,
            (now - pos.opened_at) as u64,
        );
    }
}

/// Where the state file used to be. It is not read.
pub fn legacy_state_path() -> (r: &'static str)
    ensures
        r@ == legacy_state_file(),
{
    "bot_state.json"
}

/// The path of the state file in use, and whether a file that lies at the old
/// place must be warned of.
pub fn resolve_state_path(from_environment: Option<String>, legacy_exists: bool) -> (r: (String, bool))
    ensures
        from_environment matches Some(path) ==> r.0 == path,
        from_environment is None ==> r.0@ == default_state_file(),
        r.1 == (legacy_exists && r.0@ != legacy_state_file()),
{
    let path: String = match from_environment {
        Some(path) => path,
        None => "state/bot_state.json".to_owned(),
    };
    let warn: bool = legacy_exists && !crate::text::same_text(path.as_str(), legacy_state_path());
    (path, warn)
}

/// Where the last good state file is kept.
pub fn backup_path(path: &str) -> (r: String)
    ensures
        r@ == path@ + ".bak"@,
{
    concat2(path, ".bak")
}

/// Where a state file is written before it takes the place of the old one.
pub fn temp_path(path: &str) -> (r: String)
    ensures
        r@ == path@ + ".tmp"@,
{
    concat2(path, ".tmp")
}

// ---------------------------------------------------------------------------
// Loading
// ---------------------------------------------------------------------------
/// What came of reading and parsing a state file.
#[derive(Debug)]
pub enum FileContent {
    Unreadable(String),
    Malformed(String),
    State(BotState),
}

#[derive(Clone, Copy, PartialEq, Eq, Debug, Structural)]
pub enum LoadStage {
    Start,
    AwaitMainProbe,
    AwaitMain,
    AwaitBackupProbe,
    AwaitBackup,
    AwaitInitialSave,
    Finished,
}

#[derive(Debug)]
pub enum LoadEvent {
    Begin,
    MainExists(bool),
    Main(FileContent),
    BackupExists(bool),
    Backup(FileContent),
    /// The initial state was saved, or could not be.
    Saved(bool),
}

#[derive(Debug)]
pub enum LoadAction {
    /// Nothing to do: the event was not the one waited for.
    Await,
    ProbeMain,
    ReadMain,
    ProbeBackup,
    ReadBackup,
    SaveInitial(BotState),
    Finish(BotState),
    Fail(String),
}

/// How loading goes on from a stage when an event comes in.
pub open spec fn load_step(stage: LoadStage, event: LoadEvent) -> (LoadStage, LoadAction) {
    match (stage, event) {
        (LoadStage::Start, LoadEvent::Begin) => (LoadStage::AwaitMainProbe, LoadAction::ProbeMain),
        (LoadStage::AwaitMainProbe, LoadEvent::MainExists(there)) => if there {
            (LoadStage::AwaitMain, LoadAction::ReadMain)
        } else {
            (LoadStage::AwaitInitialSave, LoadAction::SaveInitial(BotState::fresh()))
        },
        (LoadStage::AwaitMain, LoadEvent::Main(content)) => match content {
            FileContent::Unreadable(e) => (LoadStage::Finished, LoadAction::Fail(e)),
            FileContent::Malformed(_) => (LoadStage::AwaitBackupProbe, LoadAction::ProbeBackup),
            FileContent::State(s) => (LoadStage::Finished, LoadAction::Finish(s)),
        },
        (LoadStage::AwaitBackupProbe, LoadEvent::BackupExists(there)) => if there {
            (LoadStage::AwaitBackup, LoadAction::ReadBackup)
        } else {
            (LoadStage::AwaitInitialSave, LoadAction::SaveInitial(BotState::fresh()))
        },
        (LoadStage::AwaitBackup, LoadEvent::Backup(content)) => match content {
            FileContent::Unreadable(e) => (LoadStage::Finished, LoadAction::Fail(e)),
            FileContent::Malformed(e) => (LoadStage::Finished, LoadAction::Fail(e)),
            FileContent::State(s) => (LoadStage::Finished, LoadAction::Finish(s)),
        },
        (LoadStage::AwaitInitialSave, LoadEvent::Saved(_)) => (
            LoadStage::Finished,
            LoadAction::Finish(BotState::fresh()),
        ),
        _ => (stage, LoadAction::Await),
    }
}

impl BotState {
    /// One step of loading the state from its file, or from the backup where
    /// the file is malformed, or of starting afresh where there is neither.
    pub fn load_from_file(stage: LoadStage, event: LoadEvent) -> (r: (LoadStage, LoadAction))
        ensures
            r == load_step(stage, event),
    {
        match (stage, event) {
            (LoadStage::Start, LoadEvent::Begin) => (
                LoadStage::AwaitMainProbe,
                LoadAction::ProbeMain,
            ),
            (LoadStage::AwaitMainProbe, LoadEvent::MainExists(there)) => if there {
                (LoadStage::AwaitMain, LoadAction::ReadMain)
            } else {
                (LoadStage::AwaitInitialSave, LoadAction::SaveInitial(BotState::new()))
            },
            (LoadStage::AwaitMain, LoadEvent::Main(content)) => match content {
                FileContent::Unreadable(e) => (LoadStage::Finished, LoadAction::Fail(e)),
                FileContent::Malformed(_) => (LoadStage::AwaitBackupProbe, LoadAction::ProbeBackup),
                FileContent::State(s) => (LoadStage::Finished, LoadAction::Finish(s)),
            },
            (LoadStage::AwaitBackupProbe, LoadEvent::BackupExists(there)) => if there {
                (LoadStage::AwaitBackup, LoadAction::ReadBackup)
            } else {
                (LoadStage::AwaitInitialSave, LoadAction::SaveInitial(BotState::new()))
            },
            (LoadStage::AwaitBackup, LoadEvent::Backup(content)) => match content {
                FileContent::Unreadable(e) => (LoadStage::Finished, LoadAction::Fail(e)),
                FileContent::Malformed(e) => (LoadStage::Finished, LoadAction::Fail(e)),
                FileContent::State(s) => (LoadStage::Finished, LoadAction::Finish(s)),
            },
            (LoadStage::AwaitInitialSave, LoadEvent::Saved(_)) => (
                LoadStage::Finished,
                LoadAction::Finish(BotState::new()),
            ),
            _ => (stage, LoadAction::Await),
        }
    }
}

/// The stage and the last action after these events.
pub open spec fn load_run(events: Seq<LoadEvent>) -> (LoadStage, LoadAction)
    decreases events.len(),
{
    if events.len() == 0 {
        (LoadStage::Start, LoadAction::Await)
    } else {
        load_step(load_run(events.drop_last()).0, events.last())
    }
}

/// The file was read and proved malformed.
pub open spec fn file_was_malformed(events: Seq<LoadEvent>) -> bool {
    exists|i: int|
        0 <= i < events.len() && (#[trigger] events[i] matches LoadEvent::Main(content)
            && content is Malformed)
}

/// What the events must have been for loading to stand at this stage.
spec fn load_evidence(stage: LoadStage, events: Seq<LoadEvent>) -> bool {
    match stage {
        LoadStage::AwaitMain => events.contains(LoadEvent::MainExists(true)),
        LoadStage::AwaitBackupProbe => file_was_malformed(events),
        LoadStage::AwaitBackup => file_was_malformed(events),
        LoadStage::AwaitInitialSave => {
            ||| events.contains(LoadEvent::MainExists(false))
            ||| events.contains(LoadEvent::BackupExists(false)) && file_was_malformed(events)
        },
        _ => true,
    }
}

/// What has been seen stays seen when one more event comes in.
proof fn lemma_more_load_events(events: Seq<LoadEvent>)
    requires
        events.len() > 0,
    ensures
        events.contains(events.last()),
        forall|e: LoadEvent| events.drop_last().contains(e) ==> #[trigger] events.contains(e),
        file_was_malformed(events.drop_last()) ==> file_was_malformed(events),
{
    let before = events.drop_last();
    assert(events[events.len() - 1] == events.last());
    assert forall|e: LoadEvent| before.contains(e) implies #[trigger] events.contains(e) by {
        let i = choose|i: int| 0 <= i < before.len() && before[i] == e;
        assert(events[i] == e);
    }
    if file_was_malformed(before) {
        let i = choose|i: int|
            0 <= i < before.len() && (#[trigger] before[i] matches LoadEvent::Main(content)
                && content is Malformed);
        assert(events[i] == before[i]);
    }
}

proof fn lemma_load_evidence(events: Seq<LoadEvent>)
    ensures
        load_evidence(load_run(events).0, events),
    decreases events.len(),
{
    if events.len() > 0 {
        lemma_load_evidence(events.drop_last());
        lemma_more_load_events(events);
        assert(events[events.len() - 1] == events.last());
    }
}

/// A state comes out of loading only where it was read from the file, or read
/// from the backup after the file proved malformed, or where it is the fresh
/// state: then there was no file, or a malformed one and no backup.
pub proof fn law_loaded_state_has_a_source(events: Seq<LoadEvent>)
    ensures
        load_run(events).1 matches LoadAction::Finish(s) ==> {
            ||| events.contains(LoadEvent::Main(FileContent::State(s)))
            ||| events.contains(LoadEvent::Backup(FileContent::State(s))) && file_was_malformed(
                events,
            )
            ||| s == BotState::fresh() && events.contains(LoadEvent::MainExists(false))
            ||| s == BotState::fresh() && events.contains(LoadEvent::BackupExists(false))
                && file_was_malformed(events)
        },
{
    if events.len() > 0 {
        lemma_load_evidence(events.drop_last());
        lemma_more_load_events(events);
    }
}

// ---------------------------------------------------------------------------
// Saving
// ---------------------------------------------------------------------------
#[derive(Clone, Copy, PartialEq, Eq, Debug, Structural)]
pub enum SaveStage {
    Start,
    AwaitParent,
    AwaitMainProbe,
    AwaitBackupCopy,
    AwaitSerialized,
    AwaitTempWrite,
    AwaitRename,
    AwaitDirectWrite,
    AwaitTempRemoval,
    Finished,
}

#[derive(Debug)]
pub enum SaveEvent {
    /// Saving begins; the path has a parent directory or lies in the current one.
    Begin { has_parent: bool },
    ParentCreated(Result<(), String>),
    MainExists(bool),
    /// The old file was copied to the backup, or could not be.
    BackupCopied(bool),
    Serialized(Result<(), String>),
    TempWritten(Result<(), String>),
    /// The new file took the place of the old one, or could not.
    Renamed(bool),
    DirectWritten(Result<(), String>),
    /// The file that could not be renamed is gone, or could not be removed.
    TempRemoved(bool),
}

#[derive(Debug)]
pub enum SaveAction {
    /// Nothing to do: the event was not the one waited for.
    Await,
    CreateParent,
    ProbeMain,
    CopyToBackup,
    Serialize,
    WriteTemp,
    RenameTemp,
    WriteMain,
    RemoveTemp,
    Finish,
    Fail(String),
}

/// How saving goes on from a stage when an event comes in.
pub open spec fn save_step(stage: SaveStage, event: SaveEvent) -> (SaveStage, SaveAction) {
    match (stage, event) {
        (SaveStage::Start, SaveEvent::Begin { has_parent }) => if has_parent {
            (SaveStage::AwaitParent, SaveAction::CreateParent)
        } else {
            (SaveStage::AwaitMainProbe, SaveAction::ProbeMain)
        },
        (SaveStage::AwaitParent, SaveEvent::ParentCreated(done)) => match done {
            Ok(_) => (SaveStage::AwaitMainProbe, SaveAction::ProbeMain),
            Err(e) => (SaveStage::Finished, SaveAction::Fail(e)),
        },
        (SaveStage::AwaitMainProbe, SaveEvent::MainExists(there)) => if there {
            (SaveStage::AwaitBackupCopy, SaveAction::CopyToBackup)
        } else {
            (SaveStage::AwaitSerialized, SaveAction::Serialize)
        },
        (SaveStage::AwaitBackupCopy, SaveEvent::BackupCopied(_)) => (
            SaveStage::AwaitSerialized,
            SaveAction::Serialize,
        ),
        (SaveStage::AwaitSerialized, SaveEvent::Serialized(done)) => match done {
            Ok(_) => (SaveStage::AwaitTempWrite, SaveAction::WriteTemp),
            Err(e) => (SaveStage::Finished, SaveAction::Fail(e)),
        },
        (SaveStage::AwaitTempWrite, SaveEvent::TempWritten(done)) => match done {
            Ok(_) => (SaveStage::AwaitRename, SaveAction::RenameTemp),
            Err(e) => (SaveStage::Finished, SaveAction::Fail(e)),
        },
        (SaveStage::AwaitRename, SaveEvent::Renamed(done)) => if done {
            (SaveStage::Finished, SaveAction::Finish)
        } else {
            (SaveStage::AwaitDirectWrite, SaveAction::WriteMain)
        },
        (SaveStage::AwaitDirectWrite, SaveEvent::DirectWritten(done)) => match done {
            Ok(_) => (SaveStage::AwaitTempRemoval, SaveAction::RemoveTemp),
            Err(e) => (SaveStage::Finished, SaveAction::Fail(e)),
        },
        (SaveStage::AwaitTempRemoval, SaveEvent::TempRemoved(_)) => (
            SaveStage::Finished,
            SaveAction::Finish,
        ),
        _ => (stage, SaveAction::Await),
    }
}

impl BotState {
    /// One step of saving the state: the old file is copied to the backup, the
    /// new one is written beside it and renamed over it, and only where that
    /// fails is the old one written over.
    pub fn save_to_file(stage: SaveStage, event: SaveEvent) -> (r: (SaveStage, SaveAction))
        ensures
            r == save_step(stage, event),
    {
        match (stage, event) {
            (SaveStage::Start, SaveEvent::Begin { has_parent }) => if has_parent {
                (SaveStage::AwaitParent, SaveAction::CreateParent)
            } else {
                (SaveStage::AwaitMainProbe, SaveAction::ProbeMain)
            },
            (SaveStage::AwaitParent, SaveEvent::ParentCreated(done)) => match done {
                Ok(_) => (SaveStage::AwaitMainProbe, SaveAction::ProbeMain),
                Err(e) => (SaveStage::Finished, SaveAction::Fail(e)),
            },
            (SaveStage::AwaitMainProbe, SaveEvent::MainExists(there)) => if there {
                (SaveStage::AwaitBackupCopy, SaveAction::CopyToBackup)
            } else {
                (SaveStage::AwaitSerialized, SaveAction::Serialize)
            },
            (SaveStage::AwaitBackupCopy, SaveEvent::BackupCopied(_)) => (
                SaveStage::AwaitSerialized,
                SaveAction::Serialize,
            ),
            (SaveStage::AwaitSerialized, SaveEvent::Serialized(done)) => match done {
                Ok(_) => (SaveStage::AwaitTempWrite, SaveAction::WriteTemp),
                Err(e) => (SaveStage::Finished, SaveAction::Fail(e)),
            },
            (SaveStage::AwaitTempWrite, SaveEvent::TempWritten(done)) => match done {
                Ok(_) => (SaveStage::AwaitRename, SaveAction::RenameTemp),
                Err(e) => (SaveStage::Finished, SaveAction::Fail(e)),
            },
            (SaveStage::AwaitRename, SaveEvent::Renamed(done)) => if done {
                (SaveStage::Finished, SaveAction::Finish)
            } else {
                (SaveStage::AwaitDirectWrite, SaveAction::WriteMain)
            },
            (SaveStage::AwaitDirectWrite, SaveEvent::DirectWritten(done)) => match done {
                Ok(_) => (SaveStage::AwaitTempRemoval, SaveAction::RemoveTemp),
                Err(e) => (SaveStage::Finished, SaveAction::Fail(e)),
            },
            (SaveStage::AwaitTempRemoval, SaveEvent::TempRemoved(_)) => (
                SaveStage::Finished,
                SaveAction::Finish,
            ),
            _ => (stage, SaveAction::Await),
        }
    }
}

/// The stage and the last action after these events.
pub open spec fn save_run(events: Seq<SaveEvent>) -> (SaveStage, SaveAction)
    decreases events.len(),
{
    if events.len() == 0 {
        (SaveStage::Start, SaveAction::Await)
    } else {
        save_step(save_run(events.drop_last()).0, events.last())
    }
}

/// The state file and its backup: what they hold, where they are there and whole.
/// And whether a file lies where the new state is written before it takes the place
/// of the old one.
pub struct Disk {
    pub main: Option<Seq<char>>,
    pub backup: Option<Seq<char>>,
    pub temp: bool,
}

/// The files after these events, where each event reports what became of the
/// action before it. A direct write that failed leaves a file that is not whole, and
/// a failed write beside it may leave a file there.
pub open spec fn disk_run(disk: Disk, text: Seq<char>, events: Seq<SaveEvent>) -> Disk
    decreases events.len(),
{
    if events.len() == 0 {
        disk
    } else {
        let before = disk_run(disk, text, events.drop_last());
        match (save_run(events.drop_last()).0, events.last()) {
            (SaveStage::AwaitBackupCopy, SaveEvent::BackupCopied(done)) => if done {
                Disk { backup: before.main, ..before }
            } else {
                Disk { backup: None, ..before }
            },
            (SaveStage::AwaitTempWrite, SaveEvent::TempWritten(_)) => Disk { temp: true, ..before },
            (SaveStage::AwaitTempRemoval, SaveEvent::TempRemoved(done)) => if done {
                Disk { temp: false, ..before }
            } else {
                before
            },
            (SaveStage::AwaitRename, SaveEvent::Renamed(done)) => if done {
                Disk { main: Some(text), temp: false, ..before }
            } else {
                before
            },
            (SaveStage::AwaitDirectWrite, SaveEvent::DirectWritten(done)) => match done {
                Ok(_) => Disk { main: Some(text), ..before },
                Err(_) => Disk { main: None, ..before },
            },
            _ => before,
        }
    }
}

/// Saving stands before the first write to the state file.
spec fn before_main_write(stage: SaveStage) -> bool {
    match stage {
        SaveStage::AwaitTempRemoval => false,
        SaveStage::Finished => false,
        _ => true,
    }
}

/// A direct write was tried and failed.
pub open spec fn direct_write_failed(events: Seq<SaveEvent>) -> bool {
    exists|i: int|
        0 <= i < events.len() && (#[trigger] events[i] matches SaveEvent::DirectWritten(done)
            && done is Err)
}

/// What has been seen stays seen when one more event comes in.
proof fn lemma_more_save_events(events: Seq<SaveEvent>)
    requires
        events.len() > 0,
    ensures
        events.contains(events.last()),
        events[events.len() - 1] == events.last(),
        forall|e: SaveEvent| events.drop_last().contains(e) ==> #[trigger] events.contains(e),
        direct_write_failed(events.drop_last()) ==> direct_write_failed(events),
{
    let before = events.drop_last();
    assert(events[events.len() - 1] == events.last());
    assert forall|e: SaveEvent| before.contains(e) implies #[trigger] events.contains(e) by {
        let i = choose|i: int| 0 <= i < before.len() && before[i] == e;
        assert(events[i] == e);
    }
    if direct_write_failed(before) {
        let i = choose|i: int|
            0 <= i < before.len() && (#[trigger] before[i] matches SaveEvent::DirectWritten(done)
                && done is Err);
        assert(events[i] == before[i]);
    }
}

proof fn lemma_save_disk(disk: Disk, text: Seq<char>, events: Seq<SaveEvent>)
    ensures
        ({
            let after = disk_run(disk, text, events);
            let (stage, action) = save_run(events);
            &&& before_main_write(stage) ==> after.main == disk.main
            &&& stage == SaveStage::AwaitTempRemoval ==> after.main == Some(text)
            &&& action is Finish ==> after.main == Some(text)
            &&& after.main == disk.main || after.main == Some(text) || direct_write_failed(events)
        }),
    decreases events.len(),
{
    if events.len() > 0 {
        lemma_save_disk(disk, text, events.drop_last());
        lemma_more_save_events(events);
    }
}

/// Once saving is past the copy, the backup holds the old file, unless there was
/// none or the copy failed.
spec fn past_backup(stage: SaveStage) -> bool {
    match stage {
        SaveStage::AwaitSerialized => true,
        SaveStage::AwaitTempWrite => true,
        SaveStage::AwaitRename => true,
        SaveStage::AwaitDirectWrite => true,
        SaveStage::AwaitTempRemoval => true,
        _ => false,
    }
}

proof fn lemma_backup_kept(disk: Disk, text: Seq<char>, events: Seq<SaveEvent>)
    ensures
        ({
            let after = disk_run(disk, text, events);
            let stage = save_run(events).0;
            &&& past_backup(stage) ==> (events.contains(SaveEvent::MainExists(false))
                || events.contains(SaveEvent::BackupCopied(false)) || after.backup == disk.main)
            &&& before_main_write(stage) ==> after.main == disk.main
        }),
    decreases events.len(),
{
    if events.len() > 0 {
        lemma_backup_kept(disk, text, events.drop_last());
        lemma_more_save_events(events);
    }
}

/// When saving reports success the state file holds the new text.
pub proof fn law_saved_file_holds_the_state(disk: Disk, text: Seq<char>, events: Seq<SaveEvent>)
    requires
        save_run(events).1 is Finish,
    ensures
        disk_run(disk, text, events).main == Some(text),
{
    lemma_save_disk(disk, text, events);
}

/// When saving reports success no file is left beside the state file but the backup,
/// unless the removal of one failed just before.
pub proof fn law_saving_leaves_no_temporary_file(disk: Disk, text: Seq<char>, events: Seq<SaveEvent>)
    requires
        save_run(events).1 is Finish,
        events.last() != SaveEvent::TempRemoved(false),
    ensures
        !disk_run(disk, text, events).temp,
{
}

/// At every moment the state file is the old one or the new one, whole, unless
/// a direct write has failed.
pub proof fn law_state_file_stays_whole(disk: Disk, text: Seq<char>, events: Seq<SaveEvent>)
    requires
        !direct_write_failed(events),
    ensures
        disk_run(disk, text, events).main == disk.main || disk_run(disk, text, events).main == Some(
            text,
        ),
{
    lemma_save_disk(disk, text, events);
}

/// Before the old file is written over, the backup holds it, unless there was no
/// old file or the copy failed.
pub proof fn law_backup_precedes_overwriting(disk: Disk, text: Seq<char>, events: Seq<SaveEvent>)
    requires
        save_run(events).1 is WriteMain,
        !events.contains(SaveEvent::MainExists(false)),
        !events.contains(SaveEvent::BackupCopied(false)),
    ensures
        disk_run(disk, text, events).backup == disk.main,
{
    lemma_backup_kept(disk, text, events);
}

/// The events of a load that finds the state file as it is: what is read of it is
/// what `parse` makes of its text.
pub open spec fn events_of_file(
    main: Option<Seq<char>>,
    parse: spec_fn(Seq<char>) -> FileContent,
) -> Seq<LoadEvent> {
    match main {
        Some(text) => seq![
            LoadEvent::Begin,
            LoadEvent::MainExists(true),
            LoadEvent::Main(parse(text)),
        ],
        None => seq![LoadEvent::Begin, LoadEvent::MainExists(false)],
    }
}

/// What was saved is what the next load gives back: after a save that reported
/// success, with a text that parses to the saved state, loading ends with that
/// state.
pub proof fn law_load_gives_back_what_was_saved(
    disk: Disk,
    text: Seq<char>,
    saving: Seq<SaveEvent>,
    parse: spec_fn(Seq<char>) -> FileContent,
    state: BotState,
)
    requires
        save_run(saving).1 is Finish,
        parse(text) == FileContent::State(state),
    ensures
        load_run(events_of_file(disk_run(disk, text, saving).main, parse)) == (
            LoadStage::Finished,
            LoadAction::Finish(state),
        ),
{
    law_saved_file_holds_the_state(disk, text, saving);
    let events = events_of_file(Some(text), parse);
    assert(events.drop_last() =~= seq![LoadEvent::Begin, LoadEvent::MainExists(true)]);
    assert(events.drop_last().drop_last() =~= seq![LoadEvent::Begin]);
    assert(events.drop_last().drop_last().drop_last() =~= Seq::<LoadEvent>::empty());
    reveal_with_fuel(load_run, 4);
}

/// Whether the rotation is due is told exactly where there is no position or the clock stands
/// at or after its opening; without a position it is not due, and with one it is due exactly
/// when it has been open for the seconds of the hours to hold it. Else the fault of the clock
/// is told.
pub proof fn law_when_a_rotation_is_due(state: BotState, hold_time_hours: u64, now: Option<u64>)
    ensures
        state.current_position is None ==> rotation_answer(state, hold_time_hours, now) == Ok::<
            bool,
            ClockFault,
        >(false),
        state.current_position matches Some(pos) ==> {
            &&& rotation_answer(state, hold_time_hours, now) == Err::<bool, ClockFault>(
                ClockFault::BeforeEpoch,
            ) <==> now is None
            &&& rotation_answer(state, hold_time_hours, now) == Err::<bool, ClockFault>(
                ClockFault::BeforeOpening,
            ) <==> (now matches Some(t) && t < pos.opened_at)
            &&& rotation_answer(state, hold_time_hours, now) == Ok::<bool, ClockFault>(true) <==> (
            now matches Some(t) && pos.opened_at <= t && t - pos.opened_at >= hold_time_hours * 3600)
            &&& rotation_answer(state, hold_time_hours, now) == Ok::<bool, ClockFault>(false) <==> (
            now matches Some(t) && pos.opened_at <= t && t - pos.opened_at < hold_time_hours * 3600)
        },
{
}

/// The age of a position and its opening add up to the time; it is told exactly where whether
/// the rotation is due is told, and with the same faults else. The hours left are told where
/// the age is.
pub proof fn law_the_age_of_a_position(state: BotState, hold_time_hours: u64, now: Option<u64>)
    ensures
        elapsed_answer(state, now) matches Ok(passed) ==> {
            &&& passed is Some <==> state.current_position is Some
            &&& passed matches Some(secs) ==> state.current_position->0.opened_at + secs == now->0
            &&& rotation_answer(state, hold_time_hours, now) is Ok
            &&& hours_answer(state, hold_time_hours, now) is Ok
        },
        elapsed_answer(state, now) matches Err(fault) ==> {
            &&& rotation_answer(state, hold_time_hours, now) == Err::<bool, ClockFault>(fault)
            &&& hours_answer(state, hold_time_hours, now) == Err::<Option<Amount>, ClockFault>(fault)
        },
{
}

/// Loading looks for the file first and reads it where it is there. The backup is looked for
/// exactly where the file is malformed, and read where it is there.
pub proof fn law_the_backup_is_read_only_for_a_malformed_file(stage: LoadStage, event: LoadEvent)
    ensures
        ({
            let (next, action) = load_step(stage, event);
            &&& action is ProbeMain <==> stage is Start && event is Begin
            &&& action is ProbeMain ==> next is AwaitMainProbe
            &&& action is ReadMain <==> stage is AwaitMainProbe && event == LoadEvent::MainExists(
                true,
            )
            &&& action is ReadMain ==> next is AwaitMain
            &&& action is ProbeBackup <==> stage is AwaitMain && (event matches LoadEvent::Main(
                content,
            ) && content is Malformed)
            &&& action is ProbeBackup ==> next is AwaitBackupProbe
            &&& action is ReadBackup <==> stage is AwaitBackupProbe && event
                == LoadEvent::BackupExists(true)
            &&& action is ReadBackup ==> next is AwaitBackup
        }),
{
}

/// A fresh state is saved exactly where there is no file, or a malformed one and no backup,
/// and it is what loading ends with then, whether it could be saved or not. A state that was
/// read is what loading ends with else.
pub proof fn law_how_loading_ends(stage: LoadStage, event: LoadEvent)
    ensures
        ({
            let (next, action) = load_step(stage, event);
            &&& action is SaveInitial <==> (stage is AwaitMainProbe && event
                == LoadEvent::MainExists(false)) || (stage is AwaitBackupProbe && event
                == LoadEvent::BackupExists(false))
            &&& action matches LoadAction::SaveInitial(s) ==> next is AwaitInitialSave
                && s.current_position is None && s.last_rotation_time is None && s.total_rotations == 0
            &&& action is Finish <==> {
                ||| stage is AwaitMain && (event matches LoadEvent::Main(content) && content is State)
                ||| stage is AwaitBackup && (event matches LoadEvent::Backup(content) && content
                    is State)
                ||| stage is AwaitInitialSave && event is Saved
            }
            &&& action matches LoadAction::Finish(s) ==> match event {
                LoadEvent::Main(content) => content == FileContent::State(s),
                LoadEvent::Backup(content) => content == FileContent::State(s),
                _ => s.current_position is None && s.last_rotation_time is None && s.total_rotations
                    == 0,
            }
            &&& action is Fail <==> {
                ||| stage is AwaitMain && (event matches LoadEvent::Main(content) && content
                    is Unreadable)
                ||| stage is AwaitBackup && (event matches LoadEvent::Backup(content) && !(content
                    is State))
            }
            &&& action matches LoadAction::Fail(e) ==> match event {
                LoadEvent::Main(content) => content == FileContent::Unreadable(e),
                LoadEvent::Backup(content) => content == FileContent::Unreadable(e) || content
                    == FileContent::Malformed(e),
                _ => false,
            }
            &&& action is Finish || action is Fail ==> next is Finished
            &&& action is Await ==> next == stage
        }),
{
}

/// The event is the one that the stage of loading waits for.
pub open spec fn is_load_awaited(stage: LoadStage, event: LoadEvent) -> bool {
    match event {
        LoadEvent::Begin => stage is Start,
        LoadEvent::MainExists(_) => stage is AwaitMainProbe,
        LoadEvent::Main(_) => stage is AwaitMain,
        LoadEvent::BackupExists(_) => stage is AwaitBackupProbe,
        LoadEvent::Backup(_) => stage is AwaitBackup,
        LoadEvent::Saved(_) => stage is AwaitInitialSave,
    }
}

/// The event is the one that the stage of saving waits for.
pub open spec fn is_save_awaited(stage: SaveStage, event: SaveEvent) -> bool {
    match event {
        SaveEvent::Begin { .. } => stage is Start,
        SaveEvent::ParentCreated(_) => stage is AwaitParent,
        SaveEvent::MainExists(_) => stage is AwaitMainProbe,
        SaveEvent::BackupCopied(_) => stage is AwaitBackupCopy,
        SaveEvent::Serialized(_) => stage is AwaitSerialized,
        SaveEvent::TempWritten(_) => stage is AwaitTempWrite,
        SaveEvent::Renamed(_) => stage is AwaitRename,
        SaveEvent::DirectWritten(_) => stage is AwaitDirectWrite,
        SaveEvent::TempRemoved(_) => stage is AwaitTempRemoval,
    }
}

/// An event that is waited for always brings loading or saving on, and one that is not changes
/// nothing.
pub proof fn law_only_awaited_events_move_loading_and_saving(
    load_stage: LoadStage,
    load_event: LoadEvent,
    save_stage: SaveStage,
    save_event: SaveEvent,
)
    ensures
        load_step(load_stage, load_event).1 is Await <==> !is_load_awaited(load_stage, load_event),
        save_step(save_stage, save_event).1 is Await <==> !is_save_awaited(save_stage, save_event),
        save_step(save_stage, save_event).1 is Await ==> save_step(save_stage, save_event).0
            == save_stage,
{
}

/// Saving makes the directory where the path names one, copies the old file to the backup
/// exactly where there is one, and goes on whether the copy went well or not.
pub proof fn law_the_old_file_is_copied_first(stage: SaveStage, event: SaveEvent)
    ensures
        ({
            let (next, action) = save_step(stage, event);
            &&& action is CreateParent <==> stage is Start && event == (SaveEvent::Begin {
                has_parent: true,
            })
            &&& action is CreateParent ==> next is AwaitParent
            &&& action is ProbeMain <==> (stage is Start && event == (SaveEvent::Begin {
                has_parent: false,
            })) || (stage is AwaitParent && (event matches SaveEvent::ParentCreated(answer) && answer
                is Ok))
            &&& action is ProbeMain ==> next is AwaitMainProbe
            &&& action is CopyToBackup <==> stage is AwaitMainProbe && event == SaveEvent::MainExists(
                true,
            )
            &&& action is CopyToBackup ==> next is AwaitBackupCopy
            &&& action is Serialize <==> (stage is AwaitMainProbe && event == SaveEvent::MainExists(
                false,
            )) || (stage is AwaitBackupCopy && event is BackupCopied)
            &&& action is Serialize ==> next is AwaitSerialized
        }),
{
}

/// The new file is written beside the old one and renamed over it; the old one is written over
/// exactly where the rename failed, and the file beside it is removed after that. Saving ends
/// well exactly with the rename or with that removal, and fails exactly where a step that it
/// needs failed, with the reason of it.
pub proof fn law_how_saving_writes_and_ends(stage: SaveStage, event: SaveEvent)
    ensures
        ({
            let (next, action) = save_step(stage, event);
            &&& action is WriteTemp <==> stage is AwaitSerialized && (event
                matches SaveEvent::Serialized(answer) && answer is Ok)
            &&& action is WriteTemp ==> next is AwaitTempWrite
            &&& action is RenameTemp <==> stage is AwaitTempWrite && (event
                matches SaveEvent::TempWritten(answer) && answer is Ok)
            &&& action is RenameTemp ==> next is AwaitRename
            &&& action is WriteMain <==> stage is AwaitRename && event == SaveEvent::Renamed(false)
            &&& action is WriteMain ==> next is AwaitDirectWrite
            &&& action is RemoveTemp <==> stage is AwaitDirectWrite && (event
                matches SaveEvent::DirectWritten(answer) && answer is Ok)
            &&& action is RemoveTemp ==> next is AwaitTempRemoval
            &&& action is Finish <==> (stage is AwaitRename && event == SaveEvent::Renamed(true)) || (
            stage is AwaitTempRemoval && event is TempRemoved)
            &&& action is Fail <==> {
                ||| stage is AwaitParent && (event matches SaveEvent::ParentCreated(answer) && answer
                    is Err)
                ||| stage is AwaitSerialized && (event matches SaveEvent::Serialized(answer) && answer
                    is Err)
                ||| stage is AwaitTempWrite && (event matches SaveEvent::TempWritten(answer) && answer
                    is Err)
                ||| stage is AwaitDirectWrite && (event matches SaveEvent::DirectWritten(answer)
                    && answer is Err)
            }
            &&& action matches SaveAction::Fail(e) ==> match event {
                SaveEvent::ParentCreated(answer) => answer == Err::<(), String>(e),
                SaveEvent::Serialized(answer) => answer == Err::<(), String>(e),
                SaveEvent::TempWritten(answer) => answer == Err::<(), String>(e),
                SaveEvent::DirectWritten(answer) => answer == Err::<(), String>(e),
                _ => false,
            }
            &&& action is Finish || action is Fail ==> next is Finished
        }),
{
}

/// The state of a bot that has done nothing holds no position and has counted no rotation, and
/// the state file has the name of the old one, in a directory of its own.
pub proof fn law_a_fresh_state_is_empty()
    ensures
        BotState::fresh().current_position is None,
        BotState::fresh().last_rotation_time is None,
        BotState::fresh().total_rotations == 0,
        default_state_file() == "state/"@ + legacy_state_file(),
{
    reveal_strlit("state/bot_state.json");
    reveal_strlit("bot_state.json");
    reveal_strlit("state/");
    assert(default_state_file() =~= "state/"@ + legacy_state_file());
}

} // verus!

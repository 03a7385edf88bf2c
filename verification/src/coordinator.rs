//! The save-request coordinator: from a client's label to the moment at
//! which the snapshot is archived.
//!
//! A request runs through these steps. The label is sanitized; an empty one
//! ends the request at once. The caller records the snapshot's modification
//! time, wakes the capture loop and then polls the modification time. Each
//! reading goes to [`observe`], which says whether to sleep and read again
//! or to archive. The snapshot counts as settled once a change has been
//! seen and the reading after it is equal; when the readings run out it is
//! archived as it is.
//!
//! [`Stage`] holds where a request stands. The caller asks [`next_action`]
//! what to do, does it, and reports it with [`advance`], until the action
//! is to archive, or to give up because the snapshot cannot be read.

use vstd::prelude::*;
use crate::sanitize::{sanitize_label, sanitized_label};

verus! {

/// A modification time: seconds and nanoseconds since the Unix epoch.
#[derive(Debug, Clone, Copy, PartialEq, Eq, Structural)]
pub struct ModTime {
    pub secs: u64,
    pub nanos: u32,
}

/// One look at the snapshot's modification time.
#[derive(Debug, Clone, Copy, PartialEq, Eq, Structural)]
pub enum Reading {
    /// The modification time that was read.
    At(ModTime),
    /// The snapshot's metadata could not be read: it counts as the time
    /// recorded at the start of the request.
    Missing,
    /// The metadata holds no modification time: it counts as the last
    /// time that was read.
    Unknown,
}

/// Where a request stands while it waits for the snapshot to settle.
#[derive(Debug, Clone, Copy, PartialEq, Eq, Structural)]
pub struct PollState {
    /// The modification time recorded before the capture loop was woken.
    pub first: ModTime,
    /// The modification time of the last reading.
    pub last: ModTime,
    /// Whether a reading has differed from the one before it.
    pub changed: bool,
    /// How many readings may still be taken.
    pub readings_left: u32,
}

/// What the caller does after a reading.
#[derive(Debug, Clone, Copy, PartialEq, Eq, Structural)]
pub enum PollStep {
    /// Sleep for one interval, then read again.
    SleepThenRead,
    /// Sleep for one interval, then archive: the readings have run out.
    SleepThenArchive,
    /// Archive now: the snapshot has settled, or no reading was left.
    Archive,
}

/// Where an accepted request stands.
#[derive(Debug, Clone, Copy, PartialEq, Eq, Structural)]
pub enum Stage {
    /// The label was accepted.
    Submitted,
    /// The snapshot's modification time was recorded.
    Recorded(ModTime),
    /// The capture loop was woken, or a sleep is over: a reading is due.
    Watching(PollState),
    /// A reading was taken and more are left.
    Resting(PollState),
    /// The last reading was taken without the snapshot having settled.
    LastRest,
    /// The waiting is over.
    Settled,
    /// The snapshot could not be read when the time was to be recorded:
    /// the request ends without waking the capture loop.
    Abandoned,
}

/// What the caller reports.
#[derive(Debug, Clone, Copy, PartialEq, Eq, Structural)]
pub enum SaveEvent {
    /// The snapshot's modification time was recorded.
    TimeRecorded(ModTime),
    /// The snapshot's metadata could not be read for recording.
    TimeUnavailable,
    /// The wake signal was sent to the capture loop.
    Woken,
    /// The snapshot's modification time was read.
    TimeRead(Reading),
    /// One interval has passed.
    Slept,
}

/// What the caller does next.
#[derive(Debug, Clone, Copy, PartialEq, Eq, Structural)]
pub enum SaveAction {
    /// Record the snapshot's modification time.
    RecordTime,
    /// Send one wake signal to the capture loop.
    Wake,
    /// Read the snapshot's modification time.
    ReadTime,
    /// Sleep for one interval.
    Sleep,
    /// Copy the snapshot into the archive.
    Archive,
    /// Report that the snapshot cannot be read, and do nothing more.
    GiveUp,
}

/// The number of readings after which a request stops waiting.
pub const POLL_ATTEMPTS: u32 = 40;

/// The time between two readings, in milliseconds.
pub const POLL_INTERVAL_MS: u64 = 25;

/// The label of a request, or `None` where the request ends at once.
pub open spec fn accepted_label(raw: Seq<char>) -> Option<Seq<char>> {
    if raw.len() == 0 {
        None
    } else {
        Some(sanitized_label(raw))
    }
}

/// The state in which polling starts.
pub open spec fn poll_start(first: ModTime) -> PollState {
    PollState { first, last: first, changed: false, readings_left: POLL_ATTEMPTS }
}

/// The modification time that a reading stands for.
pub open spec fn time_read(state: PollState, reading: Reading) -> ModTime {
    match reading {
        Reading::At(time) => time,
        Reading::Missing => state.first,
        Reading::Unknown => state.last,
    }
}

/// Whether a reading shows the snapshot as settled: a change was seen
/// before, and this reading equals the last.
pub open spec fn settles(state: PollState, reading: Reading) -> bool {
    state.changed && time_read(state, reading) == state.last
}

/// The state after a reading and what the caller does next.
pub open spec fn poll_step(state: PollState, reading: Reading) -> (PollState, PollStep) {
    if state.readings_left == 0 || settles(state, reading) {
        (state, PollStep::Archive)
    } else {
        let time = time_read(state, reading);
        let next = PollState {
            first: state.first,
            last: time,
            changed: state.changed || time != state.last,
            readings_left: (state.readings_left - 1) as u32,
        };
        (
            next,
            if next.readings_left == 0 {
                PollStep::SleepThenArchive
            } else {
                PollStep::SleepThenRead
            },
        )
    }
}

/// Whether the request that is in `state` archives within the given
/// readings, taken in order.
pub open spec fn archives_within(state: PollState, readings: Seq<Reading>) -> bool
    decreases readings.len(),
{
    if readings.len() == 0 {
        false
    } else {
        let (next, step) = poll_step(state, readings[0]);
        step != PollStep::SleepThenRead || archives_within(next, readings.skip(1))
    }
}

/// What is due at a stage.
pub open spec fn action_at(stage: Stage) -> SaveAction {
    match stage {
        Stage::Submitted => SaveAction::RecordTime,
        Stage::Recorded(_) => SaveAction::Wake,
        Stage::Watching(_) => SaveAction::ReadTime,
        Stage::Resting(_) => SaveAction::Sleep,
        Stage::LastRest => SaveAction::Sleep,
        Stage::Settled => SaveAction::Archive,
        Stage::Abandoned => SaveAction::GiveUp,
    }
}

/// The stage after an event. An event that does not report what was due
/// changes nothing.
pub open spec fn advanced(stage: Stage, event: SaveEvent) -> Stage {
    match (stage, event) {
        (Stage::Submitted, SaveEvent::TimeRecorded(first)) => Stage::Recorded(first),
        (Stage::Submitted, SaveEvent::TimeUnavailable) => Stage::Abandoned,
        (Stage::Recorded(first), SaveEvent::Woken) => Stage::Watching(poll_start(first)),
        (Stage::Watching(state), SaveEvent::TimeRead(reading)) => {
            let (next, step) = poll_step(state, reading);
            match step {
                PollStep::Archive => Stage::Settled,
                PollStep::SleepThenRead => Stage::Resting(next),
                PollStep::SleepThenArchive => Stage::LastRest,
            }
        },
        (Stage::Resting(state), SaveEvent::Slept) => Stage::Watching(state),
        (Stage::LastRest, SaveEvent::Slept) => Stage::Settled,
        _ => stage,
    }
}

/// Whether `event` reports that what was due at `stage` has been done.
pub open spec fn reports(stage: Stage, event: SaveEvent) -> bool {
    match action_at(stage) {
        SaveAction::RecordTime => event is TimeRecorded || event is TimeUnavailable,
        SaveAction::Wake => event is Woken,
        SaveAction::ReadTime => event is TimeRead,
        SaveAction::Sleep => event is Slept,
        SaveAction::Archive => false,
        SaveAction::GiveUp => false,
    }
}

/// An upper bound on the actions that are still due before a request
/// archives.
pub open spec fn actions_left(stage: Stage) -> nat {
    match stage {
        Stage::Submitted => (2 * POLL_ATTEMPTS + 3) as nat,
        Stage::Recorded(_) => (2 * POLL_ATTEMPTS + 2) as nat,
        Stage::Watching(state) => (2 * state.readings_left + 1) as nat,
        Stage::Resting(state) => (2 * state.readings_left + 2) as nat,
        Stage::LastRest => 1,
        Stage::Settled => 0,
        Stage::Abandoned => 0,
    }
}

/// Takes up a request: sanitizes the label that the client sent. `None`
/// means that the request ends here, with nothing done; that happens for
/// the empty label and for no other.
pub fn submit(raw_label: &str) -> (label: Option<String>)
    ensures
        match label {
            Some(l) => accepted_label(raw_label@) == Some(l@),
            None => accepted_label(raw_label@) is None,
        },
        label is None <==> sanitized_label(raw_label@).len() == 0,
{
    let label = sanitize_label(raw_label);
    if label.as_str().unicode_len() < 1 {
        None
    } else {
        Some(label)
    }
}

/// Starts polling from the modification time recorded before the capture
/// loop was woken.
pub fn start_polling(first: ModTime) -> (state: PollState)
    ensures
        state == poll_start(first),
{
    PollState { first, last: first, changed: false, readings_left: POLL_ATTEMPTS }
}

/// Takes one reading into account and says what to do next.
pub fn observe(state: PollState, reading: Reading) -> (next: (PollState, PollStep))
    ensures
        next == poll_step(state, reading),
{
    let time = match reading {
        Reading::At(time) => time,
        Reading::Missing => state.first,
        Reading::Unknown => state.last,
    };
    let same = time == state.last;
    if state.readings_left == 0 || (state.changed && same) {
        return (state, PollStep::Archive);
    }
    let next = PollState {
        first: state.first,
        last: time,
        changed: state.changed || !same,
        readings_left: state.readings_left - 1,
    };
    let step = if next.readings_left == 0 {
        PollStep::SleepThenArchive
    } else {
        PollStep::SleepThenRead
    };
    (next, step)
}

/// The stage of a request whose label has just been accepted.
pub fn begin() -> (stage: Stage)
    ensures
        stage == Stage::Submitted,
{
    Stage::Submitted
}

/// Says what the caller does next.
pub fn next_action(stage: Stage) -> (action: SaveAction)
    ensures
        action == action_at(stage),
{
    match stage {
        Stage::Submitted => SaveAction::RecordTime,
        Stage::Recorded(_) => SaveAction::Wake,
        Stage::Watching(_) => SaveAction::ReadTime,
        Stage::Resting(_) => SaveAction::Sleep,
        Stage::LastRest => SaveAction::Sleep,
        Stage::Settled => SaveAction::Archive,
        Stage::Abandoned => SaveAction::GiveUp,
    }
}

/// Takes an event into account.
pub fn advance(stage: Stage, event: SaveEvent) -> (next: Stage)
    ensures
        next == advanced(stage, event),
{
    match (stage, event) {
        (Stage::Submitted, SaveEvent::TimeRecorded(first)) => Stage::Recorded(first),
        (Stage::Submitted, SaveEvent::TimeUnavailable) => Stage::Abandoned,
        (Stage::Recorded(first), SaveEvent::Woken) => Stage::Watching(start_polling(first)),
        (Stage::Watching(state), SaveEvent::TimeRead(reading)) => {
            let (next, step) = observe(state, reading);
            match step {
                PollStep::Archive => Stage::Settled,
                PollStep::SleepThenRead => Stage::Resting(next),
                PollStep::SleepThenArchive => Stage::LastRest,
            }
        },
        (Stage::Resting(state), SaveEvent::Slept) => Stage::Watching(state),
        (Stage::LastRest, SaveEvent::Slept) => Stage::Settled,
        _ => stage,
    }
}

/// Every action that is carried out and reported brings a request closer
/// to archiving: whatever the readings show, it archives after at most
/// `actions_left(Stage::Submitted)` actions.
pub proof fn lemma_request_makes_progress(stage: Stage, event: SaveEvent)
    requires
        reports(stage, event),
    ensures
        actions_left(advanced(stage, event)) < actions_left(stage),
        actions_left(stage) <= actions_left(Stage::Submitted) ==> actions_left(
            advanced(stage, event),
        ) <= actions_left(Stage::Submitted),
{
}

/// Whether a request has woken the capture loop.
pub open spec fn has_woken(stage: Stage) -> bool {
    !(stage is Submitted) && !(stage is Recorded) && !(stage is Abandoned)
}

/// A request wakes the capture loop once: only after the modification
/// time has been recorded, and never again once it has done so. Only a
/// request that is to archive, or that was given up before it woke the
/// capture loop, has no action left, and it stays that way.
pub proof fn lemma_request_wakes_once(stage: Stage, event: SaveEvent)
    ensures
        action_at(advanced(stage, event)) == SaveAction::Wake ==> stage is Recorded || (stage
            is Submitted && event is TimeRecorded),
        has_woken(stage) ==> has_woken(advanced(stage, event)),
        !has_woken(stage) && has_woken(advanced(stage, event)) ==> stage is Recorded && event
            is Woken,
        stage is Abandoned ==> advanced(stage, event) is Abandoned,
        actions_left(stage) == 0 <==> action_at(stage) == SaveAction::Archive || action_at(stage)
            == SaveAction::GiveUp,
        action_at(advanced(stage, event)) == SaveAction::GiveUp ==> stage is Abandoned || (stage
            is Submitted && event is TimeUnavailable),
        stage is Settled ==> advanced(stage, event) is Settled,
{
}

/// A request never waits for more readings than its state allows:
/// whatever is read, it archives within `readings_left` readings, or
/// within one where none is left.
pub proof fn lemma_polling_ends(state: PollState, readings: Seq<Reading>)
    requires
        readings.len() >= state.readings_left,
        readings.len() >= 1,
    ensures
        archives_within(state, readings),
    decreases readings.len(),
{
    let (next, step) = poll_step(state, readings[0]);
    if step == PollStep::SleepThenRead {
        lemma_polling_ends(next, readings.skip(1));
    }
}

/// Every request archives within `POLL_ATTEMPTS` readings, whatever they
/// show.
pub proof fn lemma_request_archives(first: ModTime, readings: Seq<Reading>)
    requires
        readings.len() >= POLL_ATTEMPTS,
    ensures
        archives_within(poll_start(first), readings),
{
    lemma_polling_ends(poll_start(first), readings);
}

/// While the snapshot does not change, a request takes every reading it
/// is allowed: it does not mistake a snapshot that was never rewritten for
/// a settled one.
pub proof fn lemma_unchanged_snapshot_waits(state: PollState, reading: Reading)
    requires
        !state.changed,
        state.readings_left > 1,
        time_read(state, reading) == state.last,
    ensures
        poll_step(state, reading).1 == PollStep::SleepThenRead,
        !poll_step(state, reading).0.changed,
{
}

/// A change followed by an equal reading settles the snapshot.
pub proof fn lemma_change_then_equal_settles(state: PollState, changed: ModTime)
    requires
        state.readings_left > 1,
        changed != state.last,
    ensures
        ({
            let (next, step) = poll_step(state, Reading::At(changed));
            poll_step(next, Reading::At(changed)).1 == PollStep::Archive
        }),
{
}

} // verus!

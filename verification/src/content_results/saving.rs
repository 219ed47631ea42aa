//! Putting a result in the place of the stored one, step by step. The old result stays readable
//! until the new one was written, read back and found sound.

use vstd::prelude::*;
use super::current::{ContentCurrentV1, StoredCurrent, loads_as};
use super::error::{ContentError, ContentProblem, ContentSchemaError, SchemaProblem};

verus! {

/// What is to be done next.
#[derive(Debug)]
pub enum SaveStep {
    /// Make the temporary file beside the stored one; it must not exist yet.
    Create,
    /// Write the result into it.
    Write,
    /// Bring it to the disk.
    Sync,
    /// Read it back.
    Reread,
    /// Put it in the place of the stored one.
    Commit,
    /// Bring the change of the directory to the disk.
    SyncDirectory,
    /// Remove the temporary file; the stored result is as it was.
    Discard(ContentError),
    /// The new result is stored.
    Finished,
}

/// How a step went.
#[derive(Debug)]
pub enum SaveEvent {
    /// It was done.
    Done,
    /// The file system refused, with this message.
    Failed(String),
    /// The bytes that were read back are no JSON of the schema.
    NotJson(String),
    /// The bytes that were read back hold this result.
    Decoded(ContentCurrentV1),
}

/// Begins to save a result, where it is sound in itself.
pub fn begin_save(current: &ContentCurrentV1) -> (r: Result<SaveStep, ContentError>)
    ensures
        match current.problem() {
            None => r == Ok::<SaveStep, ContentError>(SaveStep::Create),
            Some(p) => r matches Err(e) && e@ == ContentProblem::Schema(p),
        },
{
    match current.validate() {
        Ok(()) => Ok(SaveStep::Create),
        Err(e) => Err(ContentError::Schema(e)),
    }
}

/// The step after one that was done.
pub open spec fn save_goes_on(step: SaveStep) -> SaveStep {
    match step {
        SaveStep::Create => SaveStep::Write,
        SaveStep::Write => SaveStep::Sync,
        SaveStep::Sync => SaveStep::Reread,
        SaveStep::Commit => SaveStep::SyncDirectory,
        SaveStep::SyncDirectory => SaveStep::Finished,
        other => other,
    }
}

/// A step throws the temporary file away for a reason.
pub open spec fn discards(next: SaveStep, reason: ContentProblem) -> bool {
    next matches SaveStep::Discard(e) && e@ == reason
}

/// What an event makes of a step. Reading back waits for what was read; a directory that could
/// not be brought to the disk does not take the new result back.
pub open spec fn save_after(step: SaveStep, event: SaveEvent, next: SaveStep) -> bool {
    match (step, event) {
        (SaveStep::Discard(_), _) => next == step,
        (SaveStep::Finished, _) => next == step,
        (SaveStep::SyncDirectory, _) => next is Finished,
        (_, SaveEvent::Failed(m)) => discards(next, ContentProblem::Io(m@)),
        (SaveStep::Reread, SaveEvent::NotJson(m)) => discards(
            next,
            ContentProblem::Schema(SchemaProblem::Json(m@)),
        ),
        (SaveStep::Reread, SaveEvent::Decoded(c)) => match c.problem() {
            None => next is Commit,
            Some(p) => discards(next, ContentProblem::Schema(p)),
        },
        (SaveStep::Reread, SaveEvent::Done) => next == step,
        (_, SaveEvent::Done) => next == save_goes_on(step),
        (_, _) => next == step,
    }
}

/// Goes on after a step.
pub fn save_step(step: SaveStep, event: SaveEvent) -> (next: SaveStep)
    ensures
        save_after(step, event, next),
{
    match step {
        SaveStep::Discard(e) => SaveStep::Discard(e),
        SaveStep::Finished | SaveStep::SyncDirectory => SaveStep::Finished,
        SaveStep::Reread => match event {
            SaveEvent::Failed(m) => SaveStep::Discard(ContentError::Io(m)),
            SaveEvent::NotJson(m) => SaveStep::Discard(ContentError::Schema(ContentSchemaError::Json(m))),
            SaveEvent::Decoded(c) => match c.validate() {
                Ok(()) => SaveStep::Commit,
                Err(e) => SaveStep::Discard(ContentError::Schema(e)),
            },
            SaveEvent::Done => SaveStep::Reread,
        },
        other => match event {
            SaveEvent::Failed(m) => SaveStep::Discard(ContentError::Io(m)),
            SaveEvent::Done => match other {
                SaveStep::Create => SaveStep::Write,
                SaveStep::Write => SaveStep::Sync,
                SaveStep::Sync => SaveStep::Reread,
                _ => SaveStep::SyncDirectory,
            },
            _ => other,
        },
    }
}

// ---- Laws ----

/// A result is put in the place of the stored one only after it was read back and found sound.
pub proof fn only_a_sound_result_is_committed(step: SaveStep, event: SaveEvent, next: SaveStep)
    requires
        save_after(step, event, next),
        next is Commit,
        !(step is Commit),
    ensures
        step is Reread && (event matches SaveEvent::Decoded(c) && c.problem() is None),
{
}

/// Whatever goes wrong until the result is in its place throws it away; from then on nothing
/// does.
pub proof fn a_failed_save_leaves_the_old_result(step: SaveStep, message: String, next: SaveStep)
    requires
        save_after(step, SaveEvent::Failed(message), next),
    ensures
        match step {
            SaveStep::SyncDirectory | SaveStep::Finished => next is Finished,
            _ => next is Discard,
        },
{
}

// ---- The two files ----

/// What can be read from the place of the stored result, and from the temporary file beside it.
pub struct ResultFiles {
    pub stored: StoredCurrent,
    pub temporary: StoredCurrent,
}

/// What a step that went in some way does to the files, while `saved` is being saved. A write
/// that was done can be read back, and one that failed may leave anything in the temporary file;
/// the stored file changes only by having the temporary one put in its place. A file that is
/// thrown away is removed, or stays where that fails.
pub open spec fn files_after(
    saved: ContentCurrentV1,
    step: SaveStep,
    event: SaveEvent,
    before: ResultFiles,
    after: ResultFiles,
) -> bool {
    match (step, event) {
        (SaveStep::Create, SaveEvent::Done) => after.stored == before.stored,
        (SaveStep::Write, SaveEvent::Done) => after.stored == before.stored && after.temporary
            == StoredCurrent::Parsed(saved),
        (SaveStep::Write, SaveEvent::Failed(_)) => after.stored == before.stored,
        (SaveStep::Reread, SaveEvent::Decoded(c)) => after == before && before.temporary
            == StoredCurrent::Parsed(c),
        (SaveStep::Commit, SaveEvent::Done) => after.stored == before.temporary && after.temporary is Missing,
        (SaveStep::Discard(_), SaveEvent::Done) => after.stored == before.stored && after.temporary is Missing,
        _ => after == before,
    }
}

/// A save under way: what is to be done next, and the files.
pub struct SaveState {
    pub step: SaveStep,
    pub files: ResultFiles,
}

/// The states that a save of `saved` goes through, from its beginning, with the event between
/// each and the next.
pub open spec fn save_run(saved: ContentCurrentV1, states: Seq<SaveState>, events: Seq<SaveEvent>) -> bool {
    &&& states.len() == events.len() + 1
    &&& states[0].step is Create
    &&& forall|i: int|
        #![trigger events[i]]
        0 <= i < events.len() ==> save_after(states[i].step, events[i], states[i + 1].step) && files_after(
            saved,
            states[i].step,
            events[i],
            states[i].files,
            states[i + 1].files,
        )
}

/// Where the old and the new result are at each step.
spec fn in_place(old_file: StoredCurrent, saved: ContentCurrentV1, s: SaveState) -> bool {
    match s.step {
        SaveStep::Create | SaveStep::Write | SaveStep::Discard(_) => s.files.stored == old_file,
        SaveStep::Sync | SaveStep::Reread | SaveStep::Commit => s.files.stored == old_file && s.files.temporary
            == StoredCurrent::Parsed(saved),
        SaveStep::SyncDirectory | SaveStep::Finished => s.files.stored == StoredCurrent::Parsed(saved)
            && s.files.temporary is Missing,
    }
}

proof fn every_state_is_in_place(saved: ContentCurrentV1, states: Seq<SaveState>, events: Seq<SaveEvent>, i: int)
    requires
        save_run(saved, states, events),
        0 <= i < states.len(),
    ensures
        in_place(states[0].files.stored, saved, states[i]),
    decreases i,
{
    if i > 0 {
        every_state_is_in_place(saved, states, events, i - 1);
        let event = events[i - 1];
    }
}

/// A save that ends well has put the new result in the place of the old one and left no temporary
/// file: loading gives back what was saved. One that is given up has left the old file as it was,
/// so that loading gives what it gave before. Nothing in between shows anything else.
pub proof fn a_load_gives_back_what_was_saved(
    saved: ContentCurrentV1,
    states: Seq<SaveState>,
    events: Seq<SaveEvent>,
    loaded: Result<Option<ContentCurrentV1>, ContentError>,
)
    requires
        saved.problem() is None,
        save_run(saved, states, events),
        loads_as(states.last().files.stored, loaded),
    ensures
        states.last().step is Finished ==> loaded == Ok::<Option<ContentCurrentV1>, ContentError>(Some(saved))
            && states.last().files.temporary is Missing,
        states.last().step is Discard ==> states.last().files.stored == states[0].files.stored && loads_as(
            states[0].files.stored,
            loaded,
        ),
        states.last().files.stored == states[0].files.stored || loaded == Ok::<
            Option<ContentCurrentV1>,
            ContentError,
        >(Some(saved)),
{
    every_state_is_in_place(saved, states, events, states.len() - 1);
}

} // verus!

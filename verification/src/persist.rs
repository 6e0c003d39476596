//! Storing a freshly made variant after its first response has gone out.
//!
//! The work is best effort. It uploads the variant, reads the image's record
//! again, notes the new width and writes the record back. Nothing that goes
//! wrong here reaches the client: the work ends and the variant is made
//! again when it is next asked for.

use vstd::prelude::*;
use vstd::string::*;

use crate::error::Error;
use crate::host::{Action, Event, Namespace, Progress, Stored};
use crate::inflight::{InFlight, Task};
use crate::origin::UploadFileResponse;
use crate::transfer::{upload_file, upload_file_yields, UploadJob, UploadState};

verus! {

/// How far the storing of a variant has come.
#[derive(Clone, Debug, PartialEq, Eq)]
pub enum PersistState {
    /// The variant is being uploaded.
    Uploading { key: String, width: u32, upload: UploadState },
    /// The variant is stored; the record is being read again.
    Reloading { key: String, width: u32 },
    /// The record is being written back.
    Saving,
}

impl PersistState {
    /// The state in which the storing of a variant begins: the image's key,
    /// the width of the variant, and the upload of its file.
    pub fn new(key: String, width: u32, job: UploadJob) -> (state: PersistState)
        ensures
            state == (PersistState::Uploading { key, width, upload: UploadState::Start(job) }),
    {
        PersistState::Uploading { key, width, upload: UploadState::Start(job) }
    }
}

impl PersistState {
    /// The variant that the work is about, by the key of its image and its
    /// width; `None` once the work has come to writing the record.
    pub open spec fn variant(self) -> Option<(Seq<char>, u32)> {
        match self {
            PersistState::Uploading { key, width, upload } => Some((key@, width)),
            PersistState::Reloading { key, width } => Some((key@, width)),
            PersistState::Saving => None,
        }
    }
}

/// What becomes of work that a response scheduled: it is to run where its
/// variant is not being stored already, and is dropped where it is. Work
/// that is to run claims its variant until it has ended. Work that names no
/// variant claims nothing and is dropped.
pub open spec fn taken_on(
    before: Set<(Seq<char>, u32)>,
    work: PersistState,
    after: Set<(Seq<char>, u32)>,
    taken: Option<(Task, PersistState)>,
) -> bool {
    match work.variant() {
        Some(pair) => {
            &&& after == before.insert(pair)
            &&& if before.contains(pair) {
                taken is None
            } else {
                taken matches Some((task, same)) && same == work && (task.key@, task.width) == pair
            }
        },
        None => after == before && taken is None,
    }
}

/// Decides whether scheduled work is to run, and claims its variant if so.
/// The task that comes back with the work is to be released when the work
/// has ended.
pub fn take_on(in_flight: &mut InFlight, work: PersistState) -> (taken: Option<
    (Task, PersistState),
>)
    ensures
        taken_on(old(in_flight)@, work, final(in_flight)@, taken),
{
    let task = match &work {
        PersistState::Uploading { key, width, upload } => Task { key: key.clone(), width: *width },
        PersistState::Reloading { key, width } => Task { key: key.clone(), width: *width },
        PersistState::Saving => {
            return None;
        },
    };
    if in_flight.claim(task.key.as_str(), task.width) {
        Some((task, work))
    } else {
        None
    }
}

/// How the storing of a variant ended.
#[derive(Clone, Copy, Debug, PartialEq, Eq, Structural)]
pub enum PersistOutcome {
    /// The variant is stored and the record lists it.
    Persisted,
    /// The variant is stored; the record was left as it is, because it
    /// lists the width already or no longer admits it.
    Unchanged,
    /// Something failed. The record was not written.
    Abandoned,
}

/// One step of storing a variant.
///
/// While the upload runs, its steps are passed on. A failed upload ends the
/// work. After the upload the record is read again. Where it does not list
/// the width yet, and the width is below the original's, the record is
/// written back with the width added at the end, and everything else as it
/// was read. Where the record is missing, or cannot be read or written, the
/// work ends without a write.
pub open spec fn persist_yields(
    state: PersistState,
    event: Event,
    out: Progress<PersistState, PersistOutcome>,
) -> bool {
    match state {
        PersistState::Uploading { key, width, upload } => match out {
            Progress::Continue(PersistState::Uploading { key: k, width: w, upload: next }, action) =>
                k == key && w == width && upload_file_yields(
                upload,
                event,
                Progress::Continue(next, action),
            ),
            Progress::Continue(PersistState::Reloading { key: k, width: w }, action) => k == key && w
                == width && action.loads(Namespace::Images, key@) && exists|
                receipt: UploadFileResponse,
            |
                upload_file_yields(upload, event, Progress::Finished(Ok(receipt))),
            Progress::Finished(PersistOutcome::Abandoned) => exists|e: Error|
                upload_file_yields(upload, event, Progress::Finished(Err(e))),
            _ => false,
        },
        PersistState::Reloading { key, width } => match event {
            Event::Loaded(Some(Stored::Record(record))) => if width < record.width
                && !record@.variants.contains(width) {
                out matches Progress::Continue(next, action) && next == PersistState::Saving
                    && action.saves_record(key@, record@.with_variant(width))
            } else {
                out == Progress::<PersistState, PersistOutcome>::Finished(PersistOutcome::Unchanged)
            },
            _ => out == Progress::<PersistState, PersistOutcome>::Finished(
                PersistOutcome::Abandoned,
            ),
        },
        PersistState::Saving => match event {
            Event::Saved => out == Progress::<PersistState, PersistOutcome>::Finished(
                PersistOutcome::Persisted,
            ),
            _ => out == Progress::<PersistState, PersistOutcome>::Finished(
                PersistOutcome::Abandoned,
            ),
        },
    }
}

/// Takes the storing of a variant one step further.
pub fn upload_on_background(state: PersistState, event: Event) -> (out: Progress<
    PersistState,
    PersistOutcome,
>)
    ensures
        persist_yields(state, event, out),
{
    match state {
        PersistState::Uploading { key, width, upload } => match upload_file(upload, event) {
            Progress::Continue(next, action) => Progress::Continue(
                PersistState::Uploading { key, width, upload: next },
                action,
            ),
            Progress::Finished(Ok(_)) => {
                let target = key.clone();
                Progress::Continue(
                    PersistState::Reloading { key, width },
                    Action::Load { namespace: Namespace::Images, key: target },
                )
            },
            Progress::Finished(Err(_)) => Progress::Finished(PersistOutcome::Abandoned),
        },
        PersistState::Reloading { key, width } => match event {
            Event::Loaded(Some(Stored::Record(record))) => {
                let mut record = record;
                if record.add_variant(width) {
                    Progress::Continue(
                        PersistState::Saving,
                        Action::Save {
                            namespace: Namespace::Images,
                            key,
                            value: Stored::Record(record),
                            ttl: None,
                        },
                    )
                } else {
                    Progress::Finished(PersistOutcome::Unchanged)
                }
            },
            _ => Progress::Finished(PersistOutcome::Abandoned),
        },
        PersistState::Saving => match event {
            Event::Saved => Progress::Finished(PersistOutcome::Persisted),
            _ => Progress::Finished(PersistOutcome::Abandoned),
        },
    }
}

} // verus!

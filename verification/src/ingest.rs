//! Ingestion of uploaded images into an album.
//!
//! Each image of a batch is a task of its own. A task names the file, reads
//! its metadata, and then has four things done in order: the upload is
//! written as the full-resolution file, it is transcoded, both derived files
//! are written, and the image is recorded. A step that fails ends its task
//! and no other. When every task of the batch has ended the modes of the
//! album are brought up to date, once, whatever became of the tasks; the
//! batch then reports how many tasks went through all their steps.
//!
//! Writing, transcoding and recording are done by the caller. This module
//! decides what is to be done next and keeps the count.

use vstd::prelude::*;
use crate::exif::{all_unknown, extract_exif_metadata, metadata_or_unknown, parsed_tags, summary, ExifFields};
use crate::layout::{album_directories, image_file, image_path, quality_dir};
use crate::naming::{generate_unique_filename, is_token, stored_name};
use crate::quality::ImageQuality;
use crate::text::free_of;

verus! {

/// The steps that a caller carries out for a task.
#[derive(Clone, Copy, Debug, PartialEq, Eq, Structural)]
pub enum Step {
    /// Writing the upload as the full-resolution file.
    SaveFull,
    /// Transcoding the upload to the two derived variants.
    Transcode,
    /// Writing the two derived files.
    SaveVariants,
    /// Recording the image in the catalog.
    Record,
}

/// How far a task has come.
#[derive(Clone, Copy, Debug, PartialEq, Eq, Structural)]
pub enum Stage {
    /// The given step is to be carried out next.
    Pending(Step),
    /// Every step was carried out.
    Completed,
    /// The given step failed; the task has ended.
    Failed(Step),
}

/// What a caller reports back to a task.
#[derive(Clone, Copy, Debug, PartialEq, Eq, Structural)]
pub enum Event {
    /// The full-resolution file was written, or could not be.
    FullSaved { ok: bool },
    /// The upload was transcoded, or could not be. On success the length in
    /// bytes of the upload is reported.
    Transcoded { original_size: Option<usize> },
    /// The derived files were written, or could not be, each for itself.
    VariantsSaved { optimized: bool, thumbnail: bool },
    /// The image was recorded, or could not be.
    Recorded { ok: bool },
}

/// What a caller is to do for a task.
pub enum Action {
    /// Write the upload to `path`.
    SaveFull { path: String },
    /// Transcode the upload.
    Transcode,
    /// Write the display variant and the thumbnail to these paths. Both must
    /// be written.
    SaveVariants { optimized_path: String, thumbnail_path: String },
    /// Record the image.
    Record { album_id: i64, filename: String, file_size: i64, fields: ExifFields },
    /// Nothing is left to do; `completed` says whether the image counts.
    Finish { completed: bool },
}

/// The stage that follows `stage` when `event` is reported. A report that
/// does not answer the pending step changes nothing, and neither does any
/// report to a task that has ended.
pub open spec fn next_stage(stage: Stage, event: Event) -> Stage {
    match (stage, event) {
        (Stage::Pending(Step::SaveFull), Event::FullSaved { ok }) => if ok {
            Stage::Pending(Step::Transcode)
        } else {
            Stage::Failed(Step::SaveFull)
        },
        (Stage::Pending(Step::Transcode), Event::Transcoded { original_size }) => if original_size is Some {
            Stage::Pending(Step::SaveVariants)
        } else {
            Stage::Failed(Step::Transcode)
        },
        (Stage::Pending(Step::SaveVariants), Event::VariantsSaved { optimized, thumbnail }) => if optimized
            && thumbnail {
            Stage::Pending(Step::Record)
        } else {
            Stage::Failed(Step::SaveVariants)
        },
        (Stage::Pending(Step::Record), Event::Recorded { ok }) => if ok {
            Stage::Completed
        } else {
            Stage::Failed(Step::Record)
        },
        _ => stage,
    }
}

/// The size to record for an upload of `original_size` bytes.
pub open spec fn recorded_size(original_size: usize) -> i64 {
    if original_size <= i64::MAX {
        original_size as i64
    } else {
        i64::MAX
    }
}

/// The size that a task knows after `event` where it knew `file_size` before.
pub open spec fn next_size(stage: Stage, file_size: i64, event: Event) -> i64 {
    match (stage, event) {
        (Stage::Pending(Step::Transcode), Event::Transcoded { original_size: Some(n) }) => recorded_size(n),
        _ => file_size,
    }
}

/// The ingestion of one image.
pub struct ImageTask {
    album_id: i64,
    filename: String,
    fields: ExifFields,
    file_size: i64,
    stage: Stage,
}

impl ImageTask {
    /// The album that the image goes into.
    pub closed spec fn album_id(&self) -> i64 {
        self.album_id
    }

    /// The name under which the image is stored.
    pub closed spec fn filename(&self) -> String {
        self.filename
    }

    /// The metadata to record for the image.
    pub closed spec fn fields(&self) -> ExifFields {
        self.fields
    }

    /// The size to record for the image; 0 until it was transcoded.
    pub closed spec fn file_size(&self) -> i64 {
        self.file_size
    }

    /// How far the task has come.
    pub closed spec fn stage(&self) -> Stage {
        self.stage
    }

    /// What is to be done for the task in its present stage.
    pub open spec fn pending_action(&self, action: Action) -> bool {
        match self.stage() {
            Stage::Pending(Step::SaveFull) => action matches Action::SaveFull { path } && path@
                == image_file(self.album_id() as int, ImageQuality::Full, self.filename()@),
            Stage::Pending(Step::Transcode) => action is Transcode,
            Stage::Pending(Step::SaveVariants) => action matches Action::SaveVariants {
                optimized_path,
                thumbnail_path,
            } && optimized_path@ == image_file(
                self.album_id() as int,
                ImageQuality::Optimized,
                self.filename()@,
            ) && thumbnail_path@ == image_file(
                self.album_id() as int,
                ImageQuality::Thumbnail,
                self.filename()@,
            ),
            Stage::Pending(Step::Record) => action matches Action::Record {
                album_id,
                filename,
                file_size,
                fields,
            } && album_id == self.album_id() && filename == self.filename() && file_size
                == self.file_size() && fields == self.fields(),
            Stage::Completed => action matches Action::Finish { completed } && completed,
            Stage::Failed(_) => action matches Action::Finish { completed } && !completed,
        }
    }

    /// A task for an image that is stored as `filename` in album `album_id`
    /// and recorded with `fields`. Its first step is to write the upload.
    pub fn start(album_id: i64, filename: String, fields: ExifFields) -> (task: ImageTask)
        ensures
            task.album_id() == album_id,
            task.filename() == filename,
            task.fields() == fields,
            task.file_size() == 0,
            task.stage() == Stage::Pending(Step::SaveFull),
    {
        ImageTask { album_id, filename, fields, file_size: 0, stage: Stage::Pending(Step::SaveFull) }
    }

    /// A task for an image uploaded as `original_filename` with the bytes
    /// `data`: the image gets a fresh name that keeps the upload's extension,
    /// and the metadata found in `data`, or all `Unknown` where none can be
    /// read.
    pub fn begin(album_id: i64, original_filename: &str, data: &[u8]) -> (task: ImageTask)
        ensures
            task.album_id() == album_id,
            exists|token: Seq<char>| #[trigger]
                is_token(token) && task.filename()@ == stored_name(token, original_filename@),
            free_of(task.filename()@, '/'),
            task.fields()@ == match parsed_tags(data@) {
                Some(tags) => summary(tags),
                None => all_unknown(),
            },
            task.file_size() == 0,
            task.stage() == Stage::Pending(Step::SaveFull),
    {
        let filename = generate_unique_filename(original_filename);
        let fields = metadata_or_unknown(extract_exif_metadata(data));
        ImageTask::start(album_id, filename, fields)
    }

    /// How far the task has come.
    pub fn current_stage(&self) -> (stage: Stage)
        ensures
            stage == self.stage(),
    {
        self.stage
    }

    /// The name under which the image is stored.
    pub fn stored_filename(&self) -> (name: &String)
        ensures
            *name == self.filename(),
    {
        &self.filename
    }

    /// Whether the task has ended, well or not.
    pub fn ended(&self) -> (ended: bool)
        ensures
            ended == !(self.stage() is Pending),
    {
        match self.stage {
            Stage::Pending(_) => false,
            _ => true,
        }
    }

    /// Whether every step of the task was carried out.
    pub fn completed(&self) -> (completed: bool)
        ensures
            completed == (self.stage() is Completed),
    {
        match self.stage {
            Stage::Completed => true,
            _ => false,
        }
    }

    /// What is to be done for the task now.
    pub fn action(&self) -> (action: Action)
        ensures
            self.pending_action(action),
    {
        match self.stage {
            Stage::Pending(Step::SaveFull) => Action::SaveFull {
                path: image_path(self.album_id, self.filename.as_str(), ImageQuality::Full),
            },
            Stage::Pending(Step::Transcode) => Action::Transcode,
            Stage::Pending(Step::SaveVariants) => Action::SaveVariants {
                optimized_path: image_path(
                    self.album_id,
                    self.filename.as_str(),
                    ImageQuality::Optimized,
                ),
                thumbnail_path: image_path(
                    self.album_id,
                    self.filename.as_str(),
                    ImageQuality::Thumbnail,
                ),
            },
            Stage::Pending(Step::Record) => Action::Record {
                album_id: self.album_id,
                filename: self.filename.clone(),
                file_size: self.file_size,
                fields: self.fields.duplicate(),
            },
            Stage::Completed => Action::Finish { completed: true },
            Stage::Failed(_) => Action::Finish { completed: false },
        }
    }

    /// Takes the report of what became of the pending step and moves on:
    /// to the next step where the step succeeded, to the end where it failed
    /// or where it was the last.
    pub fn advance(&mut self, event: Event)
        ensures
            final(self).stage() == next_stage(old(self).stage(), event),
            final(self).file_size() == next_size(old(self).stage(), old(self).file_size(), event),
            final(self).album_id() == old(self).album_id(),
            final(self).filename() == old(self).filename(),
            final(self).fields() == old(self).fields(),
    {
        match (self.stage, event) {
            (Stage::Pending(Step::SaveFull), Event::FullSaved { ok }) => {
                self.stage = if ok {
                    Stage::Pending(Step::Transcode)
                } else {
                    Stage::Failed(Step::SaveFull)
                };
            },
            (Stage::Pending(Step::Transcode), Event::Transcoded { original_size }) => {
                match original_size {
                    Some(n) => {
                        let wide: u64 = n as u64;
                        self.file_size = if wide <= 0x7fff_ffff_ffff_ffff {
                            wide as i64
                        } else {
                            i64::MAX
                        };
                        self.stage = Stage::Pending(Step::SaveVariants);
                    },
                    None => {
                        self.stage = Stage::Failed(Step::Transcode);
                    },
                }
            },
            (Stage::Pending(Step::SaveVariants), Event::VariantsSaved { optimized, thumbnail }) => {
                self.stage = if optimized && thumbnail {
                    Stage::Pending(Step::Record)
                } else {
                    Stage::Failed(Step::SaveVariants)
                };
            },
            (Stage::Pending(Step::Record), Event::Recorded { ok }) => {
                self.stage = if ok {
                    Stage::Completed
                } else {
                    Stage::Failed(Step::Record)
                };
            },
            _ => {},
        }
    }
}

/// Where a batch stands.
#[derive(Clone, Copy, Debug, PartialEq, Eq, Structural)]
pub enum Phase {
    /// The directories of the album are being made.
    Preparing,
    /// Tasks are running.
    Running,
    /// Every task has ended; the modes of the album are being brought up to
    /// date.
    Refreshing,
    /// The batch is through and reports its count.
    Done,
    /// The directories could not be made; nothing was ingested.
    Rejected,
}

/// What a caller reports back to a batch.
#[derive(Clone, Copy, Debug, PartialEq, Eq, Structural)]
pub enum BatchEvent {
    /// The directories of the album exist, or could not be made.
    DirectoriesReady { ok: bool },
    /// One task has ended; `completed` says whether it went through all its
    /// steps.
    TaskEnded { completed: bool },
    /// The modes of the album were brought up to date, or could not be.
    ModesRefreshed { ok: bool },
}

/// What a caller is to do for a batch.
pub enum BatchAction {
    /// Make these directories; ones that exist are left as they are.
    CreateDirectories { directories: Vec<String> },
    /// Run the tasks and report each as it ends; `outstanding` have not
    /// ended yet.
    RunTasks { outstanding: usize },
    /// Bring the modes of the album up to date.
    RefreshModes { album_id: i64 },
    /// Answer the request: `processed` images went through all their steps.
    Report { processed: usize },
    /// Refuse the whole request.
    Reject,
}

/// A batch as numbers: how many tasks it has, how many of them have ended,
/// how many of those went through all their steps, and where it stands.
pub struct BatchState {
    pub album_id: i64,
    pub expected: nat,
    pub finished: nat,
    pub succeeded: nat,
    pub phase: Phase,
}

impl BatchState {
    /// What holds of every batch: no more tasks have ended than there are,
    /// no more succeeded than ended, and the phase fits the numbers.
    pub open spec fn wf(self) -> bool {
        &&& self.succeeded <= self.finished <= self.expected
        &&& match self.phase {
            Phase::Preparing | Phase::Rejected => self.finished == 0,
            Phase::Running => self.finished < self.expected,
            Phase::Refreshing | Phase::Done => self.finished == self.expected,
        }
    }

    /// A batch of `expected` tasks before anything was done.
    pub open spec fn initial(album_id: i64, expected: nat) -> BatchState {
        BatchState { album_id, expected, finished: 0, succeeded: 0, phase: Phase::Preparing }
    }

    /// The batch after `event` was reported. A report that does not answer
    /// what the batch is waiting for changes nothing.
    pub open spec fn step(self, event: BatchEvent) -> BatchState {
        match (self.phase, event) {
            (Phase::Preparing, BatchEvent::DirectoriesReady { ok }) => BatchState {
                phase: if !ok {
                    Phase::Rejected
                } else if self.expected == 0 {
                    Phase::Refreshing
                } else {
                    Phase::Running
                },
                ..self
            },
            (Phase::Running, BatchEvent::TaskEnded { completed }) => BatchState {
                finished: self.finished + 1,
                succeeded: if completed {
                    self.succeeded + 1
                } else {
                    self.succeeded
                },
                phase: if self.finished + 1 == self.expected {
                    Phase::Refreshing
                } else {
                    Phase::Running
                },
                ..self
            },
            (Phase::Refreshing, BatchEvent::ModesRefreshed { ok }) => BatchState {
                phase: Phase::Done,
                ..self
            },
            _ => self,
        }
    }

    /// The batch after a series of reports.
    pub open spec fn run(self, events: Seq<BatchEvent>) -> BatchState
        decreases events.len(),
    {
        if events.len() == 0 {
            self
        } else {
            self.run(events.drop_last()).step(events.last())
        }
    }

    /// How often, in the course of a series of reports, the modes of the
    /// album were brought up to date.
    pub open spec fn refreshes(self, events: Seq<BatchEvent>) -> nat
        decreases events.len(),
    {
        if events.len() == 0 {
            0
        } else {
            self.refreshes(events.drop_last()) + if self.run(events.drop_last()).phase
                is Refreshing && events.last() is ModesRefreshed {
                1nat
            } else {
                0nat
            }
        }
    }

    /// How many tasks, in the course of a series of reports, were reported
    /// to have gone through all their steps while the batch was running.
    pub open spec fn completions(self, events: Seq<BatchEvent>) -> nat
        decreases events.len(),
    {
        if events.len() == 0 {
            0
        } else {
            self.completions(events.drop_last()) + if self.run(events.drop_last()).phase
                is Running && events.last() == (BatchEvent::TaskEnded { completed: true }) {
                1nat
            } else {
                0nat
            }
        }
    }
}

/// Whatever is reported to a batch, and in whatever order: the batch counts
/// exactly the tasks that went through all their steps, never more than it
/// has tasks; the modes are brought up to date at most once, and exactly once
/// by the time the batch is through; and a batch is through only when every
/// one of its tasks has ended.
pub proof fn lemma_batch_run(album_id: i64, expected: nat, events: Seq<BatchEvent>)
    ensures
        ({
            let start = BatchState::initial(album_id, expected);
            let end = start.run(events);
            &&& end.wf()
            &&& end.album_id == album_id
            &&& end.expected == expected
            &&& end.succeeded == start.completions(events)
            &&& end.succeeded <= expected
            &&& start.refreshes(events) == if end.phase is Done {
                1nat
            } else {
                0nat
            }
            &&& end.phase is Done ==> end.finished == expected
        }),
    decreases events.len(),
{
    if events.len() > 0 {
        lemma_batch_run(album_id, expected, events.drop_last());
    }
}

/// How many of `outcomes` are `true`.
pub open spec fn count_true(outcomes: Seq<bool>) -> nat
    decreases outcomes.len(),
{
    if outcomes.len() == 0 {
        0
    } else {
        count_true(outcomes.drop_last()) + if outcomes.last() {
            1nat
        } else {
            0nat
        }
    }
}

/// Counts the tasks that went through all their steps, given for each task
/// of a batch whether it did. The count is never more than the batch has
/// tasks.
pub fn count_completed(outcomes: &Vec<bool>) -> (processed: usize)
    ensures
        processed == count_true(outcomes@),
        processed <= outcomes.len(),
{
    let mut processed: usize = 0;
    let mut i: usize = 0;
    while i < outcomes.len()
        invariant
            i <= outcomes.len(),
            processed == count_true(outcomes@.take(i as int)),
            processed <= i,
        decreases outcomes.len() - i,
    {
        proof {
            assert(outcomes@.take(i + 1).drop_last() == outcomes@.take(i as int));
            assert(outcomes@.take(i + 1).last() == outcomes@[i as int]);
        }
        if outcomes[i] {
            processed += 1;
        }
        i += 1;
    }
    assert(outcomes@.take(i as int) == outcomes@);
    processed
}

/// The ingestion of a batch of images into one album.
pub struct Batch {
    album_id: i64,
    expected: usize,
    finished: usize,
    succeeded: usize,
    phase: Phase,
}

impl View for Batch {
    type V = BatchState;

    closed spec fn view(&self) -> BatchState {
        BatchState {
            album_id: self.album_id,
            expected: self.expected as nat,
            finished: self.finished as nat,
            succeeded: self.succeeded as nat,
            phase: self.phase,
        }
    }
}

impl Batch {
    /// The numbers of a batch always fit together.
    #[verifier::type_invariant]
    closed spec fn consistent(&self) -> bool {
        self@.wf()
    }

    /// What is to be done for the batch in its present state.
    pub open spec fn pending_action(&self, action: BatchAction) -> bool {
        match self@.phase {
            Phase::Preparing => action matches BatchAction::CreateDirectories { directories }
                && directories@.len() == 3 && directories@[0]@ == quality_dir(
                self@.album_id as int,
                ImageQuality::Full,
            ) && directories@[1]@ == quality_dir(self@.album_id as int, ImageQuality::Optimized)
                && directories@[2]@ == quality_dir(self@.album_id as int, ImageQuality::Thumbnail),
            Phase::Running => action matches BatchAction::RunTasks { outstanding } && outstanding
                == self@.expected - self@.finished,
            Phase::Refreshing => action matches BatchAction::RefreshModes { album_id } && album_id
                == self@.album_id,
            Phase::Done => action matches BatchAction::Report { processed } && processed
                == self@.succeeded,
            Phase::Rejected => action is Reject,
        }
    }

    /// A batch of `expected` images for album `album_id`. Its first step is
    /// to make the directories of the album.
    pub fn new(album_id: i64, expected: usize) -> (batch: Batch)
        ensures
            batch@ == BatchState::initial(album_id, expected as nat),
            batch@.wf(),
    {
        Batch { album_id, expected, finished: 0, succeeded: 0, phase: Phase::Preparing }
    }

    /// Where the batch stands.
    pub fn phase(&self) -> (phase: Phase)
        ensures
            phase == self@.phase,
    {
        self.phase
    }

    /// How many images went through all their steps so far.
    pub fn processed(&self) -> (processed: usize)
        ensures
            processed == self@.succeeded,
    {
        self.succeeded
    }

    /// What is to be done for the batch now.
    pub fn action(&self) -> (action: BatchAction)
        ensures
            self@.wf(),
            self.pending_action(action),
    {
        proof {
            use_type_invariant(self);
        }
        match self.phase {
            Phase::Preparing => BatchAction::CreateDirectories {
                directories: album_directories(self.album_id),
            },
            Phase::Running => BatchAction::RunTasks { outstanding: self.expected - self.finished },
            Phase::Refreshing => BatchAction::RefreshModes { album_id: self.album_id },
            Phase::Done => BatchAction::Report { processed: self.succeeded },
            Phase::Rejected => BatchAction::Reject,
        }
    }

    /// Takes a report and moves on.
    ///
    /// Without its directories a batch is rejected as a whole. Tasks are
    /// counted as they end. When the last has ended the modes are due, and
    /// when they were seen to, with or without success, the batch is through.
    pub fn advance(&mut self, event: BatchEvent)
        ensures
            old(self)@.wf(),
            final(self)@ == old(self)@.step(event),
            final(self)@.wf(),
    {
        proof {
            use_type_invariant(&*self);
        }
        let album_id = self.album_id;
        let expected = self.expected;
        let finished = self.finished;
        let succeeded = self.succeeded;
        match (self.phase, event) {
            (Phase::Preparing, BatchEvent::DirectoriesReady { ok }) => {
                let phase = if !ok {
                    Phase::Rejected
                } else if expected == 0 {
                    Phase::Refreshing
                } else {
                    Phase::Running
                };
                *self = Batch { album_id, expected, finished, succeeded, phase };
            },
            (Phase::Running, BatchEvent::TaskEnded { completed }) => {
                let phase = if finished + 1 == expected {
                    Phase::Refreshing
                } else {
                    Phase::Running
                };
                let succeeded = if completed {
                    succeeded + 1
                } else {
                    succeeded
                };
                *self = Batch { album_id, expected, finished: finished + 1, succeeded, phase };
            },
            (Phase::Refreshing, BatchEvent::ModesRefreshed { ok }) => {
                *self = Batch { album_id, expected, finished, succeeded, phase: Phase::Done };
            },
            _ => {},
        }
    }
}

} // verus!

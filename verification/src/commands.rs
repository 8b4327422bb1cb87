//! The decisions behind the application's commands: the batch of conversions as a state
//! that each file's outcome moves on, the format lists, and the answers about output
//! folders and disk space.
use vstd::prelude::*;
use crate::converter::{format_debug_name, format_debug_spec};
use crate::errors::{error_message_spec, ConversionError};
use crate::history::HistoryStatus;
use crate::models::{
    ConversionOptions, ConversionResult, DiskSpaceCheck, FailedFileInfo, FileFormat,
    FormatCategory, FormatInfo, PathValidation, ProgressEvent, ProgressStatus,
};
use crate::output::OutputPathResult;
use crate::paths::{dot_split, file_name, is_plain_name, lemma_dotted_name, path_file_name};
use crate::validator::{ascii_lower, format_of_extension, is_lower_ascii};
use vstd::utf8::is_ascii_chars;
use crate::strings::{chars_of, push_str, string_of};

pub use crate::converter::image::is_image_format;

verus! {

// ---------------------------------------------------------------------------
// A batch of conversions
// ---------------------------------------------------------------------------

/// What became of one file of a batch.
#[derive(Clone, Debug)]
pub enum FileOutcome {
    /// No converter handles the pair of formats.
    Unsupported { from: FileFormat, to: FileFormat },
    /// The output exists and the user chose to skip such files.
    Skipped,
    /// The output folder could not be made; the message says why.
    DirectoryFailed(String),
    /// The conversion failed; the message says why.
    ConversionFailed(String),
    /// The file was converted.
    Converted,
}

/// The message recorded for a pair of formats that cannot be converted.
pub open spec fn unsupported_text(from: FileFormat, to: FileFormat) -> Seq<char> {
    "非対応変換ペア: "@ + format_debug_spec(from) + " → "@ + format_debug_spec(to)
}

/// The message recorded for a failed file, if the outcome is a failure.
pub open spec fn outcome_error(o: FileOutcome) -> Option<Seq<char>> {
    match o {
        FileOutcome::Unsupported { from, to } => Some(unsupported_text(from, to)),
        FileOutcome::DirectoryFailed(m) => Some(m@),
        FileOutcome::ConversionFailed(m) => Some(m@),
        _ => None,
    }
}

/// The progress state that an outcome reports.
pub open spec fn outcome_status(o: FileOutcome) -> ProgressStatus {
    if outcome_error(o) is Some {
        ProgressStatus::Failed
    } else {
        ProgressStatus::Completed
    }
}

/// The running state of a batch: the valid files handled so far and how each went; files
/// refused before the batch started count as failed from the start.
#[derive(Debug)]
pub struct BatchState {
    pub total_count: u32,
    pub index: u32,
    pub invalid_count: u32,
    pub success_count: u32,
    pub failed_count: u32,
    pub skipped_count: u32,
    pub failed_files: Vec<FailedFileInfo>,
    pub cancelled: bool,
}

/// Where the checks before a batch stand.
#[derive(Debug)]
pub enum PreflightStep {
    /// Check that the chosen output folder can be written.
    CheckFolder,
    /// Compare the size of the inputs with the free space of the output folder.
    CheckSpace,
    /// Start the batch.
    Start,
    /// Refuse the batch, with this message; nothing is converted and nothing is reported.
    Refused(String),
}

/// What the application reports back for a check before a batch.
#[derive(Debug)]
pub enum PreflightEvent {
    /// The output folder can be written, or the message of why not.
    FolderChecked(Result<(), String>),
    /// The size of the readable inputs and the free space of the output folder.
    SpaceMeasured { required: u64, available: u64 },
}

/// The first check before a batch: the output folder when one is chosen; without one the
/// batch starts at once.
pub fn preflight_first(has_output_dir: bool) -> (r: PreflightStep)
    ensures
        r == (if has_output_dir {
            PreflightStep::CheckFolder
        } else {
            PreflightStep::Start
        }),
{
    if has_output_dir {
        PreflightStep::CheckFolder
    } else {
        PreflightStep::Start
    }
}

/// The step after an event: a folder that cannot be written refuses the batch with its
/// message; a folder that can leads to the space check; too little free space refuses the
/// batch with the disk-space error's message, enough starts it. An event that does not
/// answer the step leaves it as it is.
pub open spec fn preflight_next_is(r: PreflightStep, step: PreflightStep, event: PreflightEvent) -> bool {
    match (step, event) {
        (PreflightStep::CheckFolder, PreflightEvent::FolderChecked(Err(m))) => r == PreflightStep::Refused(m),
        (PreflightStep::CheckFolder, PreflightEvent::FolderChecked(Ok(()))) => r == PreflightStep::CheckSpace,
        (PreflightStep::CheckSpace, PreflightEvent::SpaceMeasured { required, available }) => if required
            > available {
            r matches PreflightStep::Refused(m) && m@ == error_message_spec(
                ConversionError::DiskSpaceError { required_bytes: required, available_bytes: available },
            )
        } else {
            r == PreflightStep::Start
        },
        (s, _) => r == s,
    }
}

/// The next check before a batch after an event (see `preflight_next_is`).
pub fn preflight_step(step: PreflightStep, event: PreflightEvent) -> (r: PreflightStep)
    ensures
        preflight_next_is(r, step, event),
{
    match (step, event) {
        (PreflightStep::CheckFolder, PreflightEvent::FolderChecked(Err(m))) => PreflightStep::Refused(m),
        (PreflightStep::CheckFolder, PreflightEvent::FolderChecked(Ok(()))) => PreflightStep::CheckSpace,
        (PreflightStep::CheckSpace, PreflightEvent::SpaceMeasured { required, available }) => {
            if required > available {
                let e = ConversionError::DiskSpaceError { required_bytes: required, available_bytes: available };
                PreflightStep::Refused(e.message())
            } else {
                PreflightStep::Start
            }
        },
        (s, _) => s,
    }
}

/// A batch starts only once every check passed: a step moves to the start only from the
/// space check with no more input than free space. A refusal comes only from a folder that
/// cannot be written or from too little free space.
pub proof fn law_batch_starts_only_after_checks(r: PreflightStep, step: PreflightStep, event: PreflightEvent)
    requires
        preflight_next_is(r, step, event),
    ensures
        !(step is Start) && r is Start ==> (step is CheckSpace && (event matches PreflightEvent::SpaceMeasured { required, available } && required <= available)),
        !(step is Refused) && r is Refused ==> ((step is CheckFolder && (event matches PreflightEvent::FolderChecked(Err(_)))) || (step is CheckSpace && (event matches PreflightEvent::SpaceMeasured { required, available } && required > available))),
{
}

/// Where the handling of one file of a batch stands.
#[derive(Debug)]
pub enum FileStep {
    /// Ask whether a converter handles the pair of formats.
    CheckPair,
    /// Choose the output path (naming pattern and conflict resolution).
    ResolvePath,
    /// Make the output folder for writing to this path.
    MakeDir(String),
    /// Convert the file into this path.
    Convert(String),
    /// The file is handled, with this outcome.
    Done(FileOutcome),
}

/// What the application reports back for a step of a file.
#[derive(Debug)]
pub enum FileEvent {
    /// Whether some converter handles the pair, and the pair.
    PairChecked { supported: bool, from: FileFormat, to: FileFormat },
    /// The output path chosen, or that the file is skipped.
    PathResolved(OutputPathResult),
    /// Whether the output folder could be made, or why not.
    DirMade(Result<(), String>),
    /// Whether the conversion succeeded, or the message of its error.
    ConversionEnded(Result<(), String>),
}

/// The step after an event: an unsupported pair, a skipped path, a folder that could not be
/// made and a failed conversion end the file; otherwise it moves on from checking the pair to
/// choosing the path, making the folder and converting. An event that does not answer the
/// step leaves it as it is.
pub open spec fn file_step_spec(step: FileStep, event: FileEvent) -> FileStep {
    match (step, event) {
        (FileStep::CheckPair, FileEvent::PairChecked { supported, from, to }) => if supported {
            FileStep::ResolvePath
        } else {
            FileStep::Done(FileOutcome::Unsupported { from, to })
        },
        (FileStep::ResolvePath, FileEvent::PathResolved(p)) => match p {
            OutputPathResult::Skip => FileStep::Done(FileOutcome::Skipped),
            OutputPathResult::Write(t) => FileStep::MakeDir(t),
        },
        (FileStep::MakeDir(t), FileEvent::DirMade(r)) => match r {
            Err(e) => FileStep::Done(FileOutcome::DirectoryFailed(e)),
            Ok(()) => FileStep::Convert(t),
        },
        (FileStep::Convert(_), FileEvent::ConversionEnded(r)) => match r {
            Ok(()) => FileStep::Done(FileOutcome::Converted),
            Err(e) => FileStep::Done(FileOutcome::ConversionFailed(e)),
        },
        (s, _) => s,
    }
}

/// The next step of a file after an event (see `file_step_spec`).
pub fn file_step(step: FileStep, event: FileEvent) -> (r: FileStep)
    ensures
        r == file_step_spec(step, event),
{
    match (step, event) {
        (FileStep::CheckPair, FileEvent::PairChecked { supported, from, to }) => if supported {
            FileStep::ResolvePath
        } else {
            FileStep::Done(FileOutcome::Unsupported { from, to })
        },
        (FileStep::ResolvePath, FileEvent::PathResolved(p)) => match p {
            OutputPathResult::Skip => FileStep::Done(FileOutcome::Skipped),
            OutputPathResult::Write(t) => FileStep::MakeDir(t),
        },
        (FileStep::MakeDir(t), FileEvent::DirMade(r)) => match r {
            Err(e) => FileStep::Done(FileOutcome::DirectoryFailed(e)),
            Ok(()) => FileStep::Convert(t),
        },
        (FileStep::Convert(_), FileEvent::ConversionEnded(r)) => match r {
            Ok(()) => FileStep::Done(FileOutcome::Converted),
            Err(e) => FileStep::Done(FileOutcome::ConversionFailed(e)),
        },
        (s, _) => s,
    }
}

/// A file is converted only after every check passed: it ends converted only from its
/// conversion step with a successful conversion; it reaches the conversion of a path only
/// from making the folder for that path, and making a folder only from a path chosen to be
/// written.
pub proof fn law_converted_only_after_every_check(step: FileStep, event: FileEvent)
    requires
        !(step is Done),
    ensures
        file_step_spec(step, event) matches FileStep::Done(FileOutcome::Converted) ==> (step is Convert
            && (event matches FileEvent::ConversionEnded(Ok(_)))),
        !(step is MakeDir) ==> (file_step_spec(step, event) matches FileStep::MakeDir(t) ==> (step
            is ResolvePath && (event matches FileEvent::PathResolved(OutputPathResult::Write(w))
            && w == t))),
        !(step is Convert) ==> (file_step_spec(step, event) matches FileStep::Convert(t) ==> (step
            matches FileStep::MakeDir(m) && m == t && (event matches FileEvent::DirMade(Ok(_))))),
{
    match (step, event) {
        (FileStep::CheckPair, FileEvent::PairChecked { supported, from, to }) => {},
        (FileStep::ResolvePath, FileEvent::PathResolved(p)) => {},
        (FileStep::MakeDir(t), FileEvent::DirMade(r)) => {},
        (FileStep::Convert(_), FileEvent::ConversionEnded(r)) => {},
        _ => {},
    }
}

/// The next step of a running batch.
#[derive(Clone, Copy, Debug, PartialEq, Eq, Structural)]
pub enum BatchStep {
    /// Convert the next valid file (the one at `index`).
    Process,
    /// Stop before the next valid file: a cancellation was requested.
    Cancel,
    /// The batch is over: report its result.
    Finish,
}

/// The counts of a batch, as plain numbers.
pub ghost struct BatchCounts {
    pub success: nat,
    pub failed: nat,
    pub skipped: nat,
    pub handled: nat,
}

/// The counts after one more file.
pub open spec fn count_step(c: BatchCounts, o: FileOutcome) -> BatchCounts {
    match o {
        FileOutcome::Converted => BatchCounts { success: c.success + 1, handled: c.handled + 1, ..c },
        FileOutcome::Skipped => BatchCounts { skipped: c.skipped + 1, handled: c.handled + 1, ..c },
        _ => BatchCounts { failed: c.failed + 1, handled: c.handled + 1, ..c },
    }
}

/// The counts after the files' outcomes, in order.
pub open spec fn counts_after(c: BatchCounts, os: Seq<FileOutcome>) -> BatchCounts
    decreases os.len(),
{
    if os.len() == 0 {
        c
    } else {
        count_step(counts_after(c, os.drop_last()), os.last())
    }
}

/// The name under which a refused path is recorded: its file name, or the whole path.
pub open spec fn refused_name(path: Seq<char>) -> Seq<char> {
    match path_file_name(path) {
        Some(n) => n,
        None => path,
    }
}

/// A failure record as a pair of texts.
pub open spec fn failure_view(f: FailedFileInfo) -> (Seq<char>, Seq<char>) {
    (f.file_name@, f.error@)
}

impl BatchState {
    /// The counts of the state.
    pub open spec fn counts(&self) -> BatchCounts {
        BatchCounts {
            success: self.success_count as nat,
            failed: self.failed_count as nat,
            skipped: self.skipped_count as nat,
            handled: self.index as nat,
        }
    }

    /// Every valid file handled so far is counted once, every refused file is counted as
    /// failed, each failure is recorded, and the counts fit.
    pub open spec fn wf(&self) -> bool {
        &&& self.index <= self.total_count
        &&& self.invalid_count + self.total_count <= u32::MAX
        &&& self.success_count + self.failed_count + self.skipped_count == self.invalid_count
            + self.index
        &&& self.failed_count >= self.invalid_count
        &&& self.failed_files@.len() == self.failed_count
    }

    /// Starts a batch of `valid_count` files, recording each refused file (path and reason)
    /// as failed under its file name.
    pub fn start(invalid_files: &Vec<(String, String)>, valid_count: usize) -> (s: Self)
        requires
            invalid_files@.len() + valid_count <= u32::MAX,
        ensures
            s.wf(),
            s.total_count == valid_count,
            s.index == 0,
            s.invalid_count == invalid_files@.len(),
            s.success_count == 0 && s.skipped_count == 0,
            s.failed_count == invalid_files@.len(),
            !s.cancelled,
            forall|i: int|
                0 <= i < invalid_files@.len() ==> #[trigger] failure_view(s.failed_files@[i]) == (
                    refused_name(invalid_files@[i].0@),
                    invalid_files@[i].1@,
                ),
    {
        let mut failed_files: Vec<FailedFileInfo> = Vec::new();
        let mut i: usize = 0;
        while i < invalid_files.len()
            invariant
                i <= invalid_files@.len(),
                failed_files@.len() == i,
                forall|j: int|
                    0 <= j < i ==> #[trigger] failure_view(failed_files@[j]) == (
                        refused_name(invalid_files@[j].0@),
                        invalid_files@[j].1@,
                    ),
            decreases invalid_files@.len() - i,
        {
            let path = &invalid_files[i].0;
            let name = match file_name(path.as_str()) {
                Some(n) => n,
                None => path.clone(),
            };
            failed_files.push(FailedFileInfo { file_name: name, error: invalid_files[i].1.clone() });
            i = i + 1;
        }
        let n = invalid_files.len() as u32;
        BatchState {
            total_count: valid_count as u32,
            index: 0,
            invalid_count: n,
            success_count: 0,
            failed_count: n,
            skipped_count: 0,
            failed_files,
            cancelled: false,
        }
    }

    /// The sequence number of the next file, counting from 1.
    pub fn sequence_number(&self) -> (n: u32)
        requires
            self.wf(),
            self.index < self.total_count,
        ensures
            n == self.index + 1,
    {
        self.index + 1
    }

    /// The report sent when the next file starts: the files handled so far.
    pub fn processing_event(&self, current_file: String) -> (e: ProgressEvent)
        ensures
            e.current_file@ == current_file@,
            e.processed_count == self.index,
            e.total_count == self.total_count,
            e.status == ProgressStatus::Processing,
            e.error is None,
    {
        ProgressEvent {
            current_file,
            processed_count: self.index,
            total_count: self.total_count,
            status: ProgressStatus::Processing,
            error: None,
        }
    }

    /// Records the outcome of the next file: it is counted once, a failure is recorded with
    /// its message, and the report counts it as handled.
    pub fn finish_file(&mut self, current_file: String, outcome: FileOutcome) -> (e: ProgressEvent)
        requires
            old(self).wf(),
            !old(self).cancelled,
            old(self).index < old(self).total_count,
        ensures
            final(self).wf(),
            final(self).counts() == count_step(old(self).counts(), outcome),
            final(self).total_count == old(self).total_count,
            final(self).invalid_count == old(self).invalid_count,
            !final(self).cancelled,
            match outcome_error(outcome) {
                Some(m) => final(self).failed_files@.len() == old(self).failed_files@.len() + 1
                    && final(self).failed_files@.drop_last() == old(self).failed_files@
                    && failure_view(final(self).failed_files@.last()) == (current_file@, m),
                None => final(self).failed_files@ == old(self).failed_files@,
            },
            e.current_file@ == current_file@,
            e.processed_count == old(self).index + 1,
            e.total_count == old(self).total_count,
            e.status == outcome_status(outcome),
            match outcome_error(outcome) {
                Some(m) => e.error matches Some(t) && t@ == m,
                None => e.error is None,
            },
    {
        let processed = self.index + 1;
        let error: Option<String> = match &outcome {
            FileOutcome::Unsupported { from, to } => {
                let mut t = chars_of("非対応変換ペア: ");
                push_str(&mut t, format_debug_name(from));
                push_str(&mut t, " → ");
                push_str(&mut t, format_debug_name(to));
                Some(string_of(&t))
            },
            FileOutcome::DirectoryFailed(m) => Some(m.clone()),
            FileOutcome::ConversionFailed(m) => Some(m.clone()),
            _ => None,
        };
        match outcome {
            FileOutcome::Converted => {
                self.success_count = self.success_count + 1;
            },
            FileOutcome::Skipped => {
                self.skipped_count = self.skipped_count + 1;
            },
            _ => {
                self.failed_count = self.failed_count + 1;
            },
        }
        self.index = processed;
        let status = match &error {
            Some(m) => {
                let ghost before = self.failed_files@;
                self.failed_files.push(FailedFileInfo { file_name: current_file.clone(), error: m.clone() });
                assert(self.failed_files@.drop_last() =~= before);
                ProgressStatus::Failed
            },
            None => ProgressStatus::Completed,
        };
        ProgressEvent {
            current_file,
            processed_count: processed,
            total_count: self.total_count,
            status,
            error,
        }
    }

    /// Stops the batch before the next file: nothing more is counted, and the report names
    /// that file as cancelled.
    pub fn cancel(&mut self, current_file: String) -> (e: ProgressEvent)
        requires
            old(self).wf(),
            old(self).index < old(self).total_count,
        ensures
            final(self).wf(),
            final(self).cancelled,
            final(self).counts() == old(self).counts(),
            final(self).total_count == old(self).total_count,
            final(self).invalid_count == old(self).invalid_count,
            final(self).failed_files@ == old(self).failed_files@,
            e.current_file@ == current_file@,
            e.processed_count == old(self).index + 1,
            e.total_count == old(self).total_count,
            e.status == ProgressStatus::Cancelled,
            e.error is None,
    {
        self.cancelled = true;
        ProgressEvent {
            current_file,
            processed_count: self.index + 1,
            total_count: self.total_count,
            status: ProgressStatus::Cancelled,
            error: None,
        }
    }

    /// What the batch does next (see `next_step`).
    pub open spec fn next_step_spec(&self, cancel_requested: bool) -> BatchStep {
        if self.cancelled || self.index >= self.total_count {
            BatchStep::Finish
        } else if cancel_requested {
            BatchStep::Cancel
        } else {
            BatchStep::Process
        }
    }

    /// What the batch does next: it finishes once cancelled or once every valid file is
    /// handled; otherwise a cancellation requested since (`cancel_requested`) stops it before
    /// the next file, and else the next file is converted.
    pub fn next_step(&self, cancel_requested: bool) -> (r: BatchStep)
        ensures
            r == self.next_step_spec(cancel_requested),
    {
        if self.cancelled || self.index >= self.total_count {
            BatchStep::Finish
        } else if cancel_requested {
            BatchStep::Cancel
        } else {
            BatchStep::Process
        }
    }

    /// The number of files counted, refused ones included.
    pub fn file_count(&self) -> (n: u32)
        requires
            self.wf(),
        ensures
            n == self.success_count + self.failed_count + self.skipped_count,
    {
        self.success_count + self.failed_count + self.skipped_count
    }

    /// The run failed when some file failed and none was converted.
    pub fn history_status(&self) -> (s: HistoryStatus)
        ensures
            s == (if self.failed_count > 0 && self.success_count == 0 {
                HistoryStatus::Failed
            } else {
                HistoryStatus::Success
            }),
    {
        if self.failed_count > 0 && self.success_count == 0 {
            HistoryStatus::Failed
        } else {
            HistoryStatus::Success
        }
    }

    /// The result of the batch, with the output folder it reports.
    pub fn into_result(self, output_dir: String) -> (r: ConversionResult)
        ensures
            r.success_count == self.success_count,
            r.failed_count == self.failed_count,
            r.skipped_count == self.skipped_count,
            r.failed_files@ == self.failed_files@,
            r.output_dir@ == output_dir@,
    {
        ConversionResult {
            success_count: self.success_count,
            failed_count: self.failed_count,
            skipped_count: self.skipped_count,
            failed_files: self.failed_files,
            output_dir,
        }
    }
}

/// The source file is deleted only after its conversion succeeded, and only when asked for.
pub fn deletes_source(options: &ConversionOptions, outcome: &FileOutcome) -> (r: bool)
    ensures
        r == (options.delete_source && *outcome is Converted),
{
    options.delete_source && match outcome {
        FileOutcome::Converted => true,
        _ => false,
    }
}

/// A partly written output is removed exactly when the conversion itself failed.
pub fn removes_partial_output(outcome: &FileOutcome) -> (r: bool)
    ensures
        r == (*outcome is ConversionFailed),
{
    match outcome {
        FileOutcome::ConversionFailed(_) => true,
        _ => false,
    }
}

/// The folder a batch reports as its output: the one chosen, else the current folder.
pub fn result_output_dir(output_dir: &Option<String>) -> (r: String)
    ensures
        match output_dir {
            Some(d) => r@ == d@,
            None => r@ == "."@,
        },
{
    match output_dir {
        Some(d) => d.clone(),
        None => ".".to_owned(),
    }
}

/// The folder recorded in the history: the parent of the first input path, or nothing.
pub fn source_folder(input_paths: &Vec<String>) -> (r: String)
    ensures
        input_paths@.len() == 0 ==> r@ == Seq::<char>::empty(),
        input_paths@.len() > 0 ==> match crate::paths::path_parent(input_paths@[0]@) {
            Some(p) => r@ == p,
            None => r@ == Seq::<char>::empty(),
        },
{
    if input_paths.len() == 0 {
        return String::new();
    }
    match crate::paths::parent(input_paths[0].as_str()) {
        Some(p) => p,
        None => String::new(),
    }
}

/// How many of the outcomes satisfy `p`.
pub open spec fn count_where(os: Seq<FileOutcome>, p: spec_fn(FileOutcome) -> bool) -> nat
    decreases os.len(),
{
    if os.len() == 0 {
        0
    } else {
        count_where(os.drop_last(), p) + if p(os.last()) {
            1nat
        } else {
            0nat
        }
    }
}

/// Every file counted once: after the outcomes of all files, the successes, failures and
/// skips add up to the files counted before plus the files handled, the successes are the
/// converted files, the skips the skipped ones, and the failures all the others.
pub proof fn law_batch_counts(c: BatchCounts, os: Seq<FileOutcome>)
    ensures
        counts_after(c, os).success + counts_after(c, os).failed + counts_after(c, os).skipped
            == c.success + c.failed + c.skipped + os.len(),
        counts_after(c, os).handled == c.handled + os.len(),
        counts_after(c, os).success == c.success + count_where(os, |o: FileOutcome| o is Converted),
        counts_after(c, os).skipped == c.skipped + count_where(os, |o: FileOutcome| o is Skipped),
        counts_after(c, os).failed == c.failed + count_where(
            os,
            |o: FileOutcome| outcome_error(o) is Some,
        ),
    decreases os.len(),
{
    if os.len() > 0 {
        law_batch_counts(c, os.drop_last());
    }
}

/// A batch that finishes without being cancelled has counted every file exactly once: the
/// successes, failures and skips add up to the valid files and the refused ones together,
/// and every failure is recorded.
pub proof fn law_finished_batch_counts_every_file(s: BatchState)
    requires
        s.wf(),
        s.next_step_spec(false) == BatchStep::Finish,
        !s.cancelled,
    ensures
        s.success_count + s.failed_count + s.skipped_count == s.total_count + s.invalid_count,
        s.failed_files@.len() == s.failed_count,
{
}

/// The processed counts that a batch of `n` files reports when no file is cancelled: for
/// each file, the count before it and the count after it.
pub open spec fn reported_counts(n: nat) -> Seq<nat>
    decreases n,
{
    if n == 0 {
        Seq::empty()
    } else {
        reported_counts((n - 1) as nat) + seq![(n - 1) as nat, n]
    }
}

/// The progress reports of a batch never count down, and the last one counts every file.
pub proof fn law_progress_monotonic(n: nat)
    ensures
        reported_counts(n).len() == 2 * n,
        forall|i: int, j: int|
            0 <= i <= j < reported_counts(n).len() ==> reported_counts(n)[i] <= reported_counts(
                n,
            )[j],
        n > 0 ==> reported_counts(n).last() == n,
        forall|i: int| 0 <= i < reported_counts(n).len() ==> reported_counts(n)[i] <= n,
    decreases n,
{
    if n > 0 {
        law_progress_monotonic((n - 1) as nat);
        let prev = reported_counts((n - 1) as nat);
        let cur = reported_counts(n);
        assert(cur == prev + seq![(n - 1) as nat, n]);
        assert forall|i: int, j: int| 0 <= i <= j < cur.len() implies cur[i] <= cur[j] by {
            if j < prev.len() {
                assert(cur[i] == prev[i] && cur[j] == prev[j]);
            } else if i < prev.len() {
                assert(cur[i] == prev[i]);
            }
        }
        assert forall|i: int| 0 <= i < cur.len() implies cur[i] <= n by {
            if i < prev.len() {
                assert(cur[i] == prev[i]);
            }
        }
    }
}

// ---------------------------------------------------------------------------
// Format lists
// ---------------------------------------------------------------------------

/// A format's description as plain values.
pub open spec fn format_info_view(f: FormatInfo) -> (FileFormat, Seq<char>, Seq<Seq<char>>, FormatCategory) {
    (f.format, f.name@, f.extensions@.map_values(|e: String| e@), f.category)
}

/// The formats of a category, as the user interface lists them.
pub open spec fn supported_formats_spec(category: FormatCategory) -> Seq<
    (FileFormat, Seq<char>, Seq<Seq<char>>, FormatCategory),
> {
    match category {
        FormatCategory::Image => seq![
            (FileFormat::Png, "PNG"@, seq!["png"@], FormatCategory::Image),
            (FileFormat::Jpeg, "JPEG"@, seq!["jpg"@, "jpeg"@], FormatCategory::Image),
            (FileFormat::Webp, "WebP"@, seq!["webp"@], FormatCategory::Image),
            (FileFormat::Gif, "GIF"@, seq!["gif"@], FormatCategory::Image),
            (FileFormat::Bmp, "BMP"@, seq!["bmp"@], FormatCategory::Image),
            (FileFormat::Tiff, "TIFF"@, seq!["tiff"@, "tif"@], FormatCategory::Image),
            (FileFormat::Avif, "AVIF"@, seq!["avif"@], FormatCategory::Image),
            (FileFormat::Ico, "ICO"@, seq!["ico"@], FormatCategory::Image),
        ],
        FormatCategory::Text => seq![
            (FileFormat::Json, "JSON"@, seq!["json"@], FormatCategory::Text),
            (FileFormat::Yaml, "YAML"@, seq!["yaml"@, "yml"@], FormatCategory::Text),
            (FileFormat::Toml, "TOML"@, seq!["toml"@], FormatCategory::Text),
            (FileFormat::Xml, "XML"@, seq!["xml"@], FormatCategory::Text),
            (FileFormat::Csv, "CSV"@, seq!["csv"@], FormatCategory::Text),
            (FileFormat::Markdown, "Markdown"@, seq!["md"@, "markdown"@], FormatCategory::Text),
            (FileFormat::PlainText, "Plain Text"@, seq!["txt"@], FormatCategory::Text),
        ],
    }
}

/// Every extension listed for a format is plain lowercase ASCII, names that format, and
/// makes with a stem `f` a plain file name `f.<ext>` whose extension it is; so `detect_format`
/// finds the listed format for such a file.
pub proof fn law_listed_extensions_name_their_format(category: FormatCategory, i: int, j: int)
    requires
        0 <= i < supported_formats_spec(category).len(),
        0 <= j < supported_formats_spec(category)[i].2.len(),
    ensures
        ({
            let e = supported_formats_spec(category)[i].2[j];
            &&& is_lower_ascii(e)
            &&& is_ascii_chars(e)
            &&& ascii_lower(e) == e
            &&& format_of_extension(e) == Some(supported_formats_spec(category)[i].0)
            &&& is_plain_name(seq!['f', '.'] + e)
            &&& dot_split(seq!['f', '.'] + e) == (seq!['f'], Some(e))
        }),
{
    reveal_strlit("png");
    reveal_strlit("jpg");
    reveal_strlit("jpeg");
    reveal_strlit("webp");
    reveal_strlit("gif");
    reveal_strlit("bmp");
    reveal_strlit("tiff");
    reveal_strlit("tif");
    reveal_strlit("avif");
    reveal_strlit("ico");
    reveal_strlit("json");
    reveal_strlit("yaml");
    reveal_strlit("yml");
    reveal_strlit("toml");
    reveal_strlit("xml");
    reveal_strlit("csv");
    reveal_strlit("md");
    reveal_strlit("markdown");
    reveal_strlit("txt");
    assert("png"@[0] == 'p' && "png"@[1] == 'n');
    assert(format_of_extension("png"@) == Some(FileFormat::Png));
    assert("jpg"@[0] == 'j' && "jpg"@[1] == 'p');
    assert(format_of_extension("jpg"@) == Some(FileFormat::Jpeg));
    assert("jpeg"@[0] == 'j' && "jpeg"@[1] == 'p');
    assert(format_of_extension("jpeg"@) == Some(FileFormat::Jpeg));
    assert("webp"@[0] == 'w' && "webp"@[1] == 'e');
    assert(format_of_extension("webp"@) == Some(FileFormat::Webp));
    assert("gif"@[0] == 'g' && "gif"@[1] == 'i');
    assert(format_of_extension("gif"@) == Some(FileFormat::Gif));
    assert("bmp"@[0] == 'b' && "bmp"@[1] == 'm');
    assert(format_of_extension("bmp"@) == Some(FileFormat::Bmp));
    assert("tiff"@[0] == 't' && "tiff"@[1] == 'i');
    assert(format_of_extension("tiff"@) == Some(FileFormat::Tiff));
    assert("tif"@[0] == 't' && "tif"@[1] == 'i');
    assert(format_of_extension("tif"@) == Some(FileFormat::Tiff));
    assert("avif"@[0] == 'a' && "avif"@[1] == 'v');
    assert(format_of_extension("avif"@) == Some(FileFormat::Avif));
    assert("ico"@[0] == 'i' && "ico"@[1] == 'c');
    assert(format_of_extension("ico"@) == Some(FileFormat::Ico));
    assert("json"@[0] == 'j' && "json"@[1] == 's');
    assert(format_of_extension("json"@) == Some(FileFormat::Json));
    assert("yaml"@[0] == 'y' && "yaml"@[1] == 'a');
    assert(format_of_extension("yaml"@) == Some(FileFormat::Yaml));
    assert("yml"@[0] == 'y' && "yml"@[1] == 'm');
    assert(format_of_extension("yml"@) == Some(FileFormat::Yaml));
    assert("toml"@[0] == 't' && "toml"@[1] == 'o');
    assert(format_of_extension("toml"@) == Some(FileFormat::Toml));
    assert("xml"@[0] == 'x' && "xml"@[1] == 'm');
    assert(format_of_extension("xml"@) == Some(FileFormat::Xml));
    assert("csv"@[0] == 'c' && "csv"@[1] == 's');
    assert(format_of_extension("csv"@) == Some(FileFormat::Csv));
    assert("md"@[0] == 'm' && "md"@[1] == 'd');
    assert(format_of_extension("md"@) == Some(FileFormat::Markdown));
    assert("markdown"@[0] == 'm' && "markdown"@[1] == 'a');
    assert(format_of_extension("markdown"@) == Some(FileFormat::Markdown));
    assert("txt"@[0] == 't' && "txt"@[1] == 'x');
    assert(format_of_extension("txt"@) == Some(FileFormat::PlainText));
    let e = supported_formats_spec(category)[i].2[j];
    assert(is_lower_ascii(e));
    assert(ascii_lower(e) =~= e);
    lemma_dotted_name(e);
}

/// The extensions as texts: one, or two.
pub open spec fn exts_view(first: Seq<char>, second: Option<Seq<char>>) -> Seq<Seq<char>> {
    match second {
        Some(e) => seq![first, e],
        None => seq![first],
    }
}

/// One format's description.
fn info(format: FileFormat, name: &str, first: &str, second: Option<&str>, category: FormatCategory) -> (r: FormatInfo)
    ensures
        format_info_view(r) == (
            format,
            name@,
            exts_view(
                first@,
                match second {
                    Some(e) => Some(e@),
                    None => None,
                },
            ),
            category,
        ),
{
    let mut extensions: Vec<String> = Vec::new();
    extensions.push(first.to_owned());
    match second {
        Some(e) => {
            extensions.push(e.to_owned());
        },
        None => {},
    }
    let r = FormatInfo { format, name: name.to_owned(), extensions, category };
    assert(r.extensions@.map_values(|e: String| e@) =~= exts_view(
        first@,
        match second {
            Some(e) => Some(e@),
            None => None,
        },
    ));
    r
}

/// The formats of a category, with their names and extensions (see `supported_formats_spec`).
pub fn get_supported_formats(category: FormatCategory) -> (r: Vec<FormatInfo>)
    ensures
        r@.map_values(|f: FormatInfo| format_info_view(f)) == supported_formats_spec(category),
{
    let mut v: Vec<FormatInfo> = Vec::new();
    match category {
        FormatCategory::Image => {
            v.push(info(FileFormat::Png, "PNG", "png", None, FormatCategory::Image));
            v.push(info(FileFormat::Jpeg, "JPEG", "jpg", Some("jpeg"), FormatCategory::Image));
            v.push(info(FileFormat::Webp, "WebP", "webp", None, FormatCategory::Image));
            v.push(info(FileFormat::Gif, "GIF", "gif", None, FormatCategory::Image));
            v.push(info(FileFormat::Bmp, "BMP", "bmp", None, FormatCategory::Image));
            v.push(info(FileFormat::Tiff, "TIFF", "tiff", Some("tif"), FormatCategory::Image));
            v.push(info(FileFormat::Avif, "AVIF", "avif", None, FormatCategory::Image));
            v.push(info(FileFormat::Ico, "ICO", "ico", None, FormatCategory::Image));
        },
        FormatCategory::Text => {
            v.push(info(FileFormat::Json, "JSON", "json", None, FormatCategory::Text));
            v.push(info(FileFormat::Yaml, "YAML", "yaml", Some("yml"), FormatCategory::Text));
            v.push(info(FileFormat::Toml, "TOML", "toml", None, FormatCategory::Text));
            v.push(info(FileFormat::Xml, "XML", "xml", None, FormatCategory::Text));
            v.push(info(FileFormat::Csv, "CSV", "csv", None, FormatCategory::Text));
            v.push(info(FileFormat::Markdown, "Markdown", "md", Some("markdown"), FormatCategory::Text));
            v.push(info(FileFormat::PlainText, "Plain Text", "txt", None, FormatCategory::Text));
        },
    }
    assert(v@.map_values(|f: FormatInfo| format_info_view(f)) =~~= supported_formats_spec(category));
    v
}

// ---------------------------------------------------------------------------
// Output folders and disk space
// ---------------------------------------------------------------------------

/// What the user interface is told about an output folder: valid and writable when the
/// check passed; otherwise not writable, with the error's message, and still valid unless
/// the error is a permission error.
pub fn path_validation_of(check: Result<(), ConversionError>) -> (v: PathValidation)
    ensures
        match check {
            Ok(()) => v.is_valid && v.is_writable && v.error is None,
            Err(e) => v.is_valid == !(e is PermissionError) && !v.is_writable && (v.error matches Some(
                m,
            ) && m@ == crate::errors::error_message_spec(e)),
        },
{
    match check {
        Ok(()) => PathValidation { is_valid: true, is_writable: true, error: None },
        Err(e) => {
            let is_permission_error = match &e {
                ConversionError::PermissionError { .. } => true,
                _ => false,
            };
            PathValidation { is_valid: !is_permission_error, is_writable: false, error: Some(e.message()) }
        },
    }
}

/// Compares the bytes needed with the bytes free.
pub fn disk_space_check(required_bytes: u64, available_bytes: u64) -> (d: DiskSpaceCheck)
    ensures
        d.has_enough_space == (required_bytes <= available_bytes),
        d.required_bytes == required_bytes,
        d.available_bytes == available_bytes,
{
    DiskSpaceCheck {
        has_enough_space: required_bytes <= available_bytes,
        required_bytes,
        available_bytes,
    }
}

/// The size above which a file counts as large: the given number of MiB, 100 when none is
/// given.
pub fn large_file_threshold(threshold_mb: Option<u64>) -> (r: u64)
    requires
        match threshold_mb {
            Some(t) => t * 1048576 <= u64::MAX,
            None => true,
        },
    ensures
        r == match threshold_mb {
            Some(t) => t * 1048576,
            None => 104857600,
        },
{
    match threshold_mb {
        Some(t) => t * 1048576,
        None => 104857600,
    }
}

} // verus!

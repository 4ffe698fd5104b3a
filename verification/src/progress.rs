//! Progress, cancellation and errors of a slice job: the phases a job goes
//! through, a shared cancellation flag, the errors a job ends with, and the
//! throttling rule of the console progress reporter.

use std::sync::atomic::{AtomicBool, Ordering};
use std::sync::Arc;
use vstd::prelude::*;

verus! {

/// The phases of a slice job, in the order they run.
#[derive(Clone, Copy, Debug, PartialEq, Eq, Structural)]
pub enum SlicePhase {
    LoadModel,
    Voxelize,
    PropagateField,
    ExtractLayers,
    ClipLayers,
    GeneratePaths,
    WriteGcode,
}

/// A flag shared by the clones of one token: once any clone is cancelled,
/// all of them report it.
#[derive(Clone, Debug, Default)]
pub struct CancellationToken {
    cancelled: Arc<AtomicBool>,
}

impl CancellationToken {
    /// Raises the shared flag.
    pub fn cancel(&self) {
        self.cancelled.store(true, Ordering::SeqCst);
    }

    /// Whether any clone of this token has been cancelled. The flag is
    /// shared between threads, so nothing is promised of the answer.
    pub fn is_cancelled(&self) -> bool {
        self.cancelled.load(Ordering::SeqCst)
    }
}

#[verifier::external_type_specification]
#[verifier::external_body]
pub struct ExIoError(std::io::Error);

/// Why a slice job stopped.
#[derive(Debug)]
pub enum SliceError {
    Cancelled,
    Io(std::io::Error),
    Message(String),
}

/// `io::Error`'s `Display` text; nothing is stated of it.
#[verifier::external_body]
fn io_error_text(error: &std::io::Error) -> String {
    error.to_string()
}

impl SliceError {
    /// The human-readable description of the error: a fixed sentence for a
    /// cancellation, the message itself for a message, and the I/O error's
    /// own text for an I/O error.
    pub fn message(&self) -> (r: String)
        ensures
            *self is Cancelled ==> r@ == "slicing was cancelled"@,
            *self matches SliceError::Message(m) ==> r@ == m@,
    {
        match self {
            SliceError::Cancelled => String::from_str("slicing was cancelled"),
            SliceError::Io(error) => io_error_text(error),
            SliceError::Message(message) => message.clone(),
        }
    }
}

impl From<String> for SliceError {
    fn from(error: String) -> (r: Self) {
        SliceError::Message(error)
    }
}

impl vstd::std_specs::convert::FromSpecImpl<String> for SliceError {
    open spec fn obeys_from_spec() -> bool {
        true
    }

    open spec fn from_spec(v: String) -> SliceError {
        SliceError::Message(v)
    }
}

/// What a cancellation check answers once the token has been read:
/// `Err(Cancelled)` when it reported a cancellation, `Ok` otherwise.
pub fn cancellation_outcome(cancelled: bool) -> (r: Result<(), SliceError>)
    ensures
        cancelled ==> r matches Err(SliceError::Cancelled),
        !cancelled ==> r is Ok,
{
    if cancelled {
        Err(SliceError::Cancelled)
    } else {
        Ok(())
    }
}

/// Stops a job that has been cancelled: `Err(Cancelled)` when the token
/// reports a cancellation, `Ok` otherwise. The token is shared with other
/// threads, so which of the two comes back is decided by the flag at the
/// moment it is read (see `cancellation_outcome`).
pub fn check_cancelled(cancellation: &CancellationToken) -> (r: Result<(), SliceError>)
    ensures
        r matches Err(e) ==> e is Cancelled,
{
    cancellation_outcome(cancellation.is_cancelled())
}

/// Receives the progress of a field propagation: how many of the occupied
/// voxels have been reached so far, and when the propagation ends.
pub trait PropagationProgress {
    fn update(&mut self, reached: usize, total: usize);

    fn finish(&mut self, reached: usize, total: usize);
}

/// The line a console progress reporter prints for one update.
#[derive(Clone, Copy, Debug, PartialEq, Eq, Structural)]
pub enum ProgressLine {
    /// Nothing is printed.
    Quiet,
    /// There was nothing to reach: `<label>: 100.0% (0 / 0)`.
    NothingToReach,
    /// The share reached: `<label>: <percent>% (<reached> / <total>)`.
    Reached,
}

/// The console progress reporter's throttling state: the percentage at
/// which it prints next.
#[derive(Clone, Debug)]
pub struct StderrProgress {
    pub label: &'static str,
    pub next_percent: usize,
}

/// The reporter's state and line after an update with `reached` of `total`
/// voxels, when `interval_elapsed` says whether the print interval has passed
/// since the last printed line.
pub open spec fn progress_step(next_percent: usize, reached: usize, total: usize, interval_elapsed: bool) -> (
    usize,
    ProgressLine,
) {
    if total == 0 {
        if reached == 0 && next_percent == 0 {
            (101, ProgressLine::NothingToReach)
        } else {
            (next_percent, ProgressLine::Quiet)
        }
    } else {
        let percent = (reached as int) * 100 / (total as int);
        if percent >= next_percent || reached == total || interval_elapsed {
            (if percent + 5 > usize::MAX { usize::MAX } else { (percent + 5) as usize }, ProgressLine::Reached)
        } else {
            (next_percent, ProgressLine::Quiet)
        }
    }
}

impl StderrProgress {
    /// A reporter that prints its first update.
    pub fn new(label: &'static str) -> (r: Self)
        ensures
            r.label == label,
            r.next_percent == 0,
    {
        StderrProgress { label, next_percent: 0 }
    }

    /// Decides whether an update is printed: always the first report of an
    /// empty propagation, and otherwise when the share reached has passed the
    /// next five-percent mark, when everything is reached, or when the print
    /// interval has passed. A printed share moves the next mark five percent
    /// beyond it.
    pub fn update(&mut self, reached: usize, total: usize, interval_elapsed: bool) -> (r: ProgressLine)
        requires
            reached * 100 <= usize::MAX,
        ensures
            final(self).label == old(self).label,
            (final(self).next_percent, r) == progress_step(old(self).next_percent, reached, total, interval_elapsed),
    {
        if total == 0 {
            if reached == 0 && self.next_percent == 0 {
                self.next_percent = 101;
                return ProgressLine::NothingToReach;
            }
            return ProgressLine::Quiet;
        }
        let percent = reached * 100 / total;
        if percent >= self.next_percent || reached == total || interval_elapsed {
            self.next_percent = percent.saturating_add(5);
            ProgressLine::Reached
        } else {
            ProgressLine::Quiet
        }
    }
}

/// Completion is always reported: an update in which every voxel has been
/// reached prints its line, whatever the throttling state.
pub proof fn lemma_completion_reported(next_percent: usize, total: usize, interval_elapsed: bool)
    requires
        total > 0,
    ensures
        progress_step(next_percent, total, total, interval_elapsed).1 == ProgressLine::Reached,
{
}

/// Printing is throttled: right after a printed update, an update at the
/// same, incomplete share stays quiet until the print interval has passed.
pub proof fn lemma_repeat_is_quiet(next_percent: usize, reached: usize, total: usize, interval_elapsed: bool)
    requires
        reached < total,
        progress_step(next_percent, reached, total, interval_elapsed).1 == ProgressLine::Reached,
    ensures
        progress_step(progress_step(next_percent, reached, total, interval_elapsed).0, reached, total, false).1
            == ProgressLine::Quiet,
{
    let percent = (reached as int) * 100 / (total as int);
    assert(percent <= 100) by (nonlinear_arith)
        requires
            reached < total,
            percent == (reached as int) * 100 / (total as int),
    ;
}

/// An empty propagation is reported once: its first update prints the
/// empty line, and the next one is quiet.
pub proof fn lemma_empty_reported_once(interval_elapsed: bool)
    ensures
        progress_step(0, 0, 0, interval_elapsed) == (101usize, ProgressLine::NothingToReach),
        progress_step(101, 0, 0, interval_elapsed).1 == ProgressLine::Quiet,
{
}

} // verus!

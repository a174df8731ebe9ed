//! The snapshot that was accepted last.
//!
//! It lies in one file, as the snapshot text and nothing else. The caller
//! reads and writes the file; what the outcome means is settled here. A file
//! that does not exist yet stands for the empty snapshot; any other failure
//! is an error.

use vstd::prelude::*;

verus! {

/// The name of the file that holds the snapshot.
pub const SAVED_FILE: &'static str = "past_results.txt";

/// Why the snapshot could not be read or written.
#[derive(Clone, Copy, Debug, PartialEq, Eq, Structural)]
pub enum PersistenceError {
    ReadFailed,
    WriteFailed,
}

/// What reading the file gave.
#[derive(Debug, PartialEq, Eq)]
pub enum ReadOutcome {
    /// The text of the file.
    Text(String),
    /// There is no such file.
    Missing,
    /// The file could not be read.
    Failed,
}

/// What reading the file gave, as contracts see it.
pub enum ReadOutcomeView {
    Text(Seq<char>),
    Missing,
    Failed,
}

impl View for ReadOutcome {
    type V = ReadOutcomeView;

    open spec fn view(&self) -> ReadOutcomeView {
        match self {
            ReadOutcome::Text(text) => ReadOutcomeView::Text(text@),
            ReadOutcome::Missing => ReadOutcomeView::Missing,
            ReadOutcome::Failed => ReadOutcomeView::Failed,
        }
    }
}

/// What writing the file gave.
#[derive(Clone, Copy, Debug, PartialEq, Eq, Structural)]
pub enum WriteOutcome {
    Written,
    Failed,
}

/// The snapshot that a read stands for: the text of the file as it is, the
/// empty text where there is no file.
pub open spec fn loaded_text(outcome: ReadOutcomeView) -> Result<Seq<char>, PersistenceError> {
    match outcome {
        ReadOutcomeView::Text(text) => Ok(text),
        ReadOutcomeView::Missing => Ok(Seq::empty()),
        ReadOutcomeView::Failed => Err(PersistenceError::ReadFailed),
    }
}

/// The snapshot that a read stands for.
pub fn loaded(outcome: ReadOutcome) -> (r: Result<String, PersistenceError>)
    ensures
        match r {
            Ok(text) => loaded_text(outcome@) == Ok::<Seq<char>, PersistenceError>(text@),
            Err(e) => loaded_text(outcome@) == Err::<Seq<char>, PersistenceError>(e),
        },
{
    match outcome {
        ReadOutcome::Text(text) => Ok(text),
        ReadOutcome::Missing => Ok(String::new()),
        ReadOutcome::Failed => Err(PersistenceError::ReadFailed),
    }
}

/// Whether a write went through.
pub fn saved(outcome: WriteOutcome) -> (r: Result<(), PersistenceError>)
    ensures
        r == match outcome {
            WriteOutcome::Written => Ok::<(), PersistenceError>(()),
            WriteOutcome::Failed => Err::<(), PersistenceError>(PersistenceError::WriteFailed),
        },
{
    match outcome {
        WriteOutcome::Written => Ok(()),
        WriteOutcome::Failed => Err(PersistenceError::WriteFailed),
    }
}

} // verus!

//! What the service asks of its surroundings, and what they answer.
use crate::clock::{Timestamp, TimestampView};
use crate::error::{internal, ApiError, ApiErrorView, HttpStatus};
use crate::path::UnixPath;
use crate::text::{concat4, texts};
use vstd::prelude::*;

verus! {

/// Why an operation failed.
#[derive(Debug)]
pub struct IoFailure {
    /// The thing that was operated on does not exist.
    pub not_found: bool,
    pub message: String,
}

/// Why an operation failed, as a value of the model.
pub struct IoFailureView {
    pub not_found: bool,
    pub message: Seq<char>,
}

impl View for IoFailure {
    type V = IoFailureView;

    open spec fn view(&self) -> IoFailureView {
        IoFailureView { not_found: self.not_found, message: self.message@ }
    }
}

/// What is known of a file.
#[derive(Debug)]
pub struct FileMetadata {
    pub len: u64,
    /// When the file was last modified, where that is known.
    pub modified: Option<Timestamp>,
}

/// What is known of a file, as a value of the model.
pub struct FileMetadataView {
    pub len: u64,
    pub modified: Option<TimestampView>,
}

impl View for FileMetadata {
    type V = FileMetadataView;

    open spec fn view(&self) -> FileMetadataView {
        FileMetadataView {
            len: self.len,
            modified: match self.modified {
                Some(time) => Some(time@),
                None => None,
            },
        }
    }
}

/// What a program left behind.
#[derive(Debug)]
pub struct CommandOutput {
    pub success: bool,
    pub exit_code: Option<i32>,
    pub stdout: Vec<u8>,
    pub stderr: Vec<u8>,
}

/// What a program left behind, as a value of the model.
pub struct CommandOutputView {
    pub success: bool,
    pub exit_code: Option<i32>,
    pub stdout: Seq<u8>,
    pub stderr: Seq<u8>,
}

impl View for CommandOutput {
    type V = CommandOutputView;

    open spec fn view(&self) -> CommandOutputView {
        CommandOutputView {
            success: self.success,
            exit_code: self.exit_code,
            stdout: self.stdout@,
            stderr: self.stderr@,
        }
    }
}

/// An operation on the surroundings.
#[derive(Debug)]
pub enum Action {
    /// Ask whether something exists.
    CheckExists { path: UnixPath },
    /// Create a directory and those that hold it.
    CreateDirs { path: UnixPath },
    /// Read the clock.
    ReadClock,
    /// Copy a file.
    CopyFile { from: UnixPath, to: UnixPath },
    /// Read a whole file.
    ReadFile { path: UnixPath },
    /// Write a whole file.
    WriteFile { path: UnixPath, contents: Vec<u8> },
    /// Delete a file.
    RemoveFile { path: UnixPath },
    /// Ask for what is known of a file.
    ReadMetadata { path: UnixPath },
    /// Start to list a directory.
    OpenDir { path: UnixPath },
    /// Ask for the next entry of the directory that is being listed.
    NextEntry,
    /// Ask whether an entry of the directory that is being listed is a file.
    CheckIsFile { path: UnixPath },
    /// Run a program to its end.
    RunProgram { program: String, args: Vec<String> },
    /// Request a URL, up to the status of the response.
    Fetch { url: String },
    /// Read the rest of the response.
    ReadBody,
}

/// An operation on the surroundings, as a value of the model.
pub enum ActionView {
    CheckExists { path: Seq<u8> },
    CreateDirs { path: Seq<u8> },
    ReadClock,
    CopyFile { from: Seq<u8>, to: Seq<u8> },
    ReadFile { path: Seq<u8> },
    WriteFile { path: Seq<u8>, contents: Seq<u8> },
    RemoveFile { path: Seq<u8> },
    ReadMetadata { path: Seq<u8> },
    OpenDir { path: Seq<u8> },
    NextEntry,
    CheckIsFile { path: Seq<u8> },
    RunProgram { program: Seq<char>, args: Seq<Seq<char>> },
    Fetch { url: Seq<char> },
    ReadBody,
}

impl View for Action {
    type V = ActionView;

    open spec fn view(&self) -> ActionView {
        match *self {
            Action::CheckExists { path } => ActionView::CheckExists { path: path@ },
            Action::CreateDirs { path } => ActionView::CreateDirs { path: path@ },
            Action::ReadClock => ActionView::ReadClock,
            Action::CopyFile { from, to } => ActionView::CopyFile { from: from@, to: to@ },
            Action::ReadFile { path } => ActionView::ReadFile { path: path@ },
            Action::WriteFile { path, contents } => ActionView::WriteFile {
                path: path@,
                contents: contents@,
            },
            Action::RemoveFile { path } => ActionView::RemoveFile { path: path@ },
            Action::ReadMetadata { path } => ActionView::ReadMetadata { path: path@ },
            Action::OpenDir { path } => ActionView::OpenDir { path: path@ },
            Action::NextEntry => ActionView::NextEntry,
            Action::CheckIsFile { path } => ActionView::CheckIsFile { path: path@ },
            Action::RunProgram { program, args } => ActionView::RunProgram {
                program: program@,
                args: texts(args@),
            },
            Action::Fetch { url } => ActionView::Fetch { url: url@ },
            Action::ReadBody => ActionView::ReadBody,
        }
    }
}

/// The answer to an operation.
#[derive(Debug)]
pub enum Event {
    /// Whether something exists, or is a file.
    Found(Result<bool, IoFailure>),
    /// Something was done.
    Done(Result<(), IoFailure>),
    /// The time on the clock.
    Time(Timestamp),
    /// The contents of a file, or the rest of a response.
    Contents(Result<Vec<u8>, IoFailure>),
    /// What is known of a file.
    Metadata(Result<FileMetadata, IoFailure>),
    /// The next entry of a directory, if there is one.
    Entry(Result<Option<UnixPath>, IoFailure>),
    /// What a program left behind.
    Output(Result<CommandOutput, IoFailure>),
    /// The status of a response.
    Status(Result<HttpStatus, IoFailure>),
}

/// The answer to an operation, as a value of the model.
pub enum EventView {
    Found(Result<bool, IoFailureView>),
    Done(Result<(), IoFailureView>),
    Time(TimestampView),
    Contents(Result<Seq<u8>, IoFailureView>),
    Metadata(Result<FileMetadataView, IoFailureView>),
    Entry(Result<Option<Seq<u8>>, IoFailureView>),
    Output(Result<CommandOutputView, IoFailureView>),
    Status(Result<u16, IoFailureView>),
}

impl View for Event {
    type V = EventView;

    open spec fn view(&self) -> EventView {
        match *self {
            Event::Found(r) => EventView::Found(
                match r {
                    Ok(found) => Ok(found),
                    Err(failure) => Err(failure@),
                },
            ),
            Event::Done(r) => EventView::Done(
                match r {
                    Ok(done) => Ok(done),
                    Err(failure) => Err(failure@),
                },
            ),
            Event::Time(time) => EventView::Time(time@),
            Event::Contents(r) => EventView::Contents(
                match r {
                    Ok(contents) => Ok(contents@),
                    Err(failure) => Err(failure@),
                },
            ),
            Event::Metadata(r) => EventView::Metadata(
                match r {
                    Ok(metadata) => Ok(metadata@),
                    Err(failure) => Err(failure@),
                },
            ),
            Event::Entry(r) => EventView::Entry(
                match r {
                    Ok(Some(path)) => Ok(Some(path@)),
                    Ok(None) => Ok(None),
                    Err(failure) => Err(failure@),
                },
            ),
            Event::Output(r) => EventView::Output(
                match r {
                    Ok(output) => Ok(output@),
                    Err(failure) => Err(failure@),
                },
            ),
            Event::Status(r) => EventView::Status(
                match r {
                    Ok(status) => Ok(status@),
                    Err(failure) => Err(failure@),
                },
            ),
        }
    }
}

/// What a piece of work does next: perform an operation and go on with its answer, or end.
#[derive(Debug)]
pub enum Step<A, S, R, E> {
    /// Perform `action`, and hand its answer to `state`.
    Perform { action: A, state: S },
    /// The work is done.
    Finish { response: R },
    /// The work cannot be done.
    Fail { error: E },
}

impl<A: View, S: View, R: View, E: View> View for Step<A, S, R, E> {
    type V = Step<A::V, S::V, R::V, E::V>;

    open spec fn view(&self) -> Step<A::V, S::V, R::V, E::V> {
        match *self {
            Step::Perform { action, state } => Step::Perform { action: action@, state: state@ },
            Step::Finish { response } => Step::Finish { response: response@ },
            Step::Fail { error } => Step::Fail { error: error@ },
        }
    }
}

/// How the failure of an operation on `subject` is reported.
pub open spec fn failure_text(
    what: Seq<char>,
    subject: Seq<char>,
    failure: IoFailureView,
) -> Seq<char> {
    what + subject + ": "@ + failure.message
}

/// Reports the failure of an operation on `subject`.
pub fn describe_failure(what: &str, subject: &str, failure: &IoFailure) -> (r: String)
    ensures
        r@ == failure_text(what@, subject@, failure@),
{
    concat4(what, subject, ": ", failure.message.as_str())
}

/// The report of an answer that does not belong to the operation that was asked for.
pub open spec fn unexpected() -> ApiErrorView {
    internal("unexpected answer"@)
}

/// Reports an answer that does not belong to the operation that was asked for.
pub fn report_unexpected() -> (r: ApiError)
    ensures
        r@ == unexpected(),
{
    ApiError::internal("unexpected answer".to_owned())
}

/// A failure is told in full: what was tried, on what, and why it failed, in this order.
pub proof fn law_failures_are_told_in_full(
    what: Seq<char>,
    subject: Seq<char>,
    failure: IoFailureView,
)
    ensures
        (what + subject).is_prefix_of(failure_text(what, subject, failure)),
        failure_text(what, subject, failure).skip((what + subject).len() as int) == ": "@
            + failure.message,
{
    let text = failure_text(what, subject, failure);
    let front = what + subject;
    assert(text.subrange(0, front.len() as int) =~= front);
    assert(text.skip(front.len() as int) =~= ": "@ + failure.message);
}

} // verus!

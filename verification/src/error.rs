//! How a command ends, and what can go wrong on the way.

use vstd::prelude::*;

verus! {

/// The view of an [`Outcome`].
pub enum OutcomeView {
    Exited(Option<i32>),
    NotStarted(Seq<char>),
}

/// How the execution of a command line ended.
#[derive(PartialEq, Eq, Debug)]
pub enum Outcome {
    /// The process ran and ended, with this exit code where it left one.
    Exited(Option<i32>),
    /// The process could not be started; the text says why.
    NotStarted(String),
}

impl View for Outcome {
    type V = OutcomeView;

    open spec fn view(&self) -> OutcomeView {
        match *self {
            Outcome::Exited(code) => OutcomeView::Exited(code),
            Outcome::NotStarted(reason) => OutcomeView::NotStarted(reason@),
        }
    }
}

impl OutcomeView {
    /// A command succeeded where its process ran and ended with exit code 0.
    pub open spec fn succeeded(self) -> bool {
        self == OutcomeView::Exited(Some(0i32))
    }
}

impl Outcome {
    /// Whether the command succeeded.
    pub fn succeeded(&self) -> (succeeded: bool)
        ensures
            succeeded == self@.succeeded(),
    {
        match self {
            Outcome::Exited(Some(code)) => *code == 0,
            _ => false,
        }
    }
}

/// The view of an [`StmError`].
pub enum StmErrorView {
    ConfigRead(Seq<char>),
    ConfigParse(Seq<char>),
    UnknownManager(Seq<char>),
    Execution(OutcomeView),
}

/// The failures that end an invocation.
#[derive(PartialEq, Eq, Debug)]
pub enum StmError {
    /// The configuration file is missing or cannot be read; the text says why.
    ConfigRead(String),
    /// The configuration does not follow the schema; the text says why.
    ConfigParse(String),
    /// A requested manager, of this name, is not in the configuration.
    UnknownManager(String),
    /// A command could not be started or did not succeed.
    Execution(Outcome),
}

impl View for StmError {
    type V = StmErrorView;

    open spec fn view(&self) -> StmErrorView {
        match *self {
            StmError::ConfigRead(reason) => StmErrorView::ConfigRead(reason@),
            StmError::ConfigParse(reason) => StmErrorView::ConfigParse(reason@),
            StmError::UnknownManager(name) => StmErrorView::UnknownManager(name@),
            StmError::Execution(outcome) => StmErrorView::Execution(outcome@),
        }
    }
}

impl StmErrorView {
    /// The diagnostic shown for the failure.
    pub open spec fn message(self) -> Seq<char> {
        match self {
            StmErrorView::ConfigRead(reason) => "error while reading config: "@ + reason,
            StmErrorView::ConfigParse(reason) => "error while parsing config: "@ + reason,
            StmErrorView::UnknownManager(name) => "invalid manager "@ + name,
            StmErrorView::Execution(OutcomeView::NotStarted(reason)) =>
                "failed to execute process: "@ + reason,
            StmErrorView::Execution(OutcomeView::Exited(_)) => "failed to execute process"@,
        }
    }
}

impl StmError {
    /// The diagnostic shown for the failure.
    pub fn message(&self) -> (message: String)
        ensures
            message@ == self@.message(),
    {
        match self {
            StmError::ConfigRead(reason) => String::from_str("error while reading config: ").concat(
                reason.as_str(),
            ),
            StmError::ConfigParse(reason) => String::from_str(
                "error while parsing config: ",
            ).concat(reason.as_str()),
            StmError::UnknownManager(name) => String::from_str("invalid manager ").concat(
                name.as_str(),
            ),
            StmError::Execution(Outcome::NotStarted(reason)) => String::from_str(
                "failed to execute process: ",
            ).concat(reason.as_str()),
            StmError::Execution(Outcome::Exited(_)) => String::from_str("failed to execute process"),
        }
    }
}

} // verus!

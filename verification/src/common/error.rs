//! The error kinds of the engine.

use vstd::prelude::*;
use vstd::string::*;

verus! {

/// Why an operation of the engine did not succeed.
#[derive(Debug, Clone, PartialEq, Eq)]
pub enum NatureError {
    /// The caller's input is malformed. Nothing was created.
    VerifyError(String),
    /// The input can never be processed: the task goes to the error table and
    /// is not retried.
    LogicalError(String),
    /// A collaborator was unreachable: the task stays in the log and is
    /// scheduled again later.
    EnvError(String),
    /// The engine itself cannot carry the value, such as a task body over the
    /// size limit.
    SystemError(String),
    /// The key is already stored. Expected when a task is replayed.
    Duplicated,
    /// The mission has no work to do. Not a failure.
    Break,
    /// The last state of the target lacks a state that the relation demands.
    TargetInstanceNotIncludeStatus(String),
    /// The last state of the target holds a state that the relation forbids.
    TargetInstanceContainsExcludeStatus(String),
}

/// The kinds of [`NatureError`] without their messages.
#[derive(Debug, Clone, Copy, PartialEq, Eq, Structural)]
pub enum ErrorKind {
    Verify,
    Logical,
    Env,
    System,
    Duplicated,
    Break,
    NotIncludeStatus,
    ContainsExcludeStatus,
}

/// The mathematical content of a [`NatureError`].
pub struct NatureErrorView {
    pub kind: ErrorKind,
    pub message: Seq<char>,
}

impl View for NatureError {
    type V = NatureErrorView;

    open spec fn view(&self) -> NatureErrorView {
        NatureErrorView { kind: self.kind_spec(), message: self.message() }
    }
}

impl NatureError {
    /// The kind of this error.
    pub open spec fn kind_spec(&self) -> ErrorKind {
        match self {
            NatureError::VerifyError(_) => ErrorKind::Verify,
            NatureError::LogicalError(_) => ErrorKind::Logical,
            NatureError::EnvError(_) => ErrorKind::Env,
            NatureError::SystemError(_) => ErrorKind::System,
            NatureError::Duplicated => ErrorKind::Duplicated,
            NatureError::Break => ErrorKind::Break,
            NatureError::TargetInstanceNotIncludeStatus(_) => ErrorKind::NotIncludeStatus,
            NatureError::TargetInstanceContainsExcludeStatus(_) => ErrorKind::ContainsExcludeStatus,
        }
    }

    /// The message carried by this error; empty where the kind has none.
    pub open spec fn message(&self) -> Seq<char> {
        match self {
            NatureError::VerifyError(m) => m@,
            NatureError::LogicalError(m) => m@,
            NatureError::EnvError(m) => m@,
            NatureError::SystemError(m) => m@,
            NatureError::Duplicated => Seq::empty(),
            NatureError::Break => Seq::empty(),
            NatureError::TargetInstanceNotIncludeStatus(m) => m@,
            NatureError::TargetInstanceContainsExcludeStatus(m) => m@,
        }
    }

    /// The kind of this error.
    #[verifier::when_used_as_spec(kind_spec)]
    pub fn kind(&self) -> (k: ErrorKind)
        ensures
            k == self.kind_spec(),
    {
        match self {
            NatureError::VerifyError(_) => ErrorKind::Verify,
            NatureError::LogicalError(_) => ErrorKind::Logical,
            NatureError::EnvError(_) => ErrorKind::Env,
            NatureError::SystemError(_) => ErrorKind::System,
            NatureError::Duplicated => ErrorKind::Duplicated,
            NatureError::Break => ErrorKind::Break,
            NatureError::TargetInstanceNotIncludeStatus(_) => ErrorKind::NotIncludeStatus,
            NatureError::TargetInstanceContainsExcludeStatus(_) => ErrorKind::ContainsExcludeStatus,
        }
    }

    /// The error written out: the name of its kind, then a colon and the
    /// message where it carries one.
    pub open spec fn text(&self) -> Seq<char> {
        match self {
            NatureError::VerifyError(m) => "VerifyError: "@ + m@,
            NatureError::LogicalError(m) => "LogicalError: "@ + m@,
            NatureError::EnvError(m) => "EnvError: "@ + m@,
            NatureError::SystemError(m) => "SystemError: "@ + m@,
            NatureError::Duplicated => "Duplicated"@,
            NatureError::Break => "Break"@,
            NatureError::TargetInstanceNotIncludeStatus(m) => "TargetInstanceNotIncludeStatus: "@
                + m@,
            NatureError::TargetInstanceContainsExcludeStatus(m) =>
                "TargetInstanceContainsExcludeStatus: "@ + m@,
        }
    }

    /// Writes the error out for a reader.
    pub fn to_text(&self) -> (s: String)
        ensures
            s@ == self.text(),
    {
        match self {
            NatureError::VerifyError(m) => "VerifyError: ".to_owned().concat(m.as_str()),
            NatureError::LogicalError(m) => "LogicalError: ".to_owned().concat(m.as_str()),
            NatureError::EnvError(m) => "EnvError: ".to_owned().concat(m.as_str()),
            NatureError::SystemError(m) => "SystemError: ".to_owned().concat(m.as_str()),
            NatureError::Duplicated => "Duplicated".to_owned(),
            NatureError::Break => "Break".to_owned(),
            NatureError::TargetInstanceNotIncludeStatus(m) => {
                "TargetInstanceNotIncludeStatus: ".to_owned().concat(m.as_str())
            },
            NatureError::TargetInstanceContainsExcludeStatus(m) => {
                "TargetInstanceContainsExcludeStatus: ".to_owned().concat(m.as_str())
            },
        }
    }

    /// The status with which an ingress over HTTP answers a request that
    /// failed with an error of this kind.
    pub open spec fn status_of(kind: ErrorKind) -> u16 {
        match kind {
            ErrorKind::Verify => 400,
            ErrorKind::Env => 503,
            _ => 500,
        }
    }

    /// The status with which an ingress over HTTP answers a request that
    /// failed with this error: 400 for malformed input, 503 for an
    /// unreachable collaborator, 500 for everything else.
    pub fn http_status(&self) -> (code: u16)
        ensures
            code == Self::status_of(self.kind()),
    {
        match self {
            NatureError::VerifyError(_) => 400,
            NatureError::EnvError(_) => 503,
            _ => 500,
        }
    }

    /// A copy with the same kind and message.
    pub fn duplicate(&self) -> (r: NatureError)
        ensures
            r@ == self@,
    {
        match self {
            NatureError::VerifyError(m) => NatureError::VerifyError(m.clone()),
            NatureError::LogicalError(m) => NatureError::LogicalError(m.clone()),
            NatureError::EnvError(m) => NatureError::EnvError(m.clone()),
            NatureError::SystemError(m) => NatureError::SystemError(m.clone()),
            NatureError::Duplicated => NatureError::Duplicated,
            NatureError::Break => NatureError::Break,
            NatureError::TargetInstanceNotIncludeStatus(m) => {
                NatureError::TargetInstanceNotIncludeStatus(m.clone())
            },
            NatureError::TargetInstanceContainsExcludeStatus(m) => {
                NatureError::TargetInstanceContainsExcludeStatus(m.clone())
            },
        }
    }
}

} // verus!

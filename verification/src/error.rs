//! The error taxonomy of the reconciliation pipeline.
//!
//! Every stage reports its failure through one of these variants; the
//! pipeline stops at the first failing stage.

use vstd::prelude::*;
use vstd::string::StringExecFns;

verus! {

/// A failure of one stage of the pipeline.
#[derive(Debug, PartialEq)]
pub enum Error {
    /// The source object carries no usable pod or job template.
    MissingTemplate,
    /// The container list drifted between extraction and merge-back: at one
    /// position the template holds `expected` while the edited set holds
    /// `got` (or nothing).
    ContainerMismatch { expected: String, got: Option<String> },
    /// No container of the template carries the requested name.
    ContainerNotFound { name: String },
    /// A job with the derived name is already present in the cluster.
    AlreadyExists { name: String },
    /// The interactive collaborator aborted the run.
    UserCancelled,
    /// The external create call failed.
    SubmissionFailed { reason: String },
}

impl Error {
    /// The characters of the message that `message` renders.
    pub open spec fn message_view(self) -> Seq<char> {
        match self {
            Error::MissingTemplate => "unable to find the pod spec of the job"@,
            Error::ContainerMismatch { expected, .. } => {
                "container list drifted: expected container "@ + expected@
            },
            Error::ContainerNotFound { name } => "unable to get the targeted container "@ + name@,
            Error::AlreadyExists { name } => "a job with the same name already exists: "@ + name@,
            Error::UserCancelled => "operation cancelled by the user"@,
            Error::SubmissionFailed { reason } => "unable to create the job: "@ + reason@,
        }
    }

    /// A human-readable description of the failure, with the failing
    /// object's name where one is known.
    pub fn message(&self) -> (r: String)
        ensures
            r@ == self.message_view(),
    {
        match self {
            Error::MissingTemplate => "unable to find the pod spec of the job".to_owned(),
            Error::ContainerMismatch { expected, .. } => {
                let mut s = "container list drifted: expected container ".to_owned();
                s.append(expected.as_str());
                s
            },
            Error::ContainerNotFound { name } => {
                let mut s = "unable to get the targeted container ".to_owned();
                s.append(name.as_str());
                s
            },
            Error::AlreadyExists { name } => {
                let mut s = "a job with the same name already exists: ".to_owned();
                s.append(name.as_str());
                s
            },
            Error::UserCancelled => "operation cancelled by the user".to_owned(),
            Error::SubmissionFailed { reason } => {
                let mut s = "unable to create the job: ".to_owned();
                s.append(reason.as_str());
                s
            },
        }
    }
}

} // verus!

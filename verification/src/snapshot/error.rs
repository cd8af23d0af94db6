//! Why a snapshot could not be taken.

use vstd::prelude::*;
use crate::new::NewError;
use crate::tmux::target::CommonError;

verus! {

/// The I/O and JSON failures carry the message of the error that caused them.
#[derive(Debug)]
pub enum SnapshotError {
    Common(CommonError),
    Io(String),
    New(NewError),
    SerdeJson(String),
    SessionTargetRequired,
    ToPaneFailed,
    ToWindowFailed,
}

impl SnapshotError {
    /// The message reported for the error.
    pub fn message(&self) -> (s: String)
        ensures
            match self {
                SnapshotError::Io(m) => s@ == m@,
                SnapshotError::SerdeJson(m) => s@ == m@,
                SnapshotError::Common(e) => s@ == e.message_spec(),
                SnapshotError::New(e) => s@ == e.message_spec(),
                SnapshotError::SessionTargetRequired => s@ == "No TMUX session was provided"@,
                SnapshotError::ToPaneFailed => s@ == "Failed to create pane from snapshot"@,
                SnapshotError::ToWindowFailed => s@ == "Failed to create window from snapshot"@,
            },
    {
        match self {
            SnapshotError::Common(e) => e.message(),
            SnapshotError::Io(m) => m.clone(),
            SnapshotError::New(e) => e.message(),
            SnapshotError::SerdeJson(m) => m.clone(),
            SnapshotError::SessionTargetRequired => String::from_str("No TMUX session was provided"),
            SnapshotError::ToPaneFailed => String::from_str("Failed to create pane from snapshot"),
            SnapshotError::ToWindowFailed => String::from_str("Failed to create window from snapshot"),
        }
    }
}


impl From<CommonError> for SnapshotError {
    fn from(err: CommonError) -> (r: SnapshotError) {
        SnapshotError::Common(err)
    }
}

impl vstd::std_specs::convert::FromSpecImpl<CommonError> for SnapshotError {
    open spec fn obeys_from_spec() -> bool {
        true
    }

    open spec fn from_spec(err: CommonError) -> SnapshotError {
        SnapshotError::Common(err)
    }
}

impl From<NewError> for SnapshotError {
    fn from(err: NewError) -> (r: SnapshotError) {
        SnapshotError::New(err)
    }
}

impl vstd::std_specs::convert::FromSpecImpl<NewError> for SnapshotError {
    open spec fn obeys_from_spec() -> bool {
        true
    }

    open spec fn from_spec(err: NewError) -> SnapshotError {
        SnapshotError::New(err)
    }
}

} // verus!

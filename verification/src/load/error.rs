//! Why a session could not be planned.

use vstd::prelude::*;
use crate::tmux::target::CommonError;

verus! {

#[derive(Debug)]
pub enum InterpreterError {
    Enrichment,
    Plan,
    Common(CommonError),
    SessionNameRequired,
    SessionTargetRequired,
    WindowTargetRequired,
    PaneTargetRequired,
}

impl InterpreterError {
    /// The message reported for the error.
    pub fn message(&self) -> (s: String)
        ensures
            s@ == match self {
                InterpreterError::Enrichment => "Enrichment failed"@,
                InterpreterError::Plan => "Planning failed"@,
                InterpreterError::SessionNameRequired => "Session name requried"@,
                InterpreterError::SessionTargetRequired => "Session target requried"@,
                InterpreterError::WindowTargetRequired => "Window target requried"@,
                InterpreterError::PaneTargetRequired => "Pane target requried"@,
                InterpreterError::Common(e) => e.message_spec(),
            },
    {
        match self {
            InterpreterError::Enrichment => String::from_str("Enrichment failed"),
            InterpreterError::Plan => String::from_str("Planning failed"),
            InterpreterError::SessionNameRequired => String::from_str("Session name requried"),
            InterpreterError::SessionTargetRequired => String::from_str("Session target requried"),
            InterpreterError::WindowTargetRequired => String::from_str("Window target requried"),
            InterpreterError::PaneTargetRequired => String::from_str("Pane target requried"),
            InterpreterError::Common(e) => e.message(),
        }
    }
}

impl From<CommonError> for InterpreterError {
    fn from(err: CommonError) -> (r: InterpreterError) {
        InterpreterError::Common(err)
    }
}

impl vstd::std_specs::convert::FromSpecImpl<CommonError> for InterpreterError {
    open spec fn obeys_from_spec() -> bool {
        true
    }

    open spec fn from_spec(v: CommonError) -> InterpreterError {
        InterpreterError::Common(v)
    }
}


/// Why a configuration could not be read as a session.
#[derive(Debug, PartialEq, Eq, Structural, Clone, Copy)]
pub enum ParseError {
    NoDocFound,
    NoWindows,
    WindowNameRequired,
    WindowTargetRequired,
    KeysNotFound,
    FormatNotRecognized,
    BadCommandSplit,
    PanesConversion,
    HomeDirExpansion,
    ExpandPath,
}

impl ParseError {
    pub open spec fn message_spec(&self) -> Seq<char> {
        match self {
            ParseError::NoDocFound => "No YAML document was found"@,
            ParseError::NoWindows => "No Windows have been defined"@,
            ParseError::WindowNameRequired => "Window should have a name"@,
            ParseError::WindowTargetRequired => "No target specified"@,
            ParseError::KeysNotFound => "Send keys not parseable"@,
            ParseError::FormatNotRecognized => "Muxed config file formatting isn't recognized"@,
            ParseError::BadCommandSplit => "Commands failed to split"@,
            ParseError::PanesConversion => "Something is wrong with panes"@,
            ParseError::HomeDirExpansion => "Home dir could not be expanded"@,
            ParseError::ExpandPath => "Path could not be expanded"@,
        }
    }

    /// The message reported for the error.
    pub fn message(&self) -> (s: String)
        ensures
            s@ == self.message_spec(),
    {
        match self {
            ParseError::NoDocFound => String::from_str("No YAML document was found"),
            ParseError::NoWindows => String::from_str("No Windows have been defined"),
            ParseError::WindowNameRequired => String::from_str("Window should have a name"),
            ParseError::WindowTargetRequired => String::from_str("No target specified"),
            ParseError::KeysNotFound => String::from_str("Send keys not parseable"),
            ParseError::FormatNotRecognized => String::from_str("Muxed config file formatting isn't recognized"),
            ParseError::BadCommandSplit => String::from_str("Commands failed to split"),
            ParseError::PanesConversion => String::from_str("Something is wrong with panes"),
            ParseError::HomeDirExpansion => String::from_str("Home dir could not be expanded"),
            ParseError::ExpandPath => String::from_str("Path could not be expanded"),
        }
    }
}

} // verus!

//! Opening a project file in the user's editor.

use vstd::prelude::*;
use crate::tmux::target::CommonError;

verus! {

#[derive(Debug)]
pub enum EditError {
    Common(CommonError),
    Io(String),
    SysCall,
}

impl EditError {
    pub open spec fn message_spec(&self) -> Seq<char> {
        match self {
            EditError::Common(e) => e.message_spec(),
            EditError::Io(m) => "IO error: "@ + m@,
            EditError::SysCall => "Couldn't create the editor open command"@,
        }
    }

    /// The message reported for the error.
    pub fn message(&self) -> (s: String)
        ensures
            s@ == self.message_spec(),
    {
        match self {
            EditError::Common(e) => e.message(),
            EditError::Io(m) => {
                let mut s = String::from_str("IO error: ");
                s.append(m.as_str());
                s
            },
            EditError::SysCall => String::from_str("Couldn't create the editor open command"),
        }
    }
}

/// The shell command that opens the file in `$EDITOR`; a command with a NUL
/// character in it cannot be handed to the shell.
pub open spec fn edit_command_spec(project_file: Seq<char>) -> Result<Seq<char>, EditError> {
    if project_file.contains('\0') {
        Err(EditError::SysCall)
    } else {
        Ok("$EDITOR "@ + project_file)
    }
}

/// The shell command that opens the project file in the user's editor.
pub fn edit_command(project_file: &str) -> (r: Result<String, EditError>)
    ensures
        match (r, edit_command_spec(project_file@)) {
            (Ok(a), Ok(b)) => a@ == b,
            (Err(a), Err(b)) => a == b,
            _ => false,
        },
{
    let n = project_file.unicode_len();
    let mut i: usize = 0;
    while i < n
        invariant
            n == project_file@.len(),
            i <= n,
            forall|k: int| 0 <= k < i ==> project_file@[k] != '\0',
        decreases n - i,
    {
        if project_file.get_char(i) == '\0' {
            assert(project_file@.contains('\0')) by {
                assert(project_file@[i as int] == '\0');
            }
            return Err(EditError::SysCall);
        }
        i = i + 1;
    }
    let mut c = String::from_str("$EDITOR ");
    c.append(project_file);
    Ok(c)
}


impl From<CommonError> for EditError {
    fn from(err: CommonError) -> (r: EditError) {
        EditError::Common(err)
    }
}

impl vstd::std_specs::convert::FromSpecImpl<CommonError> for EditError {
    open spec fn obeys_from_spec() -> bool {
        true
    }

    open spec fn from_spec(err: CommonError) -> EditError {
        EditError::Common(err)
    }
}

} // verus!

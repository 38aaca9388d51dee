//! The error taxonomy of the show command.
//!
//! Hard errors bubble to the command boundary and end the run with a
//! non-zero exit code. An absent venv is not an error, and a member path
//! that does not nest under its workspace root is recovered locally by
//! displaying the absolute path; neither appears here.

use vstd::prelude::*;
use vstd::string::StringExecFns;

verus! {

/// A failure of the show command.
#[derive(Debug)]
pub enum ShowError {
    /// No manifest was found between the working directory and the
    /// filesystem root.
    Discovery,
    /// A workspace member failed to resolve; the whole listing is aborted.
    WorkspaceMember(String),
    /// The self toolchain could not be constructed or validated; carries
    /// the underlying cause.
    Bootstrap(String),
    /// The introspection subprocess could not be launched.
    ExecutionLaunch,
    /// The introspection subprocess exited with the given non-zero status.
    ExecutionExit(i32),
}

impl ShowError {
    /// The rendered message of this error.
    pub open spec fn message_spec(&self) -> Seq<char> {
        match self {
            ShowError::Discovery => "did not find pyproject.toml"@,
            ShowError::WorkspaceMember(cause) => "failed to resolve workspace member: "@
                + cause@,
            ShowError::Bootstrap(cause) => "unable to create self venv: "@ + cause@,
            ShowError::ExecutionLaunch => "unable to launch pip"@,
            ShowError::ExecutionExit(_) => "failed to print dependencies via pip"@,
        }
    }

    /// Renders the message shown at the command boundary.
    pub fn message(&self) -> (r: String)
        ensures
            r@ == self.message_spec(),
    {
        match self {
            ShowError::Discovery => "did not find pyproject.toml".to_owned(),
            ShowError::WorkspaceMember(cause) => {
                let mut s = "failed to resolve workspace member: ".to_owned();
                s.append(cause.as_str());
                s
            },
            ShowError::Bootstrap(cause) => {
                let mut s = "unable to create self venv: ".to_owned();
                s.append(cause.as_str());
                s
            },
            ShowError::ExecutionLaunch => "unable to launch pip".to_owned(),
            ShowError::ExecutionExit(_) => "failed to print dependencies via pip".to_owned(),
        }
    }
}

/// The process exit code for an outcome of the command: zero exactly on
/// success.
pub fn exit_code(r: &Result<(), ShowError>) -> (c: i32)
    ensures
        (c == 0) <==> r is Ok,
        r is Err ==> c == 1,
{
    match r {
        Ok(_) => 0,
        Err(_) => 1,
    }
}

} // verus!

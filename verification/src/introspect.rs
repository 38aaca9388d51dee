//! Read-only introspection of a project environment's installed packages.
//!
//! The listing itself is delegated to the self toolchain's package manager,
//! invoked against the target project's interpreter; the library decides
//! whether and what to run and judges the outcome, while the caller spawns
//! the process and streams its output through.

use vstd::prelude::*;
use crate::path::{AbsPath, display_of};
use crate::project::{Project, python_path_spec};
use crate::errors::ShowError;

verus! {

/// Where the self toolchain's package manager lives: `self_venv/bin/pip`.
pub open spec fn pip_binary_spec(self_venv: Seq<Seq<char>>) -> Seq<Seq<char>> {
    self_venv.push("bin"@).push("pip"@)
}

/// One subprocess invocation: program, arguments, and the single
/// environment override applied to the child process only.
pub struct PipCommand {
    pub program: String,
    pub args: Vec<String>,
    pub env_name: String,
    pub env_value: String,
}

/// The arguments that direct pip to list the installed distributions of the
/// environment owned by `python`.
pub open spec fn pip_freeze_args_spec(python: Seq<Seq<char>>) -> Seq<Seq<char>> {
    seq!["--python"@, display_of(python), "freeze"@]
}

/// Builds the freeze invocation: the self toolchain's pip, directed at the
/// target interpreter, with interpreter warnings suppressed in the child's
/// environment.
pub fn pip_freeze_command(self_venv: &AbsPath, python: &AbsPath) -> (r: PipCommand)
    ensures
        r.program@ == display_of(pip_binary_spec(self_venv@)),
        r.args.deep_view() == pip_freeze_args_spec(python@),
        r.env_name@ == "PYTHONWARNINGS"@,
        r.env_value@ == "ignore"@,
{
    let program = self_venv.join("bin").join("pip").to_display();
    let mut args: Vec<String> = Vec::new();
    args.push("--python".to_owned());
    args.push(python.to_display());
    args.push("freeze".to_owned());
    proof {
        assert(args.deep_view() =~~= pip_freeze_args_spec(python@));
    }
    PipCommand {
        program,
        args,
        env_name: "PYTHONWARNINGS".to_owned(),
        env_value: "ignore".to_owned(),
    }
}

/// What the listing requires: nothing, or one pip invocation.
pub enum IntrospectPlan {
    /// The project has no venv interpreter: an immediate success, with no
    /// subprocess launched.
    NoEnv,
    /// Run the given invocation and judge its exit status.
    RunPip(PipCommand),
}

/// Plans the listing for `project`, given whether `root/.venv/bin/python`
/// is a regular file, and the self toolchain path. An absent interpreter is
/// a no-op success, not an error; a present one is introspected through the
/// self toolchain's pip.
pub fn plan_list_installed(project: &Project, python_present: bool, self_venv: &AbsPath) -> (r:
    IntrospectPlan)
    ensures
        !python_present ==> r is NoEnv,
        python_present ==> (r matches IntrospectPlan::RunPip(cmd) && cmd.program@ == display_of(
            pip_binary_spec(self_venv@),
        ) && cmd.args.deep_view() == pip_freeze_args_spec(python_path_spec(project@.root))
            && cmd.env_name@ == "PYTHONWARNINGS"@ && cmd.env_value@ == "ignore"@),
{
    if !python_present {
        IntrospectPlan::NoEnv
    } else {
        let python = project.python_path();
        IntrospectPlan::RunPip(pip_freeze_command(self_venv, &python))
    }
}

/// How a subprocess invocation ended, as the caller observed it.
#[derive(Clone, Copy, Debug, PartialEq, Eq, Structural)]
pub enum SpawnOutcome {
    /// The process could not be launched at all.
    LaunchFailed,
    /// The process ran and exited with this status code.
    Exited(i32),
}

/// Judges a pip invocation: success exactly on exit status zero; a launch
/// failure and a non-zero exit are the two execution errors. No retries.
pub fn interpret_pip_status(s: &SpawnOutcome) -> (r: Result<(), ShowError>)
    ensures
        r is Ok <==> (s matches SpawnOutcome::Exited(c) && c == 0),
        s is LaunchFailed ==> r == Result::<(), ShowError>::Err(ShowError::ExecutionLaunch),
        (s matches SpawnOutcome::Exited(c) && c != 0) ==> r == Result::<(), ShowError>::Err(
            ShowError::ExecutionExit(s->Exited_0),
        ),
{
    match s {
        SpawnOutcome::LaunchFailed => Err(ShowError::ExecutionLaunch),
        SpawnOutcome::Exited(c) => {
            if *c == 0 {
                Ok(())
            } else {
                Err(ShowError::ExecutionExit(*c))
            }
        },
    }
}

/// The states of one listing run. `NoOp`, `Success` and `Failed` are
/// terminal.
#[derive(Clone, Copy, Debug, PartialEq, Eq, Structural)]
pub enum IntrospectState {
    NotInvoked,
    CheckingVenv,
    NoOp,
    Bootstrapping,
    Invoking,
    Success,
    Failed,
}

/// The observations that drive a listing run.
#[derive(Clone, Copy, Debug, PartialEq, Eq, Structural)]
pub enum IntrospectEvent {
    /// The listing was requested.
    Begin,
    /// Whether the target venv's interpreter is a regular file.
    VenvChecked(bool),
    /// Whether the self toolchain is available.
    BootstrapDone(bool),
    /// Whether pip exited with status zero.
    PipDone(bool),
}

/// Whether a listing run has ended.
pub open spec fn introspect_terminal(s: IntrospectState) -> bool {
    s is NoOp || s is Success || s is Failed
}

/// The transition relation of a listing run. An event that does not belong
/// to the current state leaves the state unchanged.
pub open spec fn introspect_next(s: IntrospectState, e: IntrospectEvent) -> IntrospectState {
    match (s, e) {
        (IntrospectState::NotInvoked, IntrospectEvent::Begin) => IntrospectState::CheckingVenv,
        (IntrospectState::CheckingVenv, IntrospectEvent::VenvChecked(present)) => if present {
            IntrospectState::Bootstrapping
        } else {
            IntrospectState::NoOp
        },
        (IntrospectState::Bootstrapping, IntrospectEvent::BootstrapDone(ok)) => if ok {
            IntrospectState::Invoking
        } else {
            IntrospectState::Failed
        },
        (IntrospectState::Invoking, IntrospectEvent::PipDone(ok)) => if ok {
            IntrospectState::Success
        } else {
            IntrospectState::Failed
        },
        (_, _) => s,
    }
}

/// Advances a listing run by one observation.
pub fn introspect_step(s: IntrospectState, e: IntrospectEvent) -> (r: IntrospectState)
    ensures
        r == introspect_next(s, e),
{
    match (s, e) {
        (IntrospectState::NotInvoked, IntrospectEvent::Begin) => IntrospectState::CheckingVenv,
        (IntrospectState::CheckingVenv, IntrospectEvent::VenvChecked(present)) => if present {
            IntrospectState::Bootstrapping
        } else {
            IntrospectState::NoOp
        },
        (IntrospectState::Bootstrapping, IntrospectEvent::BootstrapDone(ok)) => if ok {
            IntrospectState::Invoking
        } else {
            IntrospectState::Failed
        },
        (IntrospectState::Invoking, IntrospectEvent::PipDone(ok)) => if ok {
            IntrospectState::Success
        } else {
            IntrospectState::Failed
        },
        (other, _) => other,
    }
}

/// The terminal state of a whole listing run, given the three observations
/// it can consume.
pub open spec fn introspect_run(python_present: bool, bootstrap_ok: bool, pip_ok: bool)
    -> IntrospectState {
    let checking = introspect_next(IntrospectState::NotInvoked, IntrospectEvent::Begin);
    let checked = introspect_next(checking, IntrospectEvent::VenvChecked(python_present));
    if !python_present {
        checked
    } else {
        let booted = introspect_next(checked, IntrospectEvent::BootstrapDone(bootstrap_ok));
        if !bootstrap_ok {
            booted
        } else {
            introspect_next(booted, IntrospectEvent::PipDone(pip_ok))
        }
    }
}

/// Law: an absent interpreter ends the run at once as a no-op success and
/// never reaches the invoking state; with the interpreter present, the run
/// succeeds exactly when bootstrap and pip both succeed, and otherwise
/// fails.
pub proof fn lemma_list_installed_outcomes(python_present: bool, bootstrap_ok: bool, pip_ok: bool)
    ensures
        !python_present ==> introspect_run(python_present, bootstrap_ok, pip_ok) is NoOp,
        python_present && !bootstrap_ok ==> introspect_run(python_present, bootstrap_ok, pip_ok)
            is Failed,
        python_present && bootstrap_ok ==> (introspect_run(python_present, bootstrap_ok, pip_ok)
            is Success <==> pip_ok),
        python_present && bootstrap_ok && !pip_ok ==> introspect_run(
            python_present,
            bootstrap_ok,
            pip_ok,
        ) is Failed,
        introspect_terminal(introspect_run(python_present, bootstrap_ok, pip_ok)),
{
}

} // verus!

//! The self toolchain: a tool-owned environment, independent of any
//! project's venv.
//!
//! There is one toolchain directory per installation, created lazily and
//! reused indefinitely. Concurrent, uncoordinated construction attempts must
//! never leave a partially built toolchain visible as complete, so
//! construction is planned as "build to a staging directory, then publish":
//! the published path only ever holds a complete toolchain. The library
//! decides what to do; the caller observes the directory state and carries
//! the plan out.

use vstd::prelude::*;
use crate::path::AbsPath;

verus! {

/// How much construction output the caller should show.
#[derive(Clone, Copy, Debug, PartialEq, Eq, Structural)]
pub enum CommandOutput {
    Quiet,
    Normal,
    Verbose,
}

/// The directory-level visibility of the self toolchain, as a caller
/// observes it: absent, privately staged, or complete.
#[derive(Clone, Copy, Debug, PartialEq, Eq, Structural)]
pub enum ToolchainState {
    Missing,
    Staged,
    Complete,
}

/// What the caller must do to make the self toolchain available.
pub enum BootstrapAction {
    /// The toolchain is already valid: reuse it, with no side effect.
    UseExisting,
    /// Construct the toolchain at `stage`, then publish it atomically to
    /// `target`, showing output as `verbosity` asks.
    BuildThenPublish { stage: AbsPath, target: AbsPath, verbosity: CommandOutput },
}

/// The self toolchain's home: a tool-owned data directory.
pub struct SelfToolchain {
    data_dir: AbsPath,
}

impl View for SelfToolchain {
    type V = Seq<Seq<char>>;

    closed spec fn view(&self) -> Seq<Seq<char>> {
        self.data_dir@
    }
}

impl SelfToolchain {
    pub fn new(data_dir: AbsPath) -> (r: SelfToolchain)
        ensures
            r@ == data_dir@,
    {
        SelfToolchain { data_dir }
    }

    /// Where the published toolchain lives: `data_dir/self`.
    pub open spec fn self_venv_spec(&self) -> Seq<Seq<char>> {
        self@.push("self"@)
    }

    /// Where a construction attempt stages its work: `data_dir/self-staging`.
    pub open spec fn staging_spec(&self) -> Seq<Seq<char>> {
        self@.push("self-staging"@)
    }

    /// The published toolchain path.
    pub fn self_venv_path(&self) -> (r: AbsPath)
        ensures
            r@ == self.self_venv_spec(),
    {
        self.data_dir.join("self")
    }

    /// The staging path of a construction attempt.
    pub fn staging_path(&self) -> (r: AbsPath)
        ensures
            r@ == self.staging_spec(),
    {
        self.data_dir.join("self-staging")
    }
}

/// Whether the toolchain state calls for construction work.
pub open spec fn bootstrap_needs_work(state: ToolchainState) -> bool {
    !(state is Complete)
}

/// The toolchain state after a successful bootstrap: complete, whatever it
/// was before.
pub open spec fn state_after_bootstrap(state: ToolchainState) -> ToolchainState {
    ToolchainState::Complete
}

/// What one bootstrap call yields: the toolchain path, and whether it plans
/// construction work.
pub open spec fn ensure_plan(tc: SelfToolchain, state: ToolchainState) -> (Seq<Seq<char>>, bool) {
    (tc.self_venv_spec(), bootstrap_needs_work(state))
}

/// Ensures the self toolchain: returns its path, and the action that makes
/// it valid. A complete toolchain is reused as is, with no side effect;
/// otherwise the toolchain is built at a staging path distinct from the
/// published path, then published.
pub fn ensure_self_venv(tc: &SelfToolchain, state: &ToolchainState, verbosity: CommandOutput) -> (r:
    (AbsPath, BootstrapAction))
    ensures
        r.0@ == ensure_plan(*tc, *state).0,
        r.1 is UseExisting <==> !ensure_plan(*tc, *state).1,
        bootstrap_needs_work(*state) ==> (r.1 matches BootstrapAction::BuildThenPublish {
            stage,
            target,
            verbosity: v,
        } && stage@ == tc.staging_spec() && target@ == tc.self_venv_spec() && v == verbosity),
        tc.staging_spec() != tc.self_venv_spec(),
{
    proof {
        reveal_strlit("self");
        reveal_strlit("self-staging");
        assert("self"@.len() == 4);
        assert("self-staging"@.len() == 12);
        assert(tc.staging_spec()[tc@.len() as int] == "self-staging"@);
        assert(tc.self_venv_spec()[tc@.len() as int] == "self"@);
    }
    let path = tc.self_venv_path();
    match state {
        ToolchainState::Complete => (path, BootstrapAction::UseExisting),
        _ => {
            let action = BootstrapAction::BuildThenPublish {
                stage: tc.staging_path(),
                target: tc.self_venv_path(),
                verbosity,
            };
            (path, action)
        },
    }
}

/// Law: calling the bootstrapper twice with no intervening mutation returns
/// the identical path both times and performs construction work at most
/// once: the first successful call leaves the toolchain complete, and on a
/// complete toolchain the second call plans no work.
pub proof fn lemma_bootstrap_idempotent(tc: SelfToolchain, state: ToolchainState)
    ensures
        ensure_plan(tc, state).0 == ensure_plan(tc, state_after_bootstrap(state)).0,
        !ensure_plan(tc, state_after_bootstrap(state)).1,
{
}

} // verus!

use project_show::bootstrap::{
    ensure_self_venv, BootstrapAction, CommandOutput, SelfToolchain, ToolchainState,
};
use project_show::errors::{exit_code, ShowError};
use project_show::introspect::{
    interpret_pip_status, introspect_step, pip_freeze_command, plan_list_installed,
    IntrospectEvent, IntrospectPlan, IntrospectState, SpawnOutcome,
};
use project_show::path::AbsPath;
use project_show::project::{
    collect_members, discover_from, discover_step, sort_by_root_path, DiscoverStep, Project,
    Workspace,
};
use project_show::report::{render_member_line, render_report};

fn abs(components: &[&str]) -> AbsPath {
    let mut p = AbsPath::root();
    for c in components {
        p = p.join(c);
    }
    p
}

fn project(name: Option<&str>, root: &[&str], ws: Option<&[&str]>) -> Project {
    Project::new(name.map(|n| n.to_string()), abs(root), ws.map(abs))
}

#[test]
fn discovery_finds_nearest_manifest() {
    let dirs = vec![abs(&["repo"]), abs(&["repo", "sub"])];
    let from_deep = discover_from(&abs(&["repo", "sub", "deep"]), &dirs).unwrap();
    assert_eq!(from_deep.to_display(), "/repo/sub");
    let from_mid = discover_from(&abs(&["repo", "other"]), &dirs).unwrap();
    assert_eq!(from_mid.to_display(), "/repo");
    let from_self = discover_from(&abs(&["repo"]), &dirs).unwrap();
    assert_eq!(from_self.to_display(), "/repo");
    assert!(discover_from(&abs(&["elsewhere"]), &dirs).is_none());
}

#[test]
fn discovery_from_any_descendant_of_single_manifest() {
    let dirs = vec![abs(&["repo"])];
    for start in [
        vec!["repo"],
        vec!["repo", "a"],
        vec!["repo", "a", "b"],
        vec!["repo", "a", "b", "c"],
    ] {
        let found = discover_from(&abs(&start), &dirs).unwrap();
        assert_eq!(found.to_display(), "/repo");
    }
}

#[test]
fn discover_step_decides_one_level() {
    assert!(matches!(discover_step(&abs(&["repo"]), true), DiscoverStep::Found));
    match discover_step(&abs(&["repo", "a"]), false) {
        DiscoverStep::Ascend(p) => assert_eq!(p.to_display(), "/repo"),
        _ => panic!("expected to ascend"),
    }
    assert!(matches!(discover_step(&AbsPath::root(), false), DiscoverStep::NotFound));
}

#[test]
fn project_layout_is_derived_from_root() {
    let p = project(Some("repo"), &["repo"], None);
    assert_eq!(p.root_path().to_display(), "/repo");
    assert_eq!(p.venv_path().to_display(), "/repo/.venv");
    assert_eq!(p.venv_bin_path().to_display(), "/repo/.venv/bin");
    assert_eq!(p.python_path().to_display(), "/repo/.venv/bin/python");
    assert_eq!(p.workspace_path().to_display(), "/repo");
    let m = project(Some("a"), &["repo", "a"], Some(&["repo"]));
    assert_eq!(m.workspace_path().to_display(), "/repo");
}

#[test]
fn members_sort_by_root_path_regardless_of_enumeration_order() {
    let v = vec![
        project(Some("c"), &["w", "c"], Some(&["w"])),
        project(Some("a"), &["w", "a"], Some(&["w"])),
        project(Some("b"), &["w", "b"], Some(&["w"])),
    ];
    let sorted = sort_by_root_path(v);
    let roots: Vec<String> = sorted.iter().map(|p| p.root_path().to_display()).collect();
    assert_eq!(roots, vec!["/w/a", "/w/b", "/w/c"]);

    let v2 = vec![
        project(Some("b"), &["w", "b"], Some(&["w"])),
        project(Some("a"), &["w", "a"], Some(&["w"])),
        project(Some("c"), &["w", "c"], Some(&["w"])),
    ];
    let sorted2 = sort_by_root_path(v2);
    let roots2: Vec<String> = sorted2.iter().map(|p| p.root_path().to_display()).collect();
    assert_eq!(roots2, vec!["/w/a", "/w/b", "/w/c"]);
}

#[test]
fn collect_members_is_fail_fast() {
    let ok = collect_members(vec![
        Ok(project(Some("a"), &["w", "a"], Some(&["w"]))),
        Ok(project(Some("b"), &["w", "b"], Some(&["w"]))),
    ])
    .unwrap();
    assert_eq!(ok.len(), 2);
    assert_eq!(ok[0].root_path().to_display(), "/w/a");

    let failed = collect_members(vec![
        Ok(project(Some("a"), &["w", "a"], Some(&["w"]))),
        Err("broken manifest".to_string()),
        Ok(project(Some("b"), &["w", "b"], Some(&["w"]))),
    ]);
    match failed {
        Err(ShowError::WorkspaceMember(msg)) => assert_eq!(msg, "broken manifest"),
        _ => panic!("expected the member failure"),
    }
}

#[test]
fn workspace_holds_root_and_members() {
    let ws = Workspace::new(
        abs(&["w"]),
        vec![project(Some("a"), &["w", "a"], Some(&["w"]))],
    );
    assert_eq!(ws.root_path().to_display(), "/w");
    assert_eq!(ws.members().len(), 1);
}

#[test]
fn bootstrapper_is_idempotent() {
    let tc = SelfToolchain::new(abs(&["home", "data"]));
    let (first, action) = ensure_self_venv(&tc, &ToolchainState::Missing, CommandOutput::Normal);
    assert_eq!(first.to_display(), "/home/data/self");
    match action {
        BootstrapAction::BuildThenPublish { stage, target, verbosity } => {
            assert_eq!(stage.to_display(), "/home/data/self-staging");
            assert_eq!(target.to_display(), "/home/data/self");
            assert_eq!(verbosity, CommandOutput::Normal);
        },
        BootstrapAction::UseExisting => panic!("a missing toolchain needs construction"),
    }
    let (second, action2) = ensure_self_venv(&tc, &ToolchainState::Complete, CommandOutput::Normal);
    assert!(first.eq_path(&second));
    assert!(matches!(action2, BootstrapAction::UseExisting));
}

#[test]
fn staged_toolchain_is_not_complete() {
    let tc = SelfToolchain::new(abs(&["home", "data"]));
    let (_, action) = ensure_self_venv(&tc, &ToolchainState::Staged, CommandOutput::Quiet);
    assert!(matches!(action, BootstrapAction::BuildThenPublish { .. }));
}

#[test]
fn absent_python_is_a_no_op_success() {
    let p = project(Some("repo"), &["repo"], None);
    let plan = plan_list_installed(&p, false, &abs(&["home", "data", "self"]));
    assert!(matches!(plan, IntrospectPlan::NoEnv));
    let s = introspect_step(IntrospectState::CheckingVenv, IntrospectEvent::VenvChecked(false));
    assert_eq!(s, IntrospectState::NoOp);
}

#[test]
fn present_python_runs_pip_against_target_interpreter() {
    let p = project(Some("repo"), &["repo"], None);
    let plan = plan_list_installed(&p, true, &abs(&["home", "data", "self"]));
    match plan {
        IntrospectPlan::RunPip(cmd) => {
            assert_eq!(cmd.program, "/home/data/self/bin/pip");
            assert_eq!(
                cmd.args,
                vec![
                    "--python".to_string(),
                    "/repo/.venv/bin/python".to_string(),
                    "freeze".to_string(),
                ]
            );
            assert_eq!(cmd.env_name, "PYTHONWARNINGS");
            assert_eq!(cmd.env_value, "ignore");
        },
        IntrospectPlan::NoEnv => panic!("a present interpreter must be introspected"),
    }
}

#[test]
fn pip_freeze_command_is_exact() {
    let cmd = pip_freeze_command(&abs(&["d", "self"]), &abs(&["r", ".venv", "bin", "python"]));
    assert_eq!(cmd.program, "/d/self/bin/pip");
    assert_eq!(cmd.args[0], "--python");
    assert_eq!(cmd.args[1], "/r/.venv/bin/python");
    assert_eq!(cmd.args[2], "freeze");
}

#[test]
fn pip_exit_status_decides_the_outcome() {
    assert!(interpret_pip_status(&SpawnOutcome::Exited(0)).is_ok());
    match interpret_pip_status(&SpawnOutcome::Exited(1)) {
        Err(ShowError::ExecutionExit(code)) => assert_eq!(code, 1),
        _ => panic!("exit 1 must fail the listing"),
    }
    match interpret_pip_status(&SpawnOutcome::LaunchFailed) {
        Err(ShowError::ExecutionLaunch) => {},
        _ => panic!("a launch failure must fail the listing"),
    }
}

#[test]
fn introspection_walks_its_states() {
    let s0 = IntrospectState::NotInvoked;
    let s1 = introspect_step(s0, IntrospectEvent::Begin);
    assert_eq!(s1, IntrospectState::CheckingVenv);
    let s2 = introspect_step(s1, IntrospectEvent::VenvChecked(true));
    assert_eq!(s2, IntrospectState::Bootstrapping);
    let s3 = introspect_step(s2, IntrospectEvent::BootstrapDone(true));
    assert_eq!(s3, IntrospectState::Invoking);
    assert_eq!(
        introspect_step(s3, IntrospectEvent::PipDone(true)),
        IntrospectState::Success
    );
    assert_eq!(
        introspect_step(s3, IntrospectEvent::PipDone(false)),
        IntrospectState::Failed
    );
    assert_eq!(
        introspect_step(s2, IntrospectEvent::BootstrapDone(false)),
        IntrospectState::Failed
    );
    // an event that does not belong to the state leaves it unchanged
    assert_eq!(
        introspect_step(IntrospectState::Success, IntrospectEvent::Begin),
        IntrospectState::Success
    );
}

#[test]
fn error_messages_and_exit_codes() {
    assert_eq!(ShowError::Discovery.message(), "did not find pyproject.toml");
    assert_eq!(
        ShowError::WorkspaceMember("bad member".to_string()).message(),
        "failed to resolve workspace member: bad member"
    );
    assert_eq!(
        ShowError::Bootstrap("no download".to_string()).message(),
        "unable to create self venv: no download"
    );
    assert_eq!(ShowError::ExecutionLaunch.message(), "unable to launch pip");
    assert_eq!(
        ShowError::ExecutionExit(2).message(),
        "failed to print dependencies via pip"
    );
    assert_eq!(exit_code(&Ok(())), 0);
    assert_eq!(exit_code(&Err(ShowError::Discovery)), 1);
}

#[test]
fn report_without_workspace_and_with_pinned_version() {
    let p = project(Some("repo"), &["repo"], None);
    let lines = render_report(&p, &Some("3.11.4".to_string()), Vec::new());
    assert_eq!(
        lines,
        vec![
            "project: repo".to_string(),
            "path: /repo".to_string(),
            "venv: /repo/.venv".to_string(),
            "pinned python: 3.11.4".to_string(),
        ]
    );
    assert!(lines.iter().all(|l| !l.contains("workspace")));
}

#[test]
fn report_lists_workspace_members_sorted() {
    let p = project(Some("a"), &["repo", "a"], Some(&["repo"]));
    let members = vec![
        project(Some("b"), &["repo", "b"], Some(&["repo"])),
        project(Some("a"), &["repo", "a"], Some(&["repo"])),
    ];
    let lines = render_report(&p, &None, members);
    assert_eq!(
        lines,
        vec![
            "project: a".to_string(),
            "path: /repo/a".to_string(),
            "venv: /repo/a/.venv".to_string(),
            "workspace: /repo".to_string(),
            "  members:".to_string(),
            "    a (./a)".to_string(),
            "    b (./b)".to_string(),
        ]
    );
}

#[test]
fn unnamed_project_and_foreign_member_fall_back() {
    let p = project(None, &["repo"], Some(&["repo"]));
    let foreign = project(None, &["outside", "x"], Some(&["repo"]));
    let line = render_member_line(&foreign, &abs(&["repo"]));
    assert_eq!(line, "    <unnamed> (/outside/x)");
    let lines = render_report(&p, &None, vec![foreign]);
    assert_eq!(lines[0], "project: <unnamed>");
    assert_eq!(lines[5], "    <unnamed> (/outside/x)");
}

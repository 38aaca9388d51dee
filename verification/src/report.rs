//! Renders the show command's report lines.
//!
//! The report states the project's name, root, venv and optional pinned
//! interpreter version; for a workspace it adds the workspace root and one
//! line per member, sorted by root path. Members are shown relative to the
//! workspace root when nested under it, and absolute otherwise.

use vstd::prelude::*;
use vstd::string::StringExecFns;
use crate::path::{AbsPath, display_of, rel_display_of};
use crate::project::{Project, ProjectView, venv_path_spec, sorted_by_root, sort_by_root_path};

verus! {

/// The shown project name: the declared one, or `<unnamed>`.
pub open spec fn display_name_spec(name: Option<Seq<char>>) -> Seq<char> {
    match name {
        Some(n) => n,
        None => "<unnamed>"@,
    }
}

pub open spec fn project_line_spec(p: ProjectView) -> Seq<char> {
    "project: "@ + display_name_spec(p.name)
}

pub open spec fn path_line_spec(p: ProjectView) -> Seq<char> {
    "path: "@ + display_of(p.root)
}

pub open spec fn venv_line_spec(p: ProjectView) -> Seq<char> {
    "venv: "@ + display_of(venv_path_spec(p.root))
}

pub open spec fn pinned_line_spec(version: Seq<char>) -> Seq<char> {
    "pinned python: "@ + version
}

pub open spec fn workspace_line_spec(ws: Seq<Seq<char>>) -> Seq<char> {
    "workspace: "@ + display_of(ws)
}

/// One member line: indented name and relative (or absolute) path.
pub open spec fn member_line_spec(m: ProjectView, ws: Seq<Seq<char>>) -> Seq<char> {
    "    "@ + display_name_spec(m.name) + " ("@ + rel_display_of(m.root, ws) + ")"@
}

/// The member lines of a workspace, one per project, in the given order.
pub open spec fn member_lines_spec(members: Seq<Project>, ws: Seq<Seq<char>>) -> Seq<Seq<char>> {
    Seq::new(members.len(), |i: int| member_line_spec(members[i]@, ws))
}

/// The report head: project, path, venv, and the pinned version if any.
pub open spec fn header_lines_spec(p: ProjectView, pinned: Option<Seq<char>>) -> Seq<Seq<char>> {
    let base = seq![project_line_spec(p), path_line_spec(p), venv_line_spec(p)];
    match pinned {
        Some(v) => base.push(pinned_line_spec(v)),
        None => base,
    }
}

/// The whole report: the head alone without a workspace; with one, the
/// workspace root, a members heading, and the member lines in the given
/// order.
pub open spec fn report_lines_spec(
    p: ProjectView,
    pinned: Option<Seq<char>>,
    members: Seq<Project>,
) -> Seq<Seq<char>> {
    let head = header_lines_spec(p, pinned);
    match p.workspace_root {
        None => head,
        Some(ws) => head + seq![workspace_line_spec(ws), "  members:"@] + member_lines_spec(
            members,
            ws,
        ),
    }
}

/// `label` followed by `value`.
fn labeled(label: &str, value: &str) -> (r: String)
    ensures
        r@ == label@ + value@,
{
    let mut s = label.to_owned();
    s.append(value);
    s
}

/// The shown project name.
pub fn display_name(name: &Option<String>) -> (r: String)
    ensures
        r@ == display_name_spec(name.deep_view()),
{
    match name {
        Some(n) => n.clone(),
        None => "<unnamed>".to_owned(),
    }
}

/// Renders the report head for one project.
pub fn render_project_header(project: &Project, pinned: &Option<String>) -> (r: Vec<String>)
    ensures
        r.deep_view() == header_lines_spec(project@, pinned.deep_view()),
{
    let mut lines: Vec<String> = Vec::new();
    let name = display_name(project.name());
    lines.push(labeled("project: ", name.as_str()));
    let root_text = project.root_path().to_display();
    lines.push(labeled("path: ", root_text.as_str()));
    let venv_text = project.venv_path().to_display();
    lines.push(labeled("venv: ", venv_text.as_str()));
    match pinned {
        Some(version) => {
            lines.push(labeled("pinned python: ", version.as_str()));
        },
        None => {},
    }
    proof {
        assert(lines.deep_view() =~~= header_lines_spec(project@, pinned.deep_view()));
    }
    lines
}

/// Renders one member line.
pub fn render_member_line(member: &Project, ws_root: &AbsPath) -> (r: String)
    ensures
        r@ == member_line_spec(member@, ws_root@),
{
    let mut s = "    ".to_owned();
    let name = display_name(member.name());
    s.append(name.as_str());
    s.append(" (");
    let rel = member.root_path().rel_display(ws_root);
    s.append(rel.as_str());
    s.append(")");
    s
}

/// Renders the full report: the head, and, when the project belongs to a
/// workspace, the workspace root, the members heading, and one line per
/// member, sorted by root path whatever order the members were enumerated
/// in.
pub fn render_report(project: &Project, pinned: &Option<String>, members: Vec<Project>) -> (r: Vec<
    String,
>)
    ensures
        exists|ms: Seq<Project>|
            #![auto]
            ms.to_multiset() == members@.to_multiset() && sorted_by_root(ms) && r.deep_view()
                == report_lines_spec(project@, pinned.deep_view(), ms),
        project@.workspace_root is None ==> r.deep_view() == header_lines_spec(
            project@,
            pinned.deep_view(),
        ),
{
    let ghost members_snapshot = members@;
    let sorted = sort_by_root_path(members);
    let mut lines = render_project_header(project, pinned);
    match project.workspace_root() {
        None => {
            proof {
                assert(sorted@.to_multiset() == members_snapshot.to_multiset() && sorted_by_root(
                    sorted@,
                ) && lines.deep_view() == report_lines_spec(
                    project@,
                    pinned.deep_view(),
                    sorted@,
                ));
            }
            lines
        },
        Some(ws) => {
            let ws_text = ws.to_display();
            lines.push(labeled("workspace: ", ws_text.as_str()));
            lines.push("  members:".to_owned());
            let ghost before_members = lines.deep_view();
            let mut i: usize = 0;
            proof {
                assert(lines.deep_view() =~~= before_members + member_lines_spec(
                    sorted@.take(0),
                    ws@,
                ));
            }
            while i < sorted.len()
                invariant
                    i <= sorted@.len(),
                    project@.workspace_root == Some(ws@),
                    lines.deep_view() == before_members + member_lines_spec(
                        sorted@.take(i as int),
                        ws@,
                    ),
                decreases sorted@.len() - i,
            {
                let line = render_member_line(&sorted[i], ws);
                lines.push(line);
                proof {
                    assert(line@ == member_line_spec(sorted@[i as int]@, ws@));
                    let prev_dv = before_members + member_lines_spec(sorted@.take(i as int), ws@);
                    assert(lines.deep_view() =~~= prev_dv.push(line@));
                    assert(member_lines_spec(sorted@.take(i + 1), ws@) =~= member_lines_spec(
                        sorted@.take(i as int),
                        ws@,
                    ).push(member_line_spec(sorted@[i as int]@, ws@)));
                    assert(prev_dv.push(line@) =~= before_members + member_lines_spec(
                        sorted@.take(i + 1),
                        ws@,
                    ));
                    assert(lines.deep_view() =~~= before_members + member_lines_spec(
                        sorted@.take(i + 1),
                        ws@,
                    ));
                }
                i = i + 1;
            }
            proof {
                assert(sorted@.take(sorted@.len() as int) =~= sorted@);
                assert(lines.deep_view() =~~= report_lines_spec(
                    project@,
                    pinned.deep_view(),
                    sorted@,
                ));
                assert(sorted@.to_multiset() == members_snapshot.to_multiset() && sorted_by_root(
                    sorted@,
                ) && lines.deep_view() == report_lines_spec(
                    project@,
                    pinned.deep_view(),
                    sorted@,
                ));
            }
            lines
        },
    }
}

} // verus!

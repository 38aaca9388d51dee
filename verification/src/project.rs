//! Projects, workspaces, and manifest discovery.
//!
//! A project is identified by the directory that holds its manifest; a
//! workspace groups member projects under one root. Discovery walks upward
//! from a starting directory; the caller reports which directories hold a
//! manifest, either as a collected list or one step at a time.

use vstd::prelude::*;
use vstd::multiset::Multiset;
use crate::path::{
    AbsPath, path_le, path_lt, lemma_path_trichotomy, lemma_path_le_transitive,
    lemma_path_lt_transitive, lemma_path_lt_irreflexive,
};
use crate::errors::ShowError;

verus! {

/// The ghost value of a [`Project`].
pub ghost struct ProjectView {
    pub name: Option<Seq<char>>,
    pub root: Seq<Seq<char>>,
    pub workspace_root: Option<Seq<Seq<char>>>,
}

/// A resolved project: the directory of its manifest, the optional declared
/// name, and the root of the enclosing workspace, if there is one.
pub struct Project {
    name: Option<String>,
    root: AbsPath,
    workspace_root: Option<AbsPath>,
}

impl View for Project {
    type V = ProjectView;

    closed spec fn view(&self) -> ProjectView {
        ProjectView {
            name: self.name.deep_view(),
            root: self.root@,
            workspace_root: match self.workspace_root {
                Some(w) => Some(w@),
                None => None,
            },
        }
    }
}

/// The venv directory derived from a project root.
pub open spec fn venv_path_spec(root: Seq<Seq<char>>) -> Seq<Seq<char>> {
    root.push(".venv"@)
}

/// The directory of the venv's executables.
pub open spec fn venv_bin_path_spec(root: Seq<Seq<char>>) -> Seq<Seq<char>> {
    venv_path_spec(root).push("bin"@)
}

/// The interpreter inside the venv's executable directory.
pub open spec fn python_path_spec(root: Seq<Seq<char>>) -> Seq<Seq<char>> {
    venv_bin_path_spec(root).push("python"@)
}

impl Project {
    pub fn new(name: Option<String>, root: AbsPath, workspace_root: Option<AbsPath>) -> (r:
        Project)
        ensures
            r@.name == name.deep_view(),
            r@.root == root@,
            r@.workspace_root == (match workspace_root {
                Some(w) => Some(w@),
                None => None::<Seq<Seq<char>>>,
            }),
    {
        Project { name, root, workspace_root }
    }

    /// The declared project name, if the manifest declares one.
    pub fn name(&self) -> (r: &Option<String>)
        ensures
            r.deep_view() == self@.name,
    {
        &self.name
    }

    /// The directory that holds the project manifest.
    pub fn root_path(&self) -> (r: &AbsPath)
        ensures
            r@ == self@.root,
    {
        &self.root
    }

    /// The project's venv directory: `root/.venv`.
    pub fn venv_path(&self) -> (r: AbsPath)
        ensures
            r@ == venv_path_spec(self@.root),
    {
        self.root.join(".venv")
    }

    /// The executable directory of the project's venv: `root/.venv/bin`.
    pub fn venv_bin_path(&self) -> (r: AbsPath)
        ensures
            r@ == venv_bin_path_spec(self@.root),
    {
        self.venv_path().join("bin")
    }

    /// The interpreter of the project's venv: `root/.venv/bin/python`.
    pub fn python_path(&self) -> (r: AbsPath)
        ensures
            r@ == python_path_spec(self@.root),
    {
        self.venv_bin_path().join("python")
    }

    /// The root of the enclosing workspace, if the project belongs to one.
    pub fn workspace_root(&self) -> (r: &Option<AbsPath>)
        ensures
            r is Some <==> self@.workspace_root is Some,
            r is Some ==> r->0@ == self@.workspace_root->0,
    {
        &self.workspace_root
    }

    /// The workspace root when the project belongs to a workspace, and the
    /// project's own root otherwise.
    pub fn workspace_path(&self) -> (r: AbsPath)
        ensures
            r@ == (match self@.workspace_root {
                Some(w) => w,
                None => self@.root,
            }),
    {
        match &self.workspace_root {
            Some(w) => w.duplicate(),
            None => self.root.duplicate(),
        }
    }
}

/// Whether one of `dirs` equals `p`.
pub open spec fn contains_path(dirs: Seq<Seq<Seq<char>>>, p: Seq<Seq<char>>) -> bool {
    exists|i: int| 0 <= i < dirs.len() && dirs[i] == p
}

/// The nearest enclosing directory of `start` (including `start` itself)
/// that holds a manifest, walking upward to the filesystem root.
pub open spec fn nearest_manifest(dirs: Seq<Seq<Seq<char>>>, start: Seq<Seq<char>>) -> Option<
    Seq<Seq<char>>,
>
    decreases start.len(),
{
    if contains_path(dirs, start) {
        Some(start)
    } else if start.len() == 0 {
        None
    } else {
        nearest_manifest(dirs, start.drop_last())
    }
}

/// Whether `dirs` lists a path equal to `p`.
pub fn contains_path_exec(dirs: &Vec<AbsPath>, p: &AbsPath) -> (r: bool)
    ensures
        r == contains_path(dirs.deep_view(), p@),
{
    let mut i: usize = 0;
    while i < dirs.len()
        invariant
            i <= dirs.len(),
            forall|k: int| 0 <= k < i ==> dirs.deep_view()[k] != p@,
        decreases dirs.len() - i,
    {
        if dirs[i].eq_path(p) {
            proof {
                assert(dirs.deep_view()[i as int] == p@);
            }
            return true;
        }
        i = i + 1;
    }
    false
}

/// Upward manifest discovery, over the set of directories known to hold a
/// manifest: returns the nearest enclosing manifest directory of `start`,
/// or `None` when no enclosing directory up to the root holds one.
pub fn discover_from(start: &AbsPath, manifest_dirs: &Vec<AbsPath>) -> (r: Option<AbsPath>)
    ensures
        r is Some ==> nearest_manifest(manifest_dirs.deep_view(), start@) == Some(r->0@),
        r is None ==> nearest_manifest(manifest_dirs.deep_view(), start@) is None,
{
    let mut cur = start.duplicate();
    loop
        invariant
            nearest_manifest(manifest_dirs.deep_view(), start@) == nearest_manifest(
                manifest_dirs.deep_view(),
                cur@,
            ),
        decreases cur@.len(),
    {
        if contains_path_exec(manifest_dirs, &cur) {
            return Some(cur);
        }
        match cur.parent() {
            Some(p) => {
                cur = p;
            },
            None => {
                return None;
            },
        }
    }
}

/// One decision of the upward walk, for a caller that checks directories
/// one at a time.
pub enum DiscoverStep {
    /// The current directory holds a manifest: discovery ends here.
    Found,
    /// No manifest here: continue from the parent directory.
    Ascend(AbsPath),
    /// No manifest here and the filesystem root is reached: discovery fails.
    NotFound,
}

/// Decides one step of upward discovery from `current`, given whether a
/// manifest is present in `current` itself.
pub fn discover_step(current: &AbsPath, manifest_here: bool) -> (r: DiscoverStep)
    ensures
        manifest_here ==> r is Found,
        !manifest_here && current@.len() > 0 ==> r is Ascend && r->Ascend_0@ == current@.drop_last(),
        !manifest_here && current@.len() == 0 ==> r is NotFound,
{
    if manifest_here {
        DiscoverStep::Found
    } else {
        match current.parent() {
            Some(p) => DiscoverStep::Ascend(p),
            None => DiscoverStep::NotFound,
        }
    }
}

/// Law: the discovered directory is an enclosing manifest directory of
/// `start` (or `start` itself), and the deepest such; when discovery fails,
/// no listed directory encloses `start`.
pub proof fn lemma_nearest_manifest_characterization(
    dirs: Seq<Seq<Seq<char>>>,
    start: Seq<Seq<char>>,
)
    ensures
        match nearest_manifest(dirs, start) {
            Some(p) => contains_path(dirs, p) && p.is_prefix_of(start) && (forall|
                q: Seq<Seq<char>>,
            |
                #![trigger contains_path(dirs, q)]
                contains_path(dirs, q) && q.is_prefix_of(start) ==> q.len() <= p.len()),
            None => forall|q: Seq<Seq<char>>|
                #![trigger contains_path(dirs, q)]
                contains_path(dirs, q) ==> !q.is_prefix_of(start),
        },
    decreases start.len(),
{
    if contains_path(dirs, start) {
        assert(start.subrange(0, start.len() as int) =~= start);
        assert(start.is_prefix_of(start));
    } else if start.len() == 0 {
        assert forall|q: Seq<Seq<char>>| #[trigger]
            contains_path(dirs, q) implies !q.is_prefix_of(start) by {
            if q.is_prefix_of(start) {
                assert(q.len() == 0);
                assert(q =~= start);
            }
        }
    } else {
        let up = start.drop_last();
        lemma_nearest_manifest_characterization(dirs, up);
        assert forall|q: Seq<Seq<char>>|
            contains_path(dirs, q) && #[trigger] q.is_prefix_of(start) && q.len()
                < start.len() implies q.is_prefix_of(up) by {
            assert(up.subrange(0, q.len() as int) =~= start.subrange(0, q.len() as int));
        }
        match nearest_manifest(dirs, up) {
            Some(p) => {
                assert(p.is_prefix_of(start)) by {
                    assert(start.subrange(0, p.len() as int) =~= up.subrange(0, p.len() as int));
                }
                assert forall|q: Seq<Seq<char>>| #[trigger]
                    contains_path(dirs, q) && q.is_prefix_of(start) implies q.len()
                    <= p.len() by {
                    if q.len() == start.len() {
                        assert(q =~= start);
                    }
                }
            },
            None => {
                assert forall|q: Seq<Seq<char>>| #[trigger]
                    contains_path(dirs, q) implies !q.is_prefix_of(start) by {
                    if q.is_prefix_of(start) {
                        if q.len() == start.len() {
                            assert(q =~= start);
                        }
                    }
                }
            },
        }
    }
}

/// Law: in a tree with exactly one manifest directory `m`, discovery from
/// any directory enclosed by `m` (at any depth below it, or `m` itself)
/// finds exactly `m`.
pub proof fn lemma_discovery_unique_manifest(
    dirs: Seq<Seq<Seq<char>>>,
    start: Seq<Seq<char>>,
    m: Seq<Seq<char>>,
)
    requires
        dirs.len() == 1,
        dirs[0] == m,
        m.is_prefix_of(start),
    ensures
        nearest_manifest(dirs, start) == Some(m),
    decreases start.len(),
{
    if m.len() == start.len() {
        assert(m =~= start);
        assert(contains_path(dirs, start));
    } else {
        assert(m.len() < start.len());
        assert(!contains_path(dirs, start)) by {
            assert(dirs[0].len() != start.len());
        }
        assert(m.is_prefix_of(start.drop_last())) by {
            assert(start.drop_last().subrange(0, m.len() as int) =~= start.subrange(
                0,
                m.len() as int,
            ));
        }
        lemma_discovery_unique_manifest(dirs, start.drop_last(), m);
    }
}

/// A workspace: its root directory and its resolved member projects.
pub struct Workspace {
    root: AbsPath,
    members: Vec<Project>,
}

impl Workspace {
    pub fn new(root: AbsPath, members: Vec<Project>) -> (r: Workspace)
        ensures
            r.root_view() == root@,
            r.members_view() == members@,
    {
        Workspace { root, members }
    }

    pub closed spec fn root_view(&self) -> Seq<Seq<char>> {
        self.root@
    }

    pub closed spec fn members_view(&self) -> Seq<Project> {
        self.members@
    }

    pub fn root_path(&self) -> (r: &AbsPath)
        ensures
            r@ == self.root_view(),
    {
        &self.root
    }

    pub fn members(&self) -> (r: &Vec<Project>)
        ensures
            r@ == self.members_view(),
    {
        &self.members
    }
}

/// Fail-fast collection of a member enumeration: all resolved projects in
/// their enumeration order, or the first failure, with no partial result.
#[verifier::loop_isolation(false)]
pub fn collect_members(entries: Vec<Result<Project, String>>) -> (r: Result<
    Vec<Project>,
    ShowError,
>)
    ensures
        r is Ok <==> (forall|i: int|
            0 <= i < entries@.len() ==> (#[trigger] entries@[i]) is Ok),
        r is Ok ==> r->Ok_0@.len() == entries@.len() && (forall|i: int|
            0 <= i < entries@.len() ==> #[trigger] r->Ok_0@[i] == entries@[i]->Ok_0),
        r is Err ==> exists|i: int|
            0 <= i < entries@.len() && (#[trigger] entries@[i]) is Err && (forall|k: int|
                0 <= k < i ==> (#[trigger] entries@[k]) is Ok) && r->Err_0
                == ShowError::WorkspaceMember(entries@[i]->Err_0),
{
    let ghost orig = entries@;
    let mut rest = entries;
    let mut out: Vec<Project> = Vec::new();
    loop
        invariant
            rest@.len() <= orig.len(),
            rest@ == orig.skip(orig.len() - rest@.len()),
            out@.len() == orig.len() - rest@.len(),
            forall|k: int| 0 <= k < out@.len() ==> (#[trigger] orig[k]) is Ok,
            forall|k: int| 0 <= k < out@.len() ==> #[trigger] out@[k] == orig[k]->Ok_0,
        decreases rest@.len(),
    {
        if rest.len() == 0 {
            proof {
                assert(out@.len() == orig.len());
            }
            return Ok(out);
        }
        let ghost done = orig.len() - rest@.len();
        let e = rest.remove(0);
        proof {
            assert(orig.skip(done)[0] == orig[done]);
            assert(e == orig[done]);
            assert(rest@ =~= orig.skip(done + 1));
        }
        match e {
            Ok(p) => {
                out.push(p);
            },
            Err(msg) => {
                proof {
                    assert(entries@[done] is Err);
                }
                return Err(ShowError::WorkspaceMember(msg));
            },
        }
    }
}

/// Whether the projects are ordered by root path.
pub open spec fn sorted_by_root(s: Seq<Project>) -> bool {
    forall|i: int, j: int|
        0 <= i < j < s.len() ==> path_le((#[trigger] s[i])@.root, (#[trigger] s[j])@.root)
}

/// Sorts projects by root path, lexicographically by components. The result
/// holds exactly the given projects; display order is independent of the
/// order in which members were enumerated.
#[verifier::loop_isolation(false)]
pub fn sort_by_root_path(v: Vec<Project>) -> (r: Vec<Project>)
    ensures
        sorted_by_root(r@),
        r@.to_multiset() == v@.to_multiset(),
        r@.len() == v@.len(),
{
    let ghost orig = v@;
    let mut rest = v;
    let mut out: Vec<Project> = Vec::new();
    proof {
        orig.to_multiset_ensures();
        assert(out@ =~= Seq::<Project>::empty());
        out@.to_multiset_ensures();
        assert(out@.to_multiset() =~= Multiset::empty());
        assert(out@.to_multiset().add(rest@.to_multiset()) =~= orig.to_multiset());
    }
    loop
        invariant
            sorted_by_root(out@),
            out@.to_multiset().add(rest@.to_multiset()) == orig.to_multiset(),
            out@.len() + rest@.len() == orig.len(),
        decreases rest@.len(),
    {
        proof {
            rest@.to_multiset_ensures();
            out@.to_multiset_ensures();
        }
        if rest.len() == 0 {
            proof {
                assert(rest@ =~= Seq::<Project>::empty());
                assert(rest@.to_multiset() =~= Multiset::empty());
                assert(out@.to_multiset() =~= out@.to_multiset().add(rest@.to_multiset()));
            }
            return out;
        }
        let ghost rest_before = rest@;
        let x = rest.pop().unwrap();
        proof {
            rest@.to_multiset_ensures();
            assert(rest_before =~= rest@.push(x));
            assert(rest_before.to_multiset() == rest@.to_multiset().insert(x));
        }
        let mut j: usize = 0;
        while j < out.len() && out[j].root_path().lt_path(x.root_path())
            invariant
                j <= out@.len(),
                forall|k: int| 0 <= k < j ==> path_lt((#[trigger] out@[k])@.root, x@.root),
            decreases out@.len() - j,
        {
            j = j + 1;
        }
        proof {
            if j < out@.len() {
                lemma_path_trichotomy(x@.root, out@[j as int]@.root);
            }
            assert forall|k: int| j <= k < out@.len() implies path_le(
                x@.root,
                (#[trigger] out@[k])@.root,
            ) by {
                lemma_path_trichotomy(x@.root, out@[j as int]@.root);
                if k > j {
                    lemma_path_le_transitive(x@.root, out@[j as int]@.root, out@[k]@.root);
                }
            }
        }
        let ghost pre = out@;
        out.insert(j, x);
        proof {
            vstd::seq_lib::to_multiset_insert(pre, j as int, x);
            assert forall|a: int, b: int| 0 <= a < b < out@.len() implies path_le(
                (#[trigger] out@[a])@.root,
                (#[trigger] out@[b])@.root,
            ) by {
                assert(out@ == pre.insert(j as int, x));
                if a < j && b < j {
                    assert(out@[a] == pre[a] && out@[b] == pre[b]);
                } else if a < j && b == j {
                    assert(out@[a] == pre[a] && out@[b] == x);
                } else if a < j && b > j {
                    assert(out@[a] == pre[a] && out@[b] == pre[b - 1]);
                } else if a == j {
                    assert(out@[a] == x && out@[b] == pre[b - 1]);
                } else {
                    assert(out@[a] == pre[a - 1] && out@[b] == pre[b - 1]);
                }
            }
            assert(out@.to_multiset() == pre.to_multiset().insert(x));
            assert(out@.to_multiset().add(rest@.to_multiset()) =~= orig.to_multiset());
        }
    }
}


/// Law: when the member roots are pairwise distinct, the sorted display
/// order is unique: any two orderings of the same members that are both
/// sorted by root path are identical, so the displayed listing does not
/// depend on the order in which the members were enumerated.
pub proof fn lemma_sorted_by_root_unique(a: Seq<Project>, b: Seq<Project>)
    requires
        sorted_by_root(a),
        sorted_by_root(b),
        a.to_multiset() == b.to_multiset(),
        forall|i: int, j: int|
            0 <= i < j < a.len() ==> (#[trigger] a[i])@.root != (#[trigger] a[j])@.root,
    ensures
        a == b,
    decreases a.len(),
{
    a.to_multiset_ensures();
    b.to_multiset_ensures();
    if a.len() == 0 {
        assert(b.len() == 0);
        assert(a =~= b);
    } else {
        assert(b.len() == a.len());
        assert(a.contains(a[0]));
        assert(b.to_multiset().count(a[0]) > 0);
        assert(b.contains(a[0]));
        let k = choose|k: int| 0 <= k < b.len() && b[k] == a[0];
        assert(b.contains(b[0]));
        assert(a.to_multiset().count(b[0]) > 0);
        assert(a.contains(b[0]));
        let m = choose|m: int| 0 <= m < a.len() && a[m] == b[0];
        assert(path_le(a[0]@.root, a[m]@.root));
        assert(path_le(b[0]@.root, b[k]@.root));
        if a[0]@.root != b[0]@.root {
            assert(path_lt(a[0]@.root, b[0]@.root));
            assert(path_lt(b[0]@.root, a[0]@.root));
            lemma_path_lt_transitive(a[0]@.root, b[0]@.root, a[0]@.root);
            lemma_path_lt_irreflexive(a[0]@.root);
        }
        assert(a[0]@.root == b[0]@.root);
        assert(m == 0);
        assert(a[0] == b[0]);
        let a1 = a.drop_first();
        let b1 = b.drop_first();
        assert(a.remove(0) =~= a1);
        assert(b.remove(0) =~= b1);
        assert(a1.to_multiset() == a.to_multiset().remove(a[0]));
        assert(b1.to_multiset() == b.to_multiset().remove(b[0]));
        assert(a1.to_multiset() == b1.to_multiset());
        assert(sorted_by_root(a1)) by {
            assert forall|i: int, j: int| 0 <= i < j < a1.len() implies path_le(
                (#[trigger] a1[i])@.root,
                (#[trigger] a1[j])@.root,
            ) by {
                assert(a1[i] == a[i + 1]);
                assert(a1[j] == a[j + 1]);
            }
        }
        assert(sorted_by_root(b1)) by {
            assert forall|i: int, j: int| 0 <= i < j < b1.len() implies path_le(
                (#[trigger] b1[i])@.root,
                (#[trigger] b1[j])@.root,
            ) by {
                assert(b1[i] == b[i + 1]);
                assert(b1[j] == b[j + 1]);
            }
        }
        assert forall|i: int, j: int|
            0 <= i < j < a1.len() implies (#[trigger] a1[i])@.root != (#[trigger] a1[j])@.root by {
            assert(a1[i] == a[i + 1]);
            assert(a1[j] == a[j + 1]);
        }
        lemma_sorted_by_root_unique(a1, b1);
        assert forall|t: int| 0 <= t < a.len() implies a[t] == b[t] by {
            if t > 0 {
                assert(a[t] == a1[t - 1]);
                assert(b[t] == b1[t - 1]);
            }
        }
        assert(a =~= b);
    }
}

} // verus!

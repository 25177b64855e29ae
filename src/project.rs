//! Projects: the grouping of the Git repositories found under a root.
//!
//! The file system is read outside this library. A [`DirTree`] records the
//! listings read so far and says which directory to list next: the root,
//! then every sub-directory of a listed directory that is not itself a
//! repository. [`scan`] then groups the recorded tree into projects.

use vstd::prelude::*;

use crate::directory::{
    contains_git, dirs_view, get_name, has_git, name_of, DirView, Directory,
};
use crate::paint::{bright_green, painted, yellow, Hue};
use crate::text::{path_debug, path_debug_of};

verus! {

/// A project: a directory that is itself a repository (`repos` is `None`),
/// or a directory holding the repositories listed in `repos`.
pub struct Project {
    pub name: String,
    pub path: String,
    pub repos: Option<Vec<Directory>>,
}

/// What a project is, as plain values.
pub struct ProjectView {
    pub name: Seq<char>,
    pub path: Seq<char>,
    pub repos: Option<Seq<DirView>>,
}

impl View for Project {
    type V = ProjectView;

    open spec fn view(&self) -> ProjectView {
        ProjectView {
            name: self.name@,
            path: self.path@,
            repos: match self.repos {
                Some(rs) => Some(dirs_view(rs@)),
                None => None,
            },
        }
    }
}

/// The views of a sequence of projects.
pub open spec fn projects_view(ps: Seq<Project>) -> Seq<ProjectView> {
    ps.map_values(|p: Project| p@)
}

/// Why a scan found nothing to report.
pub enum ScanError {
    /// No repository lies under the root.
    NoProjectsFound,
    /// The directory at this path could not be listed.
    UnreadableRoot(String),
}

/// A directory met while exploring: whether its listing made it a
/// repository, and the indices of the sub-directories recorded for it.
pub struct Node {
    pub dir: Directory,
    pub repo: bool,
    pub children: Vec<usize>,
}

/// What a node is, as plain values.
pub struct NodeView {
    pub dir: DirView,
    pub repo: bool,
    pub children: Seq<usize>,
}

impl View for Node {
    type V = NodeView;

    open spec fn view(&self) -> NodeView {
        NodeView { dir: self.dir@, repo: self.repo, children: self.children@ }
    }
}

/// The part of a directory tree explored so far. Node 0 is the root; a
/// node's children always have larger indices than the node itself.
/// `pending` holds the nodes still to be listed, the next one last.
pub struct DirTree {
    pub nodes: Vec<Node>,
    pub pending: Vec<usize>,
    pub failed: Option<String>,
}

/// What an explored tree is, as plain values.
pub struct TreeView {
    pub nodes: Seq<NodeView>,
    pub pending: Seq<usize>,
    pub failed: Option<Seq<char>>,
}

impl View for DirTree {
    type V = TreeView;

    open spec fn view(&self) -> TreeView {
        TreeView {
            nodes: self.nodes@.map_values(|n: Node| n@),
            pending: self.pending@,
            failed: match self.failed {
                Some(p) => Some(p@),
                None => None,
            },
        }
    }
}

/// The shape every explored tree keeps: a root, children after their
/// parent, and pending nodes that exist.
pub open spec fn tree_wf(t: TreeView) -> bool {
    &&& t.nodes.len() >= 1
    &&& forall|i: int, k: int|
        0 <= i < t.nodes.len() && 0 <= k < t.nodes[i].children.len() ==> i < (
        #[trigger] t.nodes[i].children[k]) < t.nodes.len()
    &&& forall|k: int| 0 <= k < t.pending.len() ==> #[trigger] t.pending[k] < t.nodes.len()
}

/// The tree before anything is listed: the root alone, waiting to be listed.
pub open spec fn fresh_tree(root: DirView) -> TreeView {
    TreeView {
        nodes: seq![NodeView { dir: root, repo: false, children: seq![] }],
        pending: seq![0usize],
        failed: None,
    }
}

/// The tree once the next pending directory has been listed as `listing`.
/// A directory holding Git's data directory is a repository and is not
/// explored further; any other gets one new node per entry of its listing,
/// and those are listed next, first entry first.
pub open spec fn listed(t: TreeView, listing: Seq<DirView>) -> TreeView {
    let k = t.pending.last() as int;
    let n = t.nodes.len();
    let m = listing.len();
    if has_git(listing) {
        TreeView {
            nodes: t.nodes.update(k, NodeView { repo: true, ..t.nodes[k] }),
            pending: t.pending.drop_last(),
            failed: None,
        }
    } else {
        TreeView {
            nodes: t.nodes.update(
                k,
                NodeView { children: Seq::new(m, |j: int| (n + j) as usize), ..t.nodes[k] },
            ) + Seq::new(
                m,
                |j: int| NodeView { dir: listing[j], repo: false, children: seq![] },
            ),
            pending: t.pending.drop_last() + Seq::new(m, |j: int| (n + m - 1 - j) as usize),
            failed: None,
        }
    }
}

/// Nothing is left to list: every directory was listed, or one failed.
pub open spec fn explored(t: TreeView) -> bool {
    t.pending.len() == 0 || t.failed is Some
}

/// The repositories among the first `k` children of node `i`, in order.
pub open spec fn repos_upto(t: Seq<NodeView>, i: int, k: int) -> Seq<DirView>
    decreases k,
{
    if k <= 0 || i < 0 || i >= t.len() || k > t[i].children.len() {
        seq![]
    } else {
        let c = t[i].children[k - 1] as int;
        repos_upto(t, i, k - 1) + if 0 <= c < t.len() && t[c].repo {
            seq![t[c].dir]
        } else {
            seq![]
        }
    }
}

/// The projects found below the first `k` children of node `i` that are not
/// repositories themselves, in the order of those children.
pub open spec fn gather(t: Seq<NodeView>, i: int, k: int) -> Seq<ProjectView>
    decreases t.len() - i, k,
{
    if i < 0 || i >= t.len() || k <= 0 || k > t[i].children.len() {
        seq![]
    } else {
        let c = t[i].children[k - 1] as int;
        gather(t, i, k - 1) + if i < c < t.len() && !t[c].repo {
            projects_below(t, c)
        } else {
            seq![]
        }
    }
}

/// The project that node `i` forms on its own level: one holding its
/// repository children, when it has any.
pub open spec fn level_project(t: Seq<NodeView>, i: int) -> Seq<ProjectView> {
    let repos = repos_upto(t, i, t[i].children.len() as int);
    if repos.len() > 0 {
        seq![ProjectView { name: name_of(t[i].dir.path), path: t[i].dir.path, repos: Some(repos) }]
    } else {
        seq![]
    }
}

/// The projects found at and below node `i`, a directory that is not a
/// repository: those deeper down first, then the one of its own level.
pub open spec fn projects_below(t: Seq<NodeView>, i: int) -> Seq<ProjectView>
    decreases t.len() - i, if 0 <= i < t.len() {
        t[i].children.len() + 1
    } else {
        0
    },
{
    if i < 0 || i >= t.len() {
        seq![]
    } else {
        gather(t, i, t[i].children.len() as int) + level_project(t, i)
    }
}

/// What a scan comes to.
pub enum ScanOutcome {
    Found(Seq<ProjectView>),
    NoProjects,
    Unreadable(Seq<char>),
}

/// The result of scanning the explored tree `t`. A root that is a repository
/// is the one project; otherwise the projects below the root are, and there
/// must be at least one.
pub open spec fn scan_spec(t: TreeView) -> ScanOutcome {
    match t.failed {
        Some(p) => ScanOutcome::Unreadable(p),
        None => if t.nodes[0].repo {
            ScanOutcome::Found(
                seq![ProjectView { name: name_of(t.nodes[0].dir.path), path: t.nodes[0].dir.path, repos: None }],
            )
        } else if projects_below(t.nodes, 0).len() == 0 {
            ScanOutcome::NoProjects
        } else {
            ScanOutcome::Found(projects_below(t.nodes, 0))
        },
    }
}

/// What a scan's result says, as plain values.
pub open spec fn outcome_of(r: Result<Vec<Project>, ScanError>) -> ScanOutcome {
    match r {
        Ok(ps) => ScanOutcome::Found(projects_view(ps@)),
        Err(ScanError::NoProjectsFound) => ScanOutcome::NoProjects,
        Err(ScanError::UnreadableRoot(p)) => ScanOutcome::Unreadable(p@),
    }
}

impl Project {
    /// A copy of this project.
    pub fn duplicate(&self) -> (r: Project)
        ensures
            r@ == self@,
    {
        let repos = match &self.repos {
            Some(rs) => Some(copy_dirs(rs)),
            None => None,
        };
        Project { name: self.name.clone(), path: self.path.clone(), repos }
    }
}

fn copy_dirs(dirs: &Vec<Directory>) -> (r: Vec<Directory>)
    ensures
        dirs_view(r@) == dirs_view(dirs@),
{
    let mut r: Vec<Directory> = Vec::new();
    let mut i: usize = 0;
    while i < dirs.len()
        invariant
            i <= dirs@.len(),
            dirs_view(r@) =~= dirs_view(dirs@).subrange(0, i as int),
        decreases dirs@.len() - i,
    {
        let ghost before = dirs_view(r@);
        r.push(dirs[i].duplicate());
        assert(dirs_view(r@) =~= before.push(dirs@[i as int]@));
        i = i + 1;
    }
    assert(dirs_view(dirs@).subrange(0, i as int) =~= dirs_view(dirs@));
    r
}

/// Appends copies of `src` to `dst`.
fn append_copies(dst: &mut Vec<Project>, src: &Vec<Project>)
    ensures
        projects_view(final(dst)@) == projects_view(old(dst)@) + projects_view(src@),
{
    let ghost start = projects_view(dst@);
    let mut i: usize = 0;
    while i < src.len()
        invariant
            i <= src@.len(),
            projects_view(dst@) =~= start + projects_view(src@).subrange(0, i as int),
        decreases src@.len() - i,
    {
        let ghost before = projects_view(dst@);
        dst.push(src[i].duplicate());
        assert(projects_view(dst@) =~= before.push(src@[i as int]@));
        i = i + 1;
    }
    assert(projects_view(src@).subrange(0, i as int) =~= projects_view(src@));
}

/// The one project of a root that is itself a repository.
pub fn parent_lvl_project(path: &str) -> (r: Vec<Project>)
    ensures
        projects_view(r@) == seq![ProjectView { name: name_of(path@), path: path@, repos: None }],
{
    let mut r: Vec<Project> = Vec::new();
    r.push(Project { name: get_name(path), path: path.to_string(), repos: None });
    assert(projects_view(r@) =~= seq![ProjectView { name: name_of(path@), path: path@, repos: None }]);
    r
}

/// The projects at and below node `i`, given those below each of its
/// children that come after it.
fn level_projects(tree: &DirTree, i: usize, results: &Vec<Vec<Project>>) -> (r: Vec<Project>)
    requires
        tree_wf(tree@),
        i < tree@.nodes.len(),
        results@.len() == tree@.nodes.len(),
        forall|j: int|
            i < j < tree@.nodes.len() ==> projects_view(#[trigger] results@[j]@)
                == projects_below(tree@.nodes, j),
    ensures
        projects_view(r@) == projects_below(tree@.nodes, i as int),
{
    let ghost t = tree@.nodes;
    let node = &tree.nodes[i];
    assert(node@ == t[i as int]);
    let mut acc: Vec<Project> = Vec::new();
    let mut repos: Vec<Directory> = Vec::new();
    let mut k: usize = 0;
    while k < node.children.len()
        invariant
            tree_wf(tree@),
            t == tree@.nodes,
            i < t.len(),
            node@ == t[i as int],
            k <= node.children@.len(),
            results@.len() == t.len(),
            forall|j: int|
                i < j < t.len() ==> projects_view(#[trigger] results@[j]@) == projects_below(t, j),
            projects_view(acc@) == gather(t, i as int, k as int),
            dirs_view(repos@) == repos_upto(t, i as int, k as int),
        decreases node.children@.len() - k,
    {
        let c = node.children[k];
        assert(i < t[i as int].children[k as int] < t.len());
        assert(tree.nodes@[c as int]@ == t[c as int]);
        if tree.nodes[c].repo {
            let ghost before = dirs_view(repos@);
            repos.push(tree.nodes[c].dir.duplicate());
            assert(dirs_view(repos@) =~= before.push(t[c as int].dir));
        } else {
            append_copies(&mut acc, &results[c]);
        }
        k = k + 1;
    }
    if repos.len() > 0 {
        let ghost rv = dirs_view(repos@);
        let project = Project {
            name: get_name(node.dir.path.as_str()),
            path: node.dir.path.clone(),
            repos: Some(repos),
        };
        let ghost before = projects_view(acc@);
        acc.push(project);
        assert(projects_view(acc@) =~= before.push(project@));
        assert(level_project(t, i as int) =~= seq![project@]);
    } else {
        assert(level_project(t, i as int) =~= seq![]);
        assert(projects_view(acc@) =~= projects_view(acc@) + seq![]);
    }
    acc
}

/// The projects below the root, computed bottom-up: nodes are visited from
/// the last to the first, so each node's children are done before it.
fn scan_deeper(tree: &DirTree) -> (r: Vec<Project>)
    requires
        tree_wf(tree@),
    ensures
        projects_view(r@) == projects_below(tree@.nodes, 0),
{
    let n = tree.nodes.len();
    let mut results: Vec<Vec<Project>> = Vec::new();
    let mut j: usize = 0;
    while j < n
        invariant
            j <= n,
            n == tree@.nodes.len(),
            results@.len() == j,
        decreases n - j,
    {
        results.push(Vec::new());
        j = j + 1;
    }
    let mut i: usize = n;
    while i > 0
        invariant
            i <= n,
            n == tree@.nodes.len(),
            tree_wf(tree@),
            results@.len() == n,
            forall|j: int|
                i <= j < n ==> projects_view(#[trigger] results@[j]@) == projects_below(
                    tree@.nodes,
                    j,
                ),
        decreases i,
    {
        let v = level_projects(tree, i - 1, &results);
        results.set(i - 1, v);
        i = i - 1;
    }
    let mut first: Vec<Project> = Vec::new();
    results.set_and_swap(0, &mut first);
    first
}

/// Groups the explored tree into projects.
///
/// A failed listing makes the scan fail with `UnreadableRoot`. A root that
/// is itself a repository is the one project, named after the root. Else
/// each directory holding repositories is a project of those repositories,
/// deeper ones first; when there is none, the scan fails with
/// `NoProjectsFound`.
pub fn scan(tree: &DirTree) -> (r: Result<Vec<Project>, ScanError>)
    requires
        tree_wf(tree@),
    ensures
        outcome_of(r) == scan_spec(tree@),
{
    match &tree.failed {
        Some(p) => {
            return Err(ScanError::UnreadableRoot(p.clone()));
        },
        None => {},
    }
    assert(tree.nodes@[0]@ == tree@.nodes[0]);
    if tree.nodes[0].repo {
        return Ok(parent_lvl_project(tree.nodes[0].dir.path.as_str()));
    }
    let projects = scan_deeper(tree);
    if projects.len() == 0 {
        Err(ScanError::NoProjectsFound)
    } else {
        Ok(projects)
    }
}

/// A root whose own listing holds Git's data directory needs no further
/// listing, and is the one project found: one without a list of
/// repositories, named after the root's final path component.
pub proof fn lemma_repository_root(root: Seq<char>, listing: Seq<DirView>)
    requires
        has_git(listing),
    ensures
        ({
            let t = listed(fresh_tree(DirView { name: name_of(root), path: root }), listing);
            &&& explored(t)
            &&& scan_spec(t) == ScanOutcome::Found(
                seq![ProjectView { name: name_of(root), path: root, repos: None }],
            )
        }),
{
    let t = listed(fresh_tree(DirView { name: name_of(root), path: root }), listing);
    assert(t.pending.len() == 0);
    assert(t.nodes[0].repo);
}

proof fn lemma_no_repos_upto(t: Seq<NodeView>, i: int, k: int)
    requires
        forall|j: int| 0 <= j < t.len() ==> !(#[trigger] t[j]).repo,
    ensures
        repos_upto(t, i, k).len() == 0,
    decreases k,
{
    if k > 0 {
        lemma_no_repos_upto(t, i, k - 1);
    }
}

proof fn lemma_nothing_gathered(t: Seq<NodeView>, i: int, k: int)
    requires
        forall|j: int| 0 <= j < t.len() ==> !(#[trigger] t[j]).repo,
    ensures
        gather(t, i, k).len() == 0,
    decreases t.len() - i, k,
{
    if !(i < 0 || i >= t.len() || k <= 0 || k > t[i].children.len()) {
        lemma_nothing_gathered(t, i, k - 1);
        let c = t[i].children[k - 1] as int;
        if i < c < t.len() {
            lemma_nothing_below(t, c);
        }
    }
}

proof fn lemma_nothing_below(t: Seq<NodeView>, i: int)
    requires
        forall|j: int| 0 <= j < t.len() ==> !(#[trigger] t[j]).repo,
    ensures
        projects_below(t, i).len() == 0,
    decreases t.len() - i, if 0 <= i < t.len() {
        t[i].children.len() + 1
    } else {
        0
    },
{
    if 0 <= i < t.len() {
        lemma_nothing_gathered(t, i, t[i].children.len() as int);
        lemma_no_repos_upto(t, i, t[i].children.len() as int);
    }
}

/// Where no directory listed holds Git's data directory, there is no
/// repository anywhere in the tree, and the scan finds no project.
pub proof fn lemma_no_repository(t: TreeView)
    requires
        tree_wf(t),
        t.failed is None,
        forall|j: int| 0 <= j < t.nodes.len() ==> !(#[trigger] t.nodes[j]).repo,
    ensures
        scan_spec(t) == ScanOutcome::NoProjects,
{
    lemma_nothing_below(t.nodes, 0);
}

/// The lines that name the repositories of a project, as written in `ys`.
pub open spec fn repo_lines(ys: Seq<Seq<char>>) -> Seq<char>
    decreases ys.len(),
{
    if ys.len() == 0 {
        seq![]
    } else {
        repo_lines(ys.drop_last()) + "  - "@ + ys.last() + "\n"@
    }
}

/// The entry that lists project `p`, with its name written as `g` and the
/// names of its repositories as `ys`.
pub open spec fn entry_text(p: ProjectView, g: Seq<char>, ys: Seq<Seq<char>>) -> Seq<char> {
    match p.repos {
        Some(_) => "\nProject "@ + g + ", "@ + path_debug_of(p.path) + ", with Git repositories:\n"@
            + repo_lines(ys),
        None => "\nProject found: "@ + g + ", "@ + path_debug_of(p.path) + "\n"@,
    }
}

/// `g` and `ys` are the name of `p` in bright green and the names of its
/// repositories in yellow.
pub open spec fn entry_painted(p: ProjectView, g: Seq<char>, ys: Seq<Seq<char>>) -> bool {
    &&& painted(g, p.name, Hue::BrightGreen)
    &&& match p.repos {
        Some(rs) => ys.len() == rs.len() && forall|k: int|
            0 <= k < rs.len() ==> painted(#[trigger] ys[k], rs[k].name, Hue::Yellow),
        None => ys.len() == 0,
    }
}

/// The entries of all of `ps`, in order, with the names written as `gs` and
/// `yss`.
pub open spec fn listing_text(
    ps: Seq<ProjectView>,
    gs: Seq<Seq<char>>,
    yss: Seq<Seq<Seq<char>>>,
) -> Seq<char>
    decreases ps.len(),
{
    if ps.len() == 0 {
        seq![]
    } else {
        listing_text(ps.drop_last(), gs.drop_last(), yss.drop_last()) + entry_text(
            ps.last(),
            gs.last(),
            yss.last(),
        )
    }
}

/// `gs` and `yss` are the coloured names of all of `ps`.
pub open spec fn listing_painted(
    ps: Seq<ProjectView>,
    gs: Seq<Seq<char>>,
    yss: Seq<Seq<Seq<char>>>,
) -> bool {
    &&& gs.len() == ps.len()
    &&& yss.len() == ps.len()
    &&& forall|i: int| 0 <= i < ps.len() ==> entry_painted(ps[i], #[trigger] gs[i], yss[i])
}

/// `after` is `before` followed by the entries of all of `ps`, in order,
/// project names in bright green and repository names in yellow.
pub open spec fn listing_written(before: Seq<char>, after: Seq<char>, ps: Seq<ProjectView>) -> bool {
    exists|gs: Seq<Seq<char>>, yss: Seq<Seq<Seq<char>>>|
        listing_painted(ps, gs, yss) && after == before + #[trigger] listing_text(ps, gs, yss)
}

/// Writes the entry of one project to `out`.
fn print_entry(project: &Project, out: &mut String) -> (r: (Ghost<Seq<char>>, Ghost<Seq<Seq<char>>>))
    ensures
        entry_painted(project@, r.0@, r.1@),
        final(out)@ == old(out)@ + entry_text(project@, r.0@, r.1@),
{
    let g = bright_green(project.name.as_str());
    let pd = path_debug(project.path.as_str());
    match &project.repos {
        Some(repos) => {
            out.append("\nProject ");
            out.append(g.as_str());
            out.append(", ");
            out.append(pd.as_str());
            out.append(", with Git repositories:\n");
            let ghost head = out@;
            let ghost mut ys: Seq<Seq<char>> = seq![];
            let mut k: usize = 0;
            while k < repos.len()
                invariant
                    k <= repos@.len(),
                    ys.len() == k,
                    forall|j: int|
                        0 <= j < k ==> painted(#[trigger] ys[j], repos@[j].name@, Hue::Yellow),
                    out@ == head + repo_lines(ys),
                decreases repos@.len() - k,
            {
                let y = yellow(repos[k].name.as_str());
                out.append("  - ");
                out.append(y.as_str());
                out.append("\n");
                proof {
                    assert(ys.push(y@).drop_last() =~= ys);
                    ys = ys.push(y@);
                }
                k = k + 1;
            }
            proof {
                assert forall|j: int| 0 <= j < dirs_view(repos@).len() implies painted(
                    #[trigger] ys[j],
                    dirs_view(repos@)[j].name,
                    Hue::Yellow,
                ) by {
                    assert(painted(ys[j], repos@[j].name@, Hue::Yellow));
                }
            }
            (Ghost(g@), Ghost(ys))
        },
        None => {
            out.append("\nProject found: ");
            out.append(g.as_str());
            out.append(", ");
            out.append(pd.as_str());
            out.append("\n");
            let ghost ys: Seq<Seq<char>> = seq![];
            (Ghost(g@), Ghost(ys))
        },
    }
}

/// Writes to `out` one entry per project, in order: a project with
/// repositories as a heading followed by one line per repository, a
/// project that is itself a repository as a single line.
pub fn print_projects(projects: Vec<Project>, out: &mut String)
    ensures
        listing_written(old(out)@, final(out)@, projects_view(projects@)),
{
    let (gs, yss) = write_listing(&projects, out);
    assert(listing_painted(projects_view(projects@), gs@, yss@) && out@ == old(out)@
        + listing_text(projects_view(projects@), gs@, yss@));
}

/// Writes the entries of `projects` to `out`, and gives the coloured names
/// it wrote.
pub(crate) fn write_listing(projects: &Vec<Project>, out: &mut String) -> (r: (
    Ghost<Seq<Seq<char>>>,
    Ghost<Seq<Seq<Seq<char>>>>,
))
    ensures
        listing_painted(projects_view(projects@), r.0@, r.1@),
        final(out)@ == old(out)@ + listing_text(projects_view(projects@), r.0@, r.1@),
{
    let ghost ps = projects_view(projects@);
    let ghost start = out@;
    let ghost mut gs: Seq<Seq<char>> = seq![];
    let ghost mut yss: Seq<Seq<Seq<char>>> = seq![];
    let mut i: usize = 0;
    while i < projects.len()
        invariant
            i <= projects@.len(),
            ps == projects_view(projects@),
            listing_painted(ps.subrange(0, i as int), gs, yss),
            out@ == start + listing_text(ps.subrange(0, i as int), gs, yss),
        decreases projects@.len() - i,
    {
        let (g, ys) = print_entry(&projects[i], out);
        proof {
            let pre = ps.subrange(0, i as int);
            let next = ps.subrange(0, i + 1);
            assert(next.drop_last() =~= pre);
            assert(gs.push(g@).drop_last() =~= gs);
            assert(yss.push(ys@).drop_last() =~= yss);
            assert(next.last() == projects@[i as int]@);
            gs = gs.push(g@);
            yss = yss.push(ys@);
            assert forall|j: int| 0 <= j < next.len() implies entry_painted(
                next[j],
                #[trigger] gs[j],
                yss[j],
            ) by {
                if j < i {
                    assert(next[j] == pre[j]);
                }
            }
        }
        i = i + 1;
    }
    assert(ps.subrange(0, i as int) =~= ps);
    (Ghost(gs), Ghost(yss))
}

/// Recording a listing that does not hold Git's data directory marks no
/// directory as a repository: a tree explored from such listings alone has
/// none, and by `lemma_no_repository` its scan finds no project.
pub proof fn lemma_listing_without_git(t: TreeView, listing: Seq<DirView>)
    requires
        tree_wf(t),
        !explored(t),
        !has_git(listing),
        forall|j: int| 0 <= j < t.nodes.len() ==> !(#[trigger] t.nodes[j]).repo,
    ensures
        forall|j: int|
            0 <= j < listed(t, listing).nodes.len() ==> !(#[trigger] listed(t, listing).nodes[j]).repo,
{
    let u = listed(t, listing);
    assert forall|j: int| 0 <= j < u.nodes.len() implies !(#[trigger] u.nodes[j]).repo by {
        if j < t.nodes.len() {
            assert(t.pending[t.pending.len() - 1] < t.nodes.len());
        }
    }
}

impl DirTree {
    /// The tree for the directory at `root`, before anything is listed.
    pub fn new(root: String) -> (r: DirTree)
        ensures
            r@ == fresh_tree(DirView { name: name_of(root@), path: root@ }),
            tree_wf(r@),
    {
        let node = Node { dir: Directory::from(root), repo: false, children: Vec::new() };
        let mut nodes: Vec<Node> = Vec::new();
        nodes.push(node);
        let mut pending: Vec<usize> = Vec::new();
        pending.push(0);
        let r = DirTree { nodes, pending, failed: None };
        assert(r@.nodes =~= fresh_tree(DirView { name: name_of(root@), path: root@ }).nodes);
        assert(r@.pending =~= seq![0usize]);
        r
    }

    /// The path of the directory to list next, if any is left.
    pub fn next_path(&self) -> (r: Option<String>)
        requires
            tree_wf(self@),
        ensures
            explored(self@) <==> r is None,
            r matches Some(p) ==> p@ == self@.nodes[self@.pending.last() as int].dir.path,
    {
        if self.failed.is_some() || self.pending.len() == 0 {
            return None;
        }
        let k = self.pending[self.pending.len() - 1];
        assert(self@.pending[self@.pending.len() - 1] < self@.nodes.len());
        Some(self.nodes[k].dir.path.clone())
    }

    /// Records that the directory to list next could not be listed; the
    /// exploration stops there.
    pub fn listing_failed(&mut self)
        requires
            tree_wf(old(self)@),
            !explored(old(self)@),
        ensures
            final(self)@ == (TreeView {
                failed: Some(old(self)@.nodes[old(self)@.pending.last() as int].dir.path),
                ..old(self)@
            }),
            tree_wf(final(self)@),
    {
        let k = self.pending[self.pending.len() - 1];
        assert(self@.pending[self@.pending.len() - 1] < self@.nodes.len());
        self.failed = Some(self.nodes[k].dir.path.clone());
    }

    /// Records the listing of the directory to list next, and plans the
    /// listings that follow from it.
    pub fn add_listing(&mut self, listing: Vec<Directory>)
        requires
            tree_wf(old(self)@),
            !explored(old(self)@),
            old(self)@.nodes.len() + listing@.len() <= usize::MAX,
        ensures
            final(self)@ == listed(old(self)@, dirs_view(listing@)),
            tree_wf(final(self)@),
    {
        let ghost t = self@;
        let ghost lv = dirs_view(listing@);
        let k = self.pending.pop().unwrap();
        assert(self.pending@ == t.pending.drop_last());
        assert(t.pending[t.pending.len() - 1] < t.nodes.len());
        let mut node = Node {
            dir: Directory { name: String::new(), path: String::new() },
            repo: false,
            children: Vec::new(),
        };
        self.nodes.set_and_swap(k, &mut node);
        if contains_git(listing.as_slice()) {
            assert(has_git(lv));
            node.repo = true;
            self.nodes.set_and_swap(k, &mut node);
            assert(self@.nodes =~= listed(t, lv).nodes);
            assert(self@.pending =~= listed(t, lv).pending);
        } else {
            assert(!has_git(lv));
            let n = self.nodes.len();
            let m = listing.len();
            let mut children: Vec<usize> = Vec::new();
            let mut j: usize = 0;
            while j < m
                invariant
                    j <= m,
                    m == listing@.len(),
                    n + m <= usize::MAX,
                    children@ =~= Seq::new(j as nat, |x: int| (n + x) as usize),
                decreases m - j,
            {
                children.push(n + j);
                j = j + 1;
            }
            node.children = children;
            self.nodes.set_and_swap(k, &mut node);
            let ghost updated = self@.nodes;
            assert(updated =~= t.nodes.update(
                k as int,
                NodeView { children: Seq::new(m as nat, |x: int| (n + x) as usize), ..t.nodes[k as int] },
            ));
            let mut j: usize = 0;
            while j < m
                invariant
                    j <= m,
                    m == listing@.len(),
                    n == t.nodes.len(),
                    n + m <= usize::MAX,
                    self@.nodes =~= updated + Seq::new(
                        j as nat,
                        |x: int| NodeView { dir: lv[x], repo: false, children: seq![] },
                    ),
                    t.pending.len() > 0,
                    self@.failed == t.failed,
                    self@.pending == t.pending.drop_last(),
                    updated.len() == n,
                    lv == dirs_view(listing@),
                decreases m - j,
            {
                let d = listing[j].duplicate();
                assert(lv[j as int] == listing@[j as int]@);
                let ghost before = self@.nodes;
                self.nodes.push(Node { dir: d, repo: false, children: Vec::new() });
                assert(self@.nodes =~= before.push(
                    NodeView { dir: lv[j as int], repo: false, children: seq![] },
                ));
                j = j + 1;
            }
            let ghost fresh = Seq::new(
                m as nat,
                |x: int| NodeView { dir: lv[x], repo: false, children: seq![] },
            );
            assert(self@.nodes =~= updated + fresh);
            let mut j: usize = m;
            while j > 0
                invariant
                    self@.nodes == updated + fresh,
                    self@.failed == t.failed,
                    j <= m,
                    m == listing@.len(),
                    n == t.nodes.len(),
                    n + m <= usize::MAX,
                    self@.nodes.len() == n + m,
                    t.pending.len() > 0,
                    self@.pending =~= t.pending.drop_last() + Seq::new(
                        (m - j) as nat,
                        |x: int| (n + m - 1 - x) as usize,
                    ),
                decreases j,
            {
                self.pending.push(n + j - 1);
                j = j - 1;
            }
            assert(k == t.pending.last());
            assert(listed(t, lv).nodes =~= updated + fresh);
            assert(self@.pending =~= listed(t, lv).pending);
        }
        assert(self@.failed == listed(t, lv).failed);
    }
}

} // verus!

//! The commands: listing projects, running a Git command over the
//! repositories of one or all projects, and cleaning up a finished branch.
//!
//! Each command that needs outside work is a state machine: it says which
//! Git command to run next, and the caller runs it and hands back how it
//! ended.

use vstd::prelude::*;

use crate::directory::{dirs_view, DirView, Directory};
use crate::git::{
    checkout, delete, pull, strings_view, CommandResult, GitError, GIT_PULL, GIT_STATUS,
};
use crate::paint::{bright_green, bright_red, painted, red, yellow, Hue};
use crate::project::{
    listing_painted, listing_text, listing_written, projects_view, write_listing, scan, scan_spec, tree_wf, DirTree, Project, ProjectView,
    ScanError, ScanOutcome,
};
use crate::text::{
    decimal, eq_ignore_ascii_case, eq_ignore_case, int_text, path_debug, path_debug_of, trim,
    trim_of,
};

verus! {

/// The commands a user can give.
pub enum Commands {
    /// List the Git repositories under the root.
    List,
    /// Run `git status` in each repository of the named project, or of all.
    Status { name: String },
    /// Run `git pull` in each repository of the named project, or of all.
    Pull { name: String },
    /// Check out the main line of development and delete the branch left.
    Clean,
}

/// The branch to switch to: `develop` if there is one, else `main`, else
/// `master`.
pub open spec fn target_of(branches: Seq<Seq<char>>) -> Option<Seq<char>> {
    if branches.contains("develop"@) {
        Some("develop"@)
    } else if branches.contains("main"@) {
        Some("main"@)
    } else if branches.contains("master"@) {
        Some("master"@)
    } else {
        None
    }
}

fn has_branch(branches: &Vec<String>, name: &String) -> (r: bool)
    ensures
        r == strings_view(branches@).contains(name@),
{
    let mut i: usize = 0;
    while i < branches.len()
        invariant
            i <= branches@.len(),
            forall|j: int| 0 <= j < i ==> #[trigger] branches@[j]@ != name@,
        decreases branches@.len() - i,
    {
        if branches[i] == *name {
            assert(strings_view(branches@)[i as int] == name@);
            return true;
        }
        i = i + 1;
    }
    assert forall|j: int| 0 <= j < strings_view(branches@).len() implies #[trigger] strings_view(
        branches@,
    )[j] != name@ by {
        assert(branches@[j]@ != name@);
    }
    false
}

/// Picks the branch to switch to, in the order `develop`, `main`, `master`;
/// `None` when there is none of them.
pub fn determine_target(branches: Vec<String>) -> (r: Option<String>)
    ensures
        match target_of(strings_view(branches@)) {
            Some(t) => r matches Some(b) && b@ == t,
            None => r is None,
        },
{
    let develop = String::from_str("develop");
    if has_branch(&branches, &develop) {
        return Some(develop);
    }
    let main = String::from_str("main");
    if has_branch(&branches, &main) {
        return Some(main);
    }
    let master = String::from_str("master");
    if has_branch(&branches, &master) {
        return Some(master);
    }
    None
}

/// An answer that agrees: `y` or `yes`, in any case.
pub open spec fn affirmative(t: Seq<char>) -> bool {
    eq_ignore_case(t, "y"@) || eq_ignore_case(t, "yes"@)
}

/// Tells whether an answer, already trimmed, agrees.
pub fn is_affirmative(t: &str) -> (r: bool)
    ensures
        r == affirmative(t@),
{
    eq_ignore_ascii_case(t, "y") || eq_ignore_ascii_case(t, "yes")
}

/// Tells whether the user's answer agrees: once trimmed of white space, it
/// is `y` or `yes` in any case. Anything else, a blank answer included,
/// declines.
pub fn user_confirmed(input: &str) -> (r: bool)
    ensures
        r == affirmative(trim_of(input@)),
{
    let t = trim(input);
    is_affirmative(t.as_str())
}

/// A blank answer declines.
pub proof fn lemma_blank_declines()
    ensures
        !affirmative(seq![]),
{
    reveal_strlit("y");
    reveal_strlit("yes");
}

/// Where the clean-up of a branch stands.
#[derive(PartialEq, Eq, Structural)]
pub enum CleanStage {
    /// The plan was shown; the user's answer is awaited.
    AwaitConfirmation,
    /// The target is to be checked out.
    Checkout,
    /// The target is to be pulled.
    Pull,
    /// The branch left behind is to be deleted.
    Delete,
    /// Nothing is left to do.
    Done,
}

/// The clean-up of the branch `current` in favour of `target`.
pub struct Cleanup {
    pub target: String,
    pub current: String,
    pub stage: CleanStage,
}

/// A Git command that changes the working copy.
pub enum GitOp {
    /// Check out the branch.
    Checkout(String),
    /// Pull the branch checked out.
    Pull,
    /// Delete the branch.
    Delete(String),
}

/// The text that announces a clean-up, with the target written as `g` and
/// the branch to delete as `b`.
pub open spec fn plan_text(g: Seq<char>, b: Seq<char>) -> Seq<char> {
    "Branch will be changed to "@ + g + " and branch "@ + b + " will be deleted\n"@
        + "Continue? (y / N and hit Enter)\n"@
}

/// The text that announces a clean-up, the target and the branch to delete
/// already coloured.
pub fn plan_line(painted_target: &str, painted_current: &str) -> (r: String)
    ensures
        r@ == plan_text(painted_target@, painted_current@),
{
    let mut r = String::from_str("Branch will be changed to ");
    r.append(painted_target);
    r.append(" and branch ");
    r.append(painted_current);
    r.append(" will be deleted\n");
    r.append("Continue? (y / N and hit Enter)\n");
    r
}

/// Starts the clean-up of the branch `current`, given the local branches.
///
/// When no target can be found, or the target is `current` itself, this
/// says so on `out` and there is nothing to run. Otherwise it shows the plan
/// on `out` and returns the clean-up, which awaits the user's answer.
pub fn clean(current: String, branches: Vec<String>, out: &mut String) -> (r: Option<Cleanup>)
    ensures
        match target_of(strings_view(branches@)) {
            None => r is None && final(out)@ == old(out)@
                + "Unable to determine target branch to checkout to\n"@,
            Some(t) => if t == current@ {
                r is None && final(out)@ == old(out)@ + "Current branch is already "@ + current@
                    + "\n"@
            } else {
                &&& r matches Some(c) && c.target@ == t && c.current@ == current@ && c.stage
                    == CleanStage::AwaitConfirmation
                &&& exists|g: Seq<char>, b: Seq<char>|
                    painted(g, t, Hue::BrightGreen) && painted(b, current@, Hue::BrightRed)
                        && final(out)@ == old(out)@ + #[trigger] plan_text(g, b)
            },
        },
{
    match determine_target(branches) {
        Some(target) => {
            if target == current {
                out.append("Current branch is already ");
                out.append(current.as_str());
                out.append("\n");
                None
            } else {
                let g = bright_green(target.as_str());
                let b = bright_red(current.as_str());
                out.append(plan_line(g.as_str(), b.as_str()).as_str());
                assert(out@ == old(out)@ + plan_text(g@, b@));
                Some(Cleanup { target, current, stage: CleanStage::AwaitConfirmation })
            }
        },
        None => {
            out.append("Unable to determine target branch to checkout to\n");
            None
        },
    }
}

impl Cleanup {
    /// Takes the user's answer: one that agrees starts the Git commands,
    /// any other ends the clean-up, which says so on `out`.
    pub fn confirm(&mut self, input: &str, out: &mut String)
        requires
            old(self).stage == CleanStage::AwaitConfirmation,
        ensures
            final(self).target == old(self).target,
            final(self).current == old(self).current,
            affirmative(trim_of(input@)) ==> final(self).stage == CleanStage::Checkout
                && final(out)@ == old(out)@,
            !affirmative(trim_of(input@)) ==> final(self).stage == CleanStage::Done
                && final(out)@ == old(out)@ + "Aborting\n"@,
    {
        if user_confirmed(input) {
            self.stage = CleanStage::Checkout;
        } else {
            out.append("Aborting\n");
            self.stage = CleanStage::Done;
        }
    }

    /// The Git command to run next, if any.
    pub fn next_op(&self) -> (r: Option<GitOp>)
        ensures
            match self.stage {
                CleanStage::Checkout => r matches Some(GitOp::Checkout(b)) && b@ == self.target@,
                CleanStage::Pull => r matches Some(GitOp::Pull),
                CleanStage::Delete => r matches Some(GitOp::Delete(b)) && b@ == self.current@,
                _ => r is None,
            },
    {
        match self.stage {
            CleanStage::Checkout => Some(GitOp::Checkout(self.target.clone())),
            CleanStage::Pull => Some(GitOp::Pull),
            CleanStage::Delete => Some(GitOp::Delete(self.current.clone())),
            _ => None,
        }
    }

    /// Takes how the command of [`Cleanup::next_op`] ended. A success moves
    /// on to the next command: check-out, then pull, then delete. A failure
    /// ends the clean-up at once and is returned; nothing is undone.
    pub fn record(&mut self, result: CommandResult, out: &mut String) -> (r: Result<(), GitError>)
        requires
            old(self).stage == CleanStage::Checkout || old(self).stage == CleanStage::Pull
                || old(self).stage == CleanStage::Delete,
        ensures
            final(self).target == old(self).target,
            final(self).current == old(self).current,
            r is Err ==> final(self).stage == CleanStage::Done,
            (result is ErrorCode || result is Terminated) <==> r is Err,
            r is Ok ==> final(self).stage == match old(self).stage {
                CleanStage::Checkout => CleanStage::Pull,
                CleanStage::Pull => CleanStage::Delete,
                _ => CleanStage::Done,
            },
            old(self).stage == CleanStage::Checkout ==> final(out)@ == old(out)@ && match result {
                CommandResult::ErrorCode(c) => r matches Err(GitError::CheckoutCode(t, k)) && t@
                    == old(self).target@ && k == c,
                CommandResult::Terminated => r matches Err(GitError::Checkout(t)) && t@ == old(
                    self,
                ).target@,
                _ => true,
            },
            old(self).stage == CleanStage::Pull ==> match result {
                CommandResult::Success(_) => final(out)@ == old(out)@
                    + "Pulled the latest changes\n"@,
                CommandResult::ErrorCode(c) => r == Err::<(), GitError>(GitError::PullCode(c))
                    && final(out)@ == old(out)@,
                CommandResult::Terminated => r == Err::<(), GitError>(GitError::Pull)
                    && final(out)@ == old(out)@,
            },
            old(self).stage == CleanStage::Delete ==> match result {
                CommandResult::Success(_) => exists|y: Seq<char>|
                    painted(y, old(self).current@, Hue::Yellow) && final(out)@ == old(out)@ + y
                        + #[trigger] " has been deleted\n"@,
                CommandResult::ErrorCode(c) => r matches Err(GitError::DeleteCode(b, k)) && b@
                    == old(self).current@ && k == c && final(out)@ == old(out)@,
                CommandResult::Terminated => r matches Err(GitError::Delete(b)) && b@ == old(
                    self,
                ).current@ && final(out)@ == old(out)@,
            },
    {
        let r = match self.stage {
            CleanStage::Checkout => checkout(self.target.clone(), result),
            CleanStage::Pull => pull(result, out),
            _ => delete(self.current.clone(), result, out),
        };
        match &r {
            Ok(()) => {
                self.stage = match self.stage {
                    CleanStage::Checkout => CleanStage::Pull,
                    CleanStage::Pull => CleanStage::Delete,
                    _ => CleanStage::Done,
                };
            },
            Err(_) => {
                self.stage = CleanStage::Done;
            },
        }
        r
    }
}

/// The selector of a batch command that stands for every project.
pub const ALL: &'static str = "all";

/// Why a project could not be picked.
pub enum LookupError {
    /// No project has this name.
    ProjectNotFound(String),
}

/// Why a batch command cannot run.
pub enum BatchError {
    Scan(ScanError),
    Lookup(LookupError),
}

/// The index of the first project from `k` on named `name`, ignoring ASCII
/// case.
pub open spec fn find_from(ps: Seq<ProjectView>, name: Seq<char>, k: int) -> Option<int>
    decreases ps.len() - k,
{
    if k < 0 || k >= ps.len() {
        None
    } else if eq_ignore_case(ps[k].name, name) {
        Some(k)
    } else {
        find_from(ps, name, k + 1)
    }
}

/// The projects a selector picks: all of them for `all` in any case, else
/// the first project of that name in any case, if there is one.
pub open spec fn selection(ps: Seq<ProjectView>, name: Seq<char>) -> Option<Seq<ProjectView>> {
    if eq_ignore_case("all"@, name) {
        Some(ps)
    } else {
        match find_from(ps, name, 0) {
            Some(i) => Some(seq![ps[i]]),
            None => None,
        }
    }
}

proof fn lemma_selection_of_match(ps: Seq<ProjectView>, name: Seq<char>, i: int)
    requires
        !eq_ignore_case("all"@, name),
        find_from(ps, name, 0) == Some(i),
    ensures
        selection(ps, name) == Some(seq![ps[i]]),
{
}

/// Picks the projects named by `name`: all of them for `all`, in any case;
/// else the first one of that name, in any case.
pub fn select_projects(projects: Vec<Project>, name: &str) -> (r: Result<Vec<Project>, LookupError>)
    ensures
        match selection(projects_view(projects@), name@) {
            Some(sel) => r matches Ok(v) && projects_view(v@) == sel,
            None => r matches Err(LookupError::ProjectNotFound(n)) && n@ == name@,
        },
{
    if eq_ignore_ascii_case(ALL, name) {
        proof {
            reveal_strlit("all");
        }
        return Ok(projects);
    }
    assert(!eq_ignore_case("all"@, name@));
    let ghost ps = projects_view(projects@);
    let mut rest = projects;
    let mut i: usize = 0;
    while i < rest.len()
        invariant
            i <= rest@.len(),
            ps == projects_view(projects@),
            ps == projects_view(rest@),
            find_from(ps, name@, 0) == find_from(ps, name@, i as int),
            !eq_ignore_case("all"@, name@),
        decreases rest@.len() - i,
    {
        assert(ps[i as int] == rest@[i as int]@);
        if eq_ignore_ascii_case(rest[i].name.as_str(), name) {
            assert(find_from(ps, name@, i as int) == Some(i as int));
            let mut found: Vec<Project> = Vec::new();
            found.push(rest.swap_remove(i));
            assert(projects_view(found@) =~= seq![ps[i as int]]);
            proof {
                lemma_selection_of_match(ps, name@, i as int);
            }
            return Ok(found);
        }
        i = i + 1;
    }
    Err(LookupError::ProjectNotFound(name.to_string()))
}

/// One step of a batch: announcing a project, or running the command in one
/// of its repositories.
pub enum Step {
    Header(String, String),
    Repository(Directory),
}

/// What a step is, as plain values.
pub enum StepView {
    Header(Seq<char>, Seq<char>),
    Repository(DirView),
}

impl View for Step {
    type V = StepView;

    open spec fn view(&self) -> StepView {
        match self {
            Step::Header(n, p) => StepView::Header(n@, p@),
            Step::Repository(d) => StepView::Repository(d@),
        }
    }
}

/// The views of a sequence of steps.
pub open spec fn steps_view(s: Seq<Step>) -> Seq<StepView> {
    s.map_values(|x: Step| x@)
}

/// The steps for one project: its announcement, then one step for each of
/// its repositories. A project that is itself a repository is only
/// announced.
pub open spec fn project_steps(p: ProjectView) -> Seq<StepView> {
    seq![StepView::Header(p.name, p.path)] + match p.repos {
        Some(rs) => rs.map_values(|d: DirView| StepView::Repository(d)),
        None => seq![],
    }
}

/// The steps for the projects `ps`, in order.
pub open spec fn steps_of(ps: Seq<ProjectView>) -> Seq<StepView>
    decreases ps.len(),
{
    if ps.len() == 0 {
        seq![]
    } else {
        steps_of(ps.drop_last()) + project_steps(ps.last())
    }
}

fn plan(projects: &Vec<Project>) -> (r: Vec<Step>)
    ensures
        steps_view(r@) == steps_of(projects_view(projects@)),
{
    let ghost ps = projects_view(projects@);
    let mut steps: Vec<Step> = Vec::new();
    let mut i: usize = 0;
    while i < projects.len()
        invariant
            i <= projects@.len(),
            ps == projects_view(projects@),
            steps_view(steps@) == steps_of(ps.subrange(0, i as int)),
        decreases projects@.len() - i,
    {
        let p = &projects[i];
        assert(ps.subrange(0, i + 1).drop_last() =~= ps.subrange(0, i as int));
        assert(ps[i as int] == p@);
        let ghost before = steps_view(steps@);
        steps.push(Step::Header(p.name.clone(), p.path.clone()));
        assert(steps_view(steps@) =~= before + seq![StepView::Header(p@.name, p@.path)]);
        match &p.repos {
            Some(repos) => {
                let ghost base = steps_view(steps@);
                let mut k: usize = 0;
                while k < repos.len()
                    invariant
                        k <= repos@.len(),
                        steps_view(steps@) =~= base + dirs_view(repos@).subrange(
                            0,
                            k as int,
                        ).map_values(|d: DirView| StepView::Repository(d)),
                    decreases repos@.len() - k,
                {
                    let ghost b2 = steps_view(steps@);
                    steps.push(Step::Repository(repos[k].duplicate()));
                    assert(steps_view(steps@) =~= b2.push(StepView::Repository(repos@[k as int]@)));
                    k = k + 1;
                }
                assert(dirs_view(repos@).subrange(0, k as int) =~= dirs_view(repos@));
            },
            None => {
                assert(steps_view(steps@) =~= before + project_steps(p@));
            },
        }
        assert(steps_view(steps@) =~= before + project_steps(p@));
        i = i + 1;
    }
    assert(ps.subrange(0, i as int) =~= ps);
    steps
}

/// The line that announces a project, with its name written as `g`.
pub open spec fn header_text(g: Seq<char>, path: Seq<char>) -> Seq<char> {
    "Project "@ + g + " found at "@ + path_debug_of(path) + "\n"@
}

/// `after` is `before` followed by the line that announces the project
/// `name` at `path`, its name in bright green.
pub open spec fn header_written(
    before: Seq<char>,
    after: Seq<char>,
    name: Seq<char>,
    path: Seq<char>,
) -> bool {
    exists|g: Seq<char>|
        painted(g, name, Hue::BrightGreen) && after == before + #[trigger] header_text(g, path)
}

/// The line that announces the project at `path`, its name already
/// coloured as `painted_name`.
pub fn header_line(painted_name: &str, path: &str) -> (r: String)
    ensures
        r@ == header_text(painted_name@, path@),
{
    let mut r = String::from_str("Project ");
    r.append(painted_name);
    r.append(" found at ");
    r.append(path_debug(path).as_str());
    r.append("\n");
    r
}

fn write_header(name: &str, path: &str, out: &mut String) -> (g: Ghost<Seq<char>>)
    ensures
        painted(g@, name@, Hue::BrightGreen),
        final(out)@ == old(out)@ + header_text(g@, path@),
{
    let g = bright_green(name);
    out.append(header_line(g.as_str(), path).as_str());
    Ghost(g@)
}

/// Writes the line that announces `project`, its name in bright green.
pub fn print_project(project: &Project, out: &mut String)
    ensures
        header_written(old(out)@, final(out)@, project.name@, project.path@),
{
    let g = write_header(project.name.as_str(), project.path.as_str(), out);
    assert(painted(g@, project.name@, Hue::BrightGreen) && out@ == old(out)@ + header_text(
        g@,
        project.path@,
    ));
}

/// The line for a repository whose command succeeded with output `o`, with
/// the arrow written as `a` and the name as `y`.
pub open spec fn success_text(a: Seq<char>, y: Seq<char>, o: Seq<char>) -> Seq<char> {
    a + " "@ + y + ": "@ + o + "\n"@
}

/// The line for a repository whose command failed with exit code `c`, with
/// the arrow written as `a`, the name as `y` and the word `Error` as `e`.
pub open spec fn failure_text(a: Seq<char>, y: Seq<char>, e: Seq<char>, c: int) -> Seq<char> {
    a + " "@ + y + ": "@ + e + " "@ + decimal(c) + "\n"@
}

/// The line for a repository whose command succeeded with output `output`,
/// the arrow and the name already coloured.
pub fn success_line(arrow: &str, painted_name: &str, output: &str) -> (r: String)
    ensures
        r@ == success_text(arrow@, painted_name@, output@),
{
    let mut r = String::from_str(arrow);
    r.append(" ");
    r.append(painted_name);
    r.append(": ");
    r.append(output);
    r.append("\n");
    r
}

/// The line for a repository whose command failed with exit code `code`,
/// the arrow, the name and the word `Error` already coloured.
pub fn failure_line(arrow: &str, painted_name: &str, error: &str, code: i32) -> (r: String)
    ensures
        r@ == failure_text(arrow@, painted_name@, error@, code as int),
{
    let mut r = String::from_str(arrow);
    r.append(" ");
    r.append(painted_name);
    r.append(": ");
    r.append(error);
    r.append(" ");
    r.append(int_text(code).as_str());
    r.append("\n");
    r
}

/// `l` is what is written for the repository named `name` whose command
/// ended as `result`: a green arrow, the name in yellow and the output on
/// success; a red arrow, the name in yellow, a red `Error` and the code on
/// failure; nothing when the process ended without a code.
pub open spec fn result_line(l: Seq<char>, name: Seq<char>, result: CommandResult) -> bool {
    match result {
        CommandResult::Success(o) => exists|a: Seq<char>, y: Seq<char>|
            painted(a, "=>"@, Hue::BrightGreen) && painted(y, name, Hue::Yellow) && l
                == #[trigger] success_text(a, y, o@),
        CommandResult::ErrorCode(c) => exists|a: Seq<char>, y: Seq<char>, e: Seq<char>|
            painted(a, "=>"@, Hue::Red) && painted(y, name, Hue::Yellow) && painted(
                e,
                "Error"@,
                Hue::Red,
            ) && l == #[trigger] failure_text(a, y, e, c as int),
        CommandResult::Terminated => l == Seq::<char>::empty(),
    }
}

/// Writes the line for the repository `repo`, whose command ended as
/// `result`.
pub fn print_repository(repo: &Directory, result: CommandResult, out: &mut String)
    ensures
        exists|l: Seq<char>|
            result_line(l, repo.name@, result) && final(out)@ == old(out)@ + l,
{
    match result {
        CommandResult::Success(o) => {
            let a = bright_green("=>");
            let y = yellow(repo.name.as_str());
            out.append(success_line(a.as_str(), y.as_str(), o.as_str()).as_str());
            assert(out@ == old(out)@ + success_text(a@, y@, o@));
        },
        CommandResult::ErrorCode(code) => {
            let a = red("=>");
            let y = yellow(repo.name.as_str());
            let e = red("Error");
            out.append(failure_line(a.as_str(), y.as_str(), e.as_str(), code).as_str());
            assert(out@ == old(out)@ + failure_text(a@, y@, e@, code as int));
        },
        CommandResult::Terminated => {
            assert(out@ == old(out)@ + Seq::<char>::empty());
        },
    }
}

/// What a batch asks of its caller.
pub enum BatchAction {
    /// Run the batch's command in the directory at this path, and hand back
    /// how it ended with [`Batch::record`].
    Run(String),
    /// A project was announced; ask again.
    Announced,
    /// Every step is done.
    Finished,
}

/// A Git command to run in every repository of some projects, one at a
/// time, in order. `next` is the step in progress; `ran` holds the
/// repositories whose outcome was recorded so far.
pub struct Batch {
    pub command: String,
    pub steps: Vec<Step>,
    pub next: usize,
    pub ran: Ghost<Seq<DirView>>,
}

/// The repositories among the first `k` steps, in order.
pub open spec fn repos_before(steps: Seq<StepView>, k: int) -> Seq<DirView>
    decreases k,
{
    if k <= 0 || k > steps.len() {
        seq![]
    } else {
        repos_before(steps, k - 1) + match steps[k - 1] {
            StepView::Repository(d) => seq![d],
            StepView::Header(_, _) => seq![],
        }
    }
}

/// The repositories of the projects `ps`, project by project, each in its
/// listed order.
pub open spec fn all_repos(ps: Seq<ProjectView>) -> Seq<DirView>
    decreases ps.len(),
{
    if ps.len() == 0 {
        seq![]
    } else {
        all_repos(ps.drop_last()) + match ps.last().repos {
            Some(rs) => rs,
            None => seq![],
        }
    }
}

proof fn lemma_repos_before_append(a: Seq<StepView>, b: Seq<StepView>, k: int)
    requires
        0 <= k <= b.len(),
    ensures
        repos_before(a + b, a.len() + k) == repos_before(a, a.len() as int) + repos_before(b, k),
    decreases k,
{
    if k == 0 {
        assert(repos_before(b, 0) == Seq::<DirView>::empty());
        assert(repos_before(a, a.len() as int) + repos_before(b, 0) =~= repos_before(
            a,
            a.len() as int,
        ));
        if a.len() > 0 {
            assert((a + b).subrange(0, a.len() as int) =~= a);
            lemma_repos_before_prefix(a, b, a.len() as int);
        }
    } else {
        lemma_repos_before_append(a, b, k - 1);
        assert((a + b)[a.len() + k - 1] == b[k - 1]);
        assert(repos_before(a, a.len() as int) + repos_before(b, k - 1) + match b[k - 1] {
            StepView::Repository(d) => seq![d],
            StepView::Header(_, _) => seq![],
        } =~= repos_before(a, a.len() as int) + (repos_before(b, k - 1) + match b[k - 1] {
            StepView::Repository(d) => seq![d],
            StepView::Header(_, _) => seq![],
        }));
    }
}

proof fn lemma_repos_before_prefix(a: Seq<StepView>, b: Seq<StepView>, k: int)
    requires
        0 <= k <= a.len(),
    ensures
        repos_before(a + b, k) == repos_before(a, k),
    decreases k,
{
    if k > 0 {
        lemma_repos_before_prefix(a, b, k - 1);
        assert((a + b)[k - 1] == a[k - 1]);
    }
}

proof fn lemma_project_repos(p: ProjectView, j: int)
    requires
        0 <= j <= project_steps(p).len() - 1,
    ensures
        repos_before(project_steps(p), j + 1) == match p.repos {
            Some(rs) => rs.subrange(0, j),
            None => seq![],
        },
    decreases j,
{
    let st = project_steps(p);
    if j == 0 {
        assert(repos_before(st, 0) == Seq::<DirView>::empty());
        match p.repos {
            Some(rs) => assert(rs.subrange(0, 0) =~= seq![]),
            None => {},
        }
        assert(repos_before(st, 1) =~= seq![]);
    } else {
        lemma_project_repos(p, j - 1);
        match p.repos {
            Some(rs) => {
                assert(st[j] == StepView::Repository(rs[j - 1]));
                assert(rs.subrange(0, j - 1).push(rs[j - 1]) =~= rs.subrange(0, j));
            },
            None => {},
        }
    }
}

/// A batch for the projects `ps` that has gone through all its steps has
/// run every repository of those projects, project by project, each in its
/// listed order: a repository whose command fails stops nothing.
pub proof fn lemma_batch_runs_every_repository(ps: Seq<ProjectView>)
    ensures
        repos_before(steps_of(ps), steps_of(ps).len() as int) == all_repos(ps),
    decreases ps.len(),
{
    if ps.len() > 0 {
        let init = ps.drop_last();
        let p = ps.last();
        lemma_batch_runs_every_repository(init);
        let a = steps_of(init);
        let b = project_steps(p);
        assert(steps_of(ps) == a + b);
        lemma_repos_before_append(a, b, b.len() as int);
        lemma_project_repos(p, b.len() - 1);
        match p.repos {
            Some(rs) => assert(rs.subrange(0, b.len() - 1) =~= rs),
            None => {},
        }
    }
}

impl Batch {
    /// The batch is at one of its steps, and has run exactly the
    /// repositories before it.
    pub open spec fn wf(&self) -> bool {
        &&& self.next <= self.steps@.len()
        &&& self.ran@ == repos_before(steps_view(self.steps@), self.next as int)
    }
}

impl Batch {
    /// The batch that runs `command` over the repositories of `projects`.
    pub fn new(command: &str, projects: &Vec<Project>) -> (r: Batch)
        ensures
            r.command@ == command@,
            steps_view(r.steps@) == steps_of(projects_view(projects@)),
            r.next == 0,
            r.wf(),
    {
        let ghost none: Seq<DirView> = seq![];
        Batch { command: command.to_string(), steps: plan(projects), next: 0, ran: Ghost(none) }
    }

    /// Moves the batch on. An announcement is written to `out` and the
    /// batch goes past it; for a repository, the command is to be run there.
    pub fn next_action(&mut self, out: &mut String) -> (r: BatchAction)
        requires
            old(self).wf(),
        ensures
            final(self).wf(),
            final(self).ran == old(self).ran,
            r is Finished ==> final(self).ran@ == repos_before(
                steps_view(final(self).steps@),
                final(self).steps@.len() as int,
            ),
            final(self).command == old(self).command,
            final(self).steps == old(self).steps,
            old(self).next == old(self).steps@.len() ==> r is Finished && final(self).next
                == old(self).next && final(out)@ == old(out)@,
            old(self).next < old(self).steps@.len() ==> match old(self).steps@[old(self).next as int]@ {
                StepView::Header(n, p) => r is Announced && final(self).next == old(self).next + 1
                    && header_written(old(out)@, final(out)@, n, p),
                StepView::Repository(d) => r matches BatchAction::Run(path) && path@ == d.path
                    && final(self).next == old(self).next && final(out)@ == old(out)@,
            },
    {
        if self.next == self.steps.len() {
            return BatchAction::Finished;
        }
        match &self.steps[self.next] {
            Step::Header(n, p) => {
                assert(self.steps@[self.next as int]@ == StepView::Header(n@, p@));
                let g = write_header(n.as_str(), p.as_str(), out);
                assert(painted(g@, n@, Hue::BrightGreen) && out@ == old(out)@ + header_text(
                    g@,
                    p@,
                ));
                assert(header_written(old(out)@, out@, n@, p@));
                assert(steps_view(self.steps@)[self.next as int] == self.steps@[self.next as int]@);
                self.next = self.next + 1;
                BatchAction::Announced
            },
            Step::Repository(d) => BatchAction::Run(d.path.clone()),
        }
    }

    /// Takes how the command ended in the repository of the current step,
    /// writes that repository's line to `out`, and moves on to the next
    /// step, whatever the outcome: a failure does not stop the batch.
    pub fn record(&mut self, result: CommandResult, out: &mut String)
        requires
            old(self).wf(),
            old(self).next < old(self).steps@.len(),
            old(self).steps@[old(self).next as int] is Repository,
        ensures
            final(self).wf(),
            final(self).ran@ == old(self).ran@.push(
                old(self).steps@[old(self).next as int]->Repository_0@,
            ),
            final(self).command == old(self).command,
            final(self).steps == old(self).steps,
            final(self).next == old(self).next + 1,
            exists|l: Seq<char>|
                result_line(
                    l,
                    old(self).steps@[old(self).next as int]->Repository_0.name@,
                    result,
                ) && final(out)@ == old(out)@ + l,
    {
        match &self.steps[self.next] {
            Step::Repository(d) => {
                print_repository(d, result, out);
            },
            Step::Header(_, _) => {},
        }
        let len = self.steps.len();
        let ghost d = self.steps@[self.next as int]->Repository_0@;
        assert(steps_view(self.steps@)[self.next as int] == StepView::Repository(d));
        let ghost sv = steps_view(self.steps@);
        let ghost before = repos_before(sv, self.next as int);
        if self.next < len {
            self.next = self.next + 1;
        }
        assert(repos_before(sv, self.next as int) == before + seq![d]);
        assert(before + seq![d] =~= before.push(d));
        self.ran = Ghost(self.ran@.push(d));
    }
}

/// Scans the tree and picks the projects named by `name`, for a batch that
/// runs `git_cmd` over their repositories.
pub fn execute_git_cmd(tree: &DirTree, name: &str, git_cmd: &str) -> (r: Result<Batch, BatchError>)
    requires
        tree_wf(tree@),
    ensures
        match scan_spec(tree@) {
            ScanOutcome::Unreadable(p) => r matches Err(
                BatchError::Scan(ScanError::UnreadableRoot(q)),
            ) && q@ == p,
            ScanOutcome::NoProjects => r matches Err(BatchError::Scan(ScanError::NoProjectsFound)),
            ScanOutcome::Found(ps) => match selection(ps, name@) {
                Some(sel) => r matches Ok(b) && b.command@ == git_cmd@ && steps_view(b.steps@)
                    == steps_of(sel) && b.next == 0,
                None => r matches Err(BatchError::Lookup(LookupError::ProjectNotFound(n)))
                    && n@ == name@,
            },
        },
        r matches Ok(b) ==> b.wf(),
{
    match scan(tree) {
        Ok(projects) => match select_projects(projects, name) {
            Ok(selected) => Ok(Batch::new(git_cmd, &selected)),
            Err(e) => Err(BatchError::Lookup(e)),
        },
        Err(e) => Err(BatchError::Scan(e)),
    }
}

/// The batch that runs `git status` over the projects named by `name`.
pub fn handle_status(tree: &DirTree, name: &str) -> (r: Result<Batch, BatchError>)
    requires
        tree_wf(tree@),
    ensures
        match scan_spec(tree@) {
            ScanOutcome::Unreadable(p) => r matches Err(
                BatchError::Scan(ScanError::UnreadableRoot(q)),
            ) && q@ == p,
            ScanOutcome::NoProjects => r matches Err(BatchError::Scan(ScanError::NoProjectsFound)),
            ScanOutcome::Found(ps) => match selection(ps, name@) {
                Some(sel) => r matches Ok(b) && b.command@ == GIT_STATUS@ && steps_view(b.steps@)
                    == steps_of(sel) && b.next == 0,
                None => r matches Err(BatchError::Lookup(LookupError::ProjectNotFound(n)))
                    && n@ == name@,
            },
        },
        r matches Ok(b) ==> b.wf(),
{
    execute_git_cmd(tree, name, GIT_STATUS)
}

/// The batch that runs `git pull` over the projects named by `name`.
pub fn handle_pull(tree: &DirTree, name: &str) -> (r: Result<Batch, BatchError>)
    requires
        tree_wf(tree@),
    ensures
        match scan_spec(tree@) {
            ScanOutcome::Unreadable(p) => r matches Err(
                BatchError::Scan(ScanError::UnreadableRoot(q)),
            ) && q@ == p,
            ScanOutcome::NoProjects => r matches Err(BatchError::Scan(ScanError::NoProjectsFound)),
            ScanOutcome::Found(ps) => match selection(ps, name@) {
                Some(sel) => r matches Ok(b) && b.command@ == GIT_PULL@ && steps_view(b.steps@)
                    == steps_of(sel) && b.next == 0,
                None => r matches Err(BatchError::Lookup(LookupError::ProjectNotFound(n)))
                    && n@ == name@,
            },
        },
        r matches Ok(b) ==> b.wf(),
{
    execute_git_cmd(tree, name, GIT_PULL)
}

/// Scans the tree and writes the list of the projects found to `out`.
pub fn handle_list(tree: &DirTree, out: &mut String) -> (r: Result<(), ScanError>)
    requires
        tree_wf(tree@),
    ensures
        match scan_spec(tree@) {
            ScanOutcome::Unreadable(p) => r matches Err(ScanError::UnreadableRoot(q)) && q@ == p
                && final(out)@ == old(out)@,
            ScanOutcome::NoProjects => r matches Err(ScanError::NoProjectsFound) && final(out)@
                == old(out)@,
            ScanOutcome::Found(ps) => r is Ok && listing_written(old(out)@, final(out)@, ps),
        },
{
    match scan(tree) {
        Ok(projects) => {
            let ghost ps = projects_view(projects@);
            assert(scan_spec(tree@) == ScanOutcome::Found(ps));
            let (gs, yss) = write_listing(&projects, out);
            assert(listing_painted(ps, gs@, yss@) && out@ == old(out)@ + listing_text(
                ps,
                gs@,
                yss@,
            ));
            assert(listing_written(old(out)@, out@, ps));
            Ok(())
        },
        Err(e) => Err(e),
    }
}

} // verus!

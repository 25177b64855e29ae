//! The Git commands this library asks for, and what their outcomes mean.
//!
//! Running a command is left to the caller, who hands back a
//! [`CommandResult`]; the functions here decide what that result means.

use vstd::prelude::*;

use crate::paint::{painted, yellow, Hue};
use crate::text::{decimal, int_text, trim, trim_of};

verus! {

/// Git's `pull` sub-command.
pub const GIT_PULL: &'static str = "pull";

/// Git's `status` sub-command.
pub const GIT_STATUS: &'static str = "status";

/// Git's `checkout` sub-command.
pub const GIT_CHECKOUT: &'static str = "checkout";

/// Git's `branch` sub-command.
pub const GIT_BRANCH: &'static str = "branch";

/// How a Git process ended: with exit code 0 and what it wrote to standard
/// output, with another exit code, or without one (stopped by a signal).
pub enum CommandResult {
    Success(String),
    ErrorCode(i32),
    Terminated,
}

/// How a process ended, from its exit code (none when a signal stopped it)
/// and what it wrote to standard output: only code 0 is a success.
pub fn command_result(code: Option<i32>, output: String) -> (r: CommandResult)
    ensures
        match code {
            Some(c) => if c == 0 {
                r matches CommandResult::Success(o) && o@ == output@
            } else {
                r == CommandResult::ErrorCode(c)
            },
            None => r is Terminated,
        },
{
    match code {
        Some(0) => CommandResult::Success(output),
        Some(c) => CommandResult::ErrorCode(c),
        None => CommandResult::Terminated,
    }
}

/// A Git command that failed, with its exit code when it had one.
#[non_exhaustive]
pub enum GitError {
    CheckoutCode(String, i32),
    Checkout(String),
    PullCode(i32),
    Pull,
    DeleteCode(String, i32),
    Delete(String),
    CurrentBranchCode(i32),
    CurrentBranch,
    ReadBranchesCode(i32),
    ReadBranches,
}

/// The message that describes `e`.
pub open spec fn error_text(e: GitError) -> Seq<char> {
    match e {
        GitError::CheckoutCode(t, c) => "Unable to checkout to "@ + t@ + " code["@ + decimal(
            c as int,
        ) + "]"@,
        GitError::Checkout(t) => "Git checkout to "@ + t@ + " failed with an unexpected error"@,
        GitError::PullCode(c) => "Git pull errored. Code["@ + decimal(c as int) + "]"@,
        GitError::Pull => "Git pull failed with an unexpected error"@,
        GitError::DeleteCode(b, c) => "Deleting branch "@ + b@ + " failed. Code["@ + decimal(
            c as int,
        ) + "]"@,
        GitError::Delete(b) => "Deleting branch "@ + b@ + " failed"@,
        GitError::CurrentBranchCode(c) => "Unable to read current branch. Code["@ + decimal(
            c as int,
        ) + "]"@,
        GitError::CurrentBranch => "Unable to read current branch"@,
        GitError::ReadBranchesCode(c) => "Unable to read branches. Code["@ + decimal(c as int)
            + "]"@,
        GitError::ReadBranches => "Unable to read branches"@,
    }
}

impl GitError {
    /// The message that describes this error.
    pub fn message(&self) -> (r: String)
        ensures
            r@ == error_text(*self),
    {
        let mut r = String::new();
        match self {
            GitError::CheckoutCode(t, c) => {
                r.append("Unable to checkout to ");
                r.append(t.as_str());
                r.append(" code[");
                r.append(int_text(*c).as_str());
                r.append("]");
            },
            GitError::Checkout(t) => {
                r.append("Git checkout to ");
                r.append(t.as_str());
                r.append(" failed with an unexpected error");
            },
            GitError::PullCode(c) => {
                r.append("Git pull errored. Code[");
                r.append(int_text(*c).as_str());
                r.append("]");
            },
            GitError::Pull => {
                r.append("Git pull failed with an unexpected error");
            },
            GitError::DeleteCode(b, c) => {
                r.append("Deleting branch ");
                r.append(b.as_str());
                r.append(" failed. Code[");
                r.append(int_text(*c).as_str());
                r.append("]");
            },
            GitError::Delete(b) => {
                r.append("Deleting branch ");
                r.append(b.as_str());
                r.append(" failed");
            },
            GitError::CurrentBranchCode(c) => {
                r.append("Unable to read current branch. Code[");
                r.append(int_text(*c).as_str());
                r.append("]");
            },
            GitError::CurrentBranch => {
                r.append("Unable to read current branch");
            },
            GitError::ReadBranchesCode(c) => {
                r.append("Unable to read branches. Code[");
                r.append(int_text(*c).as_str());
                r.append("]");
            },
            GitError::ReadBranches => {
                r.append("Unable to read branches");
            },
        }
        r
    }
}

/// What `checkout` of `target` comes to, given how the process ended.
pub fn checkout(target: String, result: CommandResult) -> (r: Result<(), GitError>)
    ensures
        match result {
            CommandResult::Success(_) => r is Ok,
            CommandResult::ErrorCode(c) => r == Err::<(), GitError>(GitError::CheckoutCode(target, c)),
            CommandResult::Terminated => r == Err::<(), GitError>(GitError::Checkout(target)),
        },
{
    match result {
        CommandResult::Success(_) => Ok(()),
        CommandResult::ErrorCode(code) => Err(GitError::CheckoutCode(target, code)),
        CommandResult::Terminated => Err(GitError::Checkout(target)),
    }
}

/// What `pull` comes to, given how the process ended; a success is
/// reported on `out`.
pub fn pull(result: CommandResult, out: &mut String) -> (r: Result<(), GitError>)
    ensures
        match result {
            CommandResult::Success(_) => r is Ok && final(out)@ == old(out)@
                + "Pulled the latest changes\n"@,
            CommandResult::ErrorCode(c) => r == Err::<(), GitError>(GitError::PullCode(c))
                && final(out)@ == old(out)@,
            CommandResult::Terminated => r == Err::<(), GitError>(GitError::Pull) && final(out)@
                == old(out)@,
        },
{
    match result {
        CommandResult::Success(_) => {
            out.append("Pulled the latest changes\n");
            Ok(())
        },
        CommandResult::ErrorCode(code) => Err(GitError::PullCode(code)),
        CommandResult::Terminated => Err(GitError::Pull),
    }
}

/// What deleting `branch` comes to, given how the process ended; a success
/// is reported on `out`, with the branch's name in yellow.
pub fn delete(branch: String, result: CommandResult, out: &mut String) -> (r: Result<
    (),
    GitError,
>)
    ensures
        match result {
            CommandResult::Success(_) => r is Ok && exists|y: Seq<char>|
                painted(y, branch@, Hue::Yellow) && final(out)@ == old(out)@ + y
                    + #[trigger] " has been deleted\n"@,
            CommandResult::ErrorCode(c) => r == Err::<(), GitError>(
                GitError::DeleteCode(branch, c),
            ) && final(out)@ == old(out)@,
            CommandResult::Terminated => r == Err::<(), GitError>(GitError::Delete(branch))
                && final(out)@ == old(out)@,
        },
{
    match result {
        CommandResult::Success(_) => {
            let y = yellow(branch.as_str());
            out.append(y.as_str());
            out.append(" has been deleted\n");
            Ok(())
        },
        CommandResult::ErrorCode(code) => Err(GitError::DeleteCode(branch, code)),
        CommandResult::Terminated => Err(GitError::Delete(branch)),
    }
}

/// The current branch, read from the output of `git branch --show-current`.
pub fn get_curr_branch(result: CommandResult) -> (r: Result<String, GitError>)
    ensures
        match result {
            CommandResult::Success(o) => r matches Ok(b) && b@ == trim_of(o@),
            CommandResult::ErrorCode(c) => r == Err::<String, GitError>(
                GitError::CurrentBranchCode(c),
            ),
            CommandResult::Terminated => r == Err::<String, GitError>(GitError::CurrentBranch),
        },
{
    match result {
        CommandResult::Success(o) => Ok(trim(o.as_str())),
        CommandResult::ErrorCode(code) => Err(GitError::CurrentBranchCode(code)),
        CommandResult::Terminated => Err(GitError::CurrentBranch),
    }
}

/// `s` with every `*` removed.
pub open spec fn without_stars(s: Seq<char>) -> Seq<char>
    decreases s.len(),
{
    if s.len() == 0 {
        seq![]
    } else {
        without_stars(s.drop_last()) + if s.last() == '*' {
            seq![]
        } else {
            seq![s.last()]
        }
    }
}

/// The pieces of `s` between line breaks: one more than there are breaks.
pub open spec fn lines(s: Seq<char>) -> Seq<Seq<char>>
    decreases s.len(),
{
    if s.len() == 0 {
        seq![seq![]]
    } else {
        let init = lines(s.drop_last());
        if s.last() == '\n' {
            init.push(seq![])
        } else {
            init.drop_last().push(init.last().push(s.last()))
        }
    }
}

/// The lines `ls`, each trimmed of white space, leaving out those that
/// come out empty.
pub open spec fn kept_names(ls: Seq<Seq<char>>) -> Seq<Seq<char>>
    decreases ls.len(),
{
    if ls.len() == 0 {
        seq![]
    } else {
        kept_names(ls.drop_last()) + if trim_of(ls.last()).len() > 0 {
            seq![trim_of(ls.last())]
        } else {
            seq![]
        }
    }
}

/// The branch names in the output `o` of `git branch`: the `*` that marks
/// the current branch is dropped, each line is trimmed on both sides, and
/// lines left empty name no branch.
pub open spec fn branch_names(o: Seq<char>) -> Seq<Seq<char>> {
    kept_names(lines(without_stars(o)))
}

/// The views of a sequence of strings.
pub open spec fn strings_view(v: Seq<String>) -> Seq<Seq<char>> {
    v.map_values(|s: String| s@)
}

fn strip_stars(s: &str) -> (r: String)
    ensures
        r@ == without_stars(s@),
{
    let n = s.unicode_len();
    let mut r = String::new();
    let mut i: usize = 0;
    while i < n
        invariant
            n == s@.len(),
            i <= n,
            r@ == without_stars(s@.subrange(0, i as int)),
        decreases n - i,
    {
        assert(s@.subrange(0, i + 1).drop_last() =~= s@.subrange(0, i as int));
        if s.get_char(i) != '*' {
            r.append(s.substring_char(i, i + 1));
        }
        i = i + 1;
    }
    assert(s@.subrange(0, n as int) =~= s@);
    r
}

/// Splits `s` at each line break, keeping empty pieces.
pub fn split_lines(s: &str) -> (r: Vec<String>)
    ensures
        strings_view(r@) == lines(s@),
{
    let n = s.unicode_len();
    let mut pieces: Vec<String> = Vec::new();
    let mut start: usize = 0;
    let mut i: usize = 0;
    assert(s@.subrange(0, 0) =~= seq![]);
    assert(lines(s@.subrange(0, 0)) =~= seq![seq![]]);
    while i < n
        invariant
            n == s@.len(),
            start <= i <= n,
            lines(s@.subrange(0, i as int)) =~= strings_view(pieces@).push(
                s@.subrange(start as int, i as int),
            ),
        decreases n - i,
    {
        assert(s@.subrange(0, i + 1).drop_last() =~= s@.subrange(0, i as int));
        if s.get_char(i) == '\n' {
            let ghost before = strings_view(pieces@);
            pieces.push(s.substring_char(start, i).to_string());
            assert(strings_view(pieces@) =~= before.push(s@.subrange(start as int, i as int)));
            start = i + 1;
            assert(s@.subrange(start as int, i + 1) =~= seq![]);
        } else {
            assert(s@.subrange(start as int, i + 1) =~= s@.subrange(start as int, i as int).push(
                s@[i as int],
            ));
        }
        i = i + 1;
    }
    let ghost before = strings_view(pieces@);
    pieces.push(s.substring_char(start, n).to_string());
    assert(strings_view(pieces@) =~= before.push(s@.subrange(start as int, n as int)));
    assert(s@.subrange(0, n as int) =~= s@);
    pieces
}

/// The local branches, read from the output of `git branch`.
pub fn get_branches(result: CommandResult) -> (r: Result<Vec<String>, GitError>)
    ensures
        match result {
            CommandResult::Success(o) => r matches Ok(bs) && strings_view(bs@) == branch_names(
                o@,
            ),
            CommandResult::ErrorCode(c) => r == Err::<Vec<String>, GitError>(
                GitError::ReadBranchesCode(c),
            ),
            CommandResult::Terminated => r == Err::<Vec<String>, GitError>(
                GitError::ReadBranches,
            ),
        },
{
    match result {
        CommandResult::Success(o) => {
            let sanitized = strip_stars(o.as_str());
            let pieces = split_lines(sanitized.as_str());
            let ghost ls = lines(sanitized@);
            let mut branches: Vec<String> = Vec::new();
            let mut i: usize = 0;
            while i < pieces.len()
                invariant
                    i <= pieces@.len(),
                    strings_view(pieces@) == ls,
                    strings_view(branches@) == kept_names(ls.subrange(0, i as int)),
                decreases pieces@.len() - i,
            {
                let ghost before = strings_view(branches@);
                assert(ls[i as int] == pieces@[i as int]@);
                assert(ls.subrange(0, i + 1).drop_last() =~= ls.subrange(0, i as int));
                let b = trim(pieces[i].as_str());
                if b.unicode_len() > 0 {
                    branches.push(b);
                    assert(strings_view(branches@) =~= before + seq![b@]);
                } else {
                    assert(before =~= before + Seq::<Seq<char>>::empty());
                }
                i = i + 1;
            }
            assert(ls.subrange(0, i as int) =~= ls);
            Ok(branches)
        },
        CommandResult::ErrorCode(code) => Err(GitError::ReadBranchesCode(code)),
        CommandResult::Terminated => Err(GitError::ReadBranches),
    }
}

} // verus!

use please::text::int_text;
use colored::Colorize;
use please::git::{
    checkout, delete, get_branches, get_curr_branch, pull, split_lines, CommandResult, GitError,
};

#[test]
fn should_error_delete() {
    let mut out = String::new();
    assert!(delete("main".to_string(), CommandResult::ErrorCode(1), &mut out).is_err());
    assert_eq!("", out);
}

#[test]
fn delete_reports_the_deleted_branch() {
    let mut out = String::new();
    assert!(delete("feature".to_string(), CommandResult::Success(String::new()), &mut out).is_ok());
    assert_eq!(format!("{} has been deleted\n", "feature".yellow()), out);
}

#[test]
fn delete_without_exit_code() {
    let mut out = String::new();
    let r = delete("feature".to_string(), CommandResult::Terminated, &mut out);
    assert!(matches!(r, Err(GitError::Delete(b)) if b == "feature"));
}

#[test]
fn checkout_outcomes() {
    assert!(checkout("main".to_string(), CommandResult::Success("x".to_string())).is_ok());
    let coded = checkout("main".to_string(), CommandResult::ErrorCode(1));
    assert!(matches!(coded, Err(GitError::CheckoutCode(ref t, 1)) if t == "main"));
    let uncoded = checkout("main".to_string(), CommandResult::Terminated);
    assert!(matches!(uncoded, Err(GitError::Checkout(ref t)) if t == "main"));
}

#[test]
fn pull_outcomes() {
    let mut out = String::new();
    assert!(pull(CommandResult::Success(String::new()), &mut out).is_ok());
    assert_eq!("Pulled the latest changes\n", out);
    let mut out = String::new();
    assert!(matches!(pull(CommandResult::ErrorCode(128), &mut out), Err(GitError::PullCode(128))));
    assert!(matches!(pull(CommandResult::Terminated, &mut out), Err(GitError::Pull)));
    assert_eq!("", out);
}

#[test]
fn current_branch_is_trimmed() {
    let r = get_curr_branch(CommandResult::Success("  main\n".to_string()));
    assert_eq!("main", r.ok().unwrap());
    assert!(matches!(
        get_curr_branch(CommandResult::ErrorCode(128)),
        Err(GitError::CurrentBranchCode(128))
    ));
    assert!(matches!(get_curr_branch(CommandResult::Terminated), Err(GitError::CurrentBranch)));
}

#[test]
fn branches_are_parsed_from_the_listing() {
    let listing = "  develop\n* feature/x\n  main\n".to_string();
    let r = get_branches(CommandResult::Success(listing)).ok().unwrap();
    assert_eq!(vec!["develop", "feature/x", "main"], r);
    assert!(matches!(
        get_branches(CommandResult::ErrorCode(129)),
        Err(GitError::ReadBranchesCode(129))
    ));
    assert!(matches!(get_branches(CommandResult::Terminated), Err(GitError::ReadBranches)));
}

#[test]
fn no_branch_in_empty_output() {
    let r = get_branches(CommandResult::Success(String::new())).ok().unwrap();
    assert!(r.is_empty());
    let r = get_branches(CommandResult::Success("\n  \n".to_string())).ok().unwrap();
    assert!(r.is_empty());
}

#[test]
fn branch_lines_are_trimmed_on_both_sides() {
    let listing = "  develop \r\n* feature\t\n".to_string();
    let r = get_branches(CommandResult::Success(listing)).ok().unwrap();
    assert_eq!(vec!["develop", "feature"], r);
}

#[test]
fn split_lines_keeps_empty_pieces() {
    assert_eq!(vec!["a", "", "b"], split_lines("a\n\nb"));
    assert_eq!(vec![""], split_lines(""));
    assert_eq!(vec!["a", ""], split_lines("a\n"));
}

#[test]
fn error_messages() {
    assert_eq!(
        "Unable to checkout to main code[1]",
        GitError::CheckoutCode("main".to_string(), 1).message()
    );
    assert_eq!("Git pull errored. Code[-3]", GitError::PullCode(-3).message());
    assert_eq!(
        "Deleting branch dev failed. Code[128]",
        GitError::DeleteCode("dev".to_string(), 128).message()
    );
    assert_eq!("Unable to read branches", GitError::ReadBranches.message());
    assert_eq!("Unable to read current branch. Code[2]", GitError::CurrentBranchCode(2).message());
}

#[test]
fn decimal_text_of_extremes() {
    assert_eq!("0", int_text(0));
    assert_eq!("7", int_text(7));
    assert_eq!("-10", int_text(-10));
    assert_eq!("2147483647", int_text(i32::MAX));
    assert_eq!("-2147483648", int_text(i32::MIN));
}

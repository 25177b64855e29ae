use colored::Colorize;
use please::commands::{
    clean, determine_target, handle_list, handle_pull, handle_status, is_affirmative,
    failure_line, header_line, plan_line, print_project, print_repository, select_projects,
    success_line, user_confirmed, Batch, BatchAction,
    BatchError, CleanStage, GitOp, LookupError,
};
use please::directory::Directory;
use please::git::{CommandResult, GitError};
use please::project::{DirTree, Project, ScanError};

fn repo(name: &str, path: &str) -> Directory {
    Directory { name: name.to_string(), path: path.to_string() }
}

/// Runs a batch to its end, answering each command with the next of
/// `results`; gives the paths it ran in and what it wrote.
fn drive(batch: &mut Batch, results: Vec<CommandResult>) -> (Vec<String>, String) {
    let mut results = results.into_iter();
    let mut ran = Vec::new();
    let mut out = String::new();
    loop {
        match batch.next_action(&mut out) {
            BatchAction::Run(path) => {
                ran.push(path);
                batch.record(results.next().unwrap(), &mut out);
            }
            BatchAction::Announced => {}
            BatchAction::Finished => break,
        }
    }
    (ran, out)
}

#[test]
fn should_print_git_error_128() {
    let project = Project {
        name: "Project".to_string(),
        path: "/tmp/project".to_string(),
        repos: Some(vec![repo("Repo", "/tmp/project/sub")]),
    };
    let mut batch = Batch::new("status", &vec![project]);
    let (ran, out) = drive(&mut batch, vec![CommandResult::ErrorCode(128)]);

    assert_eq!(vec!["/tmp/project/sub"], ran);
    assert_eq!(
        out,
        format!(
            "Project {} found at {:?}\n{} {}: {} 128\n",
            "Project".bright_green(),
            std::path::Path::new("/tmp/project"),
            "=>".red(),
            "Repo".yellow(),
            "Error".red()
        )
    );
}

#[test]
fn batch_goes_on_after_a_failure() {
    let projects = vec![
        Project {
            name: "A".to_string(),
            path: "/w/A".to_string(),
            repos: Some(vec![repo("one", "/w/A/one"), repo("two", "/w/A/two")]),
        },
        Project {
            name: "B".to_string(),
            path: "/w/B".to_string(),
            repos: Some(vec![repo("three", "/w/B/three")]),
        },
    ];
    let mut batch = Batch::new("status", &projects);
    let (ran, out) = drive(
        &mut batch,
        vec![
            CommandResult::Success("clean".to_string()),
            CommandResult::ErrorCode(128),
            CommandResult::Success("ok".to_string()),
        ],
    );
    assert_eq!(vec!["/w/A/one", "/w/A/two", "/w/B/three"], ran);
    let expected = format!(
        "Project {} found at {:?}\n{} {}: clean\n{} {}: {} 128\nProject {} found at {:?}\n{} {}: ok\n",
        "A".bright_green(),
        std::path::Path::new("/w/A"),
        "=>".bright_green(),
        "one".yellow(),
        "=>".red(),
        "two".yellow(),
        "Error".red(),
        "B".bright_green(),
        std::path::Path::new("/w/B"),
        "=>".bright_green(),
        "three".yellow()
    );
    assert_eq!(expected, out);
}

#[test]
fn batch_of_a_repository_root_runs_nothing() {
    let project = Project { name: "tool".to_string(), path: "/w/tool".to_string(), repos: None };
    let mut batch = Batch::new("pull", &vec![project]);
    let (ran, out) = drive(&mut batch, vec![]);
    assert!(ran.is_empty());
    assert_eq!(
        format!("Project {} found at {:?}\n", "tool".bright_green(), std::path::Path::new("/w/tool")),
        out
    );
}

#[test]
fn terminated_command_writes_nothing() {
    let mut out = String::new();
    print_repository(&repo("r", "/r"), CommandResult::Terminated, &mut out);
    assert_eq!("", out);
}

#[test]
fn should_print_project() {
    let project = Project {
        name: "Project".to_string(),
        path: "/some/path".to_string(),
        repos: Some(vec![repo("Repo", "/some/path/sub")]),
    };

    let mut result = String::new();
    print_project(&project, &mut result);

    assert_eq!(
        result,
        format!(
            "Project {} found at {:?}\n",
            &project.name.bright_green(),
            std::path::Path::new(&project.path)
        )
    );
}

fn single_dir_tree() -> DirTree {
    let mut tree = DirTree::new("/tmp/root".to_string());
    let root = tree.next_path().unwrap();
    tree.add_listing(vec![Directory::from(format!("{}/sub", root))]);
    let sub = tree.next_path().unwrap();
    assert_eq!("/tmp/root/sub", sub);
    tree.add_listing(vec![]);
    assert!(tree.next_path().is_none());
    tree
}

#[test]
fn test_execute_git_cmd_project_not_found() {
    let tree = single_dir_tree();
    let result = handle_status(&tree, "nonexistent");
    assert!(result.is_err());
}

fn grouped_tree() -> DirTree {
    let mut tree = DirTree::new("/w".to_string());
    while let Some(p) = tree.next_path() {
        let listing = match p.as_str() {
            "/w" => vec![Directory::from("/w/Group".to_string())],
            "/w/Group" => vec![Directory::from("/w/Group/app".to_string())],
            "/w/Group/app" => vec![Directory::from("/w/Group/app/.git".to_string())],
            _ => vec![],
        };
        tree.add_listing(listing);
    }
    tree
}

#[test]
fn status_by_name_ignores_case() {
    let tree = grouped_tree();
    let mut batch = handle_status(&tree, "gROUP").ok().unwrap();
    assert_eq!("status", batch.command);
    let (ran, _) = drive(&mut batch, vec![CommandResult::Success(String::new())]);
    assert_eq!(vec!["/w/Group/app"], ran);
}

#[test]
fn pull_over_all() {
    let tree = grouped_tree();
    let mut batch = handle_pull(&tree, "ALL").ok().unwrap();
    assert_eq!("pull", batch.command);
    let (ran, _) = drive(&mut batch, vec![CommandResult::ErrorCode(1)]);
    assert_eq!(vec!["/w/Group/app"], ran);
}

#[test]
fn unknown_project_is_reported() {
    let tree = grouped_tree();
    let r = handle_pull(&tree, "other");
    assert!(matches!(r, Err(BatchError::Lookup(LookupError::ProjectNotFound(ref n))) if n == "other"));
}

#[test]
fn batch_on_an_empty_tree_fails_to_scan() {
    let tree = single_dir_tree();
    let r = handle_pull(&tree, "all");
    assert!(matches!(r, Err(BatchError::Scan(ScanError::NoProjectsFound))));
}

#[test]
fn select_takes_the_first_match() {
    let projects = vec![
        Project { name: "alpha".to_string(), path: "/a".to_string(), repos: None },
        Project { name: "Alpha".to_string(), path: "/b".to_string(), repos: None },
    ];
    let picked = select_projects(projects, "ALPHA").ok().unwrap();
    assert_eq!(1, picked.len());
    assert_eq!("/a", picked[0].path);
}

#[test]
fn list_writes_every_project() {
    let tree = grouped_tree();
    let mut out = String::new();
    assert!(handle_list(&tree, &mut out).is_ok());
    assert_eq!(
        format!(
            "\nProject {}, {:?}, with Git repositories:\n  - {}\n",
            "Group".bright_green(),
            std::path::Path::new("/w/Group"),
            "app".yellow()
        ),
        out
    );
    let mut out = String::new();
    assert!(matches!(handle_list(&single_dir_tree(), &mut out), Err(ScanError::NoProjectsFound)));
}

#[test]
fn should_determine_develop() {
    let branches = vec!["main".to_string(), "test".to_string(), "develop".to_string()];
    let result = determine_target(branches);
    assert!(result.is_some());
    assert_eq!(result.unwrap(), "develop");
}

#[test]
fn should_determine_main() {
    let branches = vec!["test".to_string(), "main".to_string(), "test2".to_string()];
    let result = determine_target(branches);
    assert!(result.is_some());
    assert_eq!(result.unwrap(), "main");
}

#[test]
fn should_determine_master() {
    let branches = vec!["test".to_string(), "master".to_string(), "test2".to_string()];
    let result = determine_target(branches);
    assert!(result.is_some());
    assert_eq!(result.unwrap(), "master");
}

#[test]
fn should_fail_to_determine() {
    let branches = vec!["test".to_string(), "some-branch".to_string(), "test2".to_string()];
    let result = determine_target(branches);
    assert!(result.is_none());
}

#[test]
fn should_return_true_user_confirmed() {
    let mut input = "y".to_string();
    assert!(user_confirmed(&input));
    input = "yes".to_string();
    assert!(user_confirmed(&input));
    input = "Y".to_string();
    assert!(user_confirmed(&input));
    input = "YeS".to_string();
    assert!(user_confirmed(&input));
}

#[test]
fn should_return_false_user_confirmed() {
    let mut input = "n".to_string();
    assert!(!user_confirmed(&input));
    input = "no".to_string();
    assert!(!user_confirmed(&input));
    input = "N".to_string();
    assert!(!user_confirmed(&input));
    input = "NO".to_string();
    assert!(!user_confirmed(&input));
    input = "Anything   ".to_string();
    assert!(!user_confirmed(&input));
    input = "   ".to_string();
    assert!(!user_confirmed(&input));
}

#[test]
fn confirmation_is_trimmed() {
    assert!(user_confirmed("  yes\n"));
    assert!(user_confirmed("\tY \r\n"));
    assert!(!user_confirmed(""));
    assert!(!user_confirmed("ye"));
    assert!(!user_confirmed("yess"));
    assert!(is_affirmative("yEs"));
    assert!(!is_affirmative(" y"));
}

#[test]
fn clean_should_find_current_is_same_as_target() {
    let current = "master".to_string();
    let branches = vec!["test".to_string(), "master".to_string(), "test2".to_string()];
    let mut result = String::new();

    let cleanup = clean(current, branches, &mut result);

    assert!(cleanup.is_none());
    assert_eq!(result, "Current branch is already master\n");
}

#[test]
fn clean_should_be_unable_to_determine_target() {
    let current = "test2".to_string();
    let branches = vec!["test".to_string(), "some-branch".to_string(), "test2".to_string()];
    let mut result = String::new();

    let cleanup = clean(current, branches, &mut result);

    assert!(cleanup.is_none());
    assert_eq!(result, "Unable to determine target branch to checkout to\n");
}

fn started_cleanup(out: &mut String) -> please::commands::Cleanup {
    let branches = vec!["feature".to_string(), "main".to_string()];
    clean("feature".to_string(), branches, out).unwrap()
}

#[test]
fn clean_shows_the_plan_and_aborts_on_decline() {
    let mut out = String::new();
    let mut cleanup = started_cleanup(&mut out);
    assert_eq!(
        format!(
            "Branch will be changed to {} and branch {} will be deleted\nContinue? (y / N and hit Enter)\n",
            "main".bright_green(),
            "feature".bright_red()
        ),
        out
    );
    assert!(cleanup.stage == CleanStage::AwaitConfirmation);
    let mut out = String::new();
    cleanup.confirm("\n", &mut out);
    assert_eq!("Aborting\n", out);
    assert!(cleanup.next_op().is_none());
}

#[test]
fn clean_runs_checkout_pull_delete_in_order() {
    let mut out = String::new();
    let mut cleanup = started_cleanup(&mut out);
    let mut out = String::new();
    cleanup.confirm("yes\n", &mut out);
    assert_eq!("", out);
    assert!(matches!(cleanup.next_op(), Some(GitOp::Checkout(ref b)) if b == "main"));
    assert!(cleanup.record(CommandResult::Success(String::new()), &mut out).is_ok());
    assert!(matches!(cleanup.next_op(), Some(GitOp::Pull)));
    assert!(cleanup.record(CommandResult::Success(String::new()), &mut out).is_ok());
    assert!(matches!(cleanup.next_op(), Some(GitOp::Delete(ref b)) if b == "feature"));
    assert!(cleanup.record(CommandResult::Success(String::new()), &mut out).is_ok());
    assert!(cleanup.next_op().is_none());
    assert_eq!(format!("Pulled the latest changes\n{} has been deleted\n", "feature".yellow()), out);
}

#[test]
fn clean_stops_at_the_first_failure() {
    let mut out = String::new();
    let mut cleanup = started_cleanup(&mut out);
    cleanup.confirm("y", &mut out);
    assert!(cleanup.record(CommandResult::Success(String::new()), &mut out).is_ok());
    let r = cleanup.record(CommandResult::ErrorCode(1), &mut out);
    assert!(matches!(r, Err(GitError::PullCode(1))));
    assert!(cleanup.next_op().is_none());
}

#[test]
fn clean_reports_an_uncoded_checkout_failure() {
    let mut out = String::new();
    let mut cleanup = started_cleanup(&mut out);
    cleanup.confirm("y", &mut out);
    let r = cleanup.record(CommandResult::Terminated, &mut out);
    assert!(matches!(r, Err(GitError::Checkout(ref t)) if t == "main"));
    assert!(cleanup.next_op().is_none());
}

#[test]
fn lines_from_coloured_pieces() {
    assert_eq!("Project P found at \"/a b\"\n", header_line("P", "/a b"));
    assert_eq!("=> repo: On branch main\n\n", success_line("=>", "repo", "On branch main\n"));
    assert_eq!("=> repo: Error 128\n", failure_line("=>", "repo", "Error", 128));
    assert_eq!(
        "Branch will be changed to main and branch feat will be deleted\nContinue? (y / N and hit Enter)\n",
        plan_line("main", "feat")
    );
}

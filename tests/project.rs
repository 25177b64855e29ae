use colored::Colorize;
use please::directory::Directory;
use please::project::{parent_lvl_project, print_projects, scan, DirTree, Project, ScanError};

fn make_project_with_two_repos() -> Project {
    Project {
        name: "Project1".to_string(),
        path: "/some/path".to_string(),
        repos: Some(vec![
            Directory {
                name: "Repo1".to_string(),
                path: "/some/path/repo1".to_string(),
            },
            Directory {
                name: "Repo2".to_string(),
                path: "/some/path/repo2".to_string(),
            },
        ]),
    }
}

fn make_project_with_one_repo() -> Project {
    Project {
        name: "Project2".to_string(),
        path: "/some/different/path".to_string(),
        repos: Some(vec![Directory {
            name: "DifferentRepo".to_string(),
            path: "/some/different/path/repo".to_string(),
        }]),
    }
}

fn make_project_without_repos() -> Project {
    Project {
        name: "Project".to_string(),
        path: "/some/path".to_string(),
        repos: None,
    }
}

#[test]
fn should_print_all_projects() {
    let projects = vec![make_project_with_two_repos(), make_project_with_one_repo()];

    let mut result = String::new();
    print_projects(projects, &mut result);

    assert_eq!(
        result,
        format!(
            "\nProject {}, \"{}\", with Git repositories:\n  - {}\n  - {}\n\
    \nProject {}, \"{}\", with Git repositories:\n  - {}\n",
            "Project1".bright_green(),
            "/some/path",
            "Repo1".yellow(),
            "Repo2".yellow(),
            "Project2".bright_green(),
            "/some/different/path",
            "DifferentRepo".yellow()
        )
    );
}

#[test]
fn should_print_one_project() {
    let projects = vec![make_project_with_two_repos()];

    let mut result = String::new();
    print_projects(projects, &mut result);

    assert_eq!(
        result,
        format!(
            "\nProject {}, \"{}\", with Git repositories:\n  - {}\n  - {}\n",
            "Project1".bright_green(),
            "/some/path",
            "Repo1".yellow(),
            "Repo2".yellow()
        )
    );
}

#[test]
fn should_print_project_without_repos() {
    let projects = vec![make_project_without_repos()];

    let mut result = String::new();
    print_projects(projects, &mut result);

    assert_eq!(
        result,
        format!("\nProject found: {}, \"{}\"\n", "Project".bright_green(), "/some/path")
    );
}

#[test]
fn print_projects_of_nothing_writes_nothing() {
    let mut result = String::new();
    print_projects(Vec::new(), &mut result);
    assert_eq!("", result);
}

#[test]
fn test_parent_lvl_project() {
    let path = "/some/path/some-name";
    let result = parent_lvl_project(path);
    assert_eq!(1, result.len());

    let res_project = result.into_iter().nth(0).unwrap();
    assert_eq!("some-name", res_project.name);
    assert_eq!(path, res_project.path);
    assert!(res_project.repos.is_none());
}

fn dir(path: &str) -> Directory {
    Directory::from(path.to_string())
}

/// Explores a tree whose listings are given by `list`, as the file system
/// would give them.
fn explore(root: &str, list: &dyn Fn(&str) -> Option<Vec<Directory>>) -> DirTree {
    let mut tree = DirTree::new(root.to_string());
    while let Some(path) = tree.next_path() {
        match list(&path) {
            Some(listing) => tree.add_listing(listing),
            None => tree.listing_failed(),
        }
    }
    tree
}

fn names(repos: &Option<Vec<Directory>>) -> Vec<String> {
    repos.as_ref().unwrap().iter().map(|d| d.name.clone()).collect()
}

#[test]
fn scan_groups_repositories_by_directory() {
    let tree = explore("/root", &|p| {
        Some(match p {
            "/root" => vec![dir("/root/groupA"), dir("/root/groupB")],
            "/root/groupA" => vec![dir("/root/groupA/.git"), dir("/root/groupA/src")],
            "/root/groupB" => vec![dir("/root/groupB/repo1"), dir("/root/groupB/repo2")],
            "/root/groupB/repo1" => vec![dir("/root/groupB/repo1/.git")],
            "/root/groupB/repo2" => vec![dir("/root/groupB/repo2/.git")],
            _ => vec![],
        })
    });
    let projects = scan(&tree).ok().unwrap();
    assert_eq!(2, projects.len());

    let root = projects.iter().find(|p| p.name == "root").unwrap();
    assert_eq!("/root", root.path);
    assert_eq!(vec!["groupA"], names(&root.repos));

    let group_b = projects.iter().find(|p| p.name == "groupB").unwrap();
    assert_eq!("/root/groupB", group_b.path);
    assert_eq!(vec!["repo1", "repo2"], names(&group_b.repos));
}

#[test]
fn scan_of_a_repository_root() {
    let tree = explore("/work/tool", &|p| {
        assert_eq!("/work/tool", p);
        Some(vec![dir("/work/tool/src"), dir("/work/tool/.git")])
    });
    let projects = scan(&tree).ok().unwrap();
    assert_eq!(1, projects.len());
    assert_eq!("tool", projects[0].name);
    assert_eq!("/work/tool", projects[0].path);
    assert!(projects[0].repos.is_none());
}

#[test]
fn scan_without_repositories() {
    let tree = explore("/root", &|p| {
        Some(match p {
            "/root" => vec![dir("/root/a"), dir("/root/b")],
            "/root/a" => vec![dir("/root/a/deep")],
            _ => vec![],
        })
    });
    assert!(matches!(scan(&tree), Err(ScanError::NoProjectsFound)));
}

#[test]
fn scan_of_an_empty_root() {
    let tree = explore("/root", &|_| Some(vec![]));
    assert!(matches!(scan(&tree), Err(ScanError::NoProjectsFound)));
}

#[test]
fn scan_stops_at_an_unreadable_directory() {
    let tree = explore("/root", &|p| match p {
        "/root" => Some(vec![dir("/root/a"), dir("/root/b")]),
        "/root/a" => None,
        _ => Some(vec![dir("/x/.git")]),
    });
    assert!(matches!(scan(&tree), Err(ScanError::UnreadableRoot(ref p)) if p == "/root/a"));
}

#[test]
fn scan_does_not_descend_into_repositories() {
    let tree = explore("/root", &|p| {
        Some(match p {
            "/root" => vec![dir("/root/repo")],
            "/root/repo" => vec![dir("/root/repo/.git"), dir("/root/repo/nested")],
            "/root/repo/nested" => panic!("a repository is not explored"),
            _ => vec![],
        })
    });
    let projects = scan(&tree).ok().unwrap();
    assert_eq!(1, projects.len());
    assert_eq!(vec!["repo"], names(&projects[0].repos));
}

#[test]
fn scan_lists_deeper_projects_first() {
    let tree = explore("/r", &|p| {
        Some(match p {
            "/r" => vec![dir("/r/one"), dir("/r/g")],
            "/r/one" => vec![dir("/r/one/.git")],
            "/r/g" => vec![dir("/r/g/two")],
            "/r/g/two" => vec![dir("/r/g/two/.git")],
            _ => vec![],
        })
    });
    let projects = scan(&tree).ok().unwrap();
    assert_eq!(2, projects.len());
    assert_eq!("g", projects[0].name);
    assert_eq!("r", projects[1].name);
}

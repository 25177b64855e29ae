//! Directories as listed from the file system, and the test for a Git
//! repository among them.

use vstd::prelude::*;

use crate::text::{file_name, file_name_of};

verus! {

/// The name of the directory Git keeps its data in.
pub const GIT_DIR: &'static str = ".git";

/// The name given to a path that has no final component.
pub const NAME_UNAVAILABLE: &'static str = "Name_Unavailable";

/// A directory: its own name and its full path.
pub struct Directory {
    pub name: String,
    pub path: String,
}

/// What a directory is, as plain text.
pub struct DirView {
    pub name: Seq<char>,
    pub path: Seq<char>,
}

impl View for Directory {
    type V = DirView;

    open spec fn view(&self) -> DirView {
        DirView { name: self.name@, path: self.path@ }
    }
}

/// The views of a sequence of directories.
pub open spec fn dirs_view(dirs: Seq<Directory>) -> Seq<DirView> {
    dirs.map_values(|d: Directory| d@)
}

/// The name of the directory Git keeps its data in, as text.
pub open spec fn git_dir() -> Seq<char> {
    seq!['.', 'g', 'i', 't']
}

/// Some directory among `dirs` is Git's data directory.
pub open spec fn has_git(dirs: Seq<DirView>) -> bool {
    exists|i: int| 0 <= i < dirs.len() && #[trigger] dirs[i].name == git_dir()
}

/// The name of the path `p`: its final component, or a fixed placeholder when
/// it has none.
pub open spec fn name_of(p: Seq<char>) -> Seq<char> {
    match file_name_of(p) {
        Some(n) => n,
        None => NAME_UNAVAILABLE@,
    }
}

impl Directory {
    /// The directory at `path`, named after its final component.
    pub fn from(path: String) -> (r: Directory)
        ensures
            r.path@ == path@,
            r.name@ == name_of(path@),
    {
        let name = get_name(path.as_str());
        Directory { name, path }
    }

    /// A copy of this directory.
    pub fn duplicate(&self) -> (r: Directory)
        ensures
            r@ == self@,
    {
        Directory { name: self.name.clone(), path: self.path.clone() }
    }
}

/// Tells whether a listing holds Git's data directory, which makes the
/// listed directory a repository. The name must match exactly.
pub fn contains_git(dirs: &[Directory]) -> (r: bool)
    ensures
        r == has_git(dirs_view(dirs@)),
{
    let git = String::from_str(GIT_DIR);
    proof {
        reveal_strlit(".git");
    }
    assert(git@ == git_dir());
    let mut i: usize = 0;
    while i < dirs.len()
        invariant
            i <= dirs@.len(),
            git@ == git_dir(),
            forall|j: int| 0 <= j < i ==> #[trigger] dirs@[j].name@ != git_dir(),
        decreases dirs@.len() - i,
    {
        if dirs[i].name == git {
            assert(dirs_view(dirs@)[i as int].name == git_dir());
            return true;
        }
        i = i + 1;
    }
    assert forall|j: int| 0 <= j < dirs_view(dirs@).len() implies #[trigger] dirs_view(
        dirs@,
    )[j].name != git_dir() by {
        assert(dirs@[j].name@ != git_dir());
    }
    false
}

/// The name of the directory at `path`: its final component, or
/// `Name_Unavailable` when the path has none (as `/` or `..`).
pub fn get_name(path: &str) -> (r: String)
    ensures
        r@ == name_of(path@),
{
    match file_name(path) {
        Some(n) => n,
        None => NAME_UNAVAILABLE.to_string(),
    }
}

} // verus!

use vstd::prelude::*;

verus! {

/// The name of the directory that holds the program's files.
pub const PROJECT_DIR_NAME: &'static str = "group29_backup";

/// The name of the directory that holds the executable inside a macOS
/// application bundle (`<bundle>/Contents/MacOS/<exe>`).
pub const BUNDLE_EXE_DIR_NAME: &'static str = "MacOS";

/// Why the project directory could not be located.
#[derive(Clone, Copy, Debug, PartialEq, Eq, Structural)]
pub enum ProjectDirError {
    /// The executable's path has no parent directory.
    NoParent,
    /// The executable sits in a `MacOS` directory with nothing two levels up.
    NoBundleRoot,
    /// No ancestor directory carries the project directory's name.
    NotFound,
}

/// The first `k` components of `parts` name a directory called
/// `PROJECT_DIR_NAME`.
pub open spec fn is_project_root(parts: Seq<String>, k: int) -> bool {
    1 <= k <= parts.len() && parts[k - 1]@ == PROJECT_DIR_NAME@
}

/// `k` is the deepest project directory among the first `start` components.
pub open spec fn nearest_root(parts: Seq<String>, start: int, k: int) -> bool {
    &&& k <= start
    &&& is_project_root(parts, k)
    &&& forall|j: int| k < j <= start ==> !is_project_root(parts, j)
}

/// None of the first `start` components is a project directory.
pub open spec fn no_root(parts: Seq<String>, start: int) -> bool {
    forall|j: int| 1 <= j <= start ==> !is_project_root(parts, j)
}

/// Where the search starts, as a number of leading components of the
/// executable's path: its parent directory, or, for an executable inside a
/// macOS bundle's `MacOS` directory, the directory two levels above that.
pub open spec fn project_search_start(parts: Seq<String>) -> Result<int, ProjectDirError> {
    if parts.len() == 0 {
        Err(ProjectDirError::NoParent)
    } else {
        let s: int = parts.len() - 1;
        if s >= 1 && parts[s - 1]@ == BUNDLE_EXE_DIR_NAME@ {
            if s >= 2 {
                Ok(s - 2)
            } else {
                Err(ProjectDirError::NoBundleRoot)
            }
        } else {
            Ok(s)
        }
    }
}

/// What searching upwards from `start` gives: the deepest project directory
/// at or above it, or `NotFound`.
pub open spec fn search_result_ok(parts: Seq<String>, start: int, r: Result<usize, ProjectDirError>) -> bool {
    match r {
        Ok(k) => nearest_root(parts, start, k as int),
        Err(e) => e == ProjectDirError::NotFound && no_root(parts, start),
    }
}

fn find_root_from(parts: &Vec<String>, start: usize) -> (r: Result<usize, ProjectDirError>)
    requires
        start <= parts@.len(),
    ensures
        search_result_ok(parts@, start as int, r),
{
    let name = String::from_str(PROJECT_DIR_NAME);
    let mut k: usize = start;
    while !(k >= 1 && parts[k - 1] == name)
        invariant
            k <= start <= parts@.len(),
            name@ == PROJECT_DIR_NAME@,
            forall|j: int| k < j <= start ==> !is_project_root(parts@, j),
        decreases k,
    {
        if k == 0 {
            return Err(ProjectDirError::NotFound);
        }
        k = k - 1;
    }
    Ok(k)
}

/// Locates the project directory above an executable whose path has the
/// components `parts` (root excluded): the result is how many leading
/// components name that directory.
pub fn project_directory_len(parts: &Vec<String>) -> (r: Result<usize, ProjectDirError>)
    ensures
        match project_search_start(parts@) {
            Err(e) => r == Err::<usize, ProjectDirError>(e),
            Ok(s) => search_result_ok(parts@, s, r),
        },
{
    if parts.len() == 0 {
        return Err(ProjectDirError::NoParent);
    }
    let mut start: usize = parts.len() - 1;
    let bundle = String::from_str(BUNDLE_EXE_DIR_NAME);
    if start >= 1 && parts[start - 1] == bundle {
        if start >= 2 {
            start = start - 2;
        } else {
            return Err(ProjectDirError::NoBundleRoot);
        }
    }
    find_root_from(parts, start)
}

/// Locates the directory above which the sounds directory lies, searching
/// upwards from the executable's own directory (no bundle step): the result
/// is how many leading components name the project directory.
pub fn sound_base_directory_len(parts: &Vec<String>) -> (r: Result<usize, ProjectDirError>)
    ensures
        parts@.len() == 0 ==> r == Err::<usize, ProjectDirError>(ProjectDirError::NoParent),
        parts@.len() > 0 ==> search_result_ok(parts@, parts@.len() - 1, r),
{
    if parts.len() == 0 {
        return Err(ProjectDirError::NoParent);
    }
    find_root_from(parts, parts.len() - 1)
}

/// Different results of the search name different components: the project
/// directory found is unique.
pub proof fn lemma_nearest_root_unique(parts: Seq<String>, start: int, k1: int, k2: int)
    requires
        nearest_root(parts, start, k1),
        nearest_root(parts, start, k2),
    ensures
        k1 == k2,
{
}

} // verus!

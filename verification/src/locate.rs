//! From a path as the user gave it to the repository that owns it and the
//! path inside that repository.

use vstd::prelude::*;
use vstd::string::*;
use crate::error::{ErrorKind, WerError};
use crate::path::{
    are_resolved, below, components, is_absolute, is_absolute_text, relative_to, split_pieces,
    RelativePath,
};
use crate::store::{discover, workdir, workdir_text};
use crate::text::{join, joined};

verus! {

/// What the file system says about the path of a request.
pub struct PathProbe {
    /// The path in absolute form; absent where a relative path could not
    /// be resolved against the current directory.
    pub resolved: Option<String>,
    /// Whether anything exists at the path.
    pub exists: bool,
    /// Whether the path is a directory.
    pub is_dir: bool,
    /// Whether the path is a regular file.
    pub is_file: bool,
}

/// A path together with the repository that owns it.
pub struct Located {
    pub repo: git2::Repository,
    /// The path in absolute form.
    pub full_path: String,
    /// The path below the working directory of `repo`.
    pub relative: RelativePath,
}

/// The failure that the probe of a path alone decides, if any: the kind
/// and the message.
pub open spec fn target_error(path: Seq<char>, probe: PathProbe, must_be_file: bool) -> Option<
    (ErrorKind, Seq<char>),
> {
    if probe.resolved is None {
        Some(
            (ErrorKind::PathNotFound, "Cannot resolve path '"@ + path + "'. Check if it exists."@),
        )
    } else if !probe.exists {
        Some((ErrorKind::PathNotFound, "Path '"@ + path + "' doesn't exist. Check spelling."@))
    } else if must_be_file && probe.is_dir {
        Some(
            (ErrorKind::PathIsDirectory, "Blame can only be used on files, not directories: "@ + path),
        )
    } else {
        None
    }
}

/// The directory above the path written as `full`; the path itself where
/// it has no name to drop.
pub open spec fn parent_text(full: Seq<char>) -> Seq<char> {
    if components(full).len() == 0 {
        full
    } else {
        (if is_absolute_text(full) {
            "/"@
        } else {
            ""@
        }) + joined(components(full).drop_last(), "/"@)
    }
}

/// Where the search for the repository starts: at the directory that holds
/// a file, at the path itself otherwise.
pub open spec fn search_start(full: Seq<char>, is_file: bool) -> Seq<char> {
    if is_file {
        parent_text(full)
    } else {
        full
    }
}

/// The failure to place `full` in the working directory `workdir`, if any.
pub open spec fn placement_error(path: Seq<char>, full: Seq<char>, workdir: Option<Seq<char>>) -> Option<
    (ErrorKind, Seq<char>),
> {
    match workdir {
        None => Some((ErrorKind::PathOutsideRepository, "Repository has no working directory"@)),
        Some(dir) => if below(full, dir) is None {
            Some(
                (
                    ErrorKind::PathOutsideRepository,
                    "Path '"@ + path + "' is not within the repository at '"@ + dir + "'"@,
                ),
            )
        } else {
            None
        },
    }
}

/// The directory above `full`.
pub fn parent_of(full: &str) -> (parent: String)
    ensures
        parent@ == parent_text(full@),
{
    let mut names = split_pieces(full);
    if names.len() == 0 {
        return String::from_str(full);
    }
    let ghost all = names.deep_view();
    names.pop();
    proof {
        assert(names.deep_view() =~= all.drop_last());
    }
    let mut parent = if is_absolute(full) {
        String::from_str("/")
    } else {
        String::from_str("")
    };
    parent.append(join(&names, "/").as_str());
    parent
}

/// A path that exists, with the place where the search for its repository
/// starts.
pub struct Target {
    /// The path in absolute form.
    pub full_path: String,
    /// The directory from which the repository is looked for.
    pub start: String,
}

/// Checks what the file system says about the path, and gives the
/// directory at which the search for the repository starts.
pub fn check_target(path: &str, probe: &PathProbe, must_be_file: bool) -> (target: Result<
    Target,
    WerError,
>)
    ensures
        match target {
            Ok(found) => target_error(path@, *probe, must_be_file) is None && probe.resolved
                == Some(found.full_path) && found.start@ == search_start(
                found.full_path@,
                probe.is_file,
            ),
            Err(failure) => target_error(path@, *probe, must_be_file) == Some(
                (failure.kind, failure.message@),
            ),
        },
{
    let full_path = match &probe.resolved {
        Some(full) => full.clone(),
        None => {
            return Err(
                WerError::about(
                    ErrorKind::PathNotFound,
                    "Cannot resolve path '",
                    path,
                    "'. Check if it exists.",
                ),
            );
        },
    };
    if !probe.exists {
        return Err(
            WerError::about(
                ErrorKind::PathNotFound,
                "Path '",
                path,
                "' doesn't exist. Check spelling.",
            ),
        );
    }
    if must_be_file && probe.is_dir {
        return Err(
            WerError::with(
                ErrorKind::PathIsDirectory,
                "Blame can only be used on files, not directories: ",
                path,
            ),
        );
    }
    let start = if probe.is_file {
        parent_of(full_path.as_str())
    } else {
        full_path.clone()
    };
    Ok(Target { full_path, start })
}

/// Expresses `full` relative to the working directory of its repository.
pub fn place_in_workdir(path: &str, full: &str, workdir: &Option<String>) -> (placed: Result<
    RelativePath,
    WerError,
>)
    ensures
        match placed {
            Ok(relative) => workdir matches Some(dir) && below(full@, dir@) == Some(relative@)
                && are_resolved(relative@) && forall|k: int|
                0 <= k < relative@.len() ==> relative@[k] != ".."@,
            Err(failure) => placement_error(
                path@,
                full@,
                match workdir {
                    Some(dir) => Some(dir@),
                    None => None,
                },
            ) == Some((failure.kind, failure.message@)),
        },
{
    let dir = match workdir {
        Some(dir) => dir,
        None => {
            return Err(
                WerError {
                    kind: ErrorKind::PathOutsideRepository,
                    message: String::from_str("Repository has no working directory"),
                },
            );
        },
    };
    match relative_to(full, dir.as_str()) {
        Some(relative) => {
            proof {
                reveal_strlit("..");
                assert(".."@ =~= seq!['.', '.']);
            }
            Ok(relative)
        },
        None => {
            let mut message = String::from_str("Path '");
            message.append(path);
            message.append("' is not within the repository at '");
            message.append(dir.as_str());
            message.append("'");
            Err(WerError { kind: ErrorKind::PathOutsideRepository, message })
        },
    }
}

/// The message that no repository encloses the path.
pub open spec fn not_a_repository_text(path: Seq<char>) -> Seq<char> {
    "Path '"@ + path + "' is not in a git repository"@
}

/// Whether `relative` is the place of the path `full` in some working
/// directory: the names of `full` below that directory, none of them a
/// step up.
pub open spec fn is_placed(full: Seq<char>, relative: Seq<Seq<char>>) -> bool {
    &&& exists|dir: Seq<char>| #[trigger] below(full, dir) == Some(relative)
    &&& are_resolved(relative)
    &&& forall|k: int| 0 <= k < relative.len() ==> relative[k] != ".."@
}

/// Whether `failure` says that the path `full` has no place in the
/// working directory of its repository: the repository has none, or the
/// path lies outside it.
pub open spec fn is_unplaced(path: Seq<char>, full: Seq<char>, failure: WerError) -> bool {
    &&& failure.kind == ErrorKind::PathOutsideRepository
    &&& exists|workdir: Option<Seq<char>>| #[trigger]
        placement_error(path, full, workdir) == Some((failure.kind, failure.message@))
}

/// Finds the repository that owns the path of a request and the path's
/// place in it. The probe decides first; then the repository is looked for
/// from the path upwards, and the path is placed in its working directory.
pub fn validate_git_path(path: &str, probe: &PathProbe, must_be_file: bool) -> (located: Result<
    Located,
    WerError,
>)
    ensures
        match located {
            Ok(place) => target_error(path@, *probe, must_be_file) is None && probe.resolved == Some(
                place.full_path,
            ) && is_placed(place.full_path@, place.relative@) && workdir_text(place.repo) is Some
                && below(place.full_path@, workdir_text(place.repo)->0) == Some(place.relative@),
            Err(failure) => match target_error(path@, *probe, must_be_file) {
                Some(decided) => decided == (failure.kind, failure.message@),
                None => (failure.kind == ErrorKind::NotARepository && failure.message@
                    == not_a_repository_text(path@)) || is_unplaced(
                    path@,
                    probe.resolved->0@,
                    failure,
                ),
            },
        },
{
    let Target { full_path, start } = match check_target(path, probe, must_be_file) {
        Ok(target) => target,
        Err(failure) => {
            return Err(failure);
        },
    };
    let repo = match discover(start.as_str()) {
        Ok(repo) => repo,
        Err(_) => {
            return Err(
                WerError::about(
                    ErrorKind::NotARepository,
                    "Path '",
                    path,
                    "' is not in a git repository",
                ),
            );
        },
    };
    let dir = workdir(&repo);
    let ghost asked = if dir is Some {
        Some(dir->0@)
    } else {
        None
    };
    match place_in_workdir(path, full_path.as_str(), &dir) {
        Ok(relative) => {
            proof {
                assert(below(full_path@, dir->0@) == Some(relative@));
                assert(is_placed(full_path@, relative@));
            }
            Ok(Located { repo, full_path, relative })
        },
        Err(failure) => {
            proof {
                assert(placement_error(path@, full_path@, asked) == Some(
                    (failure.kind, failure.message@),
                ));
                assert(is_unplaced(path@, full_path@, failure));
            }
            Err(failure)
        },
    }
}

} // verus!

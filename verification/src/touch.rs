//! Whether a commit changed a path.

use vstd::prelude::*;
use crate::error::{ErrorKind, WerError};
use crate::path::{path_names, related, RelativePath};
use crate::store::{
    changed_paths, commit_parent, commit_tree, diff_trees, parent_count, parents_of, tree_lookup,
    PathChange,
};

verus! {

/// What a commit changed, as far as one path is concerned.
pub enum TreeChangeSet {
    /// A commit without parents: everything in its tree is new.
    /// `entry_found` says whether the tree holds an entry at the path.
    Root { entry_found: bool },
    /// A commit with parents: the entries that differ between its tree and
    /// the tree of its first parent.
    Changes { entries: Vec<PathChange> },
}

/// Whether one side of a changed entry lies at, below or above `path`.
pub open spec fn side_touches(side: Option<String>, path: Seq<Seq<char>>) -> bool {
    match side {
        Some(text) => related(path_names(text@), path),
        None => false,
    }
}

/// Whether a changed entry lies at, below or above `path` on either side.
pub open spec fn entry_touches(entry: PathChange, path: Seq<Seq<char>>) -> bool {
    side_touches(entry.new_path, path) || side_touches(entry.old_path, path)
}

/// Whether some entry of a diff lies at, below or above `path`.
pub open spec fn entries_touch(entries: Seq<PathChange>, path: Seq<Seq<char>>) -> bool {
    exists|i: int| 0 <= i < entries.len() && entry_touches(#[trigger] entries[i], path)
}

/// Whether a commit with the change set `changes` touches `path`. A commit
/// without parents touches the root of the tree and every entry of its
/// tree; any other commit touches a path where its diff against the first
/// parent has an entry at, below or above that path.
pub open spec fn touches_path(changes: TreeChangeSet, path: Seq<Seq<char>>) -> bool {
    match changes {
        TreeChangeSet::Root { entry_found } => path.len() == 0 || entry_found,
        TreeChangeSet::Changes { entries } => entries_touch(entries@, path),
    }
}

fn side_is_touching(side: &Option<String>, path: &RelativePath) -> (touching: bool)
    ensures
        touching == side_touches(*side, path@),
{
    match side {
        Some(text) => RelativePath::parse(text.as_str()).is_related_to(path),
        None => false,
    }
}

/// Decides whether a diff touches `path`.
pub fn diff_touches(entries: &Vec<PathChange>, path: &RelativePath) -> (touched: bool)
    ensures
        touched == entries_touch(entries@, path@),
{
    let mut i: usize = 0;
    while i < entries.len()
        invariant
            i <= entries.len(),
            forall|k: int| 0 <= k < i ==> !entry_touches(#[trigger] entries@[k], path@),
        decreases entries.len() - i,
    {
        if side_is_touching(&entries[i].new_path, path) || side_is_touching(
            &entries[i].old_path,
            path,
        ) {
            return true;
        }
        i += 1;
    }
    false
}

/// Decides whether a commit with the change set `changes` touches `path`.
pub fn touches(changes: &TreeChangeSet, path: &RelativePath) -> (touched: bool)
    ensures
        touched == touches_path(*changes, path@),
{
    match changes {
        TreeChangeSet::Root { entry_found } => path.is_root() || *entry_found,
        TreeChangeSet::Changes { entries } => diff_touches(entries, path),
    }
}

/// Whether the tree holds `path`: the root always, any other path where
/// the tree has an entry at it.
pub fn tree_contains_path(tree: &git2::Tree, path: &RelativePath) -> (held: bool)
    ensures
        path@.len() == 0 ==> held,
{
    if path.is_root() {
        return true;
    }
    tree_lookup(tree, path.to_text().as_str()).is_ok()
}

/// Reads from the object store what `commit` changed with respect to
/// `path`: for a commit without parents whether its tree holds the path,
/// for any other the diff against its first parent.
pub fn read_changes(repo: &git2::Repository, commit: &git2::Commit, path: &RelativePath) -> (changes:
    Result<TreeChangeSet, WerError>)
    ensures
        match changes {
            Ok(set) => (set is Root <==> parents_of(*commit) == 0) && (set matches TreeChangeSet::Root {
                entry_found,
            } ==> (path@.len() == 0 ==> entry_found)),
            Err(failure) => failure.kind == ErrorKind::ObjectStoreError,
        },
{
    let tree = match commit_tree(commit) {
        Ok(tree) => tree,
        Err(error) => {
            return Err(WerError::from_store(&error));
        },
    };
    if parent_count(commit) == 0 {
        return Ok(TreeChangeSet::Root { entry_found: tree_contains_path(&tree, path) });
    }
    let parent = match commit_parent(commit, 0) {
        Ok(parent) => parent,
        Err(error) => {
            return Err(WerError::from_store(&error));
        },
    };
    let parent_tree = match commit_tree(&parent) {
        Ok(tree) => tree,
        Err(error) => {
            return Err(WerError::from_store(&error));
        },
    };
    let diff = match diff_trees(repo, &parent_tree, &tree) {
        Ok(diff) => diff,
        Err(error) => {
            return Err(WerError::from_store(&error));
        },
    };
    match changed_paths(&diff) {
        Ok(entries) => Ok(TreeChangeSet::Changes { entries }),
        Err(error) => Err(WerError::from_store(&error)),
    }
}

/// Decides whether `commit` touches `path`, reading the commit's changes
/// from the object store.
pub fn commit_touches_path(repo: &git2::Repository, commit: &git2::Commit, path: &RelativePath) -> (touched:
    Result<bool, WerError>)
    ensures
        touched matches Err(failure) ==> failure.kind == ErrorKind::ObjectStoreError,
        parents_of(*commit) == 0 && path@.len() == 0 ==> (touched matches Ok(found) ==> found),
{
    match read_changes(repo, commit, path) {
        Ok(changes) => Ok(touches(&changes, path)),
        Err(failure) => Err(failure),
    }
}

} // verus!

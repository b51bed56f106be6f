//! The calls into the object store. Each function here hands one request to
//! git2 and returns what git2 answered. What a value that git2 has read
//! holds is given a name; of what git2 has yet to read from the repository
//! on disk nothing is claimed.

use vstd::prelude::*;

verus! {

#[verifier::external_type_specification]
#[verifier::external_body]
pub struct ExRepository(git2::Repository);

#[verifier::external_type_specification]
#[verifier::external_body]
pub struct ExCommit<'repo>(git2::Commit<'repo>);

#[verifier::external_type_specification]
#[verifier::external_body]
pub struct ExTree<'repo>(git2::Tree<'repo>);

#[verifier::external_type_specification]
#[verifier::external_body]
pub struct ExDiff<'repo>(git2::Diff<'repo>);

#[verifier::external_type_specification]
#[verifier::external_body]
pub struct ExRevwalk<'repo>(git2::Revwalk<'repo>);

#[verifier::external_type_specification]
#[verifier::external_body]
pub struct ExBlame<'repo>(git2::Blame<'repo>);

#[verifier::external_type_specification]
#[verifier::external_body]
pub struct ExBlameHunk<'blame>(git2::BlameHunk<'blame>);

#[verifier::external_type_specification]
#[verifier::external_body]
pub struct ExOid(git2::Oid);

#[verifier::external_type_specification]
#[verifier::external_body]
pub struct ExError(git2::Error);

/// The two sides of one changed entry of a tree diff, each written with `/`
/// between its names; a side is absent where git2 reports no path for it.
pub struct PathChange {
    pub new_path: Option<String>,
    pub old_path: Option<String>,
}

/// The identifier of a commit as git2 writes it, in hexadecimal.
pub uninterp spec fn commit_id_hex(commit: git2::Commit) -> Seq<char>;

/// The name of the author of a commit; absent where git2 has no text for
/// it.
pub uninterp spec fn commit_author_name(commit: git2::Commit) -> Option<Seq<char>>;

/// The time at which the author wrote a commit, in seconds since the
/// epoch.
pub uninterp spec fn commit_author_seconds(commit: git2::Commit) -> i64;

/// The summary of a commit: the first paragraph of its message on one
/// line; absent where the commit has none or git2 has no text for it.
pub uninterp spec fn commit_summary_line(commit: git2::Commit) -> Option<Seq<char>>;

/// The number of parents of a commit.
pub uninterp spec fn parents_of(commit: git2::Commit) -> nat;

/// The working directory of a repository as text; a bare repository has
/// none.
pub uninterp spec fn workdir_text(repo: git2::Repository) -> Option<Seq<char>>;

/// The numbers of the lines, counted from 1, that a blame attributes to a
/// commit.
pub uninterp spec fn attributed_lines(blame: git2::Blame) -> Set<nat>;

/// The text that git2 writes for an error: its message, class and code.
pub uninterp spec fn error_display(error: git2::Error) -> Seq<char>;

/// The text that git2 gave, absent where it gave none.
pub open spec fn text_read(text: Option<String>) -> Option<Seq<char>> {
    match text {
        Some(held) => Some(held@),
        None => None,
    }
}

/// The name that git2 gave, absent where it gave an error.
pub open spec fn name_read(author: Result<String, git2::Error>) -> Option<Seq<char>> {
    match author {
        Ok(name) => Some(name@),
        Err(_) => None,
    }
}

/// The summary that git2 gave, absent where it gave none or an error.
pub open spec fn summary_read(summary: Result<Option<String>, git2::Error>) -> Option<Seq<char>> {
    match summary {
        Ok(Some(line)) => Some(line@),
        _ => None,
    }
}

/// `git2::Repository::discover`: opens the repository that encloses `start`.
#[verifier::external_body]
pub(crate) fn discover(start: &str) -> (found: Result<git2::Repository, git2::Error>) {
    git2::Repository::discover(start)
}

/// `git2::Repository::workdir`: the working directory of the repository, as
/// text, with the replacement character for bytes that are no UTF-8; a bare
/// repository has none.
#[verifier::external_body]
pub(crate) fn workdir(repo: &git2::Repository) -> (dir: Option<String>)
    ensures
        text_read(dir) == workdir_text(*repo),
{
    repo.workdir().map(|dir| dir.to_string_lossy().into_owned())
}

/// `git2::Repository::revwalk`: a new walk over the commit graph.
#[verifier::external_body]
pub(crate) fn start_walk<'r>(repo: &'r git2::Repository) -> (walk: Result<
    git2::Revwalk<'r>,
    git2::Error,
>) {
    repo.revwalk()
}

/// `git2::Revwalk::push_head`: makes the walk start at the current branch tip.
#[verifier::external_body]
pub(crate) fn push_head(walk: &mut git2::Revwalk) -> (pushed: Result<(), git2::Error>) {
    walk.push_head()
}

/// `Iterator::next` of `git2::Revwalk`: the identifier of the next commit of
/// the walk, or `None` at its end.
#[verifier::external_body]
pub(crate) fn next_id(walk: &mut git2::Revwalk) -> (id: Option<Result<git2::Oid, git2::Error>>) {
    walk.next()
}

/// `git2::Repository::find_commit`: the commit with the identifier `id`.
#[verifier::external_body]
pub(crate) fn find_commit<'r>(repo: &'r git2::Repository, id: git2::Oid) -> (commit: Result<
    git2::Commit<'r>,
    git2::Error,
>) {
    repo.find_commit(id)
}

/// `git2::Commit::id`, written in hexadecimal by the `Display` of
/// `git2::Oid`: the identifier that the commit holds.
#[verifier::external_body]
pub(crate) fn commit_id_text(commit: &git2::Commit) -> (id: String)
    ensures
        id@ == commit_id_hex(*commit),
{
    commit.id().to_string()
}

/// `git2::Signature::name` of `git2::Commit::author`: the author's name
/// that the commit holds, or an error where it is no UTF-8.
#[verifier::external_body]
pub(crate) fn author_name(commit: &git2::Commit) -> (name: Result<String, git2::Error>)
    ensures
        name_read(name) == commit_author_name(*commit),
{
    commit.author().name().map(String::from)
}

/// `git2::Time::seconds` of `git2::Signature::when` of
/// `git2::Commit::author`: the time at which the author wrote the commit,
/// in seconds since the epoch.
#[verifier::external_body]
pub(crate) fn commit_seconds(commit: &git2::Commit) -> (seconds: i64)
    ensures
        seconds == commit_author_seconds(*commit),
{
    commit.author().when().seconds()
}

/// `git2::Commit::summary`: the first paragraph of the message on one line,
/// absent where the commit has none, or an error where it is no UTF-8.
#[verifier::external_body]
pub(crate) fn commit_summary(commit: &git2::Commit) -> (summary: Result<
    Option<String>,
    git2::Error,
>)
    ensures
        summary_read(summary) == commit_summary_line(*commit),
{
    commit.summary().map(|line| line.map(String::from))
}

/// `git2::Commit::parent_count`: the number of parents that the commit
/// holds.
#[verifier::external_body]
pub(crate) fn parent_count(commit: &git2::Commit) -> (count: usize)
    ensures
        count == parents_of(*commit),
{
    commit.parent_count()
}

/// `git2::Commit::tree`: the tree of the commit.
#[verifier::external_body]
pub(crate) fn commit_tree<'r>(commit: &git2::Commit<'r>) -> (tree: Result<
    git2::Tree<'r>,
    git2::Error,
>) {
    commit.tree()
}

/// `git2::Commit::parent`: the parent with the index `index`.
#[verifier::external_body]
pub(crate) fn commit_parent<'r>(commit: &git2::Commit<'r>, index: usize) -> (parent: Result<
    git2::Commit<'r>,
    git2::Error,
>) {
    commit.parent(index)
}

/// `git2::Tree::get_path`: looks up the entry at `path` in the tree or its
/// subtrees; the entry itself is dropped.
#[verifier::external_body]
pub(crate) fn tree_lookup(tree: &git2::Tree, path: &str) -> (found: Result<(), git2::Error>) {
    tree.get_path(std::path::Path::new(path)).map(|_| ())
}

/// `git2::Repository::diff_tree_to_tree` with default options: the diff from
/// `old_tree` to `new_tree`.
#[verifier::external_body]
pub(crate) fn diff_trees<'r>(
    repo: &'r git2::Repository,
    old_tree: &git2::Tree,
    new_tree: &git2::Tree,
) -> (diff: Result<git2::Diff<'r>, git2::Error>) {
    repo.diff_tree_to_tree(Some(old_tree), Some(new_tree), None)
}

/// `git2::Diff::foreach` with a file callback alone: the paths of both sides
/// of every delta (`DiffDelta::new_file`, `DiffDelta::old_file`,
/// `DiffFile::path`), in the order in which git2 reports the deltas. A path
/// is written as text, with the replacement character for bytes that are no
/// UTF-8.
#[verifier::external_body]
pub(crate) fn changed_paths(diff: &git2::Diff) -> (changes: Result<Vec<PathChange>, git2::Error>) {
    let mut changes = Vec::new();
    diff.foreach(
        &mut |delta, _| {
            changes.push(PathChange {
                new_path: delta.new_file().path().map(|p| p.to_string_lossy().into_owned()),
                old_path: delta.old_file().path().map(|p| p.to_string_lossy().into_owned()),
            });
            true
        },
        None,
        None,
        None,
    )?;
    Ok(changes)
}

/// `git2::Repository::blame_file` with default options: the line attribution
/// of the file at `path`.
#[verifier::external_body]
pub(crate) fn blame_file<'r>(repo: &'r git2::Repository, path: &str) -> (blame: Result<
    git2::Blame<'r>,
    git2::Error,
>) {
    repo.blame_file(std::path::Path::new(path), None)
}

/// `git2::Blame::get_line`: the hunk that holds line `line` (counted from 1);
/// there is one exactly where the blame attributes the line.
#[verifier::external_body]
pub(crate) fn blame_line<'b>(blame: &'b git2::Blame, line: usize) -> (hunk: Option<
    git2::BlameHunk<'b>,
>)
    ensures
        hunk is Some <==> attributed_lines(*blame).contains(line as nat),
{
    blame.get_line(line)
}

/// `git2::BlameHunk::final_commit_id`: the commit that last changed the
/// lines of the hunk.
#[verifier::external_body]
pub(crate) fn hunk_commit_id(hunk: &git2::BlameHunk) -> (id: git2::Oid) {
    hunk.final_commit_id()
}

/// `git2::Error::code`, held against `git2::ErrorCode::NotFound`.
#[verifier::external_body]
pub(crate) fn is_not_found(error: &git2::Error) -> (missing: bool) {
    error.code() == git2::ErrorCode::NotFound
}

/// The `Display` of `git2::Error`: its message, class and code.
#[verifier::external_body]
pub(crate) fn error_text(error: &git2::Error) -> (text: String)
    ensures
        text@ == error_display(*error),
{
    error.to_string()
}

} // verus!

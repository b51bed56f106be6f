//! Resolution of a name given by the user to the paths it may stand for.
//!
//! A path that is absolute or starts at the home directory is taken as it
//! is. Any other is looked for below a base directory: as a path first, then
//! as the name of a file or directory anywhere below the base. The search
//! reads no directory itself. It says what it needs to know next, and goes
//! on when it is told.

use vstd::prelude::*;
use vstd::string::*;
use crate::error::{ErrorKind, WerError};
use crate::text::{chars_of, same_text};

verus! {

/// Whether `name` is one of the directory names that a search never descends into.
pub open spec fn is_ignored_name(name: Seq<char>) -> bool {
    ||| name == ".git"@
    ||| name == ".svn"@
    ||| name == ".hg"@
    ||| name == "node_modules"@
    ||| name == "target"@
    ||| name == "build"@
    ||| name == "dist"@
    ||| name == ".vscode"@
    ||| name == ".idea"@
    ||| name == "__pycache__"@
    ||| (name.len() > 0 && name[0] == '.')
}

/// Decides whether a directory is skipped during the recursive search:
/// version-control stores, build outputs, editor settings and every hidden
/// directory.
pub fn is_ignored_directory(name: &str) -> (ignored: bool)
    ensures
        ignored == is_ignored_name(name@),
{
    if name.unicode_len() > 0 && name.get_char(0) == '.' {
        return true;
    }
    same_text(name, ".git") || same_text(name, ".svn") || same_text(name, ".hg") || same_text(
        name,
        "node_modules",
    ) || same_text(name, "target") || same_text(name, "build") || same_text(name, "dist")
        || same_text(name, ".vscode") || same_text(name, ".idea") || same_text(
        name,
        "__pycache__",
    )
}

/// Whether the input names its place itself: an absolute path, or one that
/// starts at the home directory.
pub open spec fn is_direct(input: Seq<char>) -> bool {
    (input.len() >= 1 && input[0] == '/') || (input.len() >= 2 && input[0] == '~' && input[1]
        == '/')
}

/// Whether the input is written as a path rather than as a bare name.
pub open spec fn has_separator(input: Seq<char>) -> bool {
    exists|i: int| 0 <= i < input.len() && input[i] == '/'
}

/// The path of the entry `name` of the directory `dir`, both relative to
/// the base directory, which is written as the empty text.
pub open spec fn child_path(dir: Seq<char>, name: Seq<char>) -> Seq<char> {
    if dir.len() == 0 {
        name
    } else {
        dir + "/"@ + name
    }
}

/// An entry of a directory as the file system reports it.
pub struct DirEntry {
    pub name: String,
    pub is_dir: bool,
}

/// An entry that the search has been told of and has not looked at yet.
pub struct Waiting {
    /// The path of the entry relative to the base directory.
    pub path: String,
    pub name: String,
    pub is_dir: bool,
}

/// A waiting entry as plain text.
pub struct WaitingText {
    pub path: Seq<char>,
    pub name: Seq<char>,
    pub is_dir: bool,
}

impl View for Waiting {
    type V = WaitingText;

    open spec fn view(&self) -> WaitingText {
        WaitingText { path: self.path@, name: self.name@, is_dir: self.is_dir }
    }
}

/// The waiting entries as plain text, in order.
pub open spec fn waiting_texts(stack: Seq<Waiting>) -> Seq<WaitingText> {
    Seq::new(stack.len(), |k: int| stack[k]@)
}

/// The entries of the directory `dir` in the order in which they wait:
/// the last one to be looked at stands first.
pub open spec fn arrivals(dir: Seq<char>, entries: Seq<DirEntry>) -> Seq<WaitingText> {
    Seq::new(
        entries.len(),
        |k: int|
            WaitingText {
                path: child_path(dir, entries[entries.len() - 1 - k].name@),
                name: entries[entries.len() - 1 - k].name@,
                is_dir: entries[entries.len() - 1 - k].is_dir,
            },
    )
}

/// Looks at the waiting entries from the last one down, until one is a
/// directory to descend into or none is left. An entry with the name
/// `target` is a match. The result holds the matches, the entries still
/// waiting, and the directory to list next, if any.
pub open spec fn settled(target: Seq<char>, matches: Seq<Seq<char>>, stack: Seq<WaitingText>) -> (
    Seq<Seq<char>>,
    Seq<WaitingText>,
    Option<Seq<char>>,
)
    decreases stack.len(),
{
    if stack.len() == 0 {
        (matches, stack, None)
    } else {
        let item = stack.last();
        let found = if item.name == target {
            matches.push(item.path)
        } else {
            matches
        };
        if item.is_dir && !is_ignored_name(item.name) {
            (found, stack.drop_last(), Some(item.path))
        } else {
            settled(target, found, stack.drop_last())
        }
    }
}

/// The message that nothing with the name `target` was found.
pub open spec fn nothing_found_text(target: Seq<char>) -> Seq<char> {
    "No file or directory named '"@ + target + "' found starting from current directory"@
}

/// A search that waits to be told whether its input exists as a path below
/// the base directory.
pub struct ProbeState {
    pub input: String,
}

/// A search that waits for the entries of a directory.
pub struct ListState {
    /// The name that is looked for.
    pub target: String,
    /// The directory whose entries are awaited, relative to the base
    /// directory; the empty text is the base itself.
    pub dir: String,
    /// The paths found so far.
    pub matches: Vec<String>,
    /// The entries still to be looked at, the next one last.
    pub stack: Vec<Waiting>,
}

/// What a search does next.
pub enum SearchStep {
    /// The search is over.
    Done(Result<Vec<String>, WerError>),
    /// The caller says whether the input exists as a path below the base.
    NeedsProbe(ProbeState),
    /// The caller lists the directory `dir` of the state.
    NeedsListing(ListState),
}

/// Whether `step` is what a search does that has the matches and waiting
/// entries `before` and looks for `target`.
pub open spec fn continues(step: SearchStep, target: Seq<char>, before: (
    Seq<Seq<char>>,
    Seq<WaitingText>,
    Option<Seq<char>>,
)) -> bool {
    match step {
        SearchStep::Done(Ok(found)) => before.2 is None && before.0.len() > 0 && found.deep_view()
            == before.0,
        SearchStep::Done(Err(failure)) => before.2 is None && before.0.len() == 0 && failure.kind
            == ErrorKind::PathNotFound && failure.message@ == nothing_found_text(target),
        SearchStep::NeedsProbe(_) => false,
        SearchStep::NeedsListing(next) => before.2 == Some(next.dir@) && next.target@ == target
            && next.matches.deep_view() == before.0 && waiting_texts(next.stack@) == before.1,
    }
}

fn is_direct_input(input: &str) -> (direct: bool)
    ensures
        direct == is_direct(input@),
{
    let n = input.unicode_len();
    (n >= 1 && input.get_char(0) == '/') || (n >= 2 && input.get_char(0) == '~' && input.get_char(1)
        == '/')
}

fn contains_separator(input: &str) -> (found: bool)
    ensures
        found == has_separator(input@),
{
    let chars = chars_of(input);
    let mut i: usize = 0;
    while i < chars.len()
        invariant
            i <= chars.len(),
            chars@ == input@,
            forall|j: int| 0 <= j < i ==> chars@[j] != '/',
        decreases chars.len() - i,
    {
        if chars[i] == '/' {
            return true;
        }
        i += 1;
    }
    false
}

fn only(input: &str) -> (paths: Vec<String>)
    ensures
        paths.deep_view() == seq![input@],
{
    let mut paths: Vec<String> = Vec::new();
    paths.push(String::from_str(input));
    proof {
        assert(paths.deep_view() =~= seq![input@]);
    }
    paths
}

/// Starts the search for `input`. A path that names its place itself is
/// the answer at once; for any other the caller is asked whether it exists
/// below the base directory.
pub fn find_all_matches(input: &str) -> (step: SearchStep)
    ensures
        match step {
            SearchStep::Done(Ok(paths)) => is_direct(input@) && paths.deep_view() == seq![input@],
            SearchStep::NeedsProbe(state) => !is_direct(input@) && state.input@ == input@,
            _ => false,
        },
{
    if is_direct_input(input) {
        SearchStep::Done(Ok(only(input)))
    } else {
        SearchStep::NeedsProbe(ProbeState { input: String::from_str(input) })
    }
}

impl ProbeState {
    /// Goes on after the caller has said whether the input exists as a path
    /// below the base directory. What exists is the answer. A path that does
    /// not exist is not found; a bare name is looked for in the base
    /// directory and below.
    pub fn answer(self, exists: bool) -> (step: SearchStep)
        ensures
            match step {
                SearchStep::Done(Ok(paths)) => exists && paths.deep_view() == seq![self.input@],
                SearchStep::Done(Err(failure)) => !exists && has_separator(self.input@)
                    && failure.kind == ErrorKind::PathNotFound && failure.message@ == "Path '"@
                    + self.input@ + "' not found"@,
                SearchStep::NeedsListing(state) => !exists && !has_separator(self.input@)
                    && state.target@ == self.input@ && state.dir@ == Seq::<char>::empty()
                    && state.matches@.len() == 0 && state.stack@.len() == 0,
                SearchStep::NeedsProbe(_) => false,
            },
    {
        if exists {
            return SearchStep::Done(Ok(only(self.input.as_str())));
        }
        if contains_separator(self.input.as_str()) {
            return SearchStep::Done(
                Err(
                    WerError::about(
                        ErrorKind::PathNotFound,
                        "Path '",
                        self.input.as_str(),
                        "' not found",
                    ),
                ),
            );
        }
        SearchStep::NeedsListing(
            ListState {
                target: self.input,
                dir: String::new(),
                matches: Vec::new(),
                stack: Vec::new(),
            },
        )
    }
}

fn join_path(dir: &str, name: &str) -> (path: String)
    ensures
        path@ == child_path(dir@, name@),
{
    if dir.unicode_len() == 0 {
        String::from_str(name)
    } else {
        let mut path = String::from_str(dir);
        path.append("/");
        path.append(name);
        path
    }
}

impl ListState {
    /// Goes on after the caller has listed the directory asked for. The
    /// entries are looked at in the order given, each directory that is not
    /// ignored before the entries behind it. An entry with the name looked
    /// for is a match, whatever it is. The search ends when nothing waits
    /// any more: with the matches in the order in which they were found, or
    /// as a failure where there is none.
    pub fn answer(self, entries: Vec<DirEntry>) -> (step: SearchStep)
        ensures
            continues(
                step,
                self.target@,
                settled(
                    self.target@,
                    self.matches.deep_view(),
                    waiting_texts(self.stack@) + arrivals(self.dir@, entries@),
                ),
            ),
    {
        let ghost goal = settled(
            self.target@,
            self.matches.deep_view(),
            waiting_texts(self.stack@) + arrivals(self.dir@, entries@),
        );
        let ListState { target, dir, mut matches, mut stack } = self;
        let ghost old_stack = waiting_texts(stack@);
        let mut k: usize = entries.len();
        proof {
            assert(waiting_texts(stack@) =~= old_stack + arrivals(dir@, entries@).take(0));
        }
        while k > 0
            invariant
                k <= entries.len(),
                waiting_texts(stack@) == old_stack + arrivals(dir@, entries@).take(
                    entries.len() - k,
                ),
            decreases k,
        {
            k -= 1;
            let ghost before = waiting_texts(stack@);
            let item = Waiting {
                path: join_path(dir.as_str(), entries[k].name.as_str()),
                name: entries[k].name.clone(),
                is_dir: entries[k].is_dir,
            };
            stack.push(item);
            proof {
                assert(waiting_texts(stack@) =~= before.push(item@));
                assert(arrivals(dir@, entries@).take(entries.len() - k) =~= arrivals(
                    dir@,
                    entries@,
                ).take(entries.len() - k - 1).push(item@));
                assert(waiting_texts(stack@) =~= old_stack + arrivals(dir@, entries@).take(
                    entries.len() - k,
                ));
            }
        }
        proof {
            assert(arrivals(dir@, entries@).take(entries.len() as int) =~= arrivals(
                dir@,
                entries@,
            ));
        }
        while stack.len() > 0
            invariant
                target@ == self.target@,
                goal == settled(
                    self.target@,
                    self.matches.deep_view(),
                    waiting_texts(self.stack@) + arrivals(self.dir@, entries@),
                ),
                settled(target@, matches.deep_view(), waiting_texts(stack@)) == goal,
            decreases stack.len(),
        {
            let ghost before = waiting_texts(stack@);
            let ghost found = matches.deep_view();
            let item = stack.pop().unwrap();
            proof {
                assert(before.last() == item@);
                assert(waiting_texts(stack@) =~= before.drop_last());
            }
            let descend = item.is_dir && !is_ignored_directory(item.name.as_str());
            if same_text(item.name.as_str(), target.as_str()) {
                matches.push(item.path.clone());
                proof {
                    assert(matches.deep_view() =~= found.push(item@.path));
                }
            }
            if descend {
                return SearchStep::NeedsListing(
                    ListState { target, dir: item.path, matches, stack },
                );
            }
        }
        proof {
            assert(waiting_texts(stack@) =~= Seq::<WaitingText>::empty());
        }
        if matches.len() == 0 {
            SearchStep::Done(
                Err(
                    WerError::about(
                        ErrorKind::PathNotFound,
                        "No file or directory named '",
                        target.as_str(),
                        "' found starting from current directory",
                    ),
                ),
            )
        } else {
            SearchStep::Done(Ok(matches))
        }
    }

    /// Ends the search where the directory asked for could not be read.
    pub fn fail(self, reason: &str) -> (step: SearchStep)
        ensures
            step matches SearchStep::Done(Err(failure)) && failure.kind
                == ErrorKind::FileUnreadable && failure.message@ == reason@,
    {
        SearchStep::Done(
            Err(WerError { kind: ErrorKind::FileUnreadable, message: String::from_str(reason) }),
        )
    }
}

/// A file or directory together with what lies in it.
pub struct Node {
    pub name: Seq<char>,
    pub is_dir: bool,
    pub children: Seq<Node>,
}

/// A node that waits to be looked at, with the directory it lies in.
pub struct Placed {
    pub dir: Seq<char>,
    pub node: Node,
}

/// Whether the search descends into the node: into any directory that is
/// not ignored.
pub open spec fn descends_into(node: Node) -> bool {
    node.is_dir && !is_ignored_name(node.name)
}

/// What the search knows of a waiting node.
pub open spec fn placed_text(placed: Placed) -> WaitingText {
    WaitingText {
        path: child_path(placed.dir, placed.node.name),
        name: placed.node.name,
        is_dir: placed.node.is_dir,
    }
}

/// What the search knows of the waiting nodes, in order.
pub open spec fn placed_texts(stack: Seq<Placed>) -> Seq<WaitingText> {
    Seq::new(stack.len(), |k: int| placed_text(stack[k]))
}

/// The nodes of the directory `dir` in the order in which they wait: the
/// last one to be looked at stands first.
pub open spec fn placed_children(dir: Seq<char>, children: Seq<Node>) -> Seq<Placed> {
    Seq::new(
        children.len(),
        |k: int| Placed { dir, node: children[children.len() - 1 - k] },
    )
}

/// Whether `entries` is the listing of a directory that holds `children`.
pub open spec fn lists(entries: Seq<DirEntry>, children: Seq<Node>) -> bool {
    &&& entries.len() == children.len()
    &&& forall|k: int|
        0 <= k < entries.len() ==> (#[trigger] entries[k]).name@ == children[k].name
            && entries[k].is_dir == children[k].is_dir
}

/// The paths with the name `target` at and below `node`, which lies in
/// `dir`: the node itself first, then what lies in it, unless it is no
/// directory or an ignored one.
pub open spec fn found_at(target: Seq<char>, dir: Seq<char>, node: Node) -> Seq<Seq<char>>
    decreases node,
{
    let path = child_path(dir, node.name);
    (if node.name == target {
        seq![path]
    } else {
        Seq::empty()
    }) + (if descends_into(node) {
        found_in(target, path, node.children)
    } else {
        Seq::empty()
    })
}

/// The paths with the name `target` at and below the nodes `children` of
/// the directory `dir`, each node with all that lies below it before the
/// next.
pub open spec fn found_in(target: Seq<char>, dir: Seq<char>, children: Seq<Node>) -> Seq<Seq<char>>
    decreases children,
{
    if children.len() == 0 {
        Seq::empty()
    } else {
        found_at(target, dir, children[0]) + found_in(
            target,
            dir,
            children.subrange(1, children.len() as int),
        )
    }
}

/// The paths with the name `target` at and below the waiting nodes, the
/// last node first.
pub open spec fn found_waiting(target: Seq<char>, stack: Seq<Placed>) -> Seq<Seq<char>>
    decreases stack.len(),
{
    if stack.len() == 0 {
        Seq::empty()
    } else {
        found_at(target, stack.last().dir, stack.last().node) + found_waiting(
            target,
            stack.drop_last(),
        )
    }
}

/// What waits after a directory was listed holds what lies in the
/// directory, in listing order, before what waited already.
pub proof fn lemma_found_after_listing(
    target: Seq<char>,
    below: Seq<Placed>,
    dir: Seq<char>,
    children: Seq<Node>,
)
    ensures
        found_waiting(target, below + placed_children(dir, children)) == found_in(
            target,
            dir,
            children,
        ) + found_waiting(target, below),
    decreases children.len(),
{
    let stack = below + placed_children(dir, children);
    if children.len() == 0 {
        assert(stack =~= below);
        assert(found_in(target, dir, children) + found_waiting(target, below) =~= found_waiting(
            target,
            below,
        ));
    } else {
        let others = children.subrange(1, children.len() as int);
        assert(stack.last() == Placed { dir, node: children[0] });
        assert(stack.drop_last() =~= below + placed_children(dir, others));
        lemma_found_after_listing(target, below, dir, others);
        assert(found_waiting(target, stack) =~= found_in(target, dir, children) + found_waiting(
            target,
            below,
        ));
    }
}

/// Looking at the waiting nodes loses no match and invents none. Where no
/// directory is left to list, the matches are those at hand followed by
/// those at and below the waiting nodes. Where a directory is to be listed,
/// the matches so far, those in that directory and those at and below the
/// nodes still waiting make up the same.
pub proof fn lemma_settled_keeps_matches(
    target: Seq<char>,
    matches: Seq<Seq<char>>,
    stack: Seq<Placed>,
)
    ensures
        ({
            let after = settled(target, matches, placed_texts(stack));
            let all = matches + found_waiting(target, stack);
            match after.2 {
                None => after.0 == all,
                Some(dir) => exists|k: int|
                    0 <= k < stack.len() && descends_into(#[trigger] stack[k].node) && dir
                        == placed_text(stack[k]).path && after.1 == placed_texts(stack.take(k))
                        && after.0 + found_in(target, dir, stack[k].node.children) + found_waiting(
                        target,
                        stack.take(k),
                    ) == all,
            }
        }),
    decreases stack.len(),
{
    let texts = placed_texts(stack);
    let after = settled(target, matches, texts);
    let all = matches + found_waiting(target, stack);
    if stack.len() == 0 {
        assert(all =~= matches);
    } else {
        let top = stack.last();
        let rest = stack.drop_last();
        let path = placed_text(top).path;
        let found = if top.node.name == target {
            matches.push(path)
        } else {
            matches
        };
        assert(texts.last() == placed_text(top));
        assert(texts.drop_last() =~= placed_texts(rest));
        if descends_into(top.node) {
            let k = stack.len() - 1;
            assert(stack.take(k) =~= rest);
            assert(found + found_in(target, path, top.node.children) + found_waiting(target, rest)
                =~= all);
        } else {
            lemma_settled_keeps_matches(target, found, rest);
            assert(found + found_waiting(target, rest) =~= all);
            if after.2 is Some {
                let k = choose|k: int|
                    0 <= k < rest.len() && descends_into(#[trigger] rest[k].node) && after.2->0
                        == placed_text(rest[k]).path && after.1 == placed_texts(rest.take(k))
                        && after.0 + found_in(target, after.2->0, rest[k].node.children)
                        + found_waiting(target, rest.take(k)) == found + found_waiting(
                        target,
                        rest,
                    );
                assert(stack[k] == rest[k]);
                assert(stack.take(k) =~= rest.take(k));
            }
        }
    }
}

/// A search that is told what each directory holds reports what the tree
/// holds: at every step, the matches so far and those at and below what
/// still waits are the matches at hand before the step, those in the
/// directory just listed, and those at and below what waited before.
pub proof fn lemma_answer_keeps_matches(
    target: Seq<char>,
    matches: Seq<Seq<char>>,
    below: Seq<Placed>,
    dir: Seq<char>,
    entries: Seq<DirEntry>,
    children: Seq<Node>,
)
    requires
        lists(entries, children),
    ensures
        ({
            let after = settled(target, matches, placed_texts(below) + arrivals(dir, entries));
            let all = matches + found_in(target, dir, children) + found_waiting(target, below);
            match after.2 {
                None => after.0 == all,
                Some(next) => exists|rest: Seq<Placed>, node: Node|
                    descends_into(node) && after.1 == #[trigger] placed_texts(rest) && after.0
                        + #[trigger] found_in(target, next, node.children) + found_waiting(
                        target,
                        rest,
                    ) == all,
            }
        }),
{
    let stack = below + placed_children(dir, children);
    assert(placed_texts(stack) =~= placed_texts(below) + arrivals(dir, entries));
    lemma_settled_keeps_matches(target, matches, stack);
    lemma_found_after_listing(target, below, dir, children);
    let after = settled(target, matches, placed_texts(stack));
    assert(matches + found_waiting(target, stack) =~= matches + found_in(target, dir, children)
        + found_waiting(target, below));
    if after.2 is Some {
        let k = choose|k: int|
            0 <= k < stack.len() && descends_into(#[trigger] stack[k].node) && after.2->0
                == placed_text(stack[k]).path && after.1 == placed_texts(stack.take(k)) && after.0
                + found_in(target, after.2->0, stack[k].node.children) + found_waiting(
                target,
                stack.take(k),
            ) == matches + found_waiting(target, stack);
        assert(after.1 == placed_texts(stack.take(k)));
    }
}

} // verus!

//! The walk over the history of a path: the commit that touched it last,
//! and the authors that touched it last.

use vstd::prelude::*;
use vstd::string::*;
use crate::commit::{
    scheme_text, ColorScheme, ColorText, CommitInfo, CommitText, AUTHOR_WIDTH, HASH_WIDTH,
};
use crate::error::{ErrorKind, WerError};
use crate::locate::{
    is_placed, not_a_repository_text, target_error, validate_git_path, PathProbe,
};
use crate::path::RelativePath;
use crate::store::{find_commit, next_id, parents_of, push_head, start_walk};
use crate::text::{decimal, decimal_digits, join, joined, same_text};
use crate::touch::{read_changes, touches, touches_path, TreeChangeSet};

verus! {

/// One commit of a walk: what is shown of it, and what it changed.
pub struct Visit {
    pub info: CommitInfo,
    pub changes: TreeChangeSet,
}

/// Whether the commit at position `i` of the walk touches `path`.
pub open spec fn touched_at(history: Seq<Visit>, path: Seq<Seq<char>>, i: int) -> bool {
    touches_path(history[i].changes, path)
}

/// The author shown for the commit at position `i` of the walk.
pub open spec fn author_at(history: Seq<Visit>, i: int) -> Seq<char> {
    history[i].info.author@
}

/// Whether `author` is the author of one of the commits at `positions`.
pub open spec fn seen_among(history: Seq<Visit>, positions: Seq<int>, author: Seq<char>) -> bool {
    exists|k: int| 0 <= k < positions.len() && author_at(history, #[trigger] positions[k]) == author
}

/// Whether a walk that has found `count` contributors has all that were
/// asked for. Where none was asked for, it has them from the start.
pub open spec fn enough(count: nat, wanted: nat) -> bool {
    count >= wanted
}

/// The positions of the commits that a walk over `history` reports as the
/// last contributors to `path`: from the newest commit on, each commit that
/// touches the path and whose author was not reported before, until
/// `wanted` are found.
pub open spec fn contributor_positions(history: Seq<Visit>, path: Seq<Seq<char>>, wanted: nat) -> Seq<
    int,
>
    decreases history.len(),
{
    if history.len() == 0 {
        Seq::empty()
    } else {
        let before = contributor_positions(history.drop_last(), path, wanted);
        let i = history.len() - 1;
        if !enough(before.len(), wanted) && touched_at(history, path, i) && !seen_among(
            history,
            before,
            author_at(history, i),
        ) {
            before.push(i)
        } else {
            before
        }
    }
}

/// What is shown of the commits at `positions`.
pub open spec fn infos_at(history: Seq<Visit>, positions: Seq<int>) -> Seq<CommitInfo> {
    Seq::new(positions.len(), |k: int| history[positions[k]].info)
}

/// Whether one of `picks` has the author `author`.
pub open spec fn knows_author(picks: Seq<CommitInfo>, author: Seq<char>) -> bool {
    exists|k: int| 0 <= k < picks.len() && (#[trigger] picks[k]).author@ == author
}

/// The position of the newest commit of the walk that touches `path`, if
/// any commit does. Position 0 is the newest commit.
pub open spec fn first_touching(history: Seq<Visit>, path: Seq<Seq<char>>) -> Option<int>
    decreases history.len(),
{
    if history.len() == 0 {
        None
    } else {
        match first_touching(history.drop_last(), path) {
            Some(i) => Some(i),
            None => if touched_at(history, path, history.len() - 1) {
                Some(history.len() - 1)
            } else {
                None
            },
        }
    }
}

/// Finds the newest commit of the walk that touches `path`.
pub fn last_touching(history: &Vec<Visit>, path: &RelativePath) -> (found: Option<usize>)
    ensures
        match found {
            Some(i) => i < history.len() && first_touching(history@, path@) == Some(i as int),
            None => first_touching(history@, path@) is None,
        },
{
    let mut i: usize = 0;
    proof {
        assert(history@.take(0) =~= Seq::<Visit>::empty());
    }
    while i < history.len()
        invariant
            i <= history.len(),
            first_touching(history@.take(i as int), path@) is None,
        decreases history.len() - i,
    {
        proof {
            let now = history@.take(i + 1);
            assert(now.drop_last() =~= history@.take(i as int));
            assert(now[i as int] == history@[i as int]);
        }
        if touches(&history[i].changes, path) {
            proof {
                lemma_first_touching_stays(history@, path@, i + 1);
            }
            return Some(i);
        }
        i += 1;
    }
    proof {
        assert(history@.take(i as int) =~= history@);
    }
    None
}

/// A commit found in the first `n` commits of a walk is the one found in
/// the whole walk.
pub proof fn lemma_first_touching_stays(history: Seq<Visit>, path: Seq<Seq<char>>, n: int)
    requires
        0 <= n <= history.len(),
        first_touching(history.take(n), path) is Some,
    ensures
        first_touching(history, path) == first_touching(history.take(n), path),
    decreases history.len() - n,
{
    if n == history.len() {
        assert(history.take(n) =~= history);
    } else {
        let longer = history.take(n + 1);
        assert(longer.drop_last() =~= history.take(n));
        lemma_first_touching_stays(history, path, n + 1);
    }
}

/// The commit found is the first of the walk that touches the path: it
/// touches the path and no commit before it does; and none is found only
/// where no commit of the walk touches the path.
pub proof fn lemma_first_touching_is_first(history: Seq<Visit>, path: Seq<Seq<char>>)
    ensures
        match first_touching(history, path) {
            Some(i) => 0 <= i < history.len() && touched_at(history, path, i) && forall|j: int|
                0 <= j < i ==> !touched_at(history, path, j),
            None => forall|j: int| 0 <= j < history.len() ==> !touched_at(history, path, j),
        },
    decreases history.len(),
{
    if history.len() > 0 {
        let shorter = history.drop_last();
        lemma_first_touching_is_first(shorter, path);
        assert(forall|j: int|
            0 <= j < shorter.len() ==> touched_at(shorter, path, j) == touched_at(
                history,
                path,
                j,
            ));
    }
}

/// A walk that reaches a commit without parents whose tree holds the path
/// finds a commit that touches the path, at that commit at the latest.
pub proof fn lemma_root_commit_holding_path_is_found(
    history: Seq<Visit>,
    path: Seq<Seq<char>>,
    root: int,
)
    requires
        0 <= root < history.len(),
        history[root].changes matches TreeChangeSet::Root { entry_found } && entry_found,
    ensures
        first_touching(history, path) matches Some(i) && i <= root,
        forall|wanted: nat| wanted >= 1 ==> contributor_positions(history, path, wanted).len() > 0,
{
    lemma_first_touching_is_first(history, path);
    assert(touched_at(history, path, root));
    assert forall|wanted: nat| wanted >= 1 implies contributor_positions(
        history,
        path,
        wanted,
    ).len() > 0 by {
        lemma_touched_path_has_contributor(history, path, wanted, root);
    }
}

/// For the root of the working tree, a walk that reaches a commit without
/// parents finds a commit, at that commit at the latest: such a commit
/// touches the root whatever its tree holds.
pub proof fn lemma_root_path_is_found(history: Seq<Visit>, root: int)
    requires
        0 <= root < history.len(),
        history[root].changes is Root,
    ensures
        first_touching(history, Seq::empty()) matches Some(i) && i <= root,
        forall|wanted: nat|
            wanted >= 1 ==> contributor_positions(history, Seq::empty(), wanted).len() > 0,
{
    let path = Seq::<Seq<char>>::empty();
    lemma_first_touching_is_first(history, path);
    assert(touched_at(history, path, root));
    assert forall|wanted: nat| wanted >= 1 implies contributor_positions(
        history,
        path,
        wanted,
    ).len() > 0 by {
        lemma_touched_path_has_contributor(history, path, wanted, root);
    }
}

/// Where a commit of the walk touches the path and a contributor was
/// asked for, the walk reports one.
pub proof fn lemma_touched_path_has_contributor(
    history: Seq<Visit>,
    path: Seq<Seq<char>>,
    wanted: nat,
    i: int,
)
    requires
        0 <= i < history.len(),
        touched_at(history, path, i),
        wanted >= 1,
    ensures
        contributor_positions(history, path, wanted).len() > 0,
    decreases history.len(),
{
    let shorter = history.drop_last();
    if i < history.len() - 1 {
        assert(touched_at(shorter, path, i));
        lemma_touched_path_has_contributor(shorter, path, wanted, i);
    } else {
        let before = contributor_positions(shorter, path, wanted);
        if before.len() == 0 {
            assert(!seen_among(history, before, author_at(history, i)));
        }
    }
}

/// The contributors after the next commit of a walk: the commit is added
/// where more are looked for, it touches the path, and its author is not
/// among them yet.
pub open spec fn next_picks(
    picks: Seq<CommitInfo>,
    visit: Visit,
    path: Seq<Seq<char>>,
    wanted: nat,
) -> Seq<CommitInfo> {
    if !enough(picks.len(), wanted) && touches_path(visit.changes, path) && !knows_author(
        picks,
        visit.info.author@,
    ) {
        picks.push(visit.info)
    } else {
        picks
    }
}

/// The contributors found so far by a walk that looks for `wanted` of them.
pub struct ContributorWalk {
    pub wanted: usize,
    pub picks: Vec<CommitInfo>,
}

impl ContributorWalk {
    /// A walk that has seen no commit yet.
    pub fn new(wanted: usize) -> (walk: ContributorWalk)
        ensures
            walk.wanted == wanted,
            walk.picks@ == Seq::<CommitInfo>::empty(),
    {
        ContributorWalk { wanted, picks: Vec::new() }
    }

    /// Whether the walk has all the contributors it looks for.
    pub fn is_complete(&self) -> (complete: bool)
        ensures
            complete == enough(self.picks@.len(), self.wanted as nat),
    {
        self.picks.len() >= self.wanted
    }

    /// Whether one of the contributors found has the author `author`.
    pub fn knows(&self, author: &str) -> (known: bool)
        ensures
            known == knows_author(self.picks@, author@),
    {
        let mut k: usize = 0;
        while k < self.picks.len()
            invariant
                k <= self.picks.len(),
                forall|j: int| 0 <= j < k ==> (#[trigger] self.picks@[j]).author@ != author@,
            decreases self.picks.len() - k,
        {
            if same_text(self.picks[k].author.as_str(), author) {
                return true;
            }
            k += 1;
        }
        false
    }

    /// Takes a commit that touches the path. Its author is added to the
    /// contributors unless the walk is complete or the author is among
    /// them already. The result says whether the walk is complete now.
    pub fn offer(&mut self, info: CommitInfo) -> (done: bool)
        ensures
            final(self).wanted == old(self).wanted,
            final(self).picks@ == (if !enough(old(self).picks@.len(), old(self).wanted as nat)
                && !knows_author(old(self).picks@, info.author@) {
                old(self).picks@.push(info)
            } else {
                old(self).picks@
            }),
            done == enough(final(self).picks@.len(), final(self).wanted as nat),
    {
        if !self.is_complete() && !self.knows(info.author.as_str()) {
            self.picks.push(info);
        }
        self.is_complete()
    }

    /// Takes the next commit of the walk, whether it touches the path or
    /// not. The result says whether the walk is complete now.
    pub fn take(&mut self, visit: &Visit, path: &RelativePath) -> (done: bool)
        ensures
            final(self).wanted == old(self).wanted,
            final(self).picks@ == next_picks(
                old(self).picks@,
                *visit,
                path@,
                old(self).wanted as nat,
            ),
            done == enough(final(self).picks@.len(), final(self).wanted as nat),
    {
        if touches(&visit.changes, path) {
            self.offer(visit.info.duplicate())
        } else {
            self.is_complete()
        }
    }
}

/// The contributors of a walk are those of the walk without its last
/// commit, after that commit was taken.
pub proof fn lemma_picks_follow_walk(history: Seq<Visit>, path: Seq<Seq<char>>, wanted: nat)
    requires
        history.len() > 0,
    ensures
        infos_at(history, contributor_positions(history, path, wanted)) == next_picks(
            infos_at(history.drop_last(), contributor_positions(history.drop_last(), path, wanted)),
            history.last(),
            path,
            wanted,
        ),
{
    let shorter = history.drop_last();
    let before = contributor_positions(shorter, path, wanted);
    let picks = infos_at(shorter, before);
    let i = history.len() - 1;
    lemma_contributors_are_distinct_and_ordered(shorter, path, wanted);
    assert(seen_among(history, before, author_at(history, i)) <==> knows_author(
        picks,
        history[i].info.author@,
    )) by {
        if seen_among(history, before, author_at(history, i)) {
            let k = choose|k: int|
                0 <= k < before.len() && author_at(history, #[trigger] before[k]) == author_at(
                    history,
                    i,
                );
            assert(picks[k].author@ == history[i].info.author@);
        }
        if knows_author(picks, history[i].info.author@) {
            let k = choose|k: int|
                0 <= k < picks.len() && (#[trigger] picks[k]).author@ == history[i].info.author@;
            assert(author_at(history, before[k]) == author_at(history, i));
        }
    }
    assert(touched_at(history, path, i) == touches_path(history.last().changes, path));
    assert(infos_at(history, before) =~= picks);
    assert(infos_at(history, contributor_positions(history, path, wanted)) =~= next_picks(
        picks,
        history.last(),
        path,
        wanted,
    ));
}

/// Finds the last contributors to `path` in a walk: the newest commit of
/// each author that touches the path, newest first, `wanted` at most.
pub fn last_n_contributors(history: &Vec<Visit>, path: &RelativePath, wanted: usize) -> (picks: Vec<
    CommitInfo,
>)
    ensures
        picks@ == infos_at(history@, contributor_positions(history@, path@, wanted as nat)),
{
    let mut walk = ContributorWalk::new(wanted);
    let mut i: usize = 0;
    let mut done = walk.is_complete();
    proof {
        assert(history@.take(0) =~= Seq::<Visit>::empty());
        assert(walk.picks@ =~= infos_at(
            history@.take(0),
            contributor_positions(history@.take(0), path@, wanted as nat),
        ));
    }
    while i < history.len() && !done
        invariant
            i <= history.len(),
            walk.wanted == wanted,
            done == enough(walk.picks@.len(), wanted as nat),
            walk.picks@ == infos_at(
                history@.take(i as int),
                contributor_positions(history@.take(i as int), path@, wanted as nat),
            ),
        decreases history.len() - i,
    {
        proof {
            let now = history@.take(i + 1);
            assert(now.drop_last() =~= history@.take(i as int));
            assert(now.last() == history@[i as int]);
            lemma_picks_follow_walk(now, path@, wanted as nat);
        }
        done = walk.take(&history[i], path);
        i += 1;
    }
    proof {
        let reached = history@.take(i as int);
        let found = contributor_positions(reached, path@, wanted as nat);
        assert(found.len() == walk.picks@.len());
        lemma_walk_stays_stopped(history@, path@, wanted as nat, i as int);
        lemma_contributors_are_distinct_and_ordered(reached, path@, wanted as nat);
        assert(walk.picks@ =~= infos_at(history@, found));
    }
    walk.picks
}

/// Once a walk has found enough contributors, the commits behind change
/// nothing; and a walk that has reached the end has seen every commit.
pub proof fn lemma_walk_stays_stopped(
    history: Seq<Visit>,
    path: Seq<Seq<char>>,
    wanted: nat,
    i: int,
)
    requires
        0 <= i <= history.len(),
        i == history.len() || enough(contributor_positions(history.take(i), path, wanted).len(), wanted),
    ensures
        contributor_positions(history, path, wanted) == contributor_positions(
            history.take(i),
            path,
            wanted,
        ),
    decreases history.len() - i,
{
    if i == history.len() {
        assert(history.take(i) =~= history);
    } else {
        let longer = history.take(i + 1);
        assert(longer.drop_last() =~= history.take(i));
        assert(contributor_positions(longer, path, wanted) == contributor_positions(
            history.take(i),
            path,
            wanted,
        ));
        lemma_walk_stays_stopped(history, path, wanted, i + 1);
    }
}

/// The contributors that a walk reports are commits of the walk that touch
/// the path, in the order of the walk and so from newer to older, no two of
/// them by the same author, and no more than were asked for.
pub proof fn lemma_contributors_are_distinct_and_ordered(
    history: Seq<Visit>,
    path: Seq<Seq<char>>,
    wanted: nat,
)
    ensures
        ({
            let found = contributor_positions(history, path, wanted);
            &&& forall|k: int|
                0 <= k < found.len() ==> 0 <= #[trigger] found[k] < history.len() && touched_at(
                    history,
                    path,
                    found[k],
                )
            &&& forall|a: int, b: int| 0 <= a < b < found.len() ==> found[a] < found[b]
            &&& forall|a: int, b: int|
                0 <= a < b < found.len() ==> author_at(history, found[a]) != author_at(
                    history,
                    found[b],
                )
            &&& found.len() <= wanted
        }),
    decreases history.len(),
{
    if history.len() > 0 {
        let shorter = history.drop_last();
        let before = contributor_positions(shorter, path, wanted);
        let found = contributor_positions(history, path, wanted);
        let i = history.len() - 1;
        lemma_contributors_are_distinct_and_ordered(shorter, path, wanted);
        assert forall|k: int| 0 <= k < before.len() implies touched_at(history, path, before[k])
            && author_at(history, before[k]) == author_at(shorter, before[k]) by {
            assert(touched_at(shorter, path, before[k]));
        }
        if found.len() > before.len() {
            assert(found == before.push(i));
            assert forall|a: int, b: int| 0 <= a < b < found.len() implies author_at(
                history,
                found[a],
            ) != author_at(history, found[b]) by {
                if b == before.len() {
                    assert(author_at(history, before[a]) != author_at(history, i));
                }
            }
        }
    }
}

/// A walk that ends without the contributors asked for has reported the
/// author of every commit that touches the path.
pub proof fn lemma_short_walk_names_every_author(
    history: Seq<Visit>,
    path: Seq<Seq<char>>,
    wanted: nat,
)
    ensures
        ({
            let found = contributor_positions(history, path, wanted);
            !enough(found.len(), wanted) ==> forall|i: int|
                0 <= i < history.len() && touched_at(history, path, i) ==> seen_among(
                    history,
                    found,
                    author_at(history, i),
                )
        }),
    decreases history.len(),
{
    if history.len() > 0 {
        let shorter = history.drop_last();
        let before = contributor_positions(shorter, path, wanted);
        let found = contributor_positions(history, path, wanted);
        let last = history.len() - 1;
        lemma_short_walk_names_every_author(shorter, path, wanted);
        lemma_contributors_are_distinct_and_ordered(shorter, path, wanted);
        if !enough(found.len(), wanted) {
            assert(!enough(before.len(), wanted));
            assert forall|i: int|
                0 <= i < history.len() && touched_at(history, path, i) implies seen_among(
                history,
                found,
                author_at(history, i),
            ) by {
                if i < last {
                    assert(touched_at(shorter, path, i));
                    assert(seen_among(shorter, before, author_at(shorter, i)));
                    let k = choose|k: int|
                        0 <= k < before.len() && author_at(shorter, #[trigger] before[k])
                            == author_at(shorter, i);
                    assert(found[k] == before[k]);
                    assert(author_at(history, found[k]) == author_at(history, i));
                } else if seen_among(history, before, author_at(history, i)) {
                    let k = choose|k: int|
                        0 <= k < before.len() && author_at(history, #[trigger] before[k])
                            == author_at(history, i);
                    assert(found[k] == before[k]);
                } else {
                    assert(found == before.push(last));
                    assert(found[before.len() as int] == last);
                }
            }
        }
    }
}

/// Asking for one contributor gives the commit that touched the path
/// last.
pub proof fn lemma_one_contributor_is_the_last_commit(
    history: Seq<Visit>,
    path: Seq<Seq<char>>,
    wanted: nat,
)
    requires
        wanted == 1,
    ensures
        contributor_positions(history, path, wanted) == match first_touching(history, path) {
            Some(i) => seq![i],
            None => Seq::empty(),
        },
    decreases history.len(),
{
    if history.len() > 0 {
        let shorter = history.drop_last();
        lemma_one_contributor_is_the_last_commit(shorter, path, wanted);
        let before = contributor_positions(shorter, path, wanted);
        if before.len() == 0 {
            assert(!seen_among(history, before, author_at(history, history.len() - 1)));
            assert(contributor_positions(history, path, wanted) =~= match first_touching(
                history,
                path,
            ) {
                Some(i) => seq![i],
                None => Seq::empty(),
            });
        }
    }
}

/// The authors of the commits of the walk that touch the path.
pub open spec fn touching_authors(history: Seq<Visit>, path: Seq<Seq<char>>) -> Set<Seq<char>> {
    Set::new(
        |author: Seq<char>|
            exists|i: int|
                0 <= i < history.len() && touched_at(history, path, i) && author_at(history, i)
                    == author,
    )
}

/// Where the commits that touch the path have fewer authors than were
/// asked for, the walk reports exactly as many contributors as there are
/// authors.
pub proof fn lemma_fewer_authors_than_wanted(history: Seq<Visit>, path: Seq<Seq<char>>, wanted: nat)
    ensures
        touching_authors(history, path).finite(),
        touching_authors(history, path).len() < wanted ==> contributor_positions(
            history,
            path,
            wanted,
        ).len() == touching_authors(history, path).len(),
        contributor_positions(history, path, wanted).len() <= touching_authors(history, path).len(),
{
    let found = contributor_positions(history, path, wanted);
    let authors = touching_authors(history, path);
    let named = Seq::new(found.len(), |k: int| author_at(history, found[k]));
    let all = Seq::new(history.len(), |i: int| author_at(history, i));
    lemma_contributors_are_distinct_and_ordered(history, path, wanted);
    lemma_short_walk_names_every_author(history, path, wanted);
    vstd::seq_lib::seq_to_set_is_finite(all);
    vstd::seq_lib::seq_to_set_is_finite(named);
    assert(authors.subset_of(all.to_set())) by {
        assert forall|author: Seq<char>| authors.contains(author) implies all.to_set().contains(
            author,
        ) by {
            let i = choose|i: int|
                0 <= i < history.len() && touched_at(history, path, i) && author_at(history, i)
                    == author;
            assert(all[i] == author);
        }
    }
    vstd::set_lib::lemma_len_subset(authors, all.to_set());
    assert(named.to_set().subset_of(authors)) by {
        assert forall|author: Seq<char>| named.to_set().contains(author) implies authors.contains(
            author,
        ) by {
            let k = choose|k: int| 0 <= k < named.len() && named[k] == author;
            assert(touched_at(history, path, found[k]));
        }
    }
    assert(named.no_duplicates());
    named.unique_seq_to_set();
    vstd::set_lib::lemma_len_subset(named.to_set(), authors);
    if authors.len() < wanted {
        assert(!enough(found.len(), wanted));
        assert(authors.subset_of(named.to_set())) by {
            assert forall|author: Seq<char>| authors.contains(author) implies named.to_set().contains(
                author,
            ) by {
                let i = choose|i: int|
                    0 <= i < history.len() && touched_at(history, path, i) && author_at(history, i)
                        == author;
                assert(seen_among(history, found, author_at(history, i)));
                let k = choose|k: int|
                    0 <= k < found.len() && author_at(history, #[trigger] found[k]) == author_at(
                        history,
                        i,
                    );
                assert(named[k] == author);
            }
        }
        assert(authors =~= named.to_set());
    }
}

/// The lines shown for the contributors `picks`, one for each.
pub open spec fn contributor_lines(picks: Seq<CommitInfo>, colors: ColorText, separate: bool) -> Seq<
    Seq<char>,
> {
    Seq::new(picks.len(), |k: int| picks[k]@.regular_text(colors, separate))
}

/// The note that fewer contributors were found than asked for.
pub open spec fn shortfall_note(wanted: nat, found: nat) -> Seq<char> {
    "\nSearched for "@ + decimal_digits(wanted) + " but only "@ + decimal_digits(found)
        + " contributed"@
}

/// The text shown for the contributors `picks` where `wanted` were asked
/// for: one line for each, and the note where they are fewer.
pub open spec fn contributors_text(
    picks: Seq<CommitInfo>,
    wanted: nat,
    colors: ColorText,
    separate: bool,
) -> Seq<char> {
    joined(contributor_lines(picks, colors, separate), "\n"@) + (if picks.len() < wanted {
        shortfall_note(wanted, picks.len())
    } else {
        Seq::empty()
    })
}

/// The text shown for the commit that touched a path last: the date alone,
/// or the whole line.
pub open spec fn last_text(info: CommitText, colors: ColorText, date_only: bool, separate: bool) -> Seq<
    char,
> {
    if date_only {
        colors.date + info.date + colors.reset
    } else {
        info.regular_text(colors, separate)
    }
}

/// The failure that no commit touches the path.
pub fn no_history(path: &str) -> (failure: WerError)
    ensures
        failure.kind == ErrorKind::NoHistory,
        failure.message@ == "No commits found for path: "@ + path@,
{
    let mut message = String::from_str("No commits found for path: ");
    message.append(path);
    WerError { kind: ErrorKind::NoHistory, message }
}

/// Writes the answer for the contributors found; none at all is a failure.
pub fn render_contributors(
    path: &str,
    picks: &Vec<CommitInfo>,
    wanted: usize,
    colors: &ColorScheme,
    commit_message: bool,
) -> (answer: Result<String, WerError>)
    ensures
        match answer {
            Ok(text) => picks@.len() > 0 && text@ == contributors_text(
                picks@,
                wanted as nat,
                colors@,
                commit_message,
            ),
            Err(failure) => picks@.len() == 0 && failure.kind == ErrorKind::NoHistory
                && failure.message@ == "No commits found for path: "@ + path@,
        },
{
    if picks.len() == 0 {
        return Err(no_history(path));
    }
    let mut lines: Vec<String> = Vec::new();
    let mut k: usize = 0;
    proof {
        assert(lines.deep_view() =~= contributor_lines(picks@.take(0), colors@, commit_message));
    }
    while k < picks.len()
        invariant
            k <= picks.len(),
            lines.deep_view() == contributor_lines(picks@.take(k as int), colors@, commit_message),
        decreases picks.len() - k,
    {
        let ghost before = lines.deep_view();
        let line = picks[k].format_regular(colors, commit_message);
        lines.push(line);
        k += 1;
        proof {
            assert(lines.deep_view() =~= before.push(line@));
            assert(lines.deep_view() =~= contributor_lines(
                picks@.take(k as int),
                colors@,
                commit_message,
            ));
        }
    }
    proof {
        assert(picks@.take(k as int) =~= picks@);
    }
    let mut text = join(&lines, "\n");
    if picks.len() < wanted {
        text.append("\nSearched for ");
        text.append(decimal(wanted).as_str());
        text.append(" but only ");
        text.append(decimal(picks.len()).as_str());
        text.append(" contributed");
        proof {
            assert(text@ =~= contributors_text(picks@, wanted as nat, colors@, commit_message));
        }
    } else {
        proof {
            assert(text@ =~= contributors_text(picks@, wanted as nat, colors@, commit_message));
        }
    }
    Ok(text)
}

/// Writes the answer for the commit that touched the path last.
pub fn render_last(info: &CommitInfo, colors: &ColorScheme, date_only: bool, commit_message: bool) -> (text:
    String)
    ensures
        text@ == last_text(info@, colors@, date_only, commit_message),
{
    if date_only {
        let mut text = String::from_str(colors.date);
        text.append(info.date.as_str());
        text.append(colors.reset);
        text
    } else {
        info.format_regular(colors, commit_message)
    }
}

/// Whether `answer` is the answer to a request over the walk `history`.
/// Where contributors are asked for, it shows the newest commit of each
/// author that touches the path, newest first, as many as were asked for at
/// most, with the note where they are fewer. Otherwise it shows the newest
/// commit that touches the path. Where there is nothing to show, it is the
/// failure that the path has no history.
pub open spec fn describes_history(
    answer: Result<String, WerError>,
    path: Seq<char>,
    history: Seq<Visit>,
    relative: Seq<Seq<char>>,
    colors: ColorText,
    date_only: bool,
    separate: bool,
    last: Option<usize>,
) -> bool {
    match last {
        Some(wanted) => {
            let picks = infos_at(history, contributor_positions(history, relative, wanted as nat));
            match answer {
                Ok(text) => picks.len() > 0 && text@ == contributors_text(
                    picks,
                    wanted as nat,
                    colors,
                    separate,
                ),
                Err(failure) => picks.len() == 0 && failure.kind == ErrorKind::NoHistory
                    && failure.message@ == "No commits found for path: "@ + path,
            }
        },
        None => match first_touching(history, relative) {
            Some(i) => answer matches Ok(text) && text@ == last_text(
                history[i].info@,
                colors,
                date_only,
                separate,
            ),
            None => answer matches Err(failure) && failure.kind == ErrorKind::NoHistory
                && failure.message@ == "No commits found for path: "@ + path,
        },
    }
}

/// Answers a request over a walk that is already at hand: the contributors
/// where `last` asks for them, the last commit otherwise.
pub fn describe_history(
    path: &str,
    history: &Vec<Visit>,
    relative: &RelativePath,
    colors: &ColorScheme,
    date_only: bool,
    commit_message: bool,
    last: Option<usize>,
) -> (answer: Result<String, WerError>)
    ensures
        describes_history(
            answer,
            path@,
            history@,
            relative@,
            colors@,
            date_only,
            commit_message,
            last,
        ),
{
    match last {
        Some(wanted) => {
            let picks = last_n_contributors(history, relative, wanted);
            render_contributors(path, &picks, wanted, colors, commit_message)
        },
        None => match last_touching(history, relative) {
            Some(i) => Ok(render_last(&history[i].info, colors, date_only, commit_message)),
            None => Err(no_history(path)),
        },
    }
}

/// Whether a walk that has read `history` must go on: no commit read
/// touches the path, or contributors are asked for and fewer are found.
pub open spec fn undecided(history: Seq<Visit>, path: Seq<Seq<char>>, last: Option<usize>) -> bool {
    match last {
        None => first_touching(history, path) is None,
        Some(wanted) => !enough(
            contributor_positions(history, path, wanted as nat).len(),
            wanted as nat,
        ),
    }
}

/// Whether a walk read `history` and no commit more than the request
/// needs: before each commit read, the request was undecided.
pub open spec fn read_no_further(history: Seq<Visit>, path: Seq<Seq<char>>, last: Option<usize>) -> bool {
    forall|n: int| 0 <= n < history.len() ==> undecided(#[trigger] history.take(n), path, last)
}

/// Whether `visit` is what is read of `commit` for the path: what is
/// shown of the commit, the date with its year; whether the commit has
/// parents; and for one without, that it holds the root.
pub open spec fn reads_commit(visit: Visit, commit: git2::Commit, path: Seq<Seq<char>>) -> bool {
    &&& visit.info@.shows_commit(commit, true)
    &&& visit.changes is Root <==> parents_of(commit) == 0
    &&& visit.changes matches TreeChangeSet::Root { entry_found } ==> (path.len() == 0
        ==> entry_found)
}

/// Whether `visit` is what is read of some commit for the path, and what
/// is shown of it fits its columns.
pub open spec fn is_read(visit: Visit, path: Seq<Seq<char>>) -> bool {
    &&& visit.info@.hash.len() <= HASH_WIDTH
    &&& visit.info@.author.len() <= AUTHOR_WIDTH
    &&& exists|commit: git2::Commit| #[trigger] reads_commit(visit, commit, path)
}

/// Whether each visit of the walk is what is read of some commit.
pub open spec fn read_soundly(history: Seq<Visit>, path: Seq<Seq<char>>) -> bool {
    forall|k: int| 0 <= k < history.len() ==> is_read(#[trigger] history[k], path)
}

/// A walk that is undecided was undecided after each of its commits.
pub proof fn lemma_undecided_before(
    history: Seq<Visit>,
    path: Seq<Seq<char>>,
    last: Option<usize>,
    n: int,
)
    requires
        0 <= n <= history.len(),
        undecided(history, path, last),
    ensures
        undecided(history.take(n), path, last),
{
    match last {
        None => {
            if first_touching(history.take(n), path) is Some {
                lemma_first_touching_stays(history, path, n);
            }
        },
        Some(wanted) => {
            if enough(
                contributor_positions(history.take(n), path, wanted as nat).len(),
                wanted as nat,
            ) {
                lemma_walk_stays_stopped(history, path, wanted as nat, n);
            }
        },
    }
}

/// Reads the commits of the walk from the object store, newest first, up
/// to the commit that decides the request: the first that touches the
/// path, or with `last` the one that brings the contributors to the number
/// asked for. Each commit is read with `CommitInfo::from_commit`, the date
/// with its year, and `read_changes`. A failure of the object store ends
/// the walk. A walk reads at most `usize::MAX` commits.
pub fn read_visits(
    repo: &git2::Repository,
    walk: &mut git2::Revwalk,
    path: &RelativePath,
    last: Option<usize>,
) -> (read: Result<Vec<Visit>, WerError>)
    ensures
        read matches Err(failure) ==> failure.kind == ErrorKind::ObjectStoreError,
        read matches Ok(visits) ==> read_no_further(visits@, path@, last) && read_soundly(
            visits@,
            path@,
        ),
{
    let mut visits: Vec<Visit> = Vec::new();
    let mut contributors = ContributorWalk::new(
        match last {
            Some(wanted) => wanted,
            None => 0,
        },
    );
    if last.is_some() && contributors.is_complete() {
        return Ok(visits);
    }
    let mut visited: usize = 0;
    proof {
        assert(contributors.picks@ =~= infos_at(
            visits@,
            contributor_positions(visits@, path@, contributors.wanted as nat),
        ));
    }
    while visited < usize::MAX
        invariant
            visited <= usize::MAX,
            undecided(visits@, path@, last),
            read_soundly(visits@, path@),
            last matches Some(wanted) ==> contributors.wanted == wanted && contributors.picks@
                == infos_at(visits@, contributor_positions(visits@, path@, wanted as nat)),
        decreases usize::MAX - visited,
    {
        let id = match next_id(walk) {
            None => {
                proof {
                    assert forall|n: int| 0 <= n < visits@.len() implies undecided(
                        #[trigger] visits@.take(n),
                        path@,
                        last,
                    ) by {
                        lemma_undecided_before(visits@, path@, last, n);
                    }
                }
                return Ok(visits);
            },
            Some(Err(error)) => {
                return Err(WerError::from_store(&error));
            },
            Some(Ok(id)) => id,
        };
        let commit = match find_commit(repo, id) {
            Ok(commit) => commit,
            Err(error) => {
                return Err(WerError::from_store(&error));
            },
        };
        let changes = match read_changes(repo, &commit, path) {
            Ok(changes) => changes,
            Err(failure) => {
                return Err(failure);
            },
        };
        let visit = Visit { info: CommitInfo::from_commit(&commit, true), changes };
        proof {
            assert(reads_commit(visit, commit, path@));
        }
        let decided = match last {
            Some(_) => contributors.take(&visit, path),
            None => touches(&visit.changes, path),
        };
        let ghost before = visits@;
        visits.push(visit);
        proof {
            assert(visits@.drop_last() =~= before);
            assert(visits@.last() == visit);
            if last is Some {
                lemma_picks_follow_walk(visits@, path@, last->0 as nat);
            }
            assert forall|n: int| 0 <= n < visits@.len() implies undecided(
                #[trigger] visits@.take(n),
                path@,
                last,
            ) by {
                assert(visits@.take(n) =~= before.take(n));
                lemma_undecided_before(before, path@, last, n);
            }
        }
        if decided {
            return Ok(visits);
        }
        visited += 1;
    }
    proof {
        assert forall|n: int| 0 <= n < visits@.len() implies undecided(
            #[trigger] visits@.take(n),
            path@,
            last,
        ) by {
            lemma_undecided_before(visits@, path@, last, n);
        }
    }
    Ok(visits)
}

/// Whether `answer` is the answer to a request over some walk that was
/// read no further than the request needs, for the path at the place
/// `relative` of its repository.
pub open spec fn answers_walk(
    answer: Result<String, WerError>,
    path: Seq<char>,
    history: Seq<Visit>,
    relative: Seq<Seq<char>>,
    no_color: bool,
    date_only: bool,
    separate: bool,
    last: Option<usize>,
) -> bool {
    &&& read_no_further(history, relative, last)
    &&& read_soundly(history, relative)
    &&& describes_history(
        answer,
        path,
        history,
        relative,
        scheme_text(no_color),
        date_only,
        separate,
        last,
    )
}

/// Answers who touched the path of a request last: the newest commit of
/// the current branch that touches it, or with `last` the newest commits
/// by that many different authors. The probe decides first, then the
/// repository is looked for; the commits are read with `read_visits`, and
/// the answer is what `describe_history` makes of them.
pub fn get_last_commit(
    path: &str,
    probe: &PathProbe,
    no_color: bool,
    date_only: bool,
    commit_message: bool,
    last: Option<usize>,
) -> (answer: Result<String, WerError>)
    ensures
        target_error(path@, *probe, false) matches Some(decided) ==> answer matches Err(failure)
            && decided == (failure.kind, failure.message@),
        target_error(path@, *probe, false) is None ==> (answer matches Err(failure)
            ==> failure.kind == ErrorKind::NotARepository || failure.kind
            == ErrorKind::PathOutsideRepository || failure.kind == ErrorKind::ObjectStoreError
            || failure.kind == ErrorKind::NoHistory),
        answer matches Err(failure) ==> (failure.kind == ErrorKind::NotARepository
            ==> failure.message@ == not_a_repository_text(path@)) && (failure.kind
            == ErrorKind::NoHistory ==> failure.message@ == "No commits found for path: "@ + path@),
        (answer is Ok || answer->Err_0.kind == ErrorKind::NoHistory) ==> exists|
            history: Seq<Visit>,
            relative: Seq<Seq<char>>,
        |
            is_placed(probe.resolved->0@, relative) && #[trigger] answers_walk(
                answer,
                path@,
                history,
                relative,
                no_color,
                date_only,
                commit_message,
                last,
            ),
{
    let located = match validate_git_path(path, probe, false) {
        Ok(located) => located,
        Err(failure) => {
            return Err(failure);
        },
    };
    let mut walk = match start_walk(&located.repo) {
        Ok(walk) => walk,
        Err(error) => {
            return Err(WerError::from_store(&error));
        },
    };
    match push_head(&mut walk) {
        Ok(_) => {},
        Err(error) => {
            return Err(WerError::from_store(&error));
        },
    }
    let visits = match read_visits(&located.repo, &mut walk, &located.relative, last) {
        Ok(visits) => visits,
        Err(failure) => {
            return Err(failure);
        },
    };
    let colors = ColorScheme::new(no_color);
    let answer = describe_history(
        path,
        &visits,
        &located.relative,
        &colors,
        date_only,
        commit_message,
        last,
    );
    proof {
        assert(answers_walk(
            answer,
            path@,
            visits@,
            located.relative@,
            no_color,
            date_only,
            commit_message,
            last,
        ));
    }
    answer
}

} // verus!

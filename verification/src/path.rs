//! Paths as sequences of names, and the prefix relation between them.

use vstd::prelude::*;
use vstd::string::*;
use crate::text::{chars_of, join, joined, same_text};

verus! {

/// Whether a piece between two separators counts as a name: an empty piece
/// and a lone dot name no directory.
pub open spec fn is_name(piece: Seq<char>) -> bool {
    piece.len() > 0 && piece != seq!['.']
}

/// `names` with `piece` added at its end where `piece` is a name.
pub open spec fn with_piece(names: Seq<Seq<char>>, piece: Seq<char>) -> Seq<Seq<char>> {
    if is_name(piece) {
        names.push(piece)
    } else {
        names
    }
}

/// The names that `text` has completed, and the piece behind its last
/// separator.
pub open spec fn scanned(text: Seq<char>) -> (Seq<Seq<char>>, Seq<char>)
    decreases text.len(),
{
    if text.len() == 0 {
        (Seq::empty(), Seq::empty())
    } else {
        let (names, piece) = scanned(text.drop_last());
        if text.last() == '/' {
            (with_piece(names, piece), Seq::empty())
        } else {
            (names, piece.push(text.last()))
        }
    }
}

/// The pieces of the path written as `text` that count: what stands
/// between its `/`, without the empty pieces and the lone dots.
pub open spec fn components(text: Seq<char>) -> Seq<Seq<char>> {
    with_piece(scanned(text).0, scanned(text).1)
}

/// Whether the path written as `text` starts at the root of the file system.
pub open spec fn is_absolute_text(text: Seq<char>) -> bool {
    text.len() > 0 && text[0] == '/'
}

/// Whether one of the two paths lies at or below the other.
pub open spec fn related(a: Seq<Seq<char>>, b: Seq<Seq<char>>) -> bool {
    a.is_prefix_of(b) || b.is_prefix_of(a)
}

/// Whether a piece steps up to the directory above.
pub open spec fn steps_up(piece: Seq<char>) -> bool {
    piece == seq!['.', '.']
}

/// The names that are left of `pieces` when each step up has taken away
/// the name before it. A step up at the start has nothing to take away
/// and is dropped: above the start there is nothing.
pub open spec fn resolved(pieces: Seq<Seq<char>>) -> Seq<Seq<char>>
    decreases pieces.len(),
{
    if pieces.len() == 0 {
        Seq::empty()
    } else {
        let before = resolved(pieces.drop_last());
        if steps_up(pieces.last()) {
            if before.len() > 0 {
                before.drop_last()
            } else {
                before
            }
        } else {
            before.push(pieces.last())
        }
    }
}

/// The names of the path written as `text`, from its start down, with
/// every step up resolved.
pub open spec fn path_names(text: Seq<char>) -> Seq<Seq<char>> {
    resolved(components(text))
}

/// The names of `full` below `base`, where both start at the root of the
/// file system and `full` lies at or below `base`.
pub open spec fn below(full: Seq<char>, base: Seq<char>) -> Option<Seq<Seq<char>>> {
    if is_absolute_text(full) && is_absolute_text(base) && path_names(base).is_prefix_of(
        path_names(full),
    ) {
        Some(path_names(full).skip(path_names(base).len() as int))
    } else {
        None
    }
}

/// Whether `names` can be the names of a path: none is empty or a lone dot,
/// and none holds a separator.
pub open spec fn are_names(names: Seq<Seq<char>>) -> bool {
    forall|k: int|
        0 <= k < names.len() ==> is_name(#[trigger] names[k]) && !names[k].contains('/')
}

/// The pieces that a text is split into are names, and hold no separator.
pub proof fn lemma_components_are_names(text: Seq<char>)
    ensures
        are_names(components(text)),
        are_names(scanned(text).0),
        !scanned(text).1.contains('/'),
    decreases text.len(),
{
    if text.len() > 0 {
        lemma_components_are_names(text.drop_last());
        let (names, piece) = scanned(text.drop_last());
        if text.last() != '/' {
            let longer = piece.push(text.last());
            assert forall|i: int| 0 <= i < longer.len() implies longer[i] != '/' by {
                if i < piece.len() {
                    assert(piece.contains(piece[i]));
                }
            }
        }
    }
}

/// Whether `names` are the names of a resolved path: each is a name
/// without a separator, and none is a step up.
pub open spec fn are_resolved(names: Seq<Seq<char>>) -> bool {
    forall|k: int|
        0 <= k < names.len() ==> is_name(#[trigger] names[k]) && !names[k].contains('/')
            && !steps_up(names[k])
}

/// Resolving leaves names only, and no step up among them.
pub proof fn lemma_resolved_has_no_step_up(pieces: Seq<Seq<char>>)
    requires
        are_names(pieces),
    ensures
        are_resolved(resolved(pieces)),
    decreases pieces.len(),
{
    if pieces.len() > 0 {
        let front = pieces.drop_last();
        assert forall|k: int| 0 <= k < front.len() implies is_name(#[trigger] front[k])
            && !front[k].contains('/') by {
            assert(front[k] == pieces[k]);
        }
        lemma_resolved_has_no_step_up(front);
    }
}

/// Resolving changes nothing where there is no step up.
pub proof fn lemma_resolved_keeps_names(names: Seq<Seq<char>>)
    requires
        are_resolved(names),
    ensures
        resolved(names) == names,
    decreases names.len(),
{
    if names.len() > 0 {
        let front = names.drop_last();
        assert forall|k: int| 0 <= k < front.len() implies is_name(#[trigger] front[k])
            && !front[k].contains('/') && !steps_up(front[k]) by {
            assert(front[k] == names[k]);
        }
        lemma_resolved_keeps_names(front);
        assert(front.push(names.last()) =~= names);
    } else {
        assert(resolved(names) =~= names);
    }
}

/// The names of a path hold no step up, whatever the text: a relative path
/// never leads out of the place it starts from.
pub proof fn lemma_path_names_are_resolved(text: Seq<char>)
    ensures
        are_resolved(path_names(text)),
{
    lemma_components_are_names(text);
    lemma_resolved_has_no_step_up(components(text));
}

/// Text without a separator, put behind any text, lengthens its last piece
/// and completes no name.
pub proof fn lemma_scanned_piece(text: Seq<char>, piece: Seq<char>)
    requires
        !piece.contains('/'),
    ensures
        scanned(text + piece) == (scanned(text).0, scanned(text).1 + piece),
    decreases piece.len(),
{
    if piece.len() == 0 {
        assert(text + piece =~= text);
        assert(scanned(text).1 + piece =~= scanned(text).1);
    } else {
        let shorter = piece.drop_last();
        assert forall|i: int| 0 <= i < shorter.len() implies shorter[i] != '/' by {
            assert(piece.contains(piece[i]));
        }
        lemma_scanned_piece(text, shorter);
        assert(piece.contains(piece.last()));
        assert((text + piece).drop_last() =~= text + shorter);
        assert((scanned(text).1 + shorter).push(piece.last()) =~= scanned(text).1 + piece);
    }
}

/// Writing the names of a path with separators between them and reading
/// the text again gives the same names.
pub proof fn lemma_written_path_reads_back(names: Seq<Seq<char>>)
    requires
        are_resolved(names),
    ensures
        path_names(joined(names, "/"@)) == names,
{
    lemma_written_pieces_read_back(names);
    lemma_resolved_keeps_names(names);
}

/// Writing pieces with separators between them and splitting the text
/// again gives the same pieces.
pub proof fn lemma_written_pieces_read_back(names: Seq<Seq<char>>)
    requires
        are_names(names),
    ensures
        components(joined(names, "/"@)) == names,
    decreases names.len(),
{
    reveal_strlit("/");
    let empty = Seq::<char>::empty();
    if names.len() == 0 {
        assert(components(empty) =~= names);
    } else if names.len() == 1 {
        lemma_scanned_piece(empty, names[0]);
        assert(empty + names[0] =~= names[0]);
        assert(components(names[0]) =~= names);
    } else {
        let front = names.drop_last();
        let written = joined(front, "/"@);
        lemma_written_pieces_read_back(front);
        let slashed = written + "/"@;
        assert(slashed.drop_last() =~= written);
        assert(slashed.last() == '/');
        assert(scanned(slashed) == (front, empty));
        lemma_scanned_piece(slashed, names.last());
        assert(empty + names.last() =~= names.last());
        assert(components(slashed + names.last()) =~= names);
    }
}

fn names_something(piece: &str) -> (named: bool)
    ensures
        named == is_name(piece@),
{
    proof {
        reveal_strlit(".");
        assert("."@ =~= seq!['.']);
    }
    piece.unicode_len() > 0 && !same_text(piece, ".")
}

/// Splits a text at its separators into the pieces that count: the empty
/// ones and the lone dots are left out, a `..` is kept as it stands.
pub fn split_pieces(text: &str) -> (pieces: Vec<String>)
    ensures
        pieces.deep_view() == components(text@),
{
    let chars = chars_of(text);
    let mut parts: Vec<String> = Vec::new();
    let mut piece = String::new();
    let mut i: usize = 0;
    proof {
        assert(chars@.take(0) =~= Seq::<char>::empty());
        assert(parts.deep_view() =~= Seq::<Seq<char>>::empty());
    }
    while i < chars.len()
        invariant
            i <= chars.len(),
            chars@ == text@,
            parts.deep_view() == scanned(chars@.take(i as int)).0,
            piece@ == scanned(chars@.take(i as int)).1,
        decreases chars.len() - i,
    {
        let c = chars[i];
        proof {
            let now = chars@.take(i + 1);
            assert(now.drop_last() =~= chars@.take(i as int));
            assert(now.last() == c);
        }
        if c == '/' {
            let ghost before = parts.deep_view();
            if names_something(piece.as_str()) {
                parts.push(piece);
                proof {
                    assert(parts.deep_view() =~= before.push(piece@));
                }
            }
            piece = String::new();
        } else {
            piece.push(c);
        }
        i += 1;
    }
    proof {
        assert(chars@.take(i as int) =~= text@);
    }
    let ghost before = parts.deep_view();
    if names_something(piece.as_str()) {
        parts.push(piece);
        proof {
            assert(parts.deep_view() =~= before.push(piece@));
        }
    }
    parts
}

/// A path inside a working tree, as the names from the tree's root down to
/// the file or directory. The empty sequence is the root itself.
pub struct RelativePath {
    pub parts: Vec<String>,
}

impl View for RelativePath {
    type V = Seq<Seq<char>>;

    open spec fn view(&self) -> Seq<Seq<char>> {
        self.parts.deep_view()
    }
}

/// Whether the first `n` names of `a` and of `b` are the same.
pub open spec fn agree_up_to(a: Seq<Seq<char>>, b: Seq<Seq<char>>, n: int) -> bool {
    forall|k: int| 0 <= k < n ==> a[k] == b[k]
}

impl RelativePath {
    /// The root of the working tree.
    pub fn root() -> (path: RelativePath)
        ensures
            path@ == Seq::<Seq<char>>::empty(),
    {
        let path = RelativePath { parts: Vec::new() };
        proof {
            assert(path@ =~= Seq::<Seq<char>>::empty());
        }
        path
    }

    /// Reads a path written with `/` between its names. Repeated and
    /// trailing separators and lone dots name nothing, so `""`, `"."` and
    /// `"./"` all give the root. A `..` takes away the name before it, and
    /// nothing at the start: the path never holds a step up.
    pub fn parse(text: &str) -> (path: RelativePath)
        ensures
            path@ == path_names(text@),
            are_resolved(path@),
    {
        proof {
            lemma_path_names_are_resolved(text@);
            reveal_strlit("..");
            assert(".."@ =~= seq!['.', '.']);
        }
        let pieces = split_pieces(text);
        let mut parts: Vec<String> = Vec::new();
        let mut i: usize = 0;
        proof {
            assert(pieces.deep_view().take(0) =~= Seq::<Seq<char>>::empty());
            assert(parts.deep_view() =~= Seq::<Seq<char>>::empty());
        }
        while i < pieces.len()
            invariant
                i <= pieces.len(),
                ".."@ == seq!['.', '.'],
                parts.deep_view() == resolved(pieces.deep_view().take(i as int)),
            decreases pieces.len() - i,
        {
            let ghost before = parts.deep_view();
            proof {
                let now = pieces.deep_view().take(i + 1);
                assert(now.drop_last() =~= pieces.deep_view().take(i as int));
                assert(now.last() == pieces[i as int]@);
            }
            if same_text(pieces[i].as_str(), "..") {
                if parts.len() > 0 {
                    parts.pop();
                    proof {
                        assert(parts.deep_view() =~= before.drop_last());
                    }
                }
            } else {
                let name = pieces[i].clone();
                parts.push(name);
                proof {
                    assert(parts.deep_view() =~= before.push(name@));
                }
            }
            i += 1;
        }
        proof {
            assert(pieces.deep_view().take(i as int) =~= pieces.deep_view());
        }
        RelativePath { parts }
    }

    /// Whether this is the root of the working tree.
    pub fn is_root(&self) -> (root: bool)
        ensures
            root == (self@.len() == 0),
    {
        self.parts.len() == 0
    }

    /// Whether this path lies at or below `base`: every name of `base` is
    /// the name at the same depth of this path.
    pub fn starts_with(&self, base: &RelativePath) -> (inside: bool)
        ensures
            inside == base@.is_prefix_of(self@),
    {
        if base.parts.len() > self.parts.len() {
            return false;
        }
        let mut k: usize = 0;
        while k < base.parts.len()
            invariant
                k <= base.parts.len() <= self.parts.len(),
                agree_up_to(self@, base@, k as int),
            decreases base.parts.len() - k,
        {
            if !same_text(self.parts[k].as_str(), base.parts[k].as_str()) {
                proof {
                    assert(self@[k as int] != base@[k as int]);
                }
                return false;
            }
            k += 1;
        }
        proof {
            assert(base@ =~= self@.subrange(0, base@.len() as int));
        }
        true
    }

    /// Whether one of the two paths lies at or below the other.
    pub fn is_related_to(&self, other: &RelativePath) -> (yes: bool)
        ensures
            yes == related(self@, other@),
    {
        self.starts_with(other) || other.starts_with(self)
    }

    /// The path written with `/` between its names; the root is written as
    /// the empty text.
    pub fn to_text(&self) -> (text: String)
        ensures
            text@ == joined(self@, "/"@),
    {
        join(&self.parts, "/")
    }

    /// The names of this path from depth `depth` on.
    pub fn skip(&self, depth: usize) -> (rest: RelativePath)
        requires
            depth <= self@.len(),
        ensures
            rest@ == self@.skip(depth as int),
    {
        let mut parts: Vec<String> = Vec::new();
        let mut k: usize = depth;
        proof {
            assert(parts.deep_view() =~= self@.subrange(depth as int, k as int));
        }
        while k < self.parts.len()
            invariant
                depth <= k <= self.parts.len(),
                parts.deep_view() == self@.subrange(depth as int, k as int),
            decreases self.parts.len() - k,
        {
            let ghost before = parts.deep_view();
            let name = self.parts[k].clone();
            parts.push(name);
            k += 1;
            proof {
                assert(parts.deep_view() =~= before.push(name@));
                assert(parts.deep_view() =~= self@.subrange(depth as int, k as int));
            }
        }
        proof {
            assert(self@.subrange(depth as int, k as int) =~= self@.skip(depth as int));
        }
        RelativePath { parts }
    }
}

/// Whether the path written as `text` starts at the root of the file system.
pub fn is_absolute(text: &str) -> (absolute: bool)
    ensures
        absolute == is_absolute_text(text@),
{
    text.unicode_len() > 0 && text.get_char(0) == '/'
}

/// Expresses `full` relative to `base`, where both start at the root of
/// the file system and `full` lies at or below `base`. Every `..` is
/// resolved first, so the path that comes out holds none.
pub fn relative_to(full: &str, base: &str) -> (rest: Option<RelativePath>)
    ensures
        match rest {
            Some(path) => below(full@, base@) == Some(path@) && are_resolved(path@),
            None => below(full@, base@) is None,
        },
{
    if !is_absolute(full) || !is_absolute(base) {
        return None;
    }
    let whole = RelativePath::parse(full);
    let stem = RelativePath::parse(base);
    if whole.starts_with(&stem) {
        proof {
            assert(stem@.len() <= whole@.len());
        }
        let rest = whole.skip(stem.parts.len());
        proof {
            assert forall|k: int| 0 <= k < rest@.len() implies is_name(#[trigger] rest@[k])
                && !rest@[k].contains('/') && !steps_up(rest@[k]) by {
                assert(rest@[k] == whole@[k + stem@.len()]);
            }
        }
        Some(rest)
    } else {
        None
    }
}

} // verus!

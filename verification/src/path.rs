//! Unix paths as text: components, file names, joining and prefixes.
use vstd::prelude::*;
use vstd::string::*;

use crate::text::{same_text, split, split_text, texts};

verus! {

/// A piece between slashes that stands for a component: not empty and not a lone dot.
pub open spec fn is_kept(piece: Seq<char>) -> bool {
    piece.len() > 0 && piece != seq!['.']
}

/// The component that a path begins with beside its pieces: the root of an absolute path, or the
/// dot that a relative path starts with.
pub open spec fn leading_component(path: Seq<char>) -> Seq<Seq<char>> {
    if path.len() > 0 && path[0] == '/' {
        seq![seq!['/']]
    } else if split(path, '/')[0] == seq!['.'] {
        seq![seq!['.']]
    } else {
        Seq::empty()
    }
}

/// The components of a path. The root is the component `/`; repeated slashes, trailing slashes
/// and dots that do not begin the path count for nothing.
pub open spec fn components(path: Seq<char>) -> Seq<Seq<char>> {
    leading_component(path) + split(path, '/').filter(|piece: Seq<char>| is_kept(piece))
}

/// A component that names something: not the root, not `.` and not `..`.
pub open spec fn is_name(component: Seq<char>) -> bool {
    component != seq!['/'] && component != seq!['.'] && component != seq!['.', '.']
}

/// The last component of a path, where it is a name.
pub open spec fn file_name(path: Seq<char>) -> Option<Seq<char>> {
    if components(path).len() > 0 && is_name(components(path).last()) {
        Some(components(path).last())
    } else {
        None
    }
}

/// A path within another: an absolute one stands for itself.
pub open spec fn joined(base: Seq<char>, path: Seq<char>) -> Seq<char> {
    if path.len() > 0 && path[0] == '/' {
        path
    } else if base.len() == 0 || base.last() == '/' {
        base + path
    } else {
        base + seq!['/'] + path
    }
}

proof fn lemma_split_nonempty(value: Seq<char>, separator: char)
    ensures
        split(value, separator).len() > 0,
{
}

fn is_dot(piece: &str) -> (dot: bool)
    ensures
        dot == (piece@ == seq!['.']),
{
    proof {
        reveal_strlit(".");
        assert("."@ =~= seq!['.']);
    }
    same_text(piece, ".")
}

/// Lists the components of a path.
pub fn path_components(path: &str) -> (result: Vec<String>)
    ensures
        texts(result@) == components(path@),
{
    let pieces = split_text(path, '/');
    let count: usize = pieces.len();
    proof {
        lemma_split_nonempty(path@, '/');
        assert(texts(pieces@).len() == pieces@.len());
    }
    let mut result: Vec<String> = Vec::new();
    if !path.is_empty() && path.get_char(0) == '/' {
        let mut root = String::new();
        root.push('/');
        assert(root@ =~= seq!['/']);
        result.push(root);
        assert(texts(result@) =~= leading_component(path@));
    } else {
        assert(texts(pieces@)[0] == pieces@[0]@);
        if is_dot(pieces[0].as_str()) {
            let mut dot = String::new();
            dot.push('.');
            assert(dot@ =~= seq!['.']);
            result.push(dot);
            assert(texts(result@) =~= leading_component(path@));
        } else {
            assert(texts(result@) =~= leading_component(path@));
        }
    }
    let ghost leading = texts(result@);
    let ghost all = split(path@, '/');
    let ghost kept = |piece: Seq<char>| is_kept(piece);
    let mut index: usize = 0;
    proof {
        assert(all.take(0).filter(kept) =~= Seq::<Seq<char>>::empty()) by {
            reveal(Seq::filter);
        }
        assert(leading + Seq::<Seq<char>>::empty() =~= leading);
    }
    while index < count
        invariant
            index <= count,
            count == pieces@.len(),
            all == texts(pieces@),
            kept == (|piece: Seq<char>| is_kept(piece)),
            texts(result@) == leading + all.take(index as int).filter(kept),
        decreases count - index,
    {
        let ghost before = texts(result@);
        assert(all[index as int] == pieces@[index as int]@);
        proof {
            reveal(Seq::filter);
            assert(all.take(index + 1).drop_last() =~= all.take(index as int));
        }
        let piece = &pieces[index];
        if !piece.as_str().is_empty() && !is_dot(piece.as_str()) {
            result.push(piece.clone());
            assert(texts(result@) =~= before.push(piece@));
            assert(leading + all.take(index as int).filter(kept).push(piece@) =~= (leading
                + all.take(index as int).filter(kept)).push(piece@));
        }
        index = index + 1;
    }
    assert(all.take(count as int) =~= all);
    result
}

/// Finds the last component of a path, where it is a name.
pub fn path_file_name(path: &str) -> (name: Option<String>)
    ensures
        crate::text::opt_text(name) == file_name(path@),
{
    let mut parts = path_components(path);
    assert(texts(parts@).len() == parts@.len());
    if parts.len() == 0 {
        return None;
    }
    let last: usize = parts.len() - 1;
    assert(texts(parts@).last() == parts@[last as int]@);
    let name = parts.remove(last);
    proof {
        reveal_strlit("/");
        reveal_strlit(".");
        reveal_strlit("..");
        assert("/"@ =~= seq!['/']);
        assert("."@ =~= seq!['.']);
        assert(".."@ =~= seq!['.', '.']);
    }
    if same_text(name.as_str(), "/") || same_text(name.as_str(), ".") || same_text(
        name.as_str(),
        "..",
    ) {
        None
    } else {
        Some(name)
    }
}

/// Puts a path within another.
pub fn path_join(base: &str, path: &str) -> (result: String)
    ensures
        result@ == joined(base@, path@),
{
    if !path.is_empty() && path.get_char(0) == '/' {
        return path.to_owned();
    }
    let mut result = base.to_owned();
    let count: usize = base.unicode_len();
    if count > 0 && base.get_char(count - 1) != '/' {
        result.push('/');
        assert(result@ =~= base@ + seq!['/']);
    }
    result.append(path);
    result
}

/// Whether two paths have the same components.
pub open spec fn same_path(left: Seq<char>, right: Seq<char>) -> bool {
    components(left) == components(right)
}

/// Whether a list of texts begins with another.
fn begins_with_texts(values: &Vec<String>, prefix: &Vec<String>) -> (found: bool)
    ensures
        found == texts(prefix@).is_prefix_of(texts(values@)),
{
    if prefix.len() > values.len() {
        return false;
    }
    let count: usize = prefix.len();
    let mut index: usize = 0;
    while index < count
        invariant
            index <= count,
            count == prefix@.len(),
            count <= values@.len(),
            forall|k: int| 0 <= k < index ==> texts(prefix@)[k] == texts(values@)[k],
        decreases count - index,
    {
        assert(texts(prefix@)[index as int] == prefix@[index as int]@);
        assert(texts(values@)[index as int] == values@[index as int]@);
        if prefix[index] != values[index] {
            assert(texts(values@).subrange(0, count as int)[index as int] == texts(
                values@,
            )[index as int]);
            return false;
        }
        index = index + 1;
    }
    assert(texts(prefix@) =~= texts(values@).subrange(0, count as int));
    true
}

/// Tests whether two paths have the same components.
pub fn is_same_path(left: &str, right: &str) -> (same: bool)
    ensures
        same == same_path(left@, right@),
{
    let first = path_components(left);
    let second = path_components(right);
    assert(texts(first@).len() == first@.len());
    assert(texts(second@).len() == second@.len());
    if first.len() != second.len() {
        return false;
    }
    let same = begins_with_texts(&first, &second);
    proof {
        assert(texts(first@).subrange(0, texts(first@).len() as int) =~= texts(first@));
    }
    same
}

/// The pieces that follow the first `count` kept ones.
pub open spec fn after_kept(pieces: Seq<Seq<char>>, count: nat) -> Seq<Seq<char>>
    decreases pieces.len(),
{
    if count == 0 || pieces.len() == 0 {
        pieces
    } else if is_kept(pieces[0]) {
        after_kept(pieces.skip(1), (count - 1) as nat)
    } else {
        after_kept(pieces.skip(1), count)
    }
}

/// The pieces from the first kept one on.
pub open spec fn from_kept(pieces: Seq<Seq<char>>) -> Seq<Seq<char>>
    decreases pieces.len(),
{
    if pieces.len() > 0 && !is_kept(pieces[0]) {
        from_kept(pieces.skip(1))
    } else {
        pieces
    }
}

/// The pieces up to the last kept one.
pub open spec fn to_kept(pieces: Seq<Seq<char>>) -> Seq<Seq<char>>
    decreases pieces.len(),
{
    if pieces.len() > 0 && !is_kept(pieces.last()) {
        to_kept(pieces.drop_last())
    } else {
        pieces
    }
}

/// Pieces with a slash between each two.
pub open spec fn with_slashes(pieces: Seq<Seq<char>>) -> Seq<char>
    decreases pieces.len(),
{
    if pieces.len() == 0 {
        Seq::empty()
    } else if pieces.len() == 1 {
        pieces[0]
    } else {
        with_slashes(pieces.drop_last()) + seq!['/'] + pieces.last()
    }
}

/// A path without the slashes and dots that end it.
pub open spec fn without_tail(path: Seq<char>) -> Seq<char> {
    let pieces = split(path, '/');
    if leading_component(path).len() == 0 {
        with_slashes(to_kept(pieces))
    } else {
        let body = to_kept(pieces.skip(1));
        if path[0] == '/' {
            seq!['/'] + with_slashes(body)
        } else if body.len() == 0 {
            seq!['.']
        } else {
            seq!['.', '/'] + with_slashes(body)
        }
    }
}

/// A path relative to another that its components begin with, as it is written in the path.
pub open spec fn relative_to(path: Seq<char>, base: Seq<char>) -> Option<Seq<char>> {
    if !components(base).is_prefix_of(components(path)) {
        None
    } else if components(base).len() == 0 {
        Some(without_tail(path))
    } else {
        let kept = (components(base).len() - leading_component(base).len()) as nat;
        Some(with_slashes(to_kept(from_kept(after_kept(split(path, '/'), kept)))))
    }
}

/// Whether a piece stands for a component.
fn is_kept_piece(piece: &str) -> (kept: bool)
    ensures
        kept == is_kept(piece@),
{
    !piece.is_empty() && !is_dot(piece)
}

/// Joins the kept part of some pieces, from a position on, with slashes.
fn join_kept(pieces: &Vec<String>, start: usize) -> (result: String)
    requires
        start <= pieces@.len(),
    ensures
        result@ == with_slashes(to_kept(texts(pieces@).skip(start as int))),
{
    let ghost all = texts(pieces@);
    let mut end: usize = pieces.len();
    assert(all.subrange(start as int, end as int) =~= all.skip(start as int));
    while start < end && !is_kept_piece(pieces[end - 1].as_str())
        invariant
            start <= end <= pieces@.len(),
            all == texts(pieces@),
            to_kept(all.skip(start as int)) == to_kept(all.subrange(start as int, end as int)),
        decreases end,
    {
        assert(all.subrange(start as int, end as int).last() == pieces@[end - 1]@);
        assert(all.subrange(start as int, end as int).drop_last() =~= all.subrange(
            start as int,
            end - 1,
        ));
        end = end - 1;
    }
    if start < end {
        assert(all.subrange(start as int, end as int).last() == pieces@[end - 1]@);
    }
    let mut result = String::new();
    let mut index: usize = start;
    assert(all.subrange(start as int, start as int) =~= Seq::<Seq<char>>::empty());
    while index < end
        invariant
            start <= index <= end <= pieces@.len(),
            all == texts(pieces@),
            result@ == with_slashes(all.subrange(start as int, index as int)),
        decreases end - index,
    {
        let ghost done = all.subrange(start as int, index as int);
        let ghost longer = all.subrange(start as int, index + 1);
        assert(longer.drop_last() =~= done);
        assert(longer.last() == pieces@[index as int]@);
        if index > start {
            let ghost before = result@;
            result.push('/');
            assert(result@ =~= before + seq!['/']);
            result.append(pieces[index].as_str());
        } else {
            result.append(pieces[index].as_str());
            assert(result@ =~= longer[0]);
        }
        index = index + 1;
    }
    result
}

/// Writes a path relative to another that its components begin with.
pub fn path_relative_to(path: &str, base: &str) -> (result: Option<String>)
    ensures
        crate::text::opt_text(result) == relative_to(path@, base@),
{
    let base_parts = path_components(base);
    let parts = path_components(path);
    assert(texts(base_parts@).len() == base_parts@.len());
    if !begins_with_texts(&parts, &base_parts) {
        return None;
    }
    let pieces = split_text(path, '/');
    let ghost all = texts(pieces@);
    proof {
        lemma_split_nonempty(path@, '/');
        lemma_split_nonempty(base@, '/');
        assert(all.len() == pieces@.len());
        assert(all[0] == pieces@[0]@);
        assert(all.skip(0) =~= all);
    }
    let rooted = !path.is_empty() && path.get_char(0) == '/';
    if base_parts.len() == 0 {
        if rooted {
            let mut result = String::new();
            result.push('/');
            result.append(join_kept(&pieces, 1).as_str());
            assert(result@ =~= without_tail(path@));
            return Some(result);
        }
        if is_dot(pieces[0].as_str()) {
            let body = join_kept(&pieces, 1);
            let mut result = String::new();
            result.push('.');
            proof {
                lemma_joined_kept_empty(to_kept(all.skip(1)));
                lemma_to_kept_last(all.skip(1));
            }
            if !body.as_str().is_empty() {
                result.push('/');
                result.append(body.as_str());
            }
            assert(result@ =~= without_tail(path@));
            return Some(result);
        }
        return Some(join_kept(&pieces, 0));
    }
    let base_rooted = !base.is_empty() && base.get_char(0) == '/';
    let base_dotted = {
        let base_pieces = split_text(base, '/');
        assert(texts(base_pieces@)[0] == base_pieces@[0]@);
        is_dot(base_pieces[0].as_str())
    };
    let leading: usize = if base_rooted || base_dotted {
        1
    } else {
        0
    };
    assert(leading == leading_component(base@).len());
    let kept: usize = base_parts.len() - leading;
    let mut left: usize = kept;
    let mut start: usize = 0;
    while start < pieces.len() && left > 0
        invariant
            start <= pieces@.len(),
            all == texts(pieces@),
            after_kept(all, kept as nat) == after_kept(all.skip(start as int), left as nat),
        decreases pieces@.len() - start,
    {
        assert(all.skip(start as int)[0] == pieces@[start as int]@);
        assert(all.skip(start as int).skip(1) =~= all.skip(start + 1));
        if is_kept_piece(pieces[start].as_str()) {
            left = left - 1;
        }
        start = start + 1;
    }
    let ghost rest = after_kept(all, kept as nat);
    assert(rest == all.skip(start as int));
    while start < pieces.len() && !is_kept_piece(pieces[start].as_str())
        invariant
            start <= pieces@.len(),
            all == texts(pieces@),
            from_kept(rest) == from_kept(all.skip(start as int)),
        decreases pieces@.len() - start,
    {
        assert(all.skip(start as int)[0] == pieces@[start as int]@);
        assert(all.skip(start as int).skip(1) =~= all.skip(start + 1));
        start = start + 1;
    }
    if start < pieces.len() {
        assert(all.skip(start as int)[0] == pieces@[start as int]@);
    }
    Some(join_kept(&pieces, start))
}

proof fn lemma_to_kept_last(pieces: Seq<Seq<char>>)
    ensures
        to_kept(pieces).len() > 0 ==> is_kept(to_kept(pieces).last()),
    decreases pieces.len(),
{
    if pieces.len() > 0 && !is_kept(pieces.last()) {
        lemma_to_kept_last(pieces.drop_last());
    }
}

proof fn lemma_joined_kept_empty(pieces: Seq<Seq<char>>)
    ensures
        pieces.len() > 0 && is_kept(pieces.last()) ==> with_slashes(pieces).len() > 0,
        pieces.len() == 0 ==> with_slashes(pieces).len() == 0,
{
}

/// Whether a path lies in a directory of a name right under another.
pub open spec fn lies_under(path: Seq<char>, root: Seq<char>, name: Seq<char>) -> bool {
    &&& components(root).is_prefix_of(components(path))
    &&& components(path).len() > components(root).len()
    &&& components(path)[components(root).len() as int] == name
}

/// Tests whether a path lies in a directory of a name right under another.
pub fn is_under(path: &str, root: &str, name: &str) -> (under: bool)
    ensures
        under == lies_under(path@, root@, name@),
{
    let parts = path_components(path);
    let above = path_components(root);
    let count: usize = above.len();
    assert(texts(parts@).len() == parts@.len());
    assert(texts(above@).len() == above@.len());
    if !begins_with_texts(&parts, &above) || parts.len() <= count {
        return false;
    }
    assert(texts(parts@)[count as int] == parts@[count as int]@);
    same_text(parts[count].as_str(), name)
}

} // verus!

//! How paths that are put together come apart again: their names, and how they are shown.
use vstd::prelude::*;
use vstd::string::*;

use crate::config::Environment;
use crate::model::name_of;
use crate::path::{after_kept, components, file_name, from_kept, is_kept, leading_component,
    relative_to, to_kept, with_slashes};
use crate::pi::in_archive;
use crate::text::{first_position, joined_with, law_split, lemma_first_position, split};
use crate::userpath::{shown_dir_path, shown_path};

verus! {

/// What stands before a separator and what stands behind it come apart by themselves.
pub proof fn law_split_at_separator(left: Seq<char>, right: Seq<char>, separator: char)
    ensures
        split(left + seq![separator] + right, separator) == split(left, separator) + split(
            right,
            separator,
        ),
    decreases left.len(),
{
    let whole = left + seq![separator] + right;
    lemma_first_position(whole, separator);
    lemma_first_position(left, separator);
    let position = first_position(whole, separator);
    let own = first_position(left, separator);
    assert(whole[left.len() as int] == separator);
    if own < left.len() {
        assert(whole[own] == separator);
        if position < own {
            assert(left[position] == separator);
        }
        assert(position == own);
        let rest = left.skip(own + 1);
        law_split_at_separator(rest, right, separator);
        assert(whole.skip(own + 1) =~= rest + seq![separator] + right);
        assert(whole.take(own) =~= left.take(own));
        assert(seq![left.take(own)] + (split(rest, separator) + split(right, separator)) =~= (seq![
            left.take(own),
        ] + split(rest, separator)) + split(right, separator));
    } else {
        if position < left.len() {
            assert(left[position] == separator);
        }
        assert(position == left.len());
        assert(whole.take(position) =~= left);
        assert(whole.skip(position + 1) =~= right);
    }
}

spec fn kept(pieces: Seq<Seq<char>>) -> Seq<Seq<char>> {
    pieces.filter(|piece: Seq<char>| is_kept(piece))
}

proof fn lemma_kept_together(left: Seq<Seq<char>>, right: Seq<Seq<char>>)
    ensures
        kept(left + right) == kept(left) + kept(right),
    decreases right.len(),
{
    reveal(Seq::filter);
    if right.len() == 0 {
        assert(left + right =~= left);
        assert(kept(left) + kept(right) =~= kept(left));
    } else {
        lemma_kept_together(left, right.drop_last());
        assert((left + right).drop_last() =~= left + right.drop_last());
        assert((left + right).last() == right.last());
        assert(kept(left + right) =~= kept(left) + kept(right));
    }
}

/// The components of a path below a directory are those of the directory and those that stand behind
/// it.
pub proof fn law_components_below(directory: Seq<char>, rest: Seq<char>)
    requires
        directory.len() > 0,
    ensures
        components(directory + seq!['/'] + rest) == components(directory) + split(rest, '/').filter(
            |piece: Seq<char>| is_kept(piece),
        ),
{
    let path = directory + seq!['/'] + rest;
    law_split_at_separator(directory, rest, '/');
    law_split(directory, '/');
    lemma_kept_together(split(directory, '/'), split(rest, '/'));
    assert(path[0] == directory[0]);
    assert(split(path, '/')[0] == split(directory, '/')[0]);
    assert(leading_component(path) == leading_component(directory));
    assert(components(path) =~= components(directory) + kept(split(rest, '/')));
}

/// Whether a text can name something in a directory.
pub open spec fn is_plain_name(name: Seq<char>) -> bool {
    name.len() > 0 && !name.contains('/') && name != seq!['.'] && name != seq!['.', '.']
}

proof fn lemma_one_piece(name: Seq<char>)
    requires
        !name.contains('/'),
    ensures
        split(name, '/') == seq![name],
        is_kept(name) ==> kept(split(name, '/')) == seq![name],
        !is_kept(name) ==> kept(split(name, '/')) == Seq::<Seq<char>>::empty(),
{
    reveal(Seq::filter);
    lemma_first_position(name, '/');
    let position = first_position(name, '/');
    if position < name.len() {
        assert(name[position] == '/');
    }
    let one = seq![name];
    assert(one.drop_last() =~= Seq::<Seq<char>>::empty());
    assert(kept(one.drop_last()) =~= Seq::<Seq<char>>::empty());
    assert(one.last() == name);
    if is_kept(name) {
        assert(kept(one) =~= seq![name]);
    } else {
        assert(kept(one) =~= Seq::<Seq<char>>::empty());
    }
}

/// What stands in a directory has its name as the last component, and a project there is called by
/// it; slashes behind a path change nothing.
pub proof fn law_name_in_directory(directory: Seq<char>, name: Seq<char>)
    requires
        directory.len() > 0,
        is_plain_name(name),
    ensures
        ({
            let path = directory + seq!['/'] + name;
            &&& components(path) == components(directory).push(name)
            &&& file_name(path) == Some(name)
            &&& name_of(path) == name
            &&& components(path + seq!['/']) == components(path)
            &&& name_of(path + seq!['/']) == name
        }),
{
    let path = directory + seq!['/'] + name;
    law_components_below(directory, name);
    lemma_one_piece(name);
    assert(components(directory) + seq![name] =~= components(directory).push(name));
    assert(name != seq!['/']) by {
        if name == seq!['/'] {
            assert(name[0] == '/');
        }
    }
    law_components_below(path, Seq::empty());
    lemma_one_piece(Seq::empty());
    assert(path + seq!['/'] + Seq::<char>::empty() =~= path + seq!['/']);
    assert(components(path) + Seq::<Seq<char>>::empty() =~= components(path));
}

/// A session file is in the archive if and only if it stands below the directory of archived sessions,
/// and not below another one.
pub proof fn law_archive(root: Seq<char>, directory: Seq<char>, name: Seq<char>)
    requires
        root.len() > 0,
        is_plain_name(directory),
        is_plain_name(name),
    ensures
        in_archive(root, root + seq!['/'] + directory + seq!['/'] + name) <==> directory
            == "archived"@,
        name != "archived"@ ==> !in_archive(root, root + seq!['/'] + name),
{
    let inner = root + seq!['/'] + directory;
    law_name_in_directory(root, directory);
    law_name_in_directory(inner, name);
    law_name_in_directory(root, name);
    let path = inner + seq!['/'] + name;
    let count = components(root).len() as int;
    assert(components(path) == components(root).push(directory).push(name));
    assert(components(root).is_prefix_of(components(path))) by {
        assert(components(path).subrange(0, count) =~= components(root));
    }
    assert(components(path)[count] == directory);
    assert(components(root + seq!['/'] + name)[count] == name);
}

proof fn lemma_behind(pieces: Seq<Seq<char>>, rest: Seq<Seq<char>>)
    ensures
        from_kept(after_kept(pieces + rest, kept(pieces).len())) == from_kept(rest),
    decreases pieces.len(),
{
    let all = pieces + rest;
    if pieces.len() == 0 {
        assert(kept(pieces).len() == 0) by {
            reveal(Seq::filter);
        }
        assert(all =~= rest);
    } else {
        let less = pieces.skip(1);
        lemma_behind(less, rest);
        assert(all.skip(1) =~= less + rest);
        assert(all[0] == pieces[0]);
        let first = seq![pieces[0]];
        assert(pieces =~= first + less);
        lemma_kept_together(first, less);
        assert(kept(first) =~= if is_kept(pieces[0]) {
            first
        } else {
            Seq::<Seq<char>>::empty()
        }) by {
            reveal(Seq::filter);
            assert(first.drop_last() =~= Seq::<Seq<char>>::empty());
            assert(kept(first.drop_last()) =~= Seq::<Seq<char>>::empty());
        }
    }
}

proof fn lemma_with_slashes(pieces: Seq<Seq<char>>)
    ensures
        with_slashes(pieces) == joined_with(pieces, seq!['/']),
    decreases pieces.len(),
{
    if pieces.len() > 1 {
        lemma_with_slashes(pieces.drop_last());
    }
}

/// A path below another is relative to it what stands behind it.
pub proof fn law_relative(base: Seq<char>, rest: Seq<char>)
    requires
        base.len() > 0,
        components(base).len() > 0,
        is_kept(split(rest, '/')[0]),
        is_kept(split(rest, '/').last()),
    ensures
        relative_to(base + seq!['/'] + rest, base) == Some(rest),
{
    let path = base + seq!['/'] + rest;
    let behind = split(rest, '/');
    law_components_below(base, rest);
    assert(components(base).is_prefix_of(components(path))) by {
        assert(components(path).subrange(0, components(base).len() as int) =~= components(base));
    }
    law_split_at_separator(base, rest, '/');
    lemma_behind(split(base, '/'), behind);
    law_split(rest, '/');
    assert(components(base).len() - leading_component(base).len() == kept(split(base, '/')).len());
    assert(from_kept(behind) == behind);
    assert(to_kept(behind) == behind);
    lemma_with_slashes(behind);
}

/// A path below the home directory is shown with a tilde in its place, and a path elsewhere as it is.
/// A directory is shown with one slash at its end.
pub proof fn law_shown_path(home: Seq<char>, rest: Seq<char>, path: Seq<char>, env: Environment)
    requires
        env.value("HOME"@) == Some(home),
        home.len() > 0,
        components(home).len() > 0,
        is_kept(split(rest, '/')[0]),
        is_kept(split(rest, '/').last()),
    ensures
        shown_path(home + seq!['/'] + rest, env) == seq!['~', '/'] + rest,
        !components(home).is_prefix_of(components(path)) ==> shown_path(path, env) == path,
        shown_dir_path(path, env) == shown_path(path, env) || shown_dir_path(path, env)
            == shown_path(path, env) + seq!['/'],
        shown_dir_path(path, env).last() == '/',
{
    reveal_strlit("~/");
    assert("~/"@ =~= seq!['~', '/']);
    law_relative(home, rest);
    law_split(rest, '/');
    assert(rest.len() > 0) by {
        if rest.len() == 0 {
            lemma_one_piece(rest);
        }
    }
    assert(shown_path(path, env).push('/') =~= shown_path(path, env) + seq!['/']);
}

} // verus!

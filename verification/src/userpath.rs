//! Paths as a user writes and reads them.
use vstd::prelude::*;
use vstd::string::*;

use crate::config::{home, home_dir, state_dir, state_directory, Environment};
use crate::path::{components, joined, path_components, path_join, path_relative_to, relative_to};
use crate::text::{begins_with, same_text, starts_with, texts};

verus! {

/// A path as it is shown: what lies in the home directory begins with a tilde.
pub open spec fn shown_path(path: Seq<char>, env: Environment) -> Seq<char> {
    match env.value("HOME"@) {
        None => path,
        Some(home) => match relative_to(path, home) {
            Some(relative) => if relative.len() == 0 {
                "~"@
            } else {
                "~/"@ + relative
            },
            None => path,
        },
    }
}

/// Writes a path as it is shown.
pub fn display_path(path: &str, env: &Environment) -> (shown: String)
    ensures
        shown@ == shown_path(path@, *env),
{
    let home = match env.var("HOME") {
        Some(home) => home,
        None => {
            return path.to_owned();
        },
    };
    match path_relative_to(path, home) {
        Some(relative) => if relative.as_str().is_empty() {
            "~".to_owned()
        } else {
            let mut shown = "~/".to_owned();
            shown.append(relative.as_str());
            shown
        },
        None => path.to_owned(),
    }
}

/// A path of a directory as it is shown: it ends with a slash.
pub open spec fn shown_dir_path(path: Seq<char>, env: Environment) -> Seq<char> {
    let shown = shown_path(path, env);
    if shown.len() > 0 && shown.last() == '/' {
        shown
    } else {
        shown.push('/')
    }
}

/// Writes a path of a directory as it is shown.
pub fn display_dir_path(path: &str, env: &Environment) -> (shown: String)
    ensures
        shown@ == shown_dir_path(path@, *env),
{
    let mut shown = display_path(path, env);
    let count: usize = shown.as_str().unicode_len();
    if count == 0 || shown.as_str().get_char(count - 1) != '/' {
        shown.push('/');
    }
    shown
}

/// A path with the home directory in place of a tilde that begins it.
pub open spec fn expanded_path(path: Seq<char>, env: Environment) -> Seq<char> {
    if path == "~"@ {
        home(env)
    } else if begins_with(path, "~/"@) {
        joined(home(env), path.skip(2))
    } else {
        path
    }
}

/// Puts the home directory in place of a tilde that begins a path.
pub fn expand_user_path(path: &str, env: &Environment) -> (result: String)
    ensures
        result@ == expanded_path(path@, *env),
{
    if same_text(path, "~") {
        return home_dir(env);
    }
    if starts_with(path, "~/") {
        proof {
            reveal_strlit("~/");
        }
        let count: usize = path.unicode_len();
        let rest = path.substring_char(2, count);
        assert(rest@ =~= path@.skip(2));
        return path_join(home_dir(env).as_str(), rest);
    }
    path.to_owned()
}

/// Whether a path is only a name: it is relative and has one component.
pub open spec fn is_only_name(path: Seq<char>) -> bool {
    !(path.len() > 0 && path[0] == '/') && components(path).len() == 1
}

/// Tests whether a path is only a name.
pub fn is_bare_project_name(path: &str) -> (bare: bool)
    ensures
        bare == is_only_name(path@),
{
    let parts = path_components(path);
    assert(texts(parts@).len() == parts@.len());
    let absolute = !path.is_empty() && path.get_char(0) == '/';
    !absolute && parts.len() == 1
}

/// The directory of a new project: a name alone stands for one where the program keeps its state.
pub open spec fn project_directory(path: Seq<char>, env: Environment) -> Seq<char> {
    let expanded = expanded_path(path, env);
    if is_only_name(expanded) {
        joined(state_directory(env), expanded)
    } else {
        expanded
    }
}

/// Finds the directory of a new project.
pub fn new_project_path(path: &str, env: &Environment) -> (directory: String)
    ensures
        directory@ == project_directory(path@, *env),
{
    let expanded = expand_user_path(path, env);
    if is_bare_project_name(expanded.as_str()) {
        path_join(state_dir(env).as_str(), expanded.as_str())
    } else {
        expanded
    }
}

/// The length of a path up to its last slash, and with it.
pub open spec fn prefix_length(path: Seq<char>) -> int
    decreases path.len(),
{
    if path.len() == 0 || path.last() == '/' {
        path.len() as int
    } else {
        prefix_length(path.drop_last())
    }
}

proof fn lemma_prefix_length(path: Seq<char>)
    ensures
        0 <= prefix_length(path) <= path.len(),
    decreases path.len(),
{
    if path.len() > 0 && path.last() != '/' {
        lemma_prefix_length(path.drop_last());
    }
}

/// Splits a path behind its last slash.
pub fn split_executable_path(path: &str) -> (parts: (&str, &str))
    ensures
        parts.0@ == path@.take(prefix_length(path@)),
        parts.1@ == path@.skip(prefix_length(path@)),
{
    let count: usize = path.unicode_len();
    let mut end: usize = count;
    assert(path@.take(count as int) =~= path@);
    while end > 0 && path.get_char(end - 1) != '/'
        invariant
            end <= count,
            count == path@.len(),
            prefix_length(path@) == prefix_length(path@.take(end as int)),
        decreases end,
    {
        assert(path@.take(end as int).drop_last() =~= path@.take(end - 1));
        end = end - 1;
    }
    proof {
        lemma_prefix_length(path@);
        assert(prefix_length(path@) == end);
    }
    let prefix = path.substring_char(0, end);
    let executable = path.substring_char(end, count);
    assert(prefix@ =~= path@.take(end as int));
    assert(executable@ =~= path@.skip(end as int));
    (prefix, executable)
}

/// The two parts of a path make it up, the first is empty or ends with a slash, and the second
/// holds none.
pub proof fn law_split_path(path: Seq<char>)
    ensures
        path.take(prefix_length(path)) + path.skip(prefix_length(path)) == path,
        prefix_length(path) > 0 ==> path.take(prefix_length(path)).last() == '/',
        !path.skip(prefix_length(path)).contains('/'),
    decreases path.len(),
{
    lemma_prefix_length(path);
    assert(path.take(prefix_length(path)) + path.skip(prefix_length(path)) =~= path);
    if path.len() > 0 && path.last() != '/' {
        let rest = path.drop_last();
        law_split_path(rest);
        lemma_prefix_length(rest);
        assert(path.take(prefix_length(path)) =~= rest.take(prefix_length(rest)));
        let tail = path.skip(prefix_length(path));
        let shorter = rest.skip(prefix_length(rest));
        assert forall|k: int| 0 <= k < tail.len() implies tail[k] != '/' by {
            if k < shorter.len() {
                assert(tail[k] == shorter[k]);
                assert(shorter.contains(shorter[k]));
            }
        }
    }
}

} // verus!

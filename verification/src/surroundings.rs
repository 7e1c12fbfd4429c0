//! What the environment says, and what paths stand for.
use vstd::prelude::*;
use vstd::string::*;

use crate::app::AppView;
use crate::config::{begins_name, config_file, continues_name, expanded, home, name_length,
    state_directory, Environment};
use crate::model::ProjectView;
use crate::outside::{at_directory, first_directory, project_place, user_of};
use crate::path::{components, joined};
use crate::pi::usual_session_dir;
use crate::text::{begins_with, first_position, lemma_first_position};
use crate::tmux::CanonicalPaths;
use crate::userpath::{expanded_path, project_directory};

verus! {

/// Whether a text is a name of a variable.
pub open spec fn is_variable_name(name: Seq<char>) -> bool {
    &&& name.len() > 0
    &&& begins_name(name[0])
    &&& forall|k: int| 0 <= k < name.len() ==> continues_name(#[trigger] name[k])
}

/// Text without a dollar sign before anything else stays, and what comes behind it is expanded by
/// itself.
pub proof fn law_expansion_goes_on(before: Seq<char>, rest: Seq<char>, env: Environment)
    requires
        !before.contains('$'),
    ensures
        expanded(before + rest, env) == before + expanded(rest, env),
    decreases before.len(),
{
    let whole = before + rest;
    if before.len() == 0 {
        assert(whole =~= rest);
        assert(before + expanded(rest, env) =~= expanded(rest, env));
    } else {
        let less = before.skip(1);
        assert(before.contains(before[0]));
        assert forall|k: int| 0 <= k < less.len() implies less[k] != '$' by {
            assert(before.contains(before[k + 1]));
        }
        law_expansion_goes_on(less, rest, env);
        assert(whole.skip(1) =~= less + rest);
        assert(seq![before[0]] + (less + expanded(rest, env)) =~= before + expanded(rest, env));
    }
}

proof fn lemma_name_ends(name: Seq<char>, rest: Seq<char>)
    requires
        forall|k: int| 0 <= k < name.len() ==> continues_name(#[trigger] name[k]),
        rest.len() == 0 || !continues_name(rest[0]),
    ensures
        name_length(name + rest) == name.len(),
    decreases name.len(),
{
    let whole = name + rest;
    if name.len() == 0 {
        assert(whole =~= rest);
    } else {
        let less = name.skip(1);
        assert forall|k: int| 0 <= k < less.len() implies continues_name(#[trigger] less[k]) by {
            assert(less[k] == name[k + 1]);
        }
        lemma_name_ends(less, rest);
        assert(whole.skip(1) =~= less + rest);
        assert(whole[0] == name[0]);
    }
}

/// A dollar sign and a name stand for the value of the variable, and for nothing where it is not set.
/// What comes behind the name is expanded by itself.
pub proof fn law_variable_is_replaced(name: Seq<char>, rest: Seq<char>, env: Environment)
    requires
        is_variable_name(name),
        rest.len() == 0 || !continues_name(rest[0]),
    ensures
        expanded(seq!['$'] + name + rest, env) == (match env.value(name) {
            Some(value) => value,
            None => Seq::empty(),
        }) + expanded(rest, env),
{
    let whole = seq!['$'] + name + rest;
    lemma_name_ends(name, rest);
    assert(whole.skip(1) =~= name + rest);
    assert(whole[1] == name[0]);
    assert(continues_name(name[0]));
    assert((name + rest).take(name.len() as int) =~= name);
    assert((name + rest).skip(name.len() as int) =~= rest);
}

/// A name in braces behind a dollar sign stands for the value of the variable too, whatever comes
/// behind it.
pub proof fn law_braced_variable_is_replaced(name: Seq<char>, rest: Seq<char>, env: Environment)
    requires
        !name.contains('}'),
    ensures
        expanded(seq!['$', '{'] + name + seq!['}'] + rest, env) == (match env.value(name) {
            Some(value) => value,
            None => Seq::empty(),
        }) + expanded(rest, env),
{
    let whole = seq!['$', '{'] + name + seq!['}'] + rest;
    let behind = name + seq!['}'] + rest;
    assert(whole.skip(2) =~= behind);
    lemma_first_position(behind, '}');
    let end = first_position(behind, '}');
    assert(behind[name.len() as int] == '}');
    if end < name.len() {
        assert(name[end] == '}');
    }
    assert(end == name.len());
    assert(behind.take(end) =~= name);
    assert(behind.skip(end + 1) =~= rest);
}

/// A tilde that is a path, or that a slash follows, stands for the home directory; every other path
/// stays as it is.
pub proof fn law_tilde(path: Seq<char>, rest: Seq<char>, env: Environment)
    ensures
        expanded_path(seq!['~'], env) == home(env),
        (rest.len() == 0 || rest[0] != '/') && home(env).len() > 0 && home(env).last() != '/'
            ==> expanded_path(seq!['~', '/'] + rest, env) == home(env) + seq!['/'] + rest,
        path.len() == 0 || path[0] != '~' || (path.len() > 1 && path[1] != '/') ==> expanded_path(
            path,
            env,
        ) == path,
{
    reveal_strlit("~");
    reveal_strlit("~/");
    assert("~"@ =~= seq!['~']);
    assert("~/"@ =~= seq!['~', '/']);
    let whole = seq!['~', '/'] + rest;
    assert(whole.skip(2) =~= rest);
    assert(whole.take(2) =~= "~/"@);
    assert(begins_with(whole, "~/"@));
    assert(whole.len() >= 2 && "~"@.len() == 1);
    if begins_with(path, "~/"@) {
        assert(path[0] == '~' && path[1] == '/') by {
            assert(path.take(2) =~= seq!['~', '/']);
            assert(path.take(2)[0] == '~' && path.take(2)[1] == '/');
        }
    }
}

/// The home directory is the one that the environment names, and the working directory where it names
/// none.
pub proof fn law_home(env: Environment)
    ensures
        env.value("HOME"@) is Some ==> home(env) == env.value("HOME"@)->0,
        env.value("HOME"@) is None ==> home(env) == "."@,
{
}

/// What is behind a directory: with one slash between.
pub proof fn law_joined_paths(base: Seq<char>, name: Seq<char>)
    requires
        base.len() > 0,
        name.len() > 0,
    ensures
        name[0] == '/' ==> joined(base, name) == name,
        name[0] != '/' && base.last() != '/' ==> joined(base, name) == base + seq!['/'] + name,
        name[0] != '/' && base.last() == '/' ==> joined(base, name) == base + name,
{
}

/// A new project of an absolute path, or of one with several parts, is made there; a name alone is
/// made a directory among what the program keeps.
pub proof fn law_project_directory(path: Seq<char>, env: Environment)
    requires
        path.len() > 0,
        path[0] != '~',
    ensures
        path[0] == '/' ==> project_directory(path, env) == path,
        components(path).len() != 1 ==> project_directory(path, env) == path,
        path[0] != '/' && components(path).len() == 1 ==> project_directory(path, env) == joined(
            state_directory(env),
            path,
        ),
{
    law_tilde(path, Seq::empty(), env);
}

/// Where settings and state are kept: below the directories that the environment names, and below the
/// usual ones of the home directory elsewhere.
pub proof fn law_own_directories(env: Environment, base: Seq<char>)
    requires
        base.len() > 0,
        base.last() != '/',
    ensures
        env.value("XDG_CONFIG_HOME"@) == Some(base) ==> config_file(env) == base
            + "/cia/config.toml"@,
        env.value("XDG_STATE_HOME"@) == Some(base) ==> state_directory(env) == base + "/cia"@,
        env.value("XDG_CONFIG_HOME"@) is None && env.value("HOME"@) == Some(base) ==> config_file(
            env,
        ) == base + "/.config/cia/config.toml"@,
        env.value("XDG_STATE_HOME"@) is None && env.value("HOME"@) == Some(base)
            ==> state_directory(env) == base + "/.local/state/cia"@,
{
    reveal_strlit("cia/config.toml");
    reveal_strlit("/cia/config.toml");
    reveal_strlit("cia");
    reveal_strlit("/cia");
    reveal_strlit(".config");
    reveal_strlit("/.config/cia/config.toml");
    reveal_strlit(".local/state");
    reveal_strlit("/.local/state/cia");
    assert(base + seq!['/'] + "cia/config.toml"@ =~= base + "/cia/config.toml"@);
    assert(base + seq!['/'] + "cia"@ =~= base + "/cia"@);
    assert(base + seq!['/'] + ".config"@ + seq!['/'] + "cia/config.toml"@ =~= base
        + "/.config/cia/config.toml"@);
    assert(base + seq!['/'] + ".local/state"@ + seq!['/'] + "cia"@ =~= base
        + "/.local/state/cia"@);
    let config = base + seq!['/'] + ".config"@;
    let state = base + seq!['/'] + ".local/state"@;
    assert(config.last() == 'g');
    assert(state.last() == 'e');
}

/// Where Pi keeps its sessions: where the environment says, or among what Pi keeps, or in the usual
/// place of the home directory.
pub proof fn law_session_directory(env: Environment, base: Seq<char>)
    requires
        base.len() > 0,
        base.last() != '/',
    ensures
        env.value("PI_CODING_AGENT_SESSION_DIR"@) == Some(base) ==> usual_session_dir(env) == base,
        env.value("PI_CODING_AGENT_SESSION_DIR"@) is None && env.value("PI_CODING_AGENT_DIR"@)
            == Some(base) ==> usual_session_dir(env) == base + "/sessions"@,
        env.value("PI_CODING_AGENT_SESSION_DIR"@) is None && env.value("PI_CODING_AGENT_DIR"@)
            is None && env.value("HOME"@) == Some(base) ==> usual_session_dir(env) == base
            + "/.pi/agent/sessions"@,
{
    reveal_strlit("sessions");
    reveal_strlit("/sessions");
    reveal_strlit(".pi/agent/sessions");
    reveal_strlit("/.pi/agent/sessions");
    assert(base + seq!['/'] + "sessions"@ =~= base + "/sessions"@);
    assert(base + seq!['/'] + ".pi/agent/sessions"@ =~= base + "/.pi/agent/sessions"@);
}

/// The name of the user is the one that the environment gives first.
pub proof fn law_user(env: Environment)
    ensures
        env.value("USER"@) is Some ==> user_of(env) == env.value("USER"@)->0,
        env.value("USER"@) is None && env.value("USERNAME"@) is Some ==> user_of(env) == env.value(
            "USERNAME"@,
        )->0,
        env.value("USER"@) is None && env.value("USERNAME"@) is None ==> user_of(env) == "You"@,
{
}

/// The first project of a directory is found, and none only where there is none.
pub proof fn law_project_is_found(projects: Seq<ProjectView>, cwd: Seq<char>)
    ensures
        match project_place(projects, cwd) {
            Some(at) => 0 <= at < projects.len() && projects[at].cwd == cwd && forall|k: int|
                0 <= k < at ==> (#[trigger] projects[k]).cwd != cwd,
            None => forall|k: int| 0 <= k < projects.len() ==> (#[trigger] projects[k]).cwd != cwd,
        },
    decreases projects.len(),
{
    if projects.len() > 0 {
        let rest = projects.drop_last();
        law_project_is_found(rest, cwd);
        assert forall|k: int| 0 <= k < rest.len() implies #[trigger] projects[k] == rest[k] by {}
    }
}

/// The project that is selected at first is that of the directory that was asked for, and, where none
/// was, of the one that was last used; where there is no such project the selection stays.
pub proof fn law_first_selection(
    app: AppView,
    preferred: Option<Seq<char>>,
    canonical: CanonicalPaths,
    at: int,
)
    ensures
        ({
            let cwd = match preferred {
                Some(path) => Some(canonical.normal(path)),
                None => app.state.last_project,
            };
            let after = at_directory(
                app,
                first_directory(preferred, app.state.last_project, canonical),
            );
            &&& after == (AppView { project_index: after.project_index, ..app })
            &&& cwd is None || (forall|k: int|
                0 <= k < app.projects.len() ==> (#[trigger] app.projects[k]).cwd != cwd->0)
                ==> after == app
            &&& cwd is Some && 0 <= at < app.projects.len() && app.projects[at].cwd == cwd->0
                ==> 0 <= after.project_index <= at && app.projects[after.project_index].cwd
                == cwd->0
        }),
{
    let cwd = first_directory(preferred, app.state.last_project, canonical);
    if cwd is Some {
        law_project_is_found(app.projects, cwd->0);
    }
}

} // verus!

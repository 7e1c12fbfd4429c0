//! What follows on what: the steps of a deletion, of a listing, of bringing a pane to the front, and of
//! opening a chat.
use vstd::prelude::*;
use vstd::string::*;

use crate::actions::after_reading;
use crate::agent::{Harness, Thread, PI_HARNESS_LABEL};
use crate::app::AppView;
use crate::codex::{with_page, Deletion};
use crate::config::{expanded, is_expanded_config, Config, Environment, TmuxConfig};
use crate::conversation::law_last_turns;
use crate::launch::{given_command, is_opening, refusal, Opening, RunArguments};
use crate::order::lemma_filter_contains;
use crate::outside::{begins_anew, goes_on_with, runs};
use crate::panes::law_new_pane;
use crate::pi::{are_threads_of, line_test, recent_messages, role_test, Session, SessionView};
use crate::prompts::first_shown;
use crate::runner::{decoded, encoded};
use crate::starting::{gives, is_marked, law_marked_pane};
use crate::text::{contains, opt_str, opt_text, texts, trimmed};
use crate::tmux::{fill_commands, free_name, front_commands, is_first_free, launch_words,
    law_free_name_is_free, lemma_some_free, numbered, pane_arguments, AgentLaunch, CanonicalPaths,
    Window};

verus! {

/// A deletion ends well only with a request to delete that was done. A thread that cannot be found is
/// taken out of the archive, and then deleted again; every other failure ends the deletion with its
/// message. Nothing follows on the second try.
pub proof fn law_deletion(step: Deletion, failure: Option<Seq<char>>)
    ensures
        step.followed_by(failure) == Ok::<Option<Deletion>, Seq<char>>(None) ==> failure is None
            && step.method_text() == "thread/delete"@,
        step.followed_by(failure) matches Ok(Some(next)) ==> {
            ||| step is Delete && next is Unarchive && failure is Some && contains(
                failure->0,
                "no rollout found"@,
            )
            ||| step is Unarchive && next is DeleteAgain && failure is None
        },
        step.followed_by(failure) matches Err(message) ==> failure == Some(message),
        failure is None ==> step.followed_by(failure) is Ok,
        failure is Some && !contains(failure->0, "no rollout found"@) ==> step.followed_by(failure)
            is Err,
        failure is Some && contains(failure->0, "no rollout found"@) && step is Delete
            ==> step.followed_by(failure) is Ok,
        failure is None && !(step is Unarchive) ==> step.followed_by(failure) == Ok::<
            Option<Deletion>,
            Seq<char>,
        >(None),
{
    reveal_strlit("thread/delete");
    reveal_strlit("thread/unarchive");
}

/// Each page adds its threads behind those that were listed before, which stay as they are; each is
/// archived or not as the list is.
pub proof fn law_pages(threads: Seq<Thread>, page: Seq<Thread>, archived: bool, k: int)
    ensures
        with_page(threads, page, archived).len() == threads.len() + page.len(),
        0 <= k < threads.len() ==> with_page(threads, page, archived)[k] == threads[k],
        0 <= k < page.len() ==> with_page(threads, page, archived)[threads.len() + k] == (Thread {
            archived,
            ..page[k]
        }),
{
}

/// What was read is shown, all of it and in its order; where nothing could be read it is said why, and
/// nothing else changes.
pub proof fn law_messages_are_shown(
    app: AppView,
    result: Result<Seq<(Seq<char>, Seq<char>)>, Seq<char>>,
)
    ensures
        result matches Ok(messages) ==> after_reading(app, result).preview == messages
            && after_reading(app, result).status == app.status,
        result matches Err(message) ==> after_reading(app, result).status == message
            && after_reading(app, result).preview == app.preview,
        after_reading(app, result) == (AppView {
            preview: after_reading(app, result).preview,
            status: after_reading(app, result).status,
            ..app
        }),
{
}

/// The end is in sight where it is not gone back; each line that it is gone back shows one line more
/// from before, down to the first; where all fits, all is shown.
pub proof fn law_scrolled_text(content: int, viewport: int, back: int)
    requires
        0 <= content,
        0 <= viewport,
        0 <= back,
    ensures
        0 <= first_shown(content, viewport, back) <= first_shown(content, viewport, 0),
        first_shown(content, viewport, 0) + viewport >= content,
        content > viewport ==> first_shown(content, viewport, 0) + viewport == content,
        content <= viewport ==> first_shown(content, viewport, back) == 0,
        first_shown(content, viewport, back) > 0 ==> first_shown(content, viewport, back + 1)
            == first_shown(content, viewport, back) - 1,
{
}

/// Whether a command is about a target.
pub open spec fn is_about(command: Seq<Seq<char>>, target: Seq<char>) -> bool {
    exists|k: int|
        0 <= k < command.len() - 1 && #[trigger] command[k] == "-t"@ && command[k + 1] == target
}

/// To bring a pane to the front is about its own session and its own window first, and about the pane
/// itself in the end: it is selected, and it fills its window. A pane that filled the window before is
/// put back first.
pub proof fn law_pane_comes_to_the_front(window: Window, flag: Seq<char>)
    ensures
        ({
            let inside = front_commands(window, true);
            let outside = front_commands(window, false);
            let last = fill_commands(window, flag);
            let count = last.len() as int;
            &&& inside.len() == 2 && outside.len() == 1
            &&& is_about(inside[0], window.session@) && inside[0][0] == "switch-client"@
            &&& is_about(inside[1], window.window_id@) && inside[1][0] == "select-window"@
            &&& is_about(outside[0], window.session@) && outside[0][0] == "attach-session"@
            &&& count == if flag == "1"@ {
                3int
            } else {
                2
            }
            &&& flag == "1"@ ==> is_about(last[0], window.window_id@)
            &&& is_about(last[count - 2], window.pane_id@) && last[count - 2][0] == "select-pane"@
            &&& is_about(last[count - 1], window.pane_id@) && last[count - 1][0] == "resize-pane"@
                && last[count - 1][1] == "-Z"@
        }),
{
    let inside = front_commands(window, true);
    let outside = front_commands(window, false);
    let last = fill_commands(window, flag);
    let count = last.len() as int;
    assert(inside[0][1] == "-t"@);
    assert(inside[1][1] == "-t"@);
    assert(outside[0][1] == "-t"@);
    if flag == "1"@ {
        assert(last[0][2] == "-t"@);
    }
    assert(last[count - 2][1] == "-t"@);
    assert(last[count - 1][2] == "-t"@);
}

/// The last messages of a session are shown, as many as are asked for: the last one of the user or of Pi
/// is always among them, and all are where there are no more.
pub proof fn law_recent_messages(session: SessionView, turns: nat)
    ensures
        ({
            let all = session.messages.filter(
                |message: (Seq<char>, Seq<char>)|
                    message.0 == "You"@ || message.0 == PI_HARNESS_LABEL@,
            );
            let shown = recent_messages(session, turns);
            &&& all.len() <= 2 * turns ==> shown == all
            &&& all.len() > 2 * turns ==> shown.len() == 2 * turns
            &&& forall|k: int|
                0 <= k < shown.len() ==> #[trigger] shown[k] == all[all.len() - shown.len() + k]
        }),
{
    let test = |message: (Seq<char>, Seq<char>)|
        message.0 == "You"@ || message.0 == PI_HARNESS_LABEL@;
    assert(test =~= role_test());
    law_last_turns(session.messages.filter(role_test()), 2 * turns);
}

/// Each message of the user or of Pi counts, and no other.
pub proof fn law_roles(messages: Seq<(Seq<char>, Seq<char>)>, message: (Seq<char>, Seq<char>))
    ensures
        messages.filter(role_test()).contains(message) <==> messages.contains(message) && (message.0
            == "You"@ || message.0 == PI_HARNESS_LABEL@),
{
    lemma_filter_contains(messages, role_test(), message);
}

/// Each line that is not blank holds a record.
pub proof fn law_record_lines(rows: Seq<Seq<char>>, row: Seq<char>)
    ensures
        rows.filter(line_test()).contains(row) <==> rows.contains(row) && trimmed(row).len() > 0,
{
    lemma_filter_contains(rows, line_test(), row);
}

/// The chat that fits best is opened: where a pane bears its harness and its thread this pane is brought
/// to the front, and no second one is made; where none does the chat is opened in a new one.
pub proof fn law_best_match_is_opened(
    opening: Opening,
    threads: Seq<Thread>,
    windows: Seq<Window>,
    at: int,
    k: int,
)
    requires
        is_opening(opening, threads, windows, at),
    ensures
        0 <= k < windows.len() && is_marked(
            windows[k],
            threads[at].harness_id@,
            threads[at].id@,
        ) ==> opening is Switch,
        opening matches Opening::Switch(window) ==> windows.contains(window) && is_marked(
            window,
            threads[at].harness_id@,
            threads[at].id@,
        ),
        (forall|k: int|
            0 <= k < windows.len() ==> !is_marked(
                #[trigger] windows[k],
                threads[at].harness_id@,
                threads[at].id@,
            )) ==> (opening matches Opening::Launch { thread, harness: _ } && thread == at),
{
    law_marked_pane(windows, threads[at].harness_id@, threads[at].id@);
}

/// The words that start an agent in its pane.
pub open spec fn words_of(launch: AgentLaunch<'_>) -> Seq<Seq<char>> {
    launch_words(
        launch.cia_command@,
        launch.harness_id@,
        opt_str(launch.thread_id),
        launch.cwd@,
        launch.title@,
        launch.agent_command@,
        opt_str(launch.session_dir),
    )
}

/// A saved chat is opened in its own directory, and the agent is told its harness and its thread, its
/// directory, its title and the command of the harness.
pub proof fn law_saved_chat_is_gone_on_with(
    launch: AgentLaunch<'_>,
    thread: Thread,
    harness: Harness,
    config: TmuxConfig,
    canonical: CanonicalPaths,
)
    requires
        goes_on_with(launch, thread),
        runs(launch, harness),
    ensures
        gives(words_of(launch), "--harness-id"@, harness.id@),
        gives(words_of(launch), "--thread-id"@, thread.id@),
        gives(words_of(launch), "--cwd-hex"@, encoded(thread.cwd@)),
        gives(words_of(launch), "--title-hex"@, encoded(thread.shown_title())),
        gives(words_of(launch), "--agent-command-hex"@, encoded(harness.command@)),
        pane_arguments(config, launch.inventory@, launch.cwd@, canonical)[7] == "-c"@,
        pane_arguments(config, launch.inventory@, launch.cwd@, canonical)[8] == thread.cwd@,
{
    let words = words_of(launch);
    assert(words[2] == "--harness-id"@ && words[3] == harness.id@);
    assert(words[4] == "--thread-id"@ && words[5] == thread.id@);
    assert(words[6] == "--cwd-hex"@ && words[7] == encoded(thread.cwd@));
    assert(words[8] == "--title-hex"@ && words[9] == encoded(thread.shown_title()));
    assert(words[10] == "--agent-command-hex"@ && words[11] == encoded(harness.command@));
    law_new_pane(config, launch.inventory@, launch.cwd@, canonical);
}

/// A new chat is opened in the directory of its project, and the agent is told its title, and no thread.
pub proof fn law_new_chat_begins_anew(
    launch: AgentLaunch<'_>,
    cwd: Seq<char>,
    title: Seq<char>,
    harness: Harness,
    config: TmuxConfig,
    canonical: CanonicalPaths,
)
    requires
        begins_anew(launch, cwd, title),
        runs(launch, harness),
    ensures
        gives(words_of(launch), "--harness-id"@, harness.id@),
        words_of(launch)[4] == "--cwd-hex"@,
        gives(words_of(launch), "--cwd-hex"@, encoded(cwd)),
        gives(words_of(launch), "--title-hex"@, encoded(title)),
        gives(words_of(launch), "--agent-command-hex"@, encoded(harness.command@)),
        pane_arguments(config, launch.inventory@, launch.cwd@, canonical)[7] == "-c"@,
        pane_arguments(config, launch.inventory@, launch.cwd@, canonical)[8] == cwd,
{
    let words = words_of(launch);
    assert(words[2] == "--harness-id"@ && words[3] == harness.id@);
    assert(words[4] == "--cwd-hex"@ && words[5] == encoded(cwd));
    assert(words[6] == "--title-hex"@ && words[7] == encoded(title));
    assert(words[8] == "--agent-command-hex"@ && words[9] == encoded(harness.command@));
    law_new_pane(config, launch.inventory@, launch.cwd@, canonical);
}

/// Each session file that names a chat makes one, which knows its file and is archived or not as the
/// list is.
pub proof fn law_every_session_is_listed(
    threads: Seq<Thread>,
    sessions: Seq<(String, Session)>,
    archived: bool,
    k: int,
)
    requires
        are_threads_of(threads, sessions, archived),
        0 <= k < sessions.len(),
        sessions[k].1.id is Some,
    ensures
        exists|at: int|
            0 <= at < threads.len() && opt_text((#[trigger] threads[at]).path) == Some(
                sessions[k].0@,
            ) && threads[at].id@ == sessions[k].1.id->0@ && threads[at].archived == archived,
    decreases sessions.len(),
{
    let rest = sessions.drop_last();
    if sessions.last().1.id is None {
        assert(rest[k] == sessions[k]);
        law_every_session_is_listed(threads, rest, archived, k);
    } else {
        let before = threads.drop_last();
        if k == rest.len() {
            assert(threads[threads.len() - 1] == threads.last());
            assert(sessions[k] == sessions.last());
        } else {
            assert(rest[k] == sessions[k]);
            law_every_session_is_listed(before, rest, archived, k);
            let at = choose|at: int|
                0 <= at < before.len() && opt_text((#[trigger] before[at]).path) == Some(
                    rest[k].0@,
                ) && before[at].id@ == rest[k].1.id->0@ && before[at].archived == archived;
            assert(threads[at] == before[at]);
        }
    }
}

/// A name that is free is taken as it is; where it is not, the least number is put behind it with which
/// it is.
pub proof fn law_free_name(base: Seq<char>, existing: Seq<Seq<char>>)
    ensures
        !existing.contains(base) ==> free_name(base, existing) == base,
        existing.contains(base) ==> exists|number: nat|
            number >= 2 && free_name(base, existing) == #[trigger] numbered(base, number) && forall|
                lower: nat,
            | 2 <= lower < number ==> existing.contains(#[trigger] numbered(base, lower)),
        !existing.contains(free_name(base, existing)),
{
    law_free_name_is_free(base, existing);
    if existing.contains(base) {
        lemma_some_free(base, existing, 0);
        let number = choose|number: nat| is_first_free(base, existing, number);
        assert(free_name(base, existing) == numbered(base, number));
    }
}

/// What is handed to an agent's pane is refused if and only if a part of it cannot be read, or no command
/// is there. A command under its name counts before one under the older name.
pub proof fn law_refused(arguments: RunArguments)
    ensures
        refusal(arguments) is None <==> decoded(arguments.cwd_hex@) is Ok && decoded(
            arguments.title_hex@,
        ) is Ok && given_command(arguments) is Some && decoded(given_command(arguments)->0) is Ok
            && (arguments.session_dir_hex is Some ==> decoded(arguments.session_dir_hex->0@) is Ok),
        arguments.agent_command_hex is Some ==> given_command(arguments) == Some(
            arguments.agent_command_hex->0@,
        ),
        arguments.agent_command_hex is None ==> given_command(arguments) == opt_text(
            arguments.codex_command_hex,
        ),
{
}

/// Variables are replaced in each command, in each command of agents, in the directory of sessions and
/// in what windows are named; switches and numbers stay.
pub proof fn law_settings_are_expanded(before: Config, after: Config, env: Environment, k: int)
    requires
        is_expanded_config(before, after, env),
    ensures
        after.codex.command@ == expanded(before.codex.command@, env),
        after.pi.command@ == expanded(before.pi.command@, env),
        after.claude.command@ == expanded(before.claude.command@, env),
        after.cursor.command@ == expanded(before.cursor.command@, env),
        after.opencode.command@ == expanded(before.opencode.command@, env),
        after.tmux.command@ == expanded(before.tmux.command@, env),
        after.tmux.new_window_prefix@ == expanded(before.tmux.new_window_prefix@, env),
        after.ui.default_harness@ == expanded(before.ui.default_harness@, env),
        before.pi.session_dir is Some ==> after.pi.session_dir is Some
            && after.pi.session_dir->0@ == expanded(before.pi.session_dir->0@, env),
        before.pi.session_dir is None ==> after.pi.session_dir is None,
        after.tmux.agent_commands@.len() == before.tmux.agent_commands@.len(),
        0 <= k < before.tmux.agent_commands@.len() ==> after.tmux.agent_commands@[k]@ == expanded(
            before.tmux.agent_commands@[k]@,
            env,
        ),
        after.tmux.agent_window_names@.len() == before.tmux.agent_window_names@.len(),
        0 <= k < before.tmux.agent_window_names@.len() ==> after.tmux.agent_window_names@[k]@
            == expanded(before.tmux.agent_window_names@[k]@, env),
        after.theme.error@ == expanded(before.theme.error@, env),
        after.codex.transcript_turns == before.codex.transcript_turns,
        after.pi.enabled == before.pi.enabled,
        after.claude.enabled == before.claude.enabled,
        after.cursor.enabled == before.cursor.enabled,
        after.opencode.enabled == before.opencode.enabled,
        after.ui.archived_default == before.ui.archived_default,
{
    let commands = texts(after.tmux.agent_commands@);
    let names = texts(after.tmux.agent_window_names@);
    assert(commands.len() == before.tmux.agent_commands@.len());
    assert(names.len() == before.tmux.agent_window_names@.len());
    if 0 <= k < before.tmux.agent_commands@.len() {
        assert(commands[k] == after.tmux.agent_commands@[k]@);
    }
    if 0 <= k < before.tmux.agent_window_names@.len() {
        assert(names[k] == after.tmux.agent_window_names@[k]@);
    }
}

} // verus!

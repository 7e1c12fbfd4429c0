//! What is asked for before a chat or a project is begun, and with what an agent is then started.
use vstd::prelude::*;
use vstd::string::*;

use crate::actions::{asking_chat, asking_project, chat_submitted, harness_chosen, harness_moved,
    project_submitted};
use crate::agent::{Harness, HarnessKind, Thread, CODEX_HARNESS_ID, PI_HARNESS_ID};
use crate::app::{AppView, EffectView};
use crate::config::Environment;
use crate::launch::{arguments_for, is_harness_at, kind_of, marked_pane, named_thread, rename_steps,
    resumed, run_marks, session_dir_for, start_failures, started, wanted_test};
use crate::moving::law_step;
use crate::opening::law_harness_is_found;
use crate::text::{opt_text, trimmed};
use crate::tmux::{pane_marks, start_marks, title_marks, CanonicalPaths, StepView, Window};
use crate::userpath::project_directory;

verus! {

/// A new chat is begun without a name, with the harness that is the usual one selected, where it is
/// there, and the first one elsewhere. A harness is asked for where there are several.
pub proof fn law_new_chat_is_begun(app: AppView, at: int)
    ensures
        ({
            let begun = asking_chat(app);
            &&& begun == (AppView {
                new_chat_mode: true,
                new_chat_name: Seq::empty(),
                new_chat_harness_error: None,
                new_chat_picking_harness: app.harnesses.len() > 1,
                new_chat_harness_index: begun.new_chat_harness_index,
                ..app
            })
            &&& is_harness_at(app.harnesses, app.config.ui.default_harness@, at)
                ==> begun.new_chat_harness_index == at
            &&& (forall|k: int|
                0 <= k < app.harnesses.len() ==> (#[trigger] app.harnesses[k]).id@
                    != app.config.ui.default_harness@) ==> begun.new_chat_harness_index == 0
            &&& asking_project(app) == (AppView {
                new_project_mode: true,
                new_project_path: Seq::empty(),
                ..app
            })
        }),
{
    reveal(asking_chat);
    reveal(asking_project);
    law_harness_is_found(app.harnesses, app.config.ui.default_harness@);
}

/// A harness is taken for a new chat if and only if its command was found; otherwise it is said
/// which command is missing, and the harness is asked for as before.
pub proof fn law_harness_is_taken(app: AppView)
    requires
        0 <= app.new_chat_harness_index < app.harnesses.len(),
    ensures
        ({
            let harness = app.harnesses[app.new_chat_harness_index];
            let chosen = harness_chosen(app);
            &&& harness.command_path is Some ==> chosen == (AppView {
                new_chat_picking_harness: false,
                new_chat_harness_error: None,
                ..app
            })
            &&& harness.command_path is None ==> chosen == (AppView {
                new_chat_harness_error: Some(
                    harness.label@ + " cli tool not found - check install in $PATH"@,
                ),
                ..app
            })
        }),
{
    reveal(harness_chosen);
}

/// The selected harness of a new chat moves along those that there are, round and round.
pub proof fn law_harness_goes_round(app: AppView)
    requires
        0 <= app.new_chat_harness_index < app.harnesses.len(),
    ensures
        harness_moved(app, 1) == (AppView {
            new_chat_harness_index: if app.new_chat_harness_index + 1 < app.harnesses.len() {
                app.new_chat_harness_index + 1
            } else {
                0
            },
            new_chat_harness_error: None,
            ..app
        }),
        harness_moved(app, -1) == (AppView {
            new_chat_harness_index: if app.new_chat_harness_index > 0 {
                app.new_chat_harness_index - 1
            } else {
                app.harnesses.len() - 1
            },
            new_chat_harness_error: None,
            ..app
        }),
{
    reveal(harness_moved);
    law_step(app.new_chat_harness_index, app.harnesses.len() as int);
}

/// A chat is opened for a name if and only if the name is not blank, the command of the selected
/// harness was found, and no chat of this harness in the selected project has the name already. It
/// is opened in the project, under the name without blanks around it.
pub proof fn law_new_chat_is_opened(app: AppView)
    requires
        0 <= app.project_index < app.projects.len(),
        0 <= app.new_chat_harness_index < app.harnesses.len(),
    ensures
        ({
            let done = chat_submitted(app);
            let project = app.projects[app.project_index];
            let harness = app.harnesses[app.new_chat_harness_index];
            let title = trimmed(app.new_chat_name);
            &&& title.len() > 0 && harness.command_path is Some && (forall|k: int|
                0 <= k < project.threads.len() && (#[trigger] project.threads[k]).harness_id@
                    == harness.id@ ==> opt_text(project.threads[k].name) != Some(title))
                ==> done.app == app && done.effects == seq![
                EffectView::OpenChat {
                    cwd: project.cwd,
                    title,
                    harness: app.new_chat_harness_index,
                },
            ]
            &&& title.len() == 0 || harness.command_path is None || (exists|k: int|
                0 <= k < project.threads.len() && (#[trigger] project.threads[k]).harness_id@
                    == harness.id@ && opt_text(project.threads[k].name) == Some(title))
                ==> done.effects.len() == 0
            &&& done.app.state == app.state && done.app.projects == app.projects
            &&& done.app.new_chat_name == app.new_chat_name && done.app.new_chat_mode
                == app.new_chat_mode
            &&& title.len() == 0 ==> done.app.status == "Chat name cannot be empty"@
        }),
{
    reveal(chat_submitted);
}

/// A project is made of a path if and only if the path is not blank, and of the path without blanks
/// around it.
pub proof fn law_new_project_is_made(app: AppView, env: Environment)
    ensures
        ({
            let done = project_submitted(app, env);
            let path = trimmed(app.new_project_path);
            &&& path.len() > 0 ==> done.app == app && done.effects == seq![
                EffectView::CreateProject(project_directory(path, env)),
            ]
            &&& path.len() == 0 ==> done.effects.len() == 0 && done.app == (AppView {
                status: "Project path cannot be empty"@,
                ..app
            })
        }),
{
    reveal(project_submitted);
}

/// A harness that cannot be started takes no other away: each one that could be started is there,
/// and each failure is told of, in their order.
pub proof fn law_harnesses_are_started(
    left: Seq<Result<Harness, String>>,
    right: Seq<Result<Harness, String>>,
    harness: Harness,
    message: String,
)
    ensures
        started(left + right) == started(left) + started(right),
        start_failures(left + right) == start_failures(left) + start_failures(right),
        started(seq![Ok(harness)]) == seq![harness],
        started(seq![Err(message)]) == Seq::<Harness>::empty(),
        start_failures(seq![Err(message)]) == seq![message@],
        start_failures(seq![Ok(harness)]) == Seq::<Seq<char>>::empty(),
    decreases right.len(),
{
    reveal_with_fuel(started, 2);
    reveal_with_fuel(start_failures, 2);
    let good: Seq<Result<Harness, String>> = seq![Ok(harness)];
    let bad: Seq<Result<Harness, String>> = seq![Err(message)];
    assert(good.drop_last().len() == 0 && bad.drop_last().len() == 0);
    assert(started(good) =~= seq![harness]);
    assert(start_failures(bad) =~= seq![message@]);
    if right.len() == 0 {
        assert(left + right =~= left);
        assert(started(left) + started(right) =~= started(left));
        assert(start_failures(left) + start_failures(right) =~= start_failures(left));
    } else {
        law_harnesses_are_started(left, right.drop_last(), harness, message);
        assert((left + right).drop_last() =~= left + right.drop_last());
        assert((left + right).last() == right.last());
        assert(started(left + right) =~= started(left) + started(right));
        assert(start_failures(left + right) =~= start_failures(left) + start_failures(right));
    }
}

/// Of all harnesses, all are taken where all are asked for, and elsewhere those with the identifier
/// that is asked for.
pub proof fn law_wanted_harnesses(harnesses: Seq<Harness>, wanted: Seq<char>)
    ensures
        forall|harness: Harness| #[trigger]
            harnesses.filter(wanted_test(wanted)).contains(harness) <==> harnesses.contains(harness)
                && (wanted == "all"@ || harness.id@ == wanted),
    decreases harnesses.len(),
{
    reveal(Seq::filter);
    let test = wanted_test(wanted);
    let kept = harnesses.filter(test);
    if harnesses.len() > 0 {
        let rest = harnesses.drop_last();
        law_wanted_harnesses(rest, wanted);
        assert(harnesses =~= rest.push(harnesses.last()));
        assert forall|harness: Harness| #[trigger] kept.contains(harness) <==> harnesses.contains(
            harness,
        ) && (wanted == "all"@ || harness.id@ == wanted) by {
            assert(rest.filter(test).contains(harness) <==> rest.contains(harness) && (wanted
                == "all"@ || harness.id@ == wanted));
            lemma_pushed(rest, harnesses.last(), harness);
            lemma_pushed(rest.filter(test), harnesses.last(), harness);
        }
    }
}

pub(crate) proof fn lemma_pushed<A>(list: Seq<A>, last: A, one: A)
    ensures
        list.push(last).contains(one) <==> list.contains(one) || one == last,
{
    let all = list.push(last);
    if all.contains(one) && one != last {
        let k = choose|k: int| 0 <= k < all.len() && all[k] == one;
        assert(list[k] == one);
    }
    if list.contains(one) {
        let k = choose|k: int| 0 <= k < list.len() && list[k] == one;
        assert(all[k] == one);
    }
    assert(all[list.len() as int] == last);
}

/// Whether a pane is marked with a thread of a harness.
pub open spec fn is_marked(window: Window, harness_id: Seq<char>, thread_id: Seq<char>) -> bool {
    opt_text(window.harness_id) == Some(harness_id) && opt_text(window.thread_id) == Some(thread_id)
}

/// The pane of a chat is the first one that is marked with both its harness and its thread; none is
/// found only where there is none.
pub proof fn law_marked_pane(windows: Seq<Window>, harness_id: Seq<char>, thread_id: Seq<char>)
    ensures
        match marked_pane(windows, harness_id, thread_id) {
            Some(window) => exists|at: int|
                0 <= at < windows.len() && #[trigger] windows[at] == window && is_marked(
                    window,
                    harness_id,
                    thread_id,
                ) && forall|k: int|
                    0 <= k < at ==> !is_marked(#[trigger] windows[k], harness_id, thread_id),
            None => forall|k: int|
                0 <= k < windows.len() ==> !is_marked(
                    #[trigger] windows[k],
                    harness_id,
                    thread_id,
                ),
        },
    decreases windows.len(),
{
    if windows.len() > 0 && !is_marked(windows[0], harness_id, thread_id) {
        let rest = windows.skip(1);
        law_marked_pane(rest, harness_id, thread_id);
        assert forall|k: int| 0 < k < windows.len() implies #[trigger] windows[k] == rest[k - 1] by {}
        match marked_pane(windows, harness_id, thread_id) {
            Some(window) => {
                let at = choose|at: int|
                    0 <= at < rest.len() && #[trigger] rest[at] == window && is_marked(
                        window,
                        harness_id,
                        thread_id,
                    ) && forall|k: int|
                        0 <= k < at ==> !is_marked(#[trigger] rest[k], harness_id, thread_id);
                assert(windows[at + 1] == window);
                assert forall|k: int| 0 <= k < at + 1 implies !is_marked(
                    #[trigger] windows[k],
                    harness_id,
                    thread_id,
                ) by {
                    if k > 0 {
                        assert(windows[k] == rest[k - 1]);
                    }
                }
            },
            None => {},
        }
    } else if windows.len() > 0 {
        assert(windows[0] == marked_pane(windows, harness_id, thread_id)->0);
    }
}

/// Whether a chat has a name and was held in a directory.
pub open spec fn is_named(
    thread: Thread,
    title: Seq<char>,
    cwd: Seq<char>,
    canonical: CanonicalPaths,
) -> bool {
    opt_text(thread.name) == Some(title) && canonical.normal(thread.cwd@) == canonical.normal(cwd)
}

/// The chat that a new one of the same name and directory goes on with is the first such one; none
/// is found only where there is none.
pub proof fn law_named_thread(
    threads: Seq<Thread>,
    title: Seq<char>,
    cwd: Seq<char>,
    canonical: CanonicalPaths,
)
    ensures
        match named_thread(threads, title, cwd, canonical) {
            Some(id) => exists|at: int|
                0 <= at < threads.len() && (#[trigger] threads[at]).id@ == id && is_named(
                    threads[at],
                    title,
                    cwd,
                    canonical,
                ) && forall|k: int|
                    0 <= k < at ==> !is_named(#[trigger] threads[k], title, cwd, canonical),
            None => forall|k: int|
                0 <= k < threads.len() ==> !is_named(#[trigger] threads[k], title, cwd, canonical),
        },
    decreases threads.len(),
{
    if threads.len() > 0 && !is_named(threads[0], title, cwd, canonical) {
        let rest = threads.skip(1);
        law_named_thread(rest, title, cwd, canonical);
        assert forall|k: int| 0 < k < threads.len() implies #[trigger] threads[k] == rest[k - 1] by {}
        match named_thread(threads, title, cwd, canonical) {
            Some(id) => {
                let at = choose|at: int|
                    0 <= at < rest.len() && (#[trigger] rest[at]).id@ == id && is_named(
                        rest[at],
                        title,
                        cwd,
                        canonical,
                    ) && forall|k: int|
                        0 <= k < at ==> !is_named(#[trigger] rest[k], title, cwd, canonical);
                assert(threads[at + 1].id@ == id);
                assert forall|k: int| 0 <= k < at + 1 implies !is_named(
                    #[trigger] threads[k],
                    title,
                    cwd,
                    canonical,
                ) by {
                    if k > 0 {
                        assert(threads[k] == rest[k - 1]);
                    }
                }
            },
            None => {},
        }
    } else if threads.len() > 0 {
        assert(threads[0].id@ == named_thread(threads, title, cwd, canonical)->0);
    }
}

/// Whether a value is given for an option in a list of arguments.
pub open spec fn gives(arguments: Seq<Seq<char>>, option: Seq<char>, value: Seq<char>) -> bool {
    exists|k: int|
        0 <= k < arguments.len() - 1 && #[trigger] arguments[k] == option && arguments[k + 1]
            == value
}

/// An agent is told the chat that it goes on with, the directory where it needs it, and the name of a
/// chat that is new, as far as its kind takes them.
pub proof fn law_agent_is_told(
    resume_id: Option<Seq<char>>,
    cwd: Seq<char>,
    title: Seq<char>,
    session_dir: Option<Seq<char>>,
)
    ensures
        ({
            let codex = arguments_for(HarnessKind::Codex, resume_id, cwd, title, session_dir);
            let pi = arguments_for(HarnessKind::Pi, resume_id, cwd, title, session_dir);
            &&& gives(codex, "-C"@, cwd)
            &&& resume_id is Some ==> gives(codex, "resume"@, resume_id->0) && codex[0]
                == "resume"@ && codex.len() == 4
            &&& resume_id is None ==> codex.len() == 2
            &&& resume_id is Some ==> gives(pi, "--session"@, resume_id->0)
            &&& resume_id is None ==> gives(pi, "--name"@, title)
            &&& session_dir is Some ==> gives(pi, "--session-dir"@, session_dir->0) && pi.len() == 4
            &&& session_dir is None ==> pi.len() == 2
            &&& arguments_for(HarnessKind::Basic, resume_id, cwd, title, session_dir).len() == 0
        }),
{
    let codex = arguments_for(HarnessKind::Codex, resume_id, cwd, title, session_dir);
    let pi = arguments_for(HarnessKind::Pi, resume_id, cwd, title, session_dir);
    if resume_id is Some {
        assert(codex[0] == "resume"@ && codex[1] == resume_id->0);
        assert(codex[2] == "-C"@ && codex[3] == cwd);
        assert(pi[0] == "--session"@ && pi[1] == resume_id->0);
    } else {
        assert(codex[0] == "-C"@ && codex[1] == cwd);
        assert(pi[0] == "--name"@ && pi[1] == title);
    }
    if session_dir is Some {
        assert(pi[2] == "--session-dir"@ && pi[3] == session_dir->0);
    }
}

/// The kinds of harnesses go by their identifiers, and only Pi is given a directory of sessions.
pub proof fn law_kinds(config: crate::config::Config, id: Seq<char>)
    ensures
        kind_of(id) is Codex <==> id == CODEX_HARNESS_ID@,
        kind_of(id) is Pi <==> id == PI_HARNESS_ID@,
        session_dir_for(config, id) is Some ==> kind_of(id) is Pi && session_dir_for(config, id)
            == opt_text(config.pi.session_dir),
        kind_of(id) is Pi ==> session_dir_for(config, id) == opt_text(config.pi.session_dir),
{
    reveal_strlit("codex");
    reveal_strlit("pi");
    assert(CODEX_HARNESS_ID@.len() == 5 && PI_HARNESS_ID@.len() == 2);
}

/// An agent goes on with the chat that it was started for, whatever else was found, and with one
/// that was found only where it was started for none.
pub proof fn law_resumed(thread_id: Option<Seq<char>>, existing: Option<Seq<char>>)
    ensures
        thread_id is Some ==> resumed(thread_id, existing) == thread_id,
        thread_id is None ==> resumed(thread_id, existing) == existing,
{
}

/// The value that commands leave in an option of a pane, where they set it.
pub open spec fn option_left(
    done: Seq<Seq<Seq<char>>>,
    pane_id: Seq<char>,
    option: Seq<char>,
) -> Option<Seq<char>>
    decreases done.len(),
{
    if done.len() == 0 {
        None
    } else if done.last().len() == 6 && done.last().take(5) == seq![
        "set-option"@,
        "-p"@,
        "-t"@,
        pane_id,
        option,
    ] {
        Some(done.last()[5])
    } else {
        option_left(done.drop_last(), pane_id, option)
    }
}

/// The marks that a pane is left with name the harness and the title of its chat, and its thread
/// where there is one already.
pub proof fn law_marks(
    pane_id: Seq<char>,
    harness_id: Seq<char>,
    thread_id: Seq<char>,
    title: Seq<char>,
)
    ensures
        ({
            let some = title_marks(pane_id, harness_id, title);
            let all = pane_marks(pane_id, harness_id, thread_id, title);
            &&& option_left(some, pane_id, "@cia_harness"@) == Some(harness_id)
            &&& option_left(some, pane_id, "@cia_chat_title"@) == Some(title)
            &&& option_left(some, pane_id, "@cia_thread_id"@) is None
            &&& option_left(all, pane_id, "@cia_harness"@) == Some(harness_id)
            &&& option_left(all, pane_id, "@cia_chat_title"@) == Some(title)
            &&& option_left(all, pane_id, "@cia_thread_id"@) == Some(thread_id)
        }),
{
    reveal_with_fuel(option_left, 6);
    reveal_strlit("@cia_harness");
    reveal_strlit("@cia_chat_title");
    reveal_strlit("@cia_thread_id");
    let harness = seq!["set-option"@, "-p"@, "-t"@, pane_id, "@cia_harness"@, harness_id];
    let thread = seq!["set-option"@, "-p"@, "-t"@, pane_id, "@cia_thread_id"@, thread_id];
    let titled = seq!["set-option"@, "-p"@, "-t"@, pane_id, "@cia_chat_title"@, title];
    let named = seq!["select-pane"@, "-t"@, pane_id, "-T"@, title];
    let some = title_marks(pane_id, harness_id, title);
    let all = pane_marks(pane_id, harness_id, thread_id, title);
    assert("@cia_harness"@.len() == 12 && "@cia_chat_title"@.len() == 15 && "@cia_thread_id"@.len()
        == 14);
    assert(harness.take(5) =~= seq!["set-option"@, "-p"@, "-t"@, pane_id, "@cia_harness"@]);
    assert(thread.take(5) =~= seq!["set-option"@, "-p"@, "-t"@, pane_id, "@cia_thread_id"@]);
    assert(titled.take(5) =~= seq!["set-option"@, "-p"@, "-t"@, pane_id, "@cia_chat_title"@]);
    let at_harness = seq!["set-option"@, "-p"@, "-t"@, pane_id, "@cia_harness"@];
    let at_thread = seq!["set-option"@, "-p"@, "-t"@, pane_id, "@cia_thread_id"@];
    let at_title = seq!["set-option"@, "-p"@, "-t"@, pane_id, "@cia_chat_title"@];
    assert(at_harness[4] != at_thread[4] && at_harness[4] != at_title[4] && at_thread[4]
        != at_title[4]);
    assert(some.drop_last() =~= seq![harness, titled]);
    assert(seq![harness, titled].drop_last() =~= seq![harness]);
    assert(seq![harness].drop_last() =~= Seq::<Seq<Seq<char>>>::empty());
    assert(all =~= seq![harness, thread, harness, titled, named]);
    assert(all.drop_last() =~= seq![harness, thread, harness, titled]);
    assert(seq![harness, thread, harness, titled].drop_last() =~= seq![harness, thread, harness]);
    assert(seq![harness, thread, harness].drop_last() =~= seq![harness, thread]);
    assert(seq![harness, thread].drop_last() =~= seq![harness]);
}

/// A pane is marked before the agent's command is typed into it and entered, and with the thread
/// where there is one.
pub proof fn law_agent_is_typed(
    pane_id: Seq<char>,
    harness_id: Seq<char>,
    thread_id: Option<Seq<char>>,
    title: Seq<char>,
    command: Seq<char>,
)
    ensures
        ({
            let done = start_marks(pane_id, harness_id, thread_id, title, command);
            let count = done.len();
            &&& count >= 2
            &&& done[count - 2] == seq!["send-keys"@, "-t"@, pane_id, "-l"@, command]
            &&& done[count - 1] == seq!["send-keys"@, "-t"@, pane_id, "Enter"@]
            &&& done.take(count - 2) == run_marks(Some(pane_id), harness_id, thread_id, title)
        }),
{
    let done = start_marks(pane_id, harness_id, thread_id, title, command);
    assert(done.take(done.len() - 2) =~= run_marks(Some(pane_id), harness_id, thread_id, title));
}

/// Only a chat that is new to Codex and runs in a pane is renamed: first the command is typed into
/// that pane, then its title, each followed by Enter.
pub proof fn law_renaming(
    pane_id: Option<Seq<char>>,
    kind: HarnessKind,
    resume_id: Option<Seq<char>>,
    title: Seq<char>,
)
    ensures
        ({
            let steps = rename_steps(pane_id, kind, resume_id, title);
            let keys = steps.filter(|step: StepView| step is Run);
            &&& steps.len() > 0 <==> kind is Codex && resume_id is None && pane_id is Some
            &&& steps.len() > 0 ==> keys == seq![
                StepView::Run(seq!["send-keys"@, "-t"@, pane_id->0, "-l"@, "/rename"@]),
                StepView::Run(seq!["send-keys"@, "-t"@, pane_id->0, "Enter"@]),
                StepView::Run(seq!["send-keys"@, "-t"@, pane_id->0, "-l"@, title]),
                StepView::Run(seq!["send-keys"@, "-t"@, pane_id->0, "Enter"@]),
            ]
        }),
{
    reveal_with_fuel(Seq::filter, 8);
    let steps = rename_steps(pane_id, kind, resume_id, title);
    let run = |step: StepView| step is Run;
    if steps.len() > 0 {
        let one = steps.drop_last();
        let two = one.drop_last();
        let three = two.drop_last();
        let four = three.drop_last();
        let five = four.drop_last();
        let six = five.drop_last();
        assert(six.drop_last() =~= Seq::<StepView>::empty());
        assert(six.filter(run) =~= Seq::<StepView>::empty());
        assert(five.filter(run) =~= seq![steps[1]]);
        assert(four.filter(run) =~= seq![steps[1], steps[2]]);
        assert(three.filter(run) =~= seq![steps[1], steps[2]]);
        assert(two.filter(run) =~= seq![steps[1], steps[2], steps[4]]);
        assert(one.filter(run) =~= seq![steps[1], steps[2], steps[4]]);
        assert(steps.filter(run) =~= seq![steps[1], steps[2], steps[4], steps[6]]);
    }
}

} // verus!

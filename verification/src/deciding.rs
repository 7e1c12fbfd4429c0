//! What is decided by keys and clicks: what is asked before something goes, and what a yes or a no
//! leads to.
use vstd::prelude::*;

use crate::actions::{activated, archived, asking_chat, asking_delete, asking_project,
    chat_submitted, delete_answered, delete_confirmed, opened, previewed, project_submitted,
    searched, status_action_done, toggled, with_boundary, Outcome};
use crate::agent::Thread;
use crate::app::{AppView, DeleteChoice, EffectView, Focus, PromptView, StatusAction, TargetView};
use crate::config::Environment;
use crate::geometry::Rect;
use crate::keys::{answer_moved, command_of, delete_move, on_browse_key, on_chat_key, on_command,
    on_delete_key, on_harness_key, on_key, on_movement, on_project_key, on_search_key, usual_answer,
    with_answer, Command, DeleteMove, Key, KeyCode};
use crate::layout::PaneAreas;
use crate::model::Row;
use crate::mouse::{on_click, on_harness_click, on_pane_click, on_project_click, on_prompt_click,
    on_row_click, on_status_click};
use crate::opening::is_idle;
use crate::state::{law_hidden_project, law_thread_is_set};

verus! {

/// Whether an effect takes something from the disk.
pub open spec fn removes(effect: EffectView) -> bool {
    effect is RemoveProject || effect is DeleteChat
}

/// The question before something goes is about what is selected: the selected project where the keys
/// go to the projects, the selected chat elsewhere. The answer that is selected first is no, and
/// nothing else changes. Where nothing of the kind is selected, nothing is asked.
pub proof fn law_question_is_about_the_selection(app: AppView)
    ensures
        ({
            let asked = asking_delete(app);
            &&& app.focus is Projects && 0 <= app.project_index < app.projects.len() ==> asked == (
            AppView {
                delete_prompt: Some(
                    PromptView {
                        target: TargetView::Project {
                            name: app.projects[app.project_index].name,
                            cwd: app.projects[app.project_index].cwd,
                        },
                        choice: DeleteChoice::No,
                    },
                ),
                ..app
            })
            &&& app.focus is Projects && !(0 <= app.project_index < app.projects.len())
                ==> asked.delete_prompt == app.delete_prompt && asked.state == app.state
                && asked.status == "Select a project first"@
            &&& !(app.focus is Projects) && 0 <= app.row_index < app.rows().len() ==> match app.rows()[app.row_index] {
                Row::Thread { thread, live: _ } => asked == (AppView {
                    delete_prompt: Some(
                        PromptView {
                            target: TargetView::Chat { thread: *thread },
                            choice: DeleteChoice::No,
                        },
                    ),
                    ..app
                }),
                Row::Agent(_) => asked.delete_prompt == app.delete_prompt && asked.state
                    == app.state && asked.status == "Select a saved chat first"@,
            }
            &&& !(app.focus is Projects) && !(0 <= app.row_index < app.rows().len())
                ==> asked.delete_prompt == app.delete_prompt && asked.state == app.state
        }),
{
    reveal(asking_delete);
}

/// What the selected answer leads to: no changes nothing but that the question is gone; to hide a
/// project is remembered and saved, and nothing is removed; to delete removes exactly what the
/// question was about.
pub proof fn law_answer_is_followed(app: AppView, prompt: PromptView)
    requires
        app.delete_prompt == Some(prompt),
    ensures
        ({
            let done = delete_confirmed(app);
            let closed = AppView { delete_prompt: None, ..app };
            &&& done.app.delete_prompt is None
            &&& done.effects.len() == 1
            &&& prompt.choice is No ==> done.app == closed && done.effects[0]
                == EffectView::RefreshView
            &&& match prompt.target {
                TargetView::Project { name: _, cwd } => {
                    &&& prompt.choice is Hide ==> done.effects[0] == EffectView::SaveAndRefresh
                        && done.app.state.hidden_project_paths.contains(cwd)
                        && !done.app.state.project_paths.contains(cwd) && done.app.projects
                        == app.projects
                    &&& prompt.choice is Delete ==> done.effects[0] == EffectView::RemoveProject(
                        cwd,
                    ) && done.app == closed
                },
                TargetView::Chat { thread } => {
                    &&& prompt.choice is Hide ==> done.effects[0] == EffectView::RefreshView
                        && done.app == closed
                    &&& prompt.choice is Delete ==> done.effects[0] == EffectView::DeleteChat(
                        thread,
                    ) && done.app == closed
                },
            }
        }),
{
    reveal(delete_confirmed);
    reveal(delete_answered);
    match prompt.target {
        TargetView::Project { name: _, cwd } => {
            law_hidden_project(app.state, cwd, cwd);
        },
        TargetView::Chat { thread: _ } => {},
    }
}

/// While something is asked, keys answer: Esc and n close the question and change nothing; Enter
/// follows the selected answer; y hides a project and deletes a chat; d deletes; the arrows, h and l
/// only select another answer; any other key does nothing.
pub proof fn law_keys_answer(app: AppView, prompt: PromptView, key: Key, env: Environment)
    requires
        app.delete_prompt == Some(prompt),
    ensures
        ({
            let done = on_key(app, key, env);
            let with = |choice: DeleteChoice|
                AppView { delete_prompt: Some(PromptView { choice, ..prompt }), ..app };
            &&& key.code is Esc || key.code == KeyCode::Char('n') || key.code == KeyCode::Char('N')
                ==> done.app == (AppView { delete_prompt: None, ..app }) && done.effects.len() == 0
            &&& key.code is Enter ==> done == delete_confirmed(app)
            &&& key.code == KeyCode::Char('y') || key.code == KeyCode::Char('Y') ==> done
                == delete_confirmed(
                with(
                    if prompt.target is Project {
                        DeleteChoice::Hide
                    } else {
                        DeleteChoice::Delete
                    },
                ),
            )
            &&& key.code == KeyCode::Char('d') || key.code == KeyCode::Char('D') ==> done
                == delete_confirmed(with(DeleteChoice::Delete))
            &&& key.code is Left || key.code is Right || key.code == KeyCode::Char('h') || key.code
                == KeyCode::Char('l') ==> done.effects.len() == 0 && exists|choice: DeleteChoice|
                done.app == #[trigger] with(choice)
            &&& key.code is Up || key.code is Down || key.code is Tab || key.code is BackTab
                || key.code is Backspace ==> done.app == app && done.effects.len() == 0
        }),
{
    reveal(on_key);
    reveal(on_delete_key);
    reveal(with_answer);
    let with = |choice: DeleteChoice|
        AppView { delete_prompt: Some(PromptView { choice, ..prompt }), ..app };
    let back = answer_moved(prompt.choice, prompt.target, -1);
    let forth = answer_moved(prompt.choice, prompt.target, 1);
    assert(with(back) == with_answer(app, back));
    assert(with(forth) == with_answer(app, forth));
}

/// The answers that the arrows go through: no, to hide and to delete for a project, no and to delete
/// for a chat, round and round.
pub proof fn law_arrows_go_through_the_answers(target: TargetView)
    ensures
        target is Project ==> {
            &&& answer_moved(DeleteChoice::No, target, 1) == DeleteChoice::Hide
            &&& answer_moved(DeleteChoice::Hide, target, 1) == DeleteChoice::Delete
            &&& answer_moved(DeleteChoice::Delete, target, 1) == DeleteChoice::No
            &&& answer_moved(DeleteChoice::No, target, -1) == DeleteChoice::Delete
        },
        target is Chat ==> {
            &&& answer_moved(DeleteChoice::No, target, 1) == DeleteChoice::Delete
            &&& answer_moved(DeleteChoice::Delete, target, 1) == DeleteChoice::No
            &&& answer_moved(DeleteChoice::No, target, -1) == DeleteChoice::Delete
        },
{
    reveal(answer_moved);
    assert(1int % 3 == 1 && 2int % 3 == 2 && 3int % 3 == 0 && (-1int) % 3 == 2);
    assert(1int % 2 == 1 && 2int % 2 == 0 && (-1int) % 2 == 1);
}

/// Whether something is led to without taking anything from the disk.
spec fn keeps_all(outcome: Outcome) -> bool {
    forall|k: int| 0 <= k < outcome.effects.len() ==> !removes(#[trigger] outcome.effects[k])
}

proof fn lemma_reading_keeps_all(app: AppView)
    ensures
        keeps_all(previewed(app)),
        keeps_all(activated(app)),
        keeps_all(searched(app)),
{
    assert forall|any: AppView| keeps_all(#[trigger] previewed(any)) by {
        reveal(previewed);
    }
    assert(keeps_all(activated(app))) by {
        reveal(activated);
        reveal(opened);
    }
    assert(keeps_all(searched(app))) by {
        reveal(searched);
    }
}

proof fn lemma_acting_keeps_all(app: AppView, action: StatusAction)
    ensures
        keeps_all(status_action_done(app, action)),
{
    lemma_reading_keeps_all(app);
    reveal(status_action_done);
    assert(keeps_all(toggled(app))) by {
        reveal(toggled);
    }
    assert forall|to: bool| keeps_all(#[trigger] archived(app, to)) by {
        reveal(archived);
    }
}

proof fn lemma_moving_keeps_all(app: AppView, command: Command)
    ensures
        keeps_all(on_movement(app, command)),
{
    assert forall|any: AppView| keeps_all(#[trigger] previewed(any)) by {
        lemma_reading_keeps_all(any);
    }
    reveal(on_movement);
}

proof fn lemma_browsing_keeps_all(app: AppView, key: Key)
    ensures
        keeps_all(on_browse_key(app, key)),
{
    let settled = AppView { pending_g: false, ..app };
    lemma_reading_keeps_all(with_boundary(settled, false));
    lemma_moving_keeps_all(settled, command_of(key));
    match command_of(key) {
        Command::Act(action) => {
            lemma_acting_keeps_all(settled, action);
        },
        _ => {},
    }
    assert(keeps_all(on_command(settled, command_of(key)))) by {
        reveal(on_command);
    }
    reveal(on_browse_key);
}

proof fn lemma_typing_keeps_all(app: AppView, key: Key, env: Environment)
    ensures
        keeps_all(on_project_key(app, key, env)),
        keeps_all(on_harness_key(app, key)),
        keeps_all(on_chat_key(app, key)),
        keeps_all(on_search_key(app, key)),
{
    assert(keeps_all(on_project_key(app, key, env))) by {
        reveal(on_project_key);
        reveal(project_submitted);
    }
    assert(keeps_all(on_harness_key(app, key))) by {
        reveal(on_harness_key);
    }
    assert(keeps_all(on_chat_key(app, key))) by {
        reveal(on_chat_key);
        reveal(chat_submitted);
    }
    assert(keeps_all(on_search_key(app, key))) by {
        assert forall|any: AppView| keeps_all(#[trigger] searched(any)) by {
            lemma_reading_keeps_all(any);
        }
        reveal(on_search_key);
    }
}

/// What an answer takes from the disk.
spec fn taken(prompt: PromptView) -> Option<EffectView> {
    if prompt.choice is Delete {
        match prompt.target {
            TargetView::Project { name: _, cwd } => Some(EffectView::RemoveProject(cwd)),
            TargetView::Chat { thread } => Some(EffectView::DeleteChat(thread)),
        }
    } else {
        None
    }
}

proof fn lemma_taken(app: AppView, prompt: PromptView, k: int)
    requires
        app.delete_prompt == Some(prompt),
        0 <= k < delete_confirmed(app).effects.len(),
        removes(delete_confirmed(app).effects[k]),
    ensures
        taken(prompt) == Some(delete_confirmed(app).effects[k]),
{
    reveal(delete_confirmed);
    reveal(delete_answered);
}

proof fn lemma_removal_is_answered(app: AppView, prompt: PromptView, code: KeyCode, k: int)
    requires
        app.delete_prompt == Some(prompt),
        0 <= k < on_delete_key(app, prompt, code).effects.len(),
        removes(on_delete_key(app, prompt, code).effects[k]),
    ensures
        taken(PromptView { choice: DeleteChoice::Delete, ..prompt }) == Some(
            on_delete_key(app, prompt, code).effects[k],
        ),
        code == KeyCode::Char('d') || code == KeyCode::Char('D') || (code is Enter && prompt.choice
            is Delete) || (prompt.target is Chat && (code == KeyCode::Char('y') || code
            == KeyCode::Char('Y'))),
{
    let back = answer_moved(prompt.choice, prompt.target, -1);
    let forth = answer_moved(prompt.choice, prompt.target, 1);
    reveal(on_delete_key);
    match delete_move(code, back, forth, usual_answer(prompt.target)) {
        DeleteMove::Confirm => {
            lemma_taken(app, prompt, k);
        },
        DeleteMove::Answer(choice) => {
            assert(with_answer(app, choice).delete_prompt == Some(PromptView { choice, ..prompt }))
                by {
                reveal(with_answer);
            }
            lemma_taken(with_answer(app, choice), PromptView { choice, ..prompt }, k);
        },
        _ => {},
    }
}

/// Nothing is removed unasked: where a key leads to the removal of something, a question about it was
/// open, and the key said to delete it, or to follow the selected answer, which was to delete it, or,
/// for a chat alone, said yes.
pub proof fn law_nothing_is_removed_unasked(app: AppView, key: Key, env: Environment, k: int)
    requires
        0 <= k < on_key(app, key, env).effects.len(),
        removes(on_key(app, key, env).effects[k]),
    ensures
        app.delete_prompt matches Some(prompt) && {
            &&& match prompt.target {
                TargetView::Project { name: _, cwd } => on_key(app, key, env).effects[k]
                    == EffectView::RemoveProject(cwd),
                TargetView::Chat { thread } => on_key(app, key, env).effects[k]
                    == EffectView::DeleteChat(thread),
            }
            &&& key.code == KeyCode::Char('d') || key.code == KeyCode::Char('D') || (key.code
                is Enter && prompt.choice is Delete) || (prompt.target is Chat && (key.code
                == KeyCode::Char('y') || key.code == KeyCode::Char('Y')))
        },
{
    reveal(on_key);
    match app.delete_prompt {
        Some(prompt) => {
            lemma_removal_is_answered(app, prompt, key.code, k);
        },
        None => {
            lemma_typing_keeps_all(app, key, env);
            lemma_browsing_keeps_all(app, key);
        },
    }
}

/// No click removes anything unless a question about it is open.
pub proof fn law_clicks_remove_nothing_unasked(
    app: AppView,
    x: int,
    y: int,
    areas: PaneAreas,
    size: Rect,
    now: u128,
    k: int,
)
    requires
        app.delete_prompt is None,
        0 <= k < on_click(app, x, y, areas, size, now).effects.len(),
    ensures
        !removes(on_click(app, x, y, areas, size, now).effects[k]),
{
    reveal(on_click);
    reveal(on_harness_click);
    reveal(on_pane_click);
    reveal(on_status_click);
    reveal(on_project_click);
    reveal(on_row_click);
    reveal(previewed);
    reveal(activated);
    reveal(opened);
    reveal(status_action_done);
    reveal(archived);
    reveal(toggled);
}

/// A click on an answer does what the answer says: no closes the question, any other is followed as
/// if it was selected. A click elsewhere leaves the question open.
pub proof fn law_clicks_answer(app: AppView, prompt: PromptView, x: int, y: int, popup: Rect)
    requires
        app.delete_prompt == Some(prompt),
    ensures
        ({
            let done = on_prompt_click(app, prompt.target, x, y, popup);
            match crate::mouse::answer_at(x, y, popup, prompt.target) {
                Some(DeleteChoice::No) => done.app == (AppView {
                    delete_prompt: None,
                    last_click: None,
                    ..app
                }) && done.effects.len() == 0,
                Some(choice) => {
                    let answered = AppView {
                        delete_prompt: Some(PromptView { choice, ..prompt }),
                        ..app
                    };
                    done.effects == delete_confirmed(answered).effects && done.app.state
                        == delete_confirmed(answered).app.state && done.app.delete_prompt is None
                },
                None => done.app == (AppView { last_click: None, ..app }) && done.effects.len()
                    == 0,
            }
        }),
{
    reveal(on_prompt_click);
    reveal(with_answer);
    reveal(delete_confirmed);
    reveal(delete_answered);
}

/// Archiving the selected chat, or taking it back, is remembered of this chat and of no other, and
/// is saved. A pane by itself cannot be archived.
pub proof fn law_archiving_is_remembered(app: AppView, to: bool, thread: Thread, other: (Seq<char>, Seq<char>))
    requires
        0 <= app.row_index < app.rows().len(),
    ensures
        ({
            let done = archived(app, to);
            &&& (app.rows()[app.row_index] matches Row::Thread { thread: own, live: _ } && *own
                == thread) ==> {
                &&& done.app.state.archived_threads.contains((thread.harness_id@, thread.id@)) == to
                &&& other != (thread.harness_id@, thread.id@)
                    ==> done.app.state.archived_threads.contains(other)
                    == app.state.archived_threads.contains(other)
                &&& done.effects == seq![EffectView::SaveAndRefresh]
                &&& done.app.projects == app.projects && done.app.state.project_paths
                    == app.state.project_paths && done.app.state.hidden_project_paths
                    == app.state.hidden_project_paths
            }
            &&& app.rows()[app.row_index] is Agent ==> done.app == (AppView {
                status: "Select a saved chat first"@,
                ..app
            }) && done.effects.len() == 0
        }),
{
    reveal(archived);
    law_thread_is_set(
        app.state.archived_threads,
        (thread.harness_id@, thread.id@),
        other,
        to,
    );
}

/// Whether archived chats are shown changes with each press, and all is looked at anew.
pub proof fn law_toggling(app: AppView)
    ensures
        toggled(app).app == (AppView { show_archived: !app.show_archived, ..app }),
        toggled(app).effects == seq![EffectView::RefreshView],
        toggled(toggled(app).app).app == app,
{
    reveal(toggled);
}

/// What the letters do where nothing is asked: q and Esc end the program; ? shows the help; / begins
/// a search; a shows archived chats or not; A archives and U takes back; D asks before something
/// goes; r looks at all anew; N asks for a project and n, alone, for a chat; tab, l and the right
/// arrow go to the next pane. None of them touches anything else.
pub proof fn law_letters(app: AppView, key: Key, env: Environment)
    requires
        is_idle(app),
        !app.pending_g,
    ensures
        ({
            let done = on_key(app, key, env);
            let is = |letter: char| key.code == KeyCode::Char(letter);
            &&& is('q') || key.code is Esc ==> done.app == (AppView { running: false, ..app })
                && done.effects.len() == 0
            &&& is('?') ==> done.app == (AppView { show_help: true, ..app }) && done.effects.len()
                == 0
            &&& is('/') ==> done.app == (AppView { search_mode: true, ..app })
                && done.effects.len() == 0
            &&& is('a') ==> done.app == (AppView { show_archived: !app.show_archived, ..app })
                && done.effects == seq![EffectView::RefreshView]
            &&& is('A') ==> done == archived(app, true)
            &&& is('U') ==> done == archived(app, false)
            &&& is('D') ==> done.app == asking_delete(app) && done.effects.len() == 0
            &&& is('r') ==> done.app == app && done.effects == seq![EffectView::RefreshView]
            &&& is('N') ==> done.app == asking_project(app) && done.effects.len() == 0
            &&& is('n') && !key.control ==> done.app == asking_chat(app) && done.effects.len() == 0
            &&& key.code is Tab || key.code is Right || is('l') ==> done.app == (AppView {
                focus: match app.focus {
                    Focus::Projects => Focus::Threads,
                    Focus::Threads => Focus::Preview,
                    Focus::Preview => Focus::Projects,
                },
                ..app
            }) && done.effects.len() == 0
            &&& key.code is BackTab || key.code is Left || is('h') ==> done.app == (AppView {
                focus: match app.focus {
                    Focus::Projects => Focus::Preview,
                    Focus::Threads => Focus::Projects,
                    Focus::Preview => Focus::Threads,
                },
                ..app
            }) && done.effects.len() == 0
        }),
{
    reveal(on_key);
    reveal(on_browse_key);
    reveal(on_command);
    reveal(on_movement);
    reveal(status_action_done);
    reveal(toggled);
}

/// Any key closes the help and does nothing else.
pub proof fn law_help_is_closed(app: AppView, key: Key, env: Environment)
    requires
        app.show_help,
        app.delete_prompt is None,
        !app.new_project_mode && !app.new_chat_mode && !app.search_mode,
    ensures
        on_key(app, key, env).app == (AppView { show_help: false, ..app }),
        on_key(app, key, env).effects.len() == 0,
{
    reveal(on_key);
}

} // verus!

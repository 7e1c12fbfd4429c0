//! What opening comes to: live panes are switched to, other chats are started where they can be.
use vstd::prelude::*;

use crate::actions::{activated, opened, previewed, status_action_done};
use crate::agent::{Harness, Thread};
use crate::app::{harness_place, AppView, ClickTarget, EffectView, LastClick, StatusAction};
use crate::config::Environment;
use crate::keys::{on_browse_key, on_command, on_key, Key, KeyCode};
use crate::model::Row;
use crate::mouse::on_row_click;
use crate::tmux::Window;

verus! {

/// The pane that a row shows, where it shows one: the pane itself, or the live one of the chat.
pub open spec fn pane_shown(row: Row) -> Option<Window> {
    match row {
        Row::Agent(window) => Some(window),
        Row::Thread { thread: _, live } => live,
    }
}

/// Whether nothing is asked, typed, searched for or explained: keys and clicks go to the panes.
pub open spec fn is_idle(app: AppView) -> bool {
    &&& app.delete_prompt is None
    &&& !app.new_project_mode
    &&& !app.new_chat_mode
    &&& !app.search_mode
    &&& !app.show_help
}

/// The first harness with an identifier is found at its place: it has the identifier, none before it
/// has, and where none is found none has it.
pub proof fn law_harness_is_found(harnesses: Seq<Harness>, id: Seq<char>)
    ensures
        match harness_place(harnesses, id) {
            Some(at) => 0 <= at < harnesses.len() && harnesses[at].id@ == id && forall|k: int|
                0 <= k < at ==> (#[trigger] harnesses[k]).id@ != id,
            None => forall|k: int| 0 <= k < harnesses.len() ==> (#[trigger] harnesses[k]).id@ != id,
        },
    decreases harnesses.len(),
{
    if harnesses.len() > 0 {
        let rest = harnesses.drop_last();
        law_harness_is_found(rest, id);
        assert(forall|k: int| 0 <= k < rest.len() ==> harnesses[k] == rest[k]);
        assert(harnesses.last() == harnesses[harnesses.len() - 1]);
    }
}

/// Opening a row that shows a live pane asks for one thing, to switch to that pane, and changes
/// nothing else.
pub proof fn law_live_pane_is_switched_to(app: AppView, at: int, window: Window)
    requires
        app.row_index == at,
        0 <= at < app.rows().len(),
        pane_shown(app.rows()[at]) == Some(window),
    ensures
        activated(app).effects == seq![EffectView::Switch(window)],
        activated(app).app == app,
{
    reveal(activated);
    match app.rows()[at] {
        Row::Agent(_) => {},
        Row::Thread { thread, live } => {
            assert(live == Some(window));
        },
    }
}

/// Opening a chat without a live pane asks for one thing where the command of its harness was found,
/// to open this chat with that harness, and changes nothing else. Otherwise nothing is asked for,
/// and the status says why.
pub proof fn law_closed_chat_is_opened(app: AppView, thread: Thread, at: int)
    requires
        0 <= app.row_index < app.rows().len(),
        app.rows()[app.row_index] == (Row::Thread { thread: Box::new(thread), live: None }),
    ensures
        (0 <= at < app.harnesses.len() && app.harnesses[at].id@ == thread.harness_id@ && (forall|
            k: int,
        |
            0 <= k < at ==> (#[trigger] app.harnesses[k]).id@ != thread.harness_id@)) ==> if app.harnesses[at].command_path is Some {
            activated(app).effects == seq![EffectView::OpenThread { thread, harness: at }]
                && activated(app).app == app
        } else {
            activated(app).effects.len() == 0 && activated(app).app == (AppView {
                status: app.harnesses[at].label@
                    + " cli tool not found - check install in $PATH"@,
                ..app
            })
        },
        (forall|k: int|
            0 <= k < app.harnesses.len() ==> (#[trigger] app.harnesses[k]).id@
                != thread.harness_id@) ==> activated(app).effects.len() == 0 && activated(app).app
            == (AppView { status: "thread belongs to an unavailable harness"@, ..app }),
{
    reveal(activated);
    reveal(opened);
    law_harness_is_found(app.harnesses, thread.harness_id@);
    match harness_place(app.harnesses, thread.harness_id@) {
        Some(found) => {
            if 0 <= at < app.harnesses.len() && app.harnesses[at].id@ == thread.harness_id@ && at
                != found {
                if at < found {
                    assert(app.harnesses[at].id@ != thread.harness_id@);
                } else {
                    assert(app.harnesses[found].id@ == thread.harness_id@);
                }
            }
        },
        None => {
            if 0 <= at < app.harnesses.len() {
                assert(app.harnesses[at].id@ != thread.harness_id@);
            }
        },
    }
}

/// A chat is started only where it is the selected one and has no live pane, and only one thing is
/// asked for at a time.
pub proof fn law_no_second_agent_is_started(app: AppView, thread: Thread, harness: int)
    requires
        activated(app).effects.contains(EffectView::OpenThread { thread, harness }),
    ensures
        activated(app).effects.len() == 1,
        0 <= app.row_index < app.rows().len(),
        app.rows()[app.row_index] == (Row::Thread { thread: Box::new(thread), live: None }),
        0 <= harness < app.harnesses.len(),
        app.harnesses[harness].id@ == thread.harness_id@,
        app.harnesses[harness].command_path is Some,
{
    reveal(activated);
    reveal(opened);
    law_harness_is_found(app.harnesses, thread.harness_id@);
    let wanted = EffectView::OpenThread { thread, harness };
    let k = choose|k: int|
        0 <= k < activated(app).effects.len() && activated(app).effects[k] == wanted;
    match app.row() {
        Some(Row::Thread { thread: own, live }) => {
            law_harness_is_found(app.harnesses, own.harness_id@);
            assert(live is None);
            assert(*own == thread);
        },
        _ => {},
    }
}

/// Where nothing is selected, opening does nothing.
pub proof fn law_nothing_selected_nothing_opened(app: AppView)
    requires
        !(0 <= app.row_index < app.rows().len()),
    ensures
        activated(app).effects.len() == 0,
        activated(app).app == app,
{
    reveal(activated);
}

proof fn lemma_settled(app: AppView)
    ensures
        (AppView { pending_g: false, ..app }).rows() == app.rows(),
        (AppView { pending_g: false, ..app }).visible() == app.visible(),
{
    reveal(AppView::rows);
    reveal(AppView::visible);
}

/// The key Enter, the action in the status bar and a second click on the selected row all open the
/// selected row: where it shows a live pane, they ask for the switch to it and for nothing else.
pub proof fn law_ways_to_open(
    app: AppView,
    key: Key,
    env: Environment,
    window: Window,
    at: u128,
    now: u128,
)
    requires
        is_idle(app),
        key.code == KeyCode::Enter,
        0 <= app.row_index < app.rows().len(),
        app.row_index <= usize::MAX,
        pane_shown(app.rows()[app.row_index]) == Some(window),
        at <= now <= at + 500_000_000,
    ensures
        on_key(app, key, env).effects == seq![EffectView::Switch(window)],
        status_action_done(app, StatusAction::Open).effects == seq![EffectView::Switch(window)],
        ({
            let target = ClickTarget::Thread(app.row_index as usize);
            let clicked = AppView { last_click: Some(LastClick { target, at }), ..app };
            on_row_click(clicked, app.row_index, now).effects == seq![EffectView::Switch(window)]
        }),
{
    reveal(on_key);
    reveal(on_browse_key);
    reveal(on_command);
    reveal(status_action_done);
    reveal(on_row_click);
    let settled = AppView { pending_g: false, ..app };
    lemma_settled(app);
    law_live_pane_is_switched_to(settled, app.row_index, window);
    law_live_pane_is_switched_to(app, app.row_index, window);
    let target = ClickTarget::Thread(app.row_index as usize);
    let clicked = AppView { last_click: Some(LastClick { target, at }), ..app };
    let again = AppView { last_click: Some(LastClick { target, at: now }), ..app };
    assert(clicked.rows() == app.rows() && again.rows() == app.rows()) by {
        reveal(AppView::rows);
    }
    law_live_pane_is_switched_to(again, app.row_index, window);
}

/// What the preview reads: the messages of the selected chat, from the harness that keeps it, as
/// many turns as the settings say; of a pane by itself, or where nothing is selected, nothing. The
/// old preview is gone and shown from its beginning.
pub proof fn law_preview_reads_the_selected_chat(app: AppView, at: int)
    ensures
        previewed(app).app.preview.len() == 0,
        previewed(app).app.preview_scroll == 0,
        previewed(app).app == (AppView { preview: Seq::empty(), preview_scroll: 0, ..app }),
        !(0 <= app.row_index < app.rows().len()) ==> previewed(app).effects.len() == 0,
        0 <= app.row_index < app.rows().len() ==> match app.rows()[app.row_index] {
            Row::Agent(_) => previewed(app).effects.len() == 0,
            Row::Thread { thread, live: _ } => {
                &&& (0 <= at < app.harnesses.len() && app.harnesses[at].id@ == thread.harness_id@
                    && forall|k: int|
                    0 <= k < at ==> (#[trigger] app.harnesses[k]).id@ != thread.harness_id@)
                    ==> previewed(app).effects == seq![
                    EffectView::ReadMessages {
                        harness: at,
                        thread_id: thread.id@,
                        turns: app.config.codex.transcript_turns as int,
                    },
                ]
                &&& (forall|k: int|
                    0 <= k < app.harnesses.len() ==> (#[trigger] app.harnesses[k]).id@
                        != thread.harness_id@) ==> previewed(app).effects.len() == 0
            },
        },
{
    reveal(previewed);
    let cleared = AppView { preview: Seq::empty(), preview_scroll: 0, ..app };
    assert(cleared.rows() == app.rows()) by {
        reveal(AppView::rows);
    }
    if 0 <= app.row_index < app.rows().len() {
        match app.rows()[app.row_index] {
            Row::Agent(_) => {},
            Row::Thread { thread, live: _ } => {
                law_harness_is_found(app.harnesses, thread.harness_id@);
                match harness_place(app.harnesses, thread.harness_id@) {
                    Some(found) => {
                        if 0 <= at < app.harnesses.len() && app.harnesses[at].id@
                            == thread.harness_id@ && at < found {
                            assert(app.harnesses[at].id@ != thread.harness_id@);
                        }
                        assert(app.harnesses[found].id@ == thread.harness_id@);
                    },
                    None => {
                        if 0 <= at < app.harnesses.len() {
                            assert(app.harnesses[at].id@ != thread.harness_id@);
                        }
                    },
                }
            },
        }
    }
}

} // verus!

//! What is selected: that keys and clicks always leave something selected, where there is anything.
use vstd::prelude::*;

use crate::actions::{activated, archived, asking_chat, asking_delete, asking_project,
    chat_submitted, delete_answered, delete_confirmed, harness_chosen, harness_moved, number_at,
    opened, position_of, previewed, project_submitted, scrolled, searched, status_action_done,
    toggled, with_boundary, with_next};
use crate::agent::Harness;
use crate::app::{fitting_places, law_shown_projects_fit, AppView, ClickTarget, Focus, StatusAction};
use crate::config::{Config, Environment};
use crate::geometry::{at_least_zero, entry_at, middle_of, moved, Rect};
use crate::keys::{answer_moved, chat_given_up, command_of, delete_move, erased, on_browse_key,
    on_chat_key, on_command, on_delete_key, on_harness_key, on_key, on_movement, on_project_key,
    on_search_key, usual_answer, with_answer, Command, DeleteMove, Key, KeyCode};
use crate::layout::PaneAreas;
use crate::mouse::{action_at, answer_at, on_click, on_harness_click, on_mouse, on_pane_click,
    on_project_click, on_prompt_click, on_row_click, on_status_click, with_click, MouseKind};
use crate::outside::begun;
use crate::state::StateView;
use crate::text::lowercase;
use crate::tmux::Client;

verus! {

impl AppView {
    /// Whether a project is selected where there are any, and a row where any are shown.
    pub open spec fn selects(self) -> bool {
        &&& 0 <= self.project_index
        &&& self.projects.len() > 0 ==> self.project_index < self.projects.len()
        &&& 0 <= self.row_index
        &&& self.rows().len() > 0 ==> self.row_index < self.rows().len()
    }

    /// Whether another state shows and selects the same.
    spec fn shows_as(self, other: AppView) -> bool {
        &&& self.harnesses == other.harnesses
        &&& self.projects == other.projects
        &&& self.query == other.query
        &&& self.project_index == other.project_index
        &&& self.row_index == other.row_index
    }
}

proof fn lemma_same_selection(app: AppView, other: AppView)
    requires
        app.shows_as(other),
    ensures
        app.selects() == other.selects(),
{
    reveal(AppView::rows);
}

proof fn lemma_visible_places(app: AppView)
    ensures
        forall|k: int|
            0 <= k < app.visible().len() ==> 0 <= #[trigger] app.visible()[k]
                < app.projects.len(),
{
    reveal(AppView::visible);
    let query = lowercase(app.query);
    let places = fitting_places(app.harnesses, app.projects, query);
    law_shown_projects_fit(app.harnesses, app.projects, query);
    assert forall|k: int| 0 <= k < places.len() implies 0 <= #[trigger] places[k]
        < app.projects.len() by {
        assert(places.contains(places[k]));
    }
}

proof fn lemma_moved(current: int, len: int, delta: int)
    requires
        len >= 0,
    ensures
        0 <= moved(current, len, delta),
        len > 0 ==> moved(current, len, delta) < len,
{
    if len > 0 {
        assert(0 <= (current + delta) % len < len) by (nonlinear_arith)
            requires
                len > 0,
        ;
    }
}

proof fn lemma_previewed(app: AppView)
    ensures
        previewed(app).app.shows_as(app),
{
    reveal(previewed);
}

proof fn lemma_next(app: AppView, delta: int)
    requires
        app.selects(),
    ensures
        with_next(app, delta).selects(),
{
    reveal(with_next);
    lemma_visible_places(app);
    let position = position_of(app.visible(), app.project_index);
    lemma_moved(position, app.visible().len() as int, delta);
    lemma_moved(app.row_index, app.rows().len() as int, delta);
    if app.focus == Focus::Threads {
        lemma_same_rows(app, with_next(app, delta));
    }
}

proof fn lemma_same_rows(app: AppView, other: AppView)
    requires
        app.harnesses == other.harnesses,
        app.projects == other.projects,
        app.query == other.query,
        app.project_index == other.project_index,
    ensures
        app.rows() == other.rows(),
{
    reveal(AppView::rows);
}

proof fn lemma_boundary(app: AppView, last: bool)
    requires
        app.selects(),
    ensures
        with_boundary(app, last).selects(),
{
    reveal(with_boundary);
    lemma_visible_places(app);
    if app.focus == Focus::Threads {
        lemma_same_rows(app, with_boundary(app, last));
    }
}

proof fn lemma_searched(app: AppView)
    ensures
        searched(app).app.selects(),
{
    reveal(searched);
    lemma_visible_places(app);
    let found = AppView { project_index: number_at(app.visible(), 0), row_index: 0, ..app };
    lemma_previewed(found);
    lemma_same_selection(previewed(found).app, found);
}

proof fn lemma_activated(app: AppView)
    ensures
        activated(app).app.shows_as(app),
{
    reveal(activated);
    reveal(opened);
}

proof fn lemma_delete_confirmed(app: AppView)
    ensures
        delete_confirmed(app).app.shows_as(app),
{
    reveal(delete_confirmed);
    reveal(delete_answered);
}

proof fn lemma_status_action(app: AppView, action: StatusAction)
    ensures
        status_action_done(app, action).app.shows_as(app),
{
    reveal(status_action_done);
    reveal(asking_project);
    reveal(asking_chat);
    reveal(asking_delete);
    reveal(toggled);
    reveal(archived);
    lemma_activated(app);
}

proof fn lemma_browse_key(app: AppView, key: Key)
    requires
        app.selects(),
    ensures
        on_browse_key(app, key).app.selects(),
{
    reveal(on_browse_key);
    reveal(on_command);
    reveal(on_movement);
    reveal(scrolled);
    let settled = AppView { pending_g: false, ..app };
    lemma_same_selection(settled, app);
    lemma_boundary(settled, false);
    lemma_boundary(settled, true);
    lemma_next(settled, 1);
    lemma_next(settled, -1);
    let first = with_boundary(settled, false);
    let last = with_boundary(settled, true);
    let next = with_next(settled, 1);
    let previous = with_next(settled, -1);
    lemma_previewed(first);
    lemma_previewed(last);
    lemma_previewed(next);
    lemma_previewed(previous);
    lemma_same_selection(previewed(first).app, first);
    lemma_same_selection(previewed(last).app, last);
    lemma_same_selection(previewed(next).app, next);
    lemma_same_selection(previewed(previous).app, previous);
    let after = on_browse_key(app, key).app;
    match command_of(key) {
        Command::Act(action) => {
            lemma_status_action(settled, action);
        },
        _ => {},
    }
    if after.shows_as(settled) {
        lemma_same_selection(after, settled);
    }
}

/// Whatever key is pressed, a project stays selected where there are any, and a row where any are
/// shown.
pub proof fn law_keys_keep_the_selection(app: AppView, key: Key, env: Environment)
    requires
        app.selects(),
    ensures
        on_key(app, key, env).app.selects(),
{
    reveal(on_key);
    let after = on_key(app, key, env).app;
    match app.delete_prompt {
        Some(prompt) => {
            reveal(on_delete_key);
            reveal(with_answer);
            lemma_delete_confirmed(app);
            let back = answer_moved(prompt.choice, prompt.target, -1);
            let forth = answer_moved(prompt.choice, prompt.target, 1);
            let usual = usual_answer(prompt.target);
            match delete_move(key.code, back, forth, usual) {
                DeleteMove::Answer(choice) => {
                    lemma_delete_confirmed(with_answer(app, choice));
                },
                _ => {},
            }
            assert(after.shows_as(app));
        },
        None => {
            if app.new_project_mode {
                reveal(on_project_key);
                reveal(project_submitted);
                assert(after.shows_as(app));
            } else if app.new_chat_mode {
                reveal(on_harness_key);
                reveal(on_chat_key);
                reveal(chat_given_up);
                reveal(harness_chosen);
                reveal(harness_moved);
                reveal(chat_submitted);
                assert(after.shows_as(app));
            } else if app.search_mode {
                reveal(on_search_key);
                lemma_searched(AppView { search_mode: false, query: Seq::empty(), ..app });
                lemma_searched(AppView { query: erased(app.query), ..app });
                lemma_searched(AppView { query: Seq::empty(), ..app });
                match key.code {
                    KeyCode::Char(character) => {
                        lemma_searched(AppView { query: app.query.push(character), ..app });
                    },
                    _ => {},
                }
            } else if !app.show_help {
                lemma_browse_key(app, key);
            }
        },
    }
    if after.shows_as(app) {
        lemma_same_selection(after, app);
    }
}

proof fn lemma_project_click(app: AppView, index: int, now: u128)
    requires
        app.selects(),
    ensures
        on_project_click(app, index, now).app.selects(),
{
    reveal(on_project_click);
    lemma_visible_places(app);
    let after = on_project_click(app, index, now).app;
    if 0 <= index < app.visible().len() {
        let place = app.visible()[index];
        let clicked = with_click(
            app,
            ClickTarget::Project(place as usize),
            now,
        );
        let chosen = AppView { project_index: place, row_index: 0, ..clicked };
        lemma_previewed(chosen);
        if place != app.project_index {
            assert(after.shows_as(chosen));
            assert(chosen.selects());
            lemma_same_selection(after, chosen);
        } else {
            lemma_same_selection(after, app);
        }
    }
}

proof fn lemma_row_click(app: AppView, index: int, now: u128)
    requires
        app.selects(),
    ensures
        on_row_click(app, index, now).app.selects(),
{
    reveal(on_row_click);
    let after = on_row_click(app, index, now).app;
    if 0 <= index < app.rows().len() {
        let clicked = with_click(
            app,
            ClickTarget::Thread(index as usize),
            now,
        );
        let chosen = AppView { row_index: index, ..clicked };
        lemma_same_rows(chosen, app);
        lemma_previewed(chosen);
        let shown = if index != app.row_index {
            previewed(chosen).app
        } else {
            clicked
        };
        lemma_activated(shown);
        if index != app.row_index {
            assert(after.shows_as(chosen));
            lemma_same_selection(after, chosen);
        } else {
            lemma_same_selection(after, app);
        }
    }
}

/// Whatever the mouse does, a project stays selected where there are any, and a row where any are
/// shown.
pub proof fn law_clicks_keep_the_selection(
    app: AppView,
    kind: MouseKind,
    x: int,
    y: int,
    areas: PaneAreas,
    size: Rect,
    now: u128,
)
    requires
        app.selects(),
    ensures
        on_mouse(app, kind, x, y, areas, size, now).app.selects(),
{
    reveal(on_mouse);
    reveal(on_click);
    reveal(scrolled);
    reveal(on_prompt_click);
    reveal(with_answer);
    reveal(on_harness_click);
    reveal(harness_chosen);
    reveal(on_status_click);
    let after = on_mouse(app, kind, x, y, areas, size, now).app;
    if kind is Press && app.delete_prompt is Some {
        let prompt = app.delete_prompt->0;
        let popup = middle_of(size, 76, 8);
        match answer_at(x, y, popup, prompt.target) {
            Some(choice) => {
                lemma_delete_confirmed(with_answer(app, choice));
            },
            None => {},
        }
        assert(after.shows_as(app));
    } else if kind is Press && !app.new_project_mode && !app.new_chat_mode && !app.show_help {
        reveal(on_pane_click);
        let projects = AppView { focus: Focus::Projects, ..app };
        let threads = AppView { focus: Focus::Threads, ..app };
        lemma_same_selection(projects, app);
        lemma_same_selection(threads, app);
        match entry_at(y, areas.projects) {
            Some(index) => lemma_project_click(projects, index, now),
            None => {},
        }
        match entry_at(y, areas.threads) {
            Some(index) => lemma_row_click(threads, index, now),
            None => {},
        }
        let column = at_least_zero(x - areas.status.x);
        match action_at(app, column, areas.status.width as int) {
            Some(action) => lemma_status_action(app, action),
            None => {},
        }
    } else {
        assert(after.shows_as(app));
    }
    if after.shows_as(app) {
        lemma_same_selection(after, app);
    }
}

/// A new interface, of which nothing is shown yet, lacks no selection.
pub proof fn law_selection_begins_well(
    config: Config,
    tmux: Client,
    state: StateView,
    harnesses: Seq<Harness>,
    cia_command: Seq<char>,
    username: Seq<char>,
)
    ensures
        begun(config, tmux, state, harnesses, cia_command, username).selects(),
{
    reveal(AppView::rows);
}

} // verus!

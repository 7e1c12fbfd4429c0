//! What the interface does on request: selecting, opening, archiving, deleting, starting chats.
use vstd::prelude::*;
use vstd::string::*;

use crate::agent::{messages_view, Message, Thread};
use crate::app::{effect_views, find_place, harness_place, prompt_view, App, AppView, DeleteChoice,
    DeletePrompt, DeleteTarget, Effect, EffectView, Focus, PromptView, StatusAction, TargetView};
use crate::config::Environment;
use crate::geometry::{move_index, moved};
use crate::model::{project_views, Row};
use crate::state::{with_thread, StateView};
use crate::text::{is_text, opt_text, same_text, trim, trimmed};
use crate::userpath::{new_project_path, project_directory};

verus! {

/// The interface after something was done, and what is to be done outside of it.
pub struct Outcome {
    pub app: AppView,
    pub effects: Seq<EffectView>,
}

/// The interface after something was done, with the effects in the order in which they are to be
/// done.
#[derive(Debug)]
pub struct Next {
    pub app: App,
    pub effects: Vec<Effect>,
}

impl Next {
    /// The outcome by its texts.
    pub open spec fn outcome(self) -> Outcome {
        Outcome { app: self.app.view(), effects: effect_views(self.effects@) }
    }
}

/// Nothing is to be done outside of the interface.
pub open spec fn quiet(app: AppView) -> Outcome {
    Outcome { app, effects: Seq::empty() }
}

/// One thing is to be done outside of the interface.
pub open spec fn asking(app: AppView, effect: EffectView) -> Outcome {
    Outcome { app, effects: seq![effect] }
}

/// The interface with a message.
pub open spec fn saying(app: AppView, message: Seq<char>) -> AppView {
    AppView { status: message, ..app }
}

/// What is read for the preview: the messages of the selected chat, where its harness is known.
pub open spec fn preview_effects(app: AppView) -> Seq<EffectView> {
    match app.row() {
        Some(Row::Thread { thread, live: _ }) => match harness_place(
            app.harnesses,
            thread.harness_id@,
        ) {
            Some(at) => seq![
                EffectView::ReadMessages {
                    harness: at,
                    thread_id: thread.id@,
                    turns: app.config.codex.transcript_turns as int,
                },
            ],
            None => Seq::empty(),
        },
        _ => Seq::empty(),
    }
}

/// The interface with a new preview.
#[verifier::opaque]
pub open spec fn previewed(app: AppView) -> Outcome {
    let cleared = AppView { preview: Seq::empty(), preview_scroll: 0, ..app };
    Outcome { app: cleared, effects: preview_effects(cleared) }
}

/// The interface after the messages of the selected chat were read, or could not be read.
pub open spec fn after_reading(
    app: AppView,
    result: Result<Seq<(Seq<char>, Seq<char>)>, Seq<char>>,
) -> AppView {
    match result {
        Ok(messages) => AppView { preview: messages, ..app },
        Err(message) => saying(app, message),
    }
}

/// The place of a number in a list, or the first place where it is not in it.
pub open spec fn position_of(places: Seq<int>, wanted: int) -> int
    decreases places.len(),
{
    if places.len() == 0 {
        0
    } else if places[0] == wanted {
        0
    } else if places.skip(1).contains(wanted) {
        position_of(places.skip(1), wanted) + 1
    } else {
        0
    }
}

/// The number at a place in a list, or zero where there is none.
pub open spec fn number_at(places: Seq<int>, at: int) -> int {
    if 0 <= at < places.len() {
        places[at]
    } else {
        0
    }
}

/// The interface with the next entry selected, some entries further, where the ends meet.
#[verifier::opaque]
pub open spec fn with_next(app: AppView, delta: int) -> AppView {
    match app.focus {
        Focus::Projects => AppView {
            project_index: number_at(
                app.visible(),
                moved(
                    position_of(app.visible(), app.project_index),
                    app.visible().len() as int,
                    delta,
                ),
            ),
            row_index: 0,
            ..app
        },
        Focus::Threads => AppView {
            row_index: moved(app.row_index, app.rows().len() as int, delta),
            ..app
        },
        Focus::Preview => app,
    }
}

/// The interface with the first or the last entry selected.
#[verifier::opaque]
pub open spec fn with_boundary(app: AppView, last: bool) -> AppView {
    match app.focus {
        Focus::Projects => AppView {
            project_index: number_at(
                app.visible(),
                if last {
                    app.visible().len() - 1
                } else {
                    0
                },
            ),
            row_index: 0,
            ..app
        },
        Focus::Threads => AppView {
            row_index: if last && app.rows().len() > 0 {
                app.rows().len() - 1
            } else {
                0
            },
            ..app
        },
        Focus::Preview => app,
    }
}

/// The interface with the first project selected that fits what is searched for.
#[verifier::opaque]
pub open spec fn searched(app: AppView) -> Outcome {
    previewed(AppView { project_index: number_at(app.visible(), 0), row_index: 0, ..app })
}

/// The interface with the preview scrolled: forwards by a positive number of lines, backwards by
/// a negative one.
#[verifier::opaque]
pub open spec fn scrolled(app: AppView, delta: int) -> AppView {
    AppView {
        preview_scroll: if delta < 0 {
            if app.preview_scroll + (-delta) % 65536 > 65535 {
                65535
            } else {
                app.preview_scroll + (-delta) % 65536
            }
        } else {
            if app.preview_scroll - delta % 65536 < 0 {
                0
            } else {
                app.preview_scroll - delta % 65536
            }
        },
        focus: Focus::Preview,
        ..app
    }
}

/// What opens a chat: it is opened in a new pane, where its harness can be started.
#[verifier::opaque]
pub open spec fn opened(app: AppView, thread: Thread) -> Outcome {
    match harness_place(app.harnesses, thread.harness_id@) {
        None => quiet(saying(app, "thread belongs to an unavailable harness"@)),
        Some(at) => if app.harnesses[at].command_path is Some {
            asking(app, EffectView::OpenThread { thread, harness: at })
        } else {
            quiet(saying(app, app.harnesses[at].missing_cli()))
        },
    }
}

/// What opens the selected row: its live pane is brought to the front, or it is opened.
#[verifier::opaque]
pub open spec fn activated(app: AppView) -> Outcome {
    match app.row() {
        None => quiet(app),
        Some(Row::Agent(window)) => asking(app, EffectView::Switch(window)),
        Some(Row::Thread { thread, live: Some(window) }) => asking(app, EffectView::Switch(window)),
        Some(Row::Thread { thread, live: None }) => opened(app, *thread),
    }
}

/// The interface that asks for the path of a new project.
#[verifier::opaque]
pub open spec fn asking_project(app: AppView) -> AppView {
    AppView { new_project_path: Seq::empty(), new_project_mode: true, ..app }
}

/// The interface that asks for a new chat, with the usual harness selected.
#[verifier::opaque]
pub open spec fn asking_chat(app: AppView) -> AppView {
    AppView {
        new_chat_name: Seq::empty(),
        new_chat_harness_error: None,
        new_chat_harness_index: match harness_place(
            app.harnesses,
            app.config.ui.default_harness@,
        ) {
            Some(at) => at,
            None => 0,
        },
        new_chat_picking_harness: app.harnesses.len() > 1,
        new_chat_mode: true,
        ..app
    }
}

/// The interface with archived chats shown where they were not, and the other way round.
#[verifier::opaque]
pub open spec fn toggled(app: AppView) -> Outcome {
    asking(AppView { show_archived: !app.show_archived, ..app }, EffectView::RefreshView)
}

/// The interface with the selected harness taken for a new chat, where it can be started.
#[verifier::opaque]
pub open spec fn harness_chosen(app: AppView) -> AppView {
    if 0 <= app.new_chat_harness_index < app.harnesses.len() {
        let harness = app.harnesses[app.new_chat_harness_index];
        if harness.command_path is Some {
            AppView { new_chat_harness_error: None, new_chat_picking_harness: false, ..app }
        } else {
            AppView { new_chat_harness_error: Some(harness.missing_cli()), ..app }
        }
    } else {
        AppView { new_chat_harness_error: Some("Selected harness is unavailable"@), ..app }
    }
}

/// The interface with another harness selected for a new chat.
#[verifier::opaque]
pub open spec fn harness_moved(app: AppView, delta: int) -> AppView {
    AppView {
        new_chat_harness_index: moved(
            app.new_chat_harness_index,
            app.harnesses.len() as int,
            delta,
        ),
        new_chat_harness_error: None,
        ..app
    }
}

/// What archives the selected chat or takes it back.
#[verifier::opaque]
pub open spec fn archived(app: AppView, archived: bool) -> Outcome {
    match app.row() {
        Some(Row::Thread { thread, live: _ }) => asking(
            AppView {
                state: StateView {
                    archived_threads: with_thread(
                        app.state.archived_threads,
                        (thread.harness_id@, thread.id@),
                        archived,
                    ),
                    ..app.state
                },
                ..app
            },
            EffectView::SaveAndRefresh,
        ),
        _ => quiet(saying(app, "Select a saved chat first"@)),
    }
}

/// The interface that asks whether the selected project or chat is deleted.
#[verifier::opaque]
pub open spec fn asking_delete(app: AppView) -> AppView {
    match app.focus {
        Focus::Projects => match app.project() {
            None => saying(app, "Select a project first"@),
            Some(project) => AppView {
                delete_prompt: Some(
                    PromptView {
                        target: TargetView::Project { name: project.name, cwd: project.cwd },
                        choice: DeleteChoice::No,
                    },
                ),
                ..app
            },
        },
        _ => match app.row() {
            Some(Row::Thread { thread, live: _ }) => AppView {
                delete_prompt: Some(
                    PromptView {
                        target: TargetView::Chat { thread: *thread },
                        choice: DeleteChoice::No,
                    },
                ),
                ..app
            },
            _ => saying(app, "Select a saved chat first"@),
        },
    }
}

/// The state with a project hidden.
pub open spec fn project_hidden(app: AppView, cwd: Seq<char>) -> AppView {
    AppView { state: app.state.with_hidden_project(cwd), ..app }
}

/// What an answer to the question whether something is deleted leads to.
#[verifier::opaque]
pub open spec fn delete_answered(app: AppView, prompt: PromptView) -> Outcome {
    match prompt.choice {
        DeleteChoice::No => asking(app, EffectView::RefreshView),
        DeleteChoice::Hide => match prompt.target {
            TargetView::Project { name, cwd } => asking(
                project_hidden(app, cwd),
                EffectView::SaveAndRefresh,
            ),
            TargetView::Chat { thread } => asking(app, EffectView::RefreshView),
        },
        DeleteChoice::Delete => match prompt.target {
            TargetView::Project { name, cwd } => asking(app, EffectView::RemoveProject(cwd)),
            TargetView::Chat { thread } => asking(app, EffectView::DeleteChat(thread)),
        },
    }
}

/// What the selected answer to the question whether something is deleted leads to.
#[verifier::opaque]
pub open spec fn delete_confirmed(app: AppView) -> Outcome {
    match app.delete_prompt {
        None => quiet(app),
        Some(prompt) => delete_answered(AppView { delete_prompt: None, ..app }, prompt),
    }
}

/// What makes a new project of the path that was typed.
#[verifier::opaque]
pub open spec fn project_submitted(app: AppView, env: Environment) -> Outcome {
    let path = trimmed(app.new_project_path);
    if path.len() == 0 {
        quiet(saying(app, "Project path cannot be empty"@))
    } else {
        asking(app, EffectView::CreateProject(project_directory(path, env)))
    }
}

/// Whether a harness has a chat of a name among several.
pub open spec fn has_chat(threads: Seq<Thread>, harness_id: Seq<char>, title: Seq<char>) -> bool {
    exists|k: int|
        0 <= k < threads.len() && (#[trigger] threads[k]).harness_id@ == harness_id && opt_text(
            threads[k].name,
        ) == Some(title)
}

/// What starts a new chat of the name that was typed, in the selected project.
#[verifier::opaque]
pub open spec fn chat_submitted(app: AppView) -> Outcome {
    let title = trimmed(app.new_chat_name);
    match app.project() {
        None => quiet(app),
        Some(project) => if title.len() == 0 {
            quiet(saying(app, "Chat name cannot be empty"@))
        } else if !(0 <= app.new_chat_harness_index < app.harnesses.len()) {
            quiet(saying(app, "Selected harness is unavailable"@))
        } else {
            let harness = app.harnesses[app.new_chat_harness_index];
            if harness.command_path is None {
                quiet(
                    AppView {
                        new_chat_harness_error: Some(harness.missing_cli()),
                        new_chat_picking_harness: true,
                        ..app
                    },
                )
            } else if has_chat(project.threads, harness.id@, title) {
                quiet(
                    saying(
                        app,
                        "A chat named `"@ + title + "` already exists in this project"@,
                    ),
                )
            } else {
                asking(
                    app,
                    EffectView::OpenChat {
                        cwd: project.cwd,
                        title,
                        harness: app.new_chat_harness_index,
                    },
                )
            }
        },
    }
}

/// What a click on an action of the status bar leads to.
#[verifier::opaque]
pub open spec fn status_action_done(app: AppView, action: StatusAction) -> Outcome {
    match action {
        StatusAction::Open => activated(app),
        StatusAction::NewProject => quiet(asking_project(app)),
        StatusAction::New => quiet(asking_chat(app)),
        StatusAction::Search => quiet(AppView { search_mode: true, ..app }),
        StatusAction::ToggleArchived => toggled(app),
        StatusAction::SetArchived => archived(app, true),
        StatusAction::SetUnarchived => archived(app, false),
        StatusAction::Delete => quiet(asking_delete(app)),
        StatusAction::Help => quiet(AppView { show_help: true, ..app }),
    }
}

impl App {
    /// The interface, with nothing to be done outside of it.
    pub fn quietly(self) -> (next: Next)
        ensures
            next.outcome() == quiet(self.view()),
    {
        let effects: Vec<Effect> = Vec::new();
        assert(effect_views(effects@) =~= Seq::<EffectView>::empty());
        Next { app: self, effects }
    }

    /// The interface, with one thing to be done outside of it.
    pub fn asking_for(self, effect: Effect) -> (next: Next)
        ensures
            next.outcome() == asking(self.view(), effect.view()),
    {
        let effects = vec![effect];
        assert(effect_views(effects@) =~= seq![effect.view()]);
        Next { app: self, effects }
    }
}

pub(crate) fn index_of(places: &Vec<usize>, wanted: usize) -> (at: usize)
    ensures
        at == position_of(places@.map_values(|at: usize| at as int), wanted as int),
        at <= places@.len(),
{
    let ghost all = places@.map_values(|at: usize| at as int);
    let count: usize = places.len();
    let mut index: usize = 0;
    assert(all.skip(0) =~= all);
    while index < count
        invariant
            index <= count,
            count == places@.len(),
            all == places@.map_values(|at: usize| at as int),
            forall|k: int| 0 <= k < index ==> all[k] != wanted,
        decreases count - index,
    {
        if places[index] == wanted {
            proof {
                lemma_position(all, wanted as int, index as int);
            }
            return index;
        }
        index = index + 1;
    }
    proof {
        if all.len() > 0 && all.skip(1).contains(wanted as int) {
            let k = choose|k: int| 0 <= k < all.skip(1).len() && all.skip(1)[k] == wanted;
            assert(all[k + 1] == wanted);
        }
    }
    0
}

pub(crate) proof fn lemma_position(places: Seq<int>, wanted: int, at: int)
    requires
        0 <= at < places.len(),
        places[at] == wanted,
        forall|k: int| 0 <= k < at ==> places[k] != wanted,
    ensures
        position_of(places, wanted) == at,
    decreases at,
{
    if at > 0 {
        assert(places.skip(1)[at - 1] == wanted);
        lemma_position(places.skip(1), wanted, at - 1);
    }
}

impl App {
    /// Begins or ends the search.
    pub fn with_search_mode(self, search_mode: bool) -> (app: App)
        ensures
            app.view() == (AppView { search_mode, ..self.view() }),
    {
        proof {
            reveal(App::view);
        }
        let mut app = self;
        app.search_mode = search_mode;
        app
    }

    /// Opens or closes the help.
    pub fn with_help(self, show_help: bool) -> (app: App)
        ensures
            app.view() == (AppView { show_help, ..self.view() }),
    {
        proof {
            reveal(App::view);
        }
        let mut app = self;
        app.show_help = show_help;
        app
    }

    /// Gives keys to a pane.
    pub fn with_focus(self, focus: Focus) -> (app: App)
        ensures
            app.view() == (AppView { focus, ..self.view() }),
    {
        proof {
            reveal(App::view);
        }
        let mut app = self;
        app.focus = focus;
        app
    }

    /// Ends the program.
    pub fn stopped(self) -> (app: App)
        ensures
            app.view() == (AppView { running: false, ..self.view() }),
    {
        proof {
            reveal(App::view);
        }
        let mut app = self;
        app.running = false;
        app
    }

    /// Remembers whether the first g of two was pressed.
    pub fn with_pending(self, pending_g: bool) -> (app: App)
        ensures
            app.view() == (AppView { pending_g, ..self.view() }),
    {
        proof {
            reveal(App::view);
        }
        let mut app = self;
        app.pending_g = pending_g;
        app
    }

    /// Changes what is searched for.
    pub fn with_query(self, query: String) -> (app: App)
        ensures
            app.view() == (AppView { query: query@, ..self.view() }),
    {
        proof {
            reveal(App::view);
        }
        let mut app = self;
        app.query = query;
        app
    }

    /// Closes the question whether something is deleted.
    pub fn without_prompt(self) -> (app: App)
        ensures
            app.view() == (AppView { delete_prompt: None, ..self.view() }),
    {
        proof {
            reveal(App::view);
        }
        let mut app = self;
        app.delete_prompt = None;
        app
    }

    /// Selects a project, and its first row.
    pub fn with_project(self, place: usize) -> (app: App)
        ensures
            app.view() == (AppView { project_index: place as int, row_index: 0, ..self.view() }),
    {
        proof {
            reveal(App::view);
        }
        let mut app = self;
        app.project_index = place;
        app.row_index = 0;
        app
    }

    /// Selects a row.
    pub fn with_row(self, index: usize) -> (app: App)
        ensures
            app.view() == (AppView { row_index: index as int, ..self.view() }),
    {
        proof {
            reveal(App::view);
        }
        let mut app = self;
        app.row_index = index;
        app
    }

    /// Shows a message.
    pub fn saying(self, message: String) -> (app: App)
        ensures
            app.view() == saying(self.view(), message@),
    {
        proof {
            reveal(App::view);
        }
        let mut app = self;
        app.status = message;
        app
    }

    /// Finds the place of a harness by its identifier.
    pub fn place_of_harness(&self, harness_id: &str) -> (place: Option<usize>)
        ensures
            match place {
                Some(at) => at < self.harnesses@.len() && harness_place(
                    self.harnesses@,
                    harness_id@,
                ) == Some(at as int),
                None => harness_place(self.harnesses@, harness_id@) is None,
            },
    {
        find_place(&self.harnesses, harness_id)
    }

    /// The places of the selected project and row.
    pub fn selection(&self) -> (places: (usize, usize))
        ensures
            places.0 == self.view().project_index,
            places.1 == self.view().row_index,
    {
        proof {
            reveal(App::view);
        }
        (self.project_index, self.row_index)
    }

    /// The pane that has the keys.
    pub fn focused(&self) -> (focus: Focus)
        ensures
            focus == self.view().focus,
    {
        proof {
            reveal(App::view);
        }
        self.focus
    }

    fn preview_request(&self) -> (effect: Option<Effect>)
        ensures
            preview_effects(self.view()) == match effect {
                Some(effect) => seq![effect.view()],
                None => Seq::empty(),
            },
    {
        proof {
            reveal(App::view);
        }
        match self.current_row() {
            Some(Row::Thread { thread, live: _ }) => match self.place_of_harness(
                thread.harness_id.as_str(),
            ) {
                Some(at) => Some(
                    Effect::ReadMessages {
                        harness: at,
                        thread_id: thread.id.clone(),
                        turns: self.config.codex.transcript_turns,
                    },
                ),
                None => None,
            },
            _ => None,
        }
    }

    fn without_preview(self) -> (app: App)
        ensures
            app.view() == (AppView { preview: Seq::empty(), preview_scroll: 0, ..self.view() }),
    {
        proof {
            reveal(App::view);
        }
        let mut app = self;
        app.preview = Vec::new();
        app.preview_scroll = 0;
        assert(messages_view(app.preview@) =~= Seq::<(Seq<char>, Seq<char>)>::empty());
        app
    }

    /// Clears the preview, and asks for the messages of the selected chat.
    pub fn load_preview(self) -> (next: Next)
        ensures
            next.outcome() == previewed(self.view()),
    {
        proof {
            reveal(previewed);
        }
        let app = self.without_preview();
        match app.preview_request() {
            Some(effect) => app.asking_for(effect),
            None => app.quietly(),
        }
    }

    /// Shows the messages that were read for the preview, or why they could not be read.
    pub fn messages_read(self, result: Result<Vec<Message>, String>) -> (app: App)
        ensures
            app.view() == after_reading(
                self.view(),
                match result {
                    Ok(messages) => Ok(messages_view(messages@)),
                    Err(message) => Err(message@),
                },
            ),
            app.view() == match result {
                Ok(messages) => AppView { preview: messages_view(messages@), ..self.view() },
                Err(message) => saying(self.view(), message@),
            },
    {
        proof {
            reveal(App::view);
        }
        match result {
            Ok(messages) => {
                let mut app = self;
                app.preview = messages;
                app
            },
            Err(message) => self.saying(message),
        }
    }

    /// Selects the first project that fits what is searched for.
    pub fn reset_search_selection(self) -> (next: Next)
        ensures
            next.outcome() == searched(self.view()),
    {
        proof {
            reveal(searched);
        }
        let visible = self.visible_project_indices();
        assert(visible@.map_values(|at: usize| at as int).len() == visible@.len());
        let place: usize = if visible.len() > 0 {
            visible[0]
        } else {
            0
        };
        self.with_project(place).load_preview()
    }

    /// Selects the next entry, some entries further.
    pub fn select_next(self, delta: isize) -> (next: Next)
        ensures
            next.outcome() == previewed(with_next(self.view(), delta as int)),
    {
        proof {
            reveal(with_next);
        }
        let (project_index, row_index) = self.selection();
        match self.focused() {
            Focus::Projects => {
                let visible = self.visible_project_indices();
                assert(visible@.map_values(|at: usize| at as int).len() == visible@.len());
                let position: usize = index_of(&visible, project_index);
                let at: usize = move_index(position, visible.len(), delta);
                let place: usize = if at < visible.len() {
                    visible[at]
                } else {
                    0
                };
                self.with_project(place).load_preview()
            },
            Focus::Threads => {
                let count: usize = self.current_rows().len();
                self.with_row(move_index(row_index, count, delta)).load_preview()
            },
            Focus::Preview => self.load_preview(),
        }
    }

    /// Scrolls the preview.
    pub fn scroll_preview(self, delta: isize) -> (app: App)
        ensures
            app.view() == scrolled(self.view(), delta as int),
    {
        proof {
            reveal(App::view);
            reveal(scrolled);
        }
        let mut app = self;
        if delta < 0 {
            let size: u128 = (-(delta as i128)) as u128;
            app.preview_scroll = app.preview_scroll.saturating_add((size % 65536) as u16);
        } else {
            let size: u128 = delta as u128;
            app.preview_scroll = app.preview_scroll.saturating_sub((size % 65536) as u16);
        }
        app.focus = Focus::Preview;
        app
    }

    /// Selects the first or the last entry.
    pub fn select_boundary(self, last: bool) -> (next: Next)
        ensures
            next.outcome() == previewed(with_boundary(self.view(), last)),
    {
        proof {
            reveal(with_boundary);
        }
        match self.focused() {
            Focus::Projects => {
                let visible = self.visible_project_indices();
                assert(visible@.map_values(|at: usize| at as int).len() == visible@.len());
                let place: usize = if visible.len() == 0 {
                    0
                } else if last {
                    visible[visible.len() - 1]
                } else {
                    visible[0]
                };
                self.with_project(place).load_preview()
            },
            Focus::Threads => {
                let count: usize = self.current_rows().len();
                let index: usize = if last && count > 0 {
                    count - 1
                } else {
                    0
                };
                self.with_row(index).load_preview()
            },
            Focus::Preview => self.load_preview(),
        }
    }

    /// Opens the selected row.
    pub fn activate(self) -> (next: Next)
        ensures
            next.outcome() == activated(self.view()),
    {
        proof {
            reveal(activated);
        }
        match self.current_row() {
            None => self.quietly(),
            Some(Row::Agent(window)) => self.asking_for(Effect::Switch(window)),
            Some(Row::Thread { thread, live }) => match live {
                Some(window) => self.asking_for(Effect::Switch(window)),
                None => self.open_thread(*thread),
            },
        }
    }

    /// Opens a chat in a new pane.
    pub fn open_thread(self, thread: Thread) -> (next: Next)
        ensures
            next.outcome() == opened(self.view(), thread),
    {
        proof {
            reveal(App::view);
            reveal(opened);
        }
        match self.place_of_harness(thread.harness_id.as_str()) {
            None => self.saying("thread belongs to an unavailable harness".to_owned()).quietly(),
            Some(at) => {
                if self.harnesses[at].command_available() {
                    self.asking_for(Effect::OpenThread { thread, harness: at })
                } else {
                    let message = self.harnesses[at].missing_cli_message();
                    self.saying(message).quietly()
                }
            },
        }
    }

    /// Asks for the path of a new project.
    pub fn begin_new_project(self) -> (app: App)
        ensures
            app.view() == asking_project(self.view()),
    {
        proof {
            reveal(App::view);
            reveal(asking_project);
        }
        let mut app = self;
        app.new_project_path = String::new();
        app.new_project_mode = true;
        app
    }

    /// Asks for a new chat.
    pub fn begin_new_thread(self) -> (app: App)
        ensures
            app.view() == asking_chat(self.view()),
    {
        proof {
            reveal(App::view);
            reveal(asking_chat);
        }
        let usual: Option<usize> = self.place_of_harness(self.config.ui.default_harness.as_str());
        let mut app = self;
        app.new_chat_name = String::new();
        app.new_chat_harness_error = None;
        app.new_chat_harness_index = match usual {
            Some(at) => at,
            None => 0,
        };
        app.new_chat_picking_harness = app.harnesses.len() > 1;
        app.new_chat_mode = true;
        app
    }

    /// Shows archived chats where they are not shown, and hides them where they are.
    pub fn toggle_archived(self) -> (next: Next)
        ensures
            next.outcome() == toggled(self.view()),
    {
        proof {
            reveal(App::view);
            reveal(toggled);
        }
        let mut app = self;
        app.show_archived = !app.show_archived;
        app.asking_for(Effect::RefreshView)
    }

    /// Takes the selected harness for a new chat, where it can be started.
    pub fn select_new_chat_harness(self) -> (app: App)
        ensures
            app.view() == harness_chosen(self.view()),
    {
        proof {
            reveal(App::view);
            reveal(harness_chosen);
        }
        let mut app = self;
        if app.new_chat_harness_index < app.harnesses.len() {
            let at: usize = app.new_chat_harness_index;
            if app.harnesses[at].command_available() {
                app.new_chat_harness_error = None;
                app.new_chat_picking_harness = false;
            } else {
                app.new_chat_harness_error = Some(app.harnesses[at].missing_cli_message());
            }
        } else {
            app.new_chat_harness_error = Some("Selected harness is unavailable".to_owned());
        }
        app
    }

    /// Selects another harness for a new chat.
    pub fn move_new_chat_harness(self, delta: isize) -> (app: App)
        ensures
            app.view() == harness_moved(self.view(), delta as int),
    {
        proof {
            reveal(App::view);
            reveal(harness_moved);
        }
        let mut app = self;
        app.new_chat_harness_index = move_index(
            app.new_chat_harness_index,
            app.harnesses.len(),
            delta,
        );
        app.new_chat_harness_error = None;
        app
    }

    /// Takes a harness for a new chat, where it can be started.
    pub fn set_new_chat_harness_index(self, index: usize) -> (app: App)
        ensures
            app.view() == harness_chosen(
                AppView { new_chat_harness_index: index as int, ..self.view() },
            ),
    {
        proof {
            reveal(App::view);
        }
        let mut app = self;
        app.new_chat_harness_index = index;
        app.select_new_chat_harness()
    }

    fn with_archived(self, thread: &Thread, archived: bool) -> (app: App)
        ensures
            app.view() == (AppView {
                state: StateView {
                    archived_threads: with_thread(
                        self.view().state.archived_threads,
                        (thread.harness_id@, thread.id@),
                        archived,
                    ),
                    ..self.view().state
                },
                ..self.view()
            }),
    {
        proof {
            reveal(App::view);
        }
        let mut app = self;
        app.state.set_archived(thread.harness_id.as_str(), thread.id.as_str(), archived);
        app
    }

    /// Archives the selected chat, or takes it back.
    pub fn set_selected_archived(self, archived: bool) -> (next: Next)
        ensures
            next.outcome() == self::archived(self.view(), archived),
    {
        proof {
            reveal(self::archived);
        }
        match self.current_row() {
            Some(Row::Thread { thread, live: _ }) => self.with_archived(
                &thread,
                archived,
            ).asking_for(Effect::SaveAndRefresh),
            _ => self.saying("Select a saved chat first".to_owned()).quietly(),
        }
    }

    fn with_prompt(self, target: DeleteTarget) -> (app: App)
        ensures
            app.view() == (AppView {
                delete_prompt: Some(
                    PromptView { target: target.view(), choice: DeleteChoice::No },
                ),
                ..self.view()
            }),
    {
        proof {
            reveal(App::view);
        }
        let mut app = self;
        app.delete_prompt = Some(DeletePrompt { target, choice: DeleteChoice::No });
        app
    }

    fn project_target(&self) -> (target: Option<DeleteTarget>)
        ensures
            match (target, self.view().project()) {
                (Some(target), Some(project)) => target.view() == (TargetView::Project {
                    name: project.name,
                    cwd: project.cwd,
                }),
                (None, None) => true,
                _ => false,
            },
    {
        match self.current_project() {
            Some(project) => Some(
                DeleteTarget::Project { name: project.name.clone(), cwd: project.cwd.clone() },
            ),
            None => None,
        }
    }

    /// Asks whether the selected project or chat is deleted.
    pub fn begin_delete(self) -> (app: App)
        ensures
            app.view() == asking_delete(self.view()),
    {
        proof {
            reveal(asking_delete);
        }
        match self.focused() {
            Focus::Projects => match self.project_target() {
                Some(target) => self.with_prompt(target),
                None => self.saying("Select a project first".to_owned()),
            },
            _ => match self.current_row() {
                Some(Row::Thread { thread, live: _ }) => self.with_prompt(
                    DeleteTarget::Chat { thread: *thread },
                ),
                _ => self.saying("Select a saved chat first".to_owned()),
            },
        }
    }

    fn taking_prompt(self) -> (taken: (App, Option<DeletePrompt>))
        ensures
            taken.0.view() == (AppView { delete_prompt: None, ..self.view() }),
            prompt_view(taken.1) == self.view().delete_prompt,
    {
        proof {
            reveal(App::view);
        }
        let mut app = self;
        let prompt = app.delete_prompt;
        app.delete_prompt = None;
        (app, prompt)
    }

    /// Does what the selected answer to the question whether something is deleted says.
    pub fn confirm_delete(self) -> (next: Next)
        ensures
            next.outcome() == delete_confirmed(self.view()),
    {
        proof {
            reveal(delete_confirmed);
        }
        match self.taking_prompt() {
            (app, None) => app.quietly(),
            (app, Some(prompt)) => app.answer_delete(prompt),
        }
    }

    /// Hides a project.
    pub fn hide_project(self, cwd: &str) -> (app: App)
        ensures
            app.view() == project_hidden(self.view(), cwd@),
    {
        proof {
            reveal(App::view);
        }
        let mut app = self;
        app.state.hide_project_path(cwd);
        app
    }

    /// Does what an answer to the question whether something is deleted says.
    pub fn answer_delete(self, prompt: DeletePrompt) -> (next: Next)
        ensures
            next.outcome() == delete_answered(
                self.view(),
                PromptView { target: prompt.target.view(), choice: prompt.choice },
            ),
    {
        proof {
            reveal(delete_answered);
        }
        match prompt.choice {
            DeleteChoice::No => self.asking_for(Effect::RefreshView),
            DeleteChoice::Hide => match prompt.target {
                DeleteTarget::Project { name: _, cwd } => self.hide_project(
                    cwd.as_str(),
                ).asking_for(Effect::SaveAndRefresh),
                DeleteTarget::Chat { thread: _ } => self.asking_for(Effect::RefreshView),
            },
            DeleteChoice::Delete => match prompt.target {
                DeleteTarget::Project { name: _, cwd } => self.asking_for(
                    Effect::RemoveProject(cwd),
                ),
                DeleteTarget::Chat { thread } => self.asking_for(Effect::DeleteChat(thread)),
            },
        }
    }

    /// Hides a project whose directory was removed.
    pub fn project_removed(self, cwd: &str) -> (next: Next)
        ensures
            next.outcome() == asking(
                project_hidden(self.view(), cwd@),
                EffectView::SaveAndRefresh,
            ),
    {
        self.hide_project(cwd).asking_for(Effect::SaveAndRefresh)
    }

    /// Does what an action of the status bar stands for.
    pub fn run_status_action(self, action: StatusAction) -> (next: Next)
        ensures
            next.outcome() == status_action_done(self.view(), action),
    {
        proof {
            reveal(status_action_done);
        }
        match action {
            StatusAction::Open => self.activate(),
            StatusAction::NewProject => self.begin_new_project().quietly(),
            StatusAction::New => self.begin_new_thread().quietly(),
            StatusAction::Search => self.with_search_mode(true).quietly(),
            StatusAction::ToggleArchived => self.toggle_archived(),
            StatusAction::SetArchived => self.set_selected_archived(true),
            StatusAction::SetUnarchived => self.set_selected_archived(false),
            StatusAction::Delete => self.begin_delete().quietly(),
            StatusAction::Help => self.with_help(true).quietly(),
        }
    }

    /// Makes a new project of the path that was typed.
    pub fn submit_new_project(self, env: &Environment) -> (next: Next)
        ensures
            next.outcome() == project_submitted(self.view(), *env),
    {
        proof {
            reveal(App::view);
            reveal(project_submitted);
        }
        let path = trim(self.new_project_path.as_str());
        if path.is_empty() {
            return self.saying("Project path cannot be empty".to_owned()).quietly();
        }
        let directory = new_project_path(path, env);
        self.asking_for(Effect::CreateProject(directory))
    }

    fn with_missing_harness(self, message: String) -> (app: App)
        ensures
            app.view() == (AppView {
                new_chat_harness_error: Some(message@),
                new_chat_picking_harness: true,
                ..self.view()
            }),
    {
        proof {
            reveal(App::view);
        }
        let mut app = self;
        app.new_chat_harness_error = Some(message);
        app.new_chat_picking_harness = true;
        app
    }

    /// Starts a new chat of the name that was typed.
    pub fn submit_new_thread(self) -> (next: Next)
        ensures
            next.outcome() == chat_submitted(self.view()),
    {
        proof {
            reveal(App::view);
            reveal(chat_submitted);
        }
        if self.project_index >= self.projects.len() {
            return self.quietly();
        }
        let at: usize = self.project_index;
        assert(project_views(self.projects@)[at as int] == self.projects@[at as int].view());
        let title = trim(self.new_chat_name.as_str()).to_owned();
        if title.as_str().is_empty() {
            return self.saying("Chat name cannot be empty".to_owned()).quietly();
        }
        let chosen: usize = self.new_chat_harness_index;
        if chosen >= self.harnesses.len() {
            return self.saying("Selected harness is unavailable".to_owned()).quietly();
        }
        if !self.harnesses[chosen].command_available() {
            let message = self.harnesses[chosen].missing_cli_message();
            return self.with_missing_harness(message).quietly();
        }
        let taken = chat_exists(
            &self.projects[at].threads,
            self.harnesses[chosen].id.as_str(),
            title.as_str(),
        );
        if taken {
            let mut message = "A chat named `".to_owned();
            message.append(title.as_str());
            message.append("` already exists in this project");
            return self.saying(message).quietly();
        }
        let cwd = self.projects[at].cwd.clone();
        self.asking_for(Effect::OpenChat { cwd, title, harness: chosen })
    }
}

fn chat_exists(threads: &Vec<Thread>, harness_id: &str, title: &str) -> (found: bool)
    ensures
        found == has_chat(threads@, harness_id@, title@),
{
    let count: usize = threads.len();
    let mut index: usize = 0;
    while index < count
        invariant
            index <= count,
            count == threads@.len(),
            forall|k: int|
                0 <= k < index ==> !((#[trigger] threads@[k]).harness_id@ == harness_id@ && opt_text(
                    threads@[k].name,
                ) == Some(title@)),
        decreases count - index,
    {
        if same_text(threads[index].harness_id.as_str(), harness_id) && is_text(
            &threads[index].name,
            title,
        ) {
            return true;
        }
        index = index + 1;
    }
    false
}

} // verus!

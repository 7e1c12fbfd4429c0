//! How the interface begins, and what follows when something was done outside of it.
use vstd::prelude::*;
use vstd::string::*;

use crate::actions::{archived, previewed, project_hidden, quiet, saying, Next};
use crate::agent::{messages_view, Harness, Thread};
use crate::app::{App, AppView, EffectView, Focus};
use crate::config::{Config, Environment};
use crate::launch::{pi_session_dir, remember_opened, session_dir_for, start_failures,
    start_harnesses, started};
use crate::model::{project_views, projects_of, Project, ProjectView, Row};
use crate::path::{is_same_path, same_path};
use crate::refresh::{empty_project, has_directory, known_threads, law_shown_chat_was_listed,
    law_shown_project, pane_test, refreshed, shown_test, Listed};
use crate::state::{law_added_project, law_hidden_project, law_thread_is_set, with_thread, State,
    StateView};
use crate::text::{is_text, joined_with, opt_str, opt_text, same_text, texts};
use crate::tmux::{has_text, normalized_path, AgentLaunch, CanonicalPaths, Client, Window,
    WindowView};

verus! {

/// The name that the user's messages are shown under.
pub open spec fn user_of(env: Environment) -> Seq<char> {
    match env.value("USER"@) {
        Some(name) => name,
        None => match env.value("USERNAME"@) {
            Some(name) => name,
            None => "You"@,
        },
    }
}

/// Finds the name that the user's messages are shown under.
pub fn user_name(env: &Environment) -> (name: String)
    ensures
        name@ == user_of(*env),
{
    match env.var("USER") {
        Some(name) => name.to_owned(),
        None => match env.var("USERNAME") {
            Some(name) => name.to_owned(),
            None => "You".to_owned(),
        },
    }
}

/// The interface before threads and panes were looked at.
pub open spec fn begun(
    config: Config,
    tmux: Client,
    state: StateView,
    harnesses: Seq<Harness>,
    cia_command: Seq<char>,
    username: Seq<char>,
) -> AppView {
    AppView {
        config,
        cia_command,
        username,
        harnesses,
        tmux,
        state,
        projects: Seq::empty(),
        all_windows: Seq::empty(),
        project_index: 0,
        row_index: 0,
        focus: Focus::Projects,
        show_archived: config.ui.archived_default,
        search_mode: false,
        query: Seq::empty(),
        new_project_mode: false,
        new_project_path: Seq::empty(),
        new_chat_mode: false,
        new_chat_picking_harness: false,
        new_chat_harness_index: 0,
        new_chat_harness_error: None,
        new_chat_name: Seq::empty(),
        preview: Seq::empty(),
        preview_scroll: 0,
        status: Seq::empty(),
        show_help: false,
        delete_prompt: None,
        last_click: None,
        pending_g: false,
        running: true,
    }
}

/// The place of the first project of a directory.
pub open spec fn project_place(projects: Seq<ProjectView>, cwd: Seq<char>) -> Option<int>
    decreases projects.len(),
{
    if projects.len() == 0 {
        None
    } else {
        match project_place(projects.drop_last(), cwd) {
            Some(at) => Some(at),
            None => if projects.last().cwd == cwd {
                Some(projects.len() - 1)
            } else {
                None
            },
        }
    }
}

/// The directory whose project is selected at first: the one that was asked for, else the last one
/// that was used.
pub open spec fn first_directory(
    preferred: Option<Seq<char>>,
    last: Option<Seq<char>>,
    canonical: CanonicalPaths,
) -> Option<Seq<char>> {
    match preferred {
        Some(path) => Some(canonical.normal(path)),
        None => last,
    }
}

/// The interface with the project of a directory selected, where there is one.
pub open spec fn at_directory(app: AppView, cwd: Option<Seq<char>>) -> AppView {
    match cwd {
        Some(cwd) => match project_place(app.projects, cwd) {
            Some(at) => AppView { project_index: at, ..app },
            None => app,
        },
        None => app,
    }
}

fn find_project(projects: &Vec<Project>, cwd: &str) -> (place: Option<usize>)
    ensures
        match place {
            Some(at) => at < projects@.len() && project_place(project_views(projects@), cwd@)
                == Some(at as int),
            None => project_place(project_views(projects@), cwd@) is None,
        },
{
    let ghost all = project_views(projects@);
    let count: usize = projects.len();
    let mut index: usize = 0;
    while index < count
        invariant
            index <= count,
            count == projects@.len(),
            all == project_views(projects@),
            project_place(all.take(index as int), cwd@) is None,
        decreases count - index,
    {
        proof {
            assert(all.take(index + 1).drop_last() =~= all.take(index as int));
            assert(all.take(index + 1).last() == projects@[index as int].view());
        }
        if same_text(projects[index].cwd.as_str(), cwd) {
            proof {
                lemma_place_stays(all, cwd@, index + 1);
            }
            return Some(index);
        }
        index = index + 1;
    }
    assert(all.take(count as int) =~= all);
    None
}

proof fn lemma_place_stays(projects: Seq<ProjectView>, cwd: Seq<char>, count: int)
    requires
        0 <= count <= projects.len(),
        project_place(projects.take(count), cwd) is Some,
    ensures
        project_place(projects, cwd) == project_place(projects.take(count), cwd),
    decreases projects.len(),
{
    if count < projects.len() {
        assert(projects.drop_last().take(count) =~= projects.take(count));
        lemma_place_stays(projects.drop_last(), cwd, count);
    } else {
        assert(projects.take(count) =~= projects);
    }
}

/// Whether a pane is killed with a chat: a pane of an agents' window, of the chat's directory and
/// harness, that bears the chat's thread or its title.
pub open spec fn goes_with(
    window: Window,
    thread: Thread,
    agent_window_names: Seq<Seq<char>>,
    canonical: CanonicalPaths,
) -> bool {
    &&& agent_window_names.contains(window.window_name@)
    &&& same_path(canonical.normal(window.cwd@), canonical.normal(thread.cwd@))
    &&& opt_text(window.harness_id) == Some(thread.harness_id@)
    &&& (opt_text(window.thread_id) == Some(thread.id@) || opt_text(window.chat_title) == Some(
        thread.shown_title(),
    ) || (window.chat_title is Some && opt_text(window.chat_title) == opt_text(thread.name)))
}

/// Tests whether a pane is killed with a chat.
pub fn deleted_chat_agent_pane_matches(
    window: &Window,
    thread: &Thread,
    agent_window_names: &Vec<String>,
    canonical: &CanonicalPaths,
) -> (found: bool)
    ensures
        found == goes_with(*window, *thread, texts(agent_window_names@), *canonical),
{
    if !has_text(agent_window_names, window.window_name.as_str()) {
        return false;
    }
    let left = normalized_path(window.cwd.as_str(), canonical);
    let right = normalized_path(thread.cwd.as_str(), canonical);
    if !is_same_path(left.as_str(), right.as_str()) || !is_text(
        &window.harness_id,
        thread.harness_id.as_str(),
    ) {
        return false;
    }
    if is_text(&window.thread_id, thread.id.as_str()) {
        return true;
    }
    match &window.chat_title {
        Some(chat_title) => same_text(chat_title.as_str(), thread.title()) || is_text(
            &thread.name,
            chat_title.as_str(),
        ),
        None => false,
    }
}

/// The test for panes that are killed with a chat.
pub open spec fn goes_with_test(
    thread: Thread,
    agent_window_names: Seq<Seq<char>>,
    canonical: CanonicalPaths,
) -> spec_fn(Window) -> bool {
    |window: Window| goes_with(window, thread, agent_window_names, canonical)
}

/// The identifiers of panes.
pub open spec fn pane_ids(windows: Seq<Window>) -> Seq<Seq<char>> {
    windows.map_values(|window: Window| window.pane_id@)
}

/// Lists the panes that are killed with a chat.
pub fn kill_deleted_chat_agent_panes(
    windows: &Vec<Window>,
    thread: &Thread,
    agent_window_names: &Vec<String>,
    canonical: &CanonicalPaths,
) -> (panes: Vec<String>)
    ensures
        texts(panes@) == pane_ids(
            windows@.filter(goes_with_test(*thread, texts(agent_window_names@), *canonical)),
        ),
{
    let ghost all = windows@;
    let ghost test = goes_with_test(*thread, texts(agent_window_names@), *canonical);
    let mut panes: Vec<String> = Vec::new();
    let count: usize = windows.len();
    let mut index: usize = 0;
    proof {
        reveal(Seq::filter);
        assert(texts(panes@) =~= pane_ids(all.take(0).filter(test)));
    }
    while index < count
        invariant
            index <= count,
            count == windows@.len(),
            all == windows@,
            test == goes_with_test(*thread, texts(agent_window_names@), *canonical),
            texts(panes@) == pane_ids(all.take(index as int).filter(test)),
        decreases count - index,
    {
        let ghost before = panes@;
        let window = &windows[index];
        proof {
            reveal(Seq::filter);
            assert(all.take(index + 1).drop_last() =~= all.take(index as int));
            assert(all.take(index + 1).last() == *window);
        }
        if deleted_chat_agent_pane_matches(window, thread, agent_window_names, canonical) {
            panes.push(window.pane_id.clone());
            let ghost kept = all.take(index as int).filter(test);
            assert(texts(panes@) =~= texts(before).push(window.pane_id@));
            assert(pane_ids(kept.push(*window)) =~= pane_ids(kept).push(window.pane_id@));
        }
        index = index + 1;
    }
    assert(all.take(count as int) =~= all);
    panes
}

/// Finds the files that a chat is kept in, and fails where none are known.
pub fn delete_chat_files(thread: &Thread) -> (result: Result<Vec<String>, String>)
    ensures
        match (result, thread.path) {
            (Ok(paths), Some(path)) => texts(paths@) == seq![path@],
            (Err(message), None) => message@ == "No on-disk chat path is known for this "@
                + thread.harness_id@ + " chat"@,
            _ => false,
        },
{
    let known = thread.storage_paths();
    if known.len() == 0 {
        let mut message = "No on-disk chat path is known for this ".to_owned();
        message.append(thread.harness_id.as_str());
        message.append(" chat");
        return Err(message);
    }
    let paths: Vec<String> = vec![known[0].to_owned()];
    assert(texts(paths@) =~= seq![thread.path->0@]);
    Ok(paths)
}

/// What is at a path.
#[derive(Clone, Copy, Debug, PartialEq, Eq, Structural)]
pub enum Found {
    Directory,
    File,
    Nothing,
    Unknown,
}

/// How a path is removed.
#[derive(Clone, Copy, Debug, PartialEq, Eq, Structural)]
pub enum Removal {
    Directory,
    File,
    Nothing,
}

/// Decides how a path is removed, and fails where it cannot be told what is there.
pub fn remove_path_from_disk(path: &str, found: Found) -> (result: Result<Removal, String>)
    ensures
        match result {
            Ok(removal) => match found {
                Found::Directory => removal == Removal::Directory,
                Found::File => removal == Removal::File,
                Found::Nothing => removal == Removal::Nothing,
                Found::Unknown => false,
            },
            Err(message) => found == Found::Unknown && message@ == "failed to inspect "@ + path@,
        },
{
    match found {
        Found::Directory => Ok(Removal::Directory),
        Found::File => Ok(Removal::File),
        Found::Nothing => Ok(Removal::Nothing),
        Found::Unknown => {
            let mut message = "failed to inspect ".to_owned();
            message.append(path);
            Err(message)
        },
    }
}

/// Says that a path could not be removed.
pub fn removal_message(path: &str) -> (message: String)
    ensures
        message@ == "failed to remove "@ + path@,
{
    let mut message = "failed to remove ".to_owned();
    message.append(path);
    message
}

impl App {
    /// Begins the interface, given what came of starting the harnesses. Fails where none started.
    pub fn new(
        config: Config,
        state: State,
        results: Vec<Result<Harness, String>>,
        cia_command: String,
        env: &Environment,
    ) -> (result: Result<App, String>)
        ensures
            match result {
                Ok(app) => started(results@).len() > 0 && app.tmux.config.says_the_same(
                    config.tmux,
                ) && app.view() == begun(
                    config,
                    app.tmux,
                    state.view(),
                    started(results@),
                    cia_command@,
                    user_of(*env),
                ),
                Err(message) => started(results@).len() == 0 && message@
                    == "no harnesses available: "@ + joined_with(start_failures(results@), "; "@),
            },
    {
        let harnesses = match start_harnesses(results) {
            Ok(harnesses) => harnesses,
            Err(message) => {
                return Err(message);
            },
        };
        let tmux = Client::new(config.tmux.clone());
        let app = App {
            cia_command,
            username: user_name(env),
            harnesses,
            tmux,
            state,
            projects: Vec::new(),
            all_windows: Vec::new(),
            project_index: 0,
            row_index: 0,
            focus: Focus::Projects,
            show_archived: config.ui.archived_default,
            search_mode: false,
            query: String::new(),
            new_project_mode: false,
            new_project_path: String::new(),
            new_chat_mode: false,
            new_chat_picking_harness: false,
            new_chat_harness_index: 0,
            new_chat_harness_error: None,
            new_chat_name: String::new(),
            preview: Vec::new(),
            preview_scroll: 0,
            status: String::new(),
            show_help: false,
            delete_prompt: None,
            last_click: None,
            pending_g: false,
            running: true,
            config,
        };
        proof {
            reveal(App::view);
            assert(project_views(app.projects@) =~= Seq::<ProjectView>::empty());
            assert(messages_view(app.preview@) =~= Seq::<
                (Seq<char>, Seq<char>),
            >::empty());
        }
        Ok(app)
    }
}

/// The interface after the switch to a pane: it ends, or says why the switch failed.
pub open spec fn after_switch(app: AppView, result: Result<(), String>) -> AppView {
    match result {
        Ok(_) => AppView { running: false, ..app },
        Err(message) => saying(app, message@),
    }
}

/// The interface after the switch to the pane of a new chat.
pub open spec fn after_chat_switch(app: AppView, result: Result<(), String>) -> AppView {
    match result {
        Ok(_) => AppView { new_chat_mode: false, running: false, ..app },
        Err(message) => saying(app, message@),
    }
}

/// The interface with a directory added to the projects, as the last one that was used.
pub open spec fn with_new_project(app: AppView, cwd: Seq<char>) -> AppView {
    AppView {
        state: StateView { last_project: Some(cwd), ..app.state.with_project(cwd) },
        ..app
    }
}

/// The interface after a chat was opened in a pane.
pub open spec fn with_opened(app: AppView, thread: Thread, window: Window) -> AppView {
    AppView {
        state: StateView {
            last_project: Some(thread.cwd@),
            ..app.state.with_mapping(thread.harness_id@, thread.id@, window.view())
        },
        ..app
    }
}

/// The interface with a new project selected, where it is shown.
#[verifier::opaque]
pub open spec fn at_new_project(app: AppView, cwd: Seq<char>) -> Option<AppView> {
    match project_place(app.projects, cwd) {
        Some(at) => Some(
            AppView { project_index: at, row_index: 0, focus: Focus::Projects, ..app },
        ),
        None => None,
    }
}

/// Whether an agent is opened for a saved chat: in its directory, under its title, to go on with it.
pub open spec fn goes_on_with(launch: AgentLaunch<'_>, thread: Thread) -> bool {
    &&& launch.cwd@ == thread.cwd@
    &&& launch.title@ == thread.shown_title()
    &&& opt_str(launch.thread_id) == Some(thread.id@)
}

/// Whether an agent is opened for a new chat: in a directory, under a title.
pub open spec fn begins_anew(launch: AgentLaunch<'_>, cwd: Seq<char>, title: Seq<char>) -> bool {
    &&& launch.cwd@ == cwd
    &&& launch.title@ == title
    &&& launch.thread_id is None
}

/// Whether an agent is opened with a harness.
pub open spec fn runs(launch: AgentLaunch<'_>, harness: Harness) -> bool {
    &&& launch.harness_id@ == harness.id@
    &&& launch.agent_command@ == harness.command@
}

impl App {
    fn with_place(self, place: Option<usize>) -> (app: App)
        ensures
            app.view() == match place {
                Some(at) => AppView { project_index: at as int, ..self.view() },
                None => self.view(),
            },
    {
        proof {
            reveal(App::view);
        }
        match place {
            Some(at) => {
                let mut app = self;
                app.project_index = at;
                app
            },
            None => self,
        }
    }

    /// Selects the project that was asked for, or the one that was last used, and asks for the
    /// preview.
    pub fn select_initial(
        self,
        preferred: Option<&str>,
        canonical: &CanonicalPaths,
    ) -> (next: Next)
        ensures
            next.outcome() == previewed(
                at_directory(
                    self.view(),
                    first_directory(
                        opt_str(preferred),
                        self.view().state.last_project,
                        *canonical,
                    ),
                ),
            ),
    {
        proof {
            reveal(App::view);
        }
        let place: Option<usize> = match preferred {
            Some(path) => {
                let directory = normalized_path(path, canonical);
                find_project(&self.projects, directory.as_str())
            },
            None => match &self.state.last_project {
                Some(last) => find_project(&self.projects, last.as_str()),
                None => None,
            },
        };
        self.with_place(place).load_preview()
    }

    /// Asks for the preview after threads and panes were looked at, and says why that failed,
    /// where it did.
    pub fn refresh_view(self, result: Result<(), String>) -> (next: Next)
        ensures
            next.outcome() == previewed(
                match result {
                    Ok(_) => self.view(),
                    Err(message) => saying(self.view(), message@),
                },
            ),
    {
        match result {
            Ok(_) => self.load_preview(),
            Err(message) => self.saying(message).load_preview(),
        }
    }

    /// Ends the program after the switch to a pane, or says why the switch failed.
    pub fn switched(self, result: Result<(), String>) -> (app: App)
        ensures
            app.view() == after_switch(self.view(), result),
    {
        match result {
            Ok(_) => self.stopped(),
            Err(message) => self.saying(message),
        }
    }

    /// Ends the program after the switch to the pane of a new chat, or says why it failed.
    pub fn chat_switched(self, result: Result<(), String>) -> (app: App)
        ensures
            app.view() == after_chat_switch(self.view(), result),
    {
        proof {
            reveal(App::view);
        }
        match result {
            Ok(_) => {
                let mut app = self;
                app.new_chat_mode = false;
                app.running = false;
                app
            },
            Err(message) => self.saying(message),
        }
    }

    /// What a saved chat is opened with.
    pub fn thread_launch<'a>(&'a self, thread: &'a Thread, harness: usize) -> (launch: AgentLaunch<
        'a,
    >)
        requires
            harness < self.harnesses@.len(),
        ensures
            launch.inventory@ == self.all_windows@,
            launch.cwd@ == thread.cwd@,
            launch.title@ == thread.shown_title(),
            goes_on_with(launch, *thread),
            runs(launch, self.harnesses@[harness as int]),
            launch.harness_id@ == self.harnesses@[harness as int].id@,
            opt_str(launch.thread_id) == Some(thread.id@),
            launch.cia_command@ == self.cia_command@,
            launch.agent_command@ == self.harnesses@[harness as int].command@,
            opt_str(launch.session_dir) == session_dir_for(
                self.config,
                self.harnesses@[harness as int].id@,
            ),
    {
        AgentLaunch {
            inventory: self.all_windows.as_slice(),
            cwd: thread.cwd.as_str(),
            title: thread.title(),
            harness_id: self.harnesses[harness].id.as_str(),
            thread_id: Some(thread.id.as_str()),
            cia_command: self.cia_command.as_str(),
            agent_command: self.harnesses[harness].command.as_str(),
            session_dir: pi_session_dir(&self.config, self.harnesses[harness].id.as_str()),
        }
    }

    /// What a new chat is opened with.
    pub fn chat_launch<'a>(
        &'a self,
        cwd: &'a str,
        title: &'a str,
        harness: usize,
    ) -> (launch: AgentLaunch<'a>)
        requires
            harness < self.harnesses@.len(),
        ensures
            launch.inventory@ == self.all_windows@,
            launch.cwd@ == cwd@,
            launch.title@ == title@,
            begins_anew(launch, cwd@, title@),
            runs(launch, self.harnesses@[harness as int]),
            launch.harness_id@ == self.harnesses@[harness as int].id@,
            launch.thread_id is None,
            launch.cia_command@ == self.cia_command@,
            launch.agent_command@ == self.harnesses@[harness as int].command@,
            opt_str(launch.session_dir) == session_dir_for(
                self.config,
                self.harnesses@[harness as int].id@,
            ),
    {
        AgentLaunch {
            inventory: self.all_windows.as_slice(),
            cwd,
            title,
            harness_id: self.harnesses[harness].id.as_str(),
            thread_id: None,
            cia_command: self.cia_command.as_str(),
            agent_command: self.harnesses[harness].command.as_str(),
            session_dir: pi_session_dir(&self.config, self.harnesses[harness].id.as_str()),
        }
    }

    /// Remembers the pane that a chat was opened in.
    pub fn thread_opened(self, thread: &Thread, window: &Window) -> (app: App)
        ensures
            app.view() == with_opened(self.view(), *thread, *window),
    {
        proof {
            reveal(App::view);
        }
        let mut app = self;
        remember_opened(&mut app.state, thread, window);
        app
    }

    /// Remembers the directory that a new chat was opened in.
    pub fn chat_opened(self, cwd: &str) -> (app: App)
        ensures
            app.view() == (AppView {
                state: StateView { last_project: Some(cwd@), ..self.view().state },
                ..self.view()
            }),
    {
        proof {
            reveal(App::view);
        }
        let mut app = self;
        app.state.last_project = Some(cwd.to_owned());
        app
    }

    /// Says that the directory of a new project could not be made.
    pub fn project_failed(self, path: &str, error: &str) -> (app: App)
        ensures
            app.view() == saying(self.view(), "failed to create "@ + path@ + ": "@ + error@),
    {
        let mut message = "failed to create ".to_owned();
        message.append(path);
        message.append(": ");
        message.append(error);
        self.saying(message)
    }

    /// Adds the directory of a new project.
    pub fn project_created(self, cwd: &str) -> (app: App)
        ensures
            app.view() == with_new_project(self.view(), cwd@),
    {
        proof {
            reveal(App::view);
        }
        let mut app = self;
        app.state.add_project_path(cwd.to_owned());
        app.state.last_project = Some(cwd.to_owned());
        app
    }

    /// Stops asking for the path of a new project.
    pub fn project_saved(self) -> (app: App)
        ensures
            app.view() == (AppView { new_project_mode: false, ..self.view() }),
    {
        proof {
            reveal(App::view);
        }
        let mut app = self;
        app.new_project_mode = false;
        app
    }

    /// Selects a new project, where it is shown.
    pub fn select_project(self, cwd: &str) -> (next: Next)
        ensures
            next.outcome() == match at_new_project(self.view(), cwd@) {
                Some(selected) => previewed(selected),
                None => quiet(self.view()),
            },
    {
        proof {
            reveal(App::view);
            reveal(at_new_project);
        }
        let place: Option<usize> = find_project(&self.projects, cwd);
        match place {
            Some(at) => self.with_project(at).with_focus(Focus::Projects).load_preview(),
            None => self.quietly(),
        }
    }

    /// Forgets that a chat whose files were removed was archived.
    pub fn chat_removed(self, thread: &Thread) -> (app: App)
        ensures
            app.view() == (AppView {
                state: StateView {
                    archived_threads: with_thread(
                        self.view().state.archived_threads,
                        (thread.harness_id@, thread.id@),
                        false,
                    ),
                    ..self.view().state
                },
                ..self.view()
            }),
    {
        proof {
            reveal(App::view);
        }
        let mut app = self;
        app.state.set_archived(thread.harness_id.as_str(), thread.id.as_str(), false);
        app
    }
}

proof fn lemma_project_place(projects: Seq<ProjectView>, cwd: Seq<char>)
    ensures
        project_place(projects, cwd) is Some <==> has_directory(projects, cwd),
        project_place(projects, cwd) matches Some(at) ==> 0 <= at < projects.len()
            && projects[at].cwd == cwd,
    decreases projects.len(),
{
    if projects.len() > 0 {
        let rest = projects.drop_last();
        lemma_project_place(rest, cwd);
        assert(projects[projects.len() - 1] == projects.last());
        if has_directory(rest, cwd) {
            let k = choose|k: int| 0 <= k < rest.len() && (#[trigger] rest[k]).cwd == cwd;
            assert(projects[k] == rest[k]);
        }
        if has_directory(projects, cwd) && projects.last().cwd != cwd {
            let k = choose|k: int| 0 <= k < projects.len() && (#[trigger] projects[k]).cwd == cwd;
            assert(rest[k] == projects[k]);
        }
    }
}

/// After a project was added and threads and panes were looked at, the project is shown, and it is
/// the one that is selected, with the keys in the pane of the projects.
pub proof fn law_new_project_is_selected(
    app: AppView,
    cwd: Seq<char>,
    listed: Seq<Listed>,
    found: Seq<WindowView>,
    windows: Seq<Window>,
    canonical: CanonicalPaths,
)
    ensures
        at_new_project(
            refreshed(with_new_project(app, cwd), listed, found, windows, canonical),
            cwd,
        ) matches Some(selected) && selected.focus == Focus::Projects && selected.row_index == 0
            && (selected.project() matches Some(project) && project.cwd == cwd),
{
    reveal(at_new_project);
    let created = with_new_project(app, cwd);
    let after = refreshed(created, listed, found, windows, canonical);
    let state = created.state.reconciled(found);
    law_added_project(app.state, cwd, cwd);
    let known = known_threads(listed, created.state.archived_threads);
    let threads = known.filter(shown_test(created.show_archived));
    let panes = windows.filter(
        pane_test(created.show_archived, created.state.archived_threads, known, canonical),
    );
    let all = projects_of(threads, panes, created.tmux, canonical);
    assert(!state.hidden_project_paths.contains(cwd));
    assert(has_directory(after.projects, cwd)) by {
        if has_directory(all, cwd) {
            let k = choose|k: int| 0 <= k < all.len() && (#[trigger] all[k]).cwd == cwd;
            assert(all.contains(all[k]));
            law_shown_project(all, state, all[k]);
            let m = choose|m: int| 0 <= m < after.projects.len() && after.projects[m] == all[k];
            assert(after.projects[m].cwd == cwd);
        } else {
            law_shown_project(all, state, empty_project(cwd));
            let m = choose|m: int|
                0 <= m < after.projects.len() && after.projects[m] == empty_project(cwd);
            assert(after.projects[m].cwd == cwd);
        }
    }
    lemma_project_place(after.projects, cwd);
}

/// After a project was hidden and threads and panes were looked at, no project of its directory is
/// shown.
pub proof fn law_hidden_project_is_gone(
    app: AppView,
    cwd: Seq<char>,
    listed: Seq<Listed>,
    found: Seq<WindowView>,
    windows: Seq<Window>,
    canonical: CanonicalPaths,
)
    ensures
        !has_directory(
            refreshed(project_hidden(app, cwd), listed, found, windows, canonical).projects,
            cwd,
        ),
{
    let hidden = project_hidden(app, cwd);
    let after = refreshed(hidden, listed, found, windows, canonical);
    let state = hidden.state.reconciled(found);
    law_hidden_project(app.state, cwd, cwd);
    let known = known_threads(listed, hidden.state.archived_threads);
    let threads = known.filter(shown_test(hidden.show_archived));
    let panes = windows.filter(
        pane_test(hidden.show_archived, hidden.state.archived_threads, known, canonical),
    );
    let all = projects_of(threads, panes, hidden.tmux, canonical);
    if has_directory(after.projects, cwd) {
        let k = choose|k: int|
            0 <= k < after.projects.len() && (#[trigger] after.projects[k]).cwd == cwd;
        assert(after.projects.contains(after.projects[k]));
        law_shown_project(all, state, after.projects[k]);
    }
}

/// Archiving the selected chat is a matter of the state alone: no chat changes, the file that it is
/// kept in included, and all that is asked for is to save the state and to look at things anew.
pub proof fn law_archiving_leaves_files_alone(app: AppView, to: bool)
    ensures
        archived(app, to).app.projects == app.projects,
        archived(app, to).effects.len() == 0 || archived(app, to).effects
            == seq![EffectView::SaveAndRefresh],
{
    reveal(archived);
}

/// After the selected chat was archived and threads and panes were looked at, no project shows it,
/// unless archived chats are shown.
pub proof fn law_archived_chat_is_gone(
    app: AppView,
    thread: Thread,
    listed: Seq<Listed>,
    found: Seq<WindowView>,
    windows: Seq<Window>,
    canonical: CanonicalPaths,
    project: ProjectView,
    shown: Thread,
)
    requires
        app.row() matches Some(Row::Thread { thread: selected, live: _ }) && *selected == thread,
        !app.show_archived,
        refreshed(
            archived(app, true).app,
            listed,
            found,
            windows,
            canonical,
        ).projects.contains(project),
        project.threads.contains(shown),
    ensures
        !shown.is_thread(thread.harness_id@, thread.id@),
{
    reveal(archived);
    let after = archived(app, true).app;
    let key = (thread.harness_id@, thread.id@);
    law_thread_is_set(app.state.archived_threads, key, key, true);
    law_shown_chat_was_listed(after, listed, found, windows, canonical, project, shown);
}

} // verus!

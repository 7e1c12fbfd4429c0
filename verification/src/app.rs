//! The state of the interface: what is shown and selected, and how keys and clicks change it.
use vstd::prelude::*;
use vstd::string::*;

use crate::agent::{messages_view, Harness, Message, Thread};
use crate::config::Config;
use crate::model::{listed_rows, project_views, rows, Project, ProjectView, Row};
use crate::order::ranked;
use crate::search::{contains_ignore_case, fuzzy, fuzzy_matches};
use crate::state::{State, StateView};
use crate::text::{contains, lowercase, opt_text, same_text, to_lowercase};
use crate::tmux::{Client, Window};

verus! {

/// The pane that keys act on.
#[derive(Clone, Copy, Debug, PartialEq, Eq, Structural)]
pub enum Focus {
    Projects,
    Threads,
    Preview,
}

/// What can be done by a click on the status bar.
#[derive(Clone, Copy, Debug, PartialEq, Eq, Structural)]
pub enum StatusAction {
    Open,
    NewProject,
    New,
    Search,
    ToggleArchived,
    SetArchived,
    SetUnarchived,
    Delete,
    Help,
}

/// What was clicked on.
#[derive(Clone, Copy, Debug, PartialEq, Eq, Structural)]
pub enum ClickTarget {
    Project(usize),
    Thread(usize),
    Preview,
}

/// An answer to the question whether something is deleted.
#[derive(Clone, Copy, Debug, PartialEq, Eq, Structural)]
pub enum DeleteChoice {
    No,
    Hide,
    Delete,
}

/// The question whether something is deleted, with the answer that is selected.
#[derive(Debug)]
pub struct DeletePrompt {
    pub target: DeleteTarget,
    pub choice: DeleteChoice,
}

/// What is asked about.
#[derive(Debug)]
pub enum DeleteTarget {
    Project { name: String, cwd: String },
    Chat { thread: Thread },
}

/// The last click, and when it was, in nanoseconds.
#[derive(Clone, Copy, Debug, PartialEq, Eq, Structural)]
pub struct LastClick {
    pub target: ClickTarget,
    pub at: u128,
}

/// A question by its texts.
pub struct PromptView {
    pub target: TargetView,
    pub choice: DeleteChoice,
}

/// What is asked about, by its texts.
pub enum TargetView {
    Project { name: Seq<char>, cwd: Seq<char> },
    Chat { thread: Thread },
}

impl DeleteTarget {
    /// What is asked about, by its texts.
    pub open spec fn view(self) -> TargetView {
        match self {
            DeleteTarget::Project { name, cwd } => TargetView::Project { name: name@, cwd: cwd@ },
            DeleteTarget::Chat { thread } => TargetView::Chat { thread },
        }
    }
}

/// A question by its texts, where there is one.
pub open spec fn prompt_view(prompt: Option<DeletePrompt>) -> Option<PromptView> {
    match prompt {
        Some(prompt) => Some(PromptView { target: prompt.target.view(), choice: prompt.choice }),
        None => None,
    }
}

/// The state of the interface.
#[derive(Debug)]
pub struct App {
    pub config: Config,
    pub cia_command: String,
    pub username: String,
    pub harnesses: Vec<Harness>,
    pub tmux: Client,
    pub state: State,
    pub projects: Vec<Project>,
    pub all_windows: Vec<Window>,
    pub project_index: usize,
    pub row_index: usize,
    pub focus: Focus,
    pub show_archived: bool,
    pub search_mode: bool,
    pub query: String,
    pub new_project_mode: bool,
    pub new_project_path: String,
    pub new_chat_mode: bool,
    pub new_chat_picking_harness: bool,
    pub new_chat_harness_index: usize,
    pub new_chat_harness_error: Option<String>,
    pub new_chat_name: String,
    pub preview: Vec<Message>,
    pub preview_scroll: u16,
    pub status: String,
    pub show_help: bool,
    pub delete_prompt: Option<DeletePrompt>,
    pub last_click: Option<LastClick>,
    pub pending_g: bool,
    pub running: bool,
}

/// The state of the interface by its texts and its contents.
pub struct AppView {
    pub config: Config,
    pub cia_command: Seq<char>,
    pub username: Seq<char>,
    pub harnesses: Seq<Harness>,
    pub tmux: Client,
    pub state: StateView,
    pub projects: Seq<ProjectView>,
    pub all_windows: Seq<Window>,
    pub project_index: int,
    pub row_index: int,
    pub focus: Focus,
    pub show_archived: bool,
    pub search_mode: bool,
    pub query: Seq<char>,
    pub new_project_mode: bool,
    pub new_project_path: Seq<char>,
    pub new_chat_mode: bool,
    pub new_chat_picking_harness: bool,
    pub new_chat_harness_index: int,
    pub new_chat_harness_error: Option<Seq<char>>,
    pub new_chat_name: Seq<char>,
    pub preview: Seq<(Seq<char>, Seq<char>)>,
    pub preview_scroll: int,
    pub status: Seq<char>,
    pub show_help: bool,
    pub delete_prompt: Option<PromptView>,
    pub last_click: Option<LastClick>,
    pub pending_g: bool,
    pub running: bool,
}

impl App {
    /// The state of the interface by its texts and its contents.
    #[verifier::opaque]
    pub open spec fn view(self) -> AppView {
        AppView {
            config: self.config,
            cia_command: self.cia_command@,
            username: self.username@,
            harnesses: self.harnesses@,
            tmux: self.tmux,
            state: self.state.view(),
            projects: project_views(self.projects@),
            all_windows: self.all_windows@,
            project_index: self.project_index as int,
            row_index: self.row_index as int,
            focus: self.focus,
            show_archived: self.show_archived,
            search_mode: self.search_mode,
            query: self.query@,
            new_project_mode: self.new_project_mode,
            new_project_path: self.new_project_path@,
            new_chat_mode: self.new_chat_mode,
            new_chat_picking_harness: self.new_chat_picking_harness,
            new_chat_harness_index: self.new_chat_harness_index as int,
            new_chat_harness_error: opt_text(self.new_chat_harness_error),
            new_chat_name: self.new_chat_name@,
            preview: messages_view(self.preview@),
            preview_scroll: self.preview_scroll as int,
            status: self.status@,
            show_help: self.show_help,
            delete_prompt: prompt_view(self.delete_prompt),
            last_click: self.last_click,
            pending_g: self.pending_g,
            running: self.running,
        }
    }
}

/// Something that the interface asks to be done outside of it.
#[derive(Debug)]
pub enum Effect {
    /// Read the last messages of a thread of a harness for the preview.
    ReadMessages { harness: usize, thread_id: String, turns: usize },
    /// Open the selected row, once what was asked for before is done.
    Activate,
    /// Look at threads and panes anew.
    RefreshView,
    /// Save the state, then look at threads and panes anew.
    SaveAndRefresh,
    /// Bring a pane to the front and leave.
    Switch(Window),
    /// Open a chat in a new pane, bring it to the front and leave.
    OpenThread { thread: Thread, harness: usize },
    /// Start a new chat in a new pane, bring it to the front and leave.
    OpenChat { cwd: String, title: String, harness: usize },
    /// Make a directory for a new project.
    CreateProject(String),
    /// Remove the directory of a project.
    RemoveProject(String),
    /// Remove the files of a chat.
    DeleteChat(Thread),
}

/// An effect by its texts.
pub enum EffectView {
    ReadMessages { harness: int, thread_id: Seq<char>, turns: int },
    Activate,
    RefreshView,
    SaveAndRefresh,
    Switch(Window),
    OpenThread { thread: Thread, harness: int },
    OpenChat { cwd: Seq<char>, title: Seq<char>, harness: int },
    CreateProject(Seq<char>),
    RemoveProject(Seq<char>),
    DeleteChat(Thread),
}

impl Effect {
    /// The effect by its texts.
    pub open spec fn view(self) -> EffectView {
        match self {
            Effect::ReadMessages { harness, thread_id, turns } => EffectView::ReadMessages {
                harness: harness as int,
                thread_id: thread_id@,
                turns: turns as int,
            },
            Effect::Activate => EffectView::Activate,
            Effect::RefreshView => EffectView::RefreshView,
            Effect::SaveAndRefresh => EffectView::SaveAndRefresh,
            Effect::Switch(window) => EffectView::Switch(window),
            Effect::OpenThread { thread, harness } => EffectView::OpenThread {
                thread,
                harness: harness as int,
            },
            Effect::OpenChat { cwd, title, harness } => EffectView::OpenChat {
                cwd: cwd@,
                title: title@,
                harness: harness as int,
            },
            Effect::CreateProject(path) => EffectView::CreateProject(path@),
            Effect::RemoveProject(cwd) => EffectView::RemoveProject(cwd@),
            Effect::DeleteChat(thread) => EffectView::DeleteChat(thread),
        }
    }
}

/// Effects by their texts, in the order in which they are to be done.
pub open spec fn effect_views(effects: Seq<Effect>) -> Seq<EffectView> {
    effects.map_values(|effect: Effect| effect.view())
}

/// The place of the first harness with an identifier.
pub open spec fn harness_place(harnesses: Seq<Harness>, id: Seq<char>) -> Option<int>
    decreases harnesses.len(),
{
    if harnesses.len() == 0 {
        None
    } else {
        match harness_place(harnesses.drop_last(), id) {
            Some(at) => Some(at),
            None => if harnesses.last().id@ == id {
                Some(harnesses.len() - 1)
            } else {
                None
            },
        }
    }
}

/// The harness of a row, where it is known.
pub open spec fn row_harness(row: Row) -> Option<Seq<char>> {
    match row {
        Row::Agent(window) => opt_text(window.harness_id),
        Row::Thread { thread, live: _ } => Some(thread.harness_id@),
    }
}

/// Whether the harness of a row fits what is searched for, in lower case.
pub open spec fn harness_fits(harnesses: Seq<Harness>, id: Seq<char>, query: Seq<char>) -> bool {
    ||| fuzzy(id, query)
    ||| harness_place(harnesses, id) matches Some(at) && (fuzzy(harnesses[at].label@, query)
        || fuzzy(harnesses[at].marker@, query))
}

/// Whether a row fits what is searched for, in lower case.
pub open spec fn row_fits(harnesses: Seq<Harness>, row: Row, query: Seq<char>) -> bool {
    ||| query.len() == 0
    ||| fuzzy(row.shown_title(), query)
    ||| row matches Row::Thread { thread, live: _ } && contains(lowercase(thread.preview@), query)
    ||| row_harness(row) matches Some(id) && harness_fits(harnesses, id, query)
}

/// Whether a project fits what is searched for, in lower case, by its name or its directory.
pub open spec fn place_fits(project: ProjectView, query: Seq<char>) -> bool {
    fuzzy(project.name, query) || fuzzy(project.cwd, query)
}

/// All rows of a project.
pub open spec fn all_rows(project: ProjectView) -> Seq<Row> {
    ranked(listed_rows(project.threads, project.agents))
}

/// Whether a row of several fits what is searched for.
pub open spec fn any_row_fits(harnesses: Seq<Harness>, rows: Seq<Row>, query: Seq<char>) -> bool {
    exists|k: int| 0 <= k < rows.len() && row_fits(harnesses, #[trigger] rows[k], query)
}

/// Whether a project is shown for what is searched for, in lower case.
pub open spec fn project_fits(
    harnesses: Seq<Harness>,
    project: ProjectView,
    query: Seq<char>,
) -> bool {
    query.len() == 0 || place_fits(project, query) || any_row_fits(
        harnesses,
        all_rows(project),
        query,
    )
}

/// The places of the projects that are shown for what is searched for.
pub open spec fn fitting_places(
    harnesses: Seq<Harness>,
    projects: Seq<ProjectView>,
    query: Seq<char>,
) -> Seq<int>
    decreases projects.len(),
{
    if projects.len() == 0 {
        Seq::empty()
    } else {
        let before = fitting_places(harnesses, projects.drop_last(), query);
        if project_fits(harnesses, projects.last(), query) {
            before.push(projects.len() - 1)
        } else {
            before
        }
    }
}

/// The test for rows of a project that are shown for what is searched for.
pub open spec fn row_test(
    harnesses: Seq<Harness>,
    project: ProjectView,
    query: Seq<char>,
) -> spec_fn(Row) -> bool {
    |row: Row| query.len() == 0 || place_fits(project, query) || row_fits(harnesses, row, query)
}

impl AppView {
    /// The selected project, where there is one.
    pub open spec fn project(self) -> Option<ProjectView> {
        if 0 <= self.project_index < self.projects.len() {
            Some(self.projects[self.project_index])
        } else {
            None
        }
    }

    /// The places of the projects that are shown.
    #[verifier::opaque]
    pub open spec fn visible(self) -> Seq<int> {
        fitting_places(self.harnesses, self.projects, lowercase(self.query))
    }

    /// The rows that are shown.
    #[verifier::opaque]
    pub open spec fn rows(self) -> Seq<Row> {
        match self.project() {
            Some(project) => all_rows(project).filter(
                row_test(self.harnesses, project, lowercase(self.query)),
            ),
            None => Seq::empty(),
        }
    }

    /// The selected row, where there is one.
    pub open spec fn row(self) -> Option<Row> {
        if 0 <= self.row_index < self.rows().len() {
            Some(self.rows()[self.row_index])
        } else {
            None
        }
    }
}

pub(crate) fn find_place(harnesses: &Vec<Harness>, id: &str) -> (place: Option<usize>)
    ensures
        match place {
            Some(at) => at < harnesses@.len() && harness_place(harnesses@, id@) == Some(at as int),
            None => harness_place(harnesses@, id@) is None,
        },
{
    let count: usize = harnesses.len();
    let mut index: usize = 0;
    while index < count
        invariant
            index <= count,
            count == harnesses@.len(),
            harness_place(harnesses@.take(index as int), id@) is None,
        decreases count - index,
    {
        proof {
            assert(harnesses@.take(index + 1).drop_last() =~= harnesses@.take(index as int));
            assert(harnesses@.take(index + 1).last() == harnesses@[index as int]);
        }
        if same_text(harnesses[index].id.as_str(), id) {
            proof {
                lemma_place_stays(harnesses@, id@, index + 1);
            }
            return Some(index);
        }
        index = index + 1;
    }
    assert(harnesses@.take(count as int) =~= harnesses@);
    None
}

proof fn lemma_place_stays(harnesses: Seq<Harness>, id: Seq<char>, count: int)
    requires
        0 <= count <= harnesses.len(),
        harness_place(harnesses.take(count), id) is Some,
    ensures
        harness_place(harnesses, id) == harness_place(harnesses.take(count), id),
    decreases harnesses.len(),
{
    if count < harnesses.len() {
        assert(harnesses.drop_last().take(count) =~= harnesses.take(count));
        lemma_place_stays(harnesses.drop_last(), id, count);
    } else {
        assert(harnesses.take(count) =~= harnesses);
    }
}

/// Finds the harness of a row, where it is known.
pub fn row_harness_id(row: &Row) -> (id: Option<&str>)
    ensures
        match id {
            Some(id) => row_harness(*row) == Some(id@),
            None => row_harness(*row) is None,
        },
{
    match row {
        Row::Agent(window) => match &window.harness_id {
            Some(id) => Some(id.as_str()),
            None => None,
        },
        Row::Thread { thread, live: _ } => Some(thread.harness_id.as_str()),
    }
}

impl App {
    /// Finds a harness by its identifier.
    pub fn harness(&self, harness_id: &str) -> (harness: Option<&Harness>)
        ensures
            match harness {
                Some(harness) => harness_place(self.harnesses@, harness_id@) matches Some(at)
                    && 0 <= at < self.harnesses@.len() && *harness == self.harnesses@[at],
                None => harness_place(self.harnesses@, harness_id@) is None,
            },
    {
        match find_place(&self.harnesses, harness_id) {
            Some(at) => Some(&self.harnesses[at]),
            None => None,
        }
    }

    /// The selected project, where there is one.
    pub fn current_project(&self) -> (project: Option<&Project>)
        ensures
            match project {
                Some(project) => self.view().project() == Some(project.view()) && *project
                    == self.projects@[self.project_index as int] && self.project_index
                    < self.projects@.len(),
                None => self.view().project() is None,
            },
    {
        proof {
            reveal(App::view);
        }
        if self.project_index < self.projects.len() {
            assert(project_views(self.projects@)[self.project_index as int]
                == self.projects@[self.project_index as int].view());
            Some(&self.projects[self.project_index])
        } else {
            None
        }
    }

    /// Tests whether a row fits what is searched for, in lower case.
    pub fn row_matches_query(&self, row: &Row, query: &str) -> (fits: bool)
        ensures
            fits == row_fits(self.harnesses@, *row, query@),
    {
        if query.is_empty() {
            return true;
        }
        if fuzzy_matches(row.title().as_str(), query) {
            return true;
        }
        if let Row::Thread { thread, live: _ } = row {
            if contains_ignore_case(thread.preview.as_str(), query) {
                return true;
            }
        }
        match row_harness_id(row) {
            Some(id) => fuzzy_matches(id, query) || (match self.harness(id) {
                Some(harness) => fuzzy_matches(harness.label.as_str(), query) || fuzzy_matches(
                    harness.marker.as_str(),
                    query,
                ),
                None => false,
            }),
            None => false,
        }
    }

    /// Tests whether a project is shown for what is searched for, in lower case.
    pub fn project_matches_query(&self, project: &Project, query: &str) -> (fits: bool)
        ensures
            fits == project_fits(self.harnesses@, project.view(), query@),
    {
        if query.is_empty() || fuzzy_matches(project.name.as_str(), query) || fuzzy_matches(
            project.cwd.as_str(),
            query,
        ) {
            return true;
        }
        let list = rows(project);
        let count: usize = list.len();
        let mut index: usize = 0;
        while index < count
            invariant
                index <= count,
                count == list@.len(),
                list@ == all_rows(project.view()),
                forall|k: int|
                    0 <= k < index ==> !row_fits(self.harnesses@, #[trigger] list@[k], query@),
            decreases count - index,
        {
            if self.row_matches_query(&list[index], query) {
                return true;
            }
            index = index + 1;
        }
        false
    }

    /// Lists the places of the projects that are shown for what is searched for, in lower case.
    pub fn project_indices_for(&self, query: &str) -> (places: Vec<usize>)
        ensures
            places@.map_values(|at: usize| at as int) == fitting_places(
                self.harnesses@,
                project_views(self.projects@),
                query@,
            ),
    {
        let ghost all = project_views(self.projects@);
        let mut places: Vec<usize> = Vec::new();
        let count: usize = self.projects.len();
        let mut index: usize = 0;
        assert(places@.map_values(|at: usize| at as int) =~= fitting_places(
            self.harnesses@,
            all.take(0),
            query@,
        ));
        while index < count
            invariant
                index <= count,
                count == self.projects@.len(),
                all == project_views(self.projects@),
                places@.map_values(|at: usize| at as int) == fitting_places(
                    self.harnesses@,
                    all.take(index as int),
                    query@,
                ),
            decreases count - index,
        {
            let ghost before = places@;
            proof {
                assert(all.take(index + 1).drop_last() =~= all.take(index as int));
                assert(all.take(index + 1).last() == self.projects@[index as int].view());
            }
            if self.project_matches_query(&self.projects[index], query) {
                places.push(index);
                assert(places@.map_values(|at: usize| at as int) =~= before.map_values(
                    |at: usize| at as int,
                ).push(index as int));
            }
            index = index + 1;
        }
        assert(all.take(count as int) =~= all);
        places
    }

    /// Lists the places of the projects that are shown.
    pub fn visible_project_indices(&self) -> (places: Vec<usize>)
        ensures
            places@.map_values(|at: usize| at as int) == self.view().visible(),
    {
        proof {
            reveal(App::view);
            reveal(AppView::visible);
        }
        let query = to_lowercase(self.query.as_str());
        self.project_indices_for(query.as_str())
    }

    /// Lists the rows of the selected project that are shown for what is searched for, in lower
    /// case.
    pub fn rows_for(&self, query: &str) -> (shown: Vec<Row>)
        ensures
            shown@ == match self.view().project() {
                Some(project) => all_rows(project).filter(
                    row_test(self.harnesses@, project, query@),
                ),
                None => Seq::empty(),
            },
    {
        proof {
            reveal(App::view);
        }
        let mut shown: Vec<Row> = Vec::new();
        let project = match self.current_project() {
            Some(project) => project,
            None => {
                return shown;
            },
        };
        let every = query.is_empty() || fuzzy_matches(project.name.as_str(), query)
            || fuzzy_matches(project.cwd.as_str(), query);
        let list = rows(project);
        let ghost all = list@;
        let ghost test = row_test(self.harnesses@, project.view(), query@);
        let count: usize = list.len();
        let mut index: usize = 0;
        proof {
            reveal(Seq::filter);
        }
        while index < count
            invariant
                index <= count,
                count == list@.len(),
                all == list@,
                every == (query@.len() == 0 || place_fits(project.view(), query@)),
                test == row_test(self.harnesses@, project.view(), query@),
                shown@ == all.take(index as int).filter(test),
            decreases count - index,
        {
            proof {
                reveal(Seq::filter);
                assert(all.take(index + 1).drop_last() =~= all.take(index as int));
                assert(all.take(index + 1).last() == list@[index as int]);
            }
            if every || self.row_matches_query(&list[index], query) {
                shown.push(list[index].clone());
            }
            index = index + 1;
        }
        assert(all.take(count as int) =~= all);
        shown
    }

    /// Lists the rows that are shown.
    pub fn current_rows(&self) -> (shown: Vec<Row>)
        ensures
            shown@ == self.view().rows(),
    {
        proof {
            reveal(App::view);
            reveal(AppView::rows);
        }
        let query = to_lowercase(self.query.as_str());
        self.rows_for(query.as_str())
    }

    /// The selected row, where there is one.
    pub fn current_row(&self) -> (row: Option<Row>)
        ensures
            row == self.view().row(),
    {
        proof {
            reveal(App::view);
        }
        let shown = self.current_rows();
        if self.row_index < shown.len() {
            Some(shown[self.row_index].clone())
        } else {
            None
        }
    }
}

/// The projects that are shown are those that fit what is searched for, in the order of all.
pub proof fn law_shown_projects_fit(
    harnesses: Seq<Harness>,
    projects: Seq<ProjectView>,
    query: Seq<char>,
)
    ensures
        forall|at: int| #[trigger]
            fitting_places(harnesses, projects, query).contains(at) <==> 0 <= at < projects.len()
                && project_fits(harnesses, projects[at], query),
        forall|i: int, j: int|
            0 <= i < j < fitting_places(harnesses, projects, query).len() ==> #[trigger]
                fitting_places(harnesses, projects, query)[i] < #[trigger] fitting_places(
                    harnesses,
                    projects,
                    query,
                )[j],
    decreases projects.len(),
{
    let places = fitting_places(harnesses, projects, query);
    if projects.len() > 0 {
        let rest = projects.drop_last();
        let before = fitting_places(harnesses, rest, query);
        law_shown_projects_fit(harnesses, rest, query);
        assert forall|k: int| 0 <= k < before.len() implies 0 <= #[trigger] before[k]
            < rest.len() by {
            assert(before.contains(before[k]));
        }
        assert forall|at: int| #[trigger] places.contains(at) <==> 0 <= at < projects.len()
            && project_fits(harnesses, projects[at], query) by {
            assert(before.contains(at) <==> 0 <= at < rest.len() && project_fits(
                harnesses,
                rest[at],
                query,
            ));
            if project_fits(harnesses, projects.last(), query) {
                assert(places == before.push(projects.len() - 1));
                assert(places[before.len() as int] == projects.len() - 1);
                if before.contains(at) {
                    let k = choose|k: int| 0 <= k < before.len() && before[k] == at;
                    assert(places[k] == at);
                }
                if places.contains(at) && at != projects.len() - 1 {
                    let k = choose|k: int| 0 <= k < places.len() && places[k] == at;
                    assert(before[k] == at);
                }
            }
        }
    }
}

/// Where nothing is searched for, every project and every row is shown.
pub proof fn law_no_search_shows_everything(
    harnesses: Seq<Harness>,
    projects: Seq<ProjectView>,
    project: ProjectView,
)
    ensures
        fitting_places(harnesses, projects, Seq::empty()) == Seq::new(
            projects.len(),
            |at: int| at,
        ),
        all_rows(project).filter(row_test(harnesses, project, Seq::empty())) == all_rows(project),
    decreases projects.len(),
{
    let every = Seq::new(projects.len(), |at: int| at);
    if projects.len() > 0 {
        law_no_search_shows_everything(harnesses, projects.drop_last(), project);
        assert(every =~= Seq::new(projects.drop_last().len(), |at: int| at).push(
            projects.len() - 1,
        ));
    } else {
        assert(fitting_places(harnesses, projects, Seq::empty()) =~= every);
    }
    lemma_filter_all(all_rows(project), row_test(harnesses, project, Seq::empty()));
}

proof fn lemma_filter_all(rows: Seq<Row>, keep: spec_fn(Row) -> bool)
    requires
        forall|row: Row| #[trigger] keep(row),
    ensures
        rows.filter(keep) == rows,
    decreases rows.len(),
{
    reveal(Seq::filter);
    if rows.len() > 0 {
        lemma_filter_all(rows.drop_last(), keep);
        assert(keep(rows.last()));
        assert(rows =~= rows.drop_last().push(rows.last()));
    }
}

} // verus!

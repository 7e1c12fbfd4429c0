//! Looking at threads and panes anew: what is then shown and selected.
use vstd::prelude::*;
use vstd::string::*;

use crate::agent::Thread;
use crate::app::{App, AppView};
use crate::model::{build_projects, directories_differ, law_project_holds_only_its_own,
    law_projects_in_order, law_thread_has_its_project, lemma_ranked_differ, lemma_ranked_views,
    name_of, new_project, project_views, projects_of, Project, ProjectView};
use crate::mouse::{counts_text, write_counts};
use crate::order::{is_ranked, law_ranked, lemma_filter_contains, lemma_filter_push,
    lemma_ranked_contains, rank, ranked};
use crate::state::{all_restored, live_mappings, State, StateView};
use crate::text::{is_text, join_texts, joined_with, opt_text, same_text, texts};
use crate::tmux::{normalized_path, window_views, CanonicalPaths, Window, WindowView};

verus! {

/// What a harness listed, by its label: its active chats and its archived ones, or why not.
#[derive(Debug)]
pub struct Listed {
    pub label: String,
    pub active: Result<Vec<Thread>, String>,
    pub archived: Result<Vec<Thread>, String>,
}

/// Chats that were listed, or none.
pub open spec fn or_none(result: Result<Vec<Thread>, String>) -> Seq<Thread> {
    match result {
        Ok(threads) => threads@,
        Err(_) => Seq::empty(),
    }
}

/// The active chats of all harnesses.
pub open spec fn all_active(listed: Seq<Listed>) -> Seq<Thread>
    decreases listed.len(),
{
    if listed.len() == 0 {
        Seq::empty()
    } else {
        all_active(listed.drop_last()) + or_none(listed.last().active)
    }
}

/// The archived chats of all harnesses.
pub open spec fn all_archived(listed: Seq<Listed>) -> Seq<Thread>
    decreases listed.len(),
{
    if listed.len() == 0 {
        Seq::empty()
    } else {
        all_archived(listed.drop_last()) + or_none(listed.last().archived)
    }
}

/// Why a list could not be had, where it could not.
pub open spec fn failure_of(
    label: Seq<char>,
    between: Seq<char>,
    result: Result<Vec<Thread>, String>,
) -> Seq<Seq<char>> {
    match result {
        Ok(_) => Seq::empty(),
        Err(error) => seq![label + between + error@],
    }
}

/// Why lists could not be had.
pub open spec fn failures(listed: Seq<Listed>) -> Seq<Seq<char>>
    decreases listed.len(),
{
    if listed.len() == 0 {
        Seq::empty()
    } else {
        failures(listed.drop_last()) + failure_of(
            listed.last().label@,
            ": "@,
            listed.last().active,
        ) + failure_of(listed.last().label@, " archived: "@, listed.last().archived)
    }
}

/// Whether a chat is among several.
pub open spec fn is_among(threads: Seq<Thread>, thread: Thread) -> bool {
    exists|k: int|
        0 <= k < threads.len() && (#[trigger] threads[k]).is_thread(thread.harness_id@, thread.id@)
}

/// Chats without those that were listed before.
pub open spec fn first_listed(threads: Seq<Thread>) -> Seq<Thread>
    decreases threads.len(),
{
    if threads.len() == 0 {
        Seq::empty()
    } else if is_among(threads.drop_last(), threads.last()) {
        first_listed(threads.drop_last())
    } else {
        first_listed(threads.drop_last()).push(threads.last())
    }
}

/// A chat that is archived or not, as the state says.
pub open spec fn marked(thread: Thread, archived: Seq<(Seq<char>, Seq<char>)>) -> Thread {
    Thread { archived: archived.contains((thread.harness_id@, thread.id@)), ..thread }
}

/// Chats that are archived or not, as the state says.
pub open spec fn all_marked(threads: Seq<Thread>, archived: Seq<(Seq<char>, Seq<char>)>) -> Seq<
    Thread,
> {
    threads.map_values(|thread: Thread| marked(thread, archived))
}

/// The chats that are known: each once, archived or not.
pub open spec fn known_threads(
    listed: Seq<Listed>,
    archived: Seq<(Seq<char>, Seq<char>)>,
) -> Seq<Thread> {
    all_marked(first_listed(all_active(listed) + all_archived(listed)), archived)
}

/// The test for chats that are shown.
pub open spec fn shown_test(show_archived: bool) -> spec_fn(Thread) -> bool {
    |thread: Thread| show_archived || !thread.archived
}

/// Whether a chat is archived and has a name, in a directory.
pub open spec fn is_archived_as(
    thread: Thread,
    harness_id: Seq<char>,
    title: Seq<char>,
    cwd: Seq<char>,
    canonical: CanonicalPaths,
) -> bool {
    &&& thread.archived
    &&& thread.harness_id@ == harness_id
    &&& opt_text(thread.name) == Some(title)
    &&& canonical.normal(thread.cwd@) == canonical.normal(cwd)
}

/// Whether a pane belongs to an archived chat: by the thread that it is marked with, or, where it
/// is marked with none, by its title and its directory.
pub open spec fn is_archived_pane(
    window: Window,
    archived: Seq<(Seq<char>, Seq<char>)>,
    threads: Seq<Thread>,
    canonical: CanonicalPaths,
) -> bool {
    match opt_text(window.harness_id) {
        None => false,
        Some(harness_id) => match opt_text(window.thread_id) {
            Some(thread_id) => archived.contains((harness_id, thread_id)),
            None => match opt_text(window.chat_title) {
                Some(title) => exists|k: int|
                    0 <= k < threads.len() && is_archived_as(
                        #[trigger] threads[k],
                        harness_id,
                        title,
                        window.cwd@,
                        canonical,
                    ),
                None => false,
            },
        },
    }
}

/// The test for panes that are shown: those that bear a mark where archived chats are shown, and
/// those of no archived chat where they are not.
pub open spec fn pane_test(
    show_archived: bool,
    archived: Seq<(Seq<char>, Seq<char>)>,
    threads: Seq<Thread>,
    canonical: CanonicalPaths,
) -> spec_fn(Window) -> bool {
    |window: Window|
        if show_archived {
            window.thread_id is Some || window.chat_title is Some
        } else {
            !is_archived_pane(window, archived, threads, canonical)
        }
}

/// The test for projects that are not hidden.
pub open spec fn unhidden_test(hidden: Seq<Seq<char>>) -> spec_fn(ProjectView) -> bool {
    |project: ProjectView| !hidden.contains(project.cwd)
}

/// Whether projects hold one of a directory.
pub open spec fn has_directory(projects: Seq<ProjectView>, cwd: Seq<char>) -> bool {
    exists|k: int| 0 <= k < projects.len() && (#[trigger] projects[k]).cwd == cwd
}

/// A project with nothing in it.
pub open spec fn empty_project(cwd: Seq<char>) -> ProjectView {
    ProjectView {
        name: name_of(cwd),
        cwd,
        recency: 0,
        threads: Seq::empty(),
        agents: Seq::empty(),
    }
}

/// Projects with an empty one for each path of which there is none.
pub open spec fn with_paths(projects: Seq<ProjectView>, paths: Seq<Seq<char>>) -> Seq<ProjectView>
    decreases paths.len(),
{
    if paths.len() == 0 {
        projects
    } else {
        let before = with_paths(projects, paths.drop_last());
        if has_directory(before, paths.last()) {
            before
        } else {
            before.push(empty_project(paths.last()))
        }
    }
}

/// The projects that are shown: those that are not hidden, and those whose paths were added.
pub open spec fn shown_projects(projects: Seq<ProjectView>, state: StateView) -> Seq<ProjectView> {
    ranked(
        with_paths(
            projects.filter(unhidden_test(state.hidden_project_paths)),
            state.project_paths,
        ),
    )
}

/// A place that is not behind the last of some.
pub open spec fn within(place: int, count: int) -> int {
    if count == 0 {
        0
    } else if place < count {
        place
    } else {
        count - 1
    }
}

/// The interface after threads and panes were looked at: given what was listed, the panes as they
/// were found, and as they are with the marks that they should bear.
pub open spec fn refreshed(
    app: AppView,
    listed: Seq<Listed>,
    found: Seq<WindowView>,
    windows: Seq<Window>,
    canonical: CanonicalPaths,
) -> AppView {
    let archived = app.state.archived_threads;
    let known = known_threads(listed, archived);
    let state = app.state.reconciled(found);
    let projects = shown_projects(
        projects_of(
            known.filter(shown_test(app.show_archived)),
            windows.filter(pane_test(app.show_archived, archived, known, canonical)),
            app.tmux,
            canonical,
        ),
        state,
    );
    let selected = AppView {
        state,
        all_windows: windows,
        projects,
        project_index: within(app.project_index, projects.len() as int),
        ..app
    };
    AppView {
        row_index: within(app.row_index, selected.rows().len() as int),
        status: if failures(listed).len() > 0 {
            joined_with(failures(listed), "; "@)
        } else {
            counts_text(projects)
        },
        ..selected
    }
}

/// Whether nothing could be listed.
pub open spec fn nothing_listed(listed: Seq<Listed>) -> bool {
    all_active(listed).len() == 0 && all_archived(listed).len() == 0 && failures(listed).len() > 0
}

/// What was listed, put together.
pub struct Gathered {
    pub active: Vec<Thread>,
    pub archived: Vec<Thread>,
    pub errors: Vec<String>,
}

fn failure_text(label: &str, between: &str, error: &str) -> (message: String)
    ensures
        message@ == label@ + between@ + error@,
{
    let mut message = label.to_owned();
    message.append(between);
    message.append(error);
    message
}

fn gather(listed: Vec<Listed>) -> (gathered: Gathered)
    ensures
        gathered.active@ == all_active(listed@),
        gathered.archived@ == all_archived(listed@),
        texts(gathered.errors@) == failures(listed@),
{
    let ghost all = listed@;
    let mut active: Vec<Thread> = Vec::new();
    let mut archived: Vec<Thread> = Vec::new();
    let mut errors: Vec<String> = Vec::new();
    assert(texts(errors@) =~= failures(all.take(0)));
    for item in it: listed
        invariant
            it.seq() == all,
            active@ == all_active(all.take(it.index())),
            archived@ == all_archived(all.take(it.index())),
            texts(errors@) == failures(all.take(it.index())),
    {
        let ghost before = errors@;
        proof {
            assert(all.take(it.index() + 1).drop_last() =~= all.take(it.index()));
            assert(all.take(it.index() + 1).last() == item);
        }
        let Listed { label, active: some_active, archived: some_archived } = item;
        match some_active {
            Ok(mut threads) => {
                active.append(&mut threads);
                assert(texts(errors@) =~= texts(before) + failure_of(label@, ": "@, item.active));
            },
            Err(error) => {
                errors.push(failure_text(label.as_str(), ": ", error.as_str()));
                assert(texts(errors@) =~= texts(before) + failure_of(label@, ": "@, item.active));
                assert(active@ + or_none(item.active) =~= active@);
            },
        }
        let ghost middle = errors@;
        match some_archived {
            Ok(mut threads) => {
                archived.append(&mut threads);
                assert(texts(errors@) =~= texts(middle) + failure_of(
                    label@,
                    " archived: "@,
                    item.archived,
                ));
            },
            Err(error) => {
                errors.push(failure_text(label.as_str(), " archived: ", error.as_str()));
                assert(texts(errors@) =~= texts(middle) + failure_of(
                    label@,
                    " archived: "@,
                    item.archived,
                ));
                assert(archived@ + or_none(item.archived) =~= archived@);
            },
        }
    }
    assert(all.take(all.len() as int) =~= all);
    Gathered { active, archived, errors }
}

proof fn lemma_first_listed(threads: Seq<Thread>, thread: Thread)
    ensures
        is_among(first_listed(threads), thread) <==> is_among(threads, thread),
    decreases threads.len(),
{
    if threads.len() > 0 {
        let rest = threads.drop_last();
        let last = threads.last();
        lemma_first_listed(rest, thread);
        lemma_first_listed(rest, last);
        let kept = first_listed(rest);
        assert(threads[threads.len() - 1] == last);
        if is_among(rest, thread) {
            let k = choose|k: int|
                0 <= k < rest.len() && (#[trigger] rest[k]).is_thread(
                    thread.harness_id@,
                    thread.id@,
                );
            assert(threads[k] == rest[k]);
            let m = choose|m: int|
                0 <= m < kept.len() && (#[trigger] kept[m]).is_thread(
                    thread.harness_id@,
                    thread.id@,
                );
            assert(first_listed(threads)[m] == kept[m]);
        } else {
            if is_among(threads, thread) {
                let k = choose|k: int|
                    0 <= k < threads.len() && (#[trigger] threads[k]).is_thread(
                        thread.harness_id@,
                        thread.id@,
                    );
                if k < rest.len() {
                    assert(rest[k] == threads[k]);
                }
                assert(last.is_thread(thread.harness_id@, thread.id@));
                if is_among(rest, last) {
                    let m = choose|m: int|
                        0 <= m < rest.len() && (#[trigger] rest[m]).is_thread(
                            last.harness_id@,
                            last.id@,
                        );
                    assert(rest[m].is_thread(thread.harness_id@, thread.id@));
                }
                assert(first_listed(threads)[kept.len() as int] == last);
            }
            if is_among(first_listed(threads), thread) {
                let all = first_listed(threads);
                let k = choose|k: int|
                    0 <= k < all.len() && (#[trigger] all[k]).is_thread(
                        thread.harness_id@,
                        thread.id@,
                    );
                if k < kept.len() {
                    assert(kept[k] == all[k]);
                }
            }
        }
    }
}

fn has_thread(threads: &Vec<Thread>, thread: &Thread) -> (found: bool)
    ensures
        found == is_among(threads@, *thread),
{
    let count: usize = threads.len();
    let mut index: usize = 0;
    while index < count
        invariant
            index <= count,
            count == threads@.len(),
            forall|k: int|
                0 <= k < index ==> !(#[trigger] threads@[k]).is_thread(
                    thread.harness_id@,
                    thread.id@,
                ),
        decreases count - index,
    {
        if same_text(threads[index].harness_id.as_str(), thread.harness_id.as_str()) && same_text(
            threads[index].id.as_str(),
            thread.id.as_str(),
        ) {
            return true;
        }
        index = index + 1;
    }
    false
}

fn know_threads(threads: Vec<Thread>, state: &State) -> (known: Vec<Thread>)
    ensures
        known@ == all_marked(first_listed(threads@), state.view().archived_threads),
{
    let ghost all = threads@;
    let ghost archived = state.view().archived_threads;
    let mut first: Vec<Thread> = Vec::new();
    for thread in it: threads
        invariant
            it.seq() == all,
            first@ == first_listed(all.take(it.index())),
    {
        proof {
            assert(all.take(it.index() + 1).drop_last() =~= all.take(it.index()));
            assert(all.take(it.index() + 1).last() == thread);
            lemma_first_listed(all.take(it.index()), thread);
        }
        if !has_thread(&first, &thread) {
            first.push(thread);
        }
    }
    assert(all.take(all.len() as int) =~= all);
    let ghost distinct = first@;
    let mut known: Vec<Thread> = Vec::new();
    for thread in it: first
        invariant
            it.seq() == distinct,
            archived == state.view().archived_threads,
            known@ == all_marked(distinct.take(it.index()), archived),
    {
        let flag = state.is_archived(thread.harness_id.as_str(), thread.id.as_str());
        let mut entry = thread;
        entry.archived = flag;
        known.push(entry);
        assert(known@ =~= all_marked(distinct.take(it.index() + 1), archived));
    }
    assert(distinct.take(distinct.len() as int) =~= distinct);
    known
}

fn show_threads(known: &Vec<Thread>, show_archived: bool) -> (shown: Vec<Thread>)
    ensures
        shown@ == known@.filter(shown_test(show_archived)),
{
    let ghost all = known@;
    let ghost test = shown_test(show_archived);
    let mut shown: Vec<Thread> = Vec::new();
    let count: usize = known.len();
    let mut index: usize = 0;
    proof {
        reveal(Seq::filter);
    }
    while index < count
        invariant
            index <= count,
            count == known@.len(),
            all == known@,
            test == shown_test(show_archived),
            shown@ == all.take(index as int).filter(test),
        decreases count - index,
    {
        proof {
            assert(all.take(index + 1) =~= all.take(index as int).push(known@[index as int]));
            lemma_filter_push(all.take(index as int), known@[index as int], test);
        }
        if show_archived || !known[index].archived {
            shown.push(known[index].clone());
        }
        index = index + 1;
    }
    assert(all.take(count as int) =~= all);
    shown
}

/// Tests whether a pane belongs to an archived chat.
pub fn window_matches_archived_thread(
    window: &Window,
    state: &State,
    threads: &Vec<Thread>,
    canonical: &CanonicalPaths,
) -> (found: bool)
    ensures
        found == is_archived_pane(
            *window,
            state.view().archived_threads,
            threads@,
            *canonical,
        ),
{
    let harness_id = match &window.harness_id {
        Some(harness_id) => harness_id,
        None => {
            return false;
        },
    };
    if let Some(thread_id) = &window.thread_id {
        return state.is_archived(harness_id.as_str(), thread_id.as_str());
    }
    let title = match &window.chat_title {
        Some(title) => title,
        None => {
            return false;
        },
    };
    let place = normalized_path(window.cwd.as_str(), canonical);
    let count: usize = threads.len();
    let mut index: usize = 0;
    while index < count
        invariant
            index <= count,
            count == threads@.len(),
            place@ == canonical.normal(window.cwd@),
            opt_text(window.harness_id) == Some(harness_id@),
            opt_text(window.thread_id) is None,
            opt_text(window.chat_title) == Some(title@),
            forall|k: int|
                0 <= k < index ==> !is_archived_as(
                    #[trigger] threads@[k],
                    harness_id@,
                    title@,
                    window.cwd@,
                    *canonical,
                ),
        decreases count - index,
    {
        let thread = &threads[index];
        if thread.archived && same_text(thread.harness_id.as_str(), harness_id.as_str())
            && is_text(&thread.name, title.as_str()) {
            let other = normalized_path(thread.cwd.as_str(), canonical);
            if same_text(other.as_str(), place.as_str()) {
                return true;
            }
        }
        index = index + 1;
    }
    false
}

fn show_panes(
    windows: &Vec<Window>,
    show_archived: bool,
    state: &State,
    known: &Vec<Thread>,
    canonical: &CanonicalPaths,
) -> (shown: Vec<Window>)
    ensures
        shown@ == windows@.filter(
            pane_test(show_archived, state.view().archived_threads, known@, *canonical),
        ),
{
    let ghost all = windows@;
    let ghost test = pane_test(
        show_archived,
        state.view().archived_threads,
        known@,
        *canonical,
    );
    let mut shown: Vec<Window> = Vec::new();
    let count: usize = windows.len();
    let mut index: usize = 0;
    proof {
        reveal(Seq::filter);
    }
    while index < count
        invariant
            index <= count,
            count == windows@.len(),
            all == windows@,
            test == pane_test(
                show_archived,
                state.view().archived_threads,
                known@,
                *canonical,
            ),
            shown@ == all.take(index as int).filter(test),
        decreases count - index,
    {
        let window = &windows[index];
        proof {
            assert(all.take(index + 1) =~= all.take(index as int).push(*window));
            lemma_filter_push(all.take(index as int), *window, test);
        }
        let keep = if show_archived {
            window.thread_id.is_some() || window.chat_title.is_some()
        } else {
            !window_matches_archived_thread(window, state, known, canonical)
        };
        if keep {
            shown.push(window.clone());
        }
        index = index + 1;
    }
    assert(all.take(count as int) =~= all);
    shown
}

fn has_project(projects: &Vec<Project>, cwd: &str) -> (found: bool)
    ensures
        found == has_directory(project_views(projects@), cwd@),
{
    let ghost all = project_views(projects@);
    let count: usize = projects.len();
    let mut index: usize = 0;
    while index < count
        invariant
            index <= count,
            count == projects@.len(),
            all == project_views(projects@),
            forall|k: int| 0 <= k < index ==> (#[trigger] all[k]).cwd != cwd@,
        decreases count - index,
    {
        assert(all[index as int] == projects@[index as int].view());
        if same_text(projects[index].cwd.as_str(), cwd) {
            return true;
        }
        index = index + 1;
    }
    false
}

fn show_projects(projects: Vec<Project>, state: &State) -> (shown: Vec<Project>)
    ensures
        project_views(shown@) == shown_projects(project_views(projects@), state.view()),
{
    let ghost all = projects@;
    let ghost views = project_views(all);
    let ghost hidden = state.view().hidden_project_paths;
    let ghost test = unhidden_test(hidden);
    let mut kept: Vec<Project> = Vec::new();
    proof {
        reveal(Seq::filter);
        assert(project_views(kept@) =~= views.take(0).filter(test));
    }
    for project in it: projects
        invariant
            it.seq() == all,
            views == project_views(all),
            hidden == state.view().hidden_project_paths,
            test == unhidden_test(hidden),
            project_views(kept@) == views.take(it.index()).filter(test),
    {
        let ghost before = kept@;
        proof {
            assert(views[it.index()] == project.view());
            assert(views.take(it.index() + 1) =~= views.take(it.index()).push(project.view()));
            lemma_filter_push(views.take(it.index()), project.view(), test);
        }
        if !state.is_project_hidden(project.cwd.as_str()) {
            kept.push(project);
            assert(project_views(kept@) =~= project_views(before).push(project.view()));
        }
    }
    assert(views.take(views.len() as int) =~= views);
    let ghost base = project_views(kept@);
    let ghost paths = texts(state.project_paths@);
    let count: usize = state.project_paths.len();
    let mut index: usize = 0;
    assert(paths.take(0) =~= Seq::<Seq<char>>::empty());
    while index < count
        invariant
            index <= count,
            count == state.project_paths@.len(),
            paths == texts(state.project_paths@),
            project_views(kept@) == with_paths(base, paths.take(index as int)),
        decreases count - index,
    {
        let ghost before = kept@;
        let path = &state.project_paths[index];
        proof {
            assert(paths.take(index + 1).drop_last() =~= paths.take(index as int));
            assert(paths.take(index + 1).last() == path@);
        }
        if !has_project(&kept, path.as_str()) {
            kept.push(new_project(path.clone()));
            assert(project_views(kept@) =~= project_views(before).push(empty_project(path@)));
        }
        index = index + 1;
    }
    assert(paths.take(count as int) =~= paths);
    proof {
        lemma_ranked_views(kept@);
    }
    rank(kept)
}

fn clamp_place(place: usize, count: usize) -> (result: usize)
    ensures
        result == within(place as int, count as int),
{
    if count == 0 {
        0
    } else if place < count {
        place
    } else {
        count - 1
    }
}

fn threads_behind(first: Vec<Thread>, second: Vec<Thread>) -> (all: Vec<Thread>)
    ensures
        all@ == first@ + second@,
{
    let mut all = first;
    let mut rest = second;
    all.append(&mut rest);
    all
}

impl App {
    fn with_shown(
        self,
        state: State,
        windows: Vec<Window>,
        projects: Vec<Project>,
        status: String,
    ) -> (app: App)
        ensures
            ({
                let views = project_views(projects@);
                let selected = AppView {
                    state: state.view(),
                    all_windows: windows@,
                    projects: views,
                    project_index: within(self.view().project_index, views.len() as int),
                    ..self.view()
                };
                app.view() == (AppView {
                    row_index: within(self.view().row_index, selected.rows().len() as int),
                    status: status@,
                    ..selected
                })
            }),
            app.all_windows@ == windows@,
    {
        proof {
            reveal(App::view);
        }
        let mut app = self;
        app.state = state;
        app.all_windows = windows;
        app.projects = projects;
        app.project_index = clamp_place(app.project_index, app.projects.len());
        assert(project_views(app.projects@).len() == app.projects@.len());
        let count: usize = app.current_rows().len();
        app.row_index = clamp_place(app.row_index, count);
        app.status = status;
        app
    }

    /// Looks at threads and panes anew: given what the harnesses listed and which panes there are.
    /// Fails where nothing could be listed or the panes are not known, and then changes nothing.
    pub fn refresh(
        self,
        listed: Vec<Listed>,
        inventory: Result<Vec<Window>, String>,
        canonical: &CanonicalPaths,
    ) -> (result: (App, Result<(), String>))
        ensures
            match result.1 {
                Ok(_) => !nothing_listed(listed@) && inventory is Ok && window_views(
                    result.0.all_windows@,
                ) == all_restored(
                    window_views(inventory->Ok_0@),
                    live_mappings(self.view().state.mappings, window_views(inventory->Ok_0@)),
                ) && result.0.view() == refreshed(
                    self.view(),
                    listed@,
                    window_views(inventory->Ok_0@),
                    result.0.all_windows@,
                    *canonical,
                ),
                Err(message) => result.0 == self && if nothing_listed(listed@) {
                    message@ == joined_with(failures(listed@), "; "@)
                } else {
                    inventory == Err::<Vec<Window>, String>(message)
                },
            },
    {
        let gathered = gather(listed);
        assert(texts(gathered.errors@).len() == gathered.errors@.len());
        if gathered.active.len() == 0 && gathered.archived.len() == 0 && gathered.errors.len()
            > 0 {
            return (self, Err(join_texts(&gathered.errors, "; ")));
        }
        let mut windows = match inventory {
            Ok(windows) => windows,
            Err(message) => {
                return (self, Err(message));
            },
        };
        proof {
            reveal(App::view);
        }
        let known = know_threads(
            threads_behind(gathered.active, gathered.archived),
            &self.state,
        );
        let threads = show_threads(&known, self.show_archived);
        let ghost found = window_views(windows@);
        let mut app = self;
        app.state.reconcile(&mut windows);
        let state = app.state;
        let panes = show_panes(&windows, app.show_archived, &state, &known, canonical);
        let projects = show_projects(
            build_projects(threads, panes, &app.tmux, canonical),
            &state,
        );
        let status = if gathered.errors.len() > 0 {
            join_texts(&gathered.errors, "; ")
        } else {
            write_counts(&projects)
        };
        app.state = State::default();
        let shown = app.with_shown(state, windows, projects, status);
        (shown, Ok(()))
    }
}

proof fn lemma_with_paths(projects: Seq<ProjectView>, paths: Seq<Seq<char>>, project: ProjectView)
    ensures
        with_paths(projects, paths).contains(project) <==> projects.contains(project) || (
        paths.contains(project.cwd) && !has_directory(projects, project.cwd) && project
            == empty_project(project.cwd)),
        has_directory(with_paths(projects, paths), project.cwd) <==> has_directory(
            projects,
            project.cwd,
        ) || paths.contains(project.cwd),
    decreases paths.len(),
{
    if paths.len() == 0 {
        assert(!paths.contains(project.cwd));
    } else {
        let rest = paths.drop_last();
        let last = paths.last();
        let before = with_paths(projects, rest);
        let after = with_paths(projects, paths);
        lemma_with_paths(projects, rest, project);
        lemma_with_paths(projects, rest, empty_project(last));
        assert(paths =~= rest.push(last));
        assert(paths.contains(project.cwd) <==> rest.contains(project.cwd) || project.cwd
            == last) by {
            assert(paths[paths.len() - 1] == last);
            if rest.contains(project.cwd) {
                let k = choose|k: int| 0 <= k < rest.len() && rest[k] == project.cwd;
                assert(paths[k] == project.cwd);
            }
            if paths.contains(project.cwd) && project.cwd != last {
                let k = choose|k: int| 0 <= k < paths.len() && paths[k] == project.cwd;
                assert(rest[k] == project.cwd);
            }
        }
        if !has_directory(before, last) {
            let added = empty_project(last);
            assert(after == before.push(added));
            assert(after[before.len() as int] == added);
            assert(after.contains(project) <==> before.contains(project) || project == added) by {
                if before.contains(project) {
                    let k = choose|k: int| 0 <= k < before.len() && before[k] == project;
                    assert(after[k] == project);
                }
                if after.contains(project) && project != added {
                    let k = choose|k: int| 0 <= k < after.len() && after[k] == project;
                    assert(before[k] == project);
                }
            }
            assert(has_directory(after, project.cwd) <==> has_directory(before, project.cwd)
                || project.cwd == last) by {
                if has_directory(before, project.cwd) {
                    let k = choose|k: int|
                        0 <= k < before.len() && (#[trigger] before[k]).cwd == project.cwd;
                    assert(after[k] == before[k]);
                }
                if has_directory(after, project.cwd) && project.cwd != last {
                    let k = choose|k: int|
                        0 <= k < after.len() && (#[trigger] after[k]).cwd == project.cwd;
                    assert(before[k] == after[k]);
                }
            }
        }
    }
}

/// A project is shown if and only if it is not hidden, or its path was added and there is no other
/// of its directory: then it is shown with nothing in it.
pub proof fn law_shown_project(
    projects: Seq<ProjectView>,
    state: StateView,
    project: ProjectView,
)
    ensures
        shown_projects(projects, state).contains(project) <==> (projects.contains(project)
            && !state.hidden_project_paths.contains(project.cwd)) || (
        state.project_paths.contains(project.cwd) && project == empty_project(project.cwd) && (
        state.hidden_project_paths.contains(project.cwd) || !has_directory(
            projects,
            project.cwd,
        ))),
{
    let test = unhidden_test(state.hidden_project_paths);
    let kept = projects.filter(test);
    lemma_filter_contains(projects, test, project);
    lemma_with_paths(kept, state.project_paths, project);
    lemma_ranked_contains(with_paths(kept, state.project_paths), project);
    if has_directory(kept, project.cwd) {
        let k = choose|k: int| 0 <= k < kept.len() && (#[trigger] kept[k]).cwd == project.cwd;
        assert(kept.contains(kept[k]));
        lemma_filter_contains(projects, test, kept[k]);
        let m = choose|m: int| 0 <= m < projects.len() && projects[m] == kept[k];
        assert(projects[m].cwd == project.cwd);
    }
    if has_directory(projects, project.cwd) && !state.hidden_project_paths.contains(
        project.cwd,
    ) {
        let k = choose|k: int| 0 <= k < projects.len() && (#[trigger] projects[k]).cwd
            == project.cwd;
        assert(projects.contains(projects[k]));
        lemma_filter_contains(projects, test, projects[k]);
        let m = choose|m: int| 0 <= m < kept.len() && kept[m] == projects[k];
        assert(kept[m].cwd == project.cwd);
    }
}

proof fn lemma_filter_differ(projects: Seq<ProjectView>, keep: spec_fn(ProjectView) -> bool)
    requires
        directories_differ(projects),
    ensures
        directories_differ(projects.filter(keep)),
    decreases projects.len(),
{
    reveal(Seq::filter);
    if projects.len() > 0 {
        let rest = projects.drop_last();
        let last = projects.last();
        assert forall|i: int, j: int| 0 <= i < j < rest.len() implies (#[trigger] rest[i]).cwd != (
        #[trigger] rest[j]).cwd by {
            assert(rest[i] == projects[i] && rest[j] == projects[j]);
        }
        lemma_filter_differ(rest, keep);
        let kept = rest.filter(keep);
        assert forall|k: int| 0 <= k < kept.len() implies (#[trigger] kept[k]).cwd != last.cwd by {
            assert(kept.contains(kept[k]));
            lemma_filter_contains(rest, keep, kept[k]);
            let m = choose|m: int| 0 <= m < rest.len() && rest[m] == kept[k];
            assert(projects[m] == kept[k]);
            assert(projects[projects.len() - 1] == last);
        }
    }
}

proof fn lemma_paths_differ(projects: Seq<ProjectView>, paths: Seq<Seq<char>>)
    requires
        directories_differ(projects),
    ensures
        directories_differ(with_paths(projects, paths)),
    decreases paths.len(),
{
    if paths.len() > 0 {
        lemma_paths_differ(projects, paths.drop_last());
    }
}

/// No two projects that are shown are of one directory, and they stand in order.
pub proof fn law_shown_projects_in_order(
    app: AppView,
    listed: Seq<Listed>,
    found: Seq<WindowView>,
    windows: Seq<Window>,
    canonical: CanonicalPaths,
)
    ensures
        directories_differ(refreshed(app, listed, found, windows, canonical).projects),
        is_ranked(refreshed(app, listed, found, windows, canonical).projects),
{
    let known = known_threads(listed, app.state.archived_threads);
    let threads = known.filter(shown_test(app.show_archived));
    let panes = windows.filter(
        pane_test(app.show_archived, app.state.archived_threads, known, canonical),
    );
    let state = app.state.reconciled(found);
    let all = projects_of(threads, panes, app.tmux, canonical);
    law_projects_in_order(threads, panes, app.tmux, canonical);
    lemma_filter_differ(all, unhidden_test(state.hidden_project_paths));
    let kept = all.filter(unhidden_test(state.hidden_project_paths));
    lemma_paths_differ(kept, state.project_paths);
    lemma_ranked_differ(with_paths(kept, state.project_paths));
    law_ranked(with_paths(kept, state.project_paths));
}

/// After threads and panes were looked at, a project is selected where there are any, and a row
/// where any are shown.
pub proof fn law_selection_stays_within(
    app: AppView,
    listed: Seq<Listed>,
    found: Seq<WindowView>,
    windows: Seq<Window>,
    canonical: CanonicalPaths,
)
    requires
        app.project_index >= 0,
        app.row_index >= 0,
    ensures
        refreshed(app, listed, found, windows, canonical).selects(),
{
    let after = refreshed(app, listed, found, windows, canonical);
    let before = AppView { row_index: app.row_index, status: app.status, ..after };
    assert(before.rows() == after.rows()) by {
        reveal(AppView::rows);
    }
}

/// A chat that is shown was listed by a harness, and is not archived unless archived chats are
/// shown.
pub proof fn law_shown_chat_was_listed(
    app: AppView,
    listed: Seq<Listed>,
    found: Seq<WindowView>,
    windows: Seq<Window>,
    canonical: CanonicalPaths,
    project: ProjectView,
    thread: Thread,
)
    requires
        refreshed(app, listed, found, windows, canonical).projects.contains(project),
        project.threads.contains(thread),
    ensures
        known_threads(listed, app.state.archived_threads).contains(thread),
        app.show_archived || !app.state.archived_threads.contains(
            (thread.harness_id@, thread.id@),
        ),
{
    let archived = app.state.archived_threads;
    let known = known_threads(listed, archived);
    let threads = known.filter(shown_test(app.show_archived));
    let panes = windows.filter(pane_test(app.show_archived, archived, known, canonical));
    let all = projects_of(threads, panes, app.tmux, canonical);
    law_shown_project(all, app.state.reconciled(found), project);
    assert(all.contains(project));
    law_project_holds_only_its_own(threads, panes, app.tmux, canonical, project);
    assert(threads.contains(thread));
    lemma_filter_contains(known, shown_test(app.show_archived), thread);
    let k = choose|k: int| 0 <= k < known.len() && known[k] == thread;
    assert(known[k] == marked(
        first_listed(all_active(listed) + all_archived(listed))[k],
        archived,
    ));
}

/// A chat that a harness listed is shown in the project of its directory, unless it is archived
/// and archived chats are not shown, or the project is hidden.
pub proof fn law_listed_chat_is_shown(
    app: AppView,
    listed: Seq<Listed>,
    found: Seq<WindowView>,
    windows: Seq<Window>,
    canonical: CanonicalPaths,
    thread: Thread,
)
    requires
        known_threads(listed, app.state.archived_threads).contains(thread),
        app.show_archived || !thread.archived,
        !app.state.hidden_project_paths.contains(canonical.normal(thread.cwd@)),
    ensures
        exists|project: ProjectView| #[trigger]
            refreshed(app, listed, found, windows, canonical).projects.contains(project)
                && project.cwd == canonical.normal(thread.cwd@) && project.threads.contains(thread),
{
    let archived = app.state.archived_threads;
    let known = known_threads(listed, archived);
    let threads = known.filter(shown_test(app.show_archived));
    let panes = windows.filter(pane_test(app.show_archived, archived, known, canonical));
    let all = projects_of(threads, panes, app.tmux, canonical);
    lemma_filter_contains(known, shown_test(app.show_archived), thread);
    law_thread_has_its_project(threads, panes, app.tmux, canonical, thread);
    let project = choose|project: ProjectView| #[trigger]
        all.contains(project) && project.cwd == canonical.normal(thread.cwd@)
            && project.threads.contains(thread);
    law_shown_project(all, app.state.reconciled(found), project);
    assert(refreshed(app, listed, found, windows, canonical).projects.contains(project));
}

/// A pane that is shown belongs to no archived chat, unless archived chats are shown.
pub proof fn law_shown_pane_is_not_archived(
    app: AppView,
    listed: Seq<Listed>,
    found: Seq<WindowView>,
    windows: Seq<Window>,
    canonical: CanonicalPaths,
    project: ProjectView,
    window: Window,
)
    requires
        refreshed(app, listed, found, windows, canonical).projects.contains(project),
        project.agents.contains(window),
        !app.show_archived,
    ensures
        windows.contains(window),
        !is_archived_pane(
            window,
            app.state.archived_threads,
            known_threads(listed, app.state.archived_threads),
            canonical,
        ),
{
    let archived = app.state.archived_threads;
    let known = known_threads(listed, archived);
    let threads = known.filter(shown_test(app.show_archived));
    let test = pane_test(app.show_archived, archived, known, canonical);
    let panes = windows.filter(test);
    let all = projects_of(threads, panes, app.tmux, canonical);
    law_shown_project(all, app.state.reconciled(found), project);
    assert(all.contains(project));
    law_project_holds_only_its_own(threads, panes, app.tmux, canonical, project);
    lemma_filter_contains(windows, test, window);
}

proof fn lemma_first_differ(threads: Seq<Thread>)
    ensures
        forall|i: int, j: int|
            0 <= i < j < first_listed(threads).len() ==> !(#[trigger] first_listed(
                threads,
            )[i]).is_thread(
                (#[trigger] first_listed(threads)[j]).harness_id@,
                first_listed(threads)[j].id@,
            ),
    decreases threads.len(),
{
    if threads.len() > 0 {
        lemma_first_differ(threads.drop_last());
        lemma_first_listed(threads.drop_last(), threads.last());
    }
}

/// Each chat that harnesses listed is known, and none is known twice.
pub proof fn law_known_chats_differ(
    listed: Seq<Listed>,
    archived: Seq<(Seq<char>, Seq<char>)>,
    thread: Thread,
)
    ensures
        is_among(known_threads(listed, archived), thread) <==> is_among(
            all_active(listed) + all_archived(listed),
            thread,
        ),
        forall|i: int, j: int|
            0 <= i < j < known_threads(listed, archived).len() ==> !(#[trigger] known_threads(
                listed,
                archived,
            )[i]).is_thread(
                (#[trigger] known_threads(listed, archived)[j]).harness_id@,
                known_threads(listed, archived)[j].id@,
            ),
{
    let all = all_active(listed) + all_archived(listed);
    let first = first_listed(all);
    let known = known_threads(listed, archived);
    lemma_first_listed(all, thread);
    lemma_first_differ(all);
    assert forall|k: int| 0 <= k < known.len() implies (#[trigger] known[k]).harness_id
        == first[k].harness_id && known[k].id == first[k].id by {}
    if is_among(first, thread) {
        let k = choose|k: int|
            0 <= k < first.len() && (#[trigger] first[k]).is_thread(
                thread.harness_id@,
                thread.id@,
            );
        assert(known[k].is_thread(thread.harness_id@, thread.id@));
    }
    if is_among(known, thread) {
        let k = choose|k: int|
            0 <= k < known.len() && (#[trigger] known[k]).is_thread(
                thread.harness_id@,
                thread.id@,
            );
        assert(first[k].is_thread(thread.harness_id@, thread.id@));
    }
}

} // verus!

//! Projects made of chats and live panes, and the rows that a project is shown as.
use vstd::prelude::*;
use vstd::string::*;

use crate::agent::Thread;
use crate::order::{is_ranked, law_ranked, lemma_filter_contains, lemma_filter_push,
    lemma_ranked_contains, placed, rank, ranked, Ranked, Sortable};
use crate::path::{file_name, path_file_name};
use crate::text::{is_before, is_text, lemma_text_before_irreflexive, lemma_text_before_total,
    lemma_text_before_transitive, opt_text, same_text, text_before};
use crate::tmux::{counts_as_agent, normalized_path, CanonicalPaths, Client, Window};

verus! {

/// The chats and the live panes of one directory.
#[derive(Clone, Debug)]
pub struct Project {
    pub name: String,
    pub cwd: String,
    pub recency: i64,
    pub threads: Vec<Thread>,
    pub agents: Vec<Window>,
}

/// What stands in one row of a project: a live pane by itself, or a chat with its pane, if it is
/// live.
#[derive(Debug)]
pub enum Row {
    Agent(Window),
    Thread { thread: Box<Thread>, live: Option<Window> },
}

/// A project by its texts and its contents.
#[verifier::ext_equal]
pub struct ProjectView {
    pub name: Seq<char>,
    pub cwd: Seq<char>,
    pub recency: i64,
    pub threads: Seq<Thread>,
    pub agents: Seq<Window>,
}

impl Project {
    /// The project by its texts and its contents.
    pub open spec fn view(self) -> ProjectView {
        ProjectView {
            name: self.name@,
            cwd: self.cwd@,
            recency: self.recency,
            threads: self.threads@,
            agents: self.agents@,
        }
    }
}

/// Projects by their texts and their contents.
pub open spec fn project_views(projects: Seq<Project>) -> Seq<ProjectView> {
    projects.map_values(|project: Project| project.view())
}

impl Ranked for ProjectView {
    open spec fn outranks(self, other: Self) -> bool {
        ||| self.recency > other.recency
        ||| self.recency == other.recency && text_before(self.name, other.name)
    }

    proof fn irreflexive(a: Self) {
        lemma_text_before_irreflexive(a.name);
    }

    proof fn transitive(a: Self, b: Self, c: Self) {
        lemma_name_order(a.name, b.name, c.name);
    }
}

proof fn lemma_name_order(a: Seq<char>, b: Seq<char>, c: Seq<char>)
    ensures
        text_before(a, b) && text_before(b, c) ==> text_before(a, c),
        !text_before(a, b) && !text_before(b, c) ==> !text_before(a, c),
{
    lemma_text_before_transitive(a, b, c);
    lemma_text_before_total(a, b);
    lemma_text_before_total(b, c);
    lemma_text_before_transitive(b, a, c);
    lemma_text_before_transitive(a, c, b);
}

impl Ranked for Project {
    open spec fn outranks(self, other: Self) -> bool {
        self.view().outranks(other.view())
    }

    proof fn irreflexive(a: Self) {
        ProjectView::irreflexive(a.view());
    }

    proof fn transitive(a: Self, b: Self, c: Self) {
        ProjectView::transitive(a.view(), b.view(), c.view());
    }
}

impl Sortable for Project {
    fn is_ahead_of(&self, other: &Self) -> bool {
        self.recency > other.recency || (self.recency == other.recency && is_before(
            self.name.as_str(),
            other.name.as_str(),
        ))
    }
}

proof fn lemma_placed_views(items: Seq<Project>, item: Project)
    ensures
        project_views(placed(items, item)) == placed(project_views(items), item.view()),
    decreases items.len(),
{
    let views = project_views(items);
    if items.len() > 0 && item.outranks(items.last()) {
        lemma_placed_views(items.drop_last(), item);
        assert(views.drop_last() =~= project_views(items.drop_last()));
        assert(views.last() == items.last().view());
        assert(project_views(placed(items, item)) =~= project_views(
            placed(items.drop_last(), item),
        ).push(items.last().view()));
    } else {
        if items.len() > 0 {
            assert(views.last() == items.last().view());
        }
        assert(project_views(items.push(item)) =~= views.push(item.view()));
    }
}

/// Projects are put in order as their views are.
pub proof fn lemma_ranked_views(items: Seq<Project>)
    ensures
        project_views(ranked(items)) == ranked(project_views(items)),
    decreases items.len(),
{
    if items.len() == 0 {
        assert(project_views(ranked(items)) =~= ranked(project_views(items)));
    } else {
        lemma_ranked_views(items.drop_last());
        lemma_placed_views(ranked(items.drop_last()), items.last());
        assert(project_views(items).drop_last() =~= project_views(items.drop_last()));
    }
}

/// The name of a project: the last part of its directory, or all of it where there is none.
pub open spec fn name_of(cwd: Seq<char>) -> Seq<char> {
    match file_name(cwd) {
        Some(name) => if name.len() > 0 {
            name
        } else {
            cwd
        },
        None => cwd,
    }
}

/// Finds the name of a project.
pub fn project_name(cwd: &str) -> (name: String)
    ensures
        name@ == name_of(cwd@),
{
    match path_file_name(cwd) {
        Some(name) => if name.as_str().is_empty() {
            cwd.to_owned()
        } else {
            name
        },
        None => cwd.to_owned(),
    }
}

/// The directories of chats, each with the time of the last use.
pub open spec fn thread_entries(threads: Seq<Thread>, canonical: CanonicalPaths) -> Seq<
    (Seq<char>, i64),
> {
    threads.map_values(|thread: Thread| (canonical.normal(thread.cwd@), thread.last_used()))
}

/// The directories of panes, each with the time when its session was last attached.
pub open spec fn agent_entries(agents: Seq<Window>, canonical: CanonicalPaths) -> Seq<
    (Seq<char>, i64),
> {
    agents.map_values(
        |window: Window| (canonical.normal(window.cwd@), window.session_last_attached),
    )
}

/// The directories of entries, each once, in the order in which they come up.
pub open spec fn places(entries: Seq<(Seq<char>, i64)>) -> Seq<Seq<char>>
    decreases entries.len(),
{
    if entries.len() == 0 {
        Seq::empty()
    } else if places(entries.drop_last()).contains(entries.last().0) {
        places(entries.drop_last())
    } else {
        places(entries.drop_last()).push(entries.last().0)
    }
}

/// The latest time of the entries in a directory, but not before zero.
pub open spec fn latest(entries: Seq<(Seq<char>, i64)>, cwd: Seq<char>) -> i64
    decreases entries.len(),
{
    if entries.len() == 0 {
        0
    } else if entries.last().0 == cwd && entries.last().1 > latest(entries.drop_last(), cwd) {
        entries.last().1
    } else {
        latest(entries.drop_last(), cwd)
    }
}

/// The test for chats of a directory.
pub open spec fn thread_in(cwd: Seq<char>, canonical: CanonicalPaths) -> spec_fn(Thread) -> bool {
    |thread: Thread| canonical.normal(thread.cwd@) == cwd
}

/// The test for panes of a directory.
pub open spec fn agent_in(cwd: Seq<char>, canonical: CanonicalPaths) -> spec_fn(Window) -> bool {
    |window: Window| canonical.normal(window.cwd@) == cwd
}

/// The test for panes that count as agents'.
pub open spec fn agent_test(client: Client) -> spec_fn(Window) -> bool {
    |window: Window| counts_as_agent(client.config, window)
}

/// The project of a directory, with its chats and panes in the order in which they were listed.
pub open spec fn gathered_in(
    cwd: Seq<char>,
    threads: Seq<Thread>,
    agents: Seq<Window>,
    canonical: CanonicalPaths,
) -> ProjectView {
    ProjectView {
        name: name_of(cwd),
        cwd,
        recency: latest(thread_entries(threads, canonical) + agent_entries(agents, canonical), cwd),
        threads: threads.filter(thread_in(cwd, canonical)),
        agents: agents.filter(agent_in(cwd, canonical)),
    }
}

/// The projects of chats and panes, in the order in which their directories come up.
pub open spec fn gathered(
    threads: Seq<Thread>,
    agents: Seq<Window>,
    canonical: CanonicalPaths,
) -> Seq<ProjectView> {
    places(thread_entries(threads, canonical) + agent_entries(agents, canonical)).map_values(
        |cwd: Seq<char>| gathered_in(cwd, threads, agents, canonical),
    )
}

/// A project with its chats in order, the last used first.
pub open spec fn with_ranked_threads(project: ProjectView) -> ProjectView {
    ProjectView { threads: ranked(project.threads), ..project }
}

/// The projects before they are put in order.
pub open spec fn listed_projects(
    threads: Seq<Thread>,
    windows: Seq<Window>,
    client: Client,
    canonical: CanonicalPaths,
) -> Seq<ProjectView> {
    gathered(threads, windows.filter(agent_test(client)), canonical).map_values(
        |project: ProjectView| with_ranked_threads(project),
    )
}

/// The projects of chats and of the panes that count as agents', the last used project first, and
/// by name where two were used at the same time.
pub open spec fn projects_of(
    threads: Seq<Thread>,
    windows: Seq<Window>,
    client: Client,
    canonical: CanonicalPaths,
) -> Seq<ProjectView> {
    ranked(listed_projects(threads, windows, client, canonical))
}

proof fn lemma_places(entries: Seq<(Seq<char>, i64)>, cwd: Seq<char>)
    ensures
        places(entries).contains(cwd) <==> exists|k: int|
            0 <= k < entries.len() && (#[trigger] entries[k]).0 == cwd,
        places(entries).no_duplicates(),
    decreases entries.len(),
{
    if entries.len() > 0 {
        let rest = entries.drop_last();
        lemma_places(rest, cwd);
        lemma_places(rest, entries.last().0);
        let before = places(rest);
        if before.contains(cwd) {
            let k = choose|k: int| 0 <= k < rest.len() && (#[trigger] rest[k]).0 == cwd;
            assert(entries[k].0 == cwd);
            let at = choose|at: int| 0 <= at < before.len() && before[at] == cwd;
            assert(places(entries)[at] == cwd);
        } else if entries.last().0 == cwd {
            assert(entries[entries.len() - 1].0 == cwd);
            assert(places(entries)[before.len() as int] == cwd);
        } else {
            if places(entries).contains(cwd) {
                let at = choose|at: int| 0 <= at < places(entries).len() && places(entries)[at] == cwd;
                assert(before[at] == cwd);
            }
            assert forall|k: int| 0 <= k < entries.len() implies (#[trigger] entries[k]).0 != cwd by {
                if k < rest.len() {
                    assert(rest[k] == entries[k]);
                }
            }
        }
    }
}

proof fn lemma_filter_none<T>(items: Seq<T>, keep: spec_fn(T) -> bool)
    requires
        forall|k: int| 0 <= k < items.len() ==> !keep(#[trigger] items[k]),
    ensures
        items.filter(keep) == Seq::<T>::empty(),
    decreases items.len(),
{
    reveal(Seq::filter);
    if items.len() > 0 {
        assert(!keep(items[items.len() - 1]));
        assert forall|k: int| 0 <= k < items.drop_last().len() implies !keep(
            #[trigger] items.drop_last()[k],
        ) by {
            assert(items.drop_last()[k] == items[k]);
        }
        lemma_filter_none(items.drop_last(), keep);
    }
}

proof fn lemma_latest_none(entries: Seq<(Seq<char>, i64)>, cwd: Seq<char>)
    requires
        forall|k: int| 0 <= k < entries.len() ==> (#[trigger] entries[k]).0 != cwd,
    ensures
        latest(entries, cwd) == 0,
    decreases entries.len(),
{
    if entries.len() > 0 {
        assert(entries[entries.len() - 1].0 != cwd);
        assert forall|k: int| 0 <= k < entries.drop_last().len() implies (
        #[trigger] entries.drop_last()[k]).0 != cwd by {
            assert(entries.drop_last()[k] == entries[k]);
        }
        lemma_latest_none(entries.drop_last(), cwd);
    }
}

proof fn lemma_nothing_gathered(
    cwd: Seq<char>,
    threads: Seq<Thread>,
    agents: Seq<Window>,
    canonical: CanonicalPaths,
)
    requires
        !places(
            thread_entries(threads, canonical) + agent_entries(agents, canonical),
        ).contains(cwd),
    ensures
        gathered_in(cwd, threads, agents, canonical) == (ProjectView {
            name: name_of(cwd),
            cwd,
            recency: 0,
            threads: Seq::empty(),
            agents: Seq::empty(),
        }),
{
    let left = thread_entries(threads, canonical);
    let right = agent_entries(agents, canonical);
    let entries = left + right;
    lemma_places(entries, cwd);
    lemma_latest_none(entries, cwd);
    assert forall|k: int| 0 <= k < threads.len() implies !thread_in(cwd, canonical)(
        #[trigger] threads[k],
    ) by {
        assert(entries[k] == left[k]);
        assert(entries[k].0 != cwd);
    }
    lemma_filter_none(threads, thread_in(cwd, canonical));
    assert forall|k: int| 0 <= k < agents.len() implies !agent_in(cwd, canonical)(
        #[trigger] agents[k],
    ) by {
        assert(entries[left.len() + k] == right[k]);
        assert(entries[left.len() + k].0 != cwd);
    }
    lemma_filter_none(agents, agent_in(cwd, canonical));
}

/// A project with one more chat.
pub open spec fn joined_by_thread(project: ProjectView, thread: Thread) -> ProjectView {
    ProjectView {
        recency: if thread.last_used() > project.recency {
            thread.last_used()
        } else {
            project.recency
        },
        threads: project.threads.push(thread),
        ..project
    }
}

/// A project with one more pane.
pub open spec fn joined_by_agent(project: ProjectView, window: Window) -> ProjectView {
    ProjectView {
        recency: if window.session_last_attached > project.recency {
            window.session_last_attached
        } else {
            project.recency
        },
        agents: project.agents.push(window),
        ..project
    }
}

proof fn lemma_gathered_thread(
    cwd: Seq<char>,
    threads: Seq<Thread>,
    thread: Thread,
    canonical: CanonicalPaths,
)
    ensures
        gathered_in(cwd, threads.push(thread), Seq::empty(), canonical) == if canonical.normal(
            thread.cwd@,
        ) == cwd {
            joined_by_thread(gathered_in(cwd, threads, Seq::empty(), canonical), thread)
        } else {
            gathered_in(cwd, threads, Seq::empty(), canonical)
        },
{
    lemma_filter_push(threads, thread, thread_in(cwd, canonical));
    lemma_thread_entries(threads, thread, canonical);
    let before = thread_entries(threads, canonical) + agent_entries(Seq::empty(), canonical);
    let after = thread_entries(threads.push(thread), canonical) + agent_entries(
        Seq::empty(),
        canonical,
    );
    assert(after.drop_last() =~= before);
}

proof fn lemma_thread_entries(threads: Seq<Thread>, thread: Thread, canonical: CanonicalPaths)
    ensures
        thread_entries(threads.push(thread), canonical) + agent_entries(Seq::empty(), canonical)
            == (thread_entries(threads, canonical) + agent_entries(Seq::empty(), canonical)).push(
            (canonical.normal(thread.cwd@), thread.last_used()),
        ),
{
    assert(thread_entries(threads.push(thread), canonical) + agent_entries(Seq::empty(), canonical)
        =~= (thread_entries(threads, canonical) + agent_entries(Seq::empty(), canonical)).push(
        (canonical.normal(thread.cwd@), thread.last_used()),
    ));
}

proof fn lemma_agent_entries(
    threads: Seq<Thread>,
    agents: Seq<Window>,
    window: Window,
    canonical: CanonicalPaths,
)
    ensures
        thread_entries(threads, canonical) + agent_entries(agents.push(window), canonical) == (
        thread_entries(threads, canonical) + agent_entries(agents, canonical)).push(
            (canonical.normal(window.cwd@), window.session_last_attached),
        ),
{
    assert(thread_entries(threads, canonical) + agent_entries(agents.push(window), canonical) =~= (
    thread_entries(threads, canonical) + agent_entries(agents, canonical)).push(
        (canonical.normal(window.cwd@), window.session_last_attached),
    ));
}

proof fn lemma_gathered_agent(
    cwd: Seq<char>,
    threads: Seq<Thread>,
    agents: Seq<Window>,
    window: Window,
    canonical: CanonicalPaths,
)
    ensures
        gathered_in(cwd, threads, agents.push(window), canonical) == if canonical.normal(
            window.cwd@,
        ) == cwd {
            joined_by_agent(gathered_in(cwd, threads, agents, canonical), window)
        } else {
            gathered_in(cwd, threads, agents, canonical)
        },
{
    lemma_filter_push(agents, window, agent_in(cwd, canonical));
    lemma_agent_entries(threads, agents, window, canonical);
    let before = thread_entries(threads, canonical) + agent_entries(agents, canonical);
    let after = thread_entries(threads, canonical) + agent_entries(
        agents.push(window),
        canonical,
    );
    assert(after.drop_last() =~= before);
}

/// Projects with an empty one of a directory at the end, where the place given is behind the last.
spec fn with_place(projects: Seq<ProjectView>, at: int, cwd: Seq<char>) -> Seq<ProjectView> {
    if at < projects.len() {
        projects
    } else {
        projects.push(
            ProjectView {
                name: name_of(cwd),
                cwd,
                recency: 0,
                threads: Seq::empty(),
                agents: Seq::empty(),
            },
        )
    }
}

/// Whether a place is that of the project of a directory, or behind the last where there is none.
spec fn is_place(projects: Seq<ProjectView>, at: int, cwd: Seq<char>) -> bool {
    &&& 0 <= at <= projects.len()
    &&& at < projects.len() ==> projects[at].cwd == cwd
    &&& forall|k: int| 0 <= k < at ==> (#[trigger] projects[k]).cwd != cwd
}

proof fn lemma_join_thread(
    threads: Seq<Thread>,
    thread: Thread,
    canonical: CanonicalPaths,
    at: int,
)
    requires
        is_place(
            gathered(threads, Seq::empty(), canonical),
            at,
            canonical.normal(thread.cwd@),
        ),
    ensures
        ({
            let before = with_place(
                gathered(threads, Seq::empty(), canonical),
                at,
                canonical.normal(thread.cwd@),
            );
            gathered(threads.push(thread), Seq::empty(), canonical) == before.update(
                at,
                joined_by_thread(before[at], thread),
            )
        }),
{
    let cwd = canonical.normal(thread.cwd@);
    let entries = thread_entries(threads, canonical) + agent_entries(Seq::empty(), canonical);
    let old_places = places(entries);
    let all = gathered(threads, Seq::empty(), canonical);
    let before = with_place(all, at, cwd);
    let after = gathered(threads.push(thread), Seq::empty(), canonical);
    lemma_thread_entries(threads, thread, canonical);
    assert(entries.push((cwd, thread.last_used())).drop_last() =~= entries);
    lemma_places(entries, cwd);
    assert(all.len() == old_places.len());
    assert forall|k: int| 0 <= k < all.len() implies #[trigger] all[k].cwd == old_places[k] by {}
    if at < all.len() {
        assert(old_places[at] == cwd);
        assert forall|k: int| 0 <= k < after.len() implies #[trigger] after[k] == before.update(
            at,
            joined_by_thread(before[at], thread),
        )[k] by {
            lemma_gathered_thread(old_places[k], threads, thread, canonical);
        }
    } else {
        if old_places.contains(cwd) {
            let k = choose|k: int| 0 <= k < old_places.len() && old_places[k] == cwd;
            assert(all[k].cwd == cwd);
        }
        lemma_nothing_gathered(cwd, threads, Seq::empty(), canonical);
        lemma_gathered_thread(cwd, threads, thread, canonical);
        assert forall|k: int| 0 <= k < all.len() implies #[trigger] after[k] == all[k] by {
            lemma_gathered_thread(old_places[k], threads, thread, canonical);
            assert(all[k].cwd != cwd);
        }
    }
    assert(after =~= before.update(at, joined_by_thread(before[at], thread)));
}

proof fn lemma_join_agent(
    threads: Seq<Thread>,
    agents: Seq<Window>,
    window: Window,
    canonical: CanonicalPaths,
    at: int,
)
    requires
        is_place(gathered(threads, agents, canonical), at, canonical.normal(window.cwd@)),
    ensures
        ({
            let before = with_place(
                gathered(threads, agents, canonical),
                at,
                canonical.normal(window.cwd@),
            );
            gathered(threads, agents.push(window), canonical) == before.update(
                at,
                joined_by_agent(before[at], window),
            )
        }),
{
    let cwd = canonical.normal(window.cwd@);
    let entries = thread_entries(threads, canonical) + agent_entries(agents, canonical);
    let old_places = places(entries);
    let all = gathered(threads, agents, canonical);
    let before = with_place(all, at, cwd);
    let after = gathered(threads, agents.push(window), canonical);
    lemma_agent_entries(threads, agents, window, canonical);
    assert(entries.push((cwd, window.session_last_attached)).drop_last() =~= entries);
    lemma_places(entries, cwd);
    assert(all.len() == old_places.len());
    assert forall|k: int| 0 <= k < all.len() implies #[trigger] all[k].cwd == old_places[k] by {}
    if at < all.len() {
        assert(old_places[at] == cwd);
        assert forall|k: int| 0 <= k < after.len() implies #[trigger] after[k] == before.update(
            at,
            joined_by_agent(before[at], window),
        )[k] by {
            lemma_gathered_agent(old_places[k], threads, agents, window, canonical);
        }
    } else {
        if old_places.contains(cwd) {
            let k = choose|k: int| 0 <= k < old_places.len() && old_places[k] == cwd;
            assert(all[k].cwd == cwd);
        }
        lemma_nothing_gathered(cwd, threads, agents, canonical);
        lemma_gathered_agent(cwd, threads, agents, window, canonical);
        assert forall|k: int| 0 <= k < all.len() implies #[trigger] after[k] == all[k] by {
            lemma_gathered_agent(old_places[k], threads, agents, window, canonical);
            assert(all[k].cwd != cwd);
        }
    }
    assert(after =~= before.update(at, joined_by_agent(before[at], window)));
}

fn find_project(projects: &Vec<Project>, cwd: &str) -> (at: usize)
    ensures
        at <= projects@.len(),
        at < projects@.len() ==> projects@[at as int].cwd@ == cwd@,
        forall|k: int| 0 <= k < at ==> (#[trigger] projects@[k]).cwd@ != cwd@,
{
    let count: usize = projects.len();
    let mut index: usize = 0;
    while index < count
        invariant
            index <= count,
            count == projects@.len(),
            forall|k: int| 0 <= k < index ==> (#[trigger] projects@[k]).cwd@ != cwd@,
        decreases count - index,
    {
        if same_text(projects[index].cwd.as_str(), cwd) {
            return index;
        }
        index = index + 1;
    }
    count
}

pub(crate) fn new_project(cwd: String) -> (project: Project)
    ensures
        project.view() == (ProjectView {
            name: name_of(cwd@),
            cwd: cwd@,
            recency: 0,
            threads: Seq::empty(),
            agents: Seq::empty(),
        }),
{
    let name = project_name(cwd.as_str());
    Project { name, cwd, recency: 0, threads: Vec::new(), agents: Vec::new() }
}

fn place_of(projects: &mut Vec<Project>, cwd: String) -> (at: usize)
    ensures
        is_place(project_views(old(projects)@), at as int, cwd@),
        project_views(final(projects)@) == with_place(
            project_views(old(projects)@),
            at as int,
            cwd@,
        ),
        at < final(projects)@.len(),
{
    let at: usize = find_project(projects, cwd.as_str());
    let ghost before = projects@;
    proof {
        assert forall|k: int| 0 <= k < at implies (#[trigger] project_views(before)[k]).cwd
            != cwd@ by {
            assert(project_views(before)[k] == before[k].view());
        }
    }
    if at == projects.len() {
        projects.push(new_project(cwd));
        assert(project_views(projects@) =~= with_place(project_views(before), at as int, cwd@));
    }
    at
}

/// Gathers chats and the panes that count as agents' into projects by their directories. Projects
/// used at the same time with the same name stay in the order in which they came up.
pub fn build_projects(
    threads: Vec<Thread>,
    windows: Vec<Window>,
    tmux: &Client,
    canonical: &CanonicalPaths,
) -> (projects: Vec<Project>)
    ensures
        project_views(projects@) == projects_of(threads@, windows@, *tmux, *canonical),
{
    let ghost all = threads@;
    let ghost panes = windows@;
    let mut projects: Vec<Project> = Vec::new();
    proof {
        assert(thread_entries(all.take(0), *canonical) + agent_entries(Seq::empty(), *canonical)
            =~= Seq::<(Seq<char>, i64)>::empty());
        assert(project_views(projects@) =~= gathered(all.take(0), Seq::empty(), *canonical));
    }
    for thread in it: threads
        invariant
            it.seq() == all,
            project_views(projects@) == gathered(
                all.take(it.index()),
                Seq::empty(),
                *canonical,
            ),
    {
        let ghost ahead = all.take(it.index());
        proof {
            assert(all.take(it.index() + 1) =~= ahead.push(thread));
        }
        let cwd = normalized_path(thread.cwd.as_str(), canonical);
        let at: usize = place_of(&mut projects, cwd);
        proof {
            lemma_join_thread(ahead, thread, *canonical, at as int);
        }
        let ghost before = projects@;
        let recency: i64 = thread.recency();
        if recency > projects[at].recency {
            projects[at].recency = recency;
        }
        projects[at].threads.push(thread);
        proof {
            assert(project_views(before)[at as int] == before[at as int].view());
            assert(projects@[at as int].view() =~= joined_by_thread(
                before[at as int].view(),
                thread,
            ));
            assert(project_views(projects@) =~= project_views(before).update(
                at as int,
                joined_by_thread(before[at as int].view(), thread),
            ));
        }
    }
    assert(all.take(all.len() as int) =~= all);
    let ghost test = agent_test(*tmux);
    proof {
        reveal(Seq::filter);
        assert(panes.take(0).filter(test) =~= Seq::<Window>::empty());
    }
    for window in it: windows
        invariant
            it.seq() == panes,
            test == agent_test(*tmux),
            project_views(projects@) == gathered(
                all,
                panes.take(it.index()).filter(test),
                *canonical,
            ),
    {
        let ghost ahead = panes.take(it.index()).filter(test);
        proof {
            assert(panes.take(it.index() + 1) =~= panes.take(it.index()).push(window));
            lemma_filter_push(panes.take(it.index()), window, test);
        }
        if tmux.is_agent(&window) {
            let cwd = normalized_path(window.cwd.as_str(), canonical);
            let at: usize = place_of(&mut projects, cwd);
            proof {
                lemma_join_agent(all, ahead, window, *canonical, at as int);
            }
            let ghost before = projects@;
            let recency: i64 = window.session_last_attached;
            if recency > projects[at].recency {
                projects[at].recency = recency;
            }
            projects[at].agents.push(window);
            proof {
                assert(project_views(before)[at as int] == before[at as int].view());
                assert(projects@[at as int].view() =~= joined_by_agent(
                    before[at as int].view(),
                    window,
                ));
                assert(project_views(projects@) =~= project_views(before).update(
                    at as int,
                    joined_by_agent(before[at as int].view(), window),
                ));
            }
        }
    }
    assert(panes.take(panes.len() as int) =~= panes);
    let ghost found = projects@;
    let mut result: Vec<Project> = Vec::new();
    for project in it: projects
        invariant
            it.seq() == found,
            project_views(result@) == project_views(found.take(it.index())).map_values(
                |project: ProjectView| with_ranked_threads(project),
            ),
    {
        let ghost before = result@;
        let ghost given = project;
        let Project { name, cwd, recency, threads: listed, agents } = project;
        let ordered = Project { name, cwd, recency, threads: rank(listed), agents };
        assert(ordered.view() =~= with_ranked_threads(given.view()));
        result.push(ordered);
        assert(project_views(result@) =~= project_views(before).push(ordered.view()));
        assert(project_views(result@) =~= project_views(found.take(it.index() + 1)).map_values(
            |project: ProjectView| with_ranked_threads(project),
        ));
    }
    assert(found.take(found.len() as int) =~= found);
    proof {
        lemma_ranked_views(result@);
    }
    rank(result)
}

impl Clone for Row {
    fn clone(&self) -> (copy: Self)
        ensures
            copy == *self,
    {
        match self {
            Row::Agent(window) => Row::Agent(window.clone()),
            Row::Thread { thread, live } => Row::Thread {
                thread: Box::new((**thread).clone()),
                live: live.clone(),
            },
        }
    }
}

/// A text, or a stand-in where there is none.
pub open spec fn text_or(value: Option<Seq<char>>, stand_in: Seq<char>) -> Seq<char> {
    match value {
        Some(text) => text,
        None => stand_in,
    }
}

impl Row {
    /// The title of the row: that of the chat, or what is known of the pane.
    pub open spec fn shown_title(self) -> Seq<char> {
        match self {
            Row::Agent(window) => "Live "@ + text_or(opt_text(window.harness_id), "agent"@)
                + " \u{b7} "@ + window.session@ + ":"@ + text_or(
                opt_text(window.chat_title),
                window.window_name@,
            ),
            Row::Thread { thread, live: _ } => thread.shown_title(),
        }
    }

    /// When what the row shows was last used.
    pub open spec fn last_used(self) -> i64 {
        match self {
            Row::Agent(window) => window.session_last_attached,
            Row::Thread { thread, live: _ } => thread.last_used(),
        }
    }

    /// Whether the row shows a live pane.
    pub open spec fn shows_live(self) -> bool {
        match self {
            Row::Agent(_) => true,
            Row::Thread { thread: _, live } => live is Some,
        }
    }

    /// Writes the title of the row.
    pub fn title(&self) -> (title: String)
        ensures
            title@ == self.shown_title(),
    {
        match self {
            Row::Agent(window) => {
                let mut title = "Live ".to_owned();
                match &window.harness_id {
                    Some(harness_id) => title.append(harness_id.as_str()),
                    None => title.append("agent"),
                }
                title.append(" \u{b7} ");
                title.append(window.session.as_str());
                title.append(":");
                match &window.chat_title {
                    Some(label) => title.append(label.as_str()),
                    None => title.append(window.window_name.as_str()),
                }
                title
            },
            Row::Thread { thread, live: _ } => thread.title().to_owned(),
        }
    }

    /// Finds when what the row shows was last used.
    pub fn recency(&self) -> (recency: i64)
        ensures
            recency == self.last_used(),
    {
        match self {
            Row::Agent(window) => window.session_last_attached,
            Row::Thread { thread, live: _ } => thread.recency(),
        }
    }

    /// Tests whether the row shows a live pane.
    pub fn is_live(&self) -> (live: bool)
        ensures
            live == self.shows_live(),
    {
        match self {
            Row::Agent(_) => true,
            Row::Thread { thread: _, live } => live.is_some(),
        }
    }
}

impl Ranked for Row {
    open spec fn outranks(self, other: Self) -> bool {
        ||| self.shows_live() && !other.shows_live()
        ||| self.shows_live() == other.shows_live() && self.last_used() > other.last_used()
    }

    proof fn irreflexive(a: Self) {
    }

    proof fn transitive(a: Self, b: Self, c: Self) {
    }
}

impl Sortable for Row {
    fn is_ahead_of(&self, other: &Self) -> bool {
        let mine = self.is_live();
        let theirs = other.is_live();
        (mine && !theirs) || (mine == theirs && self.recency() > other.recency())
    }
}

/// Whether a pane is marked with a thread of a harness.
pub open spec fn is_pane_of(
    window: Window,
    harness_id: Seq<char>,
    thread_id: Seq<char>,
) -> bool {
    opt_text(window.harness_id) == Some(harness_id) && opt_text(window.thread_id) == Some(thread_id)
}

/// Whether a pane is marked with a title of a harness, and with no thread.
pub open spec fn is_pane_named(window: Window, harness_id: Seq<char>, title: Seq<char>) -> bool {
    &&& window.thread_id is None
    &&& opt_text(window.harness_id) == Some(harness_id)
    &&& opt_text(window.chat_title) == Some(title)
}

/// Whether a pane belongs to a chat: by the thread that it is marked with, or, where it is marked
/// with none, by its title.
pub open spec fn belongs_to(window: Window, thread: Thread) -> bool {
    ||| is_pane_of(window, thread.harness_id@, thread.id@)
    ||| thread.name is Some && is_pane_named(window, thread.harness_id@, thread.name->0@)
}

/// Whether a pane belongs to one of several chats.
pub open spec fn is_claimed(window: Window, threads: Seq<Thread>) -> bool {
    exists|k: int| 0 <= k < threads.len() && belongs_to(window, #[trigger] threads[k])
}

/// The last pane that is marked with a thread of a harness.
pub open spec fn mapped_pane(
    agents: Seq<Window>,
    harness_id: Seq<char>,
    thread_id: Seq<char>,
) -> Option<Window>
    decreases agents.len(),
{
    if agents.len() == 0 {
        None
    } else if is_pane_of(agents.last(), harness_id, thread_id) {
        Some(agents.last())
    } else {
        mapped_pane(agents.drop_last(), harness_id, thread_id)
    }
}

/// The test for panes that are marked with a title of a harness, and with no thread.
pub open spec fn named_test(harness_id: Seq<char>, title: Seq<char>) -> spec_fn(Window) -> bool {
    |window: Window| is_pane_named(window, harness_id, title)
}

/// The live pane of a chat: the one that is marked with its thread, or else the only one that is
/// marked with its name.
pub open spec fn live_pane(thread: Thread, agents: Seq<Window>) -> Option<Window> {
    match mapped_pane(agents, thread.harness_id@, thread.id@) {
        Some(window) => Some(window),
        None => match thread.name {
            Some(name) => {
                let named = agents.filter(named_test(thread.harness_id@, name@));
                if named.len() == 1 {
                    Some(named[0])
                } else {
                    None
                }
            },
            None => None,
        },
    }
}

/// The test for panes that belong to none of several chats.
pub open spec fn unclaimed_test(threads: Seq<Thread>) -> spec_fn(Window) -> bool {
    |window: Window| !is_claimed(window, threads)
}

/// The rows of panes.
pub open spec fn agent_rows(agents: Seq<Window>) -> Seq<Row> {
    agents.map_values(|window: Window| Row::Agent(window))
}

/// The rows of chats, each with its live pane among several.
pub open spec fn thread_rows(threads: Seq<Thread>, agents: Seq<Window>) -> Seq<Row> {
    threads.map_values(
        |thread: Thread|
            Row::Thread { thread: Box::new(thread), live: live_pane(thread, agents) },
    )
}

/// The rows of a project before they are put in order.
pub open spec fn listed_rows(threads: Seq<Thread>, agents: Seq<Window>) -> Seq<Row> {
    agent_rows(agents.filter(unclaimed_test(threads))) + thread_rows(threads, agents)
}

fn has_mark(mark: &Option<String>, value: &String) -> (same: bool)
    ensures
        same == (opt_text(*mark) == Some(value@)),
{
    is_text(mark, value.as_str())
}

fn pane_belongs_to(window: &Window, thread: &Thread) -> (belongs: bool)
    ensures
        belongs == belongs_to(*window, *thread),
{
    if !has_mark(&window.harness_id, &thread.harness_id) {
        return false;
    }
    if window.thread_id.is_some() {
        return has_mark(&window.thread_id, &thread.id);
    }
    match &thread.name {
        Some(name) => has_mark(&window.chat_title, name),
        None => false,
    }
}

fn pane_is_claimed(window: &Window, threads: &Vec<Thread>) -> (claimed: bool)
    ensures
        claimed == is_claimed(*window, threads@),
{
    let count: usize = threads.len();
    let mut index: usize = 0;
    while index < count
        invariant
            index <= count,
            count == threads@.len(),
            forall|k: int| 0 <= k < index ==> !belongs_to(*window, #[trigger] threads@[k]),
        decreases count - index,
    {
        if pane_belongs_to(window, &threads[index]) {
            return true;
        }
        index = index + 1;
    }
    false
}

fn find_live_pane(thread: &Thread, agents: &Vec<Window>) -> (live: Option<Window>)
    ensures
        live == live_pane(*thread, agents@),
{
    let mut end: usize = agents.len();
    assert(agents@.take(end as int) =~= agents@);
    while end > 0
        invariant
            end <= agents@.len(),
            mapped_pane(agents@, thread.harness_id@, thread.id@) == mapped_pane(
                agents@.take(end as int),
                thread.harness_id@,
                thread.id@,
            ),
        decreases end,
    {
        let window = &agents[end - 1];
        assert(agents@.take(end as int).drop_last() =~= agents@.take(end - 1));
        assert(agents@.take(end as int).last() == *window);
        if has_mark(&window.harness_id, &thread.harness_id) && has_mark(
            &window.thread_id,
            &thread.id,
        ) {
            return Some(window.clone());
        }
        end = end - 1;
    }
    match &thread.name {
        None => None,
        Some(name) => {
            let ghost test = named_test(thread.harness_id@, name@);
            let mut only: Option<usize> = None;
            let mut several = false;
            let count: usize = agents.len();
            let mut index: usize = 0;
            proof {
                reveal(Seq::filter);
            }
            while index < count
                invariant
                    index <= count,
                    count == agents@.len(),
                    test == named_test(thread.harness_id@, name@),
                    several == (agents@.take(index as int).filter(test).len() > 1),
                    match only {
                        Some(at) => at < count && agents@.take(index as int).filter(test).len() >= 1
                            && agents@.take(index as int).filter(test)[0] == agents@[at as int],
                        None => agents@.take(index as int).filter(test).len() == 0,
                    },
                decreases count - index,
            {
                let window = &agents[index];
                proof {
                    assert(agents@.take(index + 1) =~= agents@.take(index as int).push(*window));
                    lemma_filter_push(agents@.take(index as int), *window, test);
                }
                if window.thread_id.is_none() && has_mark(
                    &window.harness_id,
                    &thread.harness_id,
                ) && has_mark(&window.chat_title, name) {
                    match only {
                        Some(_) => {
                            several = true;
                        },
                        None => {
                            only = Some(index);
                        },
                    }
                }
                index = index + 1;
            }
            assert(agents@.take(count as int) =~= agents@);
            match only {
                Some(at) => if several {
                    None
                } else {
                    Some(agents[at].clone())
                },
                None => None,
            }
        },
    }
}

/// Lists the rows of a project: live ones first, then by their last use. A pane that belongs to a
/// chat has no row of its own.
pub fn rows(project: &Project) -> (result: Vec<Row>)
    ensures
        result@ == ranked(listed_rows(project.threads@, project.agents@)),
{
    let ghost agents = project.agents@;
    let ghost threads = project.threads@;
    let ghost test = unclaimed_test(threads);
    let mut list: Vec<Row> = Vec::new();
    let count: usize = project.agents.len();
    let mut index: usize = 0;
    proof {
        reveal(Seq::filter);
        assert(list@ =~= agent_rows(agents.take(0).filter(test)));
    }
    while index < count
        invariant
            index <= count,
            count == project.agents@.len(),
            agents == project.agents@,
            threads == project.threads@,
            test == unclaimed_test(threads),
            list@ == agent_rows(agents.take(index as int).filter(test)),
        decreases count - index,
    {
        let window = &project.agents[index];
        let ghost before = agents.take(index as int).filter(test);
        proof {
            assert(agents.take(index + 1) =~= agents.take(index as int).push(*window));
            lemma_filter_push(agents.take(index as int), *window, test);
        }
        if !pane_is_claimed(window, &project.threads) {
            list.push(Row::Agent(window.clone()));
            assert(list@ =~= agent_rows(before.push(*window)));
        }
        index = index + 1;
    }
    assert(agents.take(count as int) =~= agents);
    let ghost first = list@;
    let total: usize = project.threads.len();
    let mut at: usize = 0;
    assert(first + thread_rows(threads.take(0), agents) =~= first);
    while at < total
        invariant
            at <= total,
            total == project.threads@.len(),
            agents == project.agents@,
            threads == project.threads@,
            list@ == first + thread_rows(threads.take(at as int), agents),
        decreases total - at,
    {
        let thread = &project.threads[at];
        let live = find_live_pane(thread, &project.agents);
        let row = Row::Thread { thread: Box::new(thread.clone()), live };
        list.push(row);
        assert(list@ =~= first + thread_rows(threads.take(at + 1), agents));
        at = at + 1;
    }
    assert(threads.take(total as int) =~= threads);
    rank(list)
}

proof fn lemma_listed(
    threads: Seq<Thread>,
    windows: Seq<Window>,
    client: Client,
    canonical: CanonicalPaths,
    at: int,
)
    requires
        0 <= at < listed_projects(threads, windows, client, canonical).len(),
    ensures
        ({
            let agents = windows.filter(agent_test(client));
            let entries = thread_entries(threads, canonical) + agent_entries(agents, canonical);
            let project = listed_projects(threads, windows, client, canonical)[at];
            &&& listed_projects(threads, windows, client, canonical).len() == places(entries).len()
            &&& project == with_ranked_threads(
                gathered_in(places(entries)[at], threads, agents, canonical),
            )
            &&& project.cwd == places(entries)[at]
        }),
{
}

proof fn lemma_project_of_place(
    threads: Seq<Thread>,
    windows: Seq<Window>,
    client: Client,
    canonical: CanonicalPaths,
    cwd: Seq<char>,
)
    requires
        places(
            thread_entries(threads, canonical) + agent_entries(
                windows.filter(agent_test(client)),
                canonical,
            ),
        ).contains(cwd),
    ensures
        projects_of(threads, windows, client, canonical).contains(
            with_ranked_threads(
                gathered_in(cwd, threads, windows.filter(agent_test(client)), canonical),
            ),
        ),
{
    let agents = windows.filter(agent_test(client));
    let entries = thread_entries(threads, canonical) + agent_entries(agents, canonical);
    let at = choose|at: int| 0 <= at < places(entries).len() && places(entries)[at] == cwd;
    let listed = listed_projects(threads, windows, client, canonical);
    lemma_listed(threads, windows, client, canonical, at);
    assert(listed[at] == with_ranked_threads(gathered_in(cwd, threads, agents, canonical)));
    lemma_ranked_contains(listed, listed[at]);
}

/// Every chat stands in the project of its directory.
pub proof fn law_thread_has_its_project(
    threads: Seq<Thread>,
    windows: Seq<Window>,
    client: Client,
    canonical: CanonicalPaths,
    thread: Thread,
)
    requires
        threads.contains(thread),
    ensures
        exists|project: ProjectView| #[trigger]
            projects_of(threads, windows, client, canonical).contains(project) && project.cwd
                == canonical.normal(thread.cwd@) && project.threads.contains(thread),
{
    let agents = windows.filter(agent_test(client));
    let left = thread_entries(threads, canonical);
    let entries = left + agent_entries(agents, canonical);
    let cwd = canonical.normal(thread.cwd@);
    let k = choose|k: int| 0 <= k < threads.len() && threads[k] == thread;
    assert(entries[k] == left[k]);
    assert(entries[k].0 == cwd);
    lemma_places(entries, cwd);
    lemma_project_of_place(threads, windows, client, canonical, cwd);
    let mine = gathered_in(cwd, threads, agents, canonical);
    lemma_filter_contains(threads, thread_in(cwd, canonical), thread);
    lemma_ranked_contains(mine.threads, thread);
    assert(projects_of(threads, windows, client, canonical).contains(with_ranked_threads(mine)));
}

/// Every pane that counts as an agent's stands in the project of its directory.
pub proof fn law_agent_has_its_project(
    threads: Seq<Thread>,
    windows: Seq<Window>,
    client: Client,
    canonical: CanonicalPaths,
    window: Window,
)
    requires
        windows.contains(window),
        counts_as_agent(client.config, window),
    ensures
        exists|project: ProjectView| #[trigger]
            projects_of(threads, windows, client, canonical).contains(project) && project.cwd
                == canonical.normal(window.cwd@) && project.agents.contains(window),
{
    let agents = windows.filter(agent_test(client));
    let left = thread_entries(threads, canonical);
    let right = agent_entries(agents, canonical);
    let entries = left + right;
    let cwd = canonical.normal(window.cwd@);
    lemma_filter_contains(windows, agent_test(client), window);
    let k = choose|k: int| 0 <= k < agents.len() && agents[k] == window;
    assert(entries[left.len() + k] == right[k]);
    assert(entries[left.len() + k].0 == cwd);
    lemma_places(entries, cwd);
    lemma_project_of_place(threads, windows, client, canonical, cwd);
    let mine = gathered_in(cwd, threads, agents, canonical);
    lemma_filter_contains(agents, agent_in(cwd, canonical), window);
    assert(projects_of(threads, windows, client, canonical).contains(with_ranked_threads(mine)));
}

/// A project holds only chats and agents' panes of its directory, is named after it, and was last
/// used when one of them was, or at zero.
pub proof fn law_project_holds_only_its_own(
    threads: Seq<Thread>,
    windows: Seq<Window>,
    client: Client,
    canonical: CanonicalPaths,
    project: ProjectView,
)
    requires
        projects_of(threads, windows, client, canonical).contains(project),
    ensures
        project.name == name_of(project.cwd),
        forall|thread: Thread| #[trigger]
            project.threads.contains(thread) ==> threads.contains(thread) && canonical.normal(
                thread.cwd@,
            ) == project.cwd && thread.last_used() <= project.recency,
        forall|window: Window| #[trigger]
            project.agents.contains(window) ==> windows.contains(window) && counts_as_agent(
                client.config,
                window,
            ) && canonical.normal(window.cwd@) == project.cwd && window.session_last_attached
                <= project.recency,
        project.recency >= 0,
{
    let agents = windows.filter(agent_test(client));
    let left = thread_entries(threads, canonical);
    let right = agent_entries(agents, canonical);
    let entries = left + right;
    let listed = listed_projects(threads, windows, client, canonical);
    lemma_ranked_contains(listed, project);
    let at = choose|at: int| 0 <= at < listed.len() && listed[at] == project;
    lemma_listed(threads, windows, client, canonical, at);
    let cwd = project.cwd;
    let mine = gathered_in(cwd, threads, agents, canonical);
    lemma_latest(entries, cwd);
    assert forall|thread: Thread| #[trigger] project.threads.contains(
        thread,
    ) implies threads.contains(thread) && canonical.normal(thread.cwd@) == cwd
        && thread.last_used() <= project.recency by {
        lemma_ranked_contains(mine.threads, thread);
        lemma_filter_contains(threads, thread_in(cwd, canonical), thread);
        let k = choose|k: int| 0 <= k < threads.len() && threads[k] == thread;
        assert(entries[k] == left[k]);
    }
    assert forall|window: Window| #[trigger] project.agents.contains(
        window,
    ) implies windows.contains(window) && counts_as_agent(client.config, window)
        && canonical.normal(window.cwd@) == cwd && window.session_last_attached
        <= project.recency by {
        lemma_filter_contains(agents, agent_in(cwd, canonical), window);
        lemma_filter_contains(windows, agent_test(client), window);
        let k = choose|k: int| 0 <= k < agents.len() && agents[k] == window;
        assert(entries[left.len() + k] == right[k]);
    }
}

proof fn lemma_latest(entries: Seq<(Seq<char>, i64)>, cwd: Seq<char>)
    ensures
        latest(entries, cwd) >= 0,
        forall|k: int|
            0 <= k < entries.len() && (#[trigger] entries[k]).0 == cwd ==> entries[k].1 <= latest(
                entries,
                cwd,
            ),
    decreases entries.len(),
{
    if entries.len() > 0 {
        let rest = entries.drop_last();
        lemma_latest(rest, cwd);
        assert forall|k: int|
            0 <= k < entries.len() && (#[trigger] entries[k]).0 == cwd implies entries[k].1
            <= latest(entries, cwd) by {
            if k < rest.len() {
                assert(rest[k] == entries[k]);
            }
        }
    }
}

/// Whether no two projects are of one directory.
pub open spec fn directories_differ(projects: Seq<ProjectView>) -> bool {
    forall|i: int, j: int|
        0 <= i < j < projects.len() ==> (#[trigger] projects[i]).cwd != (#[trigger] projects[j]).cwd
}

proof fn lemma_placed_differ(items: Seq<ProjectView>, item: ProjectView)
    requires
        directories_differ(items),
        forall|k: int| 0 <= k < items.len() ==> (#[trigger] items[k]).cwd != item.cwd,
    ensures
        directories_differ(placed(items, item)),
        forall|k: int|
            #![trigger placed(items, item)[k]]
            0 <= k < placed(items, item).len() ==> placed(items, item)[k] == item || items.contains(
                placed(items, item)[k],
            ),
    decreases items.len(),
{
    let result = placed(items, item);
    if items.len() > 0 && item.outranks(items.last()) {
        let rest = items.drop_last();
        let last = items.last();
        assert forall|i: int, j: int| 0 <= i < j < rest.len() implies (#[trigger] rest[i]).cwd != (
        #[trigger] rest[j]).cwd by {
            assert(rest[i] == items[i] && rest[j] == items[j]);
        }
        assert forall|k: int| 0 <= k < rest.len() implies (#[trigger] rest[k]).cwd != item.cwd by {
            assert(rest[k] == items[k]);
        }
        lemma_placed_differ(rest, item);
        let front = placed(rest, item);
        assert(items[items.len() - 1] == last);
        assert forall|k: int| 0 <= k < front.len() implies (#[trigger] front[k]).cwd != last.cwd && (
        front[k] == item || items.contains(front[k])) by {
            if front[k] != item {
                assert(rest.contains(front[k]));
                let m = choose|m: int| 0 <= m < rest.len() && rest[m] == front[k];
                assert(items[m] == front[k]);
            }
        }
        assert forall|i: int, j: int| 0 <= i < j < result.len() implies (#[trigger] result[i]).cwd
            != (#[trigger] result[j]).cwd by {
            assert(result[i] == front[i]);
            if j < front.len() {
                assert(result[j] == front[j]);
            }
        }
        assert forall|k: int| 0 <= k < result.len() implies #[trigger] result[k] == item
            || items.contains(result[k]) by {
            if k < front.len() {
                assert(result[k] == front[k]);
            }
        }
    } else {
        assert forall|i: int, j: int| 0 <= i < j < result.len() implies (#[trigger] result[i]).cwd
            != (#[trigger] result[j]).cwd by {
            assert(result[i] == items[i]);
            if j < items.len() {
                assert(result[j] == items[j]);
            }
        }
        assert forall|k: int| 0 <= k < result.len() implies #[trigger] result[k] == item
            || items.contains(result[k]) by {
            if k < items.len() {
                assert(result[k] == items[k]);
            }
        }
    }
}

/// Putting projects in order keeps them in different directories.
pub proof fn lemma_ranked_differ(items: Seq<ProjectView>)
    requires
        directories_differ(items),
    ensures
        directories_differ(ranked(items)),
    decreases items.len(),
{
    if items.len() > 0 {
        let rest = items.drop_last();
        assert forall|i: int, j: int| 0 <= i < j < rest.len() implies (#[trigger] rest[i]).cwd != (
        #[trigger] rest[j]).cwd by {
            assert(rest[i] == items[i] && rest[j] == items[j]);
        }
        lemma_ranked_differ(rest);
        assert forall|k: int| 0 <= k < ranked(rest).len() implies (#[trigger] ranked(rest)[k]).cwd
            != items.last().cwd by {
            lemma_ranked_contains(rest, ranked(rest)[k]);
            assert(ranked(rest).contains(ranked(rest)[k]));
            let m = choose|m: int| 0 <= m < rest.len() && rest[m] == ranked(rest)[k];
            assert(items[m] == rest[m]);
            assert(items[items.len() - 1] == items.last());
        }
        lemma_placed_differ(ranked(rest), items.last());
    }
}

/// No two projects are of one directory, and the projects stand in order: the last used one first,
/// and by name where two were used at the same time.
pub proof fn law_projects_in_order(
    threads: Seq<Thread>,
    windows: Seq<Window>,
    client: Client,
    canonical: CanonicalPaths,
)
    ensures
        directories_differ(projects_of(threads, windows, client, canonical)),
        is_ranked(projects_of(threads, windows, client, canonical)),
{
    let agents = windows.filter(agent_test(client));
    let entries = thread_entries(threads, canonical) + agent_entries(agents, canonical);
    let listed = listed_projects(threads, windows, client, canonical);
    lemma_places(entries, Seq::empty());
    assert forall|i: int, j: int| 0 <= i < j < listed.len() implies (#[trigger] listed[i]).cwd != (
    #[trigger] listed[j]).cwd by {
        lemma_listed(threads, windows, client, canonical, i);
        lemma_listed(threads, windows, client, canonical, j);
    }
    lemma_ranked_differ(listed);
    law_ranked(listed);
}

/// A chat is shown as live only with a pane that is certain to be its own: one that is marked with
/// its thread, or, where no pane is, the only one that bears its name and no thread.
pub proof fn law_live_pane_is_certain(thread: Thread, agents: Seq<Window>)
    ensures
        live_pane(thread, agents) matches Some(window) ==> {
            &&& agents.contains(window)
            &&& belongs_to(window, thread)
            &&& !is_pane_of(window, thread.harness_id@, thread.id@) ==> forall|k: int, m: int|
                0 <= k < m < agents.len() ==> !(is_pane_named(
                    #[trigger] agents[k],
                    thread.harness_id@,
                    thread.name->0@,
                ) && is_pane_named(#[trigger] agents[m], thread.harness_id@, thread.name->0@))
        },
{
    lemma_mapped_pane(agents, thread.harness_id@, thread.id@);
    if mapped_pane(agents, thread.harness_id@, thread.id@) is None && thread.name is Some {
        let test = named_test(thread.harness_id@, thread.name->0@);
        let named = agents.filter(test);
        if named.len() == 1 {
            lemma_filter_contains(agents, test, named[0]);
            assert(named.contains(named[0]));
            assert forall|k: int, m: int| 0 <= k < m < agents.len() implies !(test(
                #[trigger] agents[k],
            ) && test(#[trigger] agents[m])) by {
                if test(agents[k]) && test(agents[m]) {
                    lemma_filter_two(agents, test, k, m);
                }
            }
        }
    }
}

proof fn lemma_filter_two<T>(items: Seq<T>, keep: spec_fn(T) -> bool, first: int, second: int)
    requires
        0 <= first < second < items.len(),
        keep(items[first]),
        keep(items[second]),
    ensures
        items.filter(keep).len() >= 2,
    decreases items.len(),
{
    reveal(Seq::filter);
    let rest = items.drop_last();
    if second < rest.len() {
        assert(rest[first] == items[first] && rest[second] == items[second]);
        lemma_filter_two(rest, keep, first, second);
    } else {
        lemma_filter_contains(rest, keep, items[first]);
        assert(rest[first] == items[first]);
        assert(rest.contains(items[first]));
    }
}

proof fn lemma_mapped_pane(agents: Seq<Window>, harness_id: Seq<char>, thread_id: Seq<char>)
    ensures
        match mapped_pane(agents, harness_id, thread_id) {
            Some(window) => agents.contains(window) && is_pane_of(window, harness_id, thread_id),
            None => forall|k: int|
                0 <= k < agents.len() ==> !is_pane_of(#[trigger] agents[k], harness_id, thread_id),
        },
    decreases agents.len(),
{
    if agents.len() > 0 {
        let rest = agents.drop_last();
        lemma_mapped_pane(rest, harness_id, thread_id);
        assert(agents[agents.len() - 1] == agents.last());
        match mapped_pane(rest, harness_id, thread_id) {
            Some(window) => {
                let k = choose|k: int| 0 <= k < rest.len() && rest[k] == window;
                assert(agents[k] == window);
            },
            None => {
                if !is_pane_of(agents.last(), harness_id, thread_id) {
                    assert forall|k: int| 0 <= k < agents.len() implies !is_pane_of(
                        #[trigger] agents[k],
                        harness_id,
                        thread_id,
                    ) by {
                        if k < rest.len() {
                            assert(rest[k] == agents[k]);
                        }
                    }
                }
            },
        }
    }
}

/// A pane that is marked with the thread of a chat makes the chat live.
pub proof fn law_marked_pane_is_live(thread: Thread, agents: Seq<Window>, window: Window)
    requires
        agents.contains(window),
        is_pane_of(window, thread.harness_id@, thread.id@),
    ensures
        live_pane(thread, agents) matches Some(live) && is_pane_of(
            live,
            thread.harness_id@,
            thread.id@,
        ),
{
    lemma_mapped_pane(agents, thread.harness_id@, thread.id@);
    let k = choose|k: int| 0 <= k < agents.len() && agents[k] == window;
    assert(is_pane_of(agents[k], thread.harness_id@, thread.id@));
}

/// The rows of a project show each of its chats, and each of its panes that belongs to no chat, and
/// nothing else; live rows stand before others, and among either the last used one comes first.
pub proof fn law_rows_show_everything(threads: Seq<Thread>, agents: Seq<Window>)
    ensures
        ({
            let shown = ranked(listed_rows(threads, agents));
            &&& shown.len() == threads.len() + agents.filter(unclaimed_test(threads)).len()
            &&& forall|thread: Thread| #[trigger]
                threads.contains(thread) ==> shown.contains(
                    Row::Thread { thread: Box::new(thread), live: live_pane(thread, agents) },
                )
            &&& forall|window: Window| #[trigger]
                agents.contains(window) && !is_claimed(window, threads) ==> shown.contains(
                    Row::Agent(window),
                )
            &&& forall|row: Row| #[trigger]
                shown.contains(row) ==> match row {
                    Row::Agent(window) => agents.contains(window) && !is_claimed(window, threads),
                    Row::Thread { thread, live } => threads.contains(*thread) && live == live_pane(
                        *thread,
                        agents,
                    ),
                }
            &&& forall|i: int, j: int|
                0 <= i < j < shown.len() && (#[trigger] shown[j]).shows_live() ==> (
                #[trigger] shown[i]).shows_live()
            &&& forall|i: int, j: int|
                0 <= i < j < shown.len() && (#[trigger] shown[i]).shows_live() == (
                #[trigger] shown[j]).shows_live() ==> shown[i].last_used() >= shown[j].last_used()
        }),
{
    let free = agents.filter(unclaimed_test(threads));
    let first = agent_rows(free);
    let second = thread_rows(threads, agents);
    let listed = listed_rows(threads, agents);
    let shown = ranked(listed);
    law_ranked(listed);
    lemma_ranked_contains(listed, listed[0]);
    assert forall|thread: Thread| #[trigger] threads.contains(thread) implies shown.contains(
        Row::Thread { thread: Box::new(thread), live: live_pane(thread, agents) },
    ) by {
        let k = choose|k: int| 0 <= k < threads.len() && threads[k] == thread;
        assert(listed[first.len() + k] == second[k]);
        lemma_ranked_contains(listed, second[k]);
    }
    assert forall|window: Window| #[trigger] agents.contains(window) && !is_claimed(
        window,
        threads,
    ) implies shown.contains(Row::Agent(window)) by {
        lemma_filter_contains(agents, unclaimed_test(threads), window);
        let k = choose|k: int| 0 <= k < free.len() && free[k] == window;
        assert(listed[k] == first[k]);
        lemma_ranked_contains(listed, first[k]);
    }
    assert forall|row: Row| #[trigger] shown.contains(row) implies match row {
        Row::Agent(window) => agents.contains(window) && !is_claimed(window, threads),
        Row::Thread { thread, live } => threads.contains(*thread) && live == live_pane(
            *thread,
            agents,
        ),
    } by {
        lemma_ranked_contains(listed, row);
        let k = choose|k: int| 0 <= k < listed.len() && listed[k] == row;
        if k < first.len() {
            assert(row == Row::Agent(free[k]));
            assert(free.contains(free[k]));
            lemma_filter_contains(agents, unclaimed_test(threads), free[k]);
        } else {
            assert(row == second[k - first.len()]);
            assert(threads.contains(threads[k - first.len()]));
        }
    }
}

} // verus!

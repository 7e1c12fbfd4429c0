//! What is remembered between runs: panes of threads, archived threads and project paths.
use vstd::prelude::*;
use vstd::string::*;

use crate::agent::DEFAULT_HARNESS_ID;
use crate::text::{decimal, decimal_text, is_text, opt_text, same_text, texts};
use crate::tmux::{has_text, window_views, Window, WindowView};

verus! {

/// The pane that a thread was opened in.
#[derive(Debug)]
pub struct Mapping {
    pub harness_id: String,
    pub thread_id: String,
    pub window_id: String,
    pub pane_id: Option<String>,
    pub session: String,
    pub window_name: String,
    pub cwd: String,
}

/// What is remembered between runs.
#[derive(Debug)]
pub struct State {
    pub version: u32,
    pub last_project: Option<String>,
    pub mappings: Vec<Mapping>,
    pub archived_threads: Vec<ArchivedThread>,
    pub hidden_threads: Vec<ArchivedThread>,
    pub project_paths: Vec<String>,
    pub hidden_project_paths: Vec<String>,
    pub deleted_project_paths: Vec<String>,
}

/// A thread that is named in a list.
#[derive(Debug, PartialEq, Eq)]
pub struct ArchivedThread {
    pub harness_id: String,
    pub thread_id: String,
}

impl Clone for Mapping {
    fn clone(&self) -> (copy: Self)
        ensures
            copy == *self,
    {
        Mapping {
            harness_id: self.harness_id.clone(),
            thread_id: self.thread_id.clone(),
            window_id: self.window_id.clone(),
            pane_id: self.pane_id.clone(),
            session: self.session.clone(),
            window_name: self.window_name.clone(),
            cwd: self.cwd.clone(),
        }
    }
}

impl Clone for ArchivedThread {
    fn clone(&self) -> (copy: Self)
        ensures
            copy == *self,
    {
        ArchivedThread { harness_id: self.harness_id.clone(), thread_id: self.thread_id.clone() }
    }
}

/// A mapping by its texts.
pub struct MappingView {
    pub harness_id: Seq<char>,
    pub thread_id: Seq<char>,
    pub window_id: Seq<char>,
    pub pane_id: Option<Seq<char>>,
    pub session: Seq<char>,
    pub window_name: Seq<char>,
    pub cwd: Seq<char>,
}

/// A state by its texts.
#[verifier::ext_equal]
pub struct StateView {
    pub version: int,
    pub last_project: Option<Seq<char>>,
    pub mappings: Seq<MappingView>,
    pub archived_threads: Seq<(Seq<char>, Seq<char>)>,
    pub hidden_threads: Seq<(Seq<char>, Seq<char>)>,
    pub project_paths: Seq<Seq<char>>,
    pub hidden_project_paths: Seq<Seq<char>>,
    pub deleted_project_paths: Seq<Seq<char>>,
}

impl Mapping {
    /// The mapping by its texts.
    pub open spec fn view(self) -> MappingView {
        MappingView {
            harness_id: self.harness_id@,
            thread_id: self.thread_id@,
            window_id: self.window_id@,
            pane_id: opt_text(self.pane_id),
            session: self.session@,
            window_name: self.window_name@,
            cwd: self.cwd@,
        }
    }
}

/// Mappings by their texts.
pub open spec fn mapping_views(mappings: Seq<Mapping>) -> Seq<MappingView> {
    mappings.map_values(|mapping: Mapping| mapping.view())
}

/// Threads of a list, each by its harness and its identifier.
pub open spec fn thread_keys(threads: Seq<ArchivedThread>) -> Seq<(Seq<char>, Seq<char>)> {
    threads.map_values(|thread: ArchivedThread| (thread.harness_id@, thread.thread_id@))
}

impl State {
    /// The state by its texts.
    pub open spec fn view(self) -> StateView {
        StateView {
            version: self.version as int,
            last_project: opt_text(self.last_project),
            mappings: mapping_views(self.mappings@),
            archived_threads: thread_keys(self.archived_threads@),
            hidden_threads: thread_keys(self.hidden_threads@),
            project_paths: texts(self.project_paths@),
            hidden_project_paths: texts(self.hidden_project_paths@),
            deleted_project_paths: texts(self.deleted_project_paths@),
        }
    }
}

/// The state before anything was remembered.
pub open spec fn empty_state() -> StateView {
    StateView {
        version: 1,
        last_project: None,
        mappings: Seq::empty(),
        archived_threads: Seq::empty(),
        hidden_threads: Seq::empty(),
        project_paths: Seq::empty(),
        hidden_project_paths: Seq::empty(),
        deleted_project_paths: Seq::empty(),
    }
}

impl Default for State {
    fn default() -> (state: Self)
        ensures
            state.view() == empty_state(),
    {
        let state = State {
            version: 1,
            last_project: None,
            mappings: Vec::new(),
            archived_threads: Vec::new(),
            hidden_threads: Vec::new(),
            project_paths: Vec::new(),
            hidden_project_paths: Vec::new(),
            deleted_project_paths: Vec::new(),
        };
        assert(state.view() =~= empty_state());
        state
    }
}

/// Whether a mapping fits a pane: the pane bears no other harness, stands in the same directory,
/// and is the pane of the mapping, or in its window where the mapping names no pane.
pub open spec fn fits(mapping: MappingView, window: WindowView) -> bool {
    &&& window.harness_id is Some ==> window.harness_id->0 == mapping.harness_id
    &&& mapping.cwd == window.cwd
    &&& match mapping.pane_id {
        Some(pane_id) => pane_id == window.pane_id,
        None => mapping.window_id == window.window_id,
    }
}

/// Whether a mapping fits one of several panes.
pub open spec fn fits_any(mapping: MappingView, windows: Seq<WindowView>) -> bool {
    exists|k: int| 0 <= k < windows.len() && fits(mapping, #[trigger] windows[k])
}

/// The mappings that fit one of several panes.
pub open spec fn live_mappings(mappings: Seq<MappingView>, windows: Seq<WindowView>) -> Seq<
    MappingView,
> {
    mappings.filter(|mapping: MappingView| fits_any(mapping, windows))
}

/// The first mapping that fits a pane.
pub open spec fn fitting(mappings: Seq<MappingView>, window: WindowView) -> Option<MappingView>
    decreases mappings.len(),
{
    if mappings.len() == 0 {
        None
    } else if fits(mappings[0], window) {
        Some(mappings[0])
    } else {
        fitting(mappings.skip(1), window)
    }
}

/// A pane with the marks that it should bear: one with a thread has a harness, and one without is
/// given those of the first mapping that fits it.
pub open spec fn restored(window: WindowView, mappings: Seq<MappingView>) -> WindowView {
    if window.thread_id is Some {
        WindowView {
            harness_id: match window.harness_id {
                Some(harness_id) => Some(harness_id),
                None => Some(DEFAULT_HARNESS_ID@),
            },
            ..window
        }
    } else {
        match fitting(mappings, window) {
            Some(mapping) => WindowView {
                harness_id: Some(mapping.harness_id),
                thread_id: Some(mapping.thread_id),
                ..window
            },
            None => window,
        }
    }
}

/// Panes with the marks that they should bear.
pub open spec fn all_restored(windows: Seq<WindowView>, mappings: Seq<MappingView>) -> Seq<
    WindowView,
> {
    windows.map_values(|window: WindowView| restored(window, mappings))
}

/// The test that keeps everything but one item.
pub open spec fn other_than<T>(item: T) -> spec_fn(T) -> bool {
    |other: T| other != item
}

/// A list of threads in which one is named once or not at all.
pub open spec fn with_thread(
    threads: Seq<(Seq<char>, Seq<char>)>,
    thread: (Seq<char>, Seq<char>),
    named: bool,
) -> Seq<(Seq<char>, Seq<char>)> {
    let others = threads.filter(other_than(thread));
    if named {
        others.push(thread)
    } else {
        others
    }
}

/// Paths without one of them.
pub open spec fn without_path(paths: Seq<Seq<char>>, path: Seq<char>) -> Seq<Seq<char>> {
    paths.filter(other_than(path))
}

/// Paths with one of them at the end, where it is not among them.
pub open spec fn with_path(paths: Seq<Seq<char>>, path: Seq<char>) -> Seq<Seq<char>> {
    if paths.contains(path) {
        paths
    } else {
        paths.push(path)
    }
}

/// The last project, where it is another one.
pub open spec fn other_project(last: Option<Seq<char>>, path: Seq<char>) -> Option<Seq<char>> {
    if last == Some(path) {
        None
    } else {
        last
    }
}

/// The mappings that stay when a thread is opened in a pane: those of other threads in other panes.
pub open spec fn other_mappings(
    mappings: Seq<MappingView>,
    harness_id: Seq<char>,
    thread_id: Seq<char>,
    pane_id: Seq<char>,
) -> Seq<MappingView> {
    mappings.filter(
        |mapping: MappingView|
            !(mapping.harness_id == harness_id && mapping.thread_id == thread_id)
                && mapping.pane_id != Some(pane_id),
    )
}

/// The mapping of a thread to a pane.
pub open spec fn mapping_to(
    harness_id: Seq<char>,
    thread_id: Seq<char>,
    window: WindowView,
) -> MappingView {
    MappingView {
        harness_id,
        thread_id,
        window_id: window.window_id,
        pane_id: Some(window.pane_id),
        session: window.session,
        window_name: window.window_name,
        cwd: window.cwd,
    }
}

impl StateView {
    /// The state after panes were looked at.
    pub open spec fn reconciled(self, windows: Seq<WindowView>) -> StateView {
        StateView { mappings: live_mappings(self.mappings, windows), ..self }
    }

    /// The state after a path was added to the projects.
    pub open spec fn with_project(self, path: Seq<char>) -> StateView {
        StateView {
            project_paths: with_path(self.project_paths, path),
            hidden_project_paths: without_path(self.hidden_project_paths, path),
            deleted_project_paths: without_path(self.deleted_project_paths, path),
            ..self
        }
    }

    /// The state after a project was hidden.
    pub open spec fn with_hidden_project(self, path: Seq<char>) -> StateView {
        StateView {
            project_paths: without_path(self.project_paths, path),
            hidden_project_paths: with_path(self.hidden_project_paths, path),
            last_project: other_project(self.last_project, path),
            ..self
        }
    }

    /// The state after a project was deleted.
    pub open spec fn with_deleted_project(self, path: Seq<char>) -> StateView {
        StateView {
            project_paths: without_path(self.project_paths, path),
            hidden_project_paths: without_path(self.hidden_project_paths, path),
            deleted_project_paths: with_path(self.deleted_project_paths, path),
            last_project: other_project(self.last_project, path),
            ..self
        }
    }

    /// The state after a thread was opened in a pane.
    pub open spec fn with_mapping(
        self,
        harness_id: Seq<char>,
        thread_id: Seq<char>,
        window: WindowView,
    ) -> StateView {
        StateView {
            mappings: other_mappings(
                self.mappings,
                harness_id,
                thread_id,
                window.pane_id,
            ).push(mapping_to(harness_id, thread_id, window)),
            ..self
        }
    }

    /// Whether a project is hidden or deleted.
    pub open spec fn suppresses(self, path: Seq<char>) -> bool {
        self.hidden_project_paths.contains(path) || self.deleted_project_paths.contains(path)
    }

    /// Whether no project is both shown and hidden or deleted.
    pub open spec fn paths_apart(self) -> bool {
        forall|path: Seq<char>| #[trigger] self.project_paths.contains(path) ==> !self.suppresses(path)
    }
}

proof fn lemma_filter_step<T>(items: Seq<T>, index: int, keep: spec_fn(T) -> bool)
    requires
        0 <= index < items.len(),
    ensures
        items.take(index + 1).filter(keep) == if keep(items[index]) {
            items.take(index).filter(keep).push(items[index])
        } else {
            items.take(index).filter(keep)
        },
{
    reveal(Seq::filter);
    assert(items.take(index + 1).drop_last() =~= items.take(index));
}

fn names_thread(
    threads: &Vec<ArchivedThread>,
    harness_id: &str,
    thread_id: &str,
) -> (found: bool)
    ensures
        found == thread_keys(threads@).contains((harness_id@, thread_id@)),
{
    let ghost keys = thread_keys(threads@);
    let count: usize = threads.len();
    let mut index: usize = 0;
    while index < count
        invariant
            index <= count,
            count == threads@.len(),
            keys == thread_keys(threads@),
            forall|k: int| 0 <= k < index ==> keys[k] != (harness_id@, thread_id@),
        decreases count - index,
    {
        let thread = &threads[index];
        assert(keys[index as int] == (thread.harness_id@, thread.thread_id@));
        if same_text(thread.harness_id.as_str(), harness_id) && same_text(
            thread.thread_id.as_str(),
            thread_id,
        ) {
            return true;
        }
        index = index + 1;
    }
    false
}

fn set_thread(
    threads: &Vec<ArchivedThread>,
    harness_id: &str,
    thread_id: &str,
    named: bool,
) -> (result: Vec<ArchivedThread>)
    ensures
        thread_keys(result@) == with_thread(
            thread_keys(threads@),
            (harness_id@, thread_id@),
            named,
        ),
{
    let ghost keys = thread_keys(threads@);
    let ghost thread = (harness_id@, thread_id@);
    let ghost keep = other_than(thread);
    let mut result: Vec<ArchivedThread> = Vec::new();
    let count: usize = threads.len();
    let mut index: usize = 0;
    proof {
        reveal(Seq::filter);
        assert(thread_keys(result@) =~= keys.take(0).filter(keep));
    }
    while index < count
        invariant
            index <= count,
            count == threads@.len(),
            keys == thread_keys(threads@),
            thread == (harness_id@, thread_id@),
            keep == other_than(thread),
            thread_keys(result@) == keys.take(index as int).filter(keep),
        decreases count - index,
    {
        let ghost before = result@;
        let entry = &threads[index];
        proof {
            lemma_filter_step(keys, index as int, keep);
            assert(keys[index as int] == (entry.harness_id@, entry.thread_id@));
        }
        let same = same_text(entry.harness_id.as_str(), harness_id) && same_text(
            entry.thread_id.as_str(),
            thread_id,
        );
        if !same {
            result.push(entry.clone());
            assert(thread_keys(result@) =~= thread_keys(before).push(keys[index as int]));
        }
        index = index + 1;
    }
    assert(keys.take(count as int) =~= keys);
    let ghost others = result@;
    if named {
        result.push(
            ArchivedThread { harness_id: harness_id.to_owned(), thread_id: thread_id.to_owned() },
        );
        assert(thread_keys(result@) =~= thread_keys(others).push(thread));
    }
    result
}

fn remove_path(paths: &Vec<String>, path: &str) -> (result: Vec<String>)
    ensures
        texts(result@) == without_path(texts(paths@), path@),
{
    let ghost all = texts(paths@);
    let ghost keep = other_than(path@);
    let mut result: Vec<String> = Vec::new();
    let count: usize = paths.len();
    let mut index: usize = 0;
    proof {
        reveal(Seq::filter);
        assert(texts(result@) =~= all.take(0).filter(keep));
    }
    while index < count
        invariant
            index <= count,
            count == paths@.len(),
            all == texts(paths@),
            keep == other_than(path@),
            texts(result@) == all.take(index as int).filter(keep),
        decreases count - index,
    {
        let ghost before = result@;
        proof {
            lemma_filter_step(all, index as int, keep);
            assert(all[index as int] == paths@[index as int]@);
        }
        if !same_text(paths[index].as_str(), path) {
            result.push(paths[index].clone());
            assert(texts(result@) =~= texts(before).push(all[index as int]));
        }
        index = index + 1;
    }
    assert(all.take(count as int) =~= all);
    result
}

fn add_path(paths: &mut Vec<String>, path: &str)
    ensures
        texts(final(paths)@) == with_path(texts(old(paths)@), path@),
{
    if !has_text(paths, path) {
        let ghost before = paths@;
        paths.push(path.to_owned());
        assert(texts(paths@) =~= texts(before).push(path@));
    }
}

impl Mapping {
    /// Whether the mapping fits a pane.
    pub fn matches(&self, window: &Window) -> (fitting: bool)
        ensures
            fitting == fits(self.view(), window.view()),
    {
        let harness_matches = match &window.harness_id {
            Some(harness_id) => same_text(harness_id.as_str(), self.harness_id.as_str()),
            None => true,
        };
        let place_matches = match &self.pane_id {
            Some(pane_id) => same_text(pane_id.as_str(), window.pane_id.as_str()),
            None => same_text(self.window_id.as_str(), window.window_id.as_str()),
        };
        harness_matches && same_text(self.cwd.as_str(), window.cwd.as_str()) && place_matches
    }
}

fn matches_any(mapping: &Mapping, windows: &Vec<Window>) -> (found: bool)
    ensures
        found == fits_any(mapping.view(), window_views(windows@)),
{
    let ghost views = window_views(windows@);
    let count: usize = windows.len();
    let mut index: usize = 0;
    while index < count
        invariant
            index <= count,
            count == windows@.len(),
            views == window_views(windows@),
            forall|k: int| 0 <= k < index ==> !fits(mapping.view(), #[trigger] views[k]),
        decreases count - index,
    {
        assert(views[index as int] == windows@[index as int].view());
        if mapping.matches(&windows[index]) {
            return true;
        }
        index = index + 1;
    }
    false
}

fn first_fitting<'a>(mappings: &'a Vec<Mapping>, window: &Window) -> (result: Option<&'a Mapping>)
    ensures
        match result {
            Some(mapping) => fitting(mapping_views(mappings@), window.view()) == Some(
                mapping.view(),
            ),
            None => fitting(mapping_views(mappings@), window.view()) is None,
        },
{
    let ghost all = mapping_views(mappings@);
    let count: usize = mappings.len();
    let mut index: usize = 0;
    assert(all.skip(0) =~= all);
    while index < count
        invariant
            index <= count,
            count == mappings@.len(),
            all == mapping_views(mappings@),
            fitting(all, window.view()) == fitting(all.skip(index as int), window.view()),
        decreases count - index,
    {
        assert(all.skip(index as int)[0] == mappings@[index as int].view());
        assert(all.skip(index as int).skip(1) =~= all.skip(index + 1));
        if mappings[index].matches(window) {
            return Some(&mappings[index]);
        }
        index = index + 1;
    }
    None
}

impl State {
    /// Takes over what was read from a file, where there was one. The version must be known.
    pub fn load(read: Option<State>, path: &str) -> (result: Result<State, String>)
        ensures
            match result {
                Ok(state) => match read {
                    None => state.view() == empty_state(),
                    Some(found) => found.version == 1 && state == found,
                },
                Err(message) => read is Some && read->0.version != 1 && message@
                    == "unsupported CIA state version "@ + decimal(read->0.version as nat)
                    + " in "@ + path@,
            },
    {
        match read {
            None => Ok(State::default()),
            Some(state) => {
                if state.version != 1 {
                    let mut message = "unsupported CIA state version ".to_owned();
                    message.append(decimal_text(state.version as u128).as_str());
                    message.append(" in ");
                    message.append(path);
                    return Err(message);
                }
                Ok(state)
            },
        }
    }

    /// Forgets the mappings that fit no pane, and gives panes the marks that they should bear.
    pub fn reconcile(&mut self, windows: &mut Vec<Window>)
        ensures
            final(self).view() == old(self).view().reconciled(window_views(old(windows)@)),
            window_views(final(windows)@) == all_restored(
                window_views(old(windows)@),
                live_mappings(old(self).view().mappings, window_views(old(windows)@)),
            ),
    {
        let ghost views = window_views(windows@);
        let ghost all = mapping_views(self.mappings@);
        let ghost keep = |mapping: MappingView| fits_any(mapping, views);
        let mut kept: Vec<Mapping> = Vec::new();
        let count: usize = self.mappings.len();
        let mut index: usize = 0;
        proof {
            reveal(Seq::filter);
            assert(mapping_views(kept@) =~= all.take(0).filter(keep));
        }
        while index < count
            invariant
                index <= count,
                count == self.mappings@.len(),
                *self == *old(self),
                *windows == *old(windows),
                views == window_views(windows@),
                all == mapping_views(self.mappings@),
                keep == (|mapping: MappingView| fits_any(mapping, views)),
                mapping_views(kept@) == all.take(index as int).filter(keep),
            decreases count - index,
        {
            let ghost before = kept@;
            proof {
                lemma_filter_step(all, index as int, keep);
                assert(all[index as int] == self.mappings@[index as int].view());
            }
            if matches_any(&self.mappings[index], windows) {
                kept.push(self.mappings[index].clone());
                assert(mapping_views(kept@) =~= mapping_views(before).push(all[index as int]));
            }
            index = index + 1;
        }
        assert(all.take(count as int) =~= all);
        self.mappings = kept;
        let ghost live = live_mappings(all, views);
        assert(mapping_views(self.mappings@) == live);
        let ghost expected = all_restored(views, live);
        let total: usize = windows.len();
        let mut at: usize = 0;
        while at < total
            invariant
                at <= total,
                total == windows@.len(),
                total == views.len(),
                mapping_views(self.mappings@) == live,
                expected == all_restored(views, live),
                forall|k: int| 0 <= k < at ==> (#[trigger] windows@[k]).view() == expected[k],
                forall|k: int| at <= k < total ==> (#[trigger] windows@[k]).view() == views[k],
                *self == (State { mappings: self.mappings, ..*old(self) }),
            decreases total - at,
        {
            let mut window = windows[at].clone();
            assert(window.view() == views[at as int]);
            assert(expected[at as int] == restored(views[at as int], live));
            if window.thread_id.is_some() {
                if window.harness_id.is_none() {
                    window.harness_id = Some(DEFAULT_HARNESS_ID.to_owned());
                }
            } else {
                match first_fitting(&self.mappings, &window) {
                    Some(mapping) => {
                        window.harness_id = Some(mapping.harness_id.clone());
                        window.thread_id = Some(mapping.thread_id.clone());
                    },
                    None => {},
                }
            }
            assert(window.view() == expected[at as int]);
            windows.set(at, window);
            at = at + 1;
        }
        assert(window_views(windows@) =~= expected);
        assert(self.view() =~= old(self).view().reconciled(views));
    }

    /// Whether a thread is archived.
    pub fn is_archived(&self, harness_id: &str, thread_id: &str) -> (archived: bool)
        ensures
            archived == self.view().archived_threads.contains((harness_id@, thread_id@)),
    {
        names_thread(&self.archived_threads, harness_id, thread_id)
    }

    /// Archives a thread, or takes it back.
    pub fn set_archived(&mut self, harness_id: &str, thread_id: &str, archived: bool)
        ensures
            final(self).view() == (StateView {
                archived_threads: with_thread(
                    old(self).view().archived_threads,
                    (harness_id@, thread_id@),
                    archived,
                ),
                ..old(self).view()
            }),
    {
        self.archived_threads = set_thread(&self.archived_threads, harness_id, thread_id, archived);
    }

    /// Whether a thread is hidden.
    pub fn is_hidden(&self, harness_id: &str, thread_id: &str) -> (hidden: bool)
        ensures
            hidden == self.view().hidden_threads.contains((harness_id@, thread_id@)),
    {
        names_thread(&self.hidden_threads, harness_id, thread_id)
    }

    /// Hides a thread, or shows it again.
    pub fn set_hidden(&mut self, harness_id: &str, thread_id: &str, hidden: bool)
        ensures
            final(self).view() == (StateView {
                hidden_threads: with_thread(
                    old(self).view().hidden_threads,
                    (harness_id@, thread_id@),
                    hidden,
                ),
                ..old(self).view()
            }),
    {
        self.hidden_threads = set_thread(&self.hidden_threads, harness_id, thread_id, hidden);
    }

    /// Adds a path to the projects. It is then neither hidden nor deleted.
    pub fn add_project_path(&mut self, cwd: String)
        ensures
            final(self).view() == old(self).view().with_project(cwd@),
    {
        self.hidden_project_paths = remove_path(&self.hidden_project_paths, cwd.as_str());
        self.deleted_project_paths = remove_path(&self.deleted_project_paths, cwd.as_str());
        add_path(&mut self.project_paths, cwd.as_str());
    }

    /// Hides a project.
    pub fn hide_project_path(&mut self, cwd: &str)
        ensures
            final(self).view() == old(self).view().with_hidden_project(cwd@),
    {
        self.project_paths = remove_path(&self.project_paths, cwd);
        add_path(&mut self.hidden_project_paths, cwd);
        if is_text(&self.last_project, cwd) {
            self.last_project = None;
        }
    }

    /// Shows a hidden project again.
    pub fn unhide_project_path(&mut self, cwd: &str)
        ensures
            final(self).view() == old(self).view().with_project(cwd@),
    {
        self.hidden_project_paths = remove_path(&self.hidden_project_paths, cwd);
        proof {
            lemma_without_twice(old(self).view().hidden_project_paths, cwd@);
        }
        self.add_project_path(cwd.to_owned());
        assert(self.view() =~= old(self).view().with_project(cwd@));
    }

    /// Deletes a project.
    pub fn delete_project_path(&mut self, cwd: &str)
        ensures
            final(self).view() == old(self).view().with_deleted_project(cwd@),
    {
        self.project_paths = remove_path(&self.project_paths, cwd);
        self.hidden_project_paths = remove_path(&self.hidden_project_paths, cwd);
        add_path(&mut self.deleted_project_paths, cwd);
        if is_text(&self.last_project, cwd) {
            self.last_project = None;
        }
    }

    /// Whether a project is hidden.
    pub fn is_project_hidden(&self, cwd: &str) -> (hidden: bool)
        ensures
            hidden == self.view().hidden_project_paths.contains(cwd@),
    {
        has_text(&self.hidden_project_paths, cwd)
    }

    /// Whether a project is deleted.
    pub fn is_project_deleted(&self, cwd: &str) -> (deleted: bool)
        ensures
            deleted == self.view().deleted_project_paths.contains(cwd@),
    {
        has_text(&self.deleted_project_paths, cwd)
    }

    /// Whether a project is hidden or deleted.
    pub fn is_project_suppressed(&self, cwd: &str) -> (suppressed: bool)
        ensures
            suppressed == self.view().suppresses(cwd@),
    {
        self.is_project_hidden(cwd) || self.is_project_deleted(cwd)
    }

    /// Remembers that a thread is open in a pane, and forgets what else was of either.
    pub fn record(&mut self, harness_id: &str, thread_id: &str, window: &Window)
        ensures
            final(self).view() == old(self).view().with_mapping(
                harness_id@,
                thread_id@,
                window.view(),
            ),
    {
        let ghost all = mapping_views(self.mappings@);
        let ghost keep = |mapping: MappingView|
            !(mapping.harness_id == harness_id@ && mapping.thread_id == thread_id@)
                && mapping.pane_id != Some(window.pane_id@);
        let mut kept: Vec<Mapping> = Vec::new();
        let count: usize = self.mappings.len();
        let mut index: usize = 0;
        proof {
            reveal(Seq::filter);
            assert(mapping_views(kept@) =~= all.take(0).filter(keep));
        }
        while index < count
            invariant
                index <= count,
                count == self.mappings@.len(),
                *self == *old(self),
                all == mapping_views(self.mappings@),
                keep == (|mapping: MappingView|
                    !(mapping.harness_id == harness_id@ && mapping.thread_id == thread_id@)
                        && mapping.pane_id != Some(window.pane_id@)),
                mapping_views(kept@) == all.take(index as int).filter(keep),
            decreases count - index,
        {
            let ghost before = kept@;
            let mapping = &self.mappings[index];
            proof {
                lemma_filter_step(all, index as int, keep);
                assert(all[index as int] == mapping.view());
            }
            let same_thread = same_text(mapping.harness_id.as_str(), harness_id) && same_text(
                mapping.thread_id.as_str(),
                thread_id,
            );
            if !same_thread && !is_text(&mapping.pane_id, window.pane_id.as_str()) {
                kept.push(mapping.clone());
                assert(mapping_views(kept@) =~= mapping_views(before).push(all[index as int]));
            }
            index = index + 1;
        }
        assert(all.take(count as int) =~= all);
        let ghost others = kept@;
        kept.push(
            Mapping {
                harness_id: harness_id.to_owned(),
                thread_id: thread_id.to_owned(),
                window_id: window.window_id.clone(),
                pane_id: Some(window.pane_id.clone()),
                session: window.session.clone(),
                window_name: window.window_name.clone(),
                cwd: window.cwd.clone(),
            },
        );
        assert(mapping_views(kept@) =~= mapping_views(others).push(
            mapping_to(harness_id@, thread_id@, window.view()),
        ));
        self.mappings = kept;
        assert(self.view() =~= old(self).view().with_mapping(
            harness_id@,
            thread_id@,
            window.view(),
        ));
    }
}

proof fn lemma_filtered<T>(items: Seq<T>, keep: spec_fn(T) -> bool)
    ensures
        forall|item: T| #[trigger] items.filter(keep).contains(item) <==> items.contains(item) && keep(
            item,
        ),
    decreases items.len(),
{
    reveal(Seq::filter);
    if items.len() > 0 {
        let rest = items.drop_last();
        lemma_filtered(rest, keep);
        lemma_pushed(rest, items.last());
        lemma_pushed(rest.filter(keep), items.last());
        assert(items =~= rest.push(items.last()));
    }
}

proof fn lemma_pushed<T>(items: Seq<T>, last: T)
    ensures
        forall|item: T| #[trigger] items.push(last).contains(item) <==> items.contains(item) || item
            == last,
{
    assert forall|item: T| items.contains(item) || item == last implies #[trigger] items.push(
        last,
    ).contains(item) by {
        if item == last {
            assert(items.push(last)[items.len() as int] == item);
        } else {
            let at = choose|k: int| 0 <= k < items.len() && items[k] == item;
            assert(items.push(last)[at] == item);
        }
    }
}

proof fn lemma_without_twice(paths: Seq<Seq<char>>, path: Seq<char>)
    ensures
        without_path(without_path(paths, path), path) == without_path(paths, path),
    decreases paths.len(),
{
    reveal(Seq::filter);
    if paths.len() > 0 {
        lemma_without_twice(paths.drop_last(), path);
        let rest = without_path(paths.drop_last(), path);
        if paths.last() != path {
            assert(rest.push(paths.last()).drop_last() =~= rest);
        }
    }
}

/// What was set of a thread is read back, and nothing changes for another thread.
pub proof fn law_thread_is_set(
    threads: Seq<(Seq<char>, Seq<char>)>,
    thread: (Seq<char>, Seq<char>),
    other: (Seq<char>, Seq<char>),
    named: bool,
)
    ensures
        with_thread(threads, thread, named).contains(thread) == named,
        other != thread ==> with_thread(threads, thread, named).contains(other)
            == threads.contains(other),
{
    let keep = other_than(thread);
    lemma_filtered(threads, keep);
    lemma_pushed(threads.filter(keep), thread);
    assert(!keep(thread));
    assert(other != thread ==> keep(other));
}

/// A project path that was added is shown and not suppressed, and other paths stay as they were.
pub proof fn law_added_project(state: StateView, path: Seq<char>, other: Seq<char>)
    ensures
        state.with_project(path).project_paths.contains(path),
        !state.with_project(path).suppresses(path),
        other != path ==> {
            &&& state.with_project(path).project_paths.contains(other)
                == state.project_paths.contains(other)
            &&& state.with_project(path).suppresses(other) == state.suppresses(other)
        },
{
    let keep = other_than(path);
    lemma_filtered(state.hidden_project_paths, keep);
    lemma_filtered(state.deleted_project_paths, keep);
    lemma_pushed(state.project_paths, path);
    assert(!keep(path));
    assert(other != path ==> keep(other));
}

/// A project that was hidden is suppressed and not shown, and is not the last one; other projects
/// stay as they were.
pub proof fn law_hidden_project(state: StateView, path: Seq<char>, other: Seq<char>)
    ensures
        state.with_hidden_project(path).hidden_project_paths.contains(path),
        state.with_hidden_project(path).suppresses(path),
        !state.with_hidden_project(path).project_paths.contains(path),
        state.with_hidden_project(path).last_project != Some(path),
        other != path ==> {
            &&& state.with_hidden_project(path).project_paths.contains(other)
                == state.project_paths.contains(other)
            &&& state.with_hidden_project(path).suppresses(other) == state.suppresses(other)
        },
{
    let keep = other_than(path);
    lemma_filtered(state.project_paths, keep);
    lemma_pushed(state.hidden_project_paths, path);
    assert(!keep(path));
    assert(other != path ==> keep(other));
}

/// A project that was deleted is suppressed, without being in the list of the hidden ones, and is
/// neither shown nor the last one; other projects stay as they were.
pub proof fn law_deleted_project(state: StateView, path: Seq<char>, other: Seq<char>)
    ensures
        state.with_deleted_project(path).deleted_project_paths.contains(path),
        state.with_deleted_project(path).suppresses(path),
        !state.with_deleted_project(path).hidden_project_paths.contains(path),
        !state.with_deleted_project(path).project_paths.contains(path),
        state.with_deleted_project(path).last_project != Some(path),
        other != path ==> {
            &&& state.with_deleted_project(path).project_paths.contains(other)
                == state.project_paths.contains(other)
            &&& state.with_deleted_project(path).suppresses(other) == state.suppresses(other)
        },
{
    let keep = other_than(path);
    lemma_filtered(state.project_paths, keep);
    lemma_filtered(state.hidden_project_paths, keep);
    lemma_pushed(state.deleted_project_paths, path);
    assert(!keep(path));
    assert(other != path ==> keep(other));
}

/// Showing a hidden project again brings it back among the shown ones and out of the hidden ones.
pub proof fn law_unhidden_project(state: StateView, path: Seq<char>)
    ensures
        ({
            let shown = state.with_hidden_project(path).with_project(path);
            &&& shown.project_paths.contains(path)
            &&& !shown.hidden_project_paths.contains(path)
            &&& !shown.deleted_project_paths.contains(path)
        }),
{
    law_added_project(state.with_hidden_project(path), path, path);
}

/// No operation makes a project both shown and suppressed.
pub proof fn law_paths_stay_apart(state: StateView, path: Seq<char>)
    requires
        state.paths_apart(),
    ensures
        empty_state().paths_apart(),
        state.with_project(path).paths_apart(),
        state.with_hidden_project(path).paths_apart(),
        state.with_deleted_project(path).paths_apart(),
{
    assert forall|other: Seq<char>| #[trigger]
        state.with_project(path).project_paths.contains(other) implies !state.with_project(
        path,
    ).suppresses(other) by {
        law_added_project(state, path, other);
    }
    assert forall|other: Seq<char>| #[trigger]
        state.with_hidden_project(path).project_paths.contains(
            other,
        ) implies !state.with_hidden_project(path).suppresses(other) by {
        law_hidden_project(state, path, other);
    }
    assert forall|other: Seq<char>| #[trigger]
        state.with_deleted_project(path).project_paths.contains(
            other,
        ) implies !state.with_deleted_project(path).suppresses(other) by {
        law_deleted_project(state, path, other);
    }
}

/// Whether two mappings are of one thread, or of one pane.
pub open spec fn clash(left: MappingView, right: MappingView) -> bool {
    ||| left.harness_id == right.harness_id && left.thread_id == right.thread_id
    ||| left.pane_id is Some && left.pane_id == right.pane_id
}

/// Whether each thread has at most one mapping, and each pane too.
pub open spec fn are_distinct(mappings: Seq<MappingView>) -> bool {
    forall|i: int, j: int|
        0 <= i < j < mappings.len() ==> !clash(#[trigger] mappings[i], #[trigger] mappings[j])
}

proof fn lemma_filter_distinct(mappings: Seq<MappingView>, keep: spec_fn(MappingView) -> bool)
    requires
        are_distinct(mappings),
    ensures
        are_distinct(mappings.filter(keep)),
    decreases mappings.len(),
{
    reveal(Seq::filter);
    if mappings.len() > 0 {
        let rest = mappings.drop_last();
        assert(are_distinct(rest)) by {
            assert forall|i: int, j: int| 0 <= i < j < rest.len() implies !clash(
                #[trigger] rest[i],
                #[trigger] rest[j],
            ) by {
                assert(rest[i] == mappings[i] && rest[j] == mappings[j]);
            }
        }
        lemma_filter_distinct(rest, keep);
        if keep(mappings.last()) {
            let kept = rest.filter(keep);
            lemma_filtered(rest, keep);
            let all = kept.push(mappings.last());
            assert forall|i: int, j: int| 0 <= i < j < all.len() implies !clash(
                #[trigger] all[i],
                #[trigger] all[j],
            ) by {
                if j == kept.len() {
                    assert(kept.contains(kept[i]));
                    let at = choose|k: int| 0 <= k < rest.len() && rest[k] == kept[i];
                    assert(mappings[at] == all[i]);
                    assert(mappings[mappings.len() - 1] == all[j]);
                }
            }
        }
    }
}

/// Each thread and each pane keeps at most one mapping, whatever is recorded or reconciled.
pub proof fn law_mappings_stay_distinct(
    state: StateView,
    harness_id: Seq<char>,
    thread_id: Seq<char>,
    window: WindowView,
    windows: Seq<WindowView>,
)
    requires
        are_distinct(state.mappings),
    ensures
        are_distinct(empty_state().mappings),
        are_distinct(state.with_mapping(harness_id, thread_id, window).mappings),
        are_distinct(state.reconciled(windows).mappings),
{
    lemma_filter_distinct(state.mappings, |mapping: MappingView| fits_any(mapping, windows));
    let keep = |mapping: MappingView|
        !(mapping.harness_id == harness_id && mapping.thread_id == thread_id) && mapping.pane_id
            != Some(window.pane_id);
    lemma_filter_distinct(state.mappings, keep);
    lemma_filtered(state.mappings, keep);
    let others = other_mappings(state.mappings, harness_id, thread_id, window.pane_id);
    let all = others.push(mapping_to(harness_id, thread_id, window));
    assert forall|i: int, j: int| 0 <= i < j < all.len() implies !clash(
        #[trigger] all[i],
        #[trigger] all[j],
    ) by {
        if j == others.len() {
            assert(others.contains(others[i]));
        }
    }
}

proof fn lemma_fitting(mappings: Seq<MappingView>, window: WindowView, at: int)
    requires
        0 <= at < mappings.len(),
        fits(mappings[at], window),
        forall|k: int| 0 <= k < at ==> !fits(#[trigger] mappings[k], window),
    ensures
        fitting(mappings, window) == Some(mappings[at]),
    decreases at,
{
    if at > 0 {
        let rest = mappings.skip(1);
        assert forall|k: int| 0 <= k < at - 1 implies !fits(#[trigger] rest[k], window) by {
            assert(rest[k] == mappings[k + 1]);
        }
        lemma_fitting(rest, window, at - 1);
    }
}

/// What was recorded of a pane is restored when the pane is seen again without a thread, unless a
/// remembered mapping that names no pane fits it.
pub proof fn law_recorded_pane_is_restored(
    state: StateView,
    harness_id: Seq<char>,
    thread_id: Seq<char>,
    windows: Seq<WindowView>,
    at: int,
)
    requires
        0 <= at < windows.len(),
        windows[at].thread_id is None,
        windows[at].harness_id is None || windows[at].harness_id == Some(harness_id),
        forall|k: int|
            0 <= k < state.mappings.len() && (#[trigger] state.mappings[k]).pane_id is None
                ==> !fits(state.mappings[k], windows[at]),
    ensures
        ({
            let recorded = state.with_mapping(harness_id, thread_id, windows[at]);
            let live = live_mappings(recorded.mappings, windows);
            all_restored(windows, live)[at] == (WindowView {
                harness_id: Some(harness_id),
                thread_id: Some(thread_id),
                ..windows[at]
            })
        }),
{
    let window = windows[at];
    let recorded = state.with_mapping(harness_id, thread_id, window);
    let others = other_mappings(state.mappings, harness_id, thread_id, window.pane_id);
    let mine = mapping_to(harness_id, thread_id, window);
    let keep = |mapping: MappingView|
        !(mapping.harness_id == harness_id && mapping.thread_id == thread_id) && mapping.pane_id
            != Some(window.pane_id);
    lemma_filtered(state.mappings, keep);
    let live = live_mappings(recorded.mappings, windows);
    let any = |mapping: MappingView| fits_any(mapping, windows);
    lemma_filtered(others, any);
    assert(fits(mine, windows[at]));
    assert(any(mine));
    reveal(Seq::filter);
    assert(others.push(mine).drop_last() =~= others);
    let kept = others.filter(any);
    assert(live == kept.push(mine));
    assert forall|k: int| 0 <= k < kept.len() implies !fits(#[trigger] live[k], window) by {
        assert(kept.contains(kept[k]));
        assert(others.contains(kept[k]));
        assert(state.mappings.contains(kept[k]));
        let from = choose|j: int| 0 <= j < state.mappings.len() && state.mappings[j] == kept[k];
        assert(keep(kept[k]));
        if kept[k].pane_id is None {
            assert(!fits(state.mappings[from], windows[at]));
        }
    }
    lemma_fitting(live, window, kept.len() as int);
}

} // verus!

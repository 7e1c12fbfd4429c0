//! What is found: chats by a query on the command line, and projects and chats by a search.
use vstd::prelude::*;

use crate::agent::{Harness, Thread};
use crate::app::{all_rows, fitting_places, harness_fits, harness_place, project_fits, row_fits,
    row_test, AppView};
use crate::launch::{is_best_match, is_in_project, match_rank};
use crate::model::{law_rows_show_everything, listed_rows, live_pane, ProjectView, Row};
use crate::opening::law_harness_is_found;
use crate::order::{is_ranked, law_ranked, lemma_filter_contains, lemma_filter_ranked, Ranked};
use crate::search::{are_places, fuzzy, law_subsequence_has_places};
use crate::text::{contains, law_contained, lowercase, lowered, opt_text, trimmed};
use crate::tmux::CanonicalPaths;

verus! {

/// Whether a text stands within another.
pub open spec fn holds(value: Seq<char>, part: Seq<char>) -> bool {
    exists|at: int|
        0 <= at <= value.len() - part.len() && #[trigger] value.subrange(at, at + part.len())
            == part
}

/// The name of a chat, or nothing where it has none.
pub open spec fn name_of_chat(thread: Thread) -> Seq<char> {
    match thread.name {
        Some(name) => name@,
        None => Seq::empty(),
    }
}

proof fn lemma_whole(value: Seq<char>)
    ensures
        holds(value, value),
{
    assert(value.subrange(0int, 0int + value.len()) =~= value);
}

/// What the rank of a chat for a query on the command line says, letter case aside from the best:
/// it has one if and only if its name, its title or its preview holds the query; one of at most two
/// if and only if its name or its title does; of at most one if and only if one of these is the
/// query; of zero if and only if one is the query as it is written. White space around the query
/// does not count, and a blank query finds nothing.
pub proof fn law_rank_tells_how_a_chat_fits(thread: Thread, query: Seq<char>)
    ensures
        ({
            let wanted = trimmed(query);
            let name = lowercase(name_of_chat(thread));
            let title = lowercase(thread.shown_title());
            let preview = lowercase(thread.preview@);
            let rank = match_rank(thread, query);
            &&& wanted.len() == 0 ==> rank is None
            &&& wanted.len() > 0 ==> {
                &&& rank is Some <==> holds(name, lowercase(wanted)) || holds(
                    title,
                    lowercase(wanted),
                ) || holds(preview, lowercase(wanted))
                &&& (rank is Some && rank->0 <= 2) <==> holds(name, lowercase(wanted)) || holds(
                    title,
                    lowercase(wanted),
                )
                &&& (rank is Some && rank->0 <= 1) <==> name == lowercase(wanted) || title
                    == lowercase(wanted)
                &&& (rank == Some(0u8)) <==> (thread.name is Some && thread.name->0@ == wanted)
                    || thread.shown_title() == wanted
                &&& rank is Some ==> rank->0 <= 3
            }
        }),
{
    let wanted = lowercase(trimmed(query));
    let name = lowercase(name_of_chat(thread));
    let title = lowercase(thread.shown_title());
    let preview = lowercase(thread.preview@);
    law_contained(name, wanted, name, name);
    law_contained(title, wanted, name, name);
    law_contained(preview, wanted, name, name);
    lemma_whole(wanted);
}

/// Letter case does not decide whether a chat fits: two chats whose names, titles and previews are
/// the same in lower case fit two queries that are the same in lower case equally well, but that one
/// may be called just as it is written.
pub proof fn law_rank_ignores_case(
    thread: Thread,
    other: Thread,
    query: Seq<char>,
    written: Seq<char>,
)
    requires
        lowercase(name_of_chat(thread)) == lowercase(name_of_chat(other)),
        lowercase(thread.shown_title()) == lowercase(other.shown_title()),
        lowercase(thread.preview@) == lowercase(other.preview@),
        lowercase(trimmed(query)) == lowercase(trimmed(written)),
        trimmed(query).len() > 0,
        trimmed(written).len() > 0,
    ensures
        match_rank(thread, query) is Some <==> match_rank(other, written) is Some,
        match_rank(thread, query) is Some && match_rank(thread, query)->0 >= 2 ==> match_rank(
            other,
            written,
        ) == match_rank(thread, query),
{
    law_rank_tells_how_a_chat_fits(thread, query);
    law_rank_tells_how_a_chat_fits(other, written);
}

/// The chat that is found is one of the project that fits, and none of the project fits better; of
/// those that fit as well none was used later. Where a chat of the project fits, one is found.
pub proof fn law_best_match(
    threads: Seq<Thread>,
    project: Seq<char>,
    canonical: CanonicalPaths,
    query: Seq<char>,
    at: int,
    k: int,
)
    requires
        is_best_match(threads, project, canonical, query, at),
    ensures
        0 <= at < threads.len(),
        canonical.normal(threads[at].cwd@) == project,
        match_rank(threads[at], query) is Some,
        0 <= k < threads.len() && canonical.normal(threads[k].cwd@) == project && match_rank(
            threads[k],
            query,
        ) is Some ==> match_rank(threads[at], query)->0 <= match_rank(threads[k], query)->0 && (
        match_rank(threads[k], query) == match_rank(threads[at], query) ==> threads[k].last_used()
            <= threads[at].last_used()),
{
    if 0 <= k < threads.len() && canonical.normal(threads[k].cwd@) == project {
        assert(is_in_project(threads[k], project, canonical));
    }
}

/// Whether the characters of a query stand in a text in their order, once the text is in lower case.
pub open spec fn scattered(query: Seq<char>, text: Seq<char>) -> bool {
    exists|places: Seq<int>| #[trigger] are_places(places, query, lowered(text))
}

/// The identifier of the harness of a row, where one is known.
pub open spec fn harness_of(row: Row) -> Option<Seq<char>> {
    match row {
        Row::Agent(window) => opt_text(window.harness_id),
        Row::Thread { thread, live: _ } => Some(thread.harness_id@),
    }
}

/// Whether a place is that of the first harness with an identifier.
pub open spec fn is_first_with(harnesses: Seq<Harness>, id: Seq<char>, at: int) -> bool {
    &&& 0 <= at < harnesses.len()
    &&& harnesses[at].id@ == id
    &&& forall|k: int| 0 <= k < at ==> (#[trigger] harnesses[k]).id@ != id
}

/// Whether a harness fits a search in lower case, under its identifier, its label or its mark.
pub open spec fn is_harness_found(id: Seq<char>, harnesses: Seq<Harness>, query: Seq<char>) -> bool {
    ||| scattered(query, id)
    ||| exists|at: int| #[trigger]
        is_first_with(harnesses, id, at) && (scattered(query, harnesses[at].label@) || scattered(
            query,
            harnesses[at].marker@,
        ))
}

/// Whether a row fits a search in lower case: by its title, by the preview of its chat, which must
/// hold it, or by its harness, under its identifier, its label or its mark.
pub open spec fn is_found(row: Row, harnesses: Seq<Harness>, query: Seq<char>) -> bool {
    ||| scattered(query, row.shown_title())
    ||| row matches Row::Thread { thread, live: _ } && holds(lowercase(thread.preview@), query)
    ||| harness_of(row) matches Some(id) && is_harness_found(id, harnesses, query)
}

proof fn lemma_scattered(query: Seq<char>, text: Seq<char>)
    ensures
        fuzzy(text, query) <==> scattered(query, text),
{
    law_subsequence_has_places(query, lowered(text));
}

proof fn lemma_harness_found(id: Seq<char>, harnesses: Seq<Harness>, query: Seq<char>)
    ensures
        harness_fits(harnesses, id, query) <==> is_harness_found(id, harnesses, query),
{
    lemma_scattered(query, id);
    law_harness_is_found(harnesses, id);
    match harness_place(harnesses, id) {
        Some(at) => {
            lemma_scattered(query, harnesses[at].label@);
            lemma_scattered(query, harnesses[at].marker@);
            assert(is_first_with(harnesses, id, at));
            assert forall|other: int| #[trigger] is_first_with(harnesses, id, other) implies other
                == at by {
                if at < other {
                    assert(harnesses[at].id@ != id);
                }
                if other < at {
                    assert(harnesses[other].id@ != id);
                }
            }
        },
        None => {
            assert forall|other: int| !(#[trigger] is_first_with(harnesses, id, other)) by {
                if 0 <= other < harnesses.len() {
                    assert(harnesses[other].id@ != id);
                }
            }
        },
    }
}

proof fn lemma_found(row: Row, harnesses: Seq<Harness>, query: Seq<char>)
    requires
        query.len() > 0,
    ensures
        row_fits(harnesses, row, query) <==> is_found(row, harnesses, query),
{
    lemma_scattered(query, row.shown_title());
    match row {
        Row::Thread { thread, live: _ } => {
            law_contained(lowercase(thread.preview@), query, query, query);
            lemma_harness_found(thread.harness_id@, harnesses, query);
        },
        Row::Agent(window) => {
            if window.harness_id is Some {
                lemma_harness_found(window.harness_id->0@, harnesses, query);
            }
        },
    }
}

/// A row of the selected project is shown if and only if nothing is searched for, or the project
/// fits by its name or its directory, or the row itself fits. Live rows come before others, and
/// among either the last used one comes first.
pub proof fn law_search_shows_what_fits(app: AppView, row: Row)
    requires
        0 <= app.project_index < app.projects.len(),
    ensures
        ({
            let project = app.projects[app.project_index];
            let query = lowercase(app.query);
            app.rows().contains(row) <==> all_rows(project).contains(row) && (query.len() == 0
                || scattered(query, project.name) || scattered(query, project.cwd) || is_found(
                row,
                app.harnesses,
                query,
            ))
        }),
        forall|i: int, j: int|
            0 <= i < j < app.rows().len() && (#[trigger] app.rows()[j]).shows_live() ==> (
            #[trigger] app.rows()[i]).shows_live(),
        forall|i: int, j: int|
            0 <= i < j < app.rows().len() && (#[trigger] app.rows()[i]).shows_live() == (
            #[trigger] app.rows()[j]).shows_live() ==> app.rows()[i].last_used()
                >= app.rows()[j].last_used(),
{
    reveal(AppView::rows);
    let project = app.projects[app.project_index];
    let query = lowercase(app.query);
    let test = row_test(app.harnesses, project, query);
    lemma_filter_contains(all_rows(project), test, row);
    lemma_scattered(query, project.name);
    lemma_scattered(query, project.cwd);
    if query.len() > 0 {
        lemma_found(row, app.harnesses, query);
    }
    law_ranked(listed_rows(project.threads, project.agents));
    lemma_filter_ranked(all_rows(project), test);
    assert(is_ranked(app.rows()));
    assert forall|i: int, j: int|
        0 <= i < j < app.rows().len() && (#[trigger] app.rows()[j]).shows_live() implies (
    #[trigger] app.rows()[i]).shows_live() by {
        assert(!Ranked::outranks(app.rows()[j], app.rows()[i]));
    }
    assert forall|i: int, j: int|
        0 <= i < j < app.rows().len() && (#[trigger] app.rows()[i]).shows_live() == (
        #[trigger] app.rows()[j]).shows_live() implies app.rows()[i].last_used()
        >= app.rows()[j].last_used() by {
        assert(!Ranked::outranks(app.rows()[j], app.rows()[i]));
    }
}

proof fn lemma_fitting(harnesses: Seq<Harness>, projects: Seq<ProjectView>, query: Seq<char>, at: int)
    ensures
        fitting_places(harnesses, projects, query).contains(at) <==> 0 <= at < projects.len()
            && project_fits(harnesses, projects[at], query),
        forall|i: int, j: int|
            0 <= i < j < fitting_places(harnesses, projects, query).len()
                ==> #[trigger] fitting_places(harnesses, projects, query)[i]
                < #[trigger] fitting_places(harnesses, projects, query)[j],
        forall|k: int|
            0 <= k < fitting_places(harnesses, projects, query).len() ==> 0
                <= #[trigger] fitting_places(harnesses, projects, query)[k] < projects.len(),
    decreases projects.len(),
{
    if projects.len() > 0 {
        let rest = projects.drop_last();
        let before = fitting_places(harnesses, rest, query);
        let after = fitting_places(harnesses, projects, query);
        lemma_fitting(harnesses, rest, query, at);
        assert(forall|k: int| 0 <= k < before.len() ==> after[k] == before[k]);
        assert(forall|k: int| 0 <= k < rest.len() ==> rest[k] == projects[k]);
        assert(projects.last() == projects[projects.len() - 1]);
        if before.contains(at) {
            let k = choose|k: int| 0 <= k < before.len() && before[k] == at;
            assert(after[k] == at);
        }
        if project_fits(harnesses, projects.last(), query) && at == projects.len() - 1 {
            assert(after[before.len() as int] == at);
        }
        if after.contains(at) && !before.contains(at) {
            let k = choose|k: int| 0 <= k < after.len() && after[k] == at;
            if k < before.len() {
                assert(before[k] == at);
            }
        }
    }
}

/// A project is shown if and only if nothing is searched for, or it fits by its name or its
/// directory, or one of its rows fits. Projects keep their order, and none is shown twice.
pub proof fn law_search_shows_projects(app: AppView, at: int)
    ensures
        ({
            let query = lowercase(app.query);
            app.visible().contains(at) <==> 0 <= at < app.projects.len() && (query.len() == 0
                || scattered(query, app.projects[at].name) || scattered(
                query,
                app.projects[at].cwd,
            ) || exists|k: int|
                0 <= k < all_rows(app.projects[at]).len() && is_found(
                    #[trigger] all_rows(app.projects[at])[k],
                    app.harnesses,
                    query,
                ))
        }),
        forall|i: int, j: int|
            0 <= i < j < app.visible().len() ==> #[trigger] app.visible()[i]
                < #[trigger] app.visible()[j],
{
    reveal(AppView::visible);
    let query = lowercase(app.query);
    lemma_fitting(app.harnesses, app.projects, query, at);
    if 0 <= at < app.projects.len() && query.len() > 0 {
        let project = app.projects[at];
        let rows = all_rows(project);
        lemma_scattered(query, project.name);
        lemma_scattered(query, project.cwd);
        assert forall|k: int| 0 <= k < rows.len() implies row_fits(
            app.harnesses,
            #[trigger] rows[k],
            query,
        ) == is_found(rows[k], app.harnesses, query) by {
            lemma_found(rows[k], app.harnesses, query);
        }
        if project_fits(app.harnesses, project, query) && !scattered(query, project.name)
            && !scattered(query, project.cwd) {
            let k = choose|k: int|
                0 <= k < rows.len() && row_fits(app.harnesses, #[trigger] rows[k], query);
            assert(is_found(rows[k], app.harnesses, query));
        }
        if exists|k: int|
            0 <= k < rows.len() && is_found(#[trigger] rows[k], app.harnesses, query) {
            let k = choose|k: int|
                0 <= k < rows.len() && is_found(#[trigger] rows[k], app.harnesses, query);
            assert(row_fits(app.harnesses, rows[k], query));
        }
    }
}

/// A chat whose preview holds what is searched for, letter case aside, is among the rows that are
/// shown, and its project is among the projects that are shown.
pub proof fn law_previews_are_searched(app: AppView, thread: Thread)
    requires
        0 <= app.project_index < app.projects.len(),
        app.projects[app.project_index].threads.contains(thread),
        holds(lowercase(thread.preview@), lowercase(app.query)),
    ensures
        exists|k: int|
            0 <= k < app.rows().len() && (#[trigger] app.rows()[k] matches Row::Thread {
                thread: shown,
                live: _,
            } && *shown == thread),
        app.visible().contains(app.project_index),
{
    let project = app.projects[app.project_index];
    let row = Row::Thread {
        thread: Box::new(thread),
        live: live_pane(thread, project.agents),
    };
    law_rows_show_everything(project.threads, project.agents);
    assert(all_rows(project).contains(row));
    assert(is_found(row, app.harnesses, lowercase(app.query)));
    law_search_shows_what_fits(app, row);
    let k = choose|k: int| 0 <= k < app.rows().len() && app.rows()[k] == row;
    assert(app.rows()[k] == row);
    let m = choose|m: int| 0 <= m < all_rows(project).len() && all_rows(project)[m] == row;
    assert(is_found(all_rows(project)[m], app.harnesses, lowercase(app.query)));
    law_search_shows_projects(app, app.project_index);
}

/// Where the characters of a query stand in a text in their order, they do in every longer one, and a
/// text in lower case stands in itself.
pub proof fn law_scattered_stays(query: Seq<char>, text: Seq<char>, front: Seq<char>, back: Seq<char>)
    ensures
        scattered(lowered(text), text),
        scattered(query, text) ==> scattered(query, front + text + back),
{
    let all = Seq::new(lowered(text).len(), |k: int| k);
    assert(are_places(all, lowered(text), lowered(text)));
    if scattered(query, text) {
        let places = choose|places: Seq<int>| #[trigger] are_places(places, query, lowered(text));
        crate::text::law_lowered(front, text, 'a');
        crate::text::law_lowered(front + text, back, 'a');
        let whole = lowered(front + text + back);
        let offset = lowered(front).len();
        let moved = places.map_values(|place: int| place + offset);
        assert forall|k: int| 0 <= k < moved.len() implies 0 <= #[trigger] moved[k] < whole.len()
            && whole[moved[k]] == query[k] by {
            assert(0 <= places[k] < lowered(text).len());
        }
        assert forall|j: int, k: int| 0 <= j < k < moved.len() implies #[trigger] moved[j]
            < #[trigger] moved[k] by {
            assert(places[j] < places[k]);
        }
        assert(are_places(moved, query, whole));
    }
}

} // verus!

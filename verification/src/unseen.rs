//! What is known of chats and not shown: how much of their context is left.
use vstd::prelude::*;

use crate::agent::Thread;
use crate::app::{all_rows, row_fits, row_test, AppView, PromptView, TargetView};
use crate::model::{agent_rows, belongs_to, is_claimed, listed_rows, live_pane, thread_rows,
    unclaimed_test, ProjectView, Row};
use crate::mouse::chat_count;
use crate::order::{lemma_filter_mapped, lemma_ranked_mapped};
use crate::text::lowercase;
use crate::theme::ResolvedTheme;
use crate::tmux::Window;
use crate::view::{left_status, message_lines, particulars, preview_lines, row_item, row_items,
    thread_preview, transcript};

verus! {

/// A chat of which it is not known how much of its context is left.
pub open spec fn thread_without(thread: Thread) -> Thread {
    Thread { context_remaining: None, ..thread }
}

/// A row of which it is not known how much of its chat's context is left.
pub open spec fn row_without(row: Row) -> Row {
    match row {
        Row::Agent(window) => Row::Agent(window),
        Row::Thread { thread, live } => Row::Thread {
            thread: Box::new(thread_without(*thread)),
            live,
        },
    }
}

/// Chats of which it is not known how much of their context is left.
pub open spec fn threads_without(threads: Seq<Thread>) -> Seq<Thread> {
    threads.map_values(|thread: Thread| thread_without(thread))
}

/// Rows of which it is not known how much of their chats' context is left.
pub open spec fn rows_without(rows: Seq<Row>) -> Seq<Row> {
    rows.map_values(|row: Row| row_without(row))
}

/// A project of which it is not known how much of its chats' context is left.
pub open spec fn project_without(project: ProjectView) -> ProjectView {
    ProjectView { threads: threads_without(project.threads), ..project }
}

/// Projects of which it is not known how much of their chats' context is left.
pub open spec fn projects_without(projects: Seq<ProjectView>) -> Seq<ProjectView> {
    projects.map_values(|project: ProjectView| project_without(project))
}

/// The interface where it is not known of any chat how much of its context is left.
pub open spec fn app_without(app: AppView) -> AppView {
    AppView {
        projects: projects_without(app.projects),
        delete_prompt: match app.delete_prompt {
            Some(prompt) => Some(
                PromptView {
                    target: match prompt.target {
                        TargetView::Chat { thread } => TargetView::Chat {
                            thread: thread_without(thread),
                        },
                        other => other,
                    },
                    ..prompt
                },
            ),
            None => None,
        },
        ..app
    }
}

proof fn lemma_listed_without(threads: Seq<Thread>, agents: Seq<Window>)
    ensures
        listed_rows(threads_without(threads), agents) == rows_without(listed_rows(threads, agents)),
{
    let without = threads_without(threads);
    assert forall|window: Window| is_claimed(window, without) == is_claimed(window, threads) by {
        if is_claimed(window, threads) {
            let k = choose|k: int|
                0 <= k < threads.len() && belongs_to(window, #[trigger] threads[k]);
            assert(belongs_to(window, without[k]));
        }
        if is_claimed(window, without) {
            let k = choose|k: int|
                0 <= k < without.len() && belongs_to(window, #[trigger] without[k]);
            assert(belongs_to(window, threads[k]));
        }
    }
    assert(unclaimed_test(without) =~= unclaimed_test(threads));
    let free = agents.filter(unclaimed_test(threads));
    assert(rows_without(agent_rows(free)) =~= agent_rows(free));
    assert forall|thread: Thread| #[trigger] live_pane(thread_without(thread), agents) == live_pane(
        thread,
        agents,
    ) by {}
    assert(thread_rows(without, agents) =~= rows_without(thread_rows(threads, agents)));
    assert(listed_rows(without, agents) =~= rows_without(listed_rows(threads, agents)));
}

proof fn lemma_rows_without(app: AppView)
    ensures
        app_without(app).rows() == rows_without(app.rows()),
{
    reveal(AppView::rows);
    let query = lowercase(app.query);
    match app.project() {
        Some(project) => {
            let changed = project_without(project);
            assert(app_without(app).project() == Some(changed));
            let change = |row: Row| row_without(row);
            let test = row_test(app.harnesses, project, query);
            let changed_test = row_test(app.harnesses, changed, query);
            lemma_listed_without(project.threads, project.agents);
            lemma_ranked_mapped(listed_rows(project.threads, project.agents), change);
            assert(all_rows(changed) == all_rows(project).map_values(change));
            assert forall|row: Row| changed_test(#[trigger] change(row)) == test(row) by {
                assert(row_fits(app.harnesses, row_without(row), query) == row_fits(
                    app.harnesses,
                    row,
                    query,
                ));
            }
            lemma_filter_mapped(all_rows(project), change, test, changed_test);
        },
        None => {
            assert(app_without(app).rows() =~= rows_without(app.rows()));
        },
    }
}

proof fn lemma_transcript_without(
    app: AppView,
    thread: Thread,
    messages: Seq<(Seq<char>, Seq<char>)>,
    theme: ResolvedTheme,
)
    ensures
        transcript(app_without(app), thread_without(thread), messages, theme) == transcript(
            app,
            thread,
            messages,
            theme,
        ),
    decreases messages.len(),
{
    if messages.len() > 0 {
        lemma_transcript_without(app, thread, messages.drop_last(), theme);
        assert(message_lines(app_without(app), thread_without(thread), messages.last(), theme)
            =~= message_lines(app, thread, messages.last(), theme));
    }
}

proof fn lemma_chat_count_without(projects: Seq<ProjectView>)
    ensures
        chat_count(projects_without(projects)) == chat_count(projects),
    decreases projects.len(),
{
    if projects.len() > 0 {
        lemma_chat_count_without(projects.drop_last());
        assert(projects_without(projects).drop_last() =~= projects_without(projects.drop_last()));
        assert(projects_without(projects).last() == project_without(projects.last()));
    }
}

proof fn lemma_shown_without(app: AppView, theme: ResolvedTheme)
    ensures
        preview_lines(app_without(app), theme) == preview_lines(app, theme),
        row_items(app_without(app), app_without(app).rows(), theme) == row_items(
            app,
            app.rows(),
            theme,
        ),
        left_status(app_without(app), theme) == left_status(app, theme),
{
    let without = app_without(app);
    lemma_rows_without(app);
    match app.row() {
        Some(Row::Thread { thread, live }) => {
            lemma_transcript_without(app, *thread, app.preview, theme);
            assert(particulars(without, thread_without(*thread)) == particulars(app, *thread));
            assert(thread_preview(without, thread_without(*thread), live is Some, theme)
                =~= thread_preview(app, *thread, live is Some, theme));
        },
        _ => {},
    }
    assert forall|row: Row| #[trigger] row_item(without, row_without(row), theme) == row_item(
        app,
        row,
        theme,
    ) by {
        assert(row_item(without, row_without(row), theme) =~= row_item(app, row, theme));
    }
    assert(row_items(without, without.rows(), theme) =~= row_items(app, app.rows(), theme));
    lemma_chat_count_without(app.projects);
}

/// How much of a chat's context is left is not shown: where two states of the interface differ in
/// nothing else, their previews are the same, and so are their lists of chats and what the status
/// bar says on the left.
pub proof fn law_context_is_not_shown(app: AppView, other: AppView, theme: ResolvedTheme)
    requires
        app_without(app) == app_without(other),
    ensures
        preview_lines(app, theme) == preview_lines(other, theme),
        row_items(app, app.rows(), theme) == row_items(other, other.rows(), theme),
        left_status(app, theme) == left_status(other, theme),
{
    lemma_shown_without(app, theme);
    lemma_shown_without(other, theme);
}

} // verus!

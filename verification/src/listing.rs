//! What becomes of the chats that harnesses list and of the panes that tmux tells of.
use vstd::prelude::*;
use vstd::string::*;

use crate::agent::{title_of, Thread};
use crate::app::AppView;
use crate::model::{belongs_to, is_pane_of, latest, law_agent_has_its_project, law_projects_in_order,
    live_pane, mapped_pane, named_test, projects_of, ProjectView};
use crate::order::{is_ranked, lemma_filter_contains, Ranked};
use crate::refresh::{all_active, all_archived, all_marked, failures, first_listed, is_among,
    is_archived_as, is_archived_pane, known_threads, law_shown_project, marked, or_none, pane_test,
    refreshed, shown_test, Listed};
use crate::text::{law_lines, opt_text, text_before};
use crate::tmux::{counts_as_agent, CanonicalPaths, Client, Window, WindowView};

verus! {

/// What harnesses list comes together in their order, and each failure is told of; a harness that
/// fails takes nothing from what others list.
pub proof fn law_lists_come_together(left: Seq<Listed>, right: Seq<Listed>, one: Listed)
    ensures
        all_active(left + right) == all_active(left) + all_active(right),
        all_archived(left + right) == all_archived(left) + all_archived(right),
        failures(left + right) == failures(left) + failures(right),
        all_active(seq![one]) == match one.active {
            Ok(threads) => threads@,
            Err(_) => Seq::empty(),
        },
        all_archived(seq![one]) == match one.archived {
            Ok(threads) => threads@,
            Err(_) => Seq::empty(),
        },
        failures(seq![one]) == (match one.active {
            Ok(_) => Seq::empty(),
            Err(error) => seq![one.label@ + ": "@ + error@],
        }) + (match one.archived {
            Ok(_) => Seq::empty(),
            Err(error) => seq![one.label@ + " archived: "@ + error@],
        }),
    decreases right.len(),
{
    reveal_with_fuel(all_active, 2);
    reveal_with_fuel(all_archived, 2);
    reveal_with_fuel(failures, 2);
    let single = seq![one];
    assert(single.drop_last().len() == 0);
    assert(single.last() == one);
    assert(all_active(single) =~= or_none(one.active));
    assert(all_archived(single) =~= or_none(one.archived));
    assert(failures(single) =~= (match one.active {
        Ok(_) => Seq::empty(),
        Err(error) => seq![one.label@ + ": "@ + error@],
    }) + (match one.archived {
        Ok(_) => Seq::empty(),
        Err(error) => seq![one.label@ + " archived: "@ + error@],
    }));
    if right.len() == 0 {
        assert(left + right =~= left);
        assert(all_active(left) + all_active(right) =~= all_active(left));
        assert(all_archived(left) + all_archived(right) =~= all_archived(left));
        assert(failures(left) + failures(right) =~= failures(left));
    } else {
        law_lists_come_together(left, right.drop_last(), one);
        assert((left + right).drop_last() =~= left + right.drop_last());
        assert((left + right).last() == right.last());
        assert(all_active(left + right) =~= all_active(left) + all_active(right));
        assert(all_archived(left + right) =~= all_archived(left) + all_archived(right));
        assert(failures(left + right) =~= failures(left) + failures(right));
    }
}

/// The first listing of a chat is the one that counts: what comes first stays, and what comes later
/// is added only where it was not listed before.
pub proof fn law_first_listing_counts(threads: Seq<Thread>, thread: Thread)
    ensures
        first_listed(Seq::empty()) == Seq::<Thread>::empty(),
        is_among(threads, thread) ==> first_listed(threads.push(thread)) == first_listed(threads),
        !is_among(threads, thread) ==> first_listed(threads.push(thread)) == first_listed(
            threads,
        ).push(thread),
        is_among(threads, thread) <==> exists|k: int|
            0 <= k < threads.len() && (#[trigger] threads[k]).harness_id@ == thread.harness_id@
                && threads[k].id@ == thread.id@,
{
    assert(threads.push(thread).drop_last() =~= threads);
    if exists|k: int|
        0 <= k < threads.len() && (#[trigger] threads[k]).harness_id@ == thread.harness_id@
            && threads[k].id@ == thread.id@ {
        let k = choose|k: int|
            0 <= k < threads.len() && (#[trigger] threads[k]).harness_id@ == thread.harness_id@
                && threads[k].id@ == thread.id@;
        assert(threads[k].is_thread(thread.harness_id@, thread.id@));
    }
}

/// A chat is archived if and only if the state says so, whatever list it came from; nothing else of
/// it changes.
pub proof fn law_state_says_what_is_archived(
    threads: Seq<Thread>,
    archived: Seq<(Seq<char>, Seq<char>)>,
    k: int,
)
    requires
        0 <= k < threads.len(),
    ensures
        all_marked(threads, archived).len() == threads.len(),
        all_marked(threads, archived)[k] == (Thread {
            archived: archived.contains((threads[k].harness_id@, threads[k].id@)),
            ..threads[k]
        }),
        known_threads(Seq::empty(), archived) == Seq::<Thread>::empty(),
{
    reveal_with_fuel(all_active, 1);
    let none = all_active(Seq::empty()) + all_archived(Seq::empty());
    assert(none =~= Seq::<Thread>::empty());
    assert(known_threads(Seq::empty(), archived) =~= Seq::<Thread>::empty());
}

/// Chats that are archived are shown where archived chats are shown, and all others always.
pub proof fn law_what_is_shown(threads: Seq<Thread>, show_archived: bool, thread: Thread)
    ensures
        threads.filter(shown_test(show_archived)).contains(thread) <==> threads.contains(thread)
            && (show_archived || !thread.archived),
{
    lemma_filter_contains(threads, shown_test(show_archived), thread);
}

/// Looking at all anew changes only what is listed: what is searched for, what is typed, which pane
/// the keys go to and the rest stay. The selection stays where its place is still there, and goes to
/// the last place where it is not.
pub proof fn law_refresh_keeps_the_rest(
    app: AppView,
    listed: Seq<Listed>,
    found: Seq<WindowView>,
    windows: Seq<Window>,
    canonical: CanonicalPaths,
)
    ensures
        ({
            let after = refreshed(app, listed, found, windows, canonical);
            &&& after == (AppView {
                state: after.state,
                all_windows: windows,
                projects: after.projects,
                project_index: after.project_index,
                row_index: after.row_index,
                status: after.status,
                ..app
            })
            &&& after.state == app.state.reconciled(found)
            &&& 0 <= app.project_index < after.projects.len() ==> after.project_index
                == app.project_index
            &&& 0 < after.projects.len() <= app.project_index ==> after.project_index
                == after.projects.len() - 1
            &&& 0 <= app.row_index < after.rows().len() ==> after.row_index == app.row_index
            &&& 0 < after.rows().len() <= app.row_index ==> after.row_index == after.rows().len()
                - 1
        }),
{
    let after = refreshed(app, listed, found, windows, canonical);
    let before = AppView { row_index: app.row_index, status: app.status, ..after };
    assert(before.rows() == after.rows()) by {
        reveal(AppView::rows);
    }
}

/// A pane that counts as an agent's is in the project of its directory, unless the project is hidden,
/// or the pane belongs to an archived chat and those are not shown, or they are shown and it bears no
/// mark of a chat.
pub proof fn law_agent_is_shown(
    app: AppView,
    listed: Seq<Listed>,
    found: Seq<WindowView>,
    windows: Seq<Window>,
    canonical: CanonicalPaths,
    window: Window,
)
    requires
        windows.contains(window),
        counts_as_agent(app.tmux.config, window),
        app.show_archived ==> window.thread_id is Some || window.chat_title is Some,
        !app.show_archived ==> !is_archived_pane(
            window,
            app.state.archived_threads,
            known_threads(listed, app.state.archived_threads),
            canonical,
        ),
        !app.state.hidden_project_paths.contains(canonical.normal(window.cwd@)),
    ensures
        exists|project: ProjectView| #[trigger]
            refreshed(app, listed, found, windows, canonical).projects.contains(project)
                && project.cwd == canonical.normal(window.cwd@) && project.agents.contains(window),
{
    let archived = app.state.archived_threads;
    let known = known_threads(listed, archived);
    let threads = known.filter(shown_test(app.show_archived));
    let test = pane_test(app.show_archived, archived, known, canonical);
    let panes = windows.filter(test);
    let all = projects_of(threads, panes, app.tmux, canonical);
    lemma_filter_contains(windows, test, window);
    law_agent_has_its_project(threads, panes, app.tmux, canonical, window);
    let project = choose|project: ProjectView| #[trigger]
        all.contains(project) && project.cwd == canonical.normal(window.cwd@)
            && project.agents.contains(window);
    law_shown_project(all, app.state.reconciled(found), project);
    assert(refreshed(app, listed, found, windows, canonical).projects.contains(project));
}

/// A pane that is marked with a thread belongs to an archived chat if and only if the state says that
/// this thread is archived; a pane that bears only a title if and only if an archived chat of its harness
/// has this name in its directory; a pane without a harness never.
pub proof fn law_pane_of_an_archived_chat(
    window: Window,
    archived: Seq<(Seq<char>, Seq<char>)>,
    threads: Seq<Thread>,
    canonical: CanonicalPaths,
)
    ensures
        window.harness_id is None ==> !is_archived_pane(window, archived, threads, canonical),
        window.harness_id is Some && window.thread_id is Some ==> (is_archived_pane(
            window,
            archived,
            threads,
            canonical,
        ) <==> archived.contains((window.harness_id->0@, window.thread_id->0@))),
        window.harness_id is Some && window.thread_id is None && window.chat_title is None
            ==> !is_archived_pane(window, archived, threads, canonical),
        window.harness_id is Some && window.thread_id is None && window.chat_title is Some ==> (
        is_archived_pane(window, archived, threads, canonical) <==> exists|k: int|
            0 <= k < threads.len() && (#[trigger] threads[k]).archived && threads[k].harness_id@
                == window.harness_id->0@ && opt_text(threads[k].name) == Some(
                window.chat_title->0@,
            ) && canonical.normal(threads[k].cwd@) == canonical.normal(window.cwd@)),
{
    if window.harness_id is Some && window.thread_id is None && window.chat_title is Some {
        let id = window.harness_id->0@;
        let title = window.chat_title->0@;
        assert forall|k: int| 0 <= k < threads.len() implies is_archived_as(
            #[trigger] threads[k],
            id,
            title,
            window.cwd@,
            canonical,
        ) == (threads[k].archived && threads[k].harness_id@ == id && opt_text(threads[k].name)
            == Some(title) && canonical.normal(threads[k].cwd@) == canonical.normal(
            window.cwd@,
        )) by {}
    }
}

/// Among what stands in a directory, no time is later than the latest, which is that of one of them,
/// or zero.
pub proof fn law_latest(entries: Seq<(Seq<char>, i64)>, cwd: Seq<char>)
    ensures
        latest(entries, cwd) >= 0,
        forall|k: int|
            0 <= k < entries.len() && (#[trigger] entries[k]).0 == cwd ==> entries[k].1 <= latest(
                entries,
                cwd,
            ),
        latest(entries, cwd) > 0 ==> exists|k: int|
            0 <= k < entries.len() && (#[trigger] entries[k]).0 == cwd && entries[k].1 == latest(
                entries,
                cwd,
            ),
    decreases entries.len(),
{
    if entries.len() > 0 {
        let rest = entries.drop_last();
        law_latest(rest, cwd);
        assert forall|k: int| 0 <= k < entries.len() && (#[trigger] entries[k]).0 == cwd implies
            entries[k].1 <= latest(entries, cwd) by {
            if k < rest.len() {
                assert(rest[k] == entries[k]);
            }
        }
        if latest(entries, cwd) > 0 {
            if entries.last().0 == cwd && entries.last().1 > latest(rest, cwd) {
                assert(entries[entries.len() - 1].0 == cwd);
            } else {
                let k = choose|k: int|
                    0 <= k < rest.len() && (#[trigger] rest[k]).0 == cwd && rest[k].1 == latest(
                        rest,
                        cwd,
                    );
                assert(entries[k] == rest[k]);
            }
        }
    }
}

/// The project that was used last stands first; of two that were used at the same time, the one whose
/// name comes first.
pub proof fn law_projects_last_used_first(
    threads: Seq<Thread>,
    windows: Seq<Window>,
    client: Client,
    canonical: CanonicalPaths,
    i: int,
    j: int,
)
    requires
        0 <= i < j < projects_of(threads, windows, client, canonical).len(),
    ensures
        ({
            let all = projects_of(threads, windows, client, canonical);
            &&& all[i].recency >= all[j].recency
            &&& all[i].recency == all[j].recency ==> !text_before(all[j].name, all[i].name)
        }),
{
    law_projects_in_order(threads, windows, client, canonical);
    let all = projects_of(threads, windows, client, canonical);
    assert(!Ranked::outranks(all[j], all[i]));
}

/// The chat that was used last stands first, by its own mark of use where it has one, and by its last
/// change elsewhere.
pub proof fn law_chats_last_used_first(threads: Seq<Thread>, i: int, j: int)
    requires
        is_ranked(threads),
        0 <= i < j < threads.len(),
    ensures
        ({
            let used = |thread: Thread|
                match thread.recency_at {
                    Some(recency) => recency,
                    None => thread.updated_at,
                };
            used(threads[i]) >= used(threads[j])
        }),
{
    assert(!Ranked::outranks(threads[j], threads[i]));
}

/// A pane that bears the name of a chat and its harness, and no thread, makes the chat live where it is
/// the only one and none is marked with the thread.
pub proof fn law_name_makes_live(thread: Thread, agents: Seq<Window>, at: int)
    requires
        0 <= at < agents.len(),
        thread.name is Some,
        agents[at].thread_id is None,
        opt_text(agents[at].harness_id) == Some(thread.harness_id@),
        opt_text(agents[at].chat_title) == opt_text(thread.name),
        forall|k: int|
            0 <= k < agents.len() && k != at ==> opt_text((#[trigger] agents[k]).harness_id) != Some(
                thread.harness_id@,
            ),
    ensures
        live_pane(thread, agents) == Some(agents[at]),
{
    lemma_no_mapped_pane(agents, thread.harness_id@, thread.id@);
    let test = named_test(thread.harness_id@, thread.name->0@);
    lemma_only_one(agents, test, at);
}

proof fn lemma_no_mapped_pane(agents: Seq<Window>, harness_id: Seq<char>, thread_id: Seq<char>)
    requires
        forall|k: int|
            0 <= k < agents.len() ==> !is_pane_of(#[trigger] agents[k], harness_id, thread_id),
    ensures
        mapped_pane(agents, harness_id, thread_id) is None,
    decreases agents.len(),
{
    if agents.len() > 0 {
        let rest = agents.drop_last();
        assert forall|k: int| 0 <= k < rest.len() implies !is_pane_of(
            #[trigger] rest[k],
            harness_id,
            thread_id,
        ) by {
            assert(rest[k] == agents[k]);
        }
        lemma_no_mapped_pane(rest, harness_id, thread_id);
        assert(agents.last() == agents[agents.len() - 1]);
    }
}

proof fn lemma_none<A>(list: Seq<A>, keep: spec_fn(A) -> bool)
    requires
        forall|k: int| 0 <= k < list.len() ==> !keep(#[trigger] list[k]),
    ensures
        list.filter(keep) == Seq::<A>::empty(),
    decreases list.len(),
{
    reveal(Seq::filter);
    if list.len() > 0 {
        let rest = list.drop_last();
        assert forall|k: int| 0 <= k < rest.len() implies !keep(#[trigger] rest[k]) by {
            assert(rest[k] == list[k]);
        }
        lemma_none(rest, keep);
        assert(list.last() == list[list.len() - 1]);
    }
}

proof fn lemma_only_one<A>(list: Seq<A>, keep: spec_fn(A) -> bool, at: int)
    requires
        0 <= at < list.len(),
        keep(list[at]),
        forall|k: int| 0 <= k < list.len() && k != at ==> !keep(#[trigger] list[k]),
    ensures
        list.filter(keep) == seq![list[at]],
    decreases list.len(),
{
    reveal(Seq::filter);
    let rest = list.drop_last();
    assert forall|k: int| 0 <= k < rest.len() && k != at implies !keep(#[trigger] rest[k]) by {
        assert(rest[k] == list[k]);
    }
    if at == rest.len() {
        lemma_none(rest, keep);
        assert(Seq::<A>::empty().push(list[at]) =~= seq![list[at]]);
    } else {
        assert(rest[at] == list[at]);
        lemma_only_one(rest, keep, at);
        assert(list.last() == list[list.len() - 1]);
    }
}

/// A pane belongs to a chat if it is marked with its harness and its thread, or, where it is marked
/// with no thread, with its harness and its name; and in no other case.
pub proof fn law_belonging(window: Window, thread: Thread)
    ensures
        belongs_to(window, thread) <==> opt_text(window.harness_id) == Some(thread.harness_id@) && (
        opt_text(window.thread_id) == Some(thread.id@) || (window.thread_id is None && thread.name
            is Some && opt_text(window.chat_title) == opt_text(thread.name))),
{
}

/// A chat is titled by its name; where it has none, by the first line of its preview; where that is
/// empty too, by a stand-in.
pub proof fn law_titles(name: Seq<char>, first: Seq<char>, rest: Seq<char>)
    requires
        !first.contains('\n'),
        first.len() > 0 ==> first.last() != '\r',
    ensures
        name.len() > 0 ==> title_of(Some(name), first) == name,
        first.len() > 0 ==> title_of(None, first) == first && title_of(Some(Seq::empty()), first)
            == first,
        first.len() > 0 ==> title_of(None, first + seq!['\n'] + rest) == first,
        title_of(None, Seq::empty()) == "Untitled chat"@,
        first.len() == 0 ==> title_of(None, first + seq!['\n'] + rest) == "Untitled chat"@,
{
    law_lines(first, rest);
}

} // verus!

//! What is asked of an app-server, what its answers mean, and what goes with a chat that is deleted.
use vstd::prelude::*;
use vstd::string::*;

use crate::agent::Thread;
use crate::app::AppView;
use crate::codex::{as_listed, introduction, is_answer, naming_thread, notification_value,
    page_request, reading_thread, request_value, Answer};
use crate::conversation::law_member;
use crate::json::{json_number, json_text, member, JsonView};
use crate::order::lemma_filter_contains;
use crate::outside::{after_chat_switch, after_switch, goes_with, goes_with_test, pane_ids,
    with_new_project, with_opened};
use crate::path::components;
use crate::pi::is_session_name;
use crate::text::opt_text;
use crate::tmux::{CanonicalPaths, Window};

verus! {

/// A request names its method and its number and carries its parameters; a notification has no number.
pub proof fn law_request_says(method: Seq<char>, id: u64, params: JsonView)
    ensures
        json_text(member(request_value(method, id, params), "method"@)) == Some(method),
        json_number(member(request_value(method, id, params), "id"@)) == Some(id),
        member(request_value(method, id, params), "params"@) == Some(params),
        json_text(member(notification_value(method, params), "method"@)) == Some(method),
        member(notification_value(method, params), "params"@) == Some(params),
        member(notification_value(method, params), "id"@) is None,
{
    reveal_strlit("method");
    reveal_strlit("id");
    reveal_strlit("params");
    assert("method"@.len() == 6 && "id"@.len() == 2 && "params"@.len() == 6);
    assert("method"@[0] == 'm' && "params"@[0] == 'p');
    let entries = request_value(method, id, params)->Object_0;
    law_member(entries, "method"@, 0);
    law_member(entries, "id"@, 1);
    law_member(entries, "params"@, 2);
    let told = notification_value(method, params)->Object_0;
    law_member(told, "method"@, 0);
    law_member(told, "params"@, 1);
    lemma_no_member(told, "id"@);
}

proof fn lemma_no_member(entries: Seq<(Seq<char>, JsonView)>, key: Seq<char>)
    requires
        forall|k: int| 0 <= k < entries.len() ==> (#[trigger] entries[k]).0 != key,
    ensures
        member(JsonView::Object(entries), key) is None,
    decreases entries.len(),
{
    if entries.len() > 0 {
        let rest = entries.skip(1);
        assert(entries[0].0 != key);
        assert forall|k: int| 0 <= k < rest.len() implies (#[trigger] rest[k]).0 != key by {
            assert(rest[k] == entries[k + 1]);
        }
        lemma_no_member(rest, key);
    }
}

/// A request about a thread names the thread, and one for its messages asks for its turns.
pub proof fn law_thread_is_named(thread_id: Seq<char>)
    ensures
        json_text(member(naming_thread(thread_id), "threadId"@)) == Some(thread_id),
        json_text(member(reading_thread(thread_id), "threadId"@)) == Some(thread_id),
        member(reading_thread(thread_id), "includeTurns"@) == Some(JsonView::Bool(true)),
{
    reveal_strlit("threadId");
    reveal_strlit("includeTurns");
    assert("threadId"@.len() == 8 && "includeTurns"@.len() == 12);
    law_member(naming_thread(thread_id)->Object_0, "threadId"@, 0);
    law_member(reading_thread(thread_id)->Object_0, "threadId"@, 0);
    law_member(reading_thread(thread_id)->Object_0, "includeTurns"@, 1);
}

/// A page of threads is asked for by whether they are archived and by where the list goes on.
pub proof fn law_page_is_asked_for(archived: bool, cursor: Option<Seq<char>>)
    ensures
        member(page_request(archived, cursor), "archived"@) == Some(JsonView::Bool(archived)),
        json_text(member(page_request(archived, cursor), "cursor"@)) == cursor,
        cursor is None ==> member(page_request(archived, cursor), "cursor"@) == Some(
            JsonView::Null,
        ),
        json_number(member(page_request(archived, cursor), "limit"@)) == Some(100u64),
        json_text(member(page_request(archived, cursor), "sortKey"@)) == Some("recency_at"@),
        json_text(member(page_request(archived, cursor), "sortDirection"@)) == Some("desc"@),
{
    reveal_strlit("archived");
    reveal_strlit("cursor");
    reveal_strlit("limit");
    reveal_strlit("sortKey");
    reveal_strlit("sortDirection");
    assert("archived"@.len() == 8 && "cursor"@.len() == 6 && "limit"@.len() == 5 && "sortKey"@.len()
        == 7 && "sortDirection"@.len() == 13);
    let entries = page_request(archived, cursor)->Object_0;
    law_member(entries, "archived"@, 0);
    law_member(entries, "cursor"@, 1);
    law_member(entries, "limit"@, 2);
    law_member(entries, "sortKey"@, 3);
    law_member(entries, "sortDirection"@, 4);
}

/// A line that answers another request, or none, is passed over. A line with the number of the request
/// is its answer: a failure where it holds an error, whatever else it holds, and the result elsewhere.
/// What cannot be read is a failure.
pub proof fn law_answers(
    answer: Answer,
    id: u64,
    method: Seq<char>,
    line: Seq<char>,
    value: Option<JsonView>,
    error: Option<Seq<char>>,
)
    requires
        is_answer(answer, id, method, line, value, error),
    ensures
        answer is Other <==> value is Some && json_number(member(value->0, "id"@)) != Some(id),
        answer is Done <==> value is Some && json_number(member(value->0, "id"@)) == Some(id)
            && error is None && member(value->0, "result"@) is Some,
        answer matches Answer::Done(found) ==> member(value->0, "result"@) == Some(found.view()),
        value is Some && error is Some ==> (answer matches Answer::Failed(message) ==> message@
            == "Codex "@ + method + " failed: "@ + error->0),
{
}

/// Threads are listed as archived or not by the list that they are in, and otherwise as they are.
pub proof fn law_listed_as(threads: Seq<Thread>, archived: bool, k: int)
    requires
        0 <= k < threads.len(),
    ensures
        as_listed(threads, archived).len() == threads.len(),
        as_listed(threads, archived)[k] == (Thread { archived, ..threads[k] }),
{
}

/// The program says who it is.
pub proof fn law_introduction(version: Seq<char>)
    ensures
        member(introduction(version), "clientInfo"@) is Some,
        json_text(member(member(introduction(version), "clientInfo"@)->0, "name"@)) == Some("cia"@),
        json_text(member(member(introduction(version), "clientInfo"@)->0, "version"@)) == Some(
            version,
        ),
{
    reveal_strlit("name");
    reveal_strlit("title");
    reveal_strlit("version");
    assert("name"@.len() == 4 && "title"@.len() == 5 && "version"@.len() == 7);
    let outer = introduction(version)->Object_0;
    law_member(outer, "clientInfo"@, 0);
    let inner = outer[0].1->Object_0;
    law_member(inner, "name"@, 0);
    law_member(inner, "version"@, 2);
}

/// A pane goes with a deleted chat only where it is an agents' window's, stands in the directory of the
/// chat, and bears its harness; and then if and only if it bears the thread, the title or the name of
/// the chat. Panes of other chats stay.
pub proof fn law_panes_of_a_deleted_chat(
    window: Window,
    thread: Thread,
    names: Seq<Seq<char>>,
    canonical: CanonicalPaths,
)
    ensures
        goes_with(window, thread, names, canonical) ==> names.contains(window.window_name@)
            && opt_text(window.harness_id) == Some(thread.harness_id@) && components(
            canonical.normal(window.cwd@),
        ) == components(canonical.normal(thread.cwd@)),
        goes_with(window, thread, names, canonical) && opt_text(window.thread_id) != Some(thread.id@)
            ==> opt_text(window.chat_title) == Some(thread.shown_title()) || (window.chat_title
            is Some && opt_text(window.chat_title) == opt_text(thread.name)),
        names.contains(window.window_name@) && opt_text(window.harness_id) == Some(
            thread.harness_id@,
        ) && canonical.normal(window.cwd@) == canonical.normal(thread.cwd@) && (opt_text(
            window.thread_id,
        ) == Some(thread.id@) || opt_text(window.chat_title) == Some(thread.shown_title()))
            ==> goes_with(window, thread, names, canonical),
{
}

/// The panes that are killed with a chat are those that go with it, and no others.
pub proof fn law_only_its_panes_are_killed(
    windows: Seq<Window>,
    thread: Thread,
    names: Seq<Seq<char>>,
    canonical: CanonicalPaths,
    pane_id: Seq<char>,
)
    ensures
        pane_ids(windows.filter(goes_with_test(thread, names, canonical))).contains(pane_id)
            <==> exists|k: int|
            0 <= k < windows.len() && (#[trigger] windows[k]).pane_id@ == pane_id && goes_with(
                windows[k],
                thread,
                names,
                canonical,
            ),
{
    let test = goes_with_test(thread, names, canonical);
    let killed = windows.filter(test);
    let ids = pane_ids(killed);
    if ids.contains(pane_id) {
        let at = choose|at: int| 0 <= at < ids.len() && ids[at] == pane_id;
        let window = killed[at];
        assert(killed.contains(window));
        lemma_filter_contains(windows, test, window);
        let k = choose|k: int| 0 <= k < windows.len() && windows[k] == window;
        assert(windows[k].pane_id@ == pane_id);
    }
    if exists|k: int|
        0 <= k < windows.len() && (#[trigger] windows[k]).pane_id@ == pane_id && goes_with(
            windows[k],
            thread,
            names,
            canonical,
        ) {
        let k = choose|k: int|
            0 <= k < windows.len() && (#[trigger] windows[k]).pane_id@ == pane_id && goes_with(
                windows[k],
                thread,
                names,
                canonical,
            );
        lemma_filter_contains(windows, test, windows[k]);
        assert(windows.contains(windows[k]));
        let at = choose|at: int| 0 <= at < killed.len() && killed[at] == windows[k];
        assert(ids[at] == pane_id);
    }
}

/// After a switch the program ends if and only if the switch was done; otherwise it says why not and
/// goes on as it was.
pub proof fn law_switching_ends_the_program(app: AppView, result: Result<(), String>)
    ensures
        result is Ok ==> after_switch(app, result) == (AppView { running: false, ..app }),
        result is Err ==> after_switch(app, result) == (AppView {
            status: result->Err_0@,
            ..app
        }),
        result is Ok ==> after_chat_switch(app, result) == (AppView {
            running: false,
            new_chat_mode: false,
            ..app
        }),
        result is Err ==> after_chat_switch(app, result) == (AppView {
            status: result->Err_0@,
            ..app
        }),
{
}

/// What was opened or made last is remembered as the last project.
pub proof fn law_last_project(app: AppView, thread: Thread, window: Window, cwd: Seq<char>)
    ensures
        with_opened(app, thread, window).state.last_project == Some(thread.cwd@),
        with_opened(app, thread, window).state.mappings == app.state.with_mapping(
            thread.harness_id@,
            thread.id@,
            window.view(),
        ).mappings,
        with_new_project(app, cwd).state.last_project == Some(cwd),
        with_new_project(app, cwd).state.project_paths.contains(cwd),
        !with_new_project(app, cwd).state.hidden_project_paths.contains(cwd),
        !with_new_project(app, cwd).state.deleted_project_paths.contains(cwd),
{
    crate::state::law_added_project(app.state, cwd, cwd);
}

/// A file is a session file if and only if its name ends as those of session files do, behind
/// something.
pub proof fn law_session_file(stem: Seq<char>, name: Seq<char>)
    ensures
        stem.len() > 0 ==> is_session_name(Some(stem + ".jsonl"@)),
        !is_session_name(Some(".jsonl"@)),
        !is_session_name(None),
        is_session_name(Some(name)) ==> exists|stem: Seq<char>|
            stem.len() > 0 && name == #[trigger] (stem + ".jsonl"@),
{
    reveal_strlit(".jsonl");
    assert(".jsonl"@.len() == 6);
    let whole = stem + ".jsonl"@;
    assert(whole.skip(whole.len() - 6) =~= ".jsonl"@);
    if is_session_name(Some(name)) {
        let begin = name.take(name.len() - 6);
        assert(name =~= begin + ".jsonl"@);
    }
}

} // verus!

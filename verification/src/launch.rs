//! Opening saved chats by name, and running agents inside of their panes.
use vstd::prelude::*;
use vstd::string::*;

use crate::agent::{Harness, HarnessKind, Thread, CODEX_HARNESS_ID, DEFAULT_HARNESS_ID,
    PI_HARNESS_ID};
use crate::config::Config;
use crate::runner::{decode, decoded, encoded, law_decode_inverts_encode, DecodeFault};
use crate::shell::{exec_line, shell_command};
use crate::state::{State, StateView};
use crate::text::{contains, contains_text, is_text, join_texts, joined_with, lowercase, opt_str,
    opt_text, same_text, texts, to_lowercase, trim, trimmed};
use crate::tmux::{commands, encoded_option, normalized_path, pane_marks, title_marks,
    CanonicalPaths, Client, Step, StepView, Window};

verus! {

/// The harnesses that could be started.
pub open spec fn started(results: Seq<Result<Harness, String>>) -> Seq<Harness>
    decreases results.len(),
{
    if results.len() == 0 {
        Seq::empty()
    } else {
        match results.last() {
            Ok(harness) => started(results.drop_last()).push(harness),
            Err(_) => started(results.drop_last()),
        }
    }
}

/// Why the other harnesses could not be started.
pub open spec fn start_failures(results: Seq<Result<Harness, String>>) -> Seq<Seq<char>>
    decreases results.len(),
{
    if results.len() == 0 {
        Seq::empty()
    } else {
        match results.last() {
            Ok(_) => start_failures(results.drop_last()),
            Err(message) => start_failures(results.drop_last()).push(message@),
        }
    }
}

/// Takes the harnesses that could be started. There must be one.
pub fn start_harnesses(results: Vec<Result<Harness, String>>) -> (result: Result<
    Vec<Harness>,
    String,
>)
    ensures
        match result {
            Ok(harnesses) => harnesses@ == started(results@) && harnesses@.len() > 0,
            Err(message) => started(results@).len() == 0 && message@
                == "no harnesses available: "@ + joined_with(start_failures(results@), "; "@),
        },
{
    let ghost all = results@;
    let mut harnesses: Vec<Harness> = Vec::new();
    let mut errors: Vec<String> = Vec::new();
    assert(texts(errors@) =~= start_failures(all.take(0)));
    for result in it: results
        invariant
            it.seq() == all,
            harnesses@ == started(all.take(it.index())),
            texts(errors@) == start_failures(all.take(it.index())),
    {
        let ghost before = errors@;
        proof {
            assert(all.take(it.index() + 1).drop_last() =~= all.take(it.index()));
            assert(all.take(it.index() + 1).last() == result);
        }
        match result {
            Ok(harness) => {
                harnesses.push(harness);
            },
            Err(error) => {
                errors.push(error);
                assert(texts(errors@) =~= texts(before).push(error@));
            },
        }
    }
    assert(all.take(all.len() as int) =~= all);
    if harnesses.len() == 0 {
        let mut message = "no harnesses available: ".to_owned();
        message.append(join_texts(&errors, "; ").as_str());
        return Err(message);
    }
    Ok(harnesses)
}

/// Whether a harness is among those asked for.
pub open spec fn is_wanted(id: Seq<char>, wanted: Seq<char>) -> bool {
    wanted == "all"@ || id == wanted
}

/// The test for harnesses that are asked for.
pub open spec fn wanted_test(wanted: Seq<char>) -> spec_fn(Harness) -> bool {
    |harness: Harness| is_wanted(harness.id@, wanted)
}

/// Takes the harnesses that are asked for. There must be one.
pub fn select_harnesses(harnesses: Vec<Harness>, harness_filter: &str) -> (result: Result<
    Vec<Harness>,
    String,
>)
    ensures
        match result {
            Ok(selected) => selected@ == harnesses@.filter(wanted_test(harness_filter@))
                && selected@.len() > 0,
            Err(message) => harnesses@.filter(wanted_test(harness_filter@)).len() == 0 && message@
                == "no harness matching `"@ + harness_filter@ + "`"@,
        },
{
    let ghost all = harnesses@;
    let ghost test = wanted_test(harness_filter@);
    let every = same_text(harness_filter, "all");
    let mut selected: Vec<Harness> = Vec::new();
    proof {
        reveal(Seq::filter);
    }
    for harness in it: harnesses
        invariant
            it.seq() == all,
            test == wanted_test(harness_filter@),
            every == (harness_filter@ == "all"@),
            selected@ == all.take(it.index()).filter(test),
    {
        proof {
            reveal(Seq::filter);
            assert(all.take(it.index() + 1).drop_last() =~= all.take(it.index()));
            assert(all.take(it.index() + 1).last() == harness);
        }
        if every || same_text(harness.id.as_str(), harness_filter) {
            selected.push(harness);
        }
    }
    assert(all.take(all.len() as int) =~= all);
    if selected.len() == 0 {
        let mut message = "no harness matching `".to_owned();
        message.append(harness_filter);
        message.append("`");
        return Err(message);
    }
    Ok(selected)
}

/// How well a chat fits what is searched for, where it does: it is called so (0), or so but for the
/// case of letters (1), or its name or title holds it (2), or its preview does (3).
pub open spec fn match_rank(thread: Thread, query: Seq<char>) -> Option<u8> {
    let wanted = trimmed(query);
    let title = thread.shown_title();
    let name = match opt_text(thread.name) {
        Some(name) => name,
        None => Seq::empty(),
    };
    if wanted.len() == 0 {
        None
    } else if opt_text(thread.name) == Some(wanted) || title == wanted {
        Some(0)
    } else if lowercase(name) == lowercase(wanted) || lowercase(title) == lowercase(wanted) {
        Some(1)
    } else if contains(lowercase(name), lowercase(wanted)) || contains(
        lowercase(title),
        lowercase(wanted),
    ) {
        Some(2)
    } else if contains(lowercase(thread.preview@), lowercase(wanted)) {
        Some(3)
    } else {
        None
    }
}

/// How well lower-case texts fit one that is searched for.
pub open spec fn lowered_rank(
    name: Seq<char>,
    title: Seq<char>,
    preview: Seq<char>,
    wanted: Seq<char>,
) -> Option<u8> {
    if name == wanted || title == wanted {
        Some(1)
    } else if contains(name, wanted) || contains(title, wanted) {
        Some(2)
    } else if contains(preview, wanted) {
        Some(3)
    } else {
        None
    }
}

/// Finds how well lower-case texts fit one that is searched for.
pub fn rank_lowered(name: &str, title: &str, preview: &str, wanted: &str) -> (rank: Option<u8>)
    ensures
        rank == lowered_rank(name@, title@, preview@, wanted@),
{
    if same_text(name, wanted) || same_text(title, wanted) {
        Some(1)
    } else if contains_text(name, wanted) || contains_text(title, wanted) {
        Some(2)
    } else if contains_text(preview, wanted) {
        Some(3)
    } else {
        None
    }
}

/// Finds how well a chat fits what is searched for, where it does.
pub fn thread_match_rank(thread: &Thread, query: &str) -> (rank: Option<u8>)
    ensures
        rank == match_rank(*thread, query@),
{
    let wanted = trim(query);
    if wanted.is_empty() {
        return None;
    }
    let title = thread.title();
    if is_text(&thread.name, wanted) || same_text(title, wanted) {
        return Some(0);
    }
    let query = to_lowercase(wanted);
    let name = match &thread.name {
        Some(name) => to_lowercase(name.as_str()),
        None => to_lowercase(""),
    };
    proof {
        reveal_strlit("");
        assert(""@ =~= Seq::<char>::empty());
    }
    let title = to_lowercase(title);
    let preview = to_lowercase(thread.preview.as_str());
    rank_lowered(name.as_str(), title.as_str(), preview.as_str(), query.as_str())
}

/// Whether a chat was held in a project.
pub open spec fn is_in_project(
    thread: Thread,
    project: Seq<char>,
    canonical: CanonicalPaths,
) -> bool {
    canonical.normal(thread.cwd@) == project
}

/// Whether a chat that fits what is searched for comes behind another: it fits less well, or as well
/// and was used less recently, or neither and it is listed later.
pub open spec fn comes_behind(threads: Seq<Thread>, query: Seq<char>, k: int, at: int) -> bool {
    let rank = match_rank(threads[k], query)->0;
    let best = match_rank(threads[at], query)->0;
    ||| rank > best
    ||| rank == best && threads[k].last_used() < threads[at].last_used()
    ||| rank == best && threads[k].last_used() == threads[at].last_used() && k >= at
}

/// The place of the chat of a project that fits best: the most recent one of those that fit equally
/// well.
pub open spec fn is_best_match(
    threads: Seq<Thread>,
    project: Seq<char>,
    canonical: CanonicalPaths,
    query: Seq<char>,
    at: int,
) -> bool {
    &&& 0 <= at < threads.len()
    &&& is_in_project(threads[at], project, canonical)
    &&& match_rank(threads[at], query) is Some
    &&& forall|k: int|
        0 <= k < threads.len() && is_in_project(#[trigger] threads[k], project, canonical)
            && match_rank(threads[k], query) is Some ==> comes_behind(threads, query, k, at)
}

/// At most one chat fits best, and no other chat of the project that fits as well was used more
/// recently.
pub proof fn law_best_match_is_most_recent(
    threads: Seq<Thread>,
    project: Seq<char>,
    canonical: CanonicalPaths,
    query: Seq<char>,
    at: int,
    k: int,
)
    requires
        is_best_match(threads, project, canonical, query, at),
        0 <= k < threads.len(),
        is_in_project(threads[k], project, canonical),
        match_rank(threads[k], query) is Some,
    ensures
        match_rank(threads[at], query)->0 <= match_rank(threads[k], query)->0,
        match_rank(threads[k], query) == match_rank(threads[at], query) ==> threads[k].last_used()
            <= threads[at].last_used(),
        is_best_match(threads, project, canonical, query, k) ==> k == at,
{
    assert(comes_behind(threads, query, k, at));
    if is_best_match(threads, project, canonical, query, k) {
        assert(comes_behind(threads, query, at, k));
    }
}

/// The message where no chat fits.
pub open spec fn no_match_message(
    archived: bool,
    query: Seq<char>,
    project: Seq<char>,
) -> Seq<char> {
    "no "@ + (if archived {
        "archived "@
    } else {
        Seq::empty()
    }) + "thread matching `"@ + query + "` in "@ + project
}

/// Finds the chat of a project that fits what is searched for best, the most recent one of those that
/// fit equally well.
pub fn find_thread(
    threads: &Vec<Thread>,
    project: &str,
    query: &str,
    archived: bool,
    canonical: &CanonicalPaths,
) -> (result: Result<usize, String>)
    ensures
        match result {
            Ok(at) => is_best_match(threads@, project@, *canonical, query@, at as int),
            Err(message) => message@ == no_match_message(archived, query@, project@) && forall|
                k: int,
            |
                0 <= k < threads@.len() && is_in_project(
                    #[trigger] threads@[k],
                    project@,
                    *canonical,
                ) ==> match_rank(threads@[k], query@) is None,
        },
{
    let count: usize = threads.len();
    let mut index: usize = 0;
    let mut best: Option<(usize, u8)> = None;
    assert(threads@.take(0).len() == 0);
    while index < count
        invariant
            index <= count,
            count == threads@.len(),
            match best {
                Some((at, rank)) => at < index && is_in_project(
                    threads@[at as int],
                    project@,
                    *canonical,
                ) && match_rank(threads@[at as int], query@) == Some(rank) && forall|k: int|
                    0 <= k < index && is_in_project(#[trigger] threads@[k], project@, *canonical)
                        && match_rank(threads@[k], query@) is Some ==> comes_behind(
                        threads@,
                        query@,
                        k,
                        at as int,
                    ),
                None => forall|k: int|
                    0 <= k < index && is_in_project(#[trigger] threads@[k], project@, *canonical)
                        ==> match_rank(threads@[k], query@) is None,
            },
        decreases count - index,
    {
        let thread = &threads[index];
        let place = normalized_path(thread.cwd.as_str(), canonical);
        if same_text(place.as_str(), project) {
            if let Some(rank) = thread_match_rank(thread, query) {
                let better = match best {
                    Some((at, lowest)) => rank < lowest || rank == lowest && thread.recency()
                        > threads[at].recency(),
                    None => true,
                };
                if better {
                    best = Some((index, rank));
                }
            }
        }
        index = index + 1;
    }
    match best {
        Some((at, _)) => Ok(at),
        None => {
            let mut message = "no ".to_owned();
            if archived {
                message.append("archived ");
            }
            assert(message@ =~= "no "@ + (if archived {
                "archived "@
            } else {
                Seq::empty()
            }));
            message.append("thread matching `");
            message.append(query);
            message.append("` in ");
            message.append(project);
            Err(message)
        },
    }
}

/// Whether a place is that of the first harness with an identifier.
pub open spec fn is_harness_at(harnesses: Seq<Harness>, id: Seq<char>, at: int) -> bool {
    &&& 0 <= at < harnesses.len()
    &&& harnesses[at].id@ == id
    &&& forall|k: int| 0 <= k < at ==> (#[trigger] harnesses[k]).id@ != id
}

/// Finds the harness that a chat belongs to.
pub fn find_harness(harnesses: &Vec<Harness>, id: &str) -> (result: Result<usize, String>)
    ensures
        match result {
            Ok(at) => is_harness_at(harnesses@, id@, at as int),
            Err(message) => message@ == "matched thread belongs to an unavailable harness"@
                && forall|k: int| 0 <= k < harnesses@.len() ==> (#[trigger] harnesses@[k]).id@
                != id@,
        },
{
    let count: usize = harnesses.len();
    let mut index: usize = 0;
    while index < count
        invariant
            index <= count,
            count == harnesses@.len(),
            forall|k: int| 0 <= k < index ==> (#[trigger] harnesses@[k]).id@ != id@,
        decreases count - index,
    {
        if same_text(harnesses[index].id.as_str(), id) {
            return Ok(index);
        }
        index = index + 1;
    }
    Err("matched thread belongs to an unavailable harness".to_owned())
}

/// The first pane that is marked with a thread of a harness.
pub open spec fn marked_pane(
    windows: Seq<Window>,
    harness_id: Seq<char>,
    thread_id: Seq<char>,
) -> Option<Window>
    decreases windows.len(),
{
    if windows.len() == 0 {
        None
    } else if opt_text(windows[0].harness_id) == Some(harness_id) && opt_text(windows[0].thread_id)
        == Some(thread_id) {
        Some(windows[0])
    } else {
        marked_pane(windows.skip(1), harness_id, thread_id)
    }
}

/// Finds the first pane that is marked with a thread of a harness.
pub fn find_pane(windows: &Vec<Window>, harness_id: &str, thread_id: &str) -> (pane: Option<Window>)
    ensures
        pane == marked_pane(windows@, harness_id@, thread_id@),
{
    let ghost all = windows@;
    let count: usize = windows.len();
    let mut index: usize = 0;
    assert(all.skip(0) =~= all);
    while index < count
        invariant
            index <= count,
            count == windows@.len(),
            all == windows@,
            marked_pane(all, harness_id@, thread_id@) == marked_pane(
                all.skip(index as int),
                harness_id@,
                thread_id@,
            ),
        decreases count - index,
    {
        assert(all.skip(index as int)[0] == all[index as int]);
        assert(all.skip(index as int).skip(1) =~= all.skip(index + 1));
        let window = &windows[index];
        if is_text(&window.harness_id, harness_id) && is_text(&window.thread_id, thread_id) {
            return Some(window.clone());
        }
        index = index + 1;
    }
    None
}

/// How a chat is opened: by bringing its pane to the front, or in a new pane.
#[derive(Debug)]
pub enum Opening {
    Switch(Window),
    Launch { thread: usize, harness: usize },
}

/// Whether something is how a chat of a harness is opened, given the panes: its pane is brought to the
/// front where there is one, and a new one is made elsewhere.
pub open spec fn is_opening(
    opening: Opening,
    threads: Seq<Thread>,
    windows: Seq<Window>,
    at: int,
) -> bool {
    match marked_pane(windows, threads[at].harness_id@, threads[at].id@) {
        Some(window) => opening == Opening::Switch(window),
        None => opening matches Opening::Launch { thread, harness: _ } && thread == at,
    }
}

/// Decides how the chat of a project that fits what is searched for best is opened. Chats are those
/// of the harnesses; panes bear the marks that they should.
pub fn open_thread_by_query(
    harnesses: &Vec<Harness>,
    threads: &Vec<Thread>,
    windows: &Vec<Window>,
    project: &str,
    query: &str,
    archived: bool,
    canonical: &CanonicalPaths,
) -> (result: Result<Opening, String>)
    ensures
        result matches Ok(opening) ==> exists|at: int|
            #![trigger threads@[at]]
            is_best_match(threads@, project@, *canonical, query@, at) && is_opening(
                opening,
                threads@,
                windows@,
                at,
            ),
        match result {
            Ok(Opening::Switch(window)) => exists|at: int|
                #![trigger threads@[at]]
                is_best_match(threads@, project@, *canonical, query@, at) && Some(window)
                    == marked_pane(windows@, threads@[at].harness_id@, threads@[at].id@) && exists|
                    h: int,
                | is_harness_at(harnesses@, threads@[at].harness_id@, h),
            Ok(Opening::Launch { thread, harness }) => is_best_match(
                threads@,
                project@,
                *canonical,
                query@,
                thread as int,
            ) && is_harness_at(
                harnesses@,
                threads@[thread as int].harness_id@,
                harness as int,
            ) && marked_pane(
                windows@,
                threads@[thread as int].harness_id@,
                threads@[thread as int].id@,
            ) is None,
            Err(message) => {
                ||| message@ == no_match_message(archived, query@, project@) && forall|k: int|
                    0 <= k < threads@.len() && is_in_project(
                        #[trigger] threads@[k],
                        project@,
                        *canonical,
                    ) ==> match_rank(threads@[k], query@) is None
                ||| message@ == "matched thread belongs to an unavailable harness"@ && exists|
                    at: int,
                |
                    #![trigger threads@[at]]
                    is_best_match(threads@, project@, *canonical, query@, at) && forall|k: int|
                        0 <= k < harnesses@.len() ==> (#[trigger] harnesses@[k]).id@
                            != threads@[at].harness_id@
            },
        },
{
    let at: usize = match find_thread(threads, project, query, archived, canonical) {
        Ok(at) => at,
        Err(message) => {
            return Err(message);
        },
    };
    let thread = &threads[at];
    assert(is_best_match(threads@, project@, *canonical, query@, at as int));
    let harness: usize = match find_harness(harnesses, thread.harness_id.as_str()) {
        Ok(harness) => harness,
        Err(message) => {
            return Err(message);
        },
    };
    assert(is_harness_at(harnesses@, threads@[at as int].harness_id@, harness as int));
    match find_pane(windows, thread.harness_id.as_str(), thread.id.as_str()) {
        Some(window) => Ok(Opening::Switch(window)),
        None => Ok(Opening::Launch { thread: at, harness }),
    }
}

/// Remembers that a chat was opened in a pane, and that its project was the last one.
pub fn remember_opened(state: &mut State, thread: &Thread, window: &Window)
    ensures
        final(state).view() == (StateView {
            last_project: Some(thread.cwd@),
            ..old(state).view().with_mapping(thread.harness_id@, thread.id@, window.view())
        }),
{
    state.record(thread.harness_id.as_str(), thread.id.as_str(), window);
    state.last_project = Some(thread.cwd.clone());
}

/// The directory of Pi's sessions that is handed to an agent: only Pi has one.
pub open spec fn session_dir_for(config: Config, harness_id: Seq<char>) -> Option<Seq<char>> {
    if harness_id == PI_HARNESS_ID@ {
        opt_text(config.pi.session_dir)
    } else {
        None
    }
}

/// Finds the directory of Pi's sessions that is handed to an agent.
pub fn pi_session_dir<'a>(config: &'a Config, harness_id: &str) -> (path: Option<&'a str>)
    ensures
        opt_str(path) == session_dir_for(*config, harness_id@),
{
    if same_text(harness_id, PI_HARNESS_ID) {
        match &config.pi.session_dir {
            Some(path) => Some(path.as_str()),
            None => None,
        }
    } else {
        None
    }
}

/// The arguments that an agent of a kind is started with.
pub open spec fn arguments_for(
    kind: HarnessKind,
    resume_id: Option<Seq<char>>,
    cwd: Seq<char>,
    title: Seq<char>,
    session_dir: Option<Seq<char>>,
) -> Seq<Seq<char>> {
    match kind {
        HarnessKind::Codex => match resume_id {
            Some(thread_id) => seq!["resume"@, thread_id, "-C"@, cwd],
            None => seq!["-C"@, cwd],
        },
        HarnessKind::Pi => (match resume_id {
            Some(thread_id) => seq!["--session"@, thread_id],
            None => seq!["--name"@, title],
        }) + (match session_dir {
            Some(session_dir) => seq!["--session-dir"@, session_dir],
            None => Seq::empty(),
        }),
        HarnessKind::Basic => Seq::empty(),
    }
}

/// Lists the arguments that an agent of a kind is started with.
pub fn agent_args(
    kind: HarnessKind,
    resume_id: Option<&str>,
    cwd: &str,
    title: &str,
    session_dir: Option<&str>,
) -> (args: Vec<String>)
    ensures
        texts(args@) == arguments_for(
            kind,
            opt_str(resume_id),
            cwd@,
            title@,
            opt_str(session_dir),
        ),
{
    let ghost wanted = arguments_for(
        kind,
        opt_str(resume_id),
        cwd@,
        title@,
        opt_str(session_dir),
    );
    let mut args: Vec<String> = Vec::new();
    match kind {
        HarnessKind::Codex => {
            if let Some(thread_id) = resume_id {
                args.push("resume".to_owned());
                args.push(thread_id.to_owned());
            }
            args.push("-C".to_owned());
            args.push(cwd.to_owned());
        },
        HarnessKind::Pi => {
            if let Some(thread_id) = resume_id {
                args.push("--session".to_owned());
                args.push(thread_id.to_owned());
            } else {
                args.push("--name".to_owned());
                args.push(title.to_owned());
            }
            if let Some(session_dir) = session_dir {
                args.push("--session-dir".to_owned());
                args.push(session_dir.to_owned());
            }
        },
        HarnessKind::Basic => {},
    }
    assert(texts(args@) =~= wanted);
    args
}

/// The kind of a harness by its identifier.
pub open spec fn kind_of(harness_id: Seq<char>) -> HarnessKind {
    if harness_id == PI_HARNESS_ID@ {
        HarnessKind::Pi
    } else if harness_id == CODEX_HARNESS_ID@ {
        HarnessKind::Codex
    } else {
        HarnessKind::Basic
    }
}

/// Finds the kind of a harness by its identifier.
pub fn harness_kind(harness_id: &str) -> (kind: HarnessKind)
    ensures
        kind == kind_of(harness_id@),
{
    if same_text(harness_id, PI_HARNESS_ID) {
        HarnessKind::Pi
    } else if same_text(harness_id, CODEX_HARNESS_ID) {
        HarnessKind::Codex
    } else {
        HarnessKind::Basic
    }
}

/// Whether the saved chats must be looked at before an agent is started: Codex may know the chat
/// already.
pub fn looks_for_thread(harness_id: &str, thread_id: Option<&str>) -> (looks: bool)
    ensures
        looks == (kind_of(harness_id@) is Codex && thread_id is None),
{
    match harness_kind(harness_id) {
        HarnessKind::Codex => thread_id.is_none(),
        _ => false,
    }
}

/// The first chat with a name in a directory.
pub open spec fn named_thread(
    threads: Seq<Thread>,
    title: Seq<char>,
    cwd: Seq<char>,
    canonical: CanonicalPaths,
) -> Option<Seq<char>>
    decreases threads.len(),
{
    if threads.len() == 0 {
        None
    } else if opt_text(threads[0].name) == Some(title) && canonical.normal(threads[0].cwd@)
        == canonical.normal(cwd) {
        Some(threads[0].id@)
    } else {
        named_thread(threads.skip(1), title, cwd, canonical)
    }
}

/// Finds the first chat with a name in a directory.
pub fn existing_thread(
    threads: &Vec<Thread>,
    title: &str,
    cwd: &str,
    canonical: &CanonicalPaths,
) -> (id: Option<String>)
    ensures
        opt_text(id) == named_thread(threads@, title@, cwd@, *canonical),
{
    let target = normalized_path(cwd, canonical);
    let ghost all = threads@;
    let count: usize = threads.len();
    let mut index: usize = 0;
    assert(all.skip(0) =~= all);
    while index < count
        invariant
            index <= count,
            count == threads@.len(),
            all == threads@,
            target@ == canonical.normal(cwd@),
            named_thread(all, title@, cwd@, *canonical) == named_thread(
                all.skip(index as int),
                title@,
                cwd@,
                *canonical,
            ),
        decreases count - index,
    {
        assert(all.skip(index as int)[0] == all[index as int]);
        assert(all.skip(index as int).skip(1) =~= all.skip(index + 1));
        let thread = &threads[index];
        if is_text(&thread.name, title) {
            let place = normalized_path(thread.cwd.as_str(), canonical);
            if same_text(place.as_str(), target.as_str()) {
                return Some(thread.id.clone());
            }
        }
        index = index + 1;
    }
    None
}

/// What is done to run an agent in its pane: marks are put on the pane, a shell runs the command
/// line, and the chat is renamed while it runs.
#[derive(Debug)]
pub struct RunPlan {
    pub marks: Vec<Vec<String>>,
    pub command_line: String,
    pub rename: Vec<Step>,
}

/// The chat that an agent goes on with: the one that it was started for, or one that was found.
pub open spec fn resumed(thread_id: Option<Seq<char>>, existing: Option<Seq<char>>) -> Option<
    Seq<char>,
> {
    match thread_id {
        Some(thread_id) => Some(thread_id),
        None => existing,
    }
}

/// The marks that are put on the pane of an agent, where it has one.
pub open spec fn run_marks(
    pane_id: Option<Seq<char>>,
    harness_id: Seq<char>,
    resume_id: Option<Seq<char>>,
    title: Seq<char>,
) -> Seq<Seq<Seq<char>>> {
    match pane_id {
        Some(pane_id) => match resume_id {
            Some(thread_id) => pane_marks(pane_id, harness_id, thread_id, title),
            None => title_marks(pane_id, harness_id, title),
        },
        None => Seq::empty(),
    }
}

/// The steps that rename the chat of an agent while it runs: only a new one of Codex, in a pane.
pub open spec fn rename_steps(
    pane_id: Option<Seq<char>>,
    kind: HarnessKind,
    resume_id: Option<Seq<char>>,
    title: Seq<char>,
) -> Seq<StepView> {
    if kind is Codex && resume_id is None && pane_id is Some {
        seq![
            StepView::Sleep(1000),
            StepView::Run(seq!["send-keys"@, "-t"@, pane_id->0, "-l"@, "/rename"@]),
            StepView::Run(seq!["send-keys"@, "-t"@, pane_id->0, "Enter"@]),
            StepView::Sleep(250),
            StepView::Run(seq!["send-keys"@, "-t"@, pane_id->0, "-l"@, title]),
            StepView::Sleep(150),
            StepView::Run(seq!["send-keys"@, "-t"@, pane_id->0, "Enter"@]),
        ]
    } else {
        Seq::empty()
    }
}

/// Plans how to run an agent in its pane.
pub fn run_thread(
    tmux: &Client,
    harness_id: &str,
    thread_id: Option<&str>,
    existing_id: Option<&str>,
    pane_id: Option<&str>,
    cwd: &str,
    title: &str,
    agent_command: &str,
    session_dir: Option<&str>,
) -> (plan: RunPlan)
    ensures
        commands(plan.marks@) == run_marks(
            opt_str(pane_id),
            harness_id@,
            resumed(opt_str(thread_id), opt_str(existing_id)),
            title@,
        ),
        plan.command_line@ == exec_line(
            agent_command@,
            arguments_for(
                kind_of(harness_id@),
                resumed(opt_str(thread_id), opt_str(existing_id)),
                cwd@,
                title@,
                opt_str(session_dir),
            ),
        ),
        plan.rename@.map_values(|step: Step| step.view()) == rename_steps(
            opt_str(pane_id),
            kind_of(harness_id@),
            resumed(opt_str(thread_id), opt_str(existing_id)),
            title@,
        ),
{
    let kind = harness_kind(harness_id);
    let resume_id = match thread_id {
        Some(thread_id) => Some(thread_id),
        None => existing_id,
    };
    let marks = match pane_id {
        Some(pane_id) => match resume_id {
            Some(thread_id) => tmux.mark_pane(pane_id, harness_id, thread_id, title),
            None => tmux.mark_title(pane_id, harness_id, title),
        },
        None => {
            let none: Vec<Vec<String>> = Vec::new();
            assert(commands(none@) =~= Seq::<Seq<Seq<char>>>::empty());
            none
        },
    };
    let args = agent_args(kind, resume_id, cwd, title, session_dir);
    let command_line = shell_command(agent_command, &args);
    let mut rename: Vec<Step> = Vec::new();
    assert(rename@.map_values(|step: Step| step.view()) =~= Seq::<StepView>::empty());
    if let HarnessKind::Codex = kind {
        if resume_id.is_none() {
            if let Some(pane_id) = pane_id {
                rename = tmux.rename_active_agent_thread(pane_id, title);
            }
        }
    }
    RunPlan { marks, command_line, rename }
}

/// The arguments of the command that runs an agent in its pane, as they were given.
#[derive(Debug)]
pub struct RunArguments {
    pub thread_id: Option<String>,
    pub cwd_hex: String,
    pub title_hex: String,
    pub harness_id: Option<String>,
    pub agent_command_hex: Option<String>,
    pub codex_command_hex: Option<String>,
    pub session_dir_hex: Option<String>,
}

/// The arguments of the command that runs an agent in its pane, as they are meant.
#[derive(Debug)]
pub struct RunRequest {
    pub harness_id: String,
    pub thread_id: Option<String>,
    pub cwd: String,
    pub title: String,
    pub agent_command: String,
    pub session_dir: Option<String>,
}

/// What is said where an argument cannot be read.
pub open spec fn fault_text(fault: DecodeFault, name: Seq<char>) -> Seq<char> {
    match fault {
        DecodeFault::Invalid => "invalid encoded "@ + name,
        DecodeFault::NotText => "invalid hexadecimal argument"@,
        DecodeFault::NotUtf8 => "encoded "@ + name + " is not UTF-8"@,
    }
}

/// The command that is run, as it was given: under its name, or under an older one.
pub open spec fn given_command(arguments: RunArguments) -> Option<Seq<char>> {
    match opt_text(arguments.agent_command_hex) {
        Some(command) => Some(command),
        None => opt_text(arguments.codex_command_hex),
    }
}

/// What the arguments are refused with, where they are.
pub open spec fn refusal(arguments: RunArguments) -> Option<Seq<char>> {
    match decoded(arguments.cwd_hex@) {
        Err(fault) => Some(fault_text(fault, "working directory"@)),
        Ok(_) => match decoded(arguments.title_hex@) {
            Err(fault) => Some(fault_text(fault, "chat title"@)),
            Ok(_) => match given_command(arguments) {
                None => Some("missing agent command"@),
                Some(command) => match decoded(command) {
                    Err(fault) => Some(fault_text(fault, "agent command"@)),
                    Ok(_) => match opt_text(arguments.session_dir_hex) {
                        None => None,
                        Some(path) => match decoded(path) {
                            Err(fault) => Some(fault_text(fault, "session directory"@)),
                            Ok(_) => None,
                        },
                    },
                },
            },
        },
    }
}

/// Whether a request means what arguments say.
pub open spec fn is_meant(request: RunRequest, arguments: RunArguments) -> bool {
    &&& request.harness_id@ == (match opt_text(arguments.harness_id) {
        Some(harness_id) => harness_id,
        None => DEFAULT_HARNESS_ID@,
    })
    &&& request.thread_id == arguments.thread_id
    &&& decoded(arguments.cwd_hex@) == Ok::<Seq<char>, DecodeFault>(request.cwd@)
    &&& decoded(arguments.title_hex@) == Ok::<Seq<char>, DecodeFault>(request.title@)
    &&& given_command(arguments) matches Some(command) && decoded(command) == Ok::<
        Seq<char>,
        DecodeFault,
    >(request.agent_command@)
    &&& match opt_text(arguments.session_dir_hex) {
        Some(path) => request.session_dir is Some && decoded(path) == Ok::<Seq<char>, DecodeFault>(
            request.session_dir->0@,
        ),
        None => request.session_dir is None,
    }
}

/// Reads the arguments of the command that runs an agent in its pane.
pub fn read_run_arguments(arguments: RunArguments) -> (result: Result<RunRequest, String>)
    ensures
        match result {
            Ok(request) => refusal(arguments) is None && is_meant(request, arguments),
            Err(message) => refusal(arguments) == Some(message@),
        },
{
    let cwd = match decode(arguments.cwd_hex.as_str(), "working directory") {
        Ok(cwd) => cwd,
        Err(error) => {
            return Err(error.message());
        },
    };
    let title = match decode(arguments.title_hex.as_str(), "chat title") {
        Ok(title) => title,
        Err(error) => {
            return Err(error.message());
        },
    };
    let command = match &arguments.agent_command_hex {
        Some(command) => command,
        None => match &arguments.codex_command_hex {
            Some(command) => command,
            None => {
                return Err("missing agent command".to_owned());
            },
        },
    };
    let agent_command = match decode(command.as_str(), "agent command") {
        Ok(agent_command) => agent_command,
        Err(error) => {
            return Err(error.message());
        },
    };
    let session_dir = match &arguments.session_dir_hex {
        None => None,
        Some(path) => match decode(path.as_str(), "session directory") {
            Ok(path) => Some(path),
            Err(error) => {
                return Err(error.message());
            },
        },
    };
    let harness_id = match &arguments.harness_id {
        Some(harness_id) => harness_id.clone(),
        None => DEFAULT_HARNESS_ID.to_owned(),
    };
    Ok(
        RunRequest {
            harness_id,
            thread_id: arguments.thread_id,
            cwd,
            title,
            agent_command,
            session_dir,
        },
    )
}

/// What is said where a shell cannot be started for an agent.
pub fn run_message(agent_command: &str) -> (message: String)
    ensures
        message@ == "failed to run "@ + agent_command@ + " through zsh"@,
{
    let mut message = "failed to run ".to_owned();
    message.append(agent_command);
    message.append(" through zsh");
    message
}

/// What an agent is launched with, in hexadecimal form, is read back as it was.
pub proof fn law_launch_is_read_back(
    arguments: RunArguments,
    request: RunRequest,
    cwd: Seq<char>,
    title: Seq<char>,
    agent_command: Seq<char>,
    session_dir: Option<Seq<char>>,
)
    requires
        arguments.cwd_hex@ == encoded(cwd),
        arguments.title_hex@ == encoded(title),
        given_command(arguments) == Some(encoded(agent_command)),
        opt_text(arguments.session_dir_hex) == encoded_option(session_dir),
    ensures
        refusal(arguments) is None,
        is_meant(request, arguments) ==> request.cwd@ == cwd && request.title@ == title
            && request.agent_command@ == agent_command && opt_text(request.session_dir)
            == session_dir,
{
    law_decode_inverts_encode(cwd);
    law_decode_inverts_encode(title);
    law_decode_inverts_encode(agent_command);
    if session_dir is Some {
        law_decode_inverts_encode(session_dir->0);
    }
}

} // verus!

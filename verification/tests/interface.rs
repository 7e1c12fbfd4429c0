use cia::actions::Next;
use cia::agent::{Harness, HarnessKind, Message, Thread};
use cia::app::{
    row_harness_id, App, ClickTarget, DeleteChoice, DeletePrompt, DeleteTarget, Effect, Focus,
    StatusAction,
};
use cia::config::{ClaudeNames, Config, Environment};
use cia::geometry::{centered, contains, list_index_at, move_index, Rect};
use cia::keys::{
    default_delete_choice, delete_choices, next_delete_choice, next_focus, previous_delete_choice,
    previous_focus, Key, KeyCode,
};
use cia::layout::{help_areas, help_of, inner, pane_areas, panes_of, PaneAreas};
use cia::model::Row;
use cia::mouse::{delete_choice_at, harness_index_at, MouseKind};
use cia::outside::{
    delete_chat_files, deleted_chat_agent_pane_matches, kill_deleted_chat_agent_panes,
    remove_path_from_disk, removal_message, user_name, Found, Removal,
};
use cia::refresh::{window_matches_archived_thread, Listed};
use cia::search::{contains_ignore_case, fuzzy_matches};
use cia::state::State;
use cia::tmux::{CanonicalPaths, Window};

fn names() -> Option<ClaudeNames> {
    Some(ClaudeNames {
        id: "fifth".to_owned(),
        label: "Fifth Harness".to_owned(),
        command: "fifth-cli".to_owned(),
        agent_command: "fifth-agent".to_owned(),
    })
}

fn no_paths() -> CanonicalPaths {
    CanonicalPaths {
        entries: Vec::new(),
    }
}

fn environment(variables: &[(&str, &str)]) -> Environment {
    Environment {
        variables: variables
            .iter()
            .map(|(name, value)| (name.to_string(), value.to_string()))
            .collect(),
    }
}

fn harness(id: &str, found: bool) -> Harness {
    Harness {
        id: id.to_owned(),
        label: id.to_uppercase(),
        marker: id[..1].to_owned(),
        command: id.to_owned(),
        command_path: if found {
            Some(format!("/bin/{id}"))
        } else {
            None
        },
        kind: HarnessKind::Basic,
    }
}

fn thread(harness_id: &str, id: &str, cwd: &str, updated: i64) -> Thread {
    Thread {
        harness_id: harness_id.to_owned(),
        id: id.to_owned(),
        name: Some(format!("chat {id}")),
        preview: String::new(),
        cwd: cwd.to_owned(),
        created_at: 0,
        updated_at: updated,
        recency_at: None,
        source: None,
        git_info: None,
        context_remaining: None,
        archived: false,
        path: None,
    }
}

fn window(pane_id: &str, cwd: &str) -> Window {
    Window {
        session: "repo".into(),
        session_last_attached: 0,
        window_id: "@1".into(),
        window_name: "agents".into(),
        pane_id: pane_id.into(),
        pane_pid: 1,
        command: "codex".into(),
        cwd: cwd.into(),
        harness_id: None,
        thread_id: None,
        chat_title: None,
    }
}

fn listed(threads: Vec<Thread>) -> Vec<Listed> {
    vec![Listed {
        label: "Codex".to_owned(),
        active: Ok(threads),
        archived: Ok(Vec::new()),
    }]
}

fn begun() -> App {
    App::new(
        Config::default(&names()),
        State::default(),
        vec![Ok(harness("codex", true)), Ok(harness("pi", false))],
        "cia".to_owned(),
        &environment(&[("USER", "me")]),
    )
    .unwrap()
}

fn chats() -> Vec<Thread> {
    vec![
        thread("codex", "1", "/tmp/a", 5),
        thread("pi", "2", "/tmp/a", 4),
        thread("codex", "3", "/tmp/b", 3),
    ]
}

fn shown() -> App {
    let (app, result) = begun().refresh(listed(chats()), Ok(Vec::new()), &no_paths());
    assert!(result.is_ok());
    app
}

fn press(app: App, code: KeyCode) -> Next {
    let plain = !matches!(code, KeyCode::Other);
    app.handle_key(
        Key {
            code,
            control: false,
            plain,
        },
        &environment(&[("HOME", "/home/me")]),
    )
}

fn typed(app: App, text: &str) -> App {
    text.chars()
        .fold(app, |app, character| press(app, KeyCode::Char(character)).app)
}

fn refresh(app: App) -> App {
    let (app, result) = app.refresh(listed(chats()), Ok(Vec::new()), &no_paths());
    assert!(result.is_ok());
    app
}

#[test]
fn index_wraps() {
    assert_eq!(move_index(0, 3, -1), 2);
    assert_eq!(move_index(2, 3, 1), 0);
}

#[test]
fn moves_can_be_undone() {
    assert_eq!(move_index(move_index(1, 5, 9), 5, -9), 1);
    assert_eq!(move_index(4, 0, 3), 0);
    assert_eq!(move_index(1, 3, isize::MIN), 2);
}

#[test]
fn finds_delete_prompt_mouse_choices() {
    let popup = Rect {
        x: 10,
        y: 5,
        width: 76,
        height: 8,
    };
    let project = DeleteTarget::Project {
        name: "repo".into(),
        cwd: "/tmp/repo".into(),
    };
    let chat = DeleteTarget::Chat {
        thread: Thread {
            harness_id: "codex".into(),
            id: "thread".into(),
            name: Some("chat".into()),
            preview: String::new(),
            cwd: "/tmp/repo".into(),
            created_at: 0,
            updated_at: 0,
            recency_at: None,
            source: None,
            git_info: None,
            context_remaining: None,
            archived: false,
            path: None,
        },
    };
    assert_eq!(
        delete_choice_at(13, 9, popup, &project),
        Some(DeleteChoice::No)
    );
    assert_eq!(
        delete_choice_at(19, 9, popup, &project),
        Some(DeleteChoice::Hide)
    );
    assert_eq!(
        delete_choice_at(28, 9, popup, &project),
        Some(DeleteChoice::Delete)
    );
    assert_eq!(
        delete_choice_at(19, 9, popup, &chat),
        Some(DeleteChoice::Delete)
    );
    assert_eq!(delete_choice_at(18, 9, popup, &project), None);
    assert_eq!(delete_choice_at(13, 8, popup, &project), None);
}

#[test]
fn matches_deleted_chat_agent_panes_by_thread_or_name() {
    let thread = Thread {
        harness_id: "codex".into(),
        id: "thread-1".into(),
        name: Some("Fix bug".into()),
        preview: String::new(),
        cwd: "/tmp/repo".into(),
        created_at: 0,
        updated_at: 0,
        recency_at: None,
        source: None,
        git_info: None,
        context_remaining: None,
        archived: false,
        path: None,
    };
    let agent_window_names = vec!["agents".to_owned()];
    let mut window = Window {
        session: "repo".into(),
        session_last_attached: 0,
        window_id: "@1".into(),
        window_name: "agents".into(),
        pane_id: "%1".into(),
        pane_pid: 1,
        command: "codex".into(),
        cwd: "/tmp/repo".into(),
        harness_id: Some("codex".into()),
        thread_id: Some("thread-1".into()),
        chat_title: None,
    };

    assert!(deleted_chat_agent_pane_matches(
        &window,
        &thread,
        &agent_window_names,
        &no_paths()
    ));

    window.thread_id = None;
    window.chat_title = Some("Fix bug".into());
    assert!(deleted_chat_agent_pane_matches(
        &window,
        &thread,
        &agent_window_names,
        &no_paths()
    ));

    window.window_name = "other".into();
    assert!(!deleted_chat_agent_pane_matches(
        &window,
        &thread,
        &agent_window_names,
        &no_paths()
    ));
}

#[test]
fn directories_of_panes_are_compared_as_paths() {
    let mut chat = thread("codex", "1", "/gone/repo/", 0);
    let mut pane = window("%1", "/gone/repo");
    pane.window_name = "agents".to_owned();
    pane.harness_id = Some("codex".to_owned());
    pane.thread_id = Some("1".to_owned());
    let goes = |pane: &Window, chat: &Thread| {
        deleted_chat_agent_pane_matches(pane, chat, &vec!["agents".to_owned()], &no_paths())
    };
    assert!(goes(&pane, &chat));
    chat.cwd = "/gone//./repo".to_owned();
    assert!(goes(&pane, &chat));
    chat.cwd = "/gone/other".to_owned();
    assert!(!goes(&pane, &chat));
}

#[test]
fn panes_of_a_deleted_chat_are_killed() {
    let chat = thread("codex", "1", "/tmp/a", 0);
    let mut own = window("%2", "/tmp/a");
    own.harness_id = Some("codex".into());
    own.thread_id = Some("1".into());
    let names = vec!["agents".to_owned()];
    assert_eq!(
        kill_deleted_chat_agent_panes(
            &vec![window("%1", "/tmp/a"), own.clone(), window("%3", "/tmp/a")],
            &chat,
            &names,
            &no_paths()
        ),
        vec!["%2"]
    );
    own.cwd = "/tmp/b".into();
    assert!(kill_deleted_chat_agent_panes(&vec![own], &chat, &names, &no_paths()).is_empty());
}

#[test]
fn chats_without_files_cannot_be_deleted() {
    let mut chat = thread("pi", "1", "/tmp/a", 0);
    assert_eq!(
        delete_chat_files(&chat).unwrap_err(),
        "No on-disk chat path is known for this pi chat"
    );
    chat.path = Some("/s/1.jsonl".to_owned());
    assert_eq!(delete_chat_files(&chat).unwrap(), vec!["/s/1.jsonl"]);
    assert_eq!(
        remove_path_from_disk("/s", Found::Directory),
        Ok(Removal::Directory)
    );
    assert_eq!(remove_path_from_disk("/s", Found::File), Ok(Removal::File));
    assert_eq!(
        remove_path_from_disk("/s", Found::Nothing),
        Ok(Removal::Nothing)
    );
    assert_eq!(
        remove_path_from_disk("/s", Found::Unknown).unwrap_err(),
        "failed to inspect /s"
    );
    assert_eq!(removal_message("/s"), "failed to remove /s");
}

#[test]
fn begins_with_what_was_started() {
    let app = begun();
    assert!(app.running);
    assert_eq!(app.username, "me");
    assert_eq!(app.harnesses.len(), 2);
    assert_eq!(app.focus, Focus::Projects);
    assert_eq!(app.tmux.config.command, "tmux");
    let failed = App::new(
        Config::default(&names()),
        State::default(),
        vec![Err("no codex".to_owned())],
        "cia".to_owned(),
        &environment(&[]),
    );
    assert_eq!(
        failed.err().unwrap(),
        "no harnesses available: no codex"
    );
    assert_eq!(user_name(&environment(&[("USERNAME", "other")])), "other");
    assert_eq!(user_name(&environment(&[])), "You");
}

#[test]
fn refresh_shows_what_was_listed() {
    let app = shown();
    let places: Vec<&str> = app
        .projects
        .iter()
        .map(|project| project.cwd.as_str())
        .collect();
    assert_eq!(places, vec!["/tmp/a", "/tmp/b"]);
    assert_eq!(app.status, "2 projects \u{b7} 3 threads");
    assert_eq!(app.current_rows().len(), 2);
    assert_eq!(app.current_row().unwrap().title(), "chat 1");
}

#[test]
fn refresh_tells_what_failed() {
    let broken = |active: Vec<Thread>| {
        vec![Listed {
            label: "Codex".to_owned(),
            active: Ok(active),
            archived: Err("gone".to_owned()),
        }]
    };
    let (app, result) = shown().refresh(broken(Vec::new()), Ok(Vec::new()), &no_paths());
    assert_eq!(result.unwrap_err(), "Codex archived: gone");
    assert_eq!(app.projects.len(), 2);
    let (app, result) = shown().refresh(broken(chats()), Ok(Vec::new()), &no_paths());
    assert!(result.is_ok());
    assert_eq!(app.status, "Codex archived: gone");
    let (app, result) = shown().refresh(
        listed(Vec::new()),
        Err("tmux inventory failed: x".to_owned()),
        &no_paths(),
    );
    assert_eq!(result.unwrap_err(), "tmux inventory failed: x");
    assert_eq!(app.projects.len(), 2);
}

#[test]
fn refresh_shows_each_chat_once() {
    let twice = vec![Listed {
        label: "Codex".to_owned(),
        active: Ok(chats()),
        archived: Ok(chats()),
    }];
    let (app, _) = begun().refresh(twice, Ok(Vec::new()), &no_paths());
    assert_eq!(app.status, "2 projects \u{b7} 3 threads");
}

#[test]
fn refresh_restores_marks_and_leaves_out_archived_panes() {
    let mut app = begun();
    let chat = thread("codex", "1", "/tmp/a", 5);
    app.state.record("codex", "1", &window("%1", "/tmp/a"));
    app.state.set_archived("codex", "1", true);
    let (app, _) = app.refresh(
        listed(vec![chat.clone()]),
        Ok(vec![window("%1", "/tmp/a"), window("%2", "/tmp/a")]),
        &no_paths(),
    );
    assert_eq!(app.all_windows[0].thread_id.as_deref(), Some("1"));
    assert_eq!(app.projects.len(), 1);
    assert!(app.projects[0].threads.is_empty());
    assert_eq!(app.projects[0].agents.len(), 1);
    let mut all = app;
    all.show_archived = true;
    let (all, _) = all.refresh(
        listed(vec![chat]),
        Ok(vec![window("%1", "/tmp/a"), window("%2", "/tmp/a")]),
        &no_paths(),
    );
    assert_eq!(all.projects[0].threads.len(), 1);
    assert_eq!(all.projects[0].agents.len(), 1);
}

#[test]
fn panes_of_archived_chats_are_known_by_name() {
    let mut archived = thread("codex", "1", "/tmp/a", 5);
    archived.archived = true;
    let mut pane = window("%1", "/tmp/a");
    let state = State::default();
    let threads = vec![archived];
    assert!(!window_matches_archived_thread(
        &pane,
        &state,
        &threads,
        &no_paths()
    ));
    pane.harness_id = Some("codex".into());
    pane.chat_title = Some("chat 1".into());
    assert!(window_matches_archived_thread(
        &pane,
        &state,
        &threads,
        &no_paths()
    ));
    pane.thread_id = Some("1".into());
    assert!(!window_matches_archived_thread(
        &pane,
        &state,
        &threads,
        &no_paths()
    ));
}

#[test]
fn hidden_projects_are_not_shown() {
    let app = refresh(shown().hide_project("/tmp/a"));
    assert_eq!(app.projects.len(), 1);
    assert_eq!(app.projects[0].cwd, "/tmp/b");
    let app = refresh(app.project_created("/tmp/a"));
    assert_eq!(app.projects.len(), 2);
}

#[test]
fn new_projects_are_shown_and_selected() {
    let app = refresh(shown().project_created("/tmp/new").project_saved());
    let next = app.select_project("/tmp/new");
    assert_eq!(next.app.projects[next.app.project_index].cwd, "/tmp/new");
    assert_eq!(next.app.projects[next.app.project_index].name, "new");
    assert_eq!(next.app.focus, Focus::Projects);
    assert!(next.effects.is_empty());
    assert_eq!(next.app.state.last_project.as_deref(), Some("/tmp/new"));
    let next = next.app.select_project("/tmp/none");
    assert_eq!(next.app.projects[next.app.project_index].cwd, "/tmp/new");
}

#[test]
fn selection_stays_within_what_is_shown() {
    let mut app = shown();
    app.project_index = 1;
    app.row_index = 9;
    let app = refresh(app);
    assert_eq!((app.project_index, app.row_index), (1, 0));
    let (app, _) = app.refresh(listed(Vec::new()), Ok(Vec::new()), &no_paths());
    assert_eq!((app.project_index, app.row_index), (0, 0));
    assert!(app.current_project().is_none());
}

#[test]
fn first_selection_is_the_preferred_project() {
    let links = CanonicalPaths {
        entries: vec![("/link".to_owned(), "/tmp/b".to_owned())],
    };
    let next = shown().select_initial(Some("/link"), &links);
    assert_eq!(next.app.project_index, 1);
    match &next.effects[..] {
        [Effect::ReadMessages {
            harness,
            thread_id,
            turns,
        }] => {
            assert_eq!((*harness, thread_id.as_str(), *turns), (0, "3", 3));
        }
        other => panic!("{other:?}"),
    }
    let mut app = shown();
    app.state.last_project = Some("/tmp/b".to_owned());
    assert_eq!(app.select_initial(None, &links).app.project_index, 1);
    assert_eq!(shown().select_initial(Some("/none"), &links).app.project_index, 0);
}

#[test]
fn keys_move_the_selection() {
    let next = press(shown(), KeyCode::Char('j'));
    assert_eq!(next.app.project_index, 1);
    assert_eq!(next.effects.len(), 1);
    let next = press(next.app, KeyCode::Down);
    assert_eq!(next.app.project_index, 0);
    let next = press(next.app, KeyCode::Tab);
    assert_eq!(next.app.focus, Focus::Threads);
    let next = press(next.app, KeyCode::Up);
    assert_eq!(next.app.row_index, 1);
    let next = press(next.app, KeyCode::Char('g'));
    assert!(next.app.pending_g);
    let next = press(next.app, KeyCode::Char('g'));
    assert_eq!(next.app.row_index, 0);
    let next = press(next.app, KeyCode::Char('G'));
    assert_eq!(next.app.row_index, 1);
    let next = press(next.app, KeyCode::Char('h'));
    assert_eq!(next.app.focus, Focus::Projects);
    let next = press(next.app, KeyCode::Char('q'));
    assert!(!next.app.running);
}

#[test]
fn focus_goes_round() {
    for focus in [Focus::Projects, Focus::Threads, Focus::Preview] {
        assert_eq!(previous_focus(next_focus(focus)), focus);
        assert_eq!(next_focus(next_focus(next_focus(focus))), focus);
    }
    assert_eq!(next_focus(Focus::Projects), Focus::Threads);
}

#[test]
fn search_narrows_what_is_shown() {
    let next = press(shown(), KeyCode::Char('/'));
    assert!(next.app.search_mode);
    let app = typed(next.app, "chat 3");
    assert_eq!(app.query, "chat 3");
    assert_eq!(app.visible_project_indices(), vec![1]);
    assert_eq!(app.project_index, 1);
    assert_eq!(app.current_rows().len(), 1);
    let next = press(app, KeyCode::Backspace);
    assert_eq!(next.app.query, "chat ");
    assert_eq!(next.app.visible_project_indices().len(), 2);
    let next = press(next.app, KeyCode::Enter);
    assert!(!next.app.search_mode);
    assert_eq!(next.app.query, "chat ");
}

#[test]
fn searches_find_letters_in_order() {
    assert!(fuzzy_matches("Fix Popup", "fpp"));
    assert!(!fuzzy_matches("Fix Popup", "ppf"));
    assert!(fuzzy_matches("anything", ""));
    assert!(contains_ignore_case("Some TEXT", "text"));
    assert!(!contains_ignore_case("Some TEXT", "txt"));
}

#[test]
fn enter_opens_the_selected_chat() {
    let next = press(shown(), KeyCode::Enter);
    match &next.effects[..] {
        [Effect::OpenThread { thread, harness }] => {
            assert_eq!((thread.id.as_str(), *harness), ("1", 0));
            let launch = next.app.thread_launch(thread, *harness);
            assert_eq!(launch.title, "chat 1");
            assert_eq!(launch.thread_id, Some("1"));
            assert_eq!(launch.agent_command, "codex");
            assert_eq!(launch.session_dir, None);
        }
        other => panic!("{other:?}"),
    }
    let mut app = shown();
    app.row_index = 1;
    let next = press(app, KeyCode::Enter);
    assert!(next.effects.is_empty());
    assert_eq!(
        next.app.status,
        "PI cli tool not found - check install in $PATH"
    );
    let app = next.app;
    let opened = app.thread_opened(&thread("codex", "1", "/tmp/a", 5), &window("%1", "/tmp/a"));
    assert_eq!(opened.state.mappings.len(), 1);
    assert!(!opened.switched(Ok(())).running);
    let stuck = shown().switched(Err("nope".to_owned()));
    assert!(stuck.running);
    assert_eq!(stuck.status, "nope");
}

#[test]
fn chats_of_unknown_harnesses_cannot_be_opened() {
    let next = shown().open_thread(thread("other", "9", "/tmp/a", 1));
    assert_eq!(next.app.status, "thread belongs to an unavailable harness");
}

#[test]
fn live_panes_are_brought_to_the_front() {
    let (app, _) = begun().refresh(
        listed(Vec::new()),
        Ok(vec![window("%5", "/tmp/c")]),
        &no_paths(),
    );
    match &press(app, KeyCode::Enter).effects[..] {
        [Effect::Switch(pane)] => assert_eq!(pane.pane_id, "%5"),
        other => panic!("{other:?}"),
    }
}

#[test]
fn archiving_asks_for_a_new_look() {
    let next = press(shown(), KeyCode::Char('A'));
    assert!(matches!(next.effects[..], [Effect::SaveAndRefresh]));
    assert!(next.app.state.is_archived("codex", "1"));
    let app = refresh(next.app);
    assert_eq!(app.current_rows().len(), 1);
    let next = press(app, KeyCode::Char('a'));
    assert!(matches!(next.effects[..], [Effect::RefreshView]));
    let app = refresh(next.app);
    assert_eq!(app.current_rows().len(), 2);
    let next = press(app, KeyCode::Char('U'));
    assert!(!next.app.state.is_archived("codex", "1"));
    let mut app = shown();
    app.row_index = 9;
    assert_eq!(
        press(app, KeyCode::Char('A')).app.status,
        "Select a saved chat first"
    );
}

#[test]
fn deleting_a_project_is_asked_first() {
    let next = press(shown(), KeyCode::Char('D'));
    let prompt = next.app.delete_prompt.as_ref().unwrap();
    assert_eq!(prompt.choice, DeleteChoice::No);
    let next = press(next.app, KeyCode::Enter);
    assert!(next.app.delete_prompt.is_none());
    assert!(matches!(next.effects[..], [Effect::RefreshView]));
    let next = press(press(next.app, KeyCode::Char('D')).app, KeyCode::Right);
    assert_eq!(
        next.app.delete_prompt.as_ref().unwrap().choice,
        DeleteChoice::Hide
    );
    let next = press(next.app, KeyCode::Enter);
    assert!(matches!(next.effects[..], [Effect::SaveAndRefresh]));
    assert!(next.app.state.is_project_hidden("/tmp/a"));
    let next = press(press(shown(), KeyCode::Char('D')).app, KeyCode::Char('l'));
    let next = press(press(next.app, KeyCode::Char('l')).app, KeyCode::Enter);
    match &next.effects[..] {
        [Effect::RemoveProject(cwd)] => assert_eq!(cwd, "/tmp/a"),
        other => panic!("{other:?}"),
    }
    let next = next.app.project_removed("/tmp/a");
    assert!(next.app.state.is_project_hidden("/tmp/a"));
    let next = press(press(shown(), KeyCode::Char('D')).app, KeyCode::Esc);
    assert!(next.app.delete_prompt.is_none());
}

#[test]
fn deleting_a_chat_is_asked_first() {
    let app = press(shown(), KeyCode::Tab).app;
    let next = press(app, KeyCode::Char('D'));
    assert!(matches!(
        next.app.delete_prompt,
        Some(DeletePrompt {
            target: DeleteTarget::Chat { .. },
            ..
        })
    ));
    let next = press(next.app, KeyCode::Char('y'));
    match &next.effects[..] {
        [Effect::DeleteChat(thread)] => assert_eq!(thread.id, "1"),
        other => panic!("{other:?}"),
    }
    let mut app = next.app;
    app.state.set_archived("codex", "1", true);
    let app = app.chat_removed(&thread("codex", "1", "/tmp/a", 5));
    assert!(!app.state.is_archived("codex", "1"));
}

#[test]
fn answers_go_round() {
    let project = DeleteTarget::Project {
        name: "a".into(),
        cwd: "/a".into(),
    };
    let chat = DeleteTarget::Chat {
        thread: thread("pi", "1", "/a", 0),
    };
    assert_eq!(delete_choices(&project).len(), 3);
    assert_eq!(
        delete_choices(&chat),
        vec![DeleteChoice::No, DeleteChoice::Delete]
    );
    for target in [&project, &chat] {
        for choice in delete_choices(target) {
            assert_eq!(
                previous_delete_choice(next_delete_choice(choice, target), target),
                choice
            );
        }
    }
    assert_eq!(default_delete_choice(&project), DeleteChoice::Hide);
    assert_eq!(default_delete_choice(&chat), DeleteChoice::Delete);
}

#[test]
fn new_projects_are_typed() {
    let app = typed(press(shown(), KeyCode::Char('N')).app, " ~/x ");
    assert!(app.new_project_mode);
    let next = press(app, KeyCode::Enter);
    match &next.effects[..] {
        [Effect::CreateProject(path)] => assert_eq!(path, "/home/me/x"),
        other => panic!("{other:?}"),
    }
    let failed = next.app.project_failed("/home/me/x", "denied");
    assert_eq!(failed.status, "failed to create /home/me/x: denied");
    assert!(failed.new_project_mode);
    let empty = press(press(shown(), KeyCode::Char('N')).app, KeyCode::Enter);
    assert_eq!(empty.app.status, "Project path cannot be empty");
    let gone = press(press(shown(), KeyCode::Char('N')).app, KeyCode::Esc);
    assert!(!gone.app.new_project_mode);
}

#[test]
fn new_chats_are_typed() {
    let next = press(shown(), KeyCode::Char('n'));
    assert!(next.app.new_chat_picking_harness);
    assert_eq!(next.app.new_chat_harness_index, 1);
    let next = press(next.app, KeyCode::Enter);
    assert_eq!(
        next.app.new_chat_harness_error.as_deref(),
        Some("PI cli tool not found - check install in $PATH")
    );
    let next = press(press(next.app, KeyCode::Down).app, KeyCode::Enter);
    assert!(!next.app.new_chat_picking_harness);
    let app = typed(next.app, "chat 1");
    let next = press(app, KeyCode::Enter);
    assert_eq!(
        next.app.status,
        "A chat named `chat 1` already exists in this project"
    );
    let next = press(typed(next.app, "0"), KeyCode::Enter);
    match &next.effects[..] {
        [Effect::OpenChat {
            cwd,
            title,
            harness,
        }] => {
            assert_eq!((cwd.as_str(), title.as_str(), *harness), ("/tmp/a", "chat 10", 0));
            let launch = next.app.chat_launch(cwd, title, *harness);
            assert_eq!(launch.thread_id, None);
            assert_eq!(launch.harness_id, "codex");
        }
        other => panic!("{other:?}"),
    }
    let app = next.app.chat_opened("/tmp/a");
    assert_eq!(app.state.last_project.as_deref(), Some("/tmp/a"));
    let app = app.chat_switched(Ok(()));
    assert!(!app.new_chat_mode && !app.running);
    let empty = press(
        {
            let mut app = press(shown(), KeyCode::Char('n')).app;
            app.new_chat_picking_harness = false;
            app
        },
        KeyCode::Enter,
    );
    assert_eq!(empty.app.status, "Chat name cannot be empty");
}

#[test]
fn previews_are_read_and_scrolled() {
    let app = shown().messages_read(Ok(vec![Message {
        role: "You".into(),
        text: "hello".into(),
    }]));
    assert_eq!(app.preview.len(), 1);
    let app = app.scroll_preview(-5);
    assert_eq!((app.preview_scroll, app.focus), (5, Focus::Preview));
    assert_eq!(app.scroll_preview(9).preview_scroll, 0);
    let failed = shown().messages_read(Err("broken".to_owned()));
    assert_eq!(failed.status, "broken");
    let next = shown().refresh_view(Err("broken".to_owned()));
    assert_eq!(next.app.status, "broken");
    assert_eq!(next.effects.len(), 1);
    assert_eq!(shown().scroll_preview(isize::MIN).preview_scroll, 0);
    assert_eq!(shown().scroll_preview(-70_000).preview_scroll, 4_464);
}

#[test]
fn help_is_opened_and_closed() {
    let next = press(shown(), KeyCode::Char('?'));
    assert!(next.app.show_help);
    let next = press(next.app, KeyCode::Char('j'));
    assert!(!next.app.show_help);
    assert_eq!(next.app.project_index, 0);
}

fn areas() -> PaneAreas {
    let rect = |x: u16, y: u16, width: u16, height: u16| Rect {
        x,
        y,
        width,
        height,
    };
    PaneAreas {
        status: rect(0, 0, 120, 1),
        projects: rect(0, 1, 50, 10),
        threads: rect(50, 1, 70, 10),
        preview: rect(0, 11, 120, 20),
    }
}

fn click(app: App, x: u16, y: u16, now: u128) -> Next {
    app.handle_mouse(MouseKind::Press, x, y, areas(), 120, 31, now)
}

#[test]
fn messages_are_read_before_a_double_click_opens() {
    let away = click(shown(), 60, 3, 0).app.with_row(0);
    let next = click(away, 60, 3, 100_000_000);
    assert_eq!(next.app.row_index, 1);
    assert!(matches!(
        next.effects[..],
        [Effect::ReadMessages { .. }, Effect::Activate]
    ));
    let mut app = next.app.messages_read(Err("cannot read".to_owned()));
    assert_eq!(app.status, "cannot read");
    for harness in &mut app.harnesses {
        harness.command_path = None;
    }
    let opened = app.activate();
    assert!(opened.effects.is_empty());
    assert!(opened.app.status.ends_with(" cli tool not found - check install in $PATH"));
}

#[test]
fn clicks_select_and_open() {
    let next = click(shown(), 3, 3, 0);
    assert_eq!(next.app.project_index, 1);
    let next = click(shown(), 60, 3, 1_000);
    assert_eq!((next.app.row_index, next.app.focus), (1, Focus::Threads));
    let next = click(shown(), 60, 2, 1_000);
    assert_eq!(
        next.app.last_click.unwrap().target,
        ClickTarget::Thread(0)
    );
    let next = click(next.app, 60, 2, 400_000_000);
    assert!(next
        .effects
        .iter()
        .any(|effect| matches!(effect, Effect::OpenThread { .. })));
    let slow = click(click(shown(), 60, 2, 0).app, 60, 2, 900_000_000);
    assert!(!slow
        .effects
        .iter()
        .any(|effect| matches!(effect, Effect::OpenThread { .. })));
    let next = click(shown(), 5, 15, 0);
    assert_eq!(next.app.focus, Focus::Preview);
    let next = shown().handle_mouse(MouseKind::Other, 5, 15, areas(), 120, 31, 0);
    assert_eq!(next.app.focus, Focus::Projects);
}

#[test]
fn clicks_on_the_status_bar_act() {
    let app = shown();
    assert_eq!(app.message_columns(), 10);
    assert_eq!(app.status_action_at(13, 120), Some(StatusAction::Help));
    assert_eq!(app.status_action_at(12, 120), None);
    assert_eq!(app.status_action_at(19, 120), Some(StatusAction::Search));
    assert_eq!(app.status_action_at(119, 120), Some(StatusAction::Delete));
    let next = click(app, 13, 0, 0);
    assert!(next.app.show_help);
    let next = click(shown(), 119, 0, 0);
    assert!(next.app.delete_prompt.is_some());
}

#[test]
fn places_lie_in_areas() {
    let area = Rect {
        x: 2,
        y: 3,
        width: 4,
        height: 5,
    };
    assert!(contains(area, 2, 3));
    assert!(contains(area, 5, 7));
    assert!(!contains(area, 6, 3));
    assert_eq!(list_index_at(4, area), Some(0));
    assert_eq!(list_index_at(6, area), Some(2));
    assert_eq!(list_index_at(7, area), None);
    assert_eq!(harness_index_at(3, 5, area, 2), Some(1));
    assert_eq!(harness_index_at(3, 6, area, 2), None);
    assert_eq!(harness_index_at(2, 5, area, 2), None);
    let middle = centered(
        Rect {
            x: 0,
            y: 0,
            width: 100,
            height: 20,
        },
        76,
        30,
    );
    assert_eq!(
        middle,
        Rect {
            x: 12,
            y: 0,
            width: 76,
            height: 20
        }
    );
}

#[test]
fn panes_divide_the_screen() {
    let screen = |width: u16, height: u16| Rect {
        x: 0,
        y: 0,
        width,
        height,
    };
    let wide = pane_areas(screen(120, 51));
    assert_eq!((wide.status.height, wide.status.width), (1, 120));
    assert_eq!(wide.projects.y, wide.threads.y);
    assert_eq!(wide.projects.width + wide.threads.width, 120);
    assert_eq!(wide.projects.height, 18);
    assert_eq!(wide.preview.y, 19);
    assert_eq!(wide.preview.height, 32);
    let narrow = pane_areas(screen(80, 41));
    assert_eq!(narrow.projects.height, 10);
    assert_eq!(narrow.threads.height, 14);
    assert_eq!(narrow.preview.height, 16);
    assert_eq!(narrow.threads.width, 80);
    let help = help_areas(screen(74, 18));
    assert_eq!(help.introduction.height, 2);
    assert_eq!(help.hint.height, 1);
    assert_eq!(help.left.width, 35);
    assert_eq!(inner(screen(10, 10), 1, 1).height, 8);
    assert_eq!(inner(screen(1, 10), 1, 1).height, 0);
}

#[test]
fn panes_cover_the_screen() {
    for width in [0, 1, 2, 7, 33, 60, 99, 100, 101, 119, 150, 201, 233] {
        for height in 0..70 {
            let areas = pane_areas(Rect {
                x: 3,
                y: 2,
                width,
                height,
            });
            let (projects, threads) = (areas.projects, areas.threads);
            assert_eq!(areas.status.y, 2);
            if height >= 6 {
                assert_eq!(areas.status.height, 1);
            }
            let share = |length: u16, percentage: u16, whole: u16| {
                (100 * i32::from(length) - i32::from(percentage) * i32::from(whole)).abs() <= 100
            };
            let rest = height - areas.status.height;
            assert_eq!(projects.y, 2 + areas.status.height);
            assert_eq!(threads.y + threads.height, areas.preview.y);
            assert_eq!(areas.preview.y + areas.preview.height, 2 + height);
            if width >= 100 {
                assert_eq!((projects.x, projects.x + projects.width), (3, threads.x));
                assert_eq!(threads.x + threads.width, 3 + width);
                assert!(share(projects.width, 42, width) && share(projects.height, 36, rest));
            } else {
                assert_eq!(projects.y + projects.height, threads.y);
                assert_eq!((threads.x, threads.width), (3, width));
                assert!(share(projects.height, 25, rest) && share(threads.height, 35, rest));
            }
        }
    }
}

#[test]
fn help_covers_its_popup() {
    for width in [0, 3, 4, 5, 6, 7, 20, 41, 74, 91] {
        for height in 0..40 {
            let popup = Rect {
                x: 5,
                y: 6,
                width,
                height,
            };
            let (whole, areas) = (inner(popup, 2, 1), help_areas(popup));
            assert_eq!(areas.introduction.y, whole.y);
            assert_eq!(areas.left.y, whole.y + areas.introduction.height);
            assert_eq!(areas.left.y + areas.left.height, areas.hint.y);
            assert_eq!(areas.hint.y + areas.hint.height, whole.y + whole.height);
            assert_eq!(areas.left.x, whole.x);
            assert_eq!(areas.left.x + areas.left.width, areas.right.x);
            assert_eq!(areas.right.x + areas.right.width, whole.x + whole.width);
            if whole.height >= 11 {
                assert_eq!((areas.introduction.height, areas.hint.height), (2, 1));
            }
        }
    }
}

#[test]
fn parts_are_given_to_the_panes_in_order() {
    let part = |x: u16| Rect {
        x,
        y: 0,
        width: 1,
        height: 1,
    };
    let outer = vec![part(1), part(2)];
    let rows = vec![part(3), part(4), part(5)];
    let top = vec![part(6), part(7)];
    assert_eq!(
        panes_of(true, &outer, &rows, &top),
        PaneAreas {
            status: part(1),
            projects: part(6),
            threads: part(7),
            preview: part(4),
        }
    );
    assert_eq!(
        panes_of(false, &outer, &rows, &Vec::new()),
        PaneAreas {
            status: part(1),
            projects: part(3),
            threads: part(4),
            preview: part(5),
        }
    );
    let help = help_of(&rows, &top);
    assert_eq!((help.introduction, help.left), (part(3), part(6)));
    assert_eq!((help.right, help.hint), (part(7), part(5)));
}

#[test]
fn rows_know_their_harness() {
    let agent = Row::Agent(window("%1", "/a"));
    assert_eq!(row_harness_id(&agent), None);
    let chat = Row::Thread {
        thread: Box::new(thread("pi", "1", "/a", 0)),
        live: None,
    };
    assert_eq!(row_harness_id(&chat), Some("pi"));
    let app = shown();
    assert_eq!(app.harness("pi").unwrap().label, "PI");
    assert!(app.harness("none").is_none());
}

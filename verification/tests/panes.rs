use cia::agent::{Thread, DEFAULT_HARNESS_ID};
use cia::config::{ClaudeNames, TmuxConfig};
use cia::model::{build_projects, project_name, rows, Row};
use cia::state::State;
use cia::tmux::{
    normalized_path, parse_window, sanitize_name, shell, unique_name, unique_session_name,
    AgentLaunch, CanonicalPaths, Client, InventoryError, Step, Window,
};

fn names() -> Option<ClaudeNames> {
    Some(ClaudeNames {
        id: "fifth".to_owned(),
        label: "Fifth Harness".to_owned(),
        command: "fifth-cli".to_owned(),
        agent_command: "fifth-agent".to_owned(),
    })
}

fn no_paths() -> CanonicalPaths {
    CanonicalPaths {
        entries: Vec::new(),
    }
}

fn thread(id: &str, cwd: &str, updated: i64) -> Thread {
    Thread {
        harness_id: DEFAULT_HARNESS_ID.to_owned(),
        id: id.to_owned(),
        name: Some(id.to_owned()),
        preview: String::new(),
        cwd: cwd.to_owned(),
        created_at: 1,
        updated_at: updated,
        recency_at: None,
        source: Some("cli".to_owned()),
        git_info: None,
        context_remaining: None,
        archived: false,
        path: None,
    }
}

fn window() -> Window {
    Window {
        session: "repo".into(),
        session_last_attached: 0,
        window_id: "@1".into(),
        window_name: "agent".into(),
        pane_id: "%1".into(),
        pane_pid: 1,
        command: "codex".into(),
        cwd: "/repo".into(),
        harness_id: None,
        thread_id: None,
        chat_title: None,
    }
}

fn client() -> Client {
    Client::new(TmuxConfig::default(&names()))
}

#[test]
fn groups_threads_and_agents_without_guessing() {
    let tmux = client();
    let agent = Window {
        session: "repo".into(),
        session_last_attached: 3,
        window_id: "@1".into(),
        window_name: "agents".into(),
        pane_id: "%1".into(),
        pane_pid: 1,
        command: "codex".into(),
        cwd: "/tmp/repo".into(),
        harness_id: None,
        thread_id: None,
        chat_title: None,
    };
    let projects = build_projects(
        vec![thread("chat", "/tmp/repo", 2)],
        vec![agent],
        &tmux,
        &no_paths(),
    );
    let result = rows(&projects[0]);
    assert!(matches!(result[0], Row::Agent(_)));
    assert!(matches!(result[1], Row::Thread { live: None, .. }));
}

#[test]
fn maps_cia_named_panes_without_a_thread_id() {
    let tmux = client();
    let agent = Window {
        session: "repo".into(),
        session_last_attached: 3,
        window_id: "@1".into(),
        window_name: "agents".into(),
        pane_id: "%1".into(),
        pane_pid: 1,
        command: "cia".into(),
        cwd: "/tmp/repo".into(),
        harness_id: Some(DEFAULT_HARNESS_ID.into()),
        thread_id: None,
        chat_title: Some("chat".into()),
    };
    let projects = build_projects(
        vec![thread("chat", "/tmp/repo", 2)],
        vec![agent],
        &tmux,
        &no_paths(),
    );
    let result = rows(&projects[0]);
    assert_eq!(result.len(), 1);
    assert!(matches!(result[0], Row::Thread { live: Some(_), .. }));
}

#[test]
fn projects_stand_in_order_and_hold_their_own() {
    let mut agent = window();
    agent.cwd = "/tmp/c".into();
    agent.session_last_attached = 9;
    let mut shell_pane = window();
    shell_pane.command = "zsh".into();
    shell_pane.cwd = "/tmp/d".into();
    let projects = build_projects(
        vec![
            thread("one", "/tmp/a", 2),
            thread("two", "/tmp/b", 5),
            thread("three", "/tmp/a", 5),
            thread("four", "/link", 1),
        ],
        vec![agent, shell_pane],
        &client(),
        &CanonicalPaths {
            entries: vec![("/link".to_owned(), "/tmp/b".to_owned())],
        },
    );
    let places: Vec<&str> = projects.iter().map(|project| project.cwd.as_str()).collect();
    assert_eq!(places, vec!["/tmp/c", "/tmp/a", "/tmp/b"]);
    let ids: Vec<&str> = projects[1]
        .threads
        .iter()
        .map(|thread| thread.id.as_str())
        .collect();
    assert_eq!(ids, vec!["three", "one"]);
    assert_eq!(projects[2].threads.len(), 2);
    assert_eq!(projects[0].agents.len(), 1);
    assert_eq!(projects[1].recency, 5);
    assert_eq!(projects[1].name, "a");
    assert_eq!(project_name("/"), "/");
    assert_eq!(project_name("/tmp/x/"), "x");
}

#[test]
fn two_panes_of_one_name_are_not_guessed() {
    let named = |pane: &str| {
        let mut pane_window = window();
        pane_window.pane_id = pane.into();
        pane_window.cwd = "/tmp/repo".into();
        pane_window.harness_id = Some(DEFAULT_HARNESS_ID.into());
        pane_window.chat_title = Some("chat".into());
        pane_window
    };
    let projects = build_projects(
        vec![thread("chat", "/tmp/repo", 2)],
        vec![named("%1"), named("%2")],
        &client(),
        &no_paths(),
    );
    let result = rows(&projects[0]);
    assert_eq!(result.len(), 1);
    assert!(matches!(result[0], Row::Thread { live: None, .. }));
    let mut marked = named("%3");
    marked.thread_id = Some("chat".into());
    let projects = build_projects(
        vec![thread("chat", "/tmp/repo", 2)],
        vec![named("%1"), named("%2"), marked],
        &client(),
        &no_paths(),
    );
    let result = rows(&projects[0]);
    assert_eq!(result.len(), 1);
    let live = result.iter().find_map(|row| match row {
        Row::Thread {
            live: Some(window), ..
        } => Some(window.pane_id.clone()),
        _ => None,
    });
    assert_eq!(live.as_deref(), Some("%3"));
    assert!(result.iter().any(|row| row.title() == "chat"));
}

#[test]
fn restores_only_exact_live_window_mapping() {
    let mut state = State::default();
    state.record(DEFAULT_HARNESS_ID, "thread", &window());
    let mut windows = vec![window()];
    state.reconcile(&mut windows);
    assert_eq!(windows[0].harness_id.as_deref(), Some(DEFAULT_HARNESS_ID));
    assert_eq!(windows[0].thread_id.as_deref(), Some("thread"));
}

#[test]
fn mappings_of_other_panes_are_dropped() {
    let mut state = State::default();
    state.record(DEFAULT_HARNESS_ID, "thread", &window());
    state.record(DEFAULT_HARNESS_ID, "second", &window());
    assert_eq!(state.mappings.len(), 1);
    assert!(state.mappings[0].matches(&window()));
    let mut moved = window();
    moved.cwd = "/elsewhere".into();
    assert!(!state.mappings[0].matches(&moved));
    let mut windows = vec![moved];
    state.reconcile(&mut windows);
    assert!(state.mappings.is_empty());
    assert_eq!(windows[0].thread_id, None);
}

#[test]
fn marks_of_panes_are_kept() {
    let mut state = State::default();
    state.record(DEFAULT_HARNESS_ID, "thread", &window());
    let mut marked = window();
    marked.thread_id = Some("own".into());
    let mut windows = vec![marked];
    state.reconcile(&mut windows);
    assert_eq!(windows[0].thread_id.as_deref(), Some("own"));
}

#[test]
fn unhide_moves_project_back_to_visible_paths() {
    let mut state = State::default();
    state.hide_project_path("/repo");
    state.unhide_project_path("/repo");
    assert_eq!(state.hidden_project_paths, Vec::<String>::new());
    assert_eq!(state.project_paths, vec!["/repo".to_owned()]);
}

#[test]
fn delete_suppresses_without_adding_to_hidden_list() {
    let mut state = State::default();
    state.add_project_path("/repo".into());
    state.delete_project_path("/repo");
    assert_eq!(state.project_paths, Vec::<String>::new());
    assert_eq!(state.hidden_project_paths, Vec::<String>::new());
    assert_eq!(state.deleted_project_paths, vec!["/repo".to_owned()]);
    assert!(state.is_project_suppressed("/repo"));
}

#[test]
fn hiding_forgets_the_last_project() {
    let mut state = State::default();
    state.add_project_path("/repo".into());
    state.add_project_path("/repo".into());
    assert_eq!(state.project_paths.len(), 1);
    state.last_project = Some("/repo".to_owned());
    state.hide_project_path("/repo");
    assert_eq!(state.last_project, None);
    assert!(state.is_project_hidden("/repo"));
    assert!(!state.is_project_deleted("/repo"));
    assert!(state.is_project_suppressed("/repo"));
    assert!(!state.is_project_suppressed("/other"));
}

#[test]
fn threads_are_archived_and_hidden_by_their_identity() {
    let mut state = State::default();
    state.set_archived("pi", "a", true);
    state.set_archived("pi", "a", true);
    assert_eq!(state.archived_threads.len(), 1);
    assert!(state.is_archived("pi", "a"));
    assert!(!state.is_archived("codex", "a"));
    state.set_archived("pi", "a", false);
    assert!(!state.is_archived("pi", "a"));
    state.set_hidden("pi", "a", true);
    assert!(state.is_hidden("pi", "a"));
    assert!(!state.is_hidden("pi", "b"));
}

#[test]
fn unknown_versions_of_the_state_are_refused() {
    assert_eq!(State::load(None, "/s/state.json").unwrap().mappings.len(), 0);
    let mut state = State::default();
    state.version = 99;
    assert!(State::load(Some(state), "/s/state.json").is_err());
    assert!(State::load(Some(State::default()), "/s/state.json").is_ok());
}

#[test]
fn parses_structured_tmux_rows() {
    let line = "dotfiles\u{1f}100\u{1f}@2\u{1f}agents\u{1f}%2\u{1f}42\u{1f}codex\u{1f}/tmp/project\u{1f}codex\u{1f}thread-1\u{1f}Test chat";
    let window = parse_window(line).unwrap();
    assert_eq!(window.session, "dotfiles");
    assert_eq!(window.harness_id.as_deref(), Some(DEFAULT_HARNESS_ID));
    assert_eq!(window.thread_id.as_deref(), Some("thread-1"));
    assert_eq!(window.chat_title.as_deref(), Some("Test chat"));
}

#[test]
fn odd_fields_of_rows_have_stand_ins() {
    let window = parse_window("s\u{1f}x\u{1f}@2\u{1f}w\u{1f}%2\u{1f}-1\u{1f}c\u{1f}/d\u{1f}\u{1f}\u{1f}").unwrap();
    assert_eq!(window.session_last_attached, 0);
    assert_eq!(window.pane_pid, 0);
    assert_eq!(window.harness_id, None);
    assert_eq!(window.thread_id, None);
    assert_eq!(window.chat_title, None);
    let error = parse_window("a\u{1f}b").unwrap_err();
    assert!(matches!(error, InventoryError::Fields(2)));
    assert_eq!(
        error.message(),
        "unexpected tmux inventory row with 2 fields"
    );
}

#[test]
fn inventory_is_empty_without_a_server() {
    let tmux = client();
    assert!(tmux
        .inventory(false, "", "no server running on /tmp/tmux\n")
        .unwrap()
        .is_empty());
    assert!(tmux
        .inventory(false, "", "error: failed to connect to server")
        .unwrap()
        .is_empty());
    assert_eq!(
        tmux.inventory(false, "", " broken \n").unwrap_err().message(),
        "tmux inventory failed: broken"
    );
    let row = "s\u{1f}1\u{1f}@2\u{1f}w\u{1f}%2\u{1f}3\u{1f}c\u{1f}/d\u{1f}\u{1f}\u{1f}\n";
    let windows = tmux.inventory(true, &row.repeat(2), "").unwrap();
    assert_eq!(windows.len(), 2);
    assert_eq!(windows[1].pane_id, "%2");
    assert!(tmux.inventory(true, "a\n", "").is_err());
    let args = tmux.inventory_args();
    assert_eq!(&args[..3], ["list-panes", "-a", "-F"]);
    assert_eq!(args[3].matches('\u{1f}').count(), 10);
}

#[test]
fn makes_names_safe_and_unique() {
    assert_eq!(sanitize_name("Fix: API / Tests!"), "fix-api-tests");
    let existing = vec!["agent".to_owned(), "agent-2".to_owned()];
    assert_eq!(unique_name("agent", &existing), "agent-3");
}

#[test]
fn names_are_short_and_begin_with_a_letter_or_digit() {
    assert_eq!(sanitize_name("--A--b--"), "a-b");
    assert_eq!(sanitize_name("!!!"), "");
    assert_eq!(
        sanitize_name("abcdefghijklmnopqrstuvwxyz"),
        "abcdefghijklmnopqrstuvwx"
    );
    assert_eq!(sanitize_name("\u{130}x"), "i-x");
    assert_eq!(unique_name("agent", &Vec::new()), "agent");
    assert_eq!(unique_session_name(&[window()], "/tmp/repo"), "repo-2");
    assert_eq!(unique_session_name(&[], "/tmp/My Repo"), "my-repo");
    assert_eq!(unique_session_name(&[], "/"), "project");
}

#[test]
fn ignores_unmanaged_shells_in_agent_windows() {
    let client = Client::new(TmuxConfig::default(&names()));
    let mut window = Window {
        session: "repo".into(),
        session_last_attached: 0,
        window_id: "@1".into(),
        window_name: "agents".into(),
        pane_id: "%1".into(),
        pane_pid: 1,
        command: "zsh".into(),
        cwd: "/repo".into(),
        harness_id: None,
        thread_id: None,
        chat_title: None,
    };
    assert!(!client.is_agent(&window));

    window.chat_title = Some("Managed chat".into());
    assert!(client.is_agent(&window));
}

#[test]
fn shell_escapes_external_values() {
    assert_eq!(shell("a b; touch /tmp/no"), "'a b; touch /tmp/no'");
}

fn launch(inventory: &[Window]) -> AgentLaunch<'_> {
    AgentLaunch {
        inventory,
        cwd: "/repo",
        title: "My chat",
        harness_id: "pi",
        thread_id: Some("t 1"),
        cia_command: "/bin/my cia",
        agent_command: "pi",
        session_dir: Some("/s"),
    }
}

#[test]
fn agents_are_opened_beside_others_of_their_directory() {
    let tmux = client();
    let mut shell_pane = window();
    shell_pane.window_name = "zsh".into();
    let mut agents = window();
    agents.window_id = "@7".into();
    agents.window_name = "agents".into();
    let inventory = [shell_pane.clone(), agents];
    let plan = tmux.open_agent(&launch(&inventory), &no_paths());
    assert_eq!(
        plan.pane,
        vec!["split-window", "-d", "-P", "-F", "#{pane_id}", "-t", "@7", "-c", "/repo"]
    );
    assert_eq!(
        plan.command,
        "'/bin/my cia' run-thread --harness-id pi --thread-id 't 1' --cwd-hex 2f7265706f \
         --title-hex 4d792063686174 --agent-command-hex 7069 --session-dir-hex 2f73"
    );
    let inventory = [shell_pane];
    let plan = tmux.open_agent(&launch(&inventory), &no_paths());
    assert_eq!(
        plan.pane,
        vec![
            "new-window", "-d", "-P", "-F", "#{pane_id}", "-t", "repo", "-c", "/repo", "-n",
            "agents"
        ]
    );
    let plan = tmux.open_agent(&launch(&[]), &no_paths());
    assert_eq!(
        plan.pane,
        vec![
            "new-session", "-d", "-P", "-F", "#{pane_id}", "-s", "repo", "-c", "/repo", "-n",
            "agents"
        ]
    );
    let steps = tmux.start_agent("%9", &launch(&[]), "line");
    assert_eq!(steps.len(), 7);
    assert_eq!(steps[5], vec!["send-keys", "-t", "%9", "-l", "line"]);
    assert_eq!(steps[6], vec!["send-keys", "-t", "%9", "Enter"]);
}

#[test]
fn the_last_attached_session_is_preferred() {
    let tmux = client();
    let mut older = window();
    older.session = "a".into();
    older.session_last_attached = 1;
    let mut newer = window();
    newer.session = "c".into();
    newer.session_last_attached = 2;
    let mut same = window();
    same.session = "b".into();
    same.session_last_attached = 2;
    assert_eq!(
        tmux.session_for(&[older.clone(), newer.clone(), same], "/repo", &no_paths()),
        "b"
    );
    assert_eq!(tmux.session_for(&[older, newer], "/new", &no_paths()), "new");
}

#[test]
fn switching_zooms_the_pane() {
    let tmux = client();
    assert_eq!(
        tmux.switch_to(&window(), false),
        vec![vec!["attach-session", "-t", "repo"]]
    );
    assert_eq!(
        tmux.switch_to(&window(), true),
        vec![
            vec!["switch-client", "-t", "repo"],
            vec!["select-window", "-t", "@1"]
        ]
    );
    assert_eq!(
        tmux.zoom_query(&window()),
        vec!["display-message", "-p", "-t", "@1", "#{window_zoomed_flag}"]
    );
    assert_eq!(
        tmux.zoom(&window(), "1"),
        vec![
            vec!["resize-pane", "-Z", "-t", "@1"],
            vec!["select-pane", "-t", "%1"],
            vec!["resize-pane", "-Z", "-t", "%1"]
        ]
    );
    assert_eq!(tmux.zoom(&window(), "0").len(), 2);
    assert_eq!(tmux.kill_pane("%1"), vec!["kill-pane", "-t", "%1"]);
}

#[test]
fn tmux_failures_are_told() {
    let tmux = client();
    assert_eq!(tmux.output(true, " %5 \n", ""), Ok("%5".to_owned()));
    assert_eq!(
        tmux.output(false, "", " nope\n").unwrap_err(),
        "tmux command failed: nope"
    );
    assert!(tmux.run(true, "").is_ok());
    assert_eq!(
        tmux.run(false, "nope").unwrap_err(),
        "tmux command failed: nope"
    );
    assert_eq!(tmux.opened_pane(&[window()], "%1").unwrap().pane_id, "%1");
    assert_eq!(
        tmux.opened_pane(&[window()], "%2").unwrap_err(),
        "tmux created the agent pane but it was not discoverable"
    );
    let steps = tmux.rename_active_agent_thread("%1", "title");
    assert!(matches!(steps[0], Step::Sleep(1_000)));
    assert_eq!(steps.len(), 7);
    let links = CanonicalPaths {
        entries: vec![("/a".to_owned(), "/b".to_owned())],
    };
    assert_eq!(normalized_path("/a", &links), "/b");
    assert_eq!(normalized_path("/c", &links), "/c");
}

#[test]
fn names_of_sessions_have_no_capitals() {
    assert_eq!(sanitize_name("My Repo_2!"), "my-repo_2");
    assert_eq!(sanitize_name("--\u{c4}B--"), "b");
    assert_eq!(sanitize_name("\u{212a}elvin \u{130}x"), "kelvin-i-x");
    for character in '\0'..=char::MAX {
        let name = sanitize_name(character.encode_utf8(&mut [0; 4]));
        assert!(
            name.bytes()
                .all(|byte| byte.is_ascii_lowercase() || byte.is_ascii_digit() || byte == b'_'),
            "{character:?}"
        );
        assert_eq!(sanitize_name(&name), name);
    }
}

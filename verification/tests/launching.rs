use cia::agent::{CommandPaths, Harness, HarnessKind, Thread, DEFAULT_HARNESS_ID};
use cia::config::{
    config_path, expand_env_vars, home_dir, state_dir, state_path, ClaudeConfig, ClaudeNames,
    Config, Environment, TmuxConfig,
};
use cia::launch::{
    agent_args, existing_thread, find_pane, find_thread, harness_kind, looks_for_thread,
    open_thread_by_query, pi_session_dir, read_run_arguments, remember_opened, run_message,
    run_thread, select_harnesses, start_harnesses, thread_match_rank, Opening, RunArguments,
};
use cia::runner::{decode, encode, DecodeFault};
use cia::shell::shell_command;
use cia::state::State;
use cia::tmux::{CanonicalPaths, Client, Step, Window};

fn names() -> Option<ClaudeNames> {
    Some(ClaudeNames {
        id: "fifth".to_owned(),
        label: "Fifth Harness".to_owned(),
        command: "fifth-cli".to_owned(),
        agent_command: "fifth-agent".to_owned(),
    })
}

fn thread(name: Option<&str>, preview: &str) -> Thread {
    Thread {
        harness_id: DEFAULT_HARNESS_ID.to_owned(),
        id: "thread-1".to_owned(),
        name: name.map(str::to_owned),
        preview: preview.to_owned(),
        cwd: "/tmp/project".to_owned(),
        created_at: 1,
        updated_at: 2,
        recency_at: Some(2),
        source: Some("cli".to_owned()),
        git_info: None,
        context_remaining: None,
        archived: false,
        path: None,
    }
}

fn window(pane_id: &str) -> Window {
    Window {
        session: "repo".into(),
        session_last_attached: 0,
        window_id: "@1".into(),
        window_name: "agents".into(),
        pane_id: pane_id.into(),
        pane_pid: 1,
        command: "codex".into(),
        cwd: "/tmp/project".into(),
        harness_id: None,
        thread_id: None,
        chat_title: None,
    }
}

fn no_paths() -> CanonicalPaths {
    CanonicalPaths {
        entries: Vec::new(),
    }
}

fn environment(variables: &[(&str, &str)]) -> Environment {
    Environment {
        variables: variables
            .iter()
            .map(|(name, value)| (name.to_string(), value.to_string()))
            .collect(),
    }
}

fn harness(id: &str) -> Harness {
    Harness::basic(id, id, "x", id, None)
}

#[test]
fn ranks_thread_matches_by_specificity() {
    let named = thread(Some("Fix popup layout"), "preview text");
    assert_eq!(thread_match_rank(&named, "Fix popup layout"), Some(0));
    assert_eq!(thread_match_rank(&named, "fix popup layout"), Some(1));
    assert_eq!(thread_match_rank(&named, "popup"), Some(2));
    assert_eq!(thread_match_rank(&named, "preview"), Some(3));
    assert_eq!(thread_match_rank(&named, "missing"), None);

    let unnamed = thread(None, "First preview line");
    assert_eq!(thread_match_rank(&unnamed, "First preview line"), Some(0));
}

#[test]
fn blank_queries_match_nothing() {
    assert_eq!(thread_match_rank(&thread(Some("a"), "b"), "  "), None);
    assert_eq!(thread_match_rank(&thread(Some("a"), "b"), " a "), Some(0));
    assert_eq!(
        thread_match_rank(&thread(Some("\u{c4}RGER"), ""), "\u{e4}rger"),
        Some(1)
    );
}

#[test]
fn shell_command_execs_with_escaped_arguments() {
    let args = vec!["resume".into(), "thread; touch nope".into()];
    assert_eq!(
        shell_command("codex agent", &args),
        "exec 'codex agent' resume 'thread; touch nope'"
    );
}

#[test]
fn quotes_in_arguments_are_escaped() {
    let args = vec!["it's".to_owned(), "".to_owned()];
    let escaped = |value: &str| {
        shell_escape::unix::escape(std::borrow::Cow::Borrowed(value)).into_owned()
    };
    assert_eq!(
        shell_command("a", &args),
        format!("exec a {} {}", escaped("it's"), escaped(""))
    );
}

#[test]
fn pi_args_include_configured_session_dir() {
    assert_eq!(
        agent_args(
            HarnessKind::Pi,
            Some("thread-1"),
            "/repo",
            "Ignored",
            Some("/tmp/pi sessions")
        ),
        vec!["--session", "thread-1", "--session-dir", "/tmp/pi sessions"]
    );
    assert_eq!(
        agent_args(
            HarnessKind::Pi,
            None,
            "/repo",
            "Named chat",
            Some("/tmp/pi sessions")
        ),
        vec!["--name", "Named chat", "--session-dir", "/tmp/pi sessions"]
    );
}

#[test]
fn launch_only_harnesses_use_configured_command_without_args() {
    assert!(agent_args(HarnessKind::Basic, None, "/repo", "Chat", None).is_empty());
}

#[test]
fn codex_args_name_the_directory() {
    assert_eq!(
        agent_args(HarnessKind::Codex, Some("t"), "/repo", "Chat", Some("/s")),
        vec!["resume", "t", "-C", "/repo"]
    );
    assert_eq!(
        agent_args(HarnessKind::Codex, None, "/repo", "Chat", None),
        vec!["-C", "/repo"]
    );
    assert_eq!(harness_kind("codex"), HarnessKind::Codex);
    assert_eq!(harness_kind("pi"), HarnessKind::Pi);
    assert_eq!(harness_kind("opencode"), HarnessKind::Basic);
    assert!(looks_for_thread("codex", None));
    assert!(!looks_for_thread("codex", Some("t")));
    assert!(!looks_for_thread("pi", None));
}

#[test]
fn round_trips_arguments_with_shell_metacharacters() {
    let value = "Chat name; $(touch nope)";
    assert_eq!(decode(&encode(value), "test").unwrap(), value);
    assert!(encode(value)
        .chars()
        .all(|character| character.is_ascii_hexdigit()));
}

#[test]
fn encodes_bytes_as_two_digits() {
    assert_eq!(encode("a\u{e9}\n"), "61c3a90a");
    assert_eq!(decode("", "x").unwrap(), "");
    assert_eq!(decode("C3A9", "x").unwrap(), "\u{e9}");
}

#[test]
fn refuses_what_is_not_encoded() {
    let error = decode("abc", "title").unwrap_err();
    assert_eq!(error.fault, DecodeFault::Invalid);
    assert_eq!(error.message(), "invalid encoded title");
    assert_eq!(decode("zz", "t").unwrap_err().fault, DecodeFault::Invalid);
    let error = decode("a\u{e9}b", "title").unwrap_err();
    assert_eq!(error.fault, DecodeFault::NotText);
    assert_eq!(error.message(), "invalid hexadecimal argument");
    let error = decode("ff", "title").unwrap_err();
    assert_eq!(error.fault, DecodeFault::NotUtf8);
    assert_eq!(error.message(), "encoded title is not UTF-8");
}

#[test]
fn starts_what_can_be_started() {
    let started = start_harnesses(vec![
        Err("codex broke".to_owned()),
        Ok(harness("pi")),
    ])
    .unwrap();
    assert_eq!(started.len(), 1);
    assert_eq!(started[0].id, "pi");
    assert_eq!(
        start_harnesses(vec![Err("a".to_owned()), Err("b".to_owned())]).unwrap_err(),
        "no harnesses available: a; b"
    );
}

#[test]
fn selects_harnesses_by_name() {
    let all = || vec![harness("pi"), harness("codex")];
    assert_eq!(select_harnesses(all(), "all").unwrap().len(), 2);
    assert_eq!(select_harnesses(all(), "pi").unwrap()[0].id, "pi");
    assert_eq!(
        select_harnesses(all(), "cursor").unwrap_err(),
        "no harness matching `cursor`"
    );
}

#[test]
fn finds_the_best_match_of_a_project() {
    let mut elsewhere = thread(Some("popup"), "");
    elsewhere.cwd = "/tmp/other".to_owned();
    let threads = vec![
        elsewhere,
        thread(Some("Fix popup"), ""),
        thread(Some("popup"), ""),
    ];
    assert_eq!(
        find_thread(&threads, "/tmp/project", "popup", false, &no_paths()),
        Ok(2)
    );
    assert_eq!(
        find_thread(&threads, "/tmp/project", "nope", true, &no_paths()).unwrap_err(),
        "no archived thread matching `nope` in /tmp/project"
    );
    assert_eq!(
        find_thread(&threads, "/tmp/project", "nope", false, &no_paths()).unwrap_err(),
        "no thread matching `nope` in /tmp/project"
    );
    let links = CanonicalPaths {
        entries: vec![("/tmp/other".to_owned(), "/tmp/project".to_owned())],
    };
    assert_eq!(
        find_thread(&threads, "/tmp/project", "popup", false, &links),
        Ok(0)
    );
}

#[test]
fn digits_come_back_in_lower_case() {
    for digits in ["2F7461", "2f7461", "C3a9", "", "00fF"] {
        match decode(digits, "test") {
            Ok(text) => assert_eq!(encode(&text), digits.to_ascii_lowercase()),
            Err(error) => assert_eq!((digits, error.message().as_str()), ("00fF", "encoded test is not UTF-8")),
        }
    }
    assert_eq!(encode(&decode("+f+0", "test").unwrap()), "0f00");
}

#[test]
fn the_most_recent_of_equal_matches_is_found() {
    let used = |name: &str, recency: i64| Thread {
        recency_at: Some(recency),
        ..thread(Some(name), "")
    };
    let find = |threads: Vec<Thread>| {
        find_thread(&threads, "/tmp/project", "popup", false, &no_paths())
    };
    assert_eq!(find(vec![used("popup", 1), used("popup", 2)]), Ok(1));
    assert_eq!(find(vec![used("popup", 2), used("popup", 1)]), Ok(0));
    assert_eq!(find(vec![used("popup", 2), used("popup", 2)]), Ok(0));
    assert_eq!(
        find(vec![used("Fix popup", 9), used("popup", 1), used("Popup", 3)]),
        Ok(1)
    );
    assert_eq!(
        find(vec![used("A popup", 4), used("The popup", 7), used("My popup", 6)]),
        Ok(1)
    );
    let threads = vec![used("popup", 1), used("popup", 2)];
    match open_thread_by_query(
        &vec![harness("codex")],
        &threads,
        &Vec::new(),
        "/tmp/project",
        "popup",
        false,
        &no_paths(),
    ) {
        Ok(Opening::Launch { thread, harness }) => assert_eq!((thread, harness), (1, 0)),
        other => panic!("{other:?}"),
    }
}

#[test]
fn opens_a_match_in_its_pane_or_a_new_one() {
    let harnesses = vec![harness("pi"), harness("codex")];
    let threads = vec![thread(Some("popup"), "")];
    let mut live = window("%2");
    live.harness_id = Some("codex".to_owned());
    live.thread_id = Some("thread-1".to_owned());
    let open = |windows: Vec<Window>, harnesses: &Vec<Harness>| {
        open_thread_by_query(
            harnesses,
            &threads,
            &windows,
            "/tmp/project",
            "popup",
            false,
            &no_paths(),
        )
    };
    match open(vec![window("%1"), live.clone()], &harnesses) {
        Ok(Opening::Switch(found)) => assert_eq!(found.pane_id, "%2"),
        other => panic!("{other:?}"),
    }
    match open(vec![window("%1")], &harnesses) {
        Ok(Opening::Launch { thread, harness }) => assert_eq!((thread, harness), (0, 1)),
        other => panic!("{other:?}"),
    }
    assert_eq!(
        open(Vec::new(), &vec![harness("pi")]).unwrap_err(),
        "matched thread belongs to an unavailable harness"
    );
    assert!(find_pane(&vec![live], "codex", "other").is_none());
}

#[test]
fn remembers_the_pane_that_was_opened() {
    let mut state = State::default();
    remember_opened(&mut state, &thread(Some("popup"), ""), &window("%1"));
    assert_eq!(state.last_project.as_deref(), Some("/tmp/project"));
    assert_eq!(state.mappings.len(), 1);
    assert_eq!(state.mappings[0].thread_id, "thread-1");
    assert_eq!(state.mappings[0].pane_id.as_deref(), Some("%1"));
}

#[test]
fn only_pi_has_a_session_directory() {
    let mut config = Config::default(&names());
    config.pi.session_dir = Some("/s".to_owned());
    assert_eq!(pi_session_dir(&config, "pi"), Some("/s"));
    assert_eq!(pi_session_dir(&config, "codex"), None);
}

#[test]
fn resumes_a_thread_of_the_same_name_and_directory() {
    let threads = vec![thread(Some("other"), ""), thread(Some("chat"), "")];
    assert_eq!(
        existing_thread(&threads, "chat", "/tmp/project", &no_paths()),
        Some("thread-1".to_owned())
    );
    assert_eq!(
        existing_thread(&threads, "chat", "/elsewhere", &no_paths()),
        None
    );
}

#[test]
fn plans_the_run_of_a_new_chat() {
    let tmux = Client::new(TmuxConfig::default(&names()));
    let plan = run_thread(
        &tmux, "codex", None, None, Some("%1"), "/repo", "My chat", "codex", None,
    );
    assert_eq!(plan.command_line, "exec codex -C /repo");
    assert_eq!(
        plan.marks,
        vec![
            vec!["set-option", "-p", "-t", "%1", "@cia_harness", "codex"],
            vec!["set-option", "-p", "-t", "%1", "@cia_chat_title", "My chat"],
            vec!["select-pane", "-t", "%1", "-T", "My chat"],
        ]
    );
    let mut runs = 0;
    let mut slept = 0;
    for step in &plan.rename {
        match step {
            Step::Sleep(time) => slept += time,
            Step::Run(args) => {
                assert_eq!(args[0], "send-keys");
                runs += 1;
            }
        }
    }
    assert_eq!((runs, slept), (4, 1_400));
}

#[test]
fn plans_the_run_of_a_known_chat() {
    let tmux = Client::new(TmuxConfig::default(&names()));
    let plan = run_thread(
        &tmux,
        "pi",
        Some("t"),
        None,
        Some("%1"),
        "/repo",
        "My chat",
        "pi",
        Some("/s"),
    );
    assert_eq!(plan.command_line, "exec pi --session t --session-dir /s");
    assert_eq!(plan.marks.len(), 5);
    assert_eq!(
        plan.marks[1],
        vec!["set-option", "-p", "-t", "%1", "@cia_thread_id", "t"]
    );
    assert!(plan.rename.is_empty());
    let outside = run_thread(
        &tmux, "codex", None, Some("e"), None, "/repo", "My chat", "codex", None,
    );
    assert!(outside.marks.is_empty());
    assert!(outside.rename.is_empty());
    assert_eq!(outside.command_line, "exec codex resume e -C /repo");
    assert_eq!(run_message("codex"), "failed to run codex through zsh");
}

fn arguments() -> RunArguments {
    RunArguments {
        thread_id: None,
        cwd_hex: encode("/tmp/a b"),
        title_hex: encode("A; title"),
        harness_id: None,
        agent_command_hex: Some(encode("codex")),
        codex_command_hex: None,
        session_dir_hex: None,
    }
}

#[test]
fn launch_is_read_back() {
    let request = read_run_arguments(arguments()).unwrap();
    assert_eq!(request.cwd, "/tmp/a b");
    assert_eq!(request.title, "A; title");
    assert_eq!(request.harness_id, "codex");
    assert_eq!(request.agent_command, "codex");
    let mut older = arguments();
    older.agent_command_hex = None;
    older.codex_command_hex = Some(encode("old codex"));
    older.session_dir_hex = Some(encode("/s"));
    older.harness_id = Some("pi".to_owned());
    let request = read_run_arguments(older).unwrap();
    assert_eq!(request.agent_command, "old codex");
    assert_eq!(request.session_dir.as_deref(), Some("/s"));
    assert_eq!(request.harness_id, "pi");
}

#[test]
fn refuses_incomplete_launches() {
    let mut without = arguments();
    without.agent_command_hex = None;
    assert_eq!(
        read_run_arguments(without).unwrap_err(),
        "missing agent command"
    );
    let mut broken = arguments();
    broken.cwd_hex = "1".to_owned();
    assert_eq!(
        read_run_arguments(broken).unwrap_err(),
        "invalid encoded working directory"
    );
    let mut broken = arguments();
    broken.session_dir_hex = Some("zz".to_owned());
    assert_eq!(
        read_run_arguments(broken).unwrap_err(),
        "invalid encoded session directory"
    );
}

#[test]
fn expands_environment_variables_in_config_strings() {
    let env = environment(&[
        ("CIA_TEST_COLOR_HEX", "#123456"),
        ("CIA_TEST_COMMAND", "wrapped-codex"),
    ]);
    let mut cfg = Config::default(&names());
    cfg.codex.command = "$CIA_TEST_COMMAND".to_owned();
    cfg.theme.status_open = "${CIA_TEST_COLOR_HEX}".to_owned();
    cfg.expand_env(&env);
    assert_eq!(cfg.codex.command, "wrapped-codex");
    assert_eq!(cfg.theme.status_open, "#123456");
}

#[test]
fn expansion_follows_the_shell_only_so_far() {
    let env = environment(&[("A", "one"), ("A_1", "two")]);
    assert_eq!(expand_env_vars("x$A y", &env), "xone y");
    assert_eq!(expand_env_vars("$A_1$A", &env), "twoone");
    assert_eq!(expand_env_vars("${A}_1", &env), "one_1");
    assert_eq!(expand_env_vars("${A", &env), "one");
    assert_eq!(expand_env_vars("$$A", &env), "$A");
    assert_eq!(expand_env_vars("$", &env), "$");
    assert_eq!(expand_env_vars("$1", &env), "$1");
    assert_eq!(expand_env_vars("$MISSING.", &env), ".");
    assert_eq!(expand_env_vars("plain", &env), "plain");
}

#[test]
fn a_harness_without_names_is_not_offered() {
    let cfg = Config::load(None, &None, &environment(&[]));
    assert_eq!(cfg.claude.enabled, Some(false));
    assert_eq!(
        cfg.tmux.agent_commands,
        vec!["pi", "codex", "cursor", "opencode"]
    );
    let paths = CommandPaths {
        claude: None,
        codex: None,
        cursor: None,
        opencode: None,
        pi: None,
    };
    let ids: Vec<String> = Harness::start_all(&cfg, &paths)
        .into_iter()
        .map(|harness| harness.id)
        .collect();
    assert_eq!(ids, vec!["codex", "cursor", "opencode", "pi"]);
    let claude = ClaudeConfig::merged(&None, Some("x".to_owned()), None, None, Some(true));
    assert_eq!((claude.command.as_str(), claude.enabled), ("x", Some(false)));
}

#[test]
fn settings_that_are_not_given_have_defaults() {
    let claude = ClaudeConfig::merged(&names(), None, None, Some("Given".to_owned()), Some(false));
    assert_eq!((claude.id.as_str(), claude.command.as_str()), ("fifth", "fifth-cli"));
    assert_eq!((claude.label.as_str(), claude.enabled), ("Given", Some(false)));
    assert_eq!(claude.icon, "\u{f4f5}");
    let tmux = TmuxConfig::merged(
        &names(),
        Some("/bin/tmux".to_owned()),
        None,
        Some(vec!["bots".to_owned()]),
        None,
    );
    assert_eq!(tmux.command, "/bin/tmux");
    assert_eq!(tmux.agent_commands[1], "fifth-agent");
    assert_eq!(tmux.agent_commands.len(), 5);
    assert_eq!(tmux.agent_window_names, vec!["bots"]);
    assert_eq!(tmux.new_window_prefix, "agent:");
}

#[test]
fn configuration_has_defaults() {
    let cfg = Config::load(None, &names(), &environment(&[]));
    assert!(!cfg.ui.archived_default);
    assert_eq!(cfg.codex.command, "codex");
    assert_eq!(cfg.codex.transcript_turns, 3);
    assert_eq!(cfg.pi.command, "pi");
    assert_eq!(cfg.claude.id, "fifth");
    assert_eq!(cfg.claude.command, "fifth-cli");
    assert_eq!(cfg.claude.icon, "\u{f4f5}");
    assert_eq!(cfg.claude.label, "Fifth Harness");
    assert_eq!(cfg.cursor.command, "cursor");
    assert_eq!(cfg.cursor.icon, "\u{f02d9}");
    assert_eq!(cfg.opencode.command, "opencode");
    assert_eq!(cfg.opencode.icon, "\u{f405}");
    assert_eq!(cfg.ui.archive_icon, "\u{f411}");
    assert_eq!(cfg.ui.default_harness, "pi");
    assert_eq!(
        cfg.tmux.agent_commands,
        vec!["pi", "fifth-agent", "codex", "cursor", "opencode"]
    );
    let theme = Config::default(&names()).theme;
    assert_eq!(theme.status_projects, "#e6e6e6");
    assert_eq!(theme.title_focused, "#d2fd9d");
    assert_eq!(theme.title_unfocused, "#5c617d");
    assert_eq!(theme.border_focused, "#000000");
    assert_eq!(theme.border_unfocused, "#5c617d");
    assert_eq!(theme.status_new, "#80d7fe");
    assert_eq!(theme.status_new_chat, "#9bd5a5");
    assert_eq!(theme.preview_codex, "#00ffff");
    assert_eq!(theme.preview_pi, "$MAGENTA_HEX");
    assert_eq!(theme.preview_title, "$CYAN_HEX");
    assert_eq!(theme.new_chat_unfocused, "$BRIGHTBLACK_HEX");
    assert_eq!(theme.new_chat_pi, "$MAGENTA_HEX");
    assert_eq!(theme.new_chat_claude, "$BRIGHTYELLOW_HEX");
    assert_eq!(theme.new_chat_codex, "$BRIGHTMAGENTA_HEX");
    assert_eq!(theme.new_chat_cursor, "$BLACK_HEX");
    assert_eq!(theme.new_chat_opencode, "$WHITE_HEX");
    assert_eq!(theme.new_chat_path, "$BLUE_HEX");
    assert_eq!(theme.new_chat_executable, "$BRIGHTGREEN_HEX");
}

#[test]
fn files_are_found_by_the_environment() {
    let env = environment(&[("HOME", "/home/me")]);
    assert_eq!(home_dir(&env), "/home/me");
    assert_eq!(config_path(&env), "/home/me/.config/cia/config.toml");
    assert_eq!(state_dir(&env), "/home/me/.local/state/cia");
    assert_eq!(state_path(&env), "/home/me/.local/state/cia/state.json");
    let env = environment(&[
        ("HOME", "/home/me"),
        ("XDG_CONFIG_HOME", "/c"),
        ("XDG_STATE_HOME", "/s"),
    ]);
    assert_eq!(config_path(&env), "/c/cia/config.toml");
    assert_eq!(state_path(&env), "/s/cia/state.json");
    assert_eq!(home_dir(&environment(&[])), ".");
}

use cia::agent::{
    command_path, command_path_script, CommandPaths, ContextRemaining, GitInfo, Harness,
    HarnessKind, Message, Thread, DEFAULT_HARNESS_ID, PI_HARNESS_ID,
};
use cia::codex::{
    extract_messages, initialize_params, message_text, no_params, read_answer, read_params,
    thread_params, Answer, Client, Deletion, Listing, Page,
};
use cia::config::{ClaudeNames, Config};
use cia::json::Json;

fn names() -> Option<ClaudeNames> {
    Some(ClaudeNames {
        id: "fifth".to_owned(),
        label: "Fifth Harness".to_owned(),
        command: "fifth-cli".to_owned(),
        agent_command: "fifth-agent".to_owned(),
    })
}

fn thread(name: Option<&str>, preview: &str) -> Thread {
    Thread {
        harness_id: DEFAULT_HARNESS_ID.to_owned(),
        id: "1".to_owned(),
        name: name.map(str::to_owned),
        preview: preview.to_owned(),
        cwd: "/tmp".to_owned(),
        created_at: 1,
        updated_at: 2,
        recency_at: None,
        source: Some("cli".to_owned()),
        git_info: None,
        context_remaining: None,
        archived: false,
        path: None,
    }
}

fn text(value: &str) -> Json {
    Json::Text(value.to_owned())
}

fn object(entries: Vec<(&str, Json)>) -> Json {
    Json::Object(
        entries
            .into_iter()
            .map(|(key, value)| (key.to_owned(), value))
            .collect(),
    )
}

fn text_part(value: &str) -> Json {
    object(vec![("type", text("text")), ("text", text(value))])
}

fn two_turns() -> Json {
    object(vec![(
        "thread",
        object(vec![(
            "turns",
            Json::List(vec![
                object(vec![(
                    "items",
                    Json::List(vec![object(vec![
                        ("type", text("userMessage")),
                        ("content", Json::List(vec![text_part("old")])),
                    ])]),
                )]),
                object(vec![(
                    "items",
                    Json::List(vec![
                        object(vec![
                            ("type", text("userMessage")),
                            ("content", Json::List(vec![text_part("question")])),
                        ]),
                        object(vec![
                            ("type", text("commandExecution")),
                            ("command", text("pwd")),
                        ]),
                        object(vec![
                            ("type", text("agentMessage")),
                            ("text", text("answer")),
                        ]),
                    ]),
                )]),
            ]),
        )]),
    )])
}

#[test]
fn extracts_only_recent_user_and_agent_messages() {
    let messages = extract_messages(&two_turns(), 1);
    assert_eq!(
        messages,
        vec![
            Message {
                role: "You".into(),
                text: "question".into()
            },
            Message {
                role: "Codex".into(),
                text: "answer".into()
            }
        ]
    );
}

#[test]
fn lists_all_turns_where_the_limit_is_larger() {
    let messages = extract_messages(&two_turns(), 5);
    let texts: Vec<&str> = messages.iter().map(|message| message.text.as_str()).collect();
    assert_eq!(texts, vec!["old", "question", "answer"]);
    assert!(extract_messages(&two_turns(), 0).is_empty());
    assert!(extract_messages(&Json::Null, 3).is_empty());
}

#[test]
fn leaves_out_blank_messages() {
    let turns = object(vec![(
        "thread",
        object(vec![(
            "turns",
            Json::List(vec![object(vec![(
                "items",
                Json::List(vec![
                    object(vec![("type", text("agentMessage")), ("text", text(" \n"))]),
                    object(vec![("type", text("agentMessage"))]),
                    object(vec![
                        ("type", text("userMessage")),
                        (
                            "content",
                            Json::List(vec![text_part("one"), Json::Null, text_part("two")]),
                        ),
                    ]),
                ]),
            )])]),
        )]),
    )]);
    let messages = extract_messages(&turns, 1);
    assert_eq!(messages.len(), 1);
    assert_eq!(messages[0].text, "one\ntwo");
    assert_eq!(message_text(&Json::Null), None);
}

#[test]
fn thread_title_falls_back_to_preview() {
    let thread = thread(None, "First line\nSecond");
    assert_eq!(thread.title(), "First line");
}

#[test]
fn thread_without_name_and_preview_is_untitled() {
    assert_eq!(thread(None, "").title(), "Untitled chat");
    assert_eq!(thread(Some(""), "\nSecond").title(), "Untitled chat");
    assert_eq!(thread(Some("Named"), "First").title(), "Named");
    assert_eq!(thread(Some("Named"), "").recency(), 2);
    assert!(thread(Some("Named"), "").storage_paths().is_empty());
    let mut stored = thread(Some("Named"), "");
    stored.path = Some("/tmp/chat.jsonl".to_owned());
    stored.recency_at = Some(7);
    assert_eq!(stored.storage_paths(), vec!["/tmp/chat.jsonl"]);
    assert_eq!(stored.recency(), 7);
}

#[test]
fn particulars_have_stand_ins() {
    let mut chat = thread(None, "");
    assert_eq!(chat.source_label(), "cli");
    assert_eq!(chat.branch_label(), "no branch");
    chat.source = None;
    chat.git_info = Some(GitInfo {
        branch: Some("main".to_owned()),
    });
    assert_eq!(chat.source_label(), "unknown");
    assert_eq!(chat.branch_label(), "main");
}

fn in_doubles(used: u64, max: u64) -> u64 {
    if max == 0 {
        return 0;
    }
    let remaining = max.saturating_sub(used);
    ((remaining as f64 / max as f64) * 100.0).round() as u64
}

#[test]
fn percent_left_is_rounded_as_doubles_are() {
    let percent = |used_tokens: u64, max_tokens: u64| {
        ContextRemaining {
            used_tokens,
            max_tokens,
        }
        .percent_left()
    };
    assert_eq!(percent(0, 0), 0);
    assert_eq!(percent(5, 0), 0);
    assert_eq!(percent(0, 200_000), 100);
    assert_eq!(percent(200_000, 200_000), 0);
    assert_eq!(percent(300_000, 200_000), 0);
    assert_eq!(percent(50_000, 200_000), 75);
    assert_eq!(percent(171, 200), 14);
    assert_eq!(percent(199, 200), 1);
    for max in 1..300 {
        for used in 0..=max {
            assert_eq!(percent(used, max), in_doubles(used, max), "{used} of {max}");
        }
    }
    let mut state: u64 = 0x9e37_79b9_7f4a_7c15;
    for _ in 0..20_000 {
        state ^= state << 13;
        state ^= state >> 7;
        state ^= state << 17;
        let max = state >> (state % 60);
        let used = state.rotate_left(21) >> (state % 57);
        assert_eq!(percent(used, max), in_doubles(used, max), "{used} of {max}");
    }
    for (used, max) in [
        (1, u64::MAX),
        (u64::MAX, u64::MAX),
        (u64::MAX - 1, u64::MAX),
        (1 << 63, u64::MAX),
        ((1 << 53) + 1, (1 << 54) + 3),
    ] {
        assert_eq!(percent(used, max), in_doubles(used, max), "{used} of {max}");
    }
}

#[test]
fn offers_harnesses_in_order() {
    let paths = CommandPaths {
        claude: None,
        codex: Some("/bin/codex".to_owned()),
        cursor: None,
        opencode: None,
        pi: None,
    };
    let mut config = Config::default(&names());
    let ids: Vec<String> = Harness::start_all(&config, &paths)
        .into_iter()
        .map(|harness| harness.id)
        .collect();
    assert_eq!(ids, vec!["fifth", "codex", "cursor", "opencode", "pi"]);
    config.claude.enabled = Some(false);
    config.pi.enabled = Some(false);
    let harnesses = Harness::start_all(&config, &paths);
    let ids: Vec<&str> = harnesses.iter().map(|harness| harness.id.as_str()).collect();
    assert_eq!(ids, vec!["codex", "cursor", "opencode"]);
    assert_eq!(harnesses[0].kind, HarnessKind::Codex);
    assert!(harnesses[0].command_available());
    assert!(!harnesses[1].command_available());
    assert_eq!(
        harnesses[1].missing_cli_message(),
        "Cursor cli tool not found - check install in $PATH"
    );
    assert_eq!(
        Harness::start_codex(&config, None).kind,
        HarnessKind::Basic
    );
    assert_eq!(Harness::start_pi(&config, None).kind, HarnessKind::Pi);
}

#[test]
fn harness_owns_the_chats_that_it_lists() {
    let pi = Harness::start_pi(&Config::default(&names()), None);
    let owned = pi.list_threads(vec![thread(Some("a"), ""), thread(Some("b"), "")]);
    assert_eq!(owned.len(), 2);
    assert!(owned.iter().all(|thread| thread.harness_id == PI_HARNESS_ID));
    assert_eq!(owned[1].name.as_deref(), Some("b"));
}

#[test]
fn command_is_found_by_its_first_line() {
    assert_eq!(command_path_script("codex"), "command -v codex");
    assert_eq!(command_path_script("my agent"), "command -v 'my agent'");
    assert_eq!(
        command_path(true, b" /usr/bin/codex \nmore\n".to_vec()),
        Some("/usr/bin/codex".to_owned())
    );
    assert_eq!(command_path(false, b"/usr/bin/codex\n".to_vec()), None);
    assert_eq!(command_path(true, b"\n/usr/bin/codex\n".to_vec()), None);
    assert_eq!(command_path(true, Vec::new()), None);
    assert_eq!(command_path(true, vec![0xff, b'a']), None);
}

#[test]
fn requests_are_numbered_and_written_as_json() {
    let mut client = Client::start();
    let first = client.request("initialize", initialize_params("1.2.3"));
    let second = client.request("thread/read", read_params("t \"1\""));
    assert_eq!((first.id, second.id), (1, 2));
    let value: serde_json::Value = serde_json::from_str(&first.line).unwrap();
    assert_eq!(value["method"], "initialize");
    assert_eq!(value["id"], 1);
    assert_eq!(value["params"]["clientInfo"]["name"], "cia");
    assert_eq!(value["params"]["clientInfo"]["title"], "CIA");
    assert_eq!(value["params"]["clientInfo"]["version"], "1.2.3");
    let value: serde_json::Value = serde_json::from_str(&second.line).unwrap();
    assert_eq!(value["params"]["threadId"], "t \"1\"");
    assert_eq!(value["params"]["includeTurns"], true);
    let notification = client.send_notification("initialized", no_params());
    assert_eq!(notification, "{\"method\":\"initialized\",\"params\":{}}");
    assert_eq!(
        Client::server_args(),
        vec!["app-server", "--listen", "stdio://"]
    );
}

#[test]
fn answers_are_told_from_other_lines() {
    let mut client = Client::start();
    let request = client.request("thread/list", no_params());
    assert!(matches!(
        client.answer(&request, "thread/list", "{\"method\":\"note\"}\n"),
        Answer::Other
    ));
    assert!(matches!(
        client.answer(&request, "thread/list", "{\"id\":2,\"result\":{}}"),
        Answer::Other
    ));
    match client.answer(&request, "thread/list", " {\"id\":1,\"result\":\"done\"}\n") {
        Answer::Done(value) => assert_eq!(value.as_str(), Some("done")),
        other => panic!("{other:?}"),
    }
    match client.answer(&request, "thread/list", "{\"id\":1,\"error\":{\"code\":-5}}") {
        Answer::Failed(message) => {
            assert_eq!(message, "Codex thread/list failed: {\"code\":-5}")
        }
        other => panic!("{other:?}"),
    }
    match client.answer(&request, "thread/list", "{\"id\":1}") {
        Answer::Failed(message) => assert_eq!(message, "Codex response omitted result"),
        other => panic!("{other:?}"),
    }
    match client.answer(&request, "thread/list", " not json \n") {
        Answer::Failed(message) => {
            assert_eq!(message, "invalid JSON from Codex app-server: not json")
        }
        other => panic!("{other:?}"),
    }
}

#[test]
fn answers_follow_from_what_a_line_holds() {
    let value = object(vec![("id", Json::Number(7)), ("result", Json::Bool(true))]);
    match read_answer(7, "m", "line", Some(value), None) {
        Answer::Done(Json::Bool(done)) => assert!(done),
        other => panic!("{other:?}"),
    }
    let value = object(vec![("id", Json::Number(7)), ("result", Json::Null)]);
    match read_answer(7, "m", "line", Some(value), Some("broken".to_owned())) {
        Answer::Failed(message) => assert_eq!(message, "Codex m failed: broken"),
        other => panic!("{other:?}"),
    }
    let value = object(vec![("id", text("7")), ("result", Json::Null)]);
    assert!(matches!(
        read_answer(7, "m", "line", Some(value), None),
        Answer::Other
    ));
}

#[test]
fn other_numbers_are_kept_as_they_are_written() {
    let mut client = Client::start();
    let request = client.request("m", no_params());
    let line = "{\"id\":1,\"result\":[-3,1.5,null,true]}";
    match client.answer(&request, "m", line) {
        Answer::Done(value) => {
            let again = client.send_notification("m", value);
            assert_eq!(again, "{\"method\":\"m\",\"params\":[-3,1.5,null,true]}");
        }
        other => panic!("{other:?}"),
    }
}

#[test]
fn lists_are_read_page_by_page() {
    let mut client = Client::start();
    let mut listing = Listing::new(true);
    let request = client.request("thread/list", listing.params());
    let value: serde_json::Value = serde_json::from_str(&request.line).unwrap();
    assert_eq!(value["params"]["archived"], true);
    assert_eq!(value["params"]["cursor"], serde_json::Value::Null);
    assert_eq!(value["params"]["limit"], 100);
    assert_eq!(value["params"]["sortKey"], "recency_at");
    assert_eq!(value["params"]["sortDirection"], "desc");
    listing.add_page(Page {
        data: vec![thread(Some("a"), "")],
        next_cursor: Some("more".to_owned()),
    });
    assert!(!listing.complete);
    let request = client.request("thread/list", listing.params());
    let value: serde_json::Value = serde_json::from_str(&request.line).unwrap();
    assert_eq!(value["params"]["cursor"], "more");
    listing.add_page(Page {
        data: vec![thread(Some("b"), "")],
        next_cursor: None,
    });
    assert!(listing.complete);
    assert_eq!(listing.threads.len(), 2);
    assert!(listing.threads.iter().all(|thread| thread.archived));
}

#[test]
fn deletion_takes_a_missing_thread_out_of_the_archive() {
    let missing = Some("Codex thread/delete failed: no rollout found".to_owned());
    assert_eq!(Deletion::Delete.method(), "thread/delete");
    assert_eq!(Deletion::Delete.next(None), Ok(None));
    assert_eq!(
        Deletion::Delete.next(missing.clone()),
        Ok(Some(Deletion::Unarchive))
    );
    assert_eq!(Deletion::Unarchive.method(), "thread/unarchive");
    assert_eq!(
        Deletion::Unarchive.next(None),
        Ok(Some(Deletion::DeleteAgain))
    );
    assert_eq!(Deletion::DeleteAgain.next(None), Ok(None));
    assert_eq!(
        Deletion::DeleteAgain.next(missing.clone()),
        Err(missing.unwrap())
    );
    assert_eq!(
        Deletion::Delete.next(Some("other".to_owned())),
        Err("other".to_owned())
    );
    assert_eq!(
        Client::exit_message("m"),
        "Codex app-server exited while handling m"
    );
    assert_eq!(
        Client::start_message("codex"),
        "failed to start `codex app-server`"
    );
    let mut client = Client::start();
    let request = client.request("thread/delete", thread_params("t"));
    let value: serde_json::Value = serde_json::from_str(&request.line).unwrap();
    assert_eq!(value["params"]["threadId"], "t");
}

use cia::agent::{Message, PI_HARNESS_ID};
use cia::config::Environment;
use cia::json::Json;
use cia::outside::delete_chat_files;
use cia::pi::{
    default_session_dir, first_line, is_archived_path, is_session_file, message_text, parse_session,
    parse_thread, session_lines, Client, PiMessage, Record, Session,
};

fn text(value: &serde_json::Value, key: &str) -> Option<String> {
    value.get(key).and_then(|value| value.as_str()).map(str::to_owned)
}

fn content(value: &serde_json::Value) -> Json {
    match value {
        serde_json::Value::Null => Json::Null,
        serde_json::Value::Bool(flag) => Json::Bool(*flag),
        serde_json::Value::Number(number) => Json::Number(number.as_u64().unwrap()),
        serde_json::Value::String(text) => Json::Text(text.clone()),
        serde_json::Value::Array(items) => Json::List(items.iter().map(content).collect()),
        serde_json::Value::Object(entries) => Json::Object(
            entries
                .iter()
                .map(|(key, value)| (key.clone(), content(value)))
                .collect(),
        ),
    }
}

fn record(line: &str) -> Record {
    let value: serde_json::Value = serde_json::from_str(line).unwrap();
    Record {
        kind: text(&value, "type").unwrap(),
        timestamp: text(&value, "timestamp"),
        id: text(&value, "id"),
        cwd: text(&value, "cwd"),
        name: text(&value, "name"),
        display_name: text(&value, "displayName"),
        message: value.get("message").map(|message| PiMessage {
            role: text(message, "role").unwrap(),
            content: message.get("content").map(content),
        }),
    }
}

fn read(source: &str) -> Session {
    let records: Vec<Record> = session_lines(source)
        .iter()
        .map(|line| record(line))
        .collect();
    parse_session(&records, 5)
}

const SESSION: &str = r#"{"type":"session","version":3,"id":"pi-1","timestamp":"2026-06-27T20:26:07.719Z","cwd":"/tmp/repo"}
{"type":"message","timestamp":"2026-06-27T20:29:49.237Z","message":{"role":"user","content":[{"type":"text","text":"What files are here?\nSecond"}]}}
{"type":"message","timestamp":"2026-06-27T20:29:51.356Z","message":{"role":"assistant","content":[{"type":"toolCall","name":"bash"}]}}
{"type":"message","timestamp":"2026-06-27T20:29:52.979Z","message":{"role":"assistant","content":[{"type":"text","text":"Files here."}]}}
"#;

fn client(directory: &str) -> Client {
    Client::new(
        Some(directory.to_owned()),
        &Environment {
            variables: Vec::new(),
        },
    )
}

#[test]
fn reads_pi_session_jsonl() {
    let thread = parse_thread("/s/session.jsonl".to_owned(), read(SESSION)).unwrap();
    assert_eq!(thread.harness_id, PI_HARNESS_ID);
    assert_eq!(thread.id, "pi-1");
    assert_eq!(thread.cwd, "/tmp/repo");
    assert_eq!(thread.title(), "What files are here?");
    assert_eq!(thread.preview, "Files here.");

    let session = read(SESSION);
    assert_eq!(
        session.messages,
        vec![
            Message {
                role: "You".into(),
                text: "What files are here?\nSecond".into()
            },
            Message {
                role: "Pi".into(),
                text: "Files here.".into()
            }
        ]
    );
}

#[test]
fn favors_pi_session_info_name_over_first_user_message() {
    let source = r#"{"type":"session","version":3,"id":"pi-1","timestamp":"2026-06-27T20:26:07.719Z","cwd":"/tmp/repo"}
{"type":"session_info","id":"event-1","parentId":null,"timestamp":"2026-06-27T20:26:07.719Z","name":"clean-chat-title"}
{"type":"message","timestamp":"2026-06-27T20:29:49.237Z","message":{"role":"user","content":[{"type":"text","text":"This is a very long first prompt that should not be used when a session name exists."}]}}
"#;
    let thread = parse_thread("/s/session.jsonl".to_owned(), read(source)).unwrap();
    assert_eq!(thread.id, "pi-1");
    assert_eq!(thread.name.as_deref(), Some("clean-chat-title"));
    assert_eq!(thread.title(), "clean-chat-title");
}

#[test]
fn session_times_come_from_its_records() {
    let session = read(SESSION);
    assert_eq!(session.created_at, 5);
    assert_eq!(session.updated_at, 1_782_592_192);
    let records = vec![record(
        r#"{"type":"session","id":"a","timestamp":"1970-01-01T00:00:09+00:00"}"#,
    )];
    let session = parse_session(&records, 0);
    assert_eq!((session.created_at, session.updated_at), (9, 9));
    let records = vec![record(r#"{"type":"session","id":"a","timestamp":"noon"}"#)];
    let session = parse_session(&records, 7);
    assert_eq!((session.created_at, session.updated_at), (7, 7));
}

#[test]
fn session_without_an_identifier_is_no_thread() {
    assert!(parse_thread("/s/session.jsonl".to_owned(), read("\n  \n")).is_none());
    let thread = parse_thread("/s/session.jsonl".to_owned(), read(r#"{"type":"session","id":"a"}"#)).unwrap();
    assert_eq!(thread.cwd, ".");
    assert_eq!(thread.title(), "Untitled chat");
    assert_eq!(thread.recency_at, Some(5));
    assert_eq!(thread.source.as_deref(), Some("pi"));
    assert_eq!(thread.path.as_deref(), Some("/s/session.jsonl"));
}

#[test]
fn only_texts_of_messages_count() {
    assert_eq!(message_text(&None), None);
    assert_eq!(
        message_text(&Some(Json::Text("plain".to_owned()))),
        Some("plain".to_owned())
    );
    let parts = content(
        &serde_json::from_str(
            r#"[{"type":"text","text":"a"},{"type":"image","text":"b"},{"type":"text","text":"c"}]"#,
        )
        .unwrap(),
    );
    assert_eq!(message_text(&Some(parts)), Some("a\nc".to_owned()));
    assert_eq!(message_text(&Some(Json::List(Vec::new()))), None);
    assert_eq!(message_text(&Some(Json::Bool(true))), None);
    assert_eq!(first_line("one\ntwo"), "one");
    assert_eq!(first_line(" \ntwo"), " \ntwo");
}

#[test]
fn last_messages_of_a_session_are_read() {
    let session = read(SESSION);
    let pi = client("/s");
    assert!(pi.is_session_of(&session, "pi-1"));
    assert!(!pi.is_session_of(&session, "pi-2"));
    assert_eq!(pi.read_messages(&session, 3).len(), 2);
    assert!(pi.read_messages(&session, 0).is_empty());
    let mut long = session;
    for turn in 0..4 {
        long.messages.push(Message {
            role: "You".into(),
            text: format!("question {turn}"),
        });
        long.messages.push(Message {
            role: "Other".into(),
            text: "hidden".into(),
        });
    }
    let texts: Vec<String> = pi
        .read_messages(&long, 1)
        .into_iter()
        .map(|message| message.text)
        .collect();
    assert_eq!(texts, vec!["question 2", "question 3"]);
}

#[test]
fn archived_sessions_lie_in_a_directory_of_their_own() {
    assert!(is_archived_path("/s", "/s/archived/a.jsonl"));
    assert!(!is_archived_path("/s", "/s/other/archived/a.jsonl"));
    assert!(!is_archived_path("/s", "/t/archived/a.jsonl"));
    assert!(!is_archived_path("/s", "/s/archived2/a.jsonl"));
    assert!(is_session_file("/s/a.jsonl"));
    assert!(!is_session_file("/s/a.json"));
    assert!(!is_session_file("/s/.jsonl"));
    let pi = client("/s");
    assert!(pi.lists("/s/a.jsonl", false));
    assert!(!pi.lists("/s/a.jsonl", true));
    assert!(pi.lists("/s/archived/a.jsonl", true));
}

#[test]
fn sessions_are_listed_by_when_they_were_used() {
    let session = |id: &str, time: i64| {
        parse_session(
            &vec![record(&format!(
                "{{\"type\":\"session\",\"id\":\"{id}\"}}"
            ))],
            time,
        )
    };
    let threads = client("/s").list_threads(
        vec![
            ("/s/1.jsonl".to_owned(), session("a", 1)),
            ("/s/2.jsonl".to_owned(), session("b", 3)),
            ("/s/3.jsonl".to_owned(), session("c", 3)),
            ("/s/4.jsonl".to_owned(), read("")),
        ],
        true,
    );
    let ids: Vec<&str> = threads.iter().map(|thread| thread.id.as_str()).collect();
    assert_eq!(ids, vec!["b", "c", "a"]);
    assert!(threads.iter().all(|thread| thread.archived));
    assert_eq!(delete_chat_files(&threads[2]).unwrap(), vec!["/s/1.jsonl"]);
}

#[test]
fn session_directory_is_found_by_the_environment() {
    let environment = |variables: Vec<(&str, &str)>| Environment {
        variables: variables
            .into_iter()
            .map(|(name, value)| (name.to_owned(), value.to_owned()))
            .collect(),
    };
    assert_eq!(
        default_session_dir(&environment(vec![("HOME", "/h")])),
        "/h/.pi/agent/sessions"
    );
    assert_eq!(
        default_session_dir(&environment(vec![("PI_CODING_AGENT_DIR", "/a")])),
        "/a/sessions"
    );
    assert_eq!(
        default_session_dir(&environment(vec![
            ("PI_CODING_AGENT_DIR", "/a"),
            ("PI_CODING_AGENT_SESSION_DIR", "/b"),
        ])),
        "/b"
    );
    assert_eq!(
        Client::new(None, &environment(vec![("HOME", "/h")])).session_dir,
        "/h/.pi/agent/sessions"
    );
}

//! The session files of Pi: what their records mean, and where they are kept.
use vstd::prelude::*;
use vstd::string::*;

use crate::agent::{messages_view, Message, Thread, PI_HARNESS_ID, PI_HARNESS_LABEL};
use crate::codex::last_of;
use crate::config::{home, home_dir, Environment};
use crate::json::{json_text, json_views, member, opt_json, Json, JsonView};
use crate::order::{rank, ranked};
use crate::path::{file_name, is_under, joined, lies_under, path_file_name, path_join};
use crate::text::{first_line_of, is_blank, is_text, join_texts, joined_with, leading_line, lines,
    lines_of, opt_text, same_text, texts, trimmed};

verus! {

/// Where the sessions of Pi are kept.
#[derive(Debug)]
pub struct Client {
    pub session_dir: String,
}

/// A record of a session file.
#[derive(Debug)]
pub struct Record {
    pub kind: String,
    pub timestamp: Option<String>,
    pub id: Option<String>,
    pub cwd: Option<String>,
    pub name: Option<String>,
    pub display_name: Option<String>,
    pub message: Option<PiMessage>,
}

/// A message in a record.
#[derive(Debug)]
pub struct PiMessage {
    pub role: String,
    pub content: Option<Json>,
}

/// What the records of a session file say so far.
#[derive(Debug)]
pub struct Session {
    pub id: Option<String>,
    pub name: Option<String>,
    pub cwd: Option<String>,
    pub created_at: i64,
    pub updated_at: i64,
    pub first_user_text: Option<String>,
    pub preview: Option<String>,
    pub messages: Vec<Message>,
}

/// A session by its texts.
#[verifier::ext_equal]
pub struct SessionView {
    pub id: Option<Seq<char>>,
    pub name: Option<Seq<char>>,
    pub cwd: Option<Seq<char>>,
    pub created_at: i64,
    pub updated_at: i64,
    pub first_user_text: Option<Seq<char>>,
    pub preview: Option<Seq<char>>,
    pub messages: Seq<(Seq<char>, Seq<char>)>,
}

impl Session {
    /// The session by its texts.
    pub open spec fn view(self) -> SessionView {
        SessionView {
            id: opt_text(self.id),
            name: opt_text(self.name),
            cwd: opt_text(self.cwd),
            created_at: self.created_at,
            updated_at: self.updated_at,
            first_user_text: opt_text(self.first_user_text),
            preview: opt_text(self.preview),
            messages: messages_view(self.messages@),
        }
    }
}

/// The first of two values that is there.
pub open spec fn or_else(first: Option<Seq<char>>, second: Option<Seq<char>>) -> Option<Seq<char>> {
    match first {
        Some(text) => Some(text),
        None => second,
    }
}

/// A session file of which nothing was read yet.
pub open spec fn unread(time: i64) -> SessionView {
    SessionView {
        id: None,
        name: None,
        cwd: None,
        created_at: time,
        updated_at: time,
        first_user_text: None,
        preview: None,
        messages: Seq::empty(),
    }
}

/// The texts of the parts of a message that are texts.
pub open spec fn part_texts(parts: Seq<JsonView>) -> Seq<Seq<char>>
    decreases parts.len(),
{
    if parts.len() == 0 {
        Seq::empty()
    } else {
        let before = part_texts(parts.drop_last());
        if json_text(member(parts.last(), "type"@)) == Some("text"@) {
            match json_text(member(parts.last(), "text"@)) {
                Some(text) => before.push(text),
                None => before,
            }
        } else {
            before
        }
    }
}

/// The text of what a message holds: a text, or the texts of its parts, one per line.
pub open spec fn text_of_content(content: Option<JsonView>) -> Option<Seq<char>> {
    match content {
        Some(JsonView::Text(text)) => Some(text),
        Some(JsonView::List(parts)) => if part_texts(parts).len() == 0 {
            None
        } else {
            Some(joined_with(part_texts(parts), "\n"@))
        },
        _ => None,
    }
}

/// The first line of a text, or all of it where that line is blank.
pub open spec fn heading(value: Seq<char>) -> Seq<char> {
    match first_line_of(value) {
        Some(line) => if trimmed(line).len() > 0 {
            line
        } else {
            value
        },
        None => value,
    }
}

/// A session with one more message. Only what the user and the assistant said counts, where it is
/// not blank.
pub open spec fn with_message(session: SessionView, message: PiMessage) -> SessionView {
    match text_of_content(opt_json(message.content)) {
        Some(text) => if trimmed(text).len() == 0 {
            session
        } else if message.role@ == "user"@ {
            SessionView {
                first_user_text: or_else(session.first_user_text, Some(heading(text))),
                preview: Some(text),
                messages: session.messages.push(("You"@, text)),
                ..session
            }
        } else if message.role@ == "assistant"@ {
            SessionView {
                preview: Some(text),
                messages: session.messages.push((PI_HARNESS_LABEL@, text)),
                ..session
            }
        } else {
            session
        },
        None => session,
    }
}

/// A session whose times take in another time.
pub open spec fn with_time(session: SessionView, time: i64) -> SessionView {
    SessionView {
        created_at: if session.created_at == 0 || time < session.created_at {
            time
        } else {
            session.created_at
        },
        updated_at: if time > session.updated_at {
            time
        } else {
            session.updated_at
        },
        ..session
    }
}

/// The name that a record gives.
pub open spec fn given_name(record: Record) -> Option<Seq<char>> {
    or_else(opt_text(record.name), opt_text(record.display_name))
}

/// A session after one more record, which was written at a time.
pub open spec fn with_record(session: SessionView, record: Record, time: i64) -> SessionView {
    let timed = with_time(session, time);
    if record.kind@ == "session"@ {
        SessionView {
            id: or_else(opt_text(record.id), timed.id),
            cwd: or_else(opt_text(record.cwd), timed.cwd),
            name: or_else(given_name(record), timed.name),
            ..timed
        }
    } else if record.kind@ == "message"@ {
        match record.message {
            Some(message) => with_message(timed, message),
            None => timed,
        }
    } else if record.kind@ == "session_info"@ || record.kind@ == "session_name"@ || record.kind@
        == "name"@ {
        SessionView { name: or_else(given_name(record), timed.name), ..timed }
    } else {
        timed
    }
}

/// The seconds since 1970 of a point in time in the form of RFC 3339, as the crate `time` reads it.
pub uninterp spec fn rfc3339_seconds(value: Seq<char>) -> Option<i64>;

/// `time::OffsetDateTime::parse` reads a point in time in the form of RFC 3339, or refuses it, and
/// `unix_timestamp` gives its seconds since 1970. Both depend on the text alone.
#[verifier::external_body]
pub(crate) fn parse_timestamp(value: &str) -> (seconds: Option<i64>)
    ensures
        seconds == rfc3339_seconds(value@),
{
    time::OffsetDateTime::parse(value, &time::format_description::well_known::Rfc3339).ok().map(
        |time| time.unix_timestamp(),
    )
}

/// When a record was written, with a stand-in where it does not say so.
pub open spec fn record_time(timestamp: Option<Seq<char>>, stand_in: i64) -> i64 {
    match timestamp {
        Some(text) => match rfc3339_seconds(text) {
            Some(seconds) => seconds,
            None => stand_in,
        },
        None => stand_in,
    }
}

/// What the records of a session file say.
pub open spec fn session_of(records: Seq<Record>, stand_in: i64) -> SessionView
    decreases records.len(),
{
    if records.len() == 0 {
        unread(stand_in)
    } else {
        with_record(
            session_of(records.drop_last(), stand_in),
            records.last(),
            record_time(opt_text(records.last().timestamp), stand_in),
        )
    }
}

/// Finds the first line of a text, or all of it where that line is blank.
pub fn first_line(value: &str) -> (line: String)
    ensures
        line@ == heading(value@),
{
    match leading_line(value) {
        Some(line) => if is_blank(line) {
            value.to_owned()
        } else {
            line.to_owned()
        },
        None => value.to_owned(),
    }
}

/// Finds the text of what a message holds: a text, or the texts of its parts, one per line.
pub fn message_text(content: &Option<Json>) -> (text: Option<String>)
    ensures
        opt_text(text) == text_of_content(opt_json(*content)),
{
    let value = match content {
        Some(value) => value,
        None => {
            return None;
        },
    };
    if let Some(text) = value.as_str() {
        return Some(text.to_owned());
    }
    let parts = match value.as_array() {
        Some(parts) => parts,
        None => {
            return None;
        },
    };
    let ghost all = json_views(parts@);
    let mut found: Vec<String> = Vec::new();
    let count: usize = parts.len();
    let mut index: usize = 0;
    assert(texts(found@) =~= part_texts(all.take(0)));
    while index < count
        invariant
            index <= count,
            count == parts@.len(),
            all == json_views(parts@),
            texts(found@) == part_texts(all.take(index as int)),
        decreases count - index,
    {
        let ghost before = found@;
        proof {
            assert(all.take(index + 1).drop_last() =~= all.take(index as int));
            assert(all.take(index + 1).last() == parts@[index as int].view());
        }
        let part = &parts[index];
        let is_text_part = match part.get("type") {
            Some(kind) => match kind.as_str() {
                Some(kind) => same_text(kind, "text"),
                None => false,
            },
            None => false,
        };
        if is_text_part {
            if let Some(value) = part.get("text") {
                if let Some(text) = value.as_str() {
                    found.push(text.to_owned());
                    assert(texts(found@) =~= texts(before).push(text@));
                }
            }
        }
        index = index + 1;
    }
    assert(all.take(count as int) =~= all);
    assert(texts(found@).len() == found@.len());
    if found.len() == 0 {
        None
    } else {
        Some(join_texts(&found, "\n"))
    }
}

fn first_of(first: &Option<String>, second: Option<String>) -> (result: Option<String>)
    ensures
        opt_text(result) == or_else(opt_text(*first), opt_text(second)),
{
    match first {
        Some(text) => Some(text.clone()),
        None => second,
    }
}

impl Session {
    /// A session file of which nothing was read yet, last changed at a time.
    pub fn new(time: i64) -> (session: Self)
        ensures
            session.view() == unread(time),
    {
        let session = Session {
            id: None,
            name: None,
            cwd: None,
            created_at: time,
            updated_at: time,
            first_user_text: None,
            preview: None,
            messages: Vec::new(),
        };
        assert(session.view() =~= unread(time));
        session
    }

    /// Takes in one more message.
    pub fn add_message(&mut self, message: &PiMessage)
        ensures
            final(self).view() == with_message(old(self).view(), *message),
    {
        if let Some(text) = message_text(&message.content) {
            if is_blank(text.as_str()) {
                return;
            }
            let ghost before = self.messages@;
            if same_text(message.role.as_str(), "user") {
                if self.first_user_text.is_none() {
                    self.first_user_text = Some(first_line(text.as_str()));
                }
                self.preview = Some(text.clone());
                self.messages.push(Message { role: "You".to_owned(), text });
                assert(messages_view(self.messages@) =~= messages_view(before).push(
                    ("You"@, text@),
                ));
            } else if same_text(message.role.as_str(), "assistant") {
                self.preview = Some(text.clone());
                self.messages.push(Message { role: PI_HARNESS_LABEL.to_owned(), text });
                assert(messages_view(self.messages@) =~= messages_view(before).push(
                    (PI_HARNESS_LABEL@, text@),
                ));
            }
        }
    }

    /// Takes in one more record, which was written at a time.
    pub fn add_record(&mut self, record: &Record, time: i64)
        ensures
            final(self).view() == with_record(old(self).view(), *record, time),
    {
        if self.created_at == 0 || time < self.created_at {
            self.created_at = time;
        }
        if time > self.updated_at {
            self.updated_at = time;
        }
        assert(self.view() =~= with_time(old(self).view(), time));
        let kind = record.kind.as_str();
        if same_text(kind, "session") {
            self.id = first_of(&record.id, self.id.clone());
            self.cwd = first_of(&record.cwd, self.cwd.clone());
            self.name = first_of(
                &record.name,
                first_of(&record.display_name, self.name.clone()),
            );
        } else if same_text(kind, "message") {
            if let Some(message) = &record.message {
                self.add_message(message);
            }
        } else if same_text(kind, "session_info") || same_text(kind, "session_name") || same_text(
            kind,
            "name",
        ) {
            self.name = first_of(
                &record.name,
                first_of(&record.display_name, self.name.clone()),
            );
        }
        assert(self.view() =~= with_record(old(self).view(), *record, time));
    }
}

/// Reads what the records of a session file say. The time when the file was last changed stands in
/// where a record does not say when it was written.
pub fn parse_session(records: &Vec<Record>, fallback_time: i64) -> (session: Session)
    ensures
        session.view() == session_of(records@, fallback_time),
{
    let mut session = Session::new(fallback_time);
    let count: usize = records.len();
    let mut index: usize = 0;
    assert(records@.take(0) =~= Seq::<Record>::empty());
    while index < count
        invariant
            index <= count,
            count == records@.len(),
            session.view() == session_of(records@.take(index as int), fallback_time),
        decreases count - index,
    {
        let record = &records[index];
        proof {
            assert(records@.take(index + 1).drop_last() =~= records@.take(index as int));
            assert(records@.take(index + 1).last() == *record);
        }
        let read: Option<i64> = match &record.timestamp {
            Some(text) => parse_timestamp(text.as_str()),
            None => None,
        };
        let time: i64 = match read {
            Some(seconds) => seconds,
            None => fallback_time,
        };
        session.add_record(record, time);
        index = index + 1;
    }
    assert(records@.take(count as int) =~= records@);
    session
}

/// The test for lines that are not blank.
pub open spec fn line_test() -> spec_fn(Seq<char>) -> bool {
    |line: Seq<char>| trimmed(line).len() > 0
}

/// Lists the lines of a session file that hold records: all that are not blank.
pub fn session_lines(source: &str) -> (result: Vec<String>)
    ensures
        texts(result@) == lines(source@).filter(line_test()),
{
    let all = lines_of(source);
    let ghost every = texts(all@);
    let ghost test = line_test();
    let mut result: Vec<String> = Vec::new();
    let count: usize = all.len();
    let mut index: usize = 0;
    proof {
        reveal(Seq::filter);
        assert(texts(result@) =~= every.take(0).filter(test));
    }
    while index < count
        invariant
            index <= count,
            count == all@.len(),
            every == texts(all@),
            every == lines(source@),
            test == line_test(),
            texts(result@) == every.take(index as int).filter(test),
        decreases count - index,
    {
        let ghost before = result@;
        proof {
            reveal(Seq::filter);
            assert(every.take(index + 1).drop_last() =~= every.take(index as int));
            assert(every.take(index + 1).last() == all@[index as int]@);
        }
        if !is_blank(all[index].as_str()) {
            result.push(all[index].clone());
            assert(texts(result@) =~= texts(before).push(every[index as int]));
        }
        index = index + 1;
    }
    assert(every.take(count as int) =~= every);
    result
}

/// Whether a thread is that of a session file, where the file names one. The thread knows the path
/// of its file.
pub open spec fn is_thread_of(
    thread: Option<Thread>,
    path: Seq<char>,
    session: SessionView,
) -> bool {
    match session.id {
        None => thread is None,
        Some(id) => thread matches Some(thread) && thread.harness_id@ == PI_HARNESS_ID@
            && thread.id@ == id && opt_text(thread.name) == or_else(
            session.name,
            session.first_user_text,
        ) && thread.preview@ == (match session.preview {
            Some(preview) => preview,
            None => Seq::empty(),
        }) && thread.cwd@ == (match session.cwd {
            Some(cwd) => cwd,
            None => "."@,
        }) && thread.created_at == session.created_at && thread.updated_at == session.updated_at
            && thread.recency_at == Some(session.updated_at) && opt_text(thread.source) == Some(
            PI_HARNESS_ID@,
        ) && thread.git_info is None && thread.context_remaining is None && opt_text(thread.path) == Some(
            path,
        ) && !thread.archived,
    }
}

/// Makes the thread of a session file, where the file names one.
pub fn parse_thread(path: String, session: Session) -> (thread: Option<Thread>)
    ensures
        is_thread_of(thread, path@, session.view()),
{
    let Session { id, name, cwd, created_at, updated_at, first_user_text, preview, messages: _ } =
        session;
    match id {
        None => None,
        Some(id) => Some(
            Thread {
                harness_id: PI_HARNESS_ID.to_owned(),
                id,
                name: match name {
                    Some(name) => Some(name),
                    None => first_user_text,
                },
                preview: match preview {
                    Some(preview) => preview,
                    None => String::new(),
                },
                cwd: match cwd {
                    Some(cwd) => cwd,
                    None => ".".to_owned(),
                },
                created_at,
                updated_at,
                recency_at: Some(updated_at),
                source: Some(PI_HARNESS_ID.to_owned()),
                git_info: None,
                context_remaining: None,
                archived: false,
                path: Some(path),
            },
        ),
    }
}

/// Where the sessions of Pi are kept, where the settings do not say so.
pub open spec fn usual_session_dir(env: Environment) -> Seq<char> {
    match env.value("PI_CODING_AGENT_SESSION_DIR"@) {
        Some(path) => path,
        None => match env.value("PI_CODING_AGENT_DIR"@) {
            Some(path) => joined(path, "sessions"@),
            None => joined(home(env), ".pi/agent/sessions"@),
        },
    }
}

/// Finds where the sessions of Pi are kept, where the settings do not say so.
pub fn default_session_dir(env: &Environment) -> (path: String)
    ensures
        path@ == usual_session_dir(*env),
{
    if let Some(path) = env.var("PI_CODING_AGENT_SESSION_DIR") {
        return path.to_owned();
    }
    if let Some(path) = env.var("PI_CODING_AGENT_DIR") {
        return path_join(path, "sessions");
    }
    path_join(home_dir(env).as_str(), ".pi/agent/sessions")
}

/// Whether a file name has the extension of session files.
pub open spec fn is_session_name(name: Option<Seq<char>>) -> bool {
    name matches Some(name) && name.len() > 6 && name.skip(name.len() - 6) == ".jsonl"@
}

/// Whether a path is that of a session file.
pub fn is_session_file(path: &str) -> (found: bool)
    ensures
        found == is_session_name(file_name(path@)),
{
    match path_file_name(path) {
        Some(name) => {
            let count: usize = name.as_str().unicode_len();
            if count <= 6 {
                return false;
            }
            let tail = name.as_str().substring_char(count - 6, count);
            assert(tail@ =~= name@.skip(name@.len() - 6));
            same_text(tail, ".jsonl")
        },
        None => false,
    }
}

/// Whether a session file is in the archive of a directory.
pub open spec fn in_archive(root: Seq<char>, path: Seq<char>) -> bool {
    lies_under(path, root, "archived"@)
}

/// Tests whether a session file is in the archive of a directory.
pub fn is_archived_path(root: &str, path: &str) -> (archived: bool)
    ensures
        archived == in_archive(root@, path@),
{
    is_under(path, root, "archived")
}

/// The test for messages of the user and of Pi.
pub open spec fn role_test() -> spec_fn((Seq<char>, Seq<char>)) -> bool {
    |message: (Seq<char>, Seq<char>)| message.0 == "You"@ || message.0 == PI_HARNESS_LABEL@
}

/// The last messages of a session, two for each turn.
pub open spec fn recent_messages(session: SessionView, turns: nat) -> Seq<(Seq<char>, Seq<char>)> {
    last_of(session.messages.filter(role_test()), 2 * turns as int)
}

/// Whether threads are those of session files, in their order, leaving out files that name none.
pub open spec fn are_threads_of(
    threads: Seq<Thread>,
    sessions: Seq<(String, Session)>,
    archived: bool,
) -> bool
    decreases sessions.len(),
{
    if sessions.len() == 0 {
        threads.len() == 0
    } else if sessions.last().1.id is None {
        are_threads_of(threads, sessions.drop_last(), archived)
    } else {
        &&& threads.len() > 0
        &&& threads.last().archived == archived
        &&& is_thread_of(
            Some(Thread { archived: false, ..threads.last() }),
            sessions.last().0@,
            sessions.last().1.view(),
        )
        &&& are_threads_of(threads.drop_last(), sessions.drop_last(), archived)
    }
}

impl Client {
    /// A client for a directory of session files, or for the usual one.
    pub fn new(session_dir: Option<String>, env: &Environment) -> (client: Self)
        ensures
            client.session_dir@ == match session_dir {
                Some(path) => path@,
                None => usual_session_dir(*env),
            },
    {
        match session_dir {
            Some(session_dir) => Client { session_dir },
            None => Client { session_dir: default_session_dir(env) },
        }
    }

    /// Whether a session file belongs to a list: that of the archived ones, or that of the others.
    pub fn lists(&self, path: &str, archived: bool) -> (listed: bool)
        ensures
            listed == (in_archive(self.session_dir@, path@) == archived),
    {
        is_archived_path(self.session_dir.as_str(), path) == archived
    }

    /// Lists the threads of session files, given by their paths, the last used first.
    pub fn list_threads(&self, sessions: Vec<(String, Session)>, archived: bool) -> (threads: Vec<
        Thread,
    >)
        ensures
            exists|found: Seq<Thread>|
                are_threads_of(found, sessions@, archived) && threads@ == #[trigger] ranked(found),
    {
        let ghost all = sessions@;
        let mut found: Vec<Thread> = Vec::new();
        for session in it: sessions
            invariant
                it.seq() == all,
                are_threads_of(found@, all.take(it.index()), archived),
        {
            let ghost before = found@;
            let ghost given = session;
            let (path, session) = session;
            proof {
                assert(all.take(it.index() + 1).drop_last() =~= all.take(it.index()));
                assert(all.take(it.index() + 1).last() == given);
            }
            if let Some(made) = parse_thread(path, session) {
                let mut thread = made;
                thread.archived = archived;
                found.push(thread);
                proof {
                    assert(found@.drop_last() =~= before);
                    assert(is_thread_of(Some(made), given.0@, given.1.view()));
                    assert((Thread { archived: false, ..thread }) == made);
                }
            }
        }
        assert(all.take(all.len() as int) =~= all);
        rank(found)
    }

    /// Whether a session file is that of a thread.
    pub fn is_session_of(&self, session: &Session, thread_id: &str) -> (found: bool)
        ensures
            found == (session.view().id == Some(thread_id@)),
    {
        is_text(&session.id, thread_id)
    }

    /// Lists the last messages of a session file, two for each turn.
    pub fn read_messages(&self, session: &Session, turns: usize) -> (messages: Vec<Message>)
        ensures
            messages_view(messages@) == recent_messages(session.view(), turns as nat),
            messages_view(messages@) == last_of(
                session.view().messages.filter(role_test()),
                2 * turns,
            ),
    {
        let ghost all = messages_view(session.messages@);
        let ghost test = role_test();
        let mut kept: Vec<Message> = Vec::new();
        let count: usize = session.messages.len();
        let mut index: usize = 0;
        proof {
            reveal(Seq::filter);
            assert(messages_view(kept@) =~= all.take(0).filter(test));
        }
        while index < count
            invariant
                index <= count,
                count == session.messages@.len(),
                all == messages_view(session.messages@),
                test == role_test(),
                messages_view(kept@) == all.take(index as int).filter(test),
            decreases count - index,
        {
            let ghost before = kept@;
            let message = &session.messages[index];
            proof {
                reveal(Seq::filter);
                assert(all.take(index + 1).drop_last() =~= all.take(index as int));
                assert(all.take(index + 1).last() == (message.role@, message.text@));
            }
            if same_text(message.role.as_str(), "You") || same_text(
                message.role.as_str(),
                PI_HARNESS_LABEL,
            ) {
                kept.push(message.clone());
                assert(messages_view(kept@) =~= messages_view(before).push(all[index as int]));
            }
            index = index + 1;
        }
        assert(all.take(count as int) =~= all);
        let ghost filtered = messages_view(kept@);
        let total: usize = kept.len();
        let limit: u128 = 2 * turns as u128;
        if total as u128 <= limit {
            return kept;
        }
        let start: usize = total - limit as usize;
        let mut messages: Vec<Message> = Vec::new();
        let mut at: usize = start;
        assert(messages_view(messages@) =~= filtered.skip(start as int).take(0));
        while at < total
            invariant
                start <= at <= total,
                total == kept@.len(),
                filtered == messages_view(kept@),
                messages_view(messages@) == filtered.skip(start as int).take(at - start),
            decreases total - at,
        {
            let ghost before = messages@;
            messages.push(kept[at].clone());
            assert(messages_view(messages@) =~= messages_view(before).push(filtered[at as int]));
            assert(messages_view(messages@) =~= filtered.skip(start as int).take(at + 1 - start));
            at = at + 1;
        }
        assert(filtered.skip(start as int).take(total - start) =~= filtered.skip(start as int));
        messages
    }
}

proof fn lemma_session_times(records: Seq<Record>, stand_in: i64)
    ensures
        session_of(records, stand_in).updated_at >= stand_in,
    decreases records.len(),
{
    if records.len() > 0 {
        lemma_session_times(records.drop_last(), stand_in);
    }
}

/// A session was last changed no earlier than any of its records was written, nor than its file
/// was changed.
pub proof fn law_session_time_is_latest(records: Seq<Record>, stand_in: i64, at: int)
    requires
        0 <= at < records.len(),
    ensures
        session_of(records, stand_in).updated_at >= stand_in,
        session_of(records, stand_in).updated_at >= record_time(
            opt_text(records[at].timestamp),
            stand_in,
        ),
    decreases records.len(),
{
    lemma_session_times(records, stand_in);
    if at < records.len() - 1 {
        law_session_time_is_latest(records.drop_last(), stand_in, at);
    }
}

/// A listed chat knows the file that it is kept in: that of one of the sessions, which names it. So
/// there is a file to remove where the chat is deleted.
pub proof fn law_listed_chat_knows_its_file(
    threads: Seq<Thread>,
    sessions: Seq<(String, Session)>,
    archived: bool,
    at: int,
)
    requires
        are_threads_of(threads, sessions, archived),
        0 <= at < threads.len(),
    ensures
        exists|k: int|
            #![trigger sessions[k]]
            0 <= k < sessions.len() && opt_text(threads[at].path) == Some(sessions[k].0@)
                && sessions[k].1.view().id == Some(threads[at].id@),
    decreases sessions.len(),
{
    let last = sessions.len() - 1;
    let rest = sessions.drop_last();
    if sessions.last().1.id is None {
        law_listed_chat_knows_its_file(threads, rest, archived, at);
        let k = choose|k: int|
            #![trigger rest[k]]
            0 <= k < rest.len() && opt_text(threads[at].path) == Some(rest[k].0@)
                && rest[k].1.view().id == Some(threads[at].id@);
        assert(sessions[k] == rest[k]);
    } else if at < threads.len() - 1 {
        law_listed_chat_knows_its_file(threads.drop_last(), rest, archived, at);
        let k = choose|k: int|
            #![trigger rest[k]]
            0 <= k < rest.len() && opt_text(threads.drop_last()[at].path) == Some(rest[k].0@)
                && rest[k].1.view().id == Some(threads.drop_last()[at].id@);
        assert(sessions[k] == rest[k]);
    } else {
        assert(sessions[last] == sessions.last());
    }
}

/// A session has the name that its last naming record gives, and so has its thread.
pub proof fn law_given_name_is_favored(
    records: Seq<Record>,
    last: Record,
    stand_in: i64,
    path: Seq<char>,
)
    requires
        last.kind@ == "session_info"@ || last.kind@ == "session_name"@ || last.kind@ == "name"@
            || last.kind@ == "session"@,
        given_name(last) is Some,
    ensures
        session_of(records.push(last), stand_in).name == given_name(last),
        forall|thread: Thread|
            is_thread_of(Some(thread), path, session_of(records.push(last), stand_in)) ==> opt_text(
                #[trigger] thread.name,
            ) == given_name(last),
{
    assert(records.push(last).drop_last() =~= records);
    reveal_strlit("session");
    reveal_strlit("session_info");
    reveal_strlit("session_name");
    reveal_strlit("name");
    reveal_strlit("message");
    assert("session"@.len() == 7 && "session_info"@.len() == 12 && "session_name"@.len() == 12
        && "name"@.len() == 4 && "message"@.len() == 7);
    assert("session"@[0] != "message"@[0]);
}

/// Messages do not change the name of a session: its first user message names its thread only
/// where no record does.
pub proof fn law_messages_keep_the_name(session: SessionView, record: Record, time: i64)
    requires
        record.kind@ == "message"@,
    ensures
        with_record(session, record, time).name == session.name,
        with_record(session, record, time).id == session.id,
        with_record(session, record, time).cwd == session.cwd,
        session.first_user_text is Some ==> with_record(session, record, time).first_user_text
            == session.first_user_text,
{
    reveal_strlit("session");
    reveal_strlit("session_info");
    reveal_strlit("session_name");
    reveal_strlit("name");
    reveal_strlit("message");
    assert("session"@.len() == 7 && "session_info"@.len() == 12 && "session_name"@.len() == 12
        && "name"@.len() == 4 && "message"@.len() == 7);
    assert("session"@[0] != "message"@[0]);
}

} // verus!

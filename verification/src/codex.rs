//! What is said to the Codex app-server, one line of JSON at a time, and what its answers mean.
use vstd::prelude::*;
use vstd::string::*;

use crate::agent::{messages_view, Message, Thread};
use crate::json::{entry_views, json_items, json_number, json_text, json_views, member, object,
    opt_json, parse_json, parsed_json, render_json, rendered_json, Json, JsonView};
use crate::text::{contains, contains_text, is_blank, join_texts, joined_with, opt_text, same_text,
    texts, trim, trimmed};

verus! {

/// The numbering of the requests to a Codex app-server.
#[derive(Debug)]
pub struct Client {
    pub next_id: u64,
}

/// A request: its number, and the line that is sent.
#[derive(Debug)]
pub struct Request {
    pub id: u64,
    pub line: String,
}

/// What a line from the app-server means for a request.
#[derive(Debug)]
pub enum Answer {
    /// The line is not an answer to the request.
    Other,
    /// The request was done, with this result.
    Done(Json),
    /// The request failed, with this message.
    Failed(String),
}

/// A request to an app-server.
pub open spec fn request_value(method: Seq<char>, id: u64, params: JsonView) -> JsonView {
    JsonView::Object(
        seq![
            ("method"@, JsonView::Text(method)),
            ("id"@, JsonView::Number(id)),
            ("params"@, params),
        ],
    )
}

/// A notification to an app-server.
pub open spec fn notification_value(method: Seq<char>, params: JsonView) -> JsonView {
    JsonView::Object(seq![("method"@, JsonView::Text(method)), ("params"@, params)])
}

/// The message where the app-server answered with an error.
pub open spec fn failure_message(method: Seq<char>, error: Seq<char>) -> Seq<char> {
    "Codex "@ + method + " failed: "@ + error
}

/// Whether an answer is the right one for a request, given what a line holds: the value that it
/// stands for, and the text of its error, where there is one.
pub open spec fn is_answer(
    answer: Answer,
    id: u64,
    method: Seq<char>,
    line: Seq<char>,
    value: Option<JsonView>,
    error: Option<Seq<char>>,
) -> bool {
    match value {
        None => answer matches Answer::Failed(message) && message@
            == "invalid JSON from Codex app-server: "@ + line,
        Some(value) => if json_number(member(value, "id"@)) != Some(id) {
            answer is Other
        } else {
            match error {
                Some(error) => answer matches Answer::Failed(message) && message@
                    == failure_message(method, error),
                None => match member(value, "result"@) {
                    Some(result) => answer matches Answer::Done(found) && found.view() == result,
                    None => answer matches Answer::Failed(message) && message@
                        == "Codex response omitted result"@,
                },
            }
        },
    }
}

/// The text of the error that a value holds, where it holds one.
pub open spec fn error_text(value: Option<JsonView>) -> Option<Seq<char>> {
    match value {
        Some(value) => match member(value, "error"@) {
            Some(error) => Some(rendered_json(error)),
            None => None,
        },
        None => None,
    }
}

fn json_field(name: &str, value: Json) -> (field: (String, Json))
    ensures
        field.0@ == name@,
        field.1 == value,
{
    (name.to_owned(), value)
}

/// Reads what a line from the app-server means for a request, given the value that the line stands
/// for and the text of its error, where there is one.
pub fn read_answer(
    id: u64,
    method: &str,
    line: &str,
    value: Option<Json>,
    error: Option<String>,
) -> (answer: Answer)
    ensures
        is_answer(answer, id, method@, line@, opt_json(value), opt_text(error)),
{
    match value {
        None => {
            let mut message = "invalid JSON from Codex app-server: ".to_owned();
            message.append(line);
            Answer::Failed(message)
        },
        Some(value) => {
            let found: Option<u64> = match value.get("id") {
                Some(number) => number.as_u64(),
                None => None,
            };
            let same = match found {
                Some(number) => number == id,
                None => false,
            };
            if !same {
                return Answer::Other;
            }
            if let Some(error) = error {
                let mut message = "Codex ".to_owned();
                message.append(method);
                message.append(" failed: ");
                message.append(error.as_str());
                return Answer::Failed(message);
            }
            match value.take("result") {
                Some(result) => Answer::Done(result),
                None => Answer::Failed("Codex response omitted result".to_owned()),
            }
        },
    }
}

impl Client {
    /// The numbering of the requests to a new app-server.
    pub fn start() -> (client: Self)
        ensures
            client.next_id == 1,
    {
        Client { next_id: 1 }
    }

    /// The arguments with which the app-server is started.
    pub fn server_args() -> (args: Vec<String>)
        ensures
            texts(args@) == seq!["app-server"@, "--listen"@, "stdio://"@],
    {
        let args = vec!["app-server".to_owned(), "--listen".to_owned(), "stdio://".to_owned()];
        assert(texts(args@) =~= seq!["app-server"@, "--listen"@, "stdio://"@]);
        args
    }

    /// Writes a request, with the next number.
    pub fn request(&mut self, method: &str, params: Json) -> (request: Request)
        requires
            old(self).next_id < u64::MAX,
        ensures
            request.id == old(self).next_id,
            final(self).next_id == old(self).next_id + 1,
            request.line@ == rendered_json(request_value(method@, request.id, params.view())),
    {
        let id: u64 = self.next_id;
        self.next_id = id + 1;
        let entries = vec![
            json_field("method", Json::Text(method.to_owned())),
            json_field("id", Json::Number(id)),
            json_field("params", params),
        ];
        assert(entry_views(entries@) =~= request_value(method@, id, params.view())->Object_0);
        let value = object(entries);
        Request { id, line: render_json(&value) }
    }

    /// Writes a notification, which is not answered.
    pub fn send_notification(&self, method: &str, params: Json) -> (line: String)
        ensures
            line@ == rendered_json(notification_value(method@, params.view())),
    {
        let entries = vec![
            json_field("method", Json::Text(method.to_owned())),
            json_field("params", params),
        ];
        assert(entry_views(entries@) =~= notification_value(method@, params.view())->Object_0);
        let value = object(entries);
        render_json(&value)
    }

    /// Reads what a line from the app-server means for a request.
    pub fn answer(&self, request: &Request, method: &str, line: &str) -> (answer: Answer)
        ensures
            is_answer(
                answer,
                request.id,
                method@,
                trimmed(line@),
                parsed_json(trimmed(line@)),
                error_text(parsed_json(trimmed(line@))),
            ),
    {
        let line = trim(line);
        let value = parse_json(line);
        let error = match &value {
            Some(value) => match value.get("error") {
                Some(error) => Some(render_json(error)),
                None => None,
            },
            None => None,
        };
        read_answer(request.id, method, line, value, error)
    }

    /// The message where the app-server ends before it has answered.
    pub fn exit_message(method: &str) -> (message: String)
        ensures
            message@ == "Codex app-server exited while handling "@ + method@,
    {
        let mut message = "Codex app-server exited while handling ".to_owned();
        message.append(method);
        message
    }

    /// The message where the app-server cannot be started.
    pub fn start_message(command: &str) -> (message: String)
        ensures
            message@ == "failed to start `"@ + command@ + " app-server`"@,
    {
        let mut message = "failed to start `".to_owned();
        message.append(command);
        message.append(" app-server`");
        message
    }
}

/// The parameters of the first request to an app-server: who asks, this program in a version.
pub open spec fn introduction(version: Seq<char>) -> JsonView {
    JsonView::Object(
        seq![
            (
                "clientInfo"@,
                JsonView::Object(
                    seq![
                        ("name"@, JsonView::Text("cia"@)),
                        ("title"@, JsonView::Text("CIA"@)),
                        ("version"@, JsonView::Text(version)),
                    ],
                ),
            ),
        ],
    )
}

/// The parameters of the first request to an app-server, `initialize`.
pub fn initialize_params(version: &str) -> (params: Json)
    ensures
        params.view() == introduction(version@),
{
    let info = vec![
        json_field("name", Json::Text("cia".to_owned())),
        json_field("title", Json::Text("CIA".to_owned())),
        json_field("version", Json::Text(version.to_owned())),
    ];
    assert(entry_views(info@) =~= introduction(version@)->Object_0[0].1->Object_0);
    let entries = vec![json_field("clientInfo", object(info))];
    assert(entry_views(entries@) =~= introduction(version@)->Object_0);
    object(entries)
}

/// The parameters of a notification that says nothing more.
pub fn no_params() -> (params: Json)
    ensures
        params.view() == JsonView::Object(Seq::empty()),
{
    let entries: Vec<(String, Json)> = Vec::new();
    assert(entry_views(entries@) =~= Seq::<(Seq<char>, JsonView)>::empty());
    object(entries)
}

/// The parameters of a request for a page of threads: where the list goes on, or nothing where it
/// begins.
pub open spec fn page_request(archived: bool, cursor: Option<Seq<char>>) -> JsonView {
    JsonView::Object(
        seq![
            ("archived"@, JsonView::Bool(archived)),
            (
                "cursor"@,
                match cursor {
                    Some(cursor) => JsonView::Text(cursor),
                    None => JsonView::Null,
                },
            ),
            ("limit"@, JsonView::Number(100)),
            ("sortKey"@, JsonView::Text("recency_at"@)),
            ("sortDirection"@, JsonView::Text("desc"@)),
        ],
    )
}

/// A page of threads.
#[derive(Debug)]
pub struct Page {
    pub data: Vec<Thread>,
    pub next_cursor: Option<String>,
}

/// The threads that have been listed so far, and where the list goes on.
#[derive(Debug)]
pub struct Listing {
    pub archived: bool,
    pub threads: Vec<Thread>,
    pub cursor: Option<String>,
    pub complete: bool,
}

/// Threads as members of the list of the archived ones, or of the others.
pub open spec fn as_listed(threads: Seq<Thread>, archived: bool) -> Seq<Thread> {
    threads.map_values(|thread: Thread| Thread { archived, ..thread })
}

/// Threads with those of one more page, of the archived ones or of the others.
pub open spec fn with_page(threads: Seq<Thread>, page: Seq<Thread>, archived: bool) -> Seq<Thread> {
    threads + as_listed(page, archived)
}

impl Listing {
    /// A list that has not been begun.
    pub fn new(archived: bool) -> (listing: Self)
        ensures
            listing.archived == archived,
            listing.threads@ == Seq::<Thread>::empty(),
            listing.cursor is None,
            !listing.complete,
    {
        Listing { archived, threads: Vec::new(), cursor: None, complete: false }
    }

    /// The parameters of the request `thread/list` for the next page.
    pub fn params(&self) -> (params: Json)
        ensures
            params.view() == page_request(self.archived, opt_text(self.cursor)),
    {
        let cursor = match &self.cursor {
            Some(cursor) => Json::Text(cursor.clone()),
            None => Json::Null,
        };
        let entries = vec![
            json_field("archived", Json::Bool(self.archived)),
            json_field("cursor", cursor),
            json_field("limit", Json::Number(100)),
            json_field("sortKey", Json::Text("recency_at".to_owned())),
            json_field("sortDirection", Json::Text("desc".to_owned())),
        ];
        assert(entry_views(entries@) =~= page_request(
            self.archived,
            opt_text(self.cursor),
        )->Object_0);
        object(entries)
    }

    /// Adds a page. The list is complete where the page does not say how it goes on.
    pub fn add_page(&mut self, page: Page)
        ensures
            final(self).archived == old(self).archived,
            final(self).threads@ == old(self).threads@ + as_listed(
                page.data@,
                old(self).archived,
            ),
            final(self).threads@ == with_page(old(self).threads@, page.data@, old(self).archived),
            final(self).cursor == page.next_cursor,
            final(self).complete == (page.next_cursor is None),
    {
        let Page { data, next_cursor } = page;
        let ghost all = data@;
        let ghost before = self.threads@;
        let archived = self.archived;
        assert(before + as_listed(all.take(0), archived) =~= before);
        for item in it: data
            invariant
                it.seq() == all,
                self.archived == archived,
                self.threads@ == before + as_listed(all.take(it.index()), archived),
        {
            let mut thread = item;
            thread.archived = archived;
            self.threads.push(thread);
            assert(self.threads@ =~= before + as_listed(all.take(it.index() + 1), archived));
        }
        assert(all.take(all.len() as int) =~= all);
        self.complete = next_cursor.is_none();
        self.cursor = next_cursor;
    }
}

/// The parameters of a request about a thread.
pub open spec fn naming_thread(thread_id: Seq<char>) -> JsonView {
    JsonView::Object(seq![("threadId"@, JsonView::Text(thread_id))])
}

/// The parameters of the requests `thread/delete` and `thread/unarchive`.
pub fn thread_params(thread_id: &str) -> (params: Json)
    ensures
        params.view() == naming_thread(thread_id@),
{
    let entries = vec![json_field("threadId", Json::Text(thread_id.to_owned()))];
    assert(entry_views(entries@) =~= naming_thread(thread_id@)->Object_0);
    object(entries)
}

/// The parameters of a request for a thread with its turns.
pub open spec fn reading_thread(thread_id: Seq<char>) -> JsonView {
    JsonView::Object(
        seq![
            ("threadId"@, JsonView::Text(thread_id)),
            ("includeTurns"@, JsonView::Bool(true)),
        ],
    )
}

/// The parameters of the request `thread/read` for a thread with its turns.
pub fn read_params(thread_id: &str) -> (params: Json)
    ensures
        params.view() == reading_thread(thread_id@),
{
    let entries = vec![
        json_field("threadId", Json::Text(thread_id.to_owned())),
        json_field("includeTurns", Json::Bool(true)),
    ];
    assert(entry_views(entries@) =~= reading_thread(thread_id@)->Object_0);
    object(entries)
}

/// How far the deletion of a thread has come: which request is made next.
#[derive(Clone, Copy, Debug, PartialEq, Eq, Structural)]
pub enum Deletion {
    Delete,
    Unarchive,
    DeleteAgain,
}

impl Deletion {
    /// The method of the request.
    pub open spec fn method_text(self) -> Seq<char> {
        match self {
            Deletion::Unarchive => "thread/unarchive"@,
            _ => "thread/delete"@,
        }
    }

    /// Names the method of the request.
    pub fn method(&self) -> (method: String)
        ensures
            method@ == self.method_text(),
    {
        match self {
            Deletion::Unarchive => "thread/unarchive".to_owned(),
            _ => "thread/delete".to_owned(),
        }
    }

    /// How the deletion goes on after a request was done, or failed with a message.
    pub open spec fn followed_by(self, failure: Option<Seq<char>>) -> Result<
        Option<Deletion>,
        Seq<char>,
    > {
        match failure {
            None => match self {
                Deletion::Unarchive => Ok(Some(Deletion::DeleteAgain)),
                _ => Ok(None),
            },
            Some(message) => if self is Delete && contains(message, "no rollout found"@) {
                Ok(Some(Deletion::Unarchive))
            } else {
                Err(message)
            },
        }
    }

    /// Decides how the deletion goes on after a request was done or failed: a thread that cannot
    /// be found is taken out of the archive and then deleted again; any other failure ends it.
    pub fn next(self, failure: Option<String>) -> (result: Result<Option<Deletion>, String>)
        ensures
            match failure {
                None => result == Ok::<Option<Deletion>, String>(
                    if self is Unarchive {
                        Some(Deletion::DeleteAgain)
                    } else {
                        None
                    },
                ),
                Some(message) => if self is Delete && contains(message@, "no rollout found"@) {
                    result == Ok::<Option<Deletion>, String>(Some(Deletion::Unarchive))
                } else {
                    result == Err::<Option<Deletion>, String>(message)
                },
            },
            match result {
                Ok(next) => self.followed_by(opt_text(failure)) == Ok::<
                    Option<Deletion>,
                    Seq<char>,
                >(next),
                Err(message) => self.followed_by(opt_text(failure)) == Err::<
                    Option<Deletion>,
                    Seq<char>,
                >(message@),
            },
    {
        match failure {
            None => match self {
                Deletion::Unarchive => Ok(Some(Deletion::DeleteAgain)),
                _ => Ok(None),
            },
            Some(message) => {
                let missing = match self {
                    Deletion::Delete => contains_text(message.as_str(), "no rollout found"),
                    _ => false,
                };
                if missing {
                    Ok(Some(Deletion::Unarchive))
                } else {
                    Err(message)
                }
            },
        }
    }
}

/// The texts of the parts of a message that have one.
pub open spec fn part_texts(parts: Seq<JsonView>) -> Seq<Seq<char>>
    decreases parts.len(),
{
    if parts.len() == 0 {
        Seq::empty()
    } else {
        match json_text(member(parts.last(), "text"@)) {
            Some(text) => part_texts(parts.drop_last()).push(text),
            None => part_texts(parts.drop_last()),
        }
    }
}

/// The text of a message: its own, or the texts of its parts, one per line.
pub open spec fn text_of_item(item: JsonView) -> Option<Seq<char>> {
    match json_text(member(item, "text"@)) {
        Some(text) => Some(text),
        None => match json_items(member(item, "content"@)) {
            Some(parts) => if part_texts(parts).len() == 0 {
                None
            } else {
                Some(joined_with(part_texts(parts), "\n"@))
            },
            None => None,
        },
    }
}

/// Who said a message of a kind, where it is one that is shown.
pub open spec fn speaker(kind: Option<Seq<char>>) -> Option<Seq<char>> {
    if kind == Some("userMessage"@) {
        Some("You"@)
    } else if kind == Some("agentMessage"@) {
        Some("Codex"@)
    } else {
        None
    }
}

/// The message that an item of a turn is shown as, where it is one with a text.
pub open spec fn item_message(item: JsonView) -> Option<(Seq<char>, Seq<char>)> {
    match speaker(json_text(member(item, "type"@))) {
        Some(role) => match text_of_item(item) {
            Some(text) => if trimmed(text).len() == 0 {
                None
            } else {
                Some((role, text))
            },
            None => None,
        },
        None => None,
    }
}

/// The messages of items.
pub open spec fn item_messages(items: Seq<JsonView>) -> Seq<(Seq<char>, Seq<char>)>
    decreases items.len(),
{
    if items.len() == 0 {
        Seq::empty()
    } else {
        match item_message(items.last()) {
            Some(message) => item_messages(items.drop_last()).push(message),
            None => item_messages(items.drop_last()),
        }
    }
}

/// Items, or none.
pub open spec fn or_none(items: Option<Seq<JsonView>>) -> Seq<JsonView> {
    match items {
        Some(items) => items,
        None => Seq::empty(),
    }
}

/// The messages of turns.
pub open spec fn turn_messages(turns: Seq<JsonView>) -> Seq<(Seq<char>, Seq<char>)>
    decreases turns.len(),
{
    if turns.len() == 0 {
        Seq::empty()
    } else {
        turn_messages(turns.drop_last()) + item_messages(
            or_none(json_items(member(turns.last(), "items"@))),
        )
    }
}

/// The turns of a thread that was read.
pub open spec fn turns_of(result: JsonView) -> Seq<JsonView> {
    match member(result, "thread"@) {
        Some(thread) => or_none(json_items(member(thread, "turns"@))),
        None => Seq::empty(),
    }
}

/// The last items of a list, as many as asked for or all.
pub open spec fn last_of<T>(items: Seq<T>, count: int) -> Seq<T> {
    if items.len() <= count {
        items
    } else {
        items.skip(items.len() - count)
    }
}

/// Finds the text of a message: its own, or the texts of its parts, one per line.
pub fn message_text(item: &Json) -> (text: Option<String>)
    ensures
        opt_text(text) == text_of_item(item.view()),
{
    if let Some(value) = item.get("text") {
        if let Some(text) = value.as_str() {
            return Some(text.to_owned());
        }
    }
    let content = match item.get("content") {
        Some(content) => content,
        None => {
            return None;
        },
    };
    let parts = match content.as_array() {
        Some(parts) => parts,
        None => {
            return None;
        },
    };
    let ghost all = json_views(parts@);
    let mut found: Vec<String> = Vec::new();
    let count: usize = parts.len();
    let mut index: usize = 0;
    assert(texts(found@) =~= part_texts(all.take(0)));
    while index < count
        invariant
            index <= count,
            count == parts@.len(),
            all == json_views(parts@),
            texts(found@) == part_texts(all.take(index as int)),
        decreases count - index,
    {
        let ghost before = found@;
        proof {
            assert(all.take(index + 1).drop_last() =~= all.take(index as int));
            assert(all.take(index + 1).last() == parts@[index as int].view());
        }
        if let Some(value) = parts[index].get("text") {
            if let Some(text) = value.as_str() {
                found.push(text.to_owned());
                assert(texts(found@) =~= texts(before).push(text@));
            }
        }
        index = index + 1;
    }
    assert(all.take(count as int) =~= all);
    assert(texts(found@).len() == found@.len());
    if found.len() == 0 {
        None
    } else {
        Some(join_texts(&found, "\n"))
    }
}

fn find_message(item: &Json) -> (message: Option<Message>)
    ensures
        match message {
            Some(message) => item_message(item.view()) == Some((message.role@, message.text@)),
            None => item_message(item.view()) is None,
        },
{
    let kind = match item.get("type") {
        Some(value) => match value.as_str() {
            Some(kind) => kind,
            None => {
                return None;
            },
        },
        None => {
            return None;
        },
    };
    let role = if same_text(kind, "userMessage") {
        "You"
    } else if same_text(kind, "agentMessage") {
        "Codex"
    } else {
        return None;
    };
    match message_text(item) {
        Some(text) => if is_blank(text.as_str()) {
            None
        } else {
            Some(Message { role: role.to_owned(), text })
        },
        None => None,
    }
}

/// Lists what was said in the last turns of a thread that was read, by its user and by Codex.
pub fn extract_messages(result: &Json, turn_limit: usize) -> (messages: Vec<Message>)
    ensures
        messages_view(messages@) == turn_messages(last_of(turns_of(result.view()), turn_limit as int)),
{
    let mut messages: Vec<Message> = Vec::new();
    assert(messages_view(messages@) =~= turn_messages(Seq::empty()));
    let turns = match result.get("thread") {
        Some(thread) => match thread.get("turns") {
            Some(value) => match value.as_array() {
                Some(turns) => turns,
                None => {
                    return messages;
                },
            },
            None => {
                return messages;
            },
        },
        None => {
            return messages;
        },
    };
    let count: usize = turns.len();
    let start: usize = if count > turn_limit {
        count - turn_limit
    } else {
        0
    };
    let ghost every = json_views(turns@);
    let ghost recent = every.skip(start as int);
    assert(every.skip(0) =~= every);
    let mut index: usize = start;
    assert(recent.take(0) =~= Seq::<JsonView>::empty());
    while index < count
        invariant
            start <= index <= count,
            count == turns@.len(),
            every == json_views(turns@),
            recent == every.skip(start as int),
            messages_view(messages@) == turn_messages(recent.take(index - start)),
        decreases count - index,
    {
        let ghost said = messages_view(messages@);
        let turn = &turns[index];
        proof {
            let at = index - start;
            assert(recent.take(at + 1).drop_last() =~= recent.take(at));
            assert(recent.take(at + 1).last() == turns@[index as int].view());
        }
        let empty: Vec<Json> = Vec::new();
        let items = match turn.get("items") {
            Some(value) => match value.as_array() {
                Some(items) => items,
                None => &empty,
            },
            None => &empty,
        };
        let ghost all = json_views(items@);
        assert(all =~= or_none(json_items(member(turn.view(), "items"@))));
        let total: usize = items.len();
        let mut at: usize = 0;
        assert(messages_view(messages@) =~= said + item_messages(all.take(0)));
        while at < total
            invariant
                at <= total,
                total == items@.len(),
                all == json_views(items@),
                messages_view(messages@) == said + item_messages(all.take(at as int)),
            decreases total - at,
        {
            let ghost before = messages@;
            proof {
                assert(all.take(at + 1).drop_last() =~= all.take(at as int));
                assert(all.take(at + 1).last() == items@[at as int].view());
            }
            if let Some(message) = find_message(&items[at]) {
                messages.push(message);
                assert(messages_view(messages@) =~= messages_view(before).push(
                    (message.role@, message.text@),
                ));
                assert(messages_view(messages@) =~= said + item_messages(all.take(at + 1)));
            }
            at = at + 1;
        }
        assert(all.take(total as int) =~= all);
        index = index + 1;
    }
    assert(recent.take(count - start) =~= recent);
    messages
}

/// Whether messages are all from the user or from Codex, and none is blank.
pub open spec fn are_shown(messages: Seq<(Seq<char>, Seq<char>)>) -> bool {
    forall|k: int|
        0 <= k < messages.len() ==> ((#[trigger] messages[k]).0 == "You"@ || messages[k].0
            == "Codex"@) && trimmed(messages[k].1).len() > 0
}

proof fn lemma_item_messages(items: Seq<JsonView>)
    ensures
        are_shown(item_messages(items)),
    decreases items.len(),
{
    if items.len() > 0 {
        lemma_item_messages(items.drop_last());
    }
}

/// Only what the user and Codex said is listed, and nothing blank.
pub proof fn law_listed_messages_are_shown(turns: Seq<JsonView>)
    ensures
        are_shown(turn_messages(turns)),
    decreases turns.len(),
{
    if turns.len() > 0 {
        law_listed_messages_are_shown(turns.drop_last());
        lemma_item_messages(or_none(json_items(member(turns.last(), "items"@))));
    }
}

proof fn lemma_turn_messages(left: Seq<JsonView>, right: Seq<JsonView>)
    ensures
        turn_messages(left + right) == turn_messages(left) + turn_messages(right),
    decreases right.len(),
{
    if right.len() == 0 {
        assert(left + right =~= left);
        assert(turn_messages(left) + turn_messages(right) =~= turn_messages(left));
    } else {
        lemma_turn_messages(left, right.drop_last());
        assert((left + right).drop_last() =~= left + right.drop_last());
        assert(turn_messages(left + right) =~= turn_messages(left) + turn_messages(right));
    }
}

/// What is listed of the last turns is the end of what is listed of all.
pub proof fn law_recent_messages_come_last(turns: Seq<JsonView>, limit: nat)
    ensures
        exists|earlier: Seq<(Seq<char>, Seq<char>)>|
            turn_messages(turns) == #[trigger] (earlier + turn_messages(
                last_of(turns, limit as int),
            )),
{
    let recent = last_of(turns, limit as int);
    let before = turns.take(turns.len() - recent.len());
    assert(turns =~= before + recent);
    lemma_turn_messages(before, recent);
    assert(turn_messages(turns) == turn_messages(before) + turn_messages(recent));
}

} // verus!

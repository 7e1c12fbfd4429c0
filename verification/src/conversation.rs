//! What is kept of conversations: every message, whole and in its place.
use vstd::prelude::*;

use crate::agent::Thread;
use crate::codex::{item_messages, last_of, text_of_item, turn_messages, turns_of};
use crate::json::{entry, json_text, member, opt_json, JsonView};
use crate::pi::{heading, is_thread_of, session_of, text_of_content, with_message, with_record,
    PiMessage, Record, SessionView};
use crate::text::{joined_with, law_joined, law_lines, law_trimmed, lines, opt_text, trimmed,
    white_space};

verus! {

/// Whether a text holds something beside white space.
pub open spec fn says_something(text: Seq<char>) -> bool {
    exists|k: int| 0 <= k < text.len() && !white_space(#[trigger] text[k])
}

/// A text is trimmed to nothing if and only if it holds nothing but white space.
pub proof fn law_blank(text: Seq<char>)
    ensures
        trimmed(text).len() > 0 <==> says_something(text),
{
    law_trimmed(text);
    let (start, end) = choose|start: int, end: int|
        #![trigger text.subrange(start, end)]
        0 <= start <= end <= text.len() && trimmed(text) == text.subrange(start, end) && (forall|
            k: int,
        |
            0 <= k < start ==> white_space(#[trigger] text[k])) && (forall|k: int|
            end <= k < text.len() ==> white_space(#[trigger] text[k]));
    if trimmed(text).len() > 0 {
        assert(text.subrange(start, end)[0] == text[start]);
        assert(!white_space(text[start]));
    }
    if says_something(text) {
        let k = choose|k: int| 0 <= k < text.len() && !white_space(#[trigger] text[k]);
        assert(start <= k < end);
    }
}

/// A member of an object is the value of the first entry under its key.
pub proof fn law_member(entries: Seq<(Seq<char>, JsonView)>, key: Seq<char>, at: int)
    requires
        0 <= at < entries.len(),
        entries[at].0 == key,
        forall|k: int| 0 <= k < at ==> (#[trigger] entries[k]).0 != key,
    ensures
        member(JsonView::Object(entries), key) == Some(entries[at].1),
    decreases entries.len(),
{
    if at > 0 {
        let rest = entries.skip(1);
        assert(entries[0].0 != key);
        assert forall|k: int| 0 <= k < at - 1 implies (#[trigger] rest[k]).0 != key by {
            assert(rest[k] == entries[k + 1]);
        }
        law_member(rest, key, at - 1);
    }
}

/// Whether an item of a turn is something that the user or Codex said, with a text.
pub open spec fn is_said(item: JsonView, text: Seq<char>) -> bool {
    &&& member(item, "type"@) == Some(JsonView::Text("userMessage"@)) || member(item, "type"@)
        == Some(JsonView::Text("agentMessage"@))
    &&& text_of_item(item) == Some(text)
    &&& says_something(text)
}

/// Whether an item of a turn is something that the user or Codex said.
pub open spec fn is_shown(item: JsonView) -> bool {
    text_of_item(item) is Some && is_said(item, text_of_item(item)->0)
}

/// Who said an item.
pub open spec fn said_by(item: JsonView) -> Seq<char> {
    if member(item, "type"@) == Some(JsonView::Text("userMessage"@)) {
        "You"@
    } else {
        "Codex"@
    }
}

/// The items that are shown.
pub open spec fn shown_items(items: Seq<JsonView>) -> Seq<JsonView> {
    items.filter(|item: JsonView| is_shown(item))
}

proof fn lemma_kinds()
    ensures
        "userMessage"@ != "agentMessage"@,
{
    reveal_strlit("userMessage");
    reveal_strlit("agentMessage");
    assert("userMessage"@.len() == 11 && "agentMessage"@.len() == 12);
}

/// Everything that the user and Codex said in a turn is listed: there are as many messages as items
/// that the user or Codex said with a text that is not blank, and each message has the text of its
/// item, whole, and says who said it.
pub proof fn law_every_message_is_listed(items: Seq<JsonView>)
    ensures
        item_messages(items).len() == shown_items(items).len(),
        forall|k: int|
            0 <= k < shown_items(items).len() ==> {
                &&& Some((#[trigger] item_messages(items)[k]).1) == text_of_item(
                    shown_items(items)[k],
                )
                &&& item_messages(items)[k].0 == said_by(shown_items(items)[k])
            },
    decreases items.len(),
{
    reveal(Seq::filter);
    if items.len() > 0 {
        let rest = items.drop_last();
        let last = items.last();
        law_every_message_is_listed(rest);
        lemma_kinds();
        if text_of_item(last) is Some {
            law_blank(text_of_item(last)->0);
        }
        assert(shown_items(items) == if is_shown(last) {
            shown_items(rest).push(last)
        } else {
            shown_items(rest)
        });
        assert(crate::codex::item_message(last) is Some <==> is_shown(last));
    }
}

/// The messages of two lists of items, and of two lists of turns, are those of the first and then
/// those of the second: what is listed of an item does not depend on what stands around it.
pub proof fn law_messages_stand_by_themselves(left: Seq<JsonView>, right: Seq<JsonView>, turn: JsonView, items: Seq<JsonView>)
    ensures
        item_messages(left + right) == item_messages(left) + item_messages(right),
        turn_messages(left + right) == turn_messages(left) + turn_messages(right),
        member(turn, "items"@) == Some(JsonView::List(items)) ==> turn_messages(seq![turn])
            == item_messages(items),
        item_messages(Seq::empty()) == Seq::<(Seq<char>, Seq<char>)>::empty(),
        turn_messages(Seq::empty()) == Seq::<(Seq<char>, Seq<char>)>::empty(),
    decreases right.len(),
{
    if right.len() > 0 {
        law_messages_stand_by_themselves(left, right.drop_last(), turn, items);
        assert((left + right).drop_last() =~= left + right.drop_last());
        assert(item_messages(left + right) =~= item_messages(left) + item_messages(right));
        assert(turn_messages(left + right) =~= turn_messages(left) + turn_messages(right));
    } else {
        assert(left + right =~= left);
        assert(item_messages(left) + item_messages(right) =~= item_messages(left));
        assert(turn_messages(left) + turn_messages(right) =~= turn_messages(left));
        if member(turn, "items"@) == Some(JsonView::List(items)) {
            let one = seq![turn];
            assert(one.drop_last() =~= Seq::<JsonView>::empty());
            assert(turn_messages(one) =~= turn_messages(Seq::empty()) + item_messages(items));
            assert(turn_messages(one) =~= item_messages(items));
        }
    }
}

/// The text of an item is its own where it has one, whole. Otherwise it is made of the texts of its
/// parts, each whole and on lines of its own, and parts without a text are passed over.
pub proof fn law_item_text(item: JsonView, text: Seq<char>, left: Seq<JsonView>, right: Seq<JsonView>, part: JsonView)
    ensures
        member(item, "text"@) == Some(JsonView::Text(text)) ==> text_of_item(item) == Some(text),
        crate::codex::part_texts(left + right) == crate::codex::part_texts(left) + crate::codex::part_texts(right),
        crate::codex::part_texts(Seq::empty()) == Seq::<Seq<char>>::empty(),
        member(part, "text"@) == Some(JsonView::Text(text)) ==> crate::codex::part_texts(seq![part])
            == seq![text],
        !(member(part, "text"@) matches Some(JsonView::Text(_))) ==> crate::codex::part_texts(seq![part])
            == Seq::<Seq<char>>::empty(),
        !(member(item, "text"@) matches Some(JsonView::Text(_))) && member(item, "content"@)
            == Some(JsonView::List(seq![part])) && member(part, "text"@) == Some(
            JsonView::Text(text),
        ) ==> text_of_item(item) == Some(text),
        !(member(item, "text"@) matches Some(JsonView::Text(_))) && member(item, "content"@)
            == Some(JsonView::List(left + right)) && crate::codex::part_texts(left).len() > 0
            && crate::codex::part_texts(right).len() > 0 ==> text_of_item(item) == Some(
            joined_with(crate::codex::part_texts(left), "\n"@) + "\n"@ + joined_with(
                crate::codex::part_texts(right),
                "\n"@,
            ),
        ),
    decreases right.len(),
{
    let one = seq![part];
    reveal_with_fuel(crate::codex::part_texts, 2);
    assert(one.drop_last() =~= Seq::<JsonView>::empty());
    assert(one.last() == part);
    law_joined(crate::codex::part_texts(left), crate::codex::part_texts(right), text, "\n"@);
    if member(part, "text"@) == Some(JsonView::Text(text)) {
        assert(crate::codex::part_texts(one) =~= seq![text]);
    }
    if right.len() > 0 {
        law_item_text(item, text, left, right.drop_last(), part);
        assert((left + right).drop_last() =~= left + right.drop_last());
        assert(crate::codex::part_texts(left + right) =~= crate::codex::part_texts(left) + crate::codex::part_texts(
            right,
        ));
    } else {
        assert(left + right =~= left);
        assert(crate::codex::part_texts(left) + crate::codex::part_texts(right) =~= crate::codex::part_texts(left));
    }
}

/// The turns that are listed are the last ones, as many as asked for where there are so many, in
/// their order.
pub proof fn law_last_turns<T>(turns: Seq<T>, limit: nat)
    ensures
        last_of(turns, limit as int).len() == if turns.len() < limit {
            turns.len()
        } else {
            limit
        },
        forall|k: int|
            0 <= k < last_of(turns, limit as int).len() ==> #[trigger] last_of(
                turns,
                limit as int,
            )[k] == turns[turns.len() - last_of(turns, limit as int).len() + k],
{
}

/// The turns of a thread that was read are those that it lists.
pub proof fn law_turns(result: JsonView, thread: JsonView, turns: Seq<JsonView>)
    requires
        member(result, "thread"@) == Some(thread),
        member(thread, "turns"@) == Some(JsonView::List(turns)),
    ensures
        turns_of(result) == turns,
{
}

/// The text of what a Pi message holds is a text itself, whole, or is made of the texts of its parts
/// that are texts, each whole and on lines of its own; other parts are passed over.
pub proof fn law_content_text(text: Seq<char>, left: Seq<JsonView>, right: Seq<JsonView>, part: JsonView)
    ensures
        text_of_content(Some(JsonView::Text(text))) == Some(text),
        text_of_content(None) is None,
        crate::pi::part_texts(left + right) == crate::pi::part_texts(left) + crate::pi::part_texts(right),
        crate::pi::part_texts(Seq::empty()) == Seq::<Seq<char>>::empty(),
        member(part, "type"@) == Some(JsonView::Text("text"@)) && member(part, "text"@) == Some(
            JsonView::Text(text),
        ) ==> crate::pi::part_texts(seq![part]) == seq![text] && text_of_content(
            Some(JsonView::List(seq![part])),
        ) == Some(text),
        member(part, "type"@) != Some(JsonView::Text("text"@)) ==> crate::pi::part_texts(seq![part])
            == Seq::<Seq<char>>::empty(),
        crate::pi::part_texts(left).len() > 0 && crate::pi::part_texts(right).len() > 0 ==> text_of_content(
            Some(JsonView::List(left + right)),
        ) == Some(
            joined_with(crate::pi::part_texts(left), "\n"@) + "\n"@ + joined_with(
                crate::pi::part_texts(right),
                "\n"@,
            ),
        ),
        crate::pi::part_texts(left).len() == 0 ==> text_of_content(Some(JsonView::List(left))) is None,
        crate::pi::part_texts(left).len() > 0 ==> text_of_content(Some(JsonView::List(left))) == Some(
            joined_with(crate::pi::part_texts(left), "\n"@),
        ),
    decreases right.len(),
{
    let one = seq![part];
    reveal_with_fuel(crate::pi::part_texts, 2);
    assert(one.drop_last() =~= Seq::<JsonView>::empty());
    assert(one.last() == part);
    law_joined(crate::pi::part_texts(left), crate::pi::part_texts(right), text, "\n"@);
    if json_text(member(part, "type"@)) == Some("text"@) && json_text(member(part, "text"@))
        == Some(text) {
        assert(crate::pi::part_texts(one) =~= seq![text]);
    }
    if right.len() > 0 {
        law_content_text(text, left, right.drop_last(), part);
        assert((left + right).drop_last() =~= left + right.drop_last());
        assert(crate::pi::part_texts(left + right) =~= crate::pi::part_texts(left) + crate::pi::part_texts(right));
    } else {
        assert(left + right =~= left);
        assert(crate::pi::part_texts(left) + crate::pi::part_texts(right) =~= crate::pi::part_texts(left));
    }
}

proof fn lemma_roles()
    ensures
        "user"@ != "assistant"@,
        "You"@ != "Pi"@,
{
    reveal_strlit("user");
    reveal_strlit("assistant");
    reveal_strlit("You");
    reveal_strlit("Pi");
    assert("user"@.len() == 4 && "assistant"@.len() == 9 && "You"@.len() == 3 && "Pi"@.len() == 2);
}

/// A message of the user or of the assistant with a text that is not blank is kept whole: it is
/// added behind the others, with who said it and all of its text, which is the preview then. Any
/// other message changes nothing.
pub proof fn law_pi_message_is_kept_whole(session: SessionView, message: PiMessage, text: Seq<char>)
    ensures
        text_of_content(opt_json(message.content)) == Some(text) && says_something(text) && (
        message.role@ == "user"@ || message.role@ == "assistant"@) ==> {
            let after = with_message(session, message);
            &&& after.messages.len() == session.messages.len() + 1
            &&& after.messages.drop_last() == session.messages
            &&& after.messages.last().1 == text
            &&& after.messages.last().0 == if message.role@ == "user"@ {
                "You"@
            } else {
                "Pi"@
            }
            &&& after.preview == Some(text)
            &&& after.preview == Some(after.messages.last().1)
            &&& after.id == session.id && after.name == session.name && after.cwd == session.cwd
            &&& after.created_at == session.created_at && after.updated_at == session.updated_at
            &&& message.role@ == "assistant"@ || session.first_user_text is Some
                ==> after.first_user_text == session.first_user_text
            &&& message.role@ == "user"@ && session.first_user_text is None
                ==> after.first_user_text == Some(heading(text))
        },
        text_of_content(opt_json(message.content)) is None || (text_of_content(
            opt_json(message.content),
        ) == Some(text) && !says_something(text)) || (message.role@ != "user"@ && message.role@
            != "assistant"@) ==> with_message(session, message) == session,
{
    lemma_roles();
    law_blank(text);
    let after = with_message(session, message);
    if text_of_content(opt_json(message.content)) == Some(text) && says_something(text) && (
    message.role@ == "user"@ || message.role@ == "assistant"@) {
        assert(after.messages.drop_last() =~= session.messages);
    }
}

/// The heading of a text is its first line where that says something, and all of it where it does
/// not, or where the text is one line.
pub proof fn law_heading(first: Seq<char>, rest: Seq<char>)
    requires
        !first.contains('\n'),
        !first.contains('\r'),
    ensures
        heading(first) == first,
        says_something(first) ==> heading(first + seq!['\n'] + rest) == first,
        !says_something(first) ==> heading(first + seq!['\n'] + rest) == first + seq!['\n'] + rest,
{
    law_lines(first, rest);
    law_blank(first);
    if first.len() > 0 {
        if first.last() == '\r' {
            assert(first.contains(first[first.len() - 1]));
        }
    } else {
        assert(first =~= Seq::<char>::empty());
    }
}

/// Reading on adds to what was read: messages stay, in their order, and at most one comes with each
/// record; only records that are messages bring any.
pub proof fn law_messages_are_added_in_order(records: Seq<Record>, last: Record, stand_in: i64)
    ensures
        ({
            let before = session_of(records, stand_in).messages;
            let after = session_of(records.push(last), stand_in).messages;
            &&& before.len() <= after.len() <= before.len() + 1
            &&& after.take(before.len() as int) == before
            &&& last.kind@ != "message"@ ==> after == before
        }),
{
    assert(records.push(last).drop_last() =~= records);
    let before = session_of(records, stand_in).messages;
    let after = session_of(records.push(last), stand_in).messages;
    assert(after.take(before.len() as int) =~= before);
}

proof fn lemma_record_kinds()
    ensures
        "session"@ != "message"@,
        "session_info"@ != "message"@ && "session_info"@ != "session"@,
        "session_name"@ != "message"@ && "session_name"@ != "session"@,
        "name"@ != "message"@ && "name"@ != "session"@,
{
    reveal_strlit("session");
    reveal_strlit("message");
    reveal_strlit("session_info");
    reveal_strlit("session_name");
    reveal_strlit("name");
    assert("session"@.len() == 7 && "message"@.len() == 7 && "session_info"@.len() == 12
        && "session_name"@.len() == 12 && "name"@.len() == 4);
    assert("session"@[0] == 's' && "message"@[0] == 'm');
}

/// A record of kind `session` says under which identifier and in which directory the chat was held;
/// what it does not say stays as it was, and so it does with records of other kinds.
pub proof fn law_session_record(session: SessionView, record: Record, time: i64)
    ensures
        record.kind@ == "session"@ && record.id is Some ==> with_record(session, record, time).id
            == Some(record.id->0@),
        record.kind@ == "session"@ && record.cwd is Some ==> with_record(session, record, time).cwd
            == Some(record.cwd->0@),
        record.kind@ != "session"@ || record.id is None ==> with_record(session, record, time).id
            == session.id,
        record.kind@ != "session"@ || record.cwd is None ==> with_record(session, record, time).cwd
            == session.cwd,
        with_record(session, record, time).updated_at >= time,
        with_record(session, record, time).updated_at >= session.updated_at,
        with_record(session, record, time).updated_at == time || with_record(
            session,
            record,
            time,
        ).updated_at == session.updated_at,
        with_record(session, record, time).created_at <= time,
        record.kind@ == "message"@ && record.message is Some ==> with_record(
            session,
            record,
            time,
        ).messages == with_message(session, record.message->0).messages,
{
    lemma_record_kinds();
}

/// A session file without an identifier makes no chat. Any other makes one of Pi that goes by that
/// identifier, in the directory that the file names, with the preview that it ends with, used last
/// when it was last changed. It is called by its given name, or else by how the user began it.
pub proof fn law_chat_of_session(thread: Option<Thread>, path: Seq<char>, session: SessionView)
    requires
        is_thread_of(thread, path, session),
    ensures
        thread is Some <==> session.id is Some,
        thread matches Some(thread) ==> {
            &&& thread.harness_id@ == "pi"@
            &&& Some(thread.id@) == session.id
            &&& session.cwd is Some ==> Some(thread.cwd@) == session.cwd
            &&& session.preview is Some ==> Some(thread.preview@) == session.preview
            &&& session.name is Some ==> opt_text(thread.name) == session.name
            &&& session.name is None ==> opt_text(thread.name) == session.first_user_text
            &&& thread.last_used() == session.updated_at
            &&& thread.path is Some && thread.path->0@ == path
        },
{
}

} // verus!

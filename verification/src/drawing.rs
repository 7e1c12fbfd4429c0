//! What is drawn of projects, chats, panes and messages, and in which colors.
use vstd::prelude::*;
use vstd::string::*;

use crate::agent::{Thread, CODEX_HARNESS_ID, CURSOR_HARNESS_ID, OPENCODE_HARNESS_ID, PI_HARNESS_ID};
use crate::app::AppView;
use crate::launch::is_harness_at;
use crate::model::{ProjectView, Row};
use crate::mouse::{chat_count, counts_text};
use crate::opening::law_harness_is_found;
use crate::text::{decimal, opt_text};
use crate::theme::{color_of, colored, harness_color, hex_number, hex_value, without_hashes, Color,
    ResolvedTheme};
use crate::view::{left_status, message_lines, particulars, preview_lines, project_items_at,
    row_item, row_items, row_mark, transcript, LineView, SpanView};

verus! {

/// The text of a line.
pub open spec fn line_text(line: LineView) -> Seq<char> {
    match line {
        LineView::Styled(text, _) => text,
        LineView::Spans(spans) => spans_text(spans),
    }
}

/// The texts of spans, one behind the other.
pub open spec fn spans_text(spans: Seq<SpanView>) -> Seq<char>
    decreases spans.len(),
{
    if spans.len() == 0 {
        Seq::empty()
    } else {
        spans_text(spans.drop_last()) + spans.last().text
    }
}

/// Each message has three lines of the preview, in the order of the messages: who wrote it, all of its
/// text, and a blank line.
pub proof fn law_every_message_is_drawn(
    app: AppView,
    thread: Thread,
    messages: Seq<(Seq<char>, Seq<char>)>,
    theme: ResolvedTheme,
    k: int,
)
    requires
        0 <= k < messages.len(),
    ensures
        ({
            let shown = transcript(app, thread, messages, theme);
            &&& shown.len() == 3 * messages.len()
            &&& messages[k].0 == "You"@ ==> line_text(shown[3 * k]) == app.username
            &&& line_text(shown[3 * k + 1]) == messages[k].1
            &&& line_text(shown[3 * k + 2]) == ""@
        }),
    decreases messages.len(),
{
    let rest = messages.drop_last();
    let before = transcript(app, thread, rest, theme);
    let shown = transcript(app, thread, messages, theme);
    lemma_transcript_length(app, thread, rest, theme);
    if k < rest.len() {
        law_every_message_is_drawn(app, thread, rest, theme, k);
        assert(rest[k] == messages[k]);
        assert(shown[3 * k] == before[3 * k]);
        assert(shown[3 * k + 1] == before[3 * k + 1]);
        assert(shown[3 * k + 2] == before[3 * k + 2]);
    } else {
        let last = message_lines(app, thread, messages.last(), theme);
        assert(shown[3 * k] == last[0]);
        assert(shown[3 * k + 1] == last[1]);
        assert(shown[3 * k + 2] == last[2]);
    }
}

proof fn lemma_transcript_length(
    app: AppView,
    thread: Thread,
    messages: Seq<(Seq<char>, Seq<char>)>,
    theme: ResolvedTheme,
)
    ensures
        transcript(app, thread, messages, theme).len() == 3 * messages.len(),
    decreases messages.len(),
{
    if messages.len() > 0 {
        lemma_transcript_length(app, thread, messages.drop_last(), theme);
    }
}

/// The preview of a chat begins with its title; it says that the chat is live if and only if it has a
/// live pane; behind a blank line stand the messages that were read, or, where none were, what is
/// known of the chat.
pub proof fn law_preview_shows_the_chat(app: AppView, theme: ResolvedTheme, k: int)
    requires
        0 <= app.row_index < app.rows().len(),
        app.rows()[app.row_index] is Thread,
    ensures
        ({
            let shown = preview_lines(app, theme);
            let thread = *app.rows()[app.row_index]->thread;
            let live = app.rows()[app.row_index]->live is Some;
            let from: int = if live {
                4
            } else {
                3
            };
            &&& shown.len() > from
            &&& line_text(shown[0]) == thread.shown_title()
            &&& line_text(shown[1]) == particulars(app, thread)
            &&& live ==> line_text(shown[2]) == "\u{25cf} live"@
            &&& line_text(shown[from - 1]) == ""@
            &&& app.preview.len() == 0 ==> shown.len() == from + 1 && line_text(shown[from])
                == if thread.preview@.len() == 0 {
                "No transcript preview available."@
            } else {
                thread.preview@
            }
            &&& app.preview.len() > 0 ==> shown.len() == from + 3 * app.preview.len()
            &&& 0 <= k < app.preview.len() ==> line_text(shown[from + 3 * k + 1])
                == app.preview[k].1
        }),
{
    let thread = *app.rows()[app.row_index]->thread;
    let live = app.rows()[app.row_index]->live is Some;
    let from: int = if live {
        4
    } else {
        3
    };
    let shown = preview_lines(app, theme);
    lemma_transcript_length(app, thread, app.preview, theme);
    if 0 <= k < app.preview.len() {
        law_every_message_is_drawn(app, thread, app.preview, theme, k);
        assert(shown[from + 3 * k + 1] == transcript(app, thread, app.preview, theme)[3 * k + 1]);
    }
}

/// The preview of a pane that belongs to no chat tells where it is.
pub proof fn law_preview_shows_the_pane(app: AppView, theme: ResolvedTheme)
    requires
        0 <= app.row_index < app.rows().len(),
        app.rows()[app.row_index] is Agent,
    ensures
        ({
            let shown = preview_lines(app, theme);
            let window = app.rows()[app.row_index]->Agent_0;
            &&& shown.len() == 4
            &&& line_text(shown[1]) == window.session@ + ":"@ + window.window_name@
                + " \u{b7} "@ + window.cwd@
        }),
{
}

/// Each row has its own line in the list, in the order of the rows.
pub proof fn law_every_row_is_drawn(app: AppView, rows: Seq<Row>, theme: ResolvedTheme, k: int)
    requires
        0 <= k < rows.len(),
    ensures
        row_items(app, rows, theme).len() == rows.len(),
        row_items(app, rows, theme)[k] == row_item(app, rows[k], theme),
{
}

/// The line of a row shows a dot if and only if there is a live pane, then the mark of the harness,
/// then the title of the row, and the icon for archived chats if and only if the chat is archived and
/// such chats are shown.
pub proof fn law_row_line(app: AppView, row: Row, theme: ResolvedTheme)
    ensures
        ({
            let spans = row_item(app, row, theme);
            let live = match row {
                Row::Agent(_) => true,
                Row::Thread { thread: _, live } => live is Some,
            };
            let archived = app.show_archived && row is Thread && row->thread.archived;
            &&& spans.len() == 4
            &&& spans[0].text == if live {
                "\u{25cf} "@
            } else {
                "  "@
            }
            &&& spans[1].text == row_mark(app, row) + " "@
            &&& spans[2].text == row.shown_title()
            &&& spans[3].text == if archived {
                " "@ + app.config.ui.archive_icon@
            } else {
                ""@
            }
        }),
{
}

/// The mark of a row is that of the harness of its chat or pane, and a question mark where there is
/// no such harness.
pub proof fn law_row_mark(app: AppView, row: Row, at: int)
    ensures
        ({
            let id = match row {
                Row::Agent(window) => opt_text(window.harness_id),
                Row::Thread { thread, live: _ } => Some(thread.harness_id@),
            };
            &&& id is Some && is_harness_at(app.harnesses, id->0, at) ==> row_mark(app, row)
                == app.harnesses[at].marker@
            &&& id is None || (forall|k: int|
                0 <= k < app.harnesses.len() ==> (#[trigger] app.harnesses[k]).id@ != id->0)
                ==> row_mark(app, row) == "?"@
        }),
{
    let id = match row {
        Row::Agent(window) => opt_text(window.harness_id),
        Row::Thread { thread, live: _ } => Some(thread.harness_id@),
    };
    if id is Some {
        law_harness_is_found(app.harnesses, id->0);
    }
}

/// Each project at the given places has its own line in the list, in their order: a dot, which stands
/// out if and only if there are agents' panes, and the name.
pub proof fn law_every_project_is_drawn(
    projects: Seq<ProjectView>,
    places: Seq<int>,
    theme: ResolvedTheme,
    k: int,
)
    requires
        0 <= k < places.len(),
    ensures
        ({
            let items = project_items_at(projects, places, theme);
            &&& items.len() == places.len()
            &&& items[k].len() == 2
            &&& items[k][1].text == projects[places[k]].name
            &&& items[k][0].style == colored(
                if projects[places[k]].agents.len() > 0 {
                    theme.success
                } else {
                    theme.muted
                },
            )
        }),
{
}

/// All chats count, project by project.
pub proof fn law_chats_are_counted(left: Seq<ProjectView>, right: Seq<ProjectView>, one: ProjectView)
    ensures
        chat_count(left + right) == chat_count(left) + chat_count(right),
        chat_count(seq![one]) == one.threads.len(),
    decreases right.len(),
{
    reveal_with_fuel(chat_count, 2);
    assert(seq![one].drop_last().len() == 0);
    assert(seq![one].last() == one);
    if right.len() == 0 {
        assert(left + right =~= left);
    } else {
        law_chats_are_counted(left, right.drop_last(), one);
        assert((left + right).drop_last() =~= left + right.drop_last());
        assert((left + right).last() == right.last());
    }
}

/// The status bar tells how many projects and chats there are, and then the message, where it says
/// something else.
pub proof fn law_status_bar(app: AppView, theme: ResolvedTheme)
    ensures
        ({
            let spans = left_status(app, theme);
            &&& spans.len() >= 4
            &&& spans[1].text == "\u{f487} "@ + decimal(app.projects.len())
            &&& spans[3].text == "\u{f0ede} "@ + decimal(chat_count(app.projects))
            &&& app.status != counts_text(app.projects) ==> spans.len() >= 6 && spans[5].text
                == app.status && spans[5].style == colored(theme.error)
        }),
{
}

/// Six hexadecimal digits, of either case, behind a hash or not, name a color by its red, green and
/// blue parts.
pub proof fn law_color_code(digits: Seq<char>)
    requires
        digits.len() == 6,
        forall|k: int| 0 <= k < 6 ==> hex_value(#[trigger] digits[k]) is Some,
    ensures
        ({
            let part = |k: int| (hex_value(digits[k])->0 * 16 + hex_value(digits[k + 1])->0) as u8;
            &&& color_of(digits) == Color::Rgb(part(0), part(2), part(4))
            &&& color_of(seq!['#'] + digits) == Color::Rgb(part(0), part(2), part(4))
        }),
{
    assert(without_hashes(digits) == digits);
    let hashed = seq!['#'] + digits;
    assert(hashed.skip(1) =~= digits);
    assert(without_hashes(hashed) == without_hashes(digits));
    let value = |k: int| hex_value(digits[k])->0;
    lemma_six_digits(digits);
    lemma_parts(value(0), value(1), value(2), value(3), value(4), value(5));
}

proof fn lemma_six_digits(digits: Seq<char>)
    requires
        digits.len() == 6,
        forall|k: int| 0 <= k < 6 ==> hex_value(#[trigger] digits[k]) is Some,
    ensures
        ({
            let value = |k: int| hex_value(digits[k])->0;
            hex_number(digits) == Some(
                ((((value(0) * 16 + value(1)) * 16 + value(2)) * 16 + value(3)) * 16 + value(4))
                    * 16 + value(5),
            )
        }),
{
    let five = digits.drop_last();
    let four = five.drop_last();
    let three = four.drop_last();
    let two = three.drop_last();
    let one = two.drop_last();
    let value = |k: int| hex_value(digits[k])->0;
    assert(hex_value(digits[0]) is Some && hex_value(digits[1]) is Some && hex_value(digits[2])
        is Some && hex_value(digits[3]) is Some && hex_value(digits[4]) is Some && hex_value(
        digits[5],
    ) is Some);
    assert(hex_number(one.drop_last()) == Some(0nat));
    assert(hex_number(one) == Some(value(0)));
    assert(hex_number(two) == Some(value(0) * 16 + value(1)));
    assert(hex_number(three) == Some((value(0) * 16 + value(1)) * 16 + value(2)));
    assert(hex_number(four) == Some(((value(0) * 16 + value(1)) * 16 + value(2)) * 16 + value(3)));
    assert(hex_number(five) == Some(
        (((value(0) * 16 + value(1)) * 16 + value(2)) * 16 + value(3)) * 16 + value(4),
    ));
}

proof fn lemma_parts(a: nat, b: nat, c: nat, d: nat, e: nat, f: nat)
    requires
        a < 16 && b < 16 && c < 16 && d < 16 && e < 16 && f < 16,
    ensures
        ({
            let number = ((((a * 16 + b) * 16 + c) * 16 + d) * 16 + e) * 16 + f;
            &&& number / 65536 == a * 16 + b
            &&& number / 256 % 256 == c * 16 + d
            &&& number % 256 == e * 16 + f
        }),
{
}

/// What is no color code leaves the terminal's own color.
pub proof fn law_no_color_code(value: Seq<char>, k: int)
    requires
        value.len() == 0 || value[0] != '#',
        value.len() != 6 || (1 <= k < 6 && hex_value(value[k]) is None),
    ensures
        color_of(value) == Color::Reset,
{
    assert(without_hashes(value) == value);
    if value.len() == 6 {
        let digits = crate::theme::without_plus(value);
        let at = if value[0] == '+' {
            k - 1
        } else {
            k
        };
        assert(digits[at] == value[k]);
        lemma_no_number(digits, at);
    }
}

proof fn lemma_no_number(digits: Seq<char>, k: int)
    requires
        0 <= k < digits.len(),
        hex_value(digits[k]) is None,
    ensures
        hex_number(digits) is None,
    decreases digits.len(),
{
    if k < digits.len() - 1 {
        lemma_no_number(digits.drop_last(), k);
    }
}

/// Digits of either case count alike, each digit counts for one number below sixteen, and no two
/// digits of one case for the same.
pub proof fn law_digits(digit: char, other: char)
    ensures
        hex_value(digit) matches Some(value) ==> value < 16,
        'a' <= digit <= 'z' && other as int == digit as int - 32 ==> hex_value(digit) == hex_value(
            other,
        ),
        hex_value(digit) is Some && hex_value(digit) == hex_value(other) && digit != other
            ==> digit as int - other as int == 32 || other as int - digit as int == 32,
        '0' <= digit < other <= '9' || 'a' <= digit < other <= 'f' || ('0' <= digit <= '9' && 'a'
            <= other <= 'f') ==> hex_value(digit)->0 < hex_value(other)->0,
{
}

/// Each harness has its own color.
pub proof fn law_harness_colors(claude_id: Seq<char>, theme: ResolvedTheme)
    requires
        claude_id != PI_HARNESS_ID@,
        claude_id != CODEX_HARNESS_ID@,
        claude_id != CURSOR_HARNESS_ID@,
        claude_id != OPENCODE_HARNESS_ID@,
    ensures
        harness_color(PI_HARNESS_ID@, claude_id, theme) == theme.new_chat_pi,
        harness_color(CODEX_HARNESS_ID@, claude_id, theme) == theme.new_chat_codex,
        harness_color(CURSOR_HARNESS_ID@, claude_id, theme) == theme.new_chat_cursor,
        harness_color(OPENCODE_HARNESS_ID@, claude_id, theme) == theme.new_chat_opencode,
        harness_color(claude_id, claude_id, theme) == theme.new_chat_claude,
{
    reveal_strlit("pi");
    reveal_strlit("codex");
    reveal_strlit("cursor");
    reveal_strlit("opencode");
    assert(PI_HARNESS_ID@.len() == 2 && CODEX_HARNESS_ID@.len() == 5 && CURSOR_HARNESS_ID@.len() == 6
        && OPENCODE_HARNESS_ID@.len() == 8);
}

} // verus!

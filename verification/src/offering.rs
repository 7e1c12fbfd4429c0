//! Which harnesses are offered, how they are asked for, and how the interface begins.
use vstd::prelude::*;
use vstd::string::*;
use vstd::utf8::{decode_utf8, valid_utf8};

use crate::actions::{harness_chosen, scrolled, status_action_done};
use crate::agent::{claude_harness, codex_harness, cursor_harness, found_path, if_enabled,
    offered_harnesses, opencode_harness, pi_harness, CommandPaths, Harness, Thread,
    CODEX_HARNESS_ID, CURSOR_HARNESS_ID, OPENCODE_HARNESS_ID, PI_HARNESS_ID};
use crate::app::{AppView, DeleteChoice, PromptView, StatusAction, TargetView};
use crate::config::{Config, Environment, ThemeConfig};
use crate::geometry::{middle_of, Rect};
use crate::layout::PaneAreas;
use crate::model::Row;
use crate::mouse::{action_at, left_actions, on_click, on_harness_click, on_mouse, on_status_click,
    right_actions, search_label, MouseKind};
use crate::opening::is_idle;
use crate::outside::begun;
use crate::prompts::{chat_popup, chat_prompt_of, choice_spans, choice_style, command_text,
    harness_line, harness_lines, padded, prompt_lines, ChatPromptView};
use crate::state::StateView;
use crate::text::{first_line_of, opt_text, trimmed};
use crate::theme::{color_of, resolved, ResolvedTheme};
use crate::tmux::Client;
use crate::userpath::{prefix_length, shown_dir_path, shown_path};
use crate::view::{particulars, LineView};

verus! {

/// One where something is not switched off, and zero where it is.
pub open spec fn one_if_on(enabled: Option<bool>) -> int {
    if enabled is Some && !enabled->0 {
        0
    } else {
        1
    }
}

/// Codex is always offered, and every other harness unless it is switched off; they stand in a fixed
/// order, and there are no others.
pub proof fn law_offered(config: Config, paths: CommandPaths)
    ensures
        ({
            let offered = offered_harnesses(config, paths);
            let first = one_if_on(config.claude.enabled);
            let third = first + 1 + one_if_on(config.cursor.enabled);
            let fourth = third + one_if_on(config.opencode.enabled);
            &&& offered.len() == fourth + one_if_on(config.pi.enabled)
            &&& first == 1 ==> offered[0] == claude_harness(config, paths)
            &&& offered[first] == codex_harness(config, paths)
            &&& one_if_on(config.cursor.enabled) == 1 ==> offered[first + 1] == cursor_harness(
                config,
                paths,
            )
            &&& one_if_on(config.opencode.enabled) == 1 ==> offered[third] == opencode_harness(
                config,
                paths,
            )
            &&& one_if_on(config.pi.enabled) == 1 ==> offered[fourth] == pi_harness(config, paths)
        }),
{
    let offered = offered_harnesses(config, paths);
    let a = if_enabled(config.claude.enabled, claude_harness(config, paths));
    let b = seq![codex_harness(config, paths)];
    let c = if_enabled(config.cursor.enabled, cursor_harness(config, paths));
    let d = if_enabled(config.opencode.enabled, opencode_harness(config, paths));
    let e = if_enabled(config.pi.enabled, pi_harness(config, paths));
    assert(offered == a + b + c + d + e);
    assert(offered[a.len() as int] == b[0]);
    if a.len() > 0 {
        assert(offered[0] == a[0]);
    }
    if c.len() > 0 {
        assert(offered[0int + a.len() + 1] == c[0]);
    }
    if d.len() > 0 {
        assert(offered[0int + a.len() + 1 + c.len()] == d[0]);
    }
    if e.len() > 0 {
        assert(offered[0int + a.len() + 1 + c.len() + d.len()] == e[0]);
    }
}

/// Each harness goes by its own settings and by where its own command was found.
pub proof fn law_own_settings(config: Config, paths: CommandPaths)
    ensures
        ({
            let all = seq![
                claude_harness(config, paths),
                codex_harness(config, paths),
                cursor_harness(config, paths),
                opencode_harness(config, paths),
                pi_harness(config, paths),
            ];
            &&& all[0].id == config.claude.id@ && all[0].label == config.claude.label@
            &&& all[0].marker == config.claude.icon@ && all[0].command == config.claude.command@
            &&& all[0].command_path == opt_text(paths.claude) && all[0].kind is Basic
            &&& all[1].id == CODEX_HARNESS_ID@ && all[1].label == config.codex.label@
            &&& all[1].marker == config.codex.icon@ && all[1].command == config.codex.command@
            &&& all[1].command_path == opt_text(paths.codex) && (all[1].kind is Codex
                <==> paths.codex is Some) && !(all[1].kind is Pi)
            &&& all[2].id == CURSOR_HARNESS_ID@ && all[2].label == config.cursor.label@
            &&& all[2].marker == config.cursor.icon@ && all[2].command == config.cursor.command@
            &&& all[2].command_path == opt_text(paths.cursor) && all[2].kind is Basic
            &&& all[3].id == OPENCODE_HARNESS_ID@ && all[3].label == config.opencode.label@
            &&& all[3].marker == config.opencode.icon@ && all[3].command == config.opencode.command@
            &&& all[3].command_path == opt_text(paths.opencode) && all[3].kind is Basic
            &&& all[4].id == PI_HARNESS_ID@ && all[4].label == config.pi.label@
            &&& all[4].marker == config.pi.icon@ && all[4].command == config.pi.command@
            &&& all[4].command_path == opt_text(paths.pi) && all[4].kind is Pi
        }),
{
}

/// A command is found if and only if the script that looks for it succeeds and prints a line that is not
/// blank first; what was found is that line without blanks around it.
pub proof fn law_command_is_found(success: bool, stdout: Seq<u8>)
    requires
        valid_utf8(stdout),
    ensures
        ({
            let line = first_line_of(decode_utf8(stdout));
            &&& found_path(success, stdout) is Some <==> success && line is Some && trimmed(
                line->0,
            ).len() > 0
            &&& found_path(success, stdout) matches Some(path) ==> path == trimmed(line->0)
        }),
{
}

/// A click on a line within the border of the list of harnesses takes the harness of that line; a click
/// elsewhere changes nothing.
pub proof fn law_harness_is_clicked(app: AppView, x: int, y: int, popup: Rect)
    requires
        popup.x + popup.width <= 65535,
        popup.y + popup.height <= 65535,
        popup.width > 0,
        0 <= x,
        0 <= y,
    ensures
        ({
            let done = on_harness_click(app, x, y, popup);
            let line = y - popup.y - 1;
            let inside = popup.x < x < popup.x + popup.width - 1 && 0 <= line
                < app.harnesses.len() && y < popup.y + popup.height;
            &&& inside ==> done.app == harness_chosen(AppView { new_chat_harness_index: line, ..app })
            &&& !inside ==> done.app == app
            &&& done.effects.len() == 0
        }),
{
    reveal(on_harness_click);
}

/// The wheel scrolls what is shown by three lines, and no other movement of the mouse does anything.
pub proof fn law_wheel(app: AppView, x: int, y: int, areas: PaneAreas, size: Rect, now: u128)
    ensures
        on_mouse(app, MouseKind::ScrollDown, x, y, areas, size, now).app == scrolled(app, 3),
        on_mouse(app, MouseKind::ScrollUp, x, y, areas, size, now).app == scrolled(app, -3),
        on_mouse(app, MouseKind::ScrollDown, x, y, areas, size, now).effects.len() == 0,
        on_mouse(app, MouseKind::ScrollUp, x, y, areas, size, now).effects.len() == 0,
        on_mouse(app, MouseKind::Other, x, y, areas, size, now).app == app,
        on_mouse(app, MouseKind::Other, x, y, areas, size, now).effects.len() == 0,
        on_mouse(app, MouseKind::Press, x, y, areas, size, now) == on_click(
            app,
            x,
            y,
            areas,
            size,
            now,
        ),
{
    reveal(on_mouse);
}

/// A click on an action of the status bar does what the action stands for.
pub proof fn law_action_is_clicked(app: AppView, x: int, area: Rect)
    requires
        x >= area.x,
    ensures
        ({
            let done = on_status_click(app, x, area);
            match action_at(app, x - area.x, area.width as int) {
                Some(action) => done.effects == status_action_done(app, action).effects && done.app
                    == (AppView { last_click: None, ..status_action_done(app, action).app }),
                None => done.effects.len() == 0 && done.app == (AppView { last_click: None, ..app }),
            }
        }),
{
    reveal(on_status_click);
}

/// The actions that the status bar offers: those that keys do too. Whether a chat can be archived or
/// taken back goes by whether archived chats are shown.
pub proof fn law_actions_offered(show_archived: bool, search_mode: bool, query: Seq<char>)
    ensures
        right_actions(show_archived).map_values(|action: (Seq<char>, StatusAction)| action.1) == seq![
            StatusAction::Open,
            StatusAction::ToggleArchived,
            StatusAction::NewProject,
            StatusAction::New,
            if show_archived {
                StatusAction::SetUnarchived
            } else {
                StatusAction::SetArchived
            },
            StatusAction::Delete,
        ],
        left_actions(search_mode, query).map_values(|action: (Seq<char>, StatusAction)| action.1)
            == seq![StatusAction::Help, StatusAction::Search],
        search_mode ==> search_label(search_mode, query) == "\u{f422} "@ + query + "\u{2588}"@,
        !search_mode && query.len() > 0 ==> search_label(search_mode, query) == "\u{f422} "@ + query,
{
}

/// The interface begins with nothing open, nothing typed and nothing searched for; archived chats are
/// shown if the settings say so.
pub proof fn law_beginning(
    config: Config,
    tmux: Client,
    state: StateView,
    harnesses: Seq<Harness>,
    cia_command: Seq<char>,
    username: Seq<char>,
)
    ensures
        ({
            let app = begun(config, tmux, state, harnesses, cia_command, username);
            &&& is_idle(app)
            &&& app.running && !app.pending_g
            &&& app.state == state && app.harnesses == harnesses && app.config == config
            &&& app.username == username && app.cia_command == cia_command && app.tmux == tmux
            &&& app.show_archived == config.ui.archived_default
            &&& app.query.len() == 0 && app.focus is Projects && app.project_index == 0
                && app.row_index == 0
        }),
{
}

/// The question before something goes names it: a project by its name and its directory, a chat by its
/// title.
pub proof fn law_question_names_its_subject(
    prompt: PromptView,
    env: Environment,
    theme: ResolvedTheme,
)
    ensures
        ({
            let lines = prompt_lines(prompt, env, theme);
            &&& lines.len() == 4
            &&& lines[0] matches LineView::Styled(text, _) && text == match prompt.target {
                TargetView::Project { name, cwd: _ } => "Remove project "@ + name + "?"@,
                TargetView::Chat { thread } => "Delete chat "@ + thread.shown_title() + "?"@,
            }
            &&& prompt.target matches TargetView::Project { name: _, cwd } ==> (
            lines[1] matches LineView::Spans(spans) && spans.len() == 2 && spans[1].text
                == shown_dir_path(cwd, env))
            &&& lines[3] == LineView::Spans(choice_spans(prompt, theme))
        }),
{
}

/// The selected answer stands out, and no other does; to delete stands out in the color of errors.
pub proof fn law_selected_answer_stands_out(
    selected: DeleteChoice,
    choice: DeleteChoice,
    theme: ResolvedTheme,
)
    ensures
        choice_style(selected, choice, theme).bg is Some <==> selected == choice,
        choice_style(selected, choice, theme).bold <==> selected == choice,
        selected == choice && choice is Delete ==> choice_style(selected, choice, theme).bg == Some(
            theme.error,
        ),
        selected == choice && !(choice is Delete) ==> choice_style(selected, choice, theme).bg
            == Some(theme.selected),
{
}

/// Spaces stand behind a text up to a width, and nothing else changes.
pub proof fn law_padding(text: Seq<char>, width: int)
    ensures
        text.len() >= width ==> padded(text, width) == text,
        text.len() < width ==> padded(text, width) == text + Seq::new(
            (width - text.len()) as nat,
            |k: int| ' ',
        ),
    decreases width - text.len(),
{
    if text.len() < width {
        let more = text.push(' ');
        law_padding(more, width);
        assert(padded(text, width) =~= text + Seq::new(
            (width - text.len()) as nat,
            |k: int| ' ',
        ));
    }
}

/// Each harness has a line in the list for a new chat, in their order, with its mark, its label and the
/// path of its command; the selected one, and no other, stands out.
pub proof fn law_harnesses_are_listed(
    harnesses: Seq<Harness>,
    chosen: int,
    claude_id: Seq<char>,
    env: Environment,
    theme: ResolvedTheme,
    k: int,
)
    requires
        0 <= k < harnesses.len(),
    ensures
        ({
            let lines = harness_lines(harnesses, chosen, claude_id, env, theme);
            let path = match harnesses[k].command_path {
                Some(path) => shown_path(path@, env),
                None => "-"@,
            };
            &&& lines.len() == harnesses.len()
            &&& lines[k].len() == 4
            &&& lines[k][0].text.skip(1).take(harnesses[k].marker@.len() as int)
                == harnesses[k].marker@
            &&& lines[k][1].text.take(harnesses[k].label@.len() as int) == harnesses[k].label@
            &&& lines[k][2].text + lines[k][3].text == " "@ + path + " "@
            &&& forall|part: int|
                0 <= part < 4 ==> ((#[trigger] lines[k][part]).style.bg is Some <==> k == chosen)
        }),
{
    let lines = harness_lines(harnesses, chosen, claude_id, env, theme);
    law_padding(harnesses[k].label@, 14);
    law_padding(harnesses[k].marker@, 2);
    let path = command_text(harnesses[k], env);
    let cut = prefix_length(path);
    crate::userpath::law_split_path(path);
    assert(path.take(cut) + path.skip(cut) =~= path);
    assert(lines[k] == harness_line(harnesses[k], k == chosen, claude_id, env, theme));
    assert(lines[k][2].text + lines[k][3].text =~= " "@ + path + " "@);
    reveal_strlit(" ");
    let label = harnesses[k].label@;
    let marker = harnesses[k].marker@;
    assert(padded(label, 14).take(label.len() as int) =~= label);
    assert((" "@ + padded(marker, 2) + " "@).skip(1).take(marker.len() as int) =~= marker);
}

/// For a new chat the list of harnesses is shown while one is selected, with what is wrong as its title
/// where something is, and the name that is typed afterwards.
pub proof fn law_chat_is_asked_for(app: AppView, env: Environment, theme: ResolvedTheme)
    ensures
        ({
            let asked = chat_prompt_of(app, env, theme);
            &&& asked is Harnesses <==> app.new_chat_picking_harness
            &&& asked matches ChatPromptView::Harnesses { lines, title, panel: _ } ==> lines.len()
                == app.harnesses.len() && title == match app.new_chat_harness_error {
                Some(error) => " "@ + error + " "@,
                None => " Select Harness "@,
            }
            &&& asked matches ChatPromptView::Name(text) ==> text == " "@ + app.new_chat_name
                + "\u{2588}"@
        }),
{
}

/// What is put in the middle of an area lies in it, is as large as wanted where there is room, and leaves
/// as much on one side as on the other, up to one.
pub proof fn law_middle(area: Rect, width: int, height: int)
    requires
        area.x + area.width <= 65535,
        area.y + area.height <= 65535,
        0 <= width,
        0 <= height,
    ensures
        ({
            let inner = middle_of(area, width, height);
            let left = inner.x - area.x;
            let right = area.x + area.width - inner.x - inner.width;
            let above = inner.y - area.y;
            let below = area.y + area.height - inner.y - inner.height;
            &&& 0 <= left <= right <= left + 1
            &&& 0 <= above <= below <= above + 1
            &&& width <= area.width ==> inner.width == width
            &&& width > area.width ==> inner.width == area.width
            &&& height <= area.height ==> inner.height == height
            &&& height > area.height ==> inner.height == area.height
        }),
{
}

/// What is asked for a new chat has room for each harness.
pub proof fn law_room_for_harnesses(app: AppView, area: Rect)
    requires
        app.new_chat_picking_harness,
        app.harnesses.len() + 4 <= area.height,
    ensures
        chat_popup(app, area).height == app.harnesses.len() + 4,
{
}

/// Each color of the theme is the one that its own setting names.
pub proof fn law_theme(theme: ThemeConfig)
    ensures
        ({
            let colors = resolved(theme);
            &&& colors.foreground == color_of(theme.foreground@)
            &&& colors.muted == color_of(theme.muted@)
            &&& colors.accent == color_of(theme.accent@)
            &&& colors.error == color_of(theme.error@)
            &&& colors.success == color_of(theme.success@)
            &&& colors.warning == color_of(theme.warning@)
            &&& colors.selected == color_of(theme.selected@)
            &&& colors.title_focused == color_of(theme.title_focused@)
            &&& colors.title_unfocused == color_of(theme.title_unfocused@)
            &&& colors.border_focused == color_of(theme.border_focused@)
            &&& colors.border_unfocused == color_of(theme.border_unfocused@)
            &&& colors.archive_icon == color_of(theme.archive_icon@)
            &&& colors.preview_user == color_of(theme.preview_user@)
            &&& colors.preview_text == color_of(theme.preview_text@)
            &&& colors.preview_title == color_of(theme.preview_title@)
            &&& colors.new_chat_pi == color_of(theme.new_chat_pi@)
            &&& colors.new_chat_codex == color_of(theme.new_chat_codex@)
            &&& colors.new_chat_claude == color_of(theme.new_chat_claude@)
            &&& colors.new_chat_cursor == color_of(theme.new_chat_cursor@)
            &&& colors.new_chat_opencode == color_of(theme.new_chat_opencode@)
            &&& colors.new_chat_path == color_of(theme.new_chat_path@)
            &&& colors.new_chat_executable == color_of(theme.new_chat_executable@)
            &&& colors.new_chat_unfocused == color_of(theme.new_chat_unfocused@)
            &&& colors.status_projects == color_of(theme.status_projects@)
            &&& colors.status_threads == color_of(theme.status_threads@)
            &&& colors.status_open == color_of(theme.status_open@)
            &&& colors.status_new == color_of(theme.status_new@)
            &&& colors.status_new_chat == color_of(theme.status_new_chat@)
            &&& colors.status_search == color_of(theme.status_search@)
            &&& colors.status_archive == color_of(theme.status_archive@)
            &&& colors.status_archive_action == color_of(theme.status_archive_action@)
            &&& colors.status_unarchive == color_of(theme.status_unarchive@)
            &&& colors.status_delete == color_of(theme.status_delete@)
            &&& colors.status_help == color_of(theme.status_help@)
        }),
{
}

/// A text between two others.
pub open spec fn between(before: Seq<char>, part: Seq<char>, after: Seq<char>) -> Seq<char> {
    before + part + after
}

/// What is told of the source and the branch of a chat.
pub open spec fn source_and_branch(thread: Thread) -> Seq<char> {
    " \u{b7} "@ + (match thread.source {
        Some(source) => source@,
        None => "unknown"@,
    }) + " \u{b7} "@ + (match thread.git_info {
        Some(info) => match info.branch {
            Some(branch) => branch@,
            None => "no branch"@,
        },
        None => "no branch"@,
    }) + " \u{b7} created "@
}

/// The particulars of a chat hold its source and its branch, and end with the directory that it was held
/// in.
pub proof fn law_particulars(app: AppView, thread: Thread)
    ensures
        exists|before: Seq<char>, after: Seq<char>|
            particulars(app, thread) == #[trigger] between(
                before,
                source_and_branch(thread),
                after,
            ) && exists|date: Seq<char>| after == #[trigger] (date + " \u{b7} "@ + thread.cwd@),
{
    let text = particulars(app, thread);
    let label = match crate::app::harness_place(app.harnesses, thread.harness_id@) {
        Some(at) => app.harnesses[at].label@,
        None => thread.harness_id@,
    };
    let date = crate::dates::timestamp_text(thread.created_at as int);
    let behind = date + " \u{b7} "@ + thread.cwd@;
    assert(text =~= between(label, source_and_branch(thread), behind));
}

/// The row of a pane is titled by its harness, its session, and its chat or its window.
pub proof fn law_pane_title(window: crate::tmux::Window)
    ensures
        Row::Agent(window).shown_title() == "Live "@ + (match window.harness_id {
            Some(id) => id@,
            None => "agent"@,
        }) + " \u{b7} "@ + window.session@ + ":"@ + (match window.chat_title {
            Some(title) => title@,
            None => window.window_name@,
        }),
{
}

} // verus!

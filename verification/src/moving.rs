//! How the selection moves, how texts are typed, and what is hit by a click.
use vstd::prelude::*;

use crate::actions::{lemma_position, previewed, scrolled, searched, with_boundary, with_next};
use crate::app::{law_shown_projects_fit, AppView, ClickTarget, EffectView, Focus, LastClick};
use crate::config::Environment;
use crate::geometry::{entry_at, lies_in, moved, Rect};
use crate::keys::{edited, on_browse_key, on_chat_key, on_command, on_key, on_movement,
    on_project_key, on_search_key, Edit, Key, KeyCode};
use crate::layout::PaneAreas;
use crate::mouse::{on_click, on_pane_click, on_project_click, on_row_click};
use crate::opening::is_idle;
use crate::text::lowercase;

verus! {

/// What is one further in a list whose ends meet: the next, and the first behind the last; and the
/// other way round.
pub proof fn law_step(current: int, len: int)
    requires
        0 <= current < len,
    ensures
        moved(current, len, 1) == if current + 1 < len {
            current + 1
        } else {
            0
        },
        moved(current, len, -1) == if current > 0 {
            current - 1
        } else {
            len - 1
        },
{
    if current + 1 < len {
        vstd::arithmetic::div_mod::lemma_small_mod((current + 1) as nat, len as nat);
    } else {
        vstd::arithmetic::div_mod::lemma_mod_self_0(len);
    }
    if current > 0 {
        vstd::arithmetic::div_mod::lemma_small_mod((current - 1) as nat, len as nat);
    } else {
        vstd::arithmetic::div_mod::lemma_mod_add_multiples_vanish(-1, len);
        vstd::arithmetic::div_mod::lemma_small_mod((len - 1) as nat, len as nat);
    }
}

/// Where the keys go to the chats, the next row is selected, and the first behind the last, and the
/// other way round; the project stays, and nothing else changes.
pub proof fn law_next_row(app: AppView)
    requires
        app.focus is Threads,
        0 <= app.row_index < app.rows().len(),
    ensures
        with_next(app, 1) == (AppView {
            row_index: if app.row_index + 1 < app.rows().len() {
                app.row_index + 1
            } else {
                0
            },
            ..app
        }),
        with_next(app, -1) == (AppView {
            row_index: if app.row_index > 0 {
                app.row_index - 1
            } else {
                app.rows().len() - 1
            },
            ..app
        }),
        with_boundary(app, false) == (AppView { row_index: 0, ..app }),
        with_boundary(app, true) == (AppView { row_index: app.rows().len() - 1, ..app }),
{
    reveal(with_next);
    reveal(with_boundary);
    law_step(app.row_index, app.rows().len() as int);
}

/// Where the keys go to the projects, the next of those that are shown is selected, with its first
/// row, and the first behind the last, and the other way round.
pub proof fn law_next_project(app: AppView, at: int)
    requires
        app.focus is Projects,
        0 <= at < app.visible().len(),
        app.project_index == app.visible()[at],
    ensures
        with_next(app, 1) == (AppView {
            project_index: if at + 1 < app.visible().len() {
                app.visible()[at + 1]
            } else {
                app.visible()[0]
            },
            row_index: 0,
            ..app
        }),
        with_next(app, -1) == (AppView {
            project_index: if at > 0 {
                app.visible()[at - 1]
            } else {
                app.visible().last()
            },
            row_index: 0,
            ..app
        }),
        with_boundary(app, false) == (AppView {
            project_index: app.visible()[0],
            row_index: 0,
            ..app
        }),
        with_boundary(app, true) == (AppView {
            project_index: app.visible().last(),
            row_index: 0,
            ..app
        }),
{
    reveal(with_next);
    reveal(with_boundary);
    reveal(AppView::visible);
    law_shown_projects_fit(app.harnesses, app.projects, lowercase(app.query));
    assert forall|k: int| 0 <= k < at implies app.visible()[k] != app.project_index by {
        assert(app.visible()[k] < app.visible()[at]);
    }
    lemma_position(app.visible(), app.project_index, at);
    law_step(at, app.visible().len() as int);
}

/// Where the keys go to the preview, no selection moves.
pub proof fn law_preview_keeps_the_selection(app: AppView, delta: int, last: bool)
    requires
        app.focus is Preview,
    ensures
        with_next(app, delta) == app,
        with_boundary(app, last) == app,
{
    reveal(with_next);
    reveal(with_boundary);
}

/// The keys that move the selection: j, the down arrow and control with n go to the next entry; k,
/// the up arrow and control with p to the one before; G goes to the last, and g, pressed twice, to
/// the first. What is then selected is read anew.
pub proof fn law_keys_move_the_selection(app: AppView, key: Key, env: Environment)
    requires
        is_idle(app),
        !app.pending_g,
    ensures
        ({
            let done = on_key(app, key, env);
            let is = |letter: char| key.code == KeyCode::Char(letter);
            &&& key.code is Down || is('j') || (is('n') && key.control) ==> done == previewed(
                with_next(app, 1),
            )
            &&& key.code is Up || is('k') || (is('p') && key.control) ==> done == previewed(
                with_next(app, -1),
            )
            &&& is('G') ==> done == previewed(with_boundary(app, true))
            &&& is('d') && key.control ==> done.app == scrolled(app, 8) && done.effects.len() == 0
            &&& is('u') && key.control ==> done.app == scrolled(app, -8) && done.effects.len() == 0
            &&& is('g') && key.plain ==> done.app == (AppView { pending_g: true, ..app })
                && done.effects.len() == 0 && on_key(done.app, key, env) == previewed(
                with_boundary(app, false),
            )
        }),
{
    reveal(on_key);
    reveal(on_browse_key);
    reveal(on_command);
    reveal(on_movement);
    assert((AppView { pending_g: false, ..app }) == app);
}

/// What is shown in the preview scrolls by a number of lines, and not beyond its ends.
pub proof fn law_scrolling(app: AppView, lines: int)
    requires
        0 <= lines < 65536,
        0 <= app.preview_scroll < 65536,
    ensures
        scrolled(app, lines).preview_scroll == if app.preview_scroll < lines {
            0
        } else {
            app.preview_scroll - lines
        },
        lines > 0 ==> scrolled(app, -lines).preview_scroll == if app.preview_scroll + lines > 65535 {
            65535
        } else {
            app.preview_scroll + lines
        },
        scrolled(app, lines) == (AppView {
            preview_scroll: scrolled(app, lines).preview_scroll,
            focus: Focus::Preview,
            ..app
        }),
        lines <= app.preview_scroll && lines > 0 ==> scrolled(
            scrolled(app, lines),
            -lines,
        ).preview_scroll == app.preview_scroll,
{
    reveal(scrolled);
    vstd::arithmetic::div_mod::lemma_small_mod(lines as nat, 65536);
}

/// A character is put at the end of what is typed, as long as there is room; what is typed can be
/// taken back; all of it can be cleared.
pub proof fn law_typing(text: Seq<char>, character: char, limit: int)
    ensures
        text.len() < limit ==> edited(text, Edit::Type(character), limit) == text + seq![character],
        text.len() >= limit ==> edited(text, Edit::Type(character), limit) == text,
        text.len() < limit ==> edited(
            edited(text, Edit::Type(character), limit),
            Edit::Erase,
            limit,
        ) == text,
        edited(text + seq![character], Edit::Erase, limit) == text,
        edited(Seq::empty(), Edit::Erase, limit) == Seq::<char>::empty(),
        edited(text, Edit::Clear, limit) == Seq::<char>::empty(),
{
    assert((text + seq![character]).drop_last() =~= text);
    assert(text.push(character) =~= text + seq![character]);
}

/// While the path of a project is typed, keys go to it and to nothing else: characters are added up
/// to 240, the last is taken back, control with u clears, and Esc gives up.
pub proof fn law_path_is_typed(app: AppView, key: Key, env: Environment)
    requires
        app.delete_prompt is None,
        app.new_project_mode,
    ensures
        ({
            let done = on_key(app, key, env);
            let path = app.new_project_path;
            let with = |path: Seq<char>| AppView { new_project_path: path, ..app };
            &&& !(key.code is Enter) ==> done.effects.len() == 0
            &&& key.code is Char && !key.control ==> done.app == with(
                if path.len() < 240 {
                    path.push(key.code->Char_0)
                } else {
                    path
                },
            )
            &&& key.code is Backspace && path.len() > 0 ==> done.app == with(path.drop_last())
            &&& key.code == KeyCode::Char('u') && key.control ==> done.app == with(Seq::empty())
            &&& key.code is Esc ==> done.app == (AppView {
                new_project_mode: false,
                new_project_path: Seq::empty(),
                ..app
            })
        }),
{
    reveal(on_key);
    reveal(on_project_key);
}

/// While the name of a chat is typed, keys go to it and to nothing else: characters are added up to
/// 80, the last is taken back, control with u clears, and Esc gives up.
pub proof fn law_name_is_typed(app: AppView, key: Key, env: Environment)
    requires
        app.delete_prompt is None,
        !app.new_project_mode,
        app.new_chat_mode,
        !app.new_chat_picking_harness,
    ensures
        ({
            let done = on_key(app, key, env);
            let name = app.new_chat_name;
            let with = |name: Seq<char>| AppView { new_chat_name: name, ..app };
            &&& !(key.code is Enter) ==> done.effects.len() == 0
            &&& key.code is Char && !key.control ==> done.app == with(
                if name.len() < 80 {
                    name.push(key.code->Char_0)
                } else {
                    name
                },
            )
            &&& key.code is Backspace && name.len() > 0 ==> done.app == with(name.drop_last())
            &&& key.code == KeyCode::Char('u') && key.control ==> done.app == with(Seq::empty())
            &&& key.code is Esc ==> done.app == (AppView {
                new_chat_mode: false,
                new_chat_picking_harness: false,
                new_chat_harness_error: None,
                new_chat_name: Seq::empty(),
                ..app
            })
        }),
{
    reveal(on_key);
    reveal(on_chat_key);
    reveal(crate::keys::chat_given_up);
}

/// Where something is searched for, the first project that is shown is selected, with its first row;
/// what is searched for and what there is stay as they are.
pub proof fn law_search_selects_the_first(app: AppView)
    ensures
        ({
            let done = searched(app).app;
            &&& app.visible().len() > 0 ==> done.project_index == app.visible()[0]
            &&& done.row_index == 0
            &&& done.query == app.query && done.projects == app.projects && done.state == app.state
            &&& done.search_mode == app.search_mode && done.focus == app.focus
            &&& done.visible() == app.visible()
        }),
{
    reveal(searched);
    reveal(previewed);
    reveal(AppView::visible);
}

/// While something is searched for, keys go to the search and to nothing else: characters are
/// added, the last is taken back, control with u clears; Enter keeps what is searched for, and Esc
/// drops it.
pub proof fn law_search_is_typed(app: AppView, key: Key, env: Environment)
    requires
        app.delete_prompt is None,
        !app.new_project_mode,
        !app.new_chat_mode,
        app.search_mode,
    ensures
        ({
            let done = on_key(app, key, env).app;
            &&& key.code is Char && !key.control ==> done.query
                == app.query.push(key.code->Char_0) && done.search_mode
            &&& key.code is Backspace && app.query.len() > 0 ==> done.query
                == app.query.drop_last() && done.search_mode
            &&& key.code == KeyCode::Char('u') && key.control ==> done.query.len() == 0
                && done.search_mode
            &&& key.code is Esc ==> done.query.len() == 0 && !done.search_mode
            &&& key.code is Enter ==> done == (AppView { search_mode: false, ..app })
            &&& done.query != app.query ==> done.row_index == 0 && (done.visible().len() > 0
                ==> done.project_index == done.visible()[0])
            &&& done.projects == app.projects && done.state == app.state
        }),
{
    reveal(on_key);
    reveal(on_search_key);
    reveal(searched);
    reveal(previewed);
    reveal(AppView::visible);
}

/// A line of a list with a border shows the entry that stands as many lines below the border; the
/// lines of the border show none.
pub proof fn law_entry_in_a_line(area: Rect, y: int)
    requires
        area.y + area.height <= 65535,
        0 <= y,
    ensures
        entry_at(y, area) is Some <==> area.y < y < area.y + area.height - 1,
        entry_at(y, area) matches Some(index) ==> y == area.y + 1 + index,
{
}

/// A click on a project selects it, with its first row, and leaves the selection as it is where it
/// was selected; a second click within half a second goes on to its chats.
pub proof fn law_click_selects_project(app: AppView, index: int, now: u128)
    requires
        0 <= index < app.visible().len(),
    ensures
        ({
            let done = on_project_click(app, index, now);
            let place = app.visible()[index];
            &&& done.app.project_index == place
            &&& place != app.project_index ==> done.app.row_index == 0
            &&& place == app.project_index ==> done.app.row_index == app.row_index
                && done.effects.len() == 0
            &&& done.app.projects == app.projects && done.app.state == app.state && done.app.query
                == app.query
            &&& done.app.focus == if (app.last_click matches Some(last) && last.target
                == ClickTarget::Project(place as usize) && now - last.at <= 500_000_000) {
                Focus::Threads
            } else {
                app.focus
            }
        }),
{
    reveal(on_project_click);
    reveal(previewed);
}

/// A click on a row selects it; the project and all else that is shown stay.
pub proof fn law_click_selects_row(app: AppView, index: int, now: u128)
    requires
        0 <= index < app.rows().len(),
        app.last_click is None,
    ensures
        ({
            let done = on_row_click(app, index, now);
            &&& done.app.row_index == index
            &&& done.app.project_index == app.project_index
            &&& done.app.focus == app.focus
            &&& done.app.projects == app.projects && done.app.state == app.state && done.app.query
                == app.query
            &&& done.app.last_click == Some(
                LastClick { target: ClickTarget::Thread(index as usize), at: now },
            )
            &&& done.effects == if index == app.row_index {
                Seq::<EffectView>::empty()
            } else {
                previewed(AppView { row_index: index, ..app }).effects
            }
        }),
{
    reveal(on_row_click);
    reveal(previewed);
    reveal(AppView::rows);
}

/// A click goes to what lies under it: the keys then go to the pane that was hit, and a click beside
/// every pane does nothing.
pub proof fn law_click_goes_to_its_pane(
    app: AppView,
    x: int,
    y: int,
    areas: PaneAreas,
    size: Rect,
    now: u128,
)
    requires
        is_idle(app),
        !lies_in(areas.status, x, y),
    ensures
        ({
            let done = on_click(app, x, y, areas, size, now);
            let at_projects = lies_in(areas.projects, x, y);
            let at_threads = !at_projects && lies_in(areas.threads, x, y);
            let at_preview = !at_projects && !at_threads && lies_in(areas.preview, x, y);
            &&& at_projects ==> done == match entry_at(y, areas.projects) {
                Some(index) => on_project_click(
                    AppView { focus: Focus::Projects, ..app },
                    index,
                    now,
                ),
                None => crate::actions::quiet(AppView { focus: Focus::Projects, ..app }),
            }
            &&& at_threads ==> done == match entry_at(y, areas.threads) {
                Some(index) => on_row_click(AppView { focus: Focus::Threads, ..app }, index, now),
                None => crate::actions::quiet(AppView { focus: Focus::Threads, ..app }),
            }
            &&& at_preview ==> done.app.focus is Preview && done.effects.len() == 0
            &&& !at_projects && !at_threads && !at_preview ==> done.app == app
                && done.effects.len() == 0
        }),
{
    reveal(on_click);
    reveal(on_pane_click);
}

} // verus!

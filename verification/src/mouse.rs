//! What the mouse does, and what the status bar offers it.
use vstd::prelude::*;
use vstd::string::*;

use crate::actions::{activated, delete_confirmed, harness_chosen, opened, previewed, quiet, saying,
    scrolled, status_action_done, Next, Outcome};
use crate::agent::Thread;
use crate::app::{effect_views, harness_place, App, AppView, ClickTarget, DeleteChoice, DeleteTarget,
    Effect, EffectView, Focus, LastClick, StatusAction, TargetView};
use crate::geometry::{at_least_zero, capped, centered, contains, entry_at, lies_in, list_index_at,
    middle_of, screen, Rect};
use crate::keys::with_answer;
use crate::layout::PaneAreas;
use crate::model::{project_views, Project, ProjectView, Row};
use crate::text::{decimal, decimal_text, same_text};

verus! {

/// The number of chats of projects.
pub open spec fn chat_count(projects: Seq<ProjectView>) -> nat
    decreases projects.len(),
{
    if projects.len() == 0 {
        0
    } else {
        chat_count(projects.drop_last()) + projects.last().threads.len()
    }
}

/// What is said of the numbers of projects and chats.
pub open spec fn counts_text(projects: Seq<ProjectView>) -> Seq<char> {
    decimal(projects.len()) + " projects \u{b7} "@ + decimal(chat_count(projects)) + " threads"@
}

/// The label of the search in the status bar.
pub open spec fn search_label(search_mode: bool, query: Seq<char>) -> Seq<char> {
    if search_mode {
        "\u{f422} "@ + query + "\u{2588}"@
    } else if query.len() > 0 {
        "\u{f422} "@ + query
    } else {
        "\u{f422} /"@
    }
}

/// The actions on the left of the status bar, with their labels.
pub open spec fn left_actions(search_mode: bool, query: Seq<char>) -> Seq<
    (Seq<char>, StatusAction),
> {
    seq![
        ("\u{f09ee} \u{f02d6}"@, StatusAction::Help),
        (search_label(search_mode, query), StatusAction::Search),
    ]
}

/// The actions on the right of the status bar, with their labels.
pub open spec fn right_actions(show_archived: bool) -> Seq<(Seq<char>, StatusAction)> {
    seq![
        ("\u{f0dcf} (enter)"@, StatusAction::Open),
        ("\u{f004c} (a)ll"@, StatusAction::ToggleArchived),
        ("\u{f413} (N)ew Project"@, StatusAction::NewProject),
        ("\u{f44d} (n)ew Chat"@, StatusAction::New),
        if show_archived {
            ("\u{f0e2} (U)narchive"@, StatusAction::SetUnarchived)
        } else {
            ("\u{f411} (A)rchive"@, StatusAction::SetArchived)
        },
        ("\u{f48e} (D)elete"@, StatusAction::Delete),
    ]
}

/// Labels with their actions, by their texts.
pub open spec fn action_views(actions: Seq<(String, StatusAction)>) -> Seq<
    (Seq<char>, StatusAction),
> {
    actions.map_values(|action: (String, StatusAction)| (action.0@, action.1))
}

/// The action whose label covers a column, where labels stand one behind the other with gaps of
/// three columns between them, from a column on, with a gap before the first or none.
pub open spec fn action_in(
    actions: Seq<(Seq<char>, StatusAction)>,
    start: int,
    gap: bool,
    x: int,
) -> Option<StatusAction>
    decreases actions.len(),
{
    if actions.len() == 0 {
        None
    } else {
        let begin = if gap {
            start + 3
        } else {
            start
        };
        let end = begin + actions[0].0.len();
        if begin <= x < end {
            Some(actions[0].1)
        } else {
            action_in(actions.skip(1), end, true, x)
        }
    }
}

/// The columns that labels cover, with gaps of three columns between them.
pub open spec fn width_of(actions: Seq<(Seq<char>, StatusAction)>) -> int
    decreases actions.len(),
{
    if actions.len() == 0 {
        0
    } else if actions.len() == 1 {
        actions[0].0.len() as int
    } else {
        width_of(actions.drop_last()) + 3 + actions.last().0.len()
    }
}

/// The columns that the numbers and the message cover at the left of the status bar.
pub open spec fn message_end(app: AppView) -> int {
    1 + 2 + decimal(app.projects.len()).len() + 3 + 2 + decimal(chat_count(app.projects)).len() + (
    if app.status != counts_text(app.projects) {
        3 + app.status.len() as int
    } else {
        0
    })
}

/// The action in a column of the status bar, of a width.
#[verifier::opaque]
pub open spec fn action_at(app: AppView, x: int, width: int) -> Option<StatusAction> {
    match action_in(left_actions(app.search_mode, app.query), message_end(app), true, x) {
        Some(action) => Some(action),
        None => action_in(
            right_actions(app.show_archived),
            at_least_zero(width - width_of(right_actions(app.show_archived))),
            false,
            x,
        ),
    }
}

/// The harness that is shown in a line of a list with a border.
pub open spec fn harness_at(x: int, y: int, popup: Rect, count: int) -> Option<int> {
    let top = capped(popup.y as int, 1);
    if x <= popup.x || x >= at_least_zero(capped(popup.x as int, popup.width as int) - 1) {
        None
    } else if top <= y < top + count {
        Some(y - top)
    } else {
        None
    }
}

/// Finds the harness that is shown in a line of a list with a border.
pub fn harness_index_at(x: u16, y: u16, popup: Rect, count: usize) -> (index: Option<usize>)
    ensures
        match index {
            Some(index) => harness_at(x as int, y as int, popup, count as int) == Some(
                index as int,
            ),
            None => harness_at(x as int, y as int, popup, count as int) is None,
        },
{
    if x <= popup.x || x >= popup.x.saturating_add(popup.width).saturating_sub(1) {
        return None;
    }
    let first_row: u16 = popup.y.saturating_add(1);
    if y < first_row {
        return None;
    }
    let index: usize = (y - first_row) as usize;
    if index < count {
        Some(index)
    } else {
        None
    }
}

/// Whether a column lies in a range of a length that begins some columns behind another.
pub open spec fn in_range(x: int, from: int, offset: int, length: int) -> bool {
    capped(from, offset) <= x < capped(capped(from, offset), length)
}

/// The answer that is shown at a place in the question whether something is deleted.
pub open spec fn answer_at(x: int, y: int, popup: Rect, target: TargetView) -> Option<DeleteChoice> {
    if y != capped(popup.y as int, 4) {
        None
    } else if in_range(x, popup.x as int, 3, 4) {
        Some(DeleteChoice::No)
    } else {
        match target {
            TargetView::Chat { thread } => if in_range(x, popup.x as int, 9, 8) {
                Some(DeleteChoice::Delete)
            } else {
                None
            },
            TargetView::Project { name, cwd } => if in_range(x, popup.x as int, 9, 6) {
                Some(DeleteChoice::Hide)
            } else if in_range(x, popup.x as int, 17, 8) {
                Some(DeleteChoice::Delete)
            } else {
                None
            },
        }
    }
}

fn is_in_range(x: u16, from: u16, offset: u16, length: u16) -> (inside: bool)
    ensures
        inside == in_range(x as int, from as int, offset as int, length as int),
{
    let start: u16 = from.saturating_add(offset);
    x >= start && x < start.saturating_add(length)
}

/// Finds the answer that is shown at a place in the question whether something is deleted.
pub fn delete_choice_at(x: u16, y: u16, popup: Rect, target: &DeleteTarget) -> (choice: Option<
    DeleteChoice,
>)
    ensures
        choice == answer_at(x as int, y as int, popup, target.view()),
{
    if y != popup.y.saturating_add(4) {
        return None;
    }
    if is_in_range(x, popup.x, 3, 4) {
        return Some(DeleteChoice::No);
    }
    match target {
        DeleteTarget::Chat { thread: _ } => if is_in_range(x, popup.x, 9, 8) {
            Some(DeleteChoice::Delete)
        } else {
            None
        },
        DeleteTarget::Project { name: _, cwd: _ } => if is_in_range(x, popup.x, 9, 6) {
            Some(DeleteChoice::Hide)
        } else if is_in_range(x, popup.x, 17, 8) {
            Some(DeleteChoice::Delete)
        } else {
            None
        },
    }
}

/// Counts the chats of projects.
pub fn count_chats(projects: &Vec<Project>) -> (count: u128)
    ensures
        count == chat_count(project_views(projects@)),
{
    let ghost all = project_views(projects@);
    let total: usize = projects.len();
    let mut count: u128 = 0;
    let mut index: usize = 0;
    assert(total * usize::MAX <= u128::MAX) by (nonlinear_arith)
        requires
            total <= 0xffff_ffff_ffff_ffff,
            usize::MAX <= 0xffff_ffff_ffff_ffff,
    ;
    assert(all.take(0) =~= Seq::<ProjectView>::empty());
    while index < total
        invariant
            index <= total,
            total == projects@.len(),
            all == project_views(projects@),
            count == chat_count(all.take(index as int)),
            count <= index * usize::MAX,
            total * usize::MAX <= u128::MAX,
        decreases total - index,
    {
        proof {
            assert(all.take(index + 1).drop_last() =~= all.take(index as int));
            assert(all.take(index + 1).last() == projects@[index as int].view());
            assert(index * usize::MAX + usize::MAX == (index + 1) * usize::MAX) by (nonlinear_arith);
            assert((index + 1) * usize::MAX <= total * usize::MAX) by (nonlinear_arith)
                requires
                    index + 1 <= total,
            ;
        }
        count = count + projects[index].threads.len() as u128;
        index = index + 1;
    }
    assert(all.take(total as int) =~= all);
    count
}

/// Writes what is said of the numbers of projects and chats.
pub fn write_counts(projects: &Vec<Project>) -> (text: String)
    ensures
        text@ == counts_text(project_views(projects@)),
{
    let mut text = decimal_text(projects.len() as u128);
    text.append(" projects \u{b7} ");
    text.append(decimal_text(count_chats(projects)).as_str());
    text.append(" threads");
    text
}

fn labelled(label: &str, action: StatusAction) -> (labelled: (String, StatusAction))
    ensures
        labelled.0@ == label@,
        labelled.1 == action,
{
    (label.to_owned(), action)
}

/// Writes the label of the search in the status bar.
pub fn status_search_label(search_mode: bool, query: &str) -> (label: String)
    ensures
        label@ == search_label(search_mode, query@),
{
    if search_mode {
        let mut label = "\u{f422} ".to_owned();
        label.append(query);
        label.append("\u{2588}");
        label
    } else if !query.is_empty() {
        let mut label = "\u{f422} ".to_owned();
        label.append(query);
        label
    } else {
        "\u{f422} /".to_owned()
    }
}

/// Lists the actions on the left of the status bar.
pub fn status_actions_left(search_mode: bool, query: &str) -> (actions: Vec<(String, StatusAction)>)
    ensures
        action_views(actions@) == left_actions(search_mode, query@),
{
    let actions = vec![
        labelled("\u{f09ee} \u{f02d6}", StatusAction::Help),
        (status_search_label(search_mode, query), StatusAction::Search),
    ];
    assert(action_views(actions@) =~= left_actions(search_mode, query@));
    actions
}

/// Lists the actions on the right of the status bar.
pub fn status_actions_right(show_archived: bool) -> (actions: Vec<(String, StatusAction)>)
    ensures
        action_views(actions@) == right_actions(show_archived),
{
    let archive = if show_archived {
        labelled("\u{f0e2} (U)narchive", StatusAction::SetUnarchived)
    } else {
        labelled("\u{f411} (A)rchive", StatusAction::SetArchived)
    };
    let actions = vec![
        labelled("\u{f0dcf} (enter)", StatusAction::Open),
        labelled("\u{f004c} (a)ll", StatusAction::ToggleArchived),
        labelled("\u{f413} (N)ew Project", StatusAction::NewProject),
        labelled("\u{f44d} (n)ew Chat", StatusAction::New),
        archive,
        labelled("\u{f48e} (D)elete", StatusAction::Delete),
    ];
    assert(action_views(actions@) =~= right_actions(show_archived));
    actions
}

fn find_action(
    actions: &Vec<(String, StatusAction)>,
    start: u128,
    gap: bool,
    x: u128,
) -> (found: Option<StatusAction>)
    requires
        start + actions@.len() * 0x1_0000_0000_0000_0003 <= u128::MAX,
    ensures
        found == action_in(action_views(actions@), start as int, gap, x as int),
{
    let ghost all = action_views(actions@);
    let count: usize = actions.len();
    let mut cursor: u128 = start;
    let mut behind = gap;
    let mut index: usize = 0;
    assert(all.skip(0) =~= all);
    while index < count
        invariant
            index <= count,
            count == actions@.len(),
            all == action_views(actions@),
            action_in(all, start as int, gap, x as int) == action_in(
                all.skip(index as int),
                cursor as int,
                behind,
                x as int,
            ),
            cursor <= start + index * 0x1_0000_0000_0000_0003,
            start + count * 0x1_0000_0000_0000_0003 <= u128::MAX,
        decreases count - index,
    {
        proof {
            assert(all.skip(index as int)[0] == (
                actions@[index as int].0@,
                actions@[index as int].1,
            ));
            assert(all.skip(index as int).skip(1) =~= all.skip(index + 1));
            assert((index + 1) * 0x1_0000_0000_0000_0003 <= count * 0x1_0000_0000_0000_0003)
                by (nonlinear_arith)
                requires
                    index + 1 <= count,
            ;
        }
        if behind {
            cursor = cursor + 3;
        }
        let end: u128 = cursor + actions[index].0.as_str().unicode_len() as u128;
        if cursor <= x && x < end {
            return Some(actions[index].1);
        }
        cursor = end;
        behind = true;
        index = index + 1;
    }
    None
}

fn columns_of(actions: &Vec<(String, StatusAction)>) -> (width: u128)
    requires
        actions@.len() * 0x1_0000_0000_0000_0003 <= u128::MAX,
    ensures
        width == width_of(action_views(actions@)),
{
    let ghost all = action_views(actions@);
    let count: usize = actions.len();
    let mut width: u128 = 0;
    let mut index: usize = 0;
    assert(all.take(0) =~= Seq::<(Seq<char>, StatusAction)>::empty());
    while index < count
        invariant
            index <= count,
            count == actions@.len(),
            all == action_views(actions@),
            width == width_of(all.take(index as int)),
            width <= index * 0x1_0000_0000_0000_0003,
            count * 0x1_0000_0000_0000_0003 <= u128::MAX,
        decreases count - index,
    {
        proof {
            let next = all.take(index + 1);
            assert(next.drop_last() =~= all.take(index as int));
            assert(next.last() == (actions@[index as int].0@, actions@[index as int].1));
            assert(next[0] == all[0]);
            assert((index + 1) * 0x1_0000_0000_0000_0003 <= count * 0x1_0000_0000_0000_0003)
                by (nonlinear_arith)
                requires
                    index + 1 <= count,
            ;
        }
        if index > 0 {
            width = width + 3;
        }
        width = width + actions[index].0.as_str().unicode_len() as u128;
        index = index + 1;
    }
    assert(all.take(count as int) =~= all);
    width
}

impl App {
    /// Finds how many columns the numbers and the message cover at the left of the status bar.
    pub fn message_columns(&self) -> (end: u128)
        ensures
            end == message_end(self.view()),
            end <= 4 * 0x1_0000_0000_0000_0003,
    {
        proof {
            reveal(App::view);
        }
        let projects: usize = decimal_text(self.projects.len() as u128).as_str().unicode_len();
        let chats: usize = decimal_text(count_chats(&self.projects)).as_str().unicode_len();
        let mut end: u128 = 1 + 2 + projects as u128 + 3 + 2 + chats as u128;
        if !same_text(self.status.as_str(), write_counts(&self.projects).as_str()) {
            end = end + 3 + self.status.as_str().unicode_len() as u128;
        }
        end
    }

    /// Finds the action in a column of the status bar, of a width.
    pub fn status_action_at(&self, x: u16, width: u16) -> (action: Option<StatusAction>)
        ensures
            action == action_at(self.view(), x as int, width as int),
    {
        proof {
            reveal(App::view);
            reveal(action_at);
        }
        let left = status_actions_left(self.search_mode, self.query.as_str());
        assert(action_views(left@).len() == 2);
        let end: u128 = self.message_columns();
        if let Some(action) = find_action(&left, end, true, x as u128) {
            return Some(action);
        }
        let right = status_actions_right(self.show_archived);
        assert(action_views(right@).len() == 6);
        let covered: u128 = columns_of(&right);
        let start: u128 = if covered < width as u128 {
            width as u128 - covered
        } else {
            0
        };
        find_action(&right, start, false, x as u128)
    }
}

/// Whether a click is the second of two on one thing within half a second.
pub open spec fn is_double_click(last: Option<LastClick>, target: ClickTarget, now: u128) -> bool {
    last matches Some(last) && last.target == target && now - last.at <= 500_000_000
}

/// The interface after a click on something.
pub open spec fn with_click(app: AppView, target: ClickTarget, now: u128) -> AppView {
    AppView { last_click: Some(LastClick { target, at: now }), ..app }
}

/// The interface with its last click forgotten.
pub open spec fn without_click(app: AppView) -> AppView {
    AppView { last_click: None, ..app }
}

/// An outcome after which the last click is forgotten.
pub open spec fn forgetting(outcome: Outcome) -> Outcome {
    Outcome { app: without_click(outcome.app), ..outcome }
}

/// What a click does while the question whether something is deleted is asked.
#[verifier::opaque]
pub open spec fn on_prompt_click(
    app: AppView,
    target: TargetView,
    x: int,
    y: int,
    popup: Rect,
) -> Outcome {
    forgetting(
        match answer_at(x, y, popup, target) {
            Some(choice) => if choice is No {
                quiet(AppView { delete_prompt: None, ..app })
            } else {
                delete_confirmed(with_answer(app, choice))
            },
            None => quiet(app),
        },
    )
}

/// What a click does while the harness of a new chat is selected.
#[verifier::opaque]
pub open spec fn on_harness_click(app: AppView, x: int, y: int, popup: Rect) -> Outcome {
    match harness_at(x, y, popup, app.harnesses.len() as int) {
        Some(index) => if lies_in(popup, x, y) {
            quiet(harness_chosen(AppView { new_chat_harness_index: index, ..app }))
        } else {
            quiet(app)
        },
        None => quiet(app),
    }
}

/// What a click does on a project in the list.
#[verifier::opaque]
pub open spec fn on_project_click(app: AppView, index: int, now: u128) -> Outcome {
    if !(0 <= index < app.visible().len()) {
        quiet(app)
    } else {
        let place = app.visible()[index];
        let target = ClickTarget::Project(place as usize);
        let clicked = with_click(app, target, now);
        let shown = if place != app.project_index {
            previewed(AppView { project_index: place, row_index: 0, ..clicked })
        } else {
            quiet(clicked)
        };
        if is_double_click(app.last_click, target, now) {
            Outcome { app: AppView { focus: Focus::Threads, ..shown.app }, ..shown }
        } else {
            shown
        }
    }
}

/// What a click does on a row in the list. Where a double click selects the row, its messages are
/// read before it is opened, so that what opening has to say comes last.
#[verifier::opaque]
pub open spec fn on_row_click(app: AppView, index: int, now: u128) -> Outcome {
    if !(0 <= index < app.rows().len()) {
        quiet(app)
    } else {
        let target = ClickTarget::Thread(index as usize);
        let clicked = with_click(app, target, now);
        let double = is_double_click(app.last_click, target, now);
        if index != app.row_index {
            let shown = previewed(AppView { row_index: index, ..clicked });
            if double {
                Outcome { app: shown.app, effects: shown.effects.push(EffectView::Activate) }
            } else {
                shown
            }
        } else if double {
            activated(clicked)
        } else {
            quiet(clicked)
        }
    }
}

/// What a click does on the status bar.
#[verifier::opaque]
pub open spec fn on_status_click(app: AppView, x: int, area: Rect) -> Outcome {
    forgetting(
        match action_at(app, at_least_zero(x - area.x), area.width as int) {
            Some(action) => status_action_done(app, action),
            None => quiet(app),
        },
    )
}

/// What a click does on one of the panes.
#[verifier::opaque]
pub open spec fn on_pane_click(
    app: AppView,
    x: int,
    y: int,
    areas: PaneAreas,
    now: u128,
) -> Outcome {
    if lies_in(areas.status, x, y) {
        on_status_click(app, x, areas.status)
    } else if lies_in(areas.projects, x, y) {
        let focused = AppView { focus: Focus::Projects, ..app };
        match entry_at(y, areas.projects) {
            Some(index) => on_project_click(focused, index, now),
            None => quiet(focused),
        }
    } else if lies_in(areas.threads, x, y) {
        let focused = AppView { focus: Focus::Threads, ..app };
        match entry_at(y, areas.threads) {
            Some(index) => on_row_click(focused, index, now),
            None => quiet(focused),
        }
    } else if lies_in(areas.preview, x, y) {
        quiet(with_click(AppView { focus: Focus::Preview, ..app }, ClickTarget::Preview, now))
    } else {
        quiet(app)
    }
}

/// What a click does, on a screen of a size, at a time in nanoseconds. A question comes before the
/// path of a new project, then a new chat, then the help, which any click closes.
#[verifier::opaque]
pub open spec fn on_click(
    app: AppView,
    x: int,
    y: int,
    areas: PaneAreas,
    size: Rect,
    now: u128,
) -> Outcome {
    match app.delete_prompt {
        Some(prompt) => on_prompt_click(app, prompt.target, x, y, middle_of(size, 76, 8)),
        None => if app.new_project_mode {
            quiet(without_click(app))
        } else if app.new_chat_mode {
            if app.new_chat_picking_harness {
                on_harness_click(app, x, y, middle_of(size, 96, app.harnesses.len() as int + 4))
            } else {
                quiet(app)
            }
        } else if app.show_help {
            quiet(without_click(AppView { show_help: false, ..app }))
        } else {
            on_pane_click(app, x, y, areas, now)
        },
    }
}

impl App {
    /// Forgets the last click.
    pub fn forget_click(self) -> (app: App)
        ensures
            app.view() == without_click(self.view()),
    {
        proof {
            reveal(App::view);
        }
        let mut app = self;
        app.last_click = None;
        app
    }

    /// Remembers a click on something, at a time in nanoseconds, and tells whether it is the second
    /// of two.
    pub fn register_click(self, target: ClickTarget, now: u128) -> (clicked: (App, bool))
        ensures
            clicked.0.view() == with_click(self.view(), target, now),
            clicked.1 == is_double_click(self.view().last_click, target, now),
    {
        proof {
            reveal(App::view);
        }
        let double_click = match self.last_click {
            Some(last) => last.target == target && (now <= last.at || now - last.at
                <= 500_000_000),
            None => false,
        };
        let mut app = self;
        app.last_click = Some(LastClick { target, at: now });
        (app, double_click)
    }

    fn clicked_answer(&self, x: u16, y: u16, popup: Rect) -> (choice: Option<DeleteChoice>)
        requires
            self.view().delete_prompt is Some,
        ensures
            choice == answer_at(
                x as int,
                y as int,
                popup,
                self.view().delete_prompt->0.target,
            ),
    {
        proof {
            reveal(App::view);
        }
        match &self.delete_prompt {
            Some(prompt) => delete_choice_at(x, y, popup, &prompt.target),
            None => None,
        }
    }

    /// Does what a click stands for while the question whether something is deleted is asked.
    pub fn handle_delete_prompt_click(self, x: u16, y: u16, popup: Rect) -> (next: Next)
        requires
            self.view().delete_prompt is Some,
        ensures
            next.outcome() == on_prompt_click(
                self.view(),
                self.view().delete_prompt->0.target,
                x as int,
                y as int,
                popup,
            ),
    {
        proof {
            reveal(on_prompt_click);
        }
        let next = match self.clicked_answer(x, y, popup) {
            Some(choice) => match choice {
                DeleteChoice::No => self.without_prompt().quietly(),
                _ => self.with_choice(choice).confirm_delete(),
            },
            None => self.quietly(),
        };
        Next { app: next.app.forget_click(), effects: next.effects }
    }

    fn count_harnesses(&self) -> (count: usize)
        ensures
            count == self.view().harnesses.len(),
    {
        proof {
            reveal(App::view);
        }
        self.harnesses.len()
    }

    /// Does what a click stands for while the harness of a new chat is selected.
    pub fn handle_new_chat_click(self, x: u16, y: u16, popup: Rect) -> (next: Next)
        ensures
            next.outcome() == on_harness_click(self.view(), x as int, y as int, popup),
    {
        proof {
            reveal(on_harness_click);
        }
        if !contains(popup, x, y) {
            return self.quietly();
        }
        match harness_index_at(x, y, popup, self.count_harnesses()) {
            Some(index) => self.set_new_chat_harness_index(index).quietly(),
            None => self.quietly(),
        }
    }

    fn handle_project_click(self, index: usize, now: u128) -> (next: Next)
        ensures
            next.outcome() == on_project_click(self.view(), index as int, now),
    {
        proof {
            reveal(on_project_click);
        }
        let visible = self.visible_project_indices();
        assert(visible@.map_values(|at: usize| at as int).len() == visible@.len());
        if index >= visible.len() {
            return self.quietly();
        }
        let place: usize = visible[index];
        assert(visible@.map_values(|at: usize| at as int)[index as int] == place);
        let (project_index, _) = self.selection();
        let (app, double_click) = self.register_click(ClickTarget::Project(place), now);
        let next = if place != project_index {
            app.with_project(place).load_preview()
        } else {
            app.quietly()
        };
        if double_click {
            Next { app: next.app.with_focus(Focus::Threads), effects: next.effects }
        } else {
            next
        }
    }

    fn handle_row_click(self, index: usize, now: u128) -> (next: Next)
        ensures
            next.outcome() == on_row_click(self.view(), index as int, now),
    {
        proof {
            reveal(on_row_click);
        }
        let shown: usize = self.current_rows().len();
        if index >= shown {
            return self.quietly();
        }
        let (_, row_index) = self.selection();
        let (app, double_click) = self.register_click(ClickTarget::Thread(index), now);
        if index != row_index {
            let next = app.with_row(index).load_preview();
            if double_click {
                let mut effects = next.effects;
                let ghost first = effects@;
                effects.push(Effect::Activate);
                assert(effect_views(effects@) =~= effect_views(first).push(EffectView::Activate));
                Next { app: next.app, effects }
            } else {
                next
            }
        } else if double_click {
            app.activate()
        } else {
            app.quietly()
        }
    }

    fn handle_status_click(self, x: u16, area: Rect) -> (next: Next)
        ensures
            next.outcome() == on_status_click(self.view(), x as int, area),
    {
        proof {
            reveal(on_status_click);
        }
        let next = match self.status_action_at(x.saturating_sub(area.x), area.width) {
            Some(action) => self.run_status_action(action),
            None => self.quietly(),
        };
        Next { app: next.app.forget_click(), effects: next.effects }
    }

    fn handle_pane_click(self, x: u16, y: u16, areas: PaneAreas, now: u128) -> (next: Next)
        ensures
            next.outcome() == on_pane_click(self.view(), x as int, y as int, areas, now),
    {
        proof {
            reveal(on_pane_click);
        }
        if contains(areas.status, x, y) {
            self.handle_status_click(x, areas.status)
        } else if contains(areas.projects, x, y) {
            let app = self.with_focus(Focus::Projects);
            match list_index_at(y, areas.projects) {
                Some(index) => app.handle_project_click(index, now),
                None => app.quietly(),
            }
        } else if contains(areas.threads, x, y) {
            let app = self.with_focus(Focus::Threads);
            match list_index_at(y, areas.threads) {
                Some(index) => app.handle_row_click(index, now),
                None => app.quietly(),
            }
        } else if contains(areas.preview, x, y) {
            let app = self.with_focus(Focus::Preview);
            let (app, _) = app.register_click(ClickTarget::Preview, now);
            app.quietly()
        } else {
            self.quietly()
        }
    }

    /// Does what a click stands for, on a screen of a size, at a time in nanoseconds.
    pub fn handle_click(
        self,
        x: u16,
        y: u16,
        areas: PaneAreas,
        width: u16,
        height: u16,
        now: u128,
    ) -> (next: Next)
        requires
            self.view().harnesses.len() + 4 <= u16::MAX,
        ensures
            next.outcome() == on_click(
                self.view(),
                x as int,
                y as int,
                areas,
                screen(width, height),
                now,
            ),
    {
        proof {
            reveal(on_click);
        }
        let size = Rect { x: 0, y: 0, width, height };
        let mode = self.mode();
        if mode.deleting {
            self.handle_delete_prompt_click(x, y, centered(size, 76, 8))
        } else if mode.new_project {
            self.forget_click().quietly()
        } else if mode.new_chat {
            if mode.picking_harness {
                let count: u16 = self.count_harnesses() as u16;
                self.handle_new_chat_click(x, y, centered(size, 96, count + 4))
            } else {
                self.quietly()
            }
        } else if mode.helping {
            self.with_help(false).forget_click().quietly()
        } else {
            self.handle_pane_click(x, y, areas, now)
        }
    }
}

/// What a mouse does.
#[derive(Clone, Copy, Debug, PartialEq, Eq, Structural)]
pub enum MouseKind {
    ScrollDown,
    ScrollUp,
    Press,
    Other,
}

/// What a mouse does, at a place on a screen of a size, at a time in nanoseconds.
#[verifier::opaque]
pub open spec fn on_mouse(
    app: AppView,
    kind: MouseKind,
    x: int,
    y: int,
    areas: PaneAreas,
    size: Rect,
    now: u128,
) -> Outcome {
    match kind {
        MouseKind::ScrollDown => quiet(scrolled(app, 3)),
        MouseKind::ScrollUp => quiet(scrolled(app, -3)),
        MouseKind::Press => on_click(app, x, y, areas, size, now),
        MouseKind::Other => quiet(app),
    }
}

impl App {
    /// Does what a mouse stands for, at a place on a screen of a size, at a time in nanoseconds.
    pub fn handle_mouse(
        self,
        kind: MouseKind,
        x: u16,
        y: u16,
        areas: PaneAreas,
        width: u16,
        height: u16,
        now: u128,
    ) -> (next: Next)
        requires
            self.view().harnesses.len() + 4 <= u16::MAX,
        ensures
            next.outcome() == on_mouse(
                self.view(),
                kind,
                x as int,
                y as int,
                areas,
                screen(width, height),
                now,
            ),
    {
        proof {
            reveal(on_mouse);
        }
        match kind {
            MouseKind::ScrollDown => self.scroll_preview(3).quietly(),
            MouseKind::ScrollUp => self.scroll_preview(-3).quietly(),
            MouseKind::Press => self.handle_click(x, y, areas, width, height, now),
            MouseKind::Other => self.quietly(),
        }
    }
}

/// Where a double click selects a chat whose command is missing, that is what the status says in the
/// end, whatever came of reading its messages.
pub proof fn law_opening_has_the_last_word(app: AppView, thread: Thread, at: int, message: Seq<char>)
    requires
        app.row() == Some(Row::Thread { thread: Box::new(thread), live: None }),
        harness_place(app.harnesses, thread.harness_id@) == Some(at),
        app.harnesses[at].command_path is None,
    ensures
        activated(saying(app, message)).app.status == app.harnesses[at].missing_cli(),
        activated(saying(app, message)).effects.len() == 0,
{
    reveal(activated);
    reveal(opened);
    reveal(AppView::rows);
    assert(saying(app, message).rows() == app.rows());
}

} // verus!

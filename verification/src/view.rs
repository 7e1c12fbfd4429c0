//! What the panes show: texts with their colors.
use vstd::prelude::*;
use vstd::string::*;

use crate::actions::{index_of, position_of};
use crate::agent::{messages_view, Harness, Message, Thread};
use crate::app::{fitting_places, harness_place, row_harness, row_harness_id, App, AppView,
    StatusAction};
use crate::dates::{format_timestamp, timestamp_text};
use crate::model::{project_views, Project, ProjectView, Row};
use crate::mouse::{action_at, action_in, action_views, chat_count, count_chats, counts_text,
    left_actions, message_end, right_actions, status_actions_left, status_actions_right, width_of,
    write_counts};
use crate::text::{decimal, decimal_text, lowercase, same_text};
use crate::theme::{bold_colored, colored, harness_color, new_chat_harness_color, plain_style, Color,
    ResolvedTheme, Style};
use crate::tmux::Window;

verus! {

/// A text in one style.
#[derive(Debug)]
pub struct Span {
    pub text: String,
    pub style: Style,
}

/// A text in one style, by its characters.
pub struct SpanView {
    pub text: Seq<char>,
    pub style: Style,
}

/// A line of a pane: one text, or several, each in a style.
#[derive(Debug)]
pub enum TextLine {
    Styled(String, Style),
    Spans(Vec<Span>),
}

/// A line of a pane, by its characters.
pub enum LineView {
    Styled(Seq<char>, Style),
    Spans(Seq<SpanView>),
}

impl Span {
    /// The text by its characters.
    pub open spec fn view(self) -> SpanView {
        SpanView { text: self.text@, style: self.style }
    }

    fn new(text: &str, style: Style) -> (span: Span)
        ensures
            span.view() == span_of(text@, style),
    {
        Span { text: text.to_owned(), style }
    }
}

/// A text in a style.
pub open spec fn span_of(text: Seq<char>, style: Style) -> SpanView {
    SpanView { text, style }
}

/// Texts by their characters.
pub open spec fn span_views(spans: Seq<Span>) -> Seq<SpanView> {
    spans.map_values(|span: Span| span.view())
}

impl TextLine {
    /// The line by its characters.
    pub open spec fn view(self) -> LineView {
        match self {
            TextLine::Styled(text, style) => LineView::Styled(text@, style),
            TextLine::Spans(spans) => LineView::Spans(span_views(spans@)),
        }
    }

    fn styled(text: &str, style: Style) -> (line: TextLine)
        ensures
            line.view() == LineView::Styled(text@, style),
    {
        TextLine::Styled(text.to_owned(), style)
    }
}

/// Lines by their characters.
pub open spec fn line_views(lines: Seq<TextLine>) -> Seq<LineView> {
    lines.map_values(|line: TextLine| line.view())
}

/// Lists of texts by their characters.
pub open spec fn item_views(items: Seq<Vec<Span>>) -> Seq<Seq<SpanView>> {
    items.map_values(|item: Vec<Span>| span_views(item@))
}

/// A line with nothing in it.
pub open spec fn blank_line() -> LineView {
    LineView::Styled(""@, plain_style())
}

/// The color of an action in the status bar.
pub open spec fn action_color(action: StatusAction, theme: ResolvedTheme) -> Color {
    match action {
        StatusAction::Open => theme.status_open,
        StatusAction::NewProject => theme.status_new,
        StatusAction::New => theme.status_new_chat,
        StatusAction::Search => theme.status_search,
        StatusAction::ToggleArchived => theme.status_archive,
        StatusAction::SetArchived => theme.status_archive_action,
        StatusAction::SetUnarchived => theme.status_unarchive,
        StatusAction::Delete => theme.status_delete,
        StatusAction::Help => theme.status_help,
    }
}

/// Finds the color of an action in the status bar.
pub fn status_color(action: StatusAction, theme: ResolvedTheme) -> (color: Color)
    ensures
        color == action_color(action, theme),
{
    match action {
        StatusAction::Open => theme.status_open,
        StatusAction::NewProject => theme.status_new,
        StatusAction::New => theme.status_new_chat,
        StatusAction::Search => theme.status_search,
        StatusAction::ToggleArchived => theme.status_archive,
        StatusAction::SetArchived => theme.status_archive_action,
        StatusAction::SetUnarchived => theme.status_unarchive,
        StatusAction::Delete => theme.status_delete,
        StatusAction::Help => theme.status_help,
    }
}

/// How a pane with a border is drawn.
#[derive(Clone, Copy, Debug, PartialEq, Eq, Structural)]
pub struct Panel {
    pub title: Style,
    pub border: Style,
    pub text: Style,
}

/// How a pane with a border is drawn, with the keys or without them.
pub open spec fn panel_of(focused: bool, theme: ResolvedTheme) -> Panel {
    Panel {
        title: colored(
            if focused {
                theme.title_focused
            } else {
                theme.title_unfocused
            },
        ),
        border: colored(
            if focused {
                theme.border_focused
            } else {
                theme.border_unfocused
            },
        ),
        text: colored(theme.foreground),
    }
}

/// Finds how a pane with a border is drawn.
pub fn panel(focused: bool, theme: ResolvedTheme) -> (panel: Panel)
    ensures
        panel == panel_of(focused, theme),
{
    Panel {
        title: Style::fg(
            if focused {
                theme.title_focused
            } else {
                theme.title_unfocused
            },
        ),
        border: Style::fg(
            if focused {
                theme.border_focused
            } else {
                theme.border_unfocused
            },
        ),
        text: Style::fg(theme.foreground),
    }
}

/// How the selected entry of a list is drawn.
pub fn selected(theme: ResolvedTheme) -> (style: Style)
    ensures
        style == (Style { fg: None, bg: Some(theme.selected), bold: true }),
{
    Style { fg: None, bg: Some(theme.selected), bold: true }
}

/// The labels of actions in their colors, with gaps between them, and with a gap before the first
/// or none.
pub open spec fn action_spans(
    actions: Seq<(Seq<char>, StatusAction)>,
    gap: bool,
    theme: ResolvedTheme,
) -> Seq<SpanView>
    decreases actions.len(),
{
    if actions.len() == 0 {
        Seq::empty()
    } else {
        let before = action_spans(actions.drop_last(), gap, theme);
        (if gap || actions.len() > 1 {
            before.push(span_of("   "@, colored(theme.muted)))
        } else {
            before
        }).push(span_of(actions.last().0, colored(action_color(actions.last().1, theme))))
    }
}

/// The left part of the status bar: the numbers, the message where it says something else, and
/// actions.
pub open spec fn left_status(app: AppView, theme: ResolvedTheme) -> Seq<SpanView> {
    seq![
        span_of(" "@, colored(theme.muted)),
        span_of("\u{f487} "@ + decimal(app.projects.len()), colored(theme.status_projects)),
        span_of("   "@, colored(theme.muted)),
        span_of("\u{f0ede} "@ + decimal(chat_count(app.projects)), colored(theme.status_threads)),
    ] + (if app.status != counts_text(app.projects) {
        seq![span_of("   "@, colored(theme.muted)), span_of(app.status, colored(theme.error))]
    } else {
        Seq::empty()
    }) + action_spans(left_actions(app.search_mode, app.query), true, theme)
}

fn push_actions(
    spans: Vec<Span>,
    actions: &Vec<(String, StatusAction)>,
    gap: bool,
    theme: ResolvedTheme,
) -> (result: Vec<Span>)
    ensures
        span_views(result@) == span_views(spans@) + action_spans(
            action_views(actions@),
            gap,
            theme,
        ),
{
    let ghost first = span_views(spans@);
    let ghost all = action_views(actions@);
    let mut result = spans;
    let count: usize = actions.len();
    let mut index: usize = 0;
    assert(span_views(result@) =~= first + action_spans(all.take(0), gap, theme));
    while index < count
        invariant
            index <= count,
            count == actions@.len(),
            all == action_views(actions@),
            span_views(result@) == first + action_spans(all.take(index as int), gap, theme),
        decreases count - index,
    {
        let ghost before = result@;
        proof {
            assert(all.take(index + 1).drop_last() =~= all.take(index as int));
            assert(all.take(index + 1).last() == (
                actions@[index as int].0@,
                actions@[index as int].1,
            ));
        }
        if gap || index > 0 {
            result.push(Span::new("   ", Style::fg(theme.muted)));
            assert(span_views(result@) =~= span_views(before).push(
                span_of("   "@, colored(theme.muted)),
            ));
        }
        let ghost middle = result@;
        let color = status_color(actions[index].1, theme);
        result.push(Span::new(actions[index].0.as_str(), Style::fg(color)));
        assert(span_views(result@) =~= span_views(middle).push(
            span_of(
                actions@[index as int].0@,
                colored(action_color(actions@[index as int].1, theme)),
            ),
        ));
        assert(span_views(result@) =~= first + action_spans(all.take(index + 1), gap, theme));
        index = index + 1;
    }
    assert(all.take(count as int) =~= all);
    result
}

fn labelled_number(label: &str, number: u128) -> (text: String)
    ensures
        text@ == label@ + decimal(number as nat),
{
    let mut text = label.to_owned();
    text.append(decimal_text(number).as_str());
    text
}

/// The line of a project in the list: a mark, in a color that tells whether it has live agents, and
/// its name.
pub open spec fn project_item(project: ProjectView, theme: ResolvedTheme) -> Seq<SpanView> {
    seq![
        span_of(
            "\u{25cf} "@,
            colored(
                if project.agents.len() == 0 {
                    theme.muted
                } else {
                    theme.success
                },
            ),
        ),
        span_of(project.name, plain_style()),
    ]
}

/// The lines of projects at places.
pub open spec fn project_items_at(
    projects: Seq<ProjectView>,
    places: Seq<int>,
    theme: ResolvedTheme,
) -> Seq<Seq<SpanView>> {
    places.map_values(|at: int| project_item(projects[at], theme))
}

fn write_project(project: &Project, theme: ResolvedTheme) -> (item: Vec<Span>)
    ensures
        span_views(item@) == project_item(project.view(), theme),
{
    let color = if project.agents.len() == 0 {
        theme.muted
    } else {
        theme.success
    };
    let item = vec![
        Span::new("\u{25cf} ", Style::fg(color)),
        Span::new(project.name.as_str(), Style::plain()),
    ];
    assert(span_views(item@) =~= project_item(project.view(), theme));
    item
}

/// The mark of the harness of a row.
pub open spec fn row_mark(app: AppView, row: Row) -> Seq<char> {
    match row_harness(row) {
        Some(id) => match harness_place(app.harnesses, id) {
            Some(at) => app.harnesses[at].marker@,
            None => "?"@,
        },
        None => "?"@,
    }
}

/// Whether a row is of an archived chat, where archived chats are shown.
pub open spec fn is_archived_row(app: AppView, row: Row) -> bool {
    app.show_archived && (row matches Row::Thread { thread, live: _ } && thread.archived)
}

/// The line of a chat in the list: a mark where it is live, the mark of its harness, its title, and
/// a mark where it is archived.
pub open spec fn row_item(app: AppView, row: Row, theme: ResolvedTheme) -> Seq<SpanView> {
    seq![
        if row.shows_live() {
            span_of("\u{25cf} "@, colored(theme.success))
        } else {
            span_of("  "@, colored(theme.muted))
        },
        span_of(
            row_mark(app, row) + " "@,
            colored(
                match row_harness(row) {
                    Some(id) => harness_color(id, app.config.claude.id@, theme),
                    None => theme.muted,
                },
            ),
        ),
        span_of(row.shown_title(), plain_style()),
        if is_archived_row(app, row) {
            span_of(" "@ + app.config.ui.archive_icon@, colored(theme.archive_icon))
        } else {
            span_of(""@, plain_style())
        },
    ]
}

/// The lines of rows.
pub open spec fn row_items(app: AppView, rows: Seq<Row>, theme: ResolvedTheme) -> Seq<
    Seq<SpanView>,
> {
    rows.map_values(|row: Row| row_item(app, row, theme))
}

impl App {
    /// Writes the left part of the status bar.
    pub fn status_left(&self, theme: ResolvedTheme) -> (spans: Vec<Span>)
        ensures
            span_views(spans@) == left_status(self.view(), theme),
    {
        proof {
            reveal(App::view);
        }
        let mut spans = vec![
            Span::new(" ", Style::fg(theme.muted)),
            Span::new(
                labelled_number("\u{f487} ", self.projects.len() as u128).as_str(),
                Style::fg(theme.status_projects),
            ),
            Span::new("   ", Style::fg(theme.muted)),
            Span::new(
                labelled_number("\u{f0ede} ", count_chats(&self.projects)).as_str(),
                Style::fg(theme.status_threads),
            ),
        ];
        let counts = write_counts(&self.projects);
        if !same_text(self.status.as_str(), counts.as_str()) {
            spans.push(Span::new("   ", Style::fg(theme.muted)));
            spans.push(Span::new(self.status.as_str(), Style::fg(theme.error)));
        }
        let actions = status_actions_left(self.search_mode, self.query.as_str());
        let result = push_actions(spans, &actions, true, theme);
        assert(span_views(result@) =~= left_status(self.view(), theme));
        result
    }

    /// Writes the right part of the status bar: actions.
    pub fn status_right(&self, theme: ResolvedTheme) -> (spans: Vec<Span>)
        ensures
            span_views(spans@) == action_spans(
                right_actions(self.view().show_archived),
                false,
                theme,
            ),
    {
        proof {
            reveal(App::view);
        }
        let actions = status_actions_right(self.show_archived);
        let none: Vec<Span> = Vec::new();
        let spans = push_actions(none, &actions, false, theme);
        assert(span_views(none@) =~= Seq::<SpanView>::empty());
        spans
    }
}

impl App {
    /// Writes the list of projects, and finds the place of the selected one in it.
    pub fn project_list(&self, theme: ResolvedTheme) -> (list: (Vec<Vec<Span>>, usize))
        ensures
            item_views(list.0@) == project_items_at(
                self.view().projects,
                self.view().visible(),
                theme,
            ),
            list.1 == position_of(self.view().visible(), self.view().project_index),
    {
        proof {
            reveal(App::view);
        }
        let visible = self.visible_project_indices();
        let ghost places = visible@.map_values(|at: usize| at as int);
        let ghost projects = project_views(self.projects@);
        proof {
            self.lemma_visible_places();
        }
        let mut items: Vec<Vec<Span>> = Vec::new();
        let count: usize = visible.len();
        let mut index: usize = 0;
        assert(item_views(items@) =~= project_items_at(projects, places.take(0), theme));
        while index < count
            invariant
                index <= count,
                count == visible@.len(),
                places == visible@.map_values(|at: usize| at as int),
                projects == project_views(self.projects@),
                forall|k: int| 0 <= k < places.len() ==> 0 <= #[trigger] places[k] < projects.len(),
                item_views(items@) == project_items_at(projects, places.take(index as int), theme),
            decreases count - index,
        {
            let ghost before = items@;
            let at: usize = visible[index];
            assert(places[index as int] == at);
            assert(projects[at as int] == self.projects@[at as int].view());
            items.push(write_project(&self.projects[at], theme));
            assert(item_views(items@) =~= item_views(before).push(
                project_item(projects[at as int], theme),
            ));
            assert(project_items_at(projects, places.take(index + 1), theme)
                =~= project_items_at(projects, places.take(index as int), theme).push(
                project_item(projects[at as int], theme),
            ));
            index = index + 1;
        }
        assert(places.take(count as int) =~= places);
        let selected: usize = index_of(&visible, self.project_index);
        (items, selected)
    }

    proof fn lemma_visible_places(&self)
        ensures
            forall|k: int|
                0 <= k < self.view().visible().len() ==> 0 <= #[trigger] self.view().visible()[k]
                    < self.view().projects.len(),
    {
        reveal(AppView::visible);
        let app = self.view();
        lemma_fitting_places(app.harnesses, app.projects, lowercase(app.query));
    }

    fn write_row(&self, row: &Row, theme: ResolvedTheme) -> (item: Vec<Span>)
        ensures
            span_views(item@) == row_item(self.view(), *row, theme),
    {
        proof {
            reveal(App::view);
        }
        let marker = if row.is_live() {
            Span::new("\u{25cf} ", Style::fg(theme.success))
        } else {
            Span::new("  ", Style::fg(theme.muted))
        };
        let (mut mark, color) = match row_harness_id(row) {
            Some(id) => (
                match self.harness(id) {
                    Some(harness) => harness.marker.clone(),
                    None => "?".to_owned(),
                },
                new_chat_harness_color(id, self.config.claude.id.as_str(), theme),
            ),
            None => ("?".to_owned(), theme.muted),
        };
        mark.append(" ");
        let archived = match row {
            Row::Thread { thread, live: _ } => self.show_archived && thread.archived,
            Row::Agent(_) => false,
        };
        let archive_marker = if archived {
            let mut icon = " ".to_owned();
            icon.append(self.config.ui.archive_icon.as_str());
            Span::new(icon.as_str(), Style::fg(theme.archive_icon))
        } else {
            Span::new("", Style::plain())
        };
        let item = vec![
            marker,
            Span::new(mark.as_str(), Style::fg(color)),
            Span::new(row.title().as_str(), Style::plain()),
            archive_marker,
        ];
        assert(span_views(item@) =~= row_item(self.view(), *row, theme));
        item
    }

    /// Writes the list of the selected project's chats.
    pub fn thread_list(&self, theme: ResolvedTheme) -> (items: Vec<Vec<Span>>)
        ensures
            item_views(items@) == row_items(self.view(), self.view().rows(), theme),
    {
        let rows = self.current_rows();
        let ghost all = rows@;
        let ghost app = self.view();
        let mut items: Vec<Vec<Span>> = Vec::new();
        let count: usize = rows.len();
        let mut index: usize = 0;
        assert(item_views(items@) =~= row_items(app, all.take(0), theme));
        while index < count
            invariant
                index <= count,
                count == rows@.len(),
                all == rows@,
                app == self.view(),
                item_views(items@) == row_items(app, all.take(index as int), theme),
            decreases count - index,
        {
            let ghost before = items@;
            items.push(self.write_row(&rows[index], theme));
            assert(item_views(items@) =~= item_views(before).push(
                row_item(app, all[index as int], theme),
            ));
            assert(row_items(app, all.take(index + 1), theme) =~= row_items(
                app,
                all.take(index as int),
                theme,
            ).push(row_item(app, all[index as int], theme)));
            index = index + 1;
        }
        assert(all.take(count as int) =~= all);
        items
    }

    /// The title of the list of chats.
    pub fn thread_list_title(&self) -> (title: &'static str)
        ensures
            title@ == if self.view().show_archived {
                " All chats "@
            } else {
                " Chats "@
            },
    {
        proof {
            reveal(App::view);
        }
        if self.show_archived {
            " All chats "
        } else {
            " Chats "
        }
    }
}

proof fn lemma_fitting_places(
    harnesses: Seq<Harness>,
    projects: Seq<ProjectView>,
    query: Seq<char>,
)
    ensures
        forall|k: int|
            0 <= k < fitting_places(harnesses, projects, query).len() ==> 0
                <= #[trigger] fitting_places(harnesses, projects, query)[k] < projects.len(),
    decreases projects.len(),
{
    if projects.len() > 0 {
        let before = fitting_places(harnesses, projects.drop_last(), query);
        let places = fitting_places(harnesses, projects, query);
        lemma_fitting_places(harnesses, projects.drop_last(), query);
        assert forall|k: int| 0 <= k < places.len() implies 0 <= #[trigger] places[k]
            < projects.len() by {
            if k < before.len() {
                assert(places[k] == before[k]);
            }
        }
    }
}

/// What is said of a message in the preview: who wrote it, and its text, with a blank line behind.
pub open spec fn message_lines(
    app: AppView,
    thread: Thread,
    message: (Seq<char>, Seq<char>),
    theme: ResolvedTheme,
) -> Seq<LineView> {
    let place = harness_place(app.harnesses, thread.harness_id@);
    seq![
        if message.0 == "You"@ {
            LineView::Styled(app.username, bold_colored(theme.preview_user))
        } else {
            LineView::Styled(
                match place {
                    Some(at) => app.harnesses[at].marker@,
                    None => message.0,
                },
                bold_colored(harness_color(thread.harness_id@, app.config.claude.id@, theme)),
            )
        },
        LineView::Styled(message.1, colored(theme.preview_text)),
        blank_line(),
    ]
}

/// What is said of messages in the preview.
pub open spec fn transcript(
    app: AppView,
    thread: Thread,
    messages: Seq<(Seq<char>, Seq<char>)>,
    theme: ResolvedTheme,
) -> Seq<LineView>
    decreases messages.len(),
{
    if messages.len() == 0 {
        Seq::empty()
    } else {
        transcript(app, thread, messages.drop_last(), theme) + message_lines(
            app,
            thread,
            messages.last(),
            theme,
        )
    }
}

/// The particulars of a chat in one line: harness, source, branch, date and directory.
pub open spec fn particulars(app: AppView, thread: Thread) -> Seq<char> {
    (match harness_place(app.harnesses, thread.harness_id@) {
        Some(at) => app.harnesses[at].label@,
        None => thread.harness_id@,
    }) + " \u{b7} "@ + thread.shown_source() + " \u{b7} "@ + (match thread.branch() {
        Some(branch) => branch,
        None => "no branch"@,
    }) + " \u{b7} created "@ + timestamp_text(thread.created_at as int) + " \u{b7} "@ + thread.cwd@
}

/// What the preview shows of a chat: its title, its particulars, whether it is live, and its last
/// messages, or its beginning where none were read.
pub open spec fn thread_preview(
    app: AppView,
    thread: Thread,
    live: bool,
    theme: ResolvedTheme,
) -> Seq<LineView> {
    seq![
        LineView::Styled(thread.shown_title(), bold_colored(theme.preview_title)),
        LineView::Styled(particulars(app, thread), colored(theme.muted)),
    ] + (if live {
        seq![LineView::Styled("\u{25cf} live"@, colored(theme.success))]
    } else {
        Seq::empty()
    }) + seq![blank_line()] + (if app.preview.len() == 0 {
        seq![
            LineView::Styled(
                if thread.preview@.len() == 0 {
                    "No transcript preview available."@
                } else {
                    thread.preview@
                },
                colored(theme.preview_text),
            ),
        ]
    } else {
        transcript(app, thread, app.preview, theme)
    })
}

/// What the preview shows of a pane that belongs to no saved chat.
pub open spec fn agent_preview(window: Window, theme: ResolvedTheme) -> Seq<LineView> {
    seq![
        LineView::Styled("Unmapped live agent"@, bold_colored(theme.warning)),
        LineView::Styled(
            window.session@ + ":"@ + window.window_name@ + " \u{b7} "@ + window.cwd@,
            plain_style(),
        ),
        blank_line(),
        LineView::Styled(
            "CIA will switch to this window without guessing which saved thread it contains."@,
            plain_style(),
        ),
    ]
}

/// What the preview shows.
pub open spec fn preview_lines(app: AppView, theme: ResolvedTheme) -> Seq<LineView> {
    match app.row() {
        None => Seq::empty(),
        Some(Row::Agent(window)) => agent_preview(window, theme),
        Some(Row::Thread { thread, live }) => thread_preview(app, *thread, live is Some, theme),
    }
}

fn write_agent_preview(window: &Window, theme: ResolvedTheme) -> (lines: Vec<TextLine>)
    ensures
        line_views(lines@) == agent_preview(*window, theme),
{
    let mut place = window.session.clone();
    place.append(":");
    place.append(window.window_name.as_str());
    place.append(" \u{b7} ");
    place.append(window.cwd.as_str());
    let lines = vec![
        TextLine::styled("Unmapped live agent", Style::bold_fg(theme.warning)),
        TextLine::styled(place.as_str(), Style::plain()),
        TextLine::styled("", Style::plain()),
        TextLine::styled(
            "CIA will switch to this window without guessing which saved thread it contains.",
            Style::plain(),
        ),
    ];
    assert(line_views(lines@) =~= agent_preview(*window, theme));
    lines
}

impl App {
    fn write_particulars(&self, thread: &Thread) -> (text: String)
        ensures
            text@ == particulars(self.view(), *thread),
    {
        proof {
            reveal(App::view);
        }
        let mut text = match self.harness(thread.harness_id.as_str()) {
            Some(harness) => harness.label.clone(),
            None => thread.harness_id.clone(),
        };
        text.append(" \u{b7} ");
        text.append(thread.source_label());
        text.append(" \u{b7} ");
        text.append(thread.branch_label());
        text.append(" \u{b7} created ");
        text.append(format_timestamp(thread.created_at).as_str());
        text.append(" \u{b7} ");
        text.append(thread.cwd.as_str());
        text
    }

    fn write_message(&self, thread: &Thread, message: &Message, theme: ResolvedTheme) -> (lines: Vec<
        TextLine,
    >)
        ensures
            line_views(lines@) == message_lines(
                self.view(),
                *thread,
                (message.role@, message.text@),
                theme,
            ),
    {
        proof {
            reveal(App::view);
        }
        let head = if same_text(message.role.as_str(), "You") {
            TextLine::styled(self.username.as_str(), Style::bold_fg(theme.preview_user))
        } else {
            let color = new_chat_harness_color(
                thread.harness_id.as_str(),
                self.config.claude.id.as_str(),
                theme,
            );
            match self.harness(thread.harness_id.as_str()) {
                Some(harness) => TextLine::styled(harness.marker.as_str(), Style::bold_fg(color)),
                None => TextLine::styled(message.role.as_str(), Style::bold_fg(color)),
            }
        };
        let lines = vec![
            head,
            TextLine::styled(message.text.as_str(), Style::fg(theme.preview_text)),
            TextLine::styled("", Style::plain()),
        ];
        assert(line_views(lines@) =~= message_lines(
            self.view(),
            *thread,
            (message.role@, message.text@),
            theme,
        ));
        lines
    }

    fn write_transcript(&self, thread: &Thread, theme: ResolvedTheme) -> (lines: Vec<TextLine>)
        ensures
            line_views(lines@) == transcript(self.view(), *thread, self.view().preview, theme),
    {
        let ghost app = self.view();
        let ghost all = messages_view(self.preview@);
        proof {
            reveal(App::view);
            assert(app.preview == all);
        }
        let mut lines: Vec<TextLine> = Vec::new();
        let count: usize = self.preview.len();
        let mut index: usize = 0;
        assert(line_views(lines@) =~= transcript(app, *thread, all.take(0), theme));
        while index < count
            invariant
                index <= count,
                count == self.preview@.len(),
                app == self.view(),
                all == messages_view(self.preview@),
                line_views(lines@) == transcript(app, *thread, all.take(index as int), theme),
            decreases count - index,
        {
            let ghost before = lines@;
            proof {
                assert(all.take(index + 1).drop_last() =~= all.take(index as int));
                assert(all.take(index + 1).last() == (
                    self.preview@[index as int].role@,
                    self.preview@[index as int].text@,
                ));
            }
            let mut more = self.write_message(thread, &self.preview[index], theme);
            let ghost added = more@;
            lines.append(&mut more);
            assert(line_views(lines@) =~= line_views(before) + line_views(added));
            index = index + 1;
        }
        assert(all.take(count as int) =~= all);
        lines
    }

    fn write_thread_preview(&self, thread: &Thread, live: bool, theme: ResolvedTheme) -> (lines:
        Vec<TextLine>)
        ensures
            line_views(lines@) == thread_preview(self.view(), *thread, live, theme),
    {
        let mut lines = vec![
            TextLine::styled(thread.title(), Style::bold_fg(theme.preview_title)),
            TextLine::styled(self.write_particulars(thread).as_str(), Style::fg(theme.muted)),
        ];
        if live {
            lines.push(TextLine::styled("\u{25cf} live", Style::fg(theme.success)));
        }
        lines.push(TextLine::styled("", Style::plain()));
        let ghost before = lines@;
        let empty = self.has_no_preview();
        let mut rest = if empty {
            let text = if thread.preview.as_str().is_empty() {
                "No transcript preview available."
            } else {
                thread.preview.as_str()
            };
            let rest = vec![TextLine::styled(text, Style::fg(theme.preview_text))];
            assert(line_views(rest@) =~= seq![
                LineView::Styled(text@, colored(theme.preview_text)),
            ]);
            rest
        } else {
            self.write_transcript(thread, theme)
        };
        let ghost added = rest@;
        lines.append(&mut rest);
        assert(line_views(lines@) =~= line_views(before) + line_views(added));
        assert(line_views(lines@) =~= thread_preview(self.view(), *thread, live, theme));
        lines
    }

    fn has_no_preview(&self) -> (empty: bool)
        ensures
            empty == (self.view().preview.len() == 0),
    {
        proof {
            reveal(App::view);
        }
        self.preview.len() == 0
    }

    /// Writes what the preview shows.
    pub fn preview_text(&self, theme: ResolvedTheme) -> (lines: Vec<TextLine>)
        ensures
            line_views(lines@) == preview_lines(self.view(), theme),
    {
        match self.current_row() {
            None => {
                let lines: Vec<TextLine> = Vec::new();
                assert(line_views(lines@) =~= Seq::<LineView>::empty());
                lines
            },
            Some(Row::Agent(window)) => write_agent_preview(&window, theme),
            Some(Row::Thread { thread, live }) => self.write_thread_preview(
                &thread,
                live.is_some(),
                theme,
            ),
        }
    }
}

/// The columns that are covered before a text of several, one behind the other.
pub open spec fn start_of(spans: Seq<SpanView>, at: int) -> int
    decreases at,
{
    if at <= 0 {
        0
    } else {
        start_of(spans, at - 1) + spans[at - 1].text.len()
    }
}

/// The columns before the label of an action among several, with gaps between them, and with a gap
/// before the first or none.
spec fn label_start(actions: Seq<(Seq<char>, StatusAction)>, gap: bool, at: int) -> int
    decreases at,
{
    if at <= 0 {
        if gap {
            3
        } else {
            0
        }
    } else {
        label_start(actions, gap, at - 1) + actions[at - 1].0.len() + 3
    }
}

proof fn lemma_label_start(actions: Seq<(Seq<char>, StatusAction)>, gap: bool, at: int)
    requires
        1 <= at < actions.len(),
    ensures
        label_start(actions, gap, at) == (if gap {
            3int
        } else {
            0
        }) + actions[0].0.len() + label_start(actions.skip(1), true, at - 1),
    decreases at,
{
    reveal_with_fuel(label_start, 2);
    if at > 1 {
        lemma_label_start(actions, gap, at - 1);
        assert(actions.skip(1)[at - 2] == actions[at - 1]);
    }
}

proof fn lemma_label_grows(actions: Seq<(Seq<char>, StatusAction)>, gap: bool, at: int)
    requires
        0 <= at,
    ensures
        label_start(actions, gap, at) >= 0,
    decreases at,
{
    if at > 0 {
        lemma_label_grows(actions, gap, at - 1);
    }
}

proof fn lemma_label_is_found(
    actions: Seq<(Seq<char>, StatusAction)>,
    start: int,
    gap: bool,
    at: int,
    x: int,
)
    requires
        0 <= at < actions.len(),
        start + label_start(actions, gap, at) <= x < start + label_start(actions, gap, at)
            + actions[at].0.len(),
    ensures
        action_in(actions, start, gap, x) == Some(actions[at].1),
    decreases at,
{
    if at > 0 {
        let begin = if gap {
            start + 3
        } else {
            start
        };
        lemma_label_start(actions, gap, at);
        lemma_label_grows(actions.skip(1), true, at - 1);
        assert(actions.skip(1)[at - 1] == actions[at]);
        lemma_label_is_found(actions.skip(1), begin + actions[0].0.len(), true, at - 1, x);
    }
}

proof fn lemma_start_of_prefix(spans: Seq<SpanView>, longer: Seq<SpanView>, at: int)
    requires
        at <= spans.len() <= longer.len(),
        forall|k: int| 0 <= k < spans.len() ==> spans[k] == #[trigger] longer[k],
    ensures
        start_of(spans, at) == start_of(longer, at),
    decreases at,
{
    if at > 0 {
        lemma_start_of_prefix(spans, longer, at - 1);
        assert(longer[at - 1] == spans[at - 1]);
    }
}

proof fn lemma_start_behind(first: Seq<SpanView>, second: Seq<SpanView>, at: int)
    requires
        0 <= at <= second.len(),
    ensures
        start_of(first + second, first.len() + at) == start_of(first, first.len() as int)
            + start_of(second, at),
    decreases at,
{
    let all = first + second;
    if at > 0 {
        lemma_start_behind(first, second, at - 1);
        assert(all[first.len() + at - 1] == second[at - 1]);
    } else {
        lemma_start_of_prefix(first, all, first.len() as int);
    }
}

/// The place of the label of an action among texts with gaps between them.
pub open spec fn label_place(gap: bool, at: int) -> int {
    if gap {
        2 * at + 1
    } else {
        2 * at
    }
}

proof fn lemma_label_place(
    actions: Seq<(Seq<char>, StatusAction)>,
    gap: bool,
    theme: ResolvedTheme,
    at: int,
)
    requires
        0 <= at < actions.len(),
    ensures
        action_spans(actions, gap, theme).len() == label_place(gap, actions.len() - 1) + 1,
        label_place(gap, at) < action_spans(actions, gap, theme).len(),
        action_spans(actions, gap, theme)[label_place(gap, at)].text == actions[at].0,
        start_of(action_spans(actions, gap, theme), label_place(gap, at)) == label_start(
            actions,
            gap,
            at,
        ),
    decreases actions.len(),
{
    let spans = action_spans(actions, gap, theme);
    let rest = actions.drop_last();
    let before = action_spans(rest, gap, theme);
    reveal_strlit("   ");
    if actions.len() > 1 {
        lemma_label_place(rest, gap, theme, rest.len() - 1);
    } else {
        assert(rest =~= Seq::<(Seq<char>, StatusAction)>::empty());
        assert(before =~= Seq::<SpanView>::empty());
    }
    assert(forall|k: int| 0 <= k < before.len() ==> before[k] == #[trigger] spans[k]);
    if at < rest.len() {
        lemma_label_place(rest, gap, theme, at);
        lemma_start_of_prefix(before, spans, label_place(gap, at));
        assert(rest[at] == actions[at]);
        lemma_label_start_of_rest(actions, gap, at);
    } else {
        reveal_with_fuel(start_of, 3);
        if actions.len() > 1 {
            let last = rest.len() - 1;
            lemma_start_of_prefix(before, spans, label_place(gap, last));
            assert(before[label_place(gap, last)] == spans[label_place(gap, last)]);
            assert(rest[last] == actions[last]);
            lemma_label_start_of_rest(actions, gap, last);
        }
    }
}

proof fn lemma_label_start_of_rest(actions: Seq<(Seq<char>, StatusAction)>, gap: bool, at: int)
    requires
        at < actions.len(),
    ensures
        label_start(actions.drop_last(), gap, at) == label_start(actions, gap, at),
    decreases at,
{
    if at > 0 {
        lemma_label_start_of_rest(actions, gap, at - 1);
        assert(actions.drop_last()[at - 1] == actions[at - 1]);
    }
}

/// A click on an action at the left of the status bar finds that action, where its label is drawn.
pub proof fn law_left_action_is_found_where_it_is_drawn(
    app: AppView,
    theme: ResolvedTheme,
    at: int,
    x: int,
    width: int,
)
    requires
        0 <= at < left_actions(app.search_mode, app.query).len(),
    ensures
        ({
            let actions = left_actions(app.search_mode, app.query);
            let spans = left_status(app, theme);
            let place = spans.len() - 2 * actions.len() + label_place(true, at);
            &&& spans[place].text == actions[at].0
            &&& start_of(spans, place) <= x < start_of(spans, place) + actions[at].0.len()
                ==> action_at(app, x, width) == Some(actions[at].1)
        }),
{
    reveal(action_at);
    reveal_strlit(" ");
    reveal_strlit("   ");
    reveal_strlit("\u{f487} ");
    reveal_strlit("\u{f0ede} ");
    let actions = left_actions(app.search_mode, app.query);
    let last = action_spans(actions, true, theme);
    let numbers = seq![
        span_of(" "@, colored(theme.muted)),
        span_of("\u{f487} "@ + decimal(app.projects.len()), colored(theme.status_projects)),
        span_of("   "@, colored(theme.muted)),
        span_of("\u{f0ede} "@ + decimal(chat_count(app.projects)), colored(theme.status_threads)),
    ];
    let message = if app.status != counts_text(app.projects) {
        seq![span_of("   "@, colored(theme.muted)), span_of(app.status, colored(theme.error))]
    } else {
        Seq::empty()
    };
    let spans = left_status(app, theme);
    let place = spans.len() - 2 * actions.len() + label_place(true, at);
    lemma_label_place(actions, true, theme, at);
    assert(spans == numbers + message + last);
    lemma_start_behind(numbers + message, last, label_place(true, at));
    lemma_start_behind(numbers, message, message.len() as int);
    reveal_with_fuel(start_of, 6);
    assert(start_of(numbers, 4) == 1 + 2 + decimal(app.projects.len()).len() + 3 + 2 + decimal(
        chat_count(app.projects),
    ).len());
    assert(start_of(numbers + message, (numbers + message).len() as int) == message_end(app));
    if start_of(spans, place) <= x < start_of(spans, place) + actions[at].0.len() {
        lemma_label_is_found(actions, message_end(app), true, at, x);
    }
}

proof fn lemma_width(actions: Seq<(Seq<char>, StatusAction)>)
    requires
        actions.len() > 0,
    ensures
        width_of(actions) == label_start(actions, false, actions.len() - 1) + actions.last().0.len(),
    decreases actions.len(),
{
    if actions.len() > 1 {
        let rest = actions.drop_last();
        lemma_width(rest);
        lemma_label_start_of_rest(actions, false, rest.len() - 1);
        assert(rest.last() == actions[rest.len() - 1]);
    }
}

/// A click on an action at the right of the status bar finds that action, where its label is drawn
/// at the end of a line that is wide enough, unless an action at the left covers the place.
pub proof fn law_right_action_is_found_where_it_is_drawn(
    app: AppView,
    theme: ResolvedTheme,
    at: int,
    x: int,
    width: int,
)
    requires
        0 <= at < right_actions(app.show_archived).len(),
        action_in(left_actions(app.search_mode, app.query), message_end(app), true, x) is None,
    ensures
        ({
            let actions = right_actions(app.show_archived);
            let spans = action_spans(actions, false, theme);
            let place = label_place(false, at);
            let start = width - start_of(spans, spans.len() as int) + start_of(spans, place);
            &&& spans[place].text == actions[at].0
            &&& start_of(spans, spans.len() as int) <= width && start <= x < start
                + actions[at].0.len() ==> action_at(app, x, width) == Some(actions[at].1)
        }),
{
    reveal(action_at);
    let actions = right_actions(app.show_archived);
    let spans = action_spans(actions, false, theme);
    let place = label_place(false, at);
    let last = actions.len() - 1;
    lemma_label_place(actions, false, theme, at);
    lemma_label_place(actions, false, theme, last);
    lemma_width(actions);
    assert(start_of(spans, spans.len() as int) == width_of(actions));
    let start = width - start_of(spans, spans.len() as int) + start_of(spans, place);
    if start_of(spans, spans.len() as int) <= width && start <= x < start + actions[at].0.len() {
        lemma_label_is_found(actions, width - width_of(actions), false, at, x);
    }
}

} // verus!

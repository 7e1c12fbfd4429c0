//! What the help and the prompts show.
use vstd::prelude::*;
use vstd::string::*;

use crate::agent::Harness;
use crate::app::{App, AppView, DeleteChoice, DeletePrompt, DeleteTarget, PromptView, TargetView};
use crate::config::Environment;
use crate::geometry::{centered, middle_of, Rect};
use crate::keys::answers;
use crate::layout::is_bounded;
use crate::mouse::answer_at;
use crate::text::opt_text;
use crate::theme::{bold_colored, colored, harness_color, new_chat_harness_color, plain_style, Color,
    ResolvedTheme, Style};
use crate::userpath::{display_dir_path, display_path, prefix_length, shown_dir_path, shown_path,
    split_executable_path};
use crate::view::{blank_line, item_views, line_views, panel, panel_of, span_of, span_views,
    start_of, LineView, Panel, Span, SpanView, TextLine};

verus! {

/// A text with spaces behind it, up to a width.
pub open spec fn padded(text: Seq<char>, width: int) -> Seq<char>
    decreases width - text.len(),
{
    if text.len() >= width {
        text
    } else {
        padded(text.push(' '), width)
    }
}

/// Puts spaces behind a text, up to a width.
pub fn pad(text: &str, width: usize) -> (result: String)
    ensures
        result@ == padded(text@, width as int),
{
    let mut result = text.to_owned();
    let mut count: usize = text.unicode_len();
    while count < width
        invariant
            count == result@.len(),
            padded(text@, width as int) == padded(result@, width as int),
        decreases width - count,
    {
        result.push(' ');
        count = count + 1;
    }
    result
}

/// Where the preview is scrolled to.
#[derive(Clone, Copy, Debug, PartialEq, Eq, Structural)]
pub struct Scroll {
    /// The first line that is shown when the end is in sight.
    pub last: usize,
    /// The first line that is shown.
    pub at: usize,
}

/// The first line that is shown of some, of which a number fits, when it is gone back from the end by
/// a number of lines.
pub open spec fn first_shown(content: int, viewport: int, back: int) -> int {
    if content > viewport + back {
        content - viewport - back
    } else {
        0
    }
}

/// Finds where the preview is scrolled to: so that its end is in sight, and back from there by a
/// number of lines, at most to its beginning.
pub fn scroll_place(content: usize, viewport: usize, back: u16) -> (scroll: Scroll)
    ensures
        scroll.at == first_shown(content as int, viewport as int, back as int),
        scroll.last == first_shown(content as int, viewport as int, 0),
        scroll.last == if content > viewport {
            content - viewport
        } else {
            0
        },
        scroll.at == if scroll.last > back {
            scroll.last - back
        } else {
            0
        },
{
    let last: usize = if content > viewport {
        content - viewport
    } else {
        0
    };
    let at: usize = if last > back as usize {
        last - back as usize
    } else {
        0
    };
    Scroll { last, at }
}

/// A line of the help: keys, and what they do.
pub open spec fn help_line(keys: Seq<char>, description: Seq<char>, theme: ResolvedTheme) -> LineView {
    LineView::Spans(
        seq![
            span_of(padded(keys, 17), bold_colored(theme.status_help)),
            span_of(description, colored(theme.foreground)),
        ],
    )
}

/// Lines of the help.
pub open spec fn help_lines(rows: Seq<(Seq<char>, Seq<char>)>, theme: ResolvedTheme) -> Seq<
    LineView,
> {
    rows.map_values(|row: (Seq<char>, Seq<char>)| help_line(row.0, row.1, theme))
}

/// A section of the help: its title, a blank line, and a line for each row.
pub open spec fn section_of(
    title: Seq<char>,
    rows: Seq<(Seq<char>, Seq<char>)>,
    theme: ResolvedTheme,
) -> Seq<LineView> {
    seq![LineView::Styled(title, bold_colored(theme.accent)), blank_line()] + help_lines(
        rows,
        theme,
    )
}

/// Keys and what they do, by their texts.
pub open spec fn row_texts(rows: Seq<(&'static str, &'static str)>) -> Seq<(Seq<char>, Seq<char>)> {
    rows.map_values(|row: (&'static str, &'static str)| (row.0@, row.1@))
}

fn write_help_line(keys: &str, description: &str, theme: ResolvedTheme) -> (line: TextLine)
    ensures
        line.view() == help_line(keys@, description@, theme),
{
    let spans = vec![
        Span { text: pad(keys, 17), style: Style::bold_fg(theme.status_help) },
        Span { text: description.to_owned(), style: Style::fg(theme.foreground) },
    ];
    assert(span_views(spans@) =~= seq![
        span_of(padded(keys@, 17), bold_colored(theme.status_help)),
        span_of(description@, colored(theme.foreground)),
    ]);
    TextLine::Spans(spans)
}

/// Writes a section of the help.
pub fn help_section(
    title: &str,
    rows: &Vec<(&'static str, &'static str)>,
    theme: ResolvedTheme,
) -> (lines: Vec<TextLine>)
    ensures
        line_views(lines@) == section_of(title@, row_texts(rows@), theme),
{
    let ghost all = row_texts(rows@);
    let mut lines = vec![
        TextLine::Styled(title.to_owned(), Style::bold_fg(theme.accent)),
        TextLine::Styled("".to_owned(), Style::plain()),
    ];
    let count: usize = rows.len();
    let mut index: usize = 0;
    assert(line_views(lines@) =~= section_of(title@, all.take(0), theme));
    while index < count
        invariant
            index <= count,
            count == rows@.len(),
            all == row_texts(rows@),
            line_views(lines@) == section_of(title@, all.take(index as int), theme),
        decreases count - index,
    {
        let ghost before = lines@;
        assert(all[index as int] == (rows@[index as int].0@, rows@[index as int].1@));
        lines.push(write_help_line(rows[index].0, rows[index].1, theme));
        let ghost added = help_line(rows@[index as int].0@, rows@[index as int].1@, theme);
        assert(line_views(lines@) =~= line_views(before).push(added));
        assert(section_of(title@, all.take(index + 1), theme) =~= section_of(
            title@,
            all.take(index as int),
            theme,
        ).push(added));
        index = index + 1;
    }
    assert(all.take(count as int) =~= all);
    lines
}

/// The keys that move.
pub open spec fn moving_keys() -> Seq<(Seq<char>, Seq<char>)> {
    seq![
        ("Tab / h / l"@, "change pane"@),
        ("j / \u{2193}"@, "move down"@),
        ("k / \u{2191}"@, "move up"@),
        ("Ctrl+n / Ctrl+p"@, "next / previous"@),
        ("gg / G"@, "first / last"@),
        ("Ctrl+d / Ctrl+u"@, "scroll preview"@),
    ]
}

/// The keys that act.
pub open spec fn acting_keys() -> Seq<(Seq<char>, Seq<char>)> {
    seq![
        ("Enter"@, "open or resume"@),
        ("N / n"@, "new project / chat"@),
        ("/"@, "search"@),
        ("a"@, "active / all"@),
        ("A / U"@, "archive / unarchive"@),
        ("D"@, "delete or hide"@),
        ("r"@, "refresh"@),
        ("q / Esc"@, "quit"@),
    ]
}

/// Writes the section of the help on the keys that move.
pub fn moving_help(theme: ResolvedTheme) -> (lines: Vec<TextLine>)
    ensures
        line_views(lines@) == section_of("Navigate"@, moving_keys(), theme),
{
    let rows: Vec<(&'static str, &'static str)> = vec![
        ("Tab / h / l", "change pane"),
        ("j / \u{2193}", "move down"),
        ("k / \u{2191}", "move up"),
        ("Ctrl+n / Ctrl+p", "next / previous"),
        ("gg / G", "first / last"),
        ("Ctrl+d / Ctrl+u", "scroll preview"),
    ];
    assert(row_texts(rows@) =~= moving_keys());
    help_section("Navigate", &rows, theme)
}

/// Writes the section of the help on the keys that act.
pub fn acting_help(theme: ResolvedTheme) -> (lines: Vec<TextLine>)
    ensures
        line_views(lines@) == section_of("Act"@, acting_keys(), theme),
{
    let rows: Vec<(&'static str, &'static str)> = vec![
        ("Enter", "open or resume"),
        ("N / n", "new project / chat"),
        ("/", "search"),
        ("a", "active / all"),
        ("A / U", "archive / unarchive"),
        ("D", "delete or hide"),
        ("r", "refresh"),
        ("q / Esc", "quit"),
    ];
    assert(row_texts(rows@) =~= acting_keys());
    help_section("Act", &rows, theme)
}

/// Writes what stands above the sections of the help.
pub fn help_introduction(theme: ResolvedTheme) -> (lines: Vec<TextLine>)
    ensures
        line_views(lines@) == seq![
            LineView::Styled(
                "Keyboard-first controls. Press any key, Esc, or click outside to close."@,
                colored(theme.muted),
            ),
            blank_line(),
        ],
{
    let lines = vec![
        TextLine::Styled(
            "Keyboard-first controls. Press any key, Esc, or click outside to close.".to_owned(),
            Style::fg(theme.muted),
        ),
        TextLine::Styled("".to_owned(), Style::plain()),
    ];
    assert(line_views(lines@) =~= seq![
        LineView::Styled(
            "Keyboard-first controls. Press any key, Esc, or click outside to close."@,
            colored(theme.muted),
        ),
        blank_line(),
    ]);
    lines
}

/// Writes what stands below the sections of the help.
pub fn help_tip(theme: ResolvedTheme) -> (line: TextLine)
    ensures
        line.view() == LineView::Styled(
            "Tip: the top bar has clickable shortcuts for the same actions."@,
            colored(theme.muted),
        ),
{
    TextLine::Styled(
        "Tip: the top bar has clickable shortcuts for the same actions.".to_owned(),
        Style::fg(theme.muted),
    )
}

/// How an answer to the question whether something is deleted is drawn.
pub open spec fn choice_style(
    selected: DeleteChoice,
    choice: DeleteChoice,
    theme: ResolvedTheme,
) -> Style {
    if selected == choice {
        Style {
            fg: Some(theme.foreground),
            bg: Some(
                if choice == DeleteChoice::Delete {
                    theme.error
                } else {
                    theme.selected
                },
            ),
            bold: true,
        }
    } else {
        colored(theme.muted)
    }
}

/// Finds how an answer to the question whether something is deleted is drawn.
pub fn delete_choice_style(
    selected: DeleteChoice,
    choice: DeleteChoice,
    theme: ResolvedTheme,
) -> (style: Style)
    ensures
        style == choice_style(selected, choice, theme),
{
    if selected == choice {
        let bg = if choice == DeleteChoice::Delete {
            theme.error
        } else {
            theme.selected
        };
        Style { fg: Some(theme.foreground), bg: Some(bg), bold: true }
    } else {
        Style::fg(theme.muted)
    }
}

/// The answers to the question whether something is deleted.
pub open spec fn choice_spans(prompt: PromptView, theme: ResolvedTheme) -> Seq<SpanView> {
    let gap = span_of("  "@, plain_style());
    let no = span_of(" No "@, choice_style(prompt.choice, DeleteChoice::No, theme));
    let hide = span_of(" Hide "@, choice_style(prompt.choice, DeleteChoice::Hide, theme));
    let delete = span_of(" Delete "@, choice_style(prompt.choice, DeleteChoice::Delete, theme));
    match prompt.target {
        TargetView::Project { name, cwd } => seq![gap, no, gap, hide, gap, delete],
        TargetView::Chat { thread } => seq![gap, no, gap, delete],
    }
}

fn gap_span() -> (span: Span)
    ensures
        span.view() == span_of("  "@, plain_style()),
{
    Span { text: "  ".to_owned(), style: Style::plain() }
}

/// Writes the answers to the question whether something is deleted.
pub fn delete_choice_line(prompt: &DeletePrompt, theme: ResolvedTheme) -> (spans: Vec<Span>)
    ensures
        span_views(spans@) == choice_spans(
            PromptView { target: prompt.target.view(), choice: prompt.choice },
            theme,
        ),
{
    let no = Span {
        text: " No ".to_owned(),
        style: delete_choice_style(prompt.choice, DeleteChoice::No, theme),
    };
    let delete = Span {
        text: " Delete ".to_owned(),
        style: delete_choice_style(prompt.choice, DeleteChoice::Delete, theme),
    };
    let ghost view = PromptView { target: prompt.target.view(), choice: prompt.choice };
    match &prompt.target {
        DeleteTarget::Project { name: _, cwd: _ } => {
            let hide = Span {
                text: " Hide ".to_owned(),
                style: delete_choice_style(prompt.choice, DeleteChoice::Hide, theme),
            };
            let spans = vec![gap_span(), no, gap_span(), hide, gap_span(), delete];
            assert(span_views(spans@) =~= choice_spans(view, theme));
            spans
        },
        DeleteTarget::Chat { thread: _ } => {
            let spans = vec![gap_span(), no, gap_span(), delete];
            assert(span_views(spans@) =~= choice_spans(view, theme));
            spans
        },
    }
}

/// The question whether something is deleted: what it is about, what would happen, and the answers.
pub open spec fn prompt_lines(prompt: PromptView, env: Environment, theme: ResolvedTheme) -> Seq<
    LineView,
> {
    seq![
        LineView::Styled(
            match prompt.target {
                TargetView::Project { name, cwd } => "Remove project "@ + name + "?"@,
                TargetView::Chat { thread } => "Delete chat "@ + thread.shown_title() + "?"@,
            },
            colored(theme.error),
        ),
        match prompt.target {
            TargetView::Project { name, cwd } => LineView::Spans(
                seq![
                    span_of(
                        "Hide removes from view; Delete removes from disk: "@,
                        colored(theme.foreground),
                    ),
                    span_of(shown_dir_path(cwd, env), colored(theme.status_threads)),
                ],
            ),
            TargetView::Chat { thread } => LineView::Styled(
                "Will delete this chat's on-disk history file(s)."@,
                colored(theme.foreground),
            ),
        },
        blank_line(),
        LineView::Spans(choice_spans(prompt, theme)),
    ]
}

fn write_warning(target: &DeleteTarget, env: &Environment, theme: ResolvedTheme) -> (line: TextLine)
    ensures
        line.view() == match target.view() {
            TargetView::Project { name, cwd } => LineView::Spans(
                seq![
                    span_of(
                        "Hide removes from view; Delete removes from disk: "@,
                        colored(theme.foreground),
                    ),
                    span_of(shown_dir_path(cwd, *env), colored(theme.status_threads)),
                ],
            ),
            TargetView::Chat { thread } => LineView::Styled(
                "Will delete this chat's on-disk history file(s)."@,
                colored(theme.foreground),
            ),
        },
{
    match target {
        DeleteTarget::Project { name: _, cwd } => {
            let spans = vec![
                Span {
                    text: "Hide removes from view; Delete removes from disk: ".to_owned(),
                    style: Style::fg(theme.foreground),
                },
                Span {
                    text: display_dir_path(cwd.as_str(), env),
                    style: Style::fg(theme.status_threads),
                },
            ];
            assert(span_views(spans@) =~= seq![
                span_of(
                    "Hide removes from view; Delete removes from disk: "@,
                    colored(theme.foreground),
                ),
                span_of(shown_dir_path(cwd@, *env), colored(theme.status_threads)),
            ]);
            TextLine::Spans(spans)
        },
        DeleteTarget::Chat { thread: _ } => TextLine::Styled(
            "Will delete this chat's on-disk history file(s).".to_owned(),
            Style::fg(theme.foreground),
        ),
    }
}

fn write_question(target: &DeleteTarget) -> (question: String)
    ensures
        question@ == match target.view() {
            TargetView::Project { name, cwd } => "Remove project "@ + name + "?"@,
            TargetView::Chat { thread } => "Delete chat "@ + thread.shown_title() + "?"@,
        },
{
    match target {
        DeleteTarget::Project { name, cwd: _ } => {
            let mut question = "Remove project ".to_owned();
            question.append(name.as_str());
            question.append("?");
            question
        },
        DeleteTarget::Chat { thread } => {
            let mut question = "Delete chat ".to_owned();
            question.append(thread.title());
            question.append("?");
            question
        },
    }
}

/// Writes the question whether something is deleted.
pub fn delete_prompt_text(prompt: &DeletePrompt, env: &Environment, theme: ResolvedTheme) -> (lines:
    Vec<TextLine>)
    ensures
        line_views(lines@) == prompt_lines(
            PromptView { target: prompt.target.view(), choice: prompt.choice },
            *env,
            theme,
        ),
{
    let lines = vec![
        TextLine::Styled(write_question(&prompt.target), Style::fg(theme.error)),
        write_warning(&prompt.target, env, theme),
        TextLine::Styled("".to_owned(), Style::plain()),
        TextLine::Spans(delete_choice_line(prompt, theme)),
    ];
    assert(line_views(lines@) =~= prompt_lines(
        PromptView { target: prompt.target.view(), choice: prompt.choice },
        *env,
        theme,
    ));
    lines
}

/// Writes a text that is being typed, with a cursor behind it.
pub fn typed_text(text: &str) -> (shown: String)
    ensures
        shown@ == " "@ + text@ + "\u{2588}"@,
{
    let mut shown = " ".to_owned();
    shown.append(text);
    shown.append("\u{2588}");
    shown
}

/// A style on the color of the selected entry, where the entry is selected.
pub open spec fn entry_style(color: Color, bold: bool, theme: ResolvedTheme) -> Style {
    Style { fg: Some(color), bg: Some(theme.selected), bold }
}

/// The path of a harness's command as it is shown.
pub open spec fn command_text(harness: Harness, env: Environment) -> Seq<char> {
    match opt_text(harness.command_path) {
        Some(path) => shown_path(path, env),
        None => "-"@,
    }
}

/// The line of a harness in the list for a new chat: its mark, its label, and the path of its
/// command, with the command itself set apart.
pub open spec fn harness_line(
    harness: Harness,
    selected: bool,
    claude_id: Seq<char>,
    env: Environment,
    theme: ResolvedTheme,
) -> Seq<SpanView> {
    let color = harness_color(harness.id@, claude_id, theme);
    let unfocused = colored(theme.new_chat_unfocused);
    let path = command_text(harness, env);
    seq![
        span_of(
            " "@ + padded(harness.marker@, 2) + " "@,
            if selected {
                entry_style(color, true, theme)
            } else {
                colored(color)
            },
        ),
        span_of(
            padded(harness.label@, 14),
            if selected {
                entry_style(color, true, theme)
            } else {
                unfocused
            },
        ),
        span_of(
            " "@ + path.take(prefix_length(path)),
            if selected {
                entry_style(theme.new_chat_path, false, theme)
            } else {
                unfocused
            },
        ),
        span_of(
            path.skip(prefix_length(path)) + " "@,
            if selected {
                entry_style(theme.new_chat_executable, false, theme)
            } else {
                unfocused
            },
        ),
    ]
}

/// The lines of harnesses in the list for a new chat.
pub open spec fn harness_lines(
    harnesses: Seq<Harness>,
    chosen: int,
    claude_id: Seq<char>,
    env: Environment,
    theme: ResolvedTheme,
) -> Seq<Seq<SpanView>> {
    Seq::new(
        harnesses.len(),
        |at: int| harness_line(harnesses[at], at == chosen, claude_id, env, theme),
    )
}

fn entry(color: Color, bold: bool, theme: ResolvedTheme) -> (style: Style)
    ensures
        style == entry_style(color, bold, theme),
{
    Style { fg: Some(color), bg: Some(theme.selected), bold }
}

fn write_harness(
    harness: &Harness,
    selected: bool,
    claude_id: &str,
    env: &Environment,
    theme: ResolvedTheme,
) -> (spans: Vec<Span>)
    ensures
        span_views(spans@) == harness_line(*harness, selected, claude_id@, *env, theme),
{
    let color = new_chat_harness_color(harness.id.as_str(), claude_id, theme);
    let unfocused = Style::fg(theme.new_chat_unfocused);
    let path = match &harness.command_path {
        Some(path) => display_path(path.as_str(), env),
        None => "-".to_owned(),
    };
    let (prefix, executable) = split_executable_path(path.as_str());
    let mut icon = " ".to_owned();
    icon.append(pad(harness.marker.as_str(), 2).as_str());
    icon.append(" ");
    let mut directory = " ".to_owned();
    directory.append(prefix);
    let mut command = executable.to_owned();
    command.append(" ");
    let spans = if selected {
        vec![
            Span { text: icon, style: entry(color, true, theme) },
            Span { text: pad(harness.label.as_str(), 14), style: entry(color, true, theme) },
            Span { text: directory, style: entry(theme.new_chat_path, false, theme) },
            Span { text: command, style: entry(theme.new_chat_executable, false, theme) },
        ]
    } else {
        vec![
            Span { text: icon, style: Style::fg(color) },
            Span { text: pad(harness.label.as_str(), 14), style: unfocused },
            Span { text: directory, style: unfocused },
            Span { text: command, style: unfocused },
        ]
    };
    assert(span_views(spans@) =~= harness_line(*harness, selected, claude_id@, *env, theme));
    spans
}

/// What asks for a new chat: a list of harnesses, with its title and how its border is drawn, or
/// the name that is being typed.
#[derive(Debug)]
pub enum ChatPrompt {
    Harnesses { lines: Vec<Vec<Span>>, title: String, panel: Panel },
    Name(String),
}

/// What asks for a new chat, by its characters.
pub enum ChatPromptView {
    Harnesses { lines: Seq<Seq<SpanView>>, title: Seq<char>, panel: Panel },
    Name(Seq<char>),
}

impl ChatPrompt {
    /// What asks for a new chat, by its characters.
    pub open spec fn view(self) -> ChatPromptView {
        match self {
            ChatPrompt::Harnesses { lines, title, panel } => ChatPromptView::Harnesses {
                lines: item_views(lines@),
                title: title@,
                panel,
            },
            ChatPrompt::Name(name) => ChatPromptView::Name(name@),
        }
    }
}

/// What asks for a new chat.
pub open spec fn chat_prompt_of(app: AppView, env: Environment, theme: ResolvedTheme) -> ChatPromptView {
    if app.new_chat_picking_harness {
        ChatPromptView::Harnesses {
            lines: harness_lines(
                app.harnesses,
                app.new_chat_harness_index,
                app.config.claude.id@,
                env,
                theme,
            ),
            title: match app.new_chat_harness_error {
                Some(error) => " "@ + error + " "@,
                None => " Select Harness "@,
            },
            panel: match app.new_chat_harness_error {
                Some(error) => Panel {
                    title: bold_colored(theme.error),
                    border: colored(theme.error),
                    text: colored(theme.foreground),
                },
                None => panel_of(true, theme),
            },
        }
    } else {
        ChatPromptView::Name(" "@ + app.new_chat_name + "\u{2588}"@)
    }
}

/// The area of what asks for a new chat.
pub open spec fn chat_popup(app: AppView, area: Rect) -> Rect {
    if app.new_chat_picking_harness {
        middle_of(area, 96, app.harnesses.len() as int + 4)
    } else {
        middle_of(area, 84, 5)
    }
}

fn write_harnesses(
    harnesses: &Vec<Harness>,
    chosen: usize,
    claude_id: &str,
    env: &Environment,
    theme: ResolvedTheme,
) -> (lines: Vec<Vec<Span>>)
    ensures
        item_views(lines@) == harness_lines(harnesses@, chosen as int, claude_id@, *env, theme),
{
    let ghost wanted = harness_lines(harnesses@, chosen as int, claude_id@, *env, theme);
    let mut lines: Vec<Vec<Span>> = Vec::new();
    let count: usize = harnesses.len();
    let mut index: usize = 0;
    assert(item_views(lines@) =~= wanted.take(0));
    while index < count
        invariant
            index <= count,
            count == harnesses@.len(),
            wanted == harness_lines(harnesses@, chosen as int, claude_id@, *env, theme),
            item_views(lines@) == wanted.take(index as int),
        decreases count - index,
    {
        let ghost before = lines@;
        lines.push(write_harness(&harnesses[index], index == chosen, claude_id, env, theme));
        assert(item_views(lines@) =~= item_views(before).push(wanted[index as int]));
        assert(wanted.take(index + 1) =~= wanted.take(index as int).push(wanted[index as int]));
        index = index + 1;
    }
    assert(wanted.take(count as int) =~= wanted);
    lines
}

impl App {
    /// Writes what asks for a new chat.
    pub fn new_chat_prompt(&self, env: &Environment, theme: ResolvedTheme) -> (prompt: ChatPrompt)
        ensures
            prompt.view() == chat_prompt_of(self.view(), *env, theme),
    {
        proof {
            reveal(App::view);
        }
        if !self.new_chat_picking_harness {
            return ChatPrompt::Name(typed_text(self.new_chat_name.as_str()));
        }
        let lines = write_harnesses(
            &self.harnesses,
            self.new_chat_harness_index,
            self.config.claude.id.as_str(),
            env,
            theme,
        );
        match &self.new_chat_harness_error {
            Some(error) => {
                let mut title = " ".to_owned();
                title.append(error.as_str());
                title.append(" ");
                let panel = Panel {
                    title: Style::bold_fg(theme.error),
                    border: Style::fg(theme.error),
                    text: Style::fg(theme.foreground),
                };
                ChatPrompt::Harnesses { lines, title, panel }
            },
            None => ChatPrompt::Harnesses {
                lines,
                title: " Select Harness ".to_owned(),
                panel: panel(true, theme),
            },
        }
    }

    /// Finds the area of what asks for a new chat.
    pub fn new_chat_popup(&self, area: Rect) -> (popup: Rect)
        requires
            is_bounded(area),
            self.harnesses@.len() + 4 <= u16::MAX,
        ensures
            popup == chat_popup(self.view(), area),
    {
        proof {
            reveal(App::view);
        }
        if self.new_chat_picking_harness {
            centered(area, 96, self.harnesses.len() as u16 + 4)
        } else {
            centered(area, 84, 5)
        }
    }
}

/// A click on an answer to the question whether something is deleted finds that answer: where it is
/// drawn, in the fourth line within the border, one answer behind the other.
pub proof fn law_answer_is_found_where_it_is_drawn(
    prompt: PromptView,
    popup: Rect,
    theme: ResolvedTheme,
    k: int,
    x: int,
)
    requires
        0 <= k < answers(prompt.target).len(),
        popup.x + 26 <= u16::MAX,
        popup.y + 4 <= u16::MAX,
        popup.x + 1 + start_of(choice_spans(prompt, theme), 2 * k + 1) <= x < popup.x + 1
            + start_of(choice_spans(prompt, theme), 2 * k + 2),
    ensures
        answer_at(x, popup.y + 4, popup, prompt.target) == Some(answers(prompt.target)[k]),
{
    reveal_strlit("  ");
    reveal_strlit(" No ");
    reveal_strlit(" Hide ");
    reveal_strlit(" Delete ");
    reveal_with_fuel(start_of, 7);
}

} // verus!

use cia::agent::{ContextRemaining, GitInfo, Harness, HarnessKind, Message, Thread};
use cia::app::{App, DeleteChoice, DeletePrompt, DeleteTarget, Focus, StatusAction};
use cia::config::{ClaudeNames, Config, Environment, ThemeConfig};
use cia::dates::format_timestamp;
use cia::geometry::Rect;
use cia::mouse::delete_choice_at;
use cia::prompts::{
    acting_help, delete_choice_line, delete_choice_style, delete_prompt_text, help_introduction,
    help_tip, moving_help, pad, scroll_place, typed_text, ChatPrompt,
};
use cia::refresh::Listed;
use cia::state::State;
use cia::theme::{color, new_chat_harness_color, Color, ResolvedTheme, Style};
use cia::tmux::{CanonicalPaths, Window};
use cia::view::{panel, selected, status_color, Span, TextLine};

fn names() -> Option<ClaudeNames> {
    Some(ClaudeNames {
        id: "fifth".to_owned(),
        label: "Fifth Harness".to_owned(),
        command: "fifth-cli".to_owned(),
        agent_command: "fifth-agent".to_owned(),
    })
}

fn no_paths() -> CanonicalPaths {
    CanonicalPaths {
        entries: Vec::new(),
    }
}

fn environment() -> Environment {
    Environment {
        variables: vec![("HOME".to_owned(), "/home/me".to_owned())],
    }
}

fn theme() -> ResolvedTheme {
    ResolvedTheme::from(&ThemeConfig::default())
}

fn harness(id: &str, path: Option<&str>) -> Harness {
    Harness {
        id: id.to_owned(),
        label: id.to_uppercase(),
        marker: "\u{3c0}".to_owned(),
        command: id.to_owned(),
        command_path: path.map(str::to_owned),
        kind: HarnessKind::Basic,
    }
}

fn thread(id: &str, cwd: &str) -> Thread {
    Thread {
        harness_id: "pi".to_owned(),
        id: id.to_owned(),
        name: Some(format!("chat {id}")),
        preview: "the beginning".to_owned(),
        cwd: cwd.to_owned(),
        created_at: 86_400,
        updated_at: 5,
        recency_at: None,
        source: Some("cli".to_owned()),
        git_info: Some(GitInfo {
            branch: Some("main".to_owned()),
        }),
        context_remaining: None,
        archived: false,
        path: None,
    }
}

fn window(cwd: &str) -> Window {
    Window {
        session: "s".into(),
        session_last_attached: 0,
        window_id: "@1".into(),
        window_name: "agents".into(),
        pane_id: "%1".into(),
        pane_pid: 1,
        command: "codex".into(),
        cwd: cwd.into(),
        harness_id: None,
        thread_id: None,
        chat_title: None,
    }
}

fn shown(threads: Vec<Thread>, windows: Vec<Window>) -> App {
    let app = App::new(
        Config::default(&names()),
        State::default(),
        vec![
            Ok(harness("pi", Some("/home/me/bin/pi"))),
            Ok(harness("codex", None)),
        ],
        "cia".to_owned(),
        &Environment {
            variables: vec![("USER".to_owned(), "me".to_owned())],
        },
    )
    .unwrap();
    let listed = vec![Listed {
        label: "Pi".to_owned(),
        active: Ok(threads),
        archived: Ok(Vec::new()),
    }];
    let (app, result) = app.refresh(listed, Ok(windows), &no_paths());
    assert!(result.is_ok());
    app
}

fn texts(spans: &[Span]) -> Vec<&str> {
    spans.iter().map(|span| span.text.as_str()).collect()
}

fn line_text(line: &TextLine) -> String {
    match line {
        TextLine::Styled(text, _) => text.clone(),
        TextLine::Spans(spans) => texts(spans).concat(),
    }
}

fn line_texts(lines: &[TextLine]) -> Vec<String> {
    lines.iter().map(line_text).collect()
}

#[test]
fn parses_rgb_theme_colors() {
    assert_eq!(color("#112233"), Color::Rgb(0x11, 0x22, 0x33));
}

#[test]
fn other_colors_are_the_terminals_own() {
    assert_eq!(color("##aAbBcC"), Color::Rgb(0xaa, 0xbb, 0xcc));
    assert_eq!(color("112233"), Color::Rgb(0x11, 0x22, 0x33));
    assert_eq!(color("+12233"), Color::Rgb(0x01, 0x22, 0x33));
    assert_eq!(color("#12345"), Color::Reset);
    assert_eq!(color("$BLUE_HEX"), Color::Reset);
    assert_eq!(color("#12345g"), Color::Reset);
    assert_eq!(color("\u{e9}\u{e9}\u{e9}"), Color::Reset);
    assert_eq!(color(""), Color::Reset);
}

#[test]
fn formats_thread_dates() {
    assert_eq!(format_timestamp(0), "1970-01-01");
}

#[test]
fn dates_follow_the_calendar() {
    assert_eq!(format_timestamp(-1), "1969-12-31");
    assert_eq!(format_timestamp(951_782_400), "2000-02-29");
    assert_eq!(format_timestamp(1_709_251_199), "2024-02-29");
    assert_eq!(format_timestamp(1_709_251_200), "2024-03-01");
    assert_eq!(format_timestamp(253_402_300_799), "9999-12-31");
    assert_eq!(format_timestamp(253_402_300_800), "253402300800");
    assert_eq!(format_timestamp(-62_135_596_801), "0000-12-31");
    assert_eq!(format_timestamp(-62_167_219_201), "-001-12-31");
    assert_eq!(format_timestamp(i64::MIN), "-9223372036854775808");
}

#[test]
fn status_bar_counts_and_offers() {
    let app = shown(vec![thread("1", "/a")], Vec::new());
    let left = app.status_left(theme());
    assert_eq!(
        texts(&left),
        vec![
            " ",
            "\u{f487} 1",
            "   ",
            "\u{f0ede} 1",
            "   ",
            "\u{f09ee} \u{f02d6}",
            "   ",
            "\u{f422} /"
        ]
    );
    assert_eq!(left[1].style, Style::fg(theme().status_projects));
    let right = app.status_right(theme());
    assert_eq!(right.len(), 11);
    assert_eq!(right[8].text, "\u{f411} (A)rchive");
    assert_eq!(right[10].style, Style::fg(theme().status_delete));
    let app = app.saying("trouble".to_owned()).with_search_mode(true);
    let left = app.status_left(theme());
    assert_eq!(left[5].text, "trouble");
    assert_eq!(left[5].style, Style::fg(theme().error));
    assert_eq!(left.last().unwrap().text, "\u{f422} \u{2588}");
    assert_eq!(
        status_color(StatusAction::Help, theme()),
        theme().status_help
    );
}

#[test]
fn labels_are_clicked_where_they_are_drawn() {
    let app = shown(vec![thread("1", "/a")], Vec::new()).saying("trouble".to_owned());
    let mut column = 0;
    let mut found = Vec::new();
    for span in app.status_left(theme()) {
        let width = span.text.chars().count() as u16;
        for x in column..column + width {
            if let Some(action) = app.status_action_at(x, 200) {
                found.push((action, span.text.clone()));
            }
        }
        column += width;
    }
    assert_eq!(found.len(), 6);
    assert!(found[..3].iter().all(|(action, _)| *action == StatusAction::Help));
    assert!(found[3..].iter().all(|(_, text)| text == "\u{f422} /"));
    let right = app.status_right(theme());
    let total: usize = right.iter().map(|span| span.text.chars().count()).sum();
    let mut column = 200 - total as u16;
    let mut actions = Vec::new();
    for span in right {
        if !span.text.trim().is_empty() {
            actions.push(app.status_action_at(column, 200).unwrap());
        } else {
            assert_eq!(app.status_action_at(column, 200), None);
        }
        column += span.text.chars().count() as u16;
    }
    assert_eq!(
        actions,
        vec![
            StatusAction::Open,
            StatusAction::ToggleArchived,
            StatusAction::NewProject,
            StatusAction::New,
            StatusAction::SetArchived,
            StatusAction::Delete
        ]
    );
}

#[test]
fn projects_are_listed_with_a_mark() {
    let app = shown(vec![thread("1", "/x/a")], vec![window("/x/b")]);
    let (items, at) = app.project_list(theme());
    assert_eq!(at, 0);
    assert_eq!(items.len(), 2);
    assert_eq!(texts(&items[0]), vec!["\u{25cf} ", "a"]);
    assert_eq!(items[0][0].style, Style::fg(theme().muted));
    assert_eq!(items[1][0].style, Style::fg(theme().success));
    let (_, at) = app.with_project(1).project_list(theme());
    assert_eq!(at, 1);
}

#[test]
fn chats_are_listed_with_their_harness() {
    let mut chat = thread("1", "/x/a");
    chat.harness_id = "unheard of".to_owned();
    let app = shown(vec![thread("2", "/x/a"), chat], vec![window("/x/a")]);
    let items = app.thread_list(theme());
    assert_eq!(items.len(), 3);
    assert_eq!(texts(&items[0])[..2], ["\u{25cf} ", "? "]);
    assert_eq!(texts(&items[1]), vec!["  ", "\u{3c0} ", "chat 2", ""]);
    assert_eq!(items[1][1].style, Style::fg(theme().new_chat_pi));
    assert_eq!(texts(&items[2]), vec!["  ", "? ", "chat 1", ""]);
    assert_eq!(items[2][1].style, Style::fg(theme().muted));
    assert_eq!(app.thread_list_title(), " Chats ");
}

#[test]
fn archived_chats_bear_an_icon() {
    let mut app = shown(vec![thread("1", "/x/a")], Vec::new());
    app.state.set_archived("pi", "1", true);
    app.show_archived = true;
    let listed = vec![Listed {
        label: "Pi".to_owned(),
        active: Ok(vec![thread("1", "/x/a")]),
        archived: Ok(Vec::new()),
    }];
    let (app, _) = app.refresh(listed, Ok(Vec::new()), &no_paths());
    let items = app.thread_list(theme());
    assert_eq!(items[0][3].text, " \u{f411}");
    assert_eq!(items[0][3].style, Style::fg(theme().archive_icon));
    assert_eq!(app.thread_list_title(), " All chats ");
}

#[test]
fn preview_tells_of_a_chat() {
    let app = shown(vec![thread("1", "/x/a")], Vec::new());
    let lines = app.preview_text(theme());
    assert_eq!(
        line_texts(&lines),
        vec![
            "chat 1",
            "PI \u{b7} cli \u{b7} main \u{b7} created 1970-01-02 \u{b7} /x/a",
            "",
            "the beginning"
        ]
    );
    let app = app.messages_read(Ok(vec![
        Message {
            role: "You".into(),
            text: "question".into(),
        },
        Message {
            role: "Pi".into(),
            text: "answer".into(),
        },
    ]));
    assert_eq!(
        line_texts(&app.preview_text(theme()))[2..],
        ["", "me", "question", "", "\u{3c0}", "answer", ""]
    );
    let mut blank = thread("1", "/x/a");
    blank.preview = String::new();
    let app = shown(vec![blank], Vec::new());
    assert_eq!(
        line_texts(&app.preview_text(theme()))[3],
        "No transcript preview available."
    );
}

#[test]
fn preview_tells_of_a_live_chat() {
    let mut pane = window("/x/a");
    pane.harness_id = Some("pi".to_owned());
    pane.thread_id = Some("1".to_owned());
    let app = shown(vec![thread("1", "/x/a")], vec![pane]);
    let lines = app.preview_text(theme());
    assert_eq!(line_text(&lines[2]), "\u{25cf} live");
    let app = shown(Vec::new(), vec![window("/x/a")]);
    assert_eq!(
        line_texts(&app.preview_text(theme())),
        vec![
            "Unmapped live agent",
            "s:agents \u{b7} /x/a",
            "",
            "CIA will switch to this window without guessing which saved thread it contains."
        ]
    );
    assert!(shown(Vec::new(), Vec::new()).preview_text(theme()).is_empty());
}

#[test]
fn preview_ends_in_sight() {
    let scroll = scroll_place(30, 10, 0);
    assert_eq!((scroll.last, scroll.at), (20, 20));
    assert_eq!(scroll_place(30, 10, 5).at, 15);
    assert_eq!(scroll_place(30, 10, 50).at, 0);
    assert_eq!(scroll_place(5, 10, 1).last, 0);
}

#[test]
fn help_lists_the_keys() {
    let moving = moving_help(theme());
    assert_eq!(moving.len(), 8);
    assert_eq!(line_text(&moving[0]), "Navigate");
    assert_eq!(line_text(&moving[2]), "Tab / h / l      change pane");
    assert_eq!(line_text(&moving[3]), "j / \u{2193}            move down");
    let acting = acting_help(theme());
    assert_eq!(acting.len(), 10);
    assert_eq!(line_text(&acting[9]), "q / Esc          quit");
    assert_eq!(help_introduction(theme()).len(), 2);
    assert_eq!(
        line_text(&help_tip(theme())),
        "Tip: the top bar has clickable shortcuts for the same actions."
    );
    assert_eq!(pad("\u{3c0}", 3), "\u{3c0}  ");
    assert_eq!(pad("long", 3), "long");
}

#[test]
fn delete_prompt_names_what_it_is_about() {
    let project = DeletePrompt {
        target: DeleteTarget::Project {
            name: "a".into(),
            cwd: "/home/me/a".into(),
        },
        choice: DeleteChoice::Hide,
    };
    assert_eq!(
        line_texts(&delete_prompt_text(&project, &environment(), theme())),
        vec![
            "Remove project a?",
            "Hide removes from view; Delete removes from disk: ~/a/",
            "",
            "   No    Hide    Delete "
        ]
    );
    let chat = DeletePrompt {
        target: DeleteTarget::Chat {
            thread: thread("1", "/a"),
        },
        choice: DeleteChoice::Delete,
    };
    assert_eq!(
        line_texts(&delete_prompt_text(&chat, &environment(), theme())),
        vec![
            "Delete chat chat 1?",
            "Will delete this chat's on-disk history file(s).",
            "",
            "   No    Delete "
        ]
    );
    let style = delete_choice_style(DeleteChoice::Delete, DeleteChoice::Delete, theme());
    assert_eq!(style.bg, Some(theme().error));
    assert!(style.bold);
    let style = delete_choice_style(DeleteChoice::No, DeleteChoice::No, theme());
    assert_eq!(style.bg, Some(theme().selected));
    let style = delete_choice_style(DeleteChoice::No, DeleteChoice::Hide, theme());
    assert_eq!(style, Style::fg(theme().muted));
}

#[test]
fn answers_are_clicked_where_they_are_drawn() {
    let popup = Rect {
        x: 10,
        y: 5,
        width: 76,
        height: 8,
    };
    let prompt = DeletePrompt {
        target: DeleteTarget::Project {
            name: "a".into(),
            cwd: "/a".into(),
        },
        choice: DeleteChoice::No,
    };
    let mut column = popup.x + 1;
    for span in delete_choice_line(&prompt, theme()) {
        let width = span.text.len() as u16;
        let wanted = match span.text.trim() {
            "No" => Some(DeleteChoice::No),
            "Hide" => Some(DeleteChoice::Hide),
            "Delete" => Some(DeleteChoice::Delete),
            _ => None,
        };
        for x in column..column + width {
            assert_eq!(delete_choice_at(x, popup.y + 4, popup, &prompt.target), wanted);
        }
        column += width;
    }
}

#[test]
fn new_chat_prompt_lists_harnesses() {
    let app = shown(vec![thread("1", "/a")], Vec::new()).begin_new_thread();
    match app.new_chat_prompt(&environment(), theme()) {
        ChatPrompt::Harnesses { lines, title, panel } => {
            assert_eq!(title, " Select Harness ");
            assert_eq!(panel.border, Style::fg(theme().border_focused));
            assert_eq!(
                texts(&lines[0]),
                vec![" \u{3c0}  ", "PI            ", " ~/bin/", "pi "]
            );
            assert_eq!(lines[0][0].style.bg, Some(theme().selected));
            assert_eq!(
                texts(&lines[1]),
                vec![" \u{3c0}  ", "CODEX         ", " ", "- "]
            );
            assert_eq!(lines[1][1].style, Style::fg(theme().new_chat_unfocused));
        }
        other => panic!("{other:?}"),
    }
    let area = Rect {
        x: 0,
        y: 0,
        width: 120,
        height: 40,
    };
    assert_eq!(
        app.new_chat_popup(area),
        Rect {
            x: 12,
            y: 17,
            width: 96,
            height: 6
        }
    );
    let app = app.set_new_chat_harness_index(1);
    match app.new_chat_prompt(&environment(), theme()) {
        ChatPrompt::Harnesses { title, panel, .. } => {
            assert_eq!(title, " CODEX cli tool not found - check install in $PATH ");
            assert_eq!(panel.title, Style::bold_fg(theme().error));
        }
        other => panic!("{other:?}"),
    }
    let app = app.set_new_chat_harness_index(0);
    match app.new_chat_prompt(&environment(), theme()) {
        ChatPrompt::Name(name) => assert_eq!(name, " \u{2588}"),
        other => panic!("{other:?}"),
    }
    assert_eq!(app.new_chat_popup(area).width, 84);
    assert_eq!(typed_text("abc"), " abc\u{2588}");
}

#[test]
fn context_is_not_shown() {
    let drawn = |context_remaining: Option<ContextRemaining>| {
        let app = shown(
            vec![Thread {
                context_remaining,
                ..thread("1", "/a")
            }],
            Vec::new(),
        );
        let items: Vec<String> = app
            .thread_list(theme())
            .iter()
            .flatten()
            .map(|span| span.text.clone())
            .collect();
        (line_texts(&app.preview_text(theme())), items)
    };
    assert_eq!(
        drawn(None),
        drawn(Some(ContextRemaining {
            used_tokens: 1,
            max_tokens: 4,
        }))
    );
}

#[test]
fn panels_show_where_the_keys_go() {
    let app = shown(vec![thread("1", "/a")], Vec::new());
    let focused = panel(app.focused() == Focus::Projects, theme());
    assert_eq!(focused.title, Style::fg(theme().title_focused));
    assert_eq!(
        panel(false, theme()).border,
        Style::fg(theme().border_unfocused)
    );
    assert_eq!(selected(theme()).bg, Some(theme().selected));
    assert_eq!(
        new_chat_harness_color("codex", "fifth", theme()),
        theme().new_chat_codex
    );
    assert_eq!(
        new_chat_harness_color("fifth", "fifth", theme()),
        theme().new_chat_claude
    );
    assert_eq!(
        new_chat_harness_color("fifth", "sixth", theme()),
        theme().muted
    );
    assert_eq!(Style::plain().fg, None);
}

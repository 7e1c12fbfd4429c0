//! Colors of the interface, resolved from the settings.
use vstd::prelude::*;
use vstd::string::*;

use crate::agent::{CODEX_HARNESS_ID, CURSOR_HARNESS_ID, OPENCODE_HARNESS_ID, PI_HARNESS_ID};
use crate::config::ThemeConfig;
use crate::text::{chars_of, same_text};

verus! {

/// A color: of its own, or the one that the terminal uses.
#[derive(Clone, Copy, Debug, PartialEq, Eq, Structural)]
pub enum Color {
    Rgb(u8, u8, u8),
    Reset,
}

/// How a text is shown.
#[derive(Clone, Copy, Debug, PartialEq, Eq, Structural)]
pub struct Style {
    pub fg: Option<Color>,
    pub bg: Option<Color>,
    pub bold: bool,
}

/// A text with nothing special.
pub open spec fn plain_style() -> Style {
    Style { fg: None, bg: None, bold: false }
}

/// A text in a color.
pub open spec fn colored(color: Color) -> Style {
    Style { fg: Some(color), bg: None, bold: false }
}

/// A bold text in a color.
pub open spec fn bold_colored(color: Color) -> Style {
    Style { fg: Some(color), bg: None, bold: true }
}

impl Style {
    /// A text with nothing special.
    pub fn plain() -> (style: Style)
        ensures
            style == plain_style(),
    {
        Style { fg: None, bg: None, bold: false }
    }

    /// A text in a color.
    pub fn fg(color: Color) -> (style: Style)
        ensures
            style == colored(color),
    {
        Style { fg: Some(color), bg: None, bold: false }
    }

    /// A bold text in a color.
    pub fn bold_fg(color: Color) -> (style: Style)
        ensures
            style == bold_colored(color),
    {
        Style { fg: Some(color), bg: None, bold: true }
    }
}

/// The value of a hexadecimal digit of either case.
pub open spec fn hex_value(character: char) -> Option<nat> {
    if '0' <= character <= '9' {
        Some((character as nat - '0' as nat) as nat)
    } else if 'a' <= character <= 'f' {
        Some((character as nat - 'a' as nat + 10) as nat)
    } else if 'A' <= character <= 'F' {
        Some((character as nat - 'A' as nat + 10) as nat)
    } else {
        None
    }
}

/// The number that hexadecimal digits stand for.
pub open spec fn hex_number(digits: Seq<char>) -> Option<nat>
    decreases digits.len(),
{
    if digits.len() == 0 {
        Some(0)
    } else {
        match (hex_number(digits.drop_last()), hex_value(digits.last())) {
            (Some(number), Some(digit)) => Some(number * 16 + digit),
            _ => None,
        }
    }
}

/// A text without the hashes that begin it.
pub open spec fn without_hashes(value: Seq<char>) -> Seq<char>
    decreases value.len(),
{
    if value.len() > 0 && value[0] == '#' {
        without_hashes(value.skip(1))
    } else {
        value
    }
}

/// The digits of a number, behind the plus that may begin it.
pub open spec fn without_plus(value: Seq<char>) -> Seq<char> {
    if value.len() > 1 && value[0] == '+' {
        value.skip(1)
    } else {
        value
    }
}

/// The color that a setting names: six hexadecimal digits, or the terminal's own.
pub open spec fn color_of(value: Seq<char>) -> Color {
    let code = without_hashes(value);
    match hex_number(without_plus(code)) {
        Some(number) => if code.len() == 6 {
            Color::Rgb((number / 65536) as u8, (number / 256 % 256) as u8, (number % 256) as u8)
        } else {
            Color::Reset
        },
        None => Color::Reset,
    }
}

fn digit_of(character: char) -> (digit: Option<u32>)
    ensures
        match digit {
            Some(digit) => digit < 16 && hex_value(character) == Some(digit as nat),
            None => hex_value(character) is None,
        },
{
    if '0' <= character && character <= '9' {
        Some(character as u32 - '0' as u32)
    } else if 'a' <= character && character <= 'f' {
        Some(character as u32 - 'a' as u32 + 10)
    } else if 'A' <= character && character <= 'F' {
        Some(character as u32 - 'A' as u32 + 10)
    } else {
        None
    }
}

proof fn lemma_no_number(digits: Seq<char>, count: int)
    requires
        0 <= count <= digits.len(),
        hex_number(digits.take(count)) is None,
    ensures
        hex_number(digits) is None,
    decreases digits.len(),
{
    if count < digits.len() {
        assert(digits.drop_last().take(count) =~= digits.take(count));
        lemma_no_number(digits.drop_last(), count);
    } else {
        assert(digits.take(count) =~= digits);
    }
}

/// Finds the color that a setting names.
pub fn color(value: &str) -> (color: Color)
    ensures
        color == color_of(value@),
{
    let chars = chars_of(value);
    let count: usize = chars.len();
    let mut start: usize = 0;
    assert(chars@.skip(0) =~= chars@);
    while start < count && chars[start] == '#'
        invariant
            start <= count,
            count == chars@.len(),
            without_hashes(chars@) == without_hashes(chars@.skip(start as int)),
        decreases count - start,
    {
        assert(chars@.skip(start as int).skip(1) =~= chars@.skip(start + 1));
        start = start + 1;
    }
    let ghost code = chars@.skip(start as int);
    assert(without_hashes(value@) == code);
    if count - start != 6 {
        return Color::Reset;
    }
    let first: usize = if chars[start] == '+' {
        start + 1
    } else {
        start
    };
    let ghost digits = chars@.skip(first as int);
    assert(digits =~= without_plus(code));
    let mut number: u32 = 0;
    let mut index: usize = first;
    assert(digits.take(0) =~= Seq::<char>::empty());
    while index < count
        invariant
            first <= index <= count,
            count == chars@.len(),
            count - first <= 6,
            digits == chars@.skip(first as int),
            without_hashes(value@) == code,
            code.len() == 6,
            digits == without_plus(code),
            hex_number(digits.take(index - first)) == Some(number as nat),
            index - first == 0 ==> number == 0,
            index - first == 1 ==> number < 16,
            index - first == 2 ==> number < 256,
            index - first == 3 ==> number < 4096,
            index - first == 4 ==> number < 65536,
            index - first == 5 ==> number < 1048576,
            index - first == 6 ==> number < 16777216,
        decreases count - index,
    {
        let ghost at = index - first;
        proof {
            assert(digits.take(at + 1).drop_last() =~= digits.take(at));
            assert(digits.take(at + 1).last() == chars@[index as int]);
        }
        match digit_of(chars[index]) {
            Some(digit) => {
                number = number * 16 + digit;
            },
            None => {
                proof {
                    lemma_no_number(digits, at + 1);
                }
                return Color::Reset;
            },
        }
        index = index + 1;
    }
    assert(digits.take(count - first) =~= digits);
    Color::Rgb((number / 65536) as u8, (number / 256 % 256) as u8, (number % 256) as u8)
}

/// The colors of the interface.
#[derive(Clone, Copy, Debug)]
pub struct ResolvedTheme {
    pub foreground: Color,
    pub muted: Color,
    pub accent: Color,
    pub error: Color,
    pub title_focused: Color,
    pub title_unfocused: Color,
    pub border_focused: Color,
    pub border_unfocused: Color,
    pub status_projects: Color,
    pub status_threads: Color,
    pub status_open: Color,
    pub status_new: Color,
    pub status_new_chat: Color,
    pub status_search: Color,
    pub status_archive: Color,
    pub status_archive_action: Color,
    pub status_unarchive: Color,
    pub status_delete: Color,
    pub status_help: Color,
    pub archive_icon: Color,
    pub preview_user: Color,
    pub preview_text: Color,
    pub preview_title: Color,
    pub new_chat_unfocused: Color,
    pub new_chat_pi: Color,
    pub new_chat_claude: Color,
    pub new_chat_codex: Color,
    pub new_chat_cursor: Color,
    pub new_chat_opencode: Color,
    pub new_chat_path: Color,
    pub new_chat_executable: Color,
    pub selected: Color,
    pub success: Color,
    pub warning: Color,
}

/// The colors that settings name.
pub open spec fn resolved(theme: ThemeConfig) -> ResolvedTheme {
    ResolvedTheme {
        foreground: color_of(theme.foreground@),
        muted: color_of(theme.muted@),
        accent: color_of(theme.accent@),
        error: color_of(theme.error@),
        title_focused: color_of(theme.title_focused@),
        title_unfocused: color_of(theme.title_unfocused@),
        border_focused: color_of(theme.border_focused@),
        border_unfocused: color_of(theme.border_unfocused@),
        status_projects: color_of(theme.status_projects@),
        status_threads: color_of(theme.status_threads@),
        status_open: color_of(theme.status_open@),
        status_new: color_of(theme.status_new@),
        status_new_chat: color_of(theme.status_new_chat@),
        status_search: color_of(theme.status_search@),
        status_archive: color_of(theme.status_archive@),
        status_archive_action: color_of(theme.status_archive_action@),
        status_unarchive: color_of(theme.status_unarchive@),
        status_delete: color_of(theme.status_delete@),
        status_help: color_of(theme.status_help@),
        archive_icon: color_of(theme.archive_icon@),
        preview_user: color_of(theme.preview_user@),
        preview_text: color_of(theme.preview_text@),
        preview_title: color_of(theme.preview_title@),
        new_chat_unfocused: color_of(theme.new_chat_unfocused@),
        new_chat_pi: color_of(theme.new_chat_pi@),
        new_chat_claude: color_of(theme.new_chat_claude@),
        new_chat_codex: color_of(theme.new_chat_codex@),
        new_chat_cursor: color_of(theme.new_chat_cursor@),
        new_chat_opencode: color_of(theme.new_chat_opencode@),
        new_chat_path: color_of(theme.new_chat_path@),
        new_chat_executable: color_of(theme.new_chat_executable@),
        selected: color_of(theme.selected@),
        success: color_of(theme.success@),
        warning: color_of(theme.warning@),
    }
}

impl From<&ThemeConfig> for ResolvedTheme {
    fn from(value: &ThemeConfig) -> (theme: Self) {
        ResolvedTheme {
            foreground: color(value.foreground.as_str()),
            muted: color(value.muted.as_str()),
            accent: color(value.accent.as_str()),
            error: color(value.error.as_str()),
            title_focused: color(value.title_focused.as_str()),
            title_unfocused: color(value.title_unfocused.as_str()),
            border_focused: color(value.border_focused.as_str()),
            border_unfocused: color(value.border_unfocused.as_str()),
            status_projects: color(value.status_projects.as_str()),
            status_threads: color(value.status_threads.as_str()),
            status_open: color(value.status_open.as_str()),
            status_new: color(value.status_new.as_str()),
            status_new_chat: color(value.status_new_chat.as_str()),
            status_search: color(value.status_search.as_str()),
            status_archive: color(value.status_archive.as_str()),
            status_archive_action: color(value.status_archive_action.as_str()),
            status_unarchive: color(value.status_unarchive.as_str()),
            status_delete: color(value.status_delete.as_str()),
            status_help: color(value.status_help.as_str()),
            archive_icon: color(value.archive_icon.as_str()),
            preview_user: color(value.preview_user.as_str()),
            preview_text: color(value.preview_text.as_str()),
            preview_title: color(value.preview_title.as_str()),
            new_chat_unfocused: color(value.new_chat_unfocused.as_str()),
            new_chat_pi: color(value.new_chat_pi.as_str()),
            new_chat_claude: color(value.new_chat_claude.as_str()),
            new_chat_codex: color(value.new_chat_codex.as_str()),
            new_chat_cursor: color(value.new_chat_cursor.as_str()),
            new_chat_opencode: color(value.new_chat_opencode.as_str()),
            new_chat_path: color(value.new_chat_path.as_str()),
            new_chat_executable: color(value.new_chat_executable.as_str()),
            selected: color(value.selected.as_str()),
            success: color(value.success.as_str()),
            warning: color(value.warning.as_str()),
        }
    }
}

impl vstd::std_specs::convert::FromSpecImpl<&ThemeConfig> for ResolvedTheme {
    open spec fn obeys_from_spec() -> bool {
        true
    }

    open spec fn from_spec(value: &ThemeConfig) -> Self {
        resolved(*value)
    }
}

/// The color of a harness, by its identifier, given that of the harness of `ClaudeConfig`.
pub open spec fn harness_color(
    harness_id: Seq<char>,
    claude_id: Seq<char>,
    theme: ResolvedTheme,
) -> Color {
    if harness_id == PI_HARNESS_ID@ {
        theme.new_chat_pi
    } else if harness_id == claude_id {
        theme.new_chat_claude
    } else if harness_id == CODEX_HARNESS_ID@ {
        theme.new_chat_codex
    } else if harness_id == CURSOR_HARNESS_ID@ {
        theme.new_chat_cursor
    } else if harness_id == OPENCODE_HARNESS_ID@ {
        theme.new_chat_opencode
    } else {
        theme.muted
    }
}

/// Finds the color of a harness, by its identifier, given that of the harness of
/// `ClaudeConfig`.
pub fn new_chat_harness_color(
    harness_id: &str,
    claude_id: &str,
    theme: ResolvedTheme,
) -> (color: Color)
    ensures
        color == harness_color(harness_id@, claude_id@, theme),
{
    if same_text(harness_id, PI_HARNESS_ID) {
        theme.new_chat_pi
    } else if same_text(harness_id, claude_id) {
        theme.new_chat_claude
    } else if same_text(harness_id, CODEX_HARNESS_ID) {
        theme.new_chat_codex
    } else if same_text(harness_id, CURSOR_HARNESS_ID) {
        theme.new_chat_cursor
    } else if same_text(harness_id, OPENCODE_HARNESS_ID) {
        theme.new_chat_opencode
    } else {
        theme.muted
    }
}

} // verus!

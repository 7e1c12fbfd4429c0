//! Settings: their defaults, and environment variables named in them.
use vstd::prelude::*;
use vstd::string::*;

use crate::path::{joined, path_join};
use crate::text::{chars_of, first_position, lemma_is_first_position, opt_str, opt_text, same_text,
    texts};

verus! {

pub const DEFAULT_UI_ARCHIVE_ICON: &'static str = "\u{f411}";

pub const DEFAULT_UI_DEFAULT_HARNESS: &'static str = "pi";

pub const DEFAULT_NEW_CHAT_CURSOR_COLOR: &'static str = "$BLACK_HEX";

pub const DEFAULT_NEW_CHAT_OPENCODE_COLOR: &'static str = "$WHITE_HEX";

/// All settings.
#[derive(Clone, Debug)]
pub struct Config {
    pub codex: CodexConfig,
    pub pi: PiConfig,
    pub claude: ClaudeConfig,
    pub cursor: CursorConfig,
    pub opencode: OpencodeConfig,
    pub tmux: TmuxConfig,
    pub ui: UiConfig,
    pub theme: ThemeConfig,
}

/// How Codex is run and shown.
#[derive(Clone, Debug)]
pub struct CodexConfig {
    pub command: String,
    pub icon: String,
    pub label: String,
    pub transcript_turns: usize,
}

/// How Pi is run and shown.
#[derive(Clone, Debug)]
pub struct PiConfig {
    pub command: String,
    pub icon: String,
    pub label: String,
    pub session_dir: Option<String>,
    pub enabled: Option<bool>,
}

/// What is built in of the harness of `ClaudeConfig`: its identifier, its label and its
/// command where nothing else is said, and the command by which its panes are known.
#[derive(Clone, Debug)]
pub struct ClaudeNames {
    pub id: String,
    pub label: String,
    pub command: String,
    pub agent_command: String,
}

/// How the harness of `ClaudeConfig` is run and shown. Its identifier is not a setting. Where nothing
/// is built in of it, it is not offered.
#[derive(Clone, Debug)]
pub struct ClaudeConfig {
    pub id: String,
    pub command: String,
    pub icon: String,
    pub label: String,
    pub enabled: Option<bool>,
}

/// How Cursor is run and shown.
#[derive(Clone, Debug)]
pub struct CursorConfig {
    pub command: String,
    pub icon: String,
    pub label: String,
    pub enabled: Option<bool>,
}

/// How OpenCode is run and shown.
#[derive(Clone, Debug)]
pub struct OpencodeConfig {
    pub command: String,
    pub icon: String,
    pub label: String,
    pub enabled: Option<bool>,
}

/// How tmux is run, and how agents are told from other panes.
#[derive(Debug)]
pub struct TmuxConfig {
    pub command: String,
    pub agent_commands: Vec<String>,
    pub agent_window_names: Vec<String>,
    pub new_window_prefix: String,
}

impl TmuxConfig {
    /// Whether another configuration has the same texts.
    pub open spec fn says_the_same(self, other: TmuxConfig) -> bool {
        &&& self.command@ == other.command@
        &&& texts(self.agent_commands@) == texts(other.agent_commands@)
        &&& texts(self.agent_window_names@) == texts(other.agent_window_names@)
        &&& self.new_window_prefix@ == other.new_window_prefix@
    }
}

impl Clone for TmuxConfig {
    fn clone(&self) -> (copy: Self)
        ensures
            copy.says_the_same(*self),
    {
        let copy = TmuxConfig {
            command: self.command.clone(),
            agent_commands: self.agent_commands.clone(),
            agent_window_names: self.agent_window_names.clone(),
            new_window_prefix: self.new_window_prefix.clone(),
        };
        assert(texts(copy.agent_commands@) =~= texts(self.agent_commands@));
        assert(texts(copy.agent_window_names@) =~= texts(self.agent_window_names@));
        copy
    }
}

/// What the interface starts with.
#[derive(Clone, Debug)]
pub struct UiConfig {
    pub archived_default: bool,
    pub archive_icon: String,
    pub default_harness: String,
}

/// The colors of the interface, as text.
#[derive(Clone, Debug)]
pub struct ThemeConfig {
    pub background: String,
    pub surface: String,
    pub foreground: String,
    pub muted: String,
    pub accent: String,
    pub selected: String,
    pub success: String,
    pub warning: String,
    pub error: String,
    pub title_focused: String,
    pub title_unfocused: String,
    pub border_focused: String,
    pub border_unfocused: String,
    pub status_projects: String,
    pub status_threads: String,
    pub status_open: String,
    pub status_new: String,
    pub status_new_chat: String,
    pub status_search: String,
    pub status_archive: String,
    pub status_archive_action: String,
    pub status_unarchive: String,
    pub status_delete: String,
    pub archive_icon: String,
    pub status_help: String,
    pub preview_user: String,
    pub preview_codex: String,
    pub preview_pi: String,
    pub preview_text: String,
    pub preview_title: String,
    pub new_chat_unfocused: String,
    pub new_chat_pi: String,
    pub new_chat_claude: String,
    pub new_chat_codex: String,
    pub new_chat_cursor: String,
    pub new_chat_opencode: String,
    pub new_chat_path: String,
    pub new_chat_executable: String,
}

impl CodexConfig {
    /// Whether nothing was set.
    pub open spec fn is_default(self) -> bool {
        &&& self.command@ == "codex"@
        &&& self.icon@ == "\u{f167a}"@
        &&& self.label@ == "Codex"@
        &&& self.transcript_turns == 3
    }
}

impl Default for CodexConfig {
    /// The settings of Codex where nothing else is said.
    fn default() -> (config: Self)
        ensures
            config.is_default(),
    {
        CodexConfig {
            command: "codex".to_owned(),
            icon: "\u{f167a}".to_owned(),
            label: "Codex".to_owned(),
            transcript_turns: 3,
        }
    }
}

impl PiConfig {
    /// Whether nothing was set.
    pub open spec fn is_default(self) -> bool {
        &&& self.command@ == "pi"@
        &&& self.icon@ == "\u{3c0}"@
        &&& self.label@ == "Pi"@
        &&& self.session_dir is None
        &&& self.enabled is None
    }
}

impl Default for PiConfig {
    /// The settings of Pi where nothing else is said.
    fn default() -> (config: Self)
        ensures
            config.is_default(),
    {
        PiConfig {
            command: "pi".to_owned(),
            icon: "\u{3c0}".to_owned(),
            label: "Pi".to_owned(),
            session_dir: None,
            enabled: None,
        }
    }
}

impl ClaudeConfig {
    /// Whether nothing was set.
    pub open spec fn is_default(self, names: Option<ClaudeNames>) -> bool {
        &&& self.icon@ == "\u{f4f5}"@
        &&& match names {
            Some(names) => self.id@ == names.id@ && self.command@ == names.command@ && self.label@
                == names.label@ && self.enabled is None,
            None => self.id@.len() == 0 && self.command@.len() == 0 && self.label@.len() == 0
                && self.enabled == Some(false),
        }
    }

    /// The settings of the harness where nothing else is said.
    pub fn default(names: &Option<ClaudeNames>) -> (config: Self)
        ensures
            config.is_default(*names),
    {
        match names {
            Some(names) => ClaudeConfig {
                id: names.id.clone(),
                command: names.command.clone(),
                icon: "\u{f4f5}".to_owned(),
                label: names.label.clone(),
                enabled: None,
            },
            None => ClaudeConfig {
                id: String::new(),
                command: String::new(),
                icon: "\u{f4f5}".to_owned(),
                label: String::new(),
                enabled: Some(false),
            },
        }
    }

    /// The settings of the harness where some are given: the default ones stand in for the others.
    /// A harness of which nothing is built in cannot be enabled.
    pub fn merged(
        names: &Option<ClaudeNames>,
        command: Option<String>,
        icon: Option<String>,
        label: Option<String>,
        enabled: Option<bool>,
    ) -> (config: Self)
        ensures
            exists|defaults: ClaudeConfig|
                #![trigger defaults.is_default(*names)]
                defaults.is_default(*names) && config.id@ == defaults.id@ && config.command@
                    == text_or(command, defaults.command) && config.icon@ == text_or(
                    icon,
                    defaults.icon,
                ) && config.label@ == text_or(label, defaults.label) && config.enabled == if names
                    is Some {
                    enabled
                } else {
                    Some(false)
                },
    {
        let defaults = ClaudeConfig::default(names);
        let ghost usual = defaults;
        assert(usual.is_default(*names));
        ClaudeConfig {
            id: defaults.id,
            command: given_or(command, defaults.command),
            icon: given_or(icon, defaults.icon),
            label: given_or(label, defaults.label),
            enabled: match names {
                Some(_) => enabled,
                None => Some(false),
            },
        }
    }
}

/// A text that was given, or another one in its stead.
pub open spec fn text_or(given: Option<String>, other: String) -> Seq<char> {
    match given {
        Some(text) => text@,
        None => other@,
    }
}

fn given_or(given: Option<String>, other: String) -> (text: String)
    ensures
        text@ == text_or(given, other),
{
    match given {
        Some(text) => text,
        None => other,
    }
}

impl CursorConfig {
    /// Whether nothing was set.
    pub open spec fn is_default(self) -> bool {
        &&& self.command@ == "cursor"@
        &&& self.icon@ == "\u{f02d9}"@
        &&& self.label@ == "Cursor"@
        &&& self.enabled is None
    }
}

impl Default for CursorConfig {
    /// The settings of Cursor where nothing else is said.
    fn default() -> (config: Self)
        ensures
            config.is_default(),
    {
        CursorConfig {
            command: "cursor".to_owned(),
            icon: "\u{f02d9}".to_owned(),
            label: "Cursor".to_owned(),
            enabled: None,
        }
    }
}

impl OpencodeConfig {
    /// Whether nothing was set.
    pub open spec fn is_default(self) -> bool {
        &&& self.command@ == "opencode"@
        &&& self.icon@ == "\u{f405}"@
        &&& self.label@ == "OpenCode"@
        &&& self.enabled is None
    }
}

impl Default for OpencodeConfig {
    /// The settings of OpenCode where nothing else is said.
    fn default() -> (config: Self)
        ensures
            config.is_default(),
    {
        OpencodeConfig {
            command: "opencode".to_owned(),
            icon: "\u{f405}".to_owned(),
            label: "OpenCode".to_owned(),
            enabled: None,
        }
    }
}

/// The commands that count as agents where nothing else is said.
pub open spec fn default_agent_commands(names: Option<ClaudeNames>) -> Seq<Seq<char>> {
    seq!["pi"@] + (match names {
        Some(names) => seq![names.agent_command@],
        None => Seq::empty(),
    }) + seq!["codex"@, "cursor"@, "opencode"@]
}

impl TmuxConfig {
    /// Whether nothing was set.
    pub open spec fn is_default(self, names: Option<ClaudeNames>) -> bool {
        &&& self.command@ == "tmux"@
        &&& texts(self.agent_commands@) == default_agent_commands(names)
        &&& texts(self.agent_window_names@) == seq!["agents"@]
        &&& self.new_window_prefix@ == "agent:"@
    }

    /// The settings of tmux where nothing else is said.
    pub fn default(names: &Option<ClaudeNames>) -> (config: Self)
        ensures
            config.is_default(*names),
    {
        let mut agent_commands: Vec<String> = Vec::new();
        agent_commands.push("pi".to_owned());
        if let Some(names) = names {
            agent_commands.push(names.agent_command.clone());
        }
        agent_commands.push("codex".to_owned());
        agent_commands.push("cursor".to_owned());
        agent_commands.push("opencode".to_owned());
        let mut agent_window_names: Vec<String> = Vec::new();
        agent_window_names.push("agents".to_owned());
        assert(texts(agent_commands@) =~= default_agent_commands(*names));
        assert(texts(agent_window_names@) =~= seq!["agents"@]);
        TmuxConfig {
            command: "tmux".to_owned(),
            agent_commands,
            agent_window_names,
            new_window_prefix: "agent:".to_owned(),
        }
    }

    /// The settings of tmux where some are given: the default ones stand in for the others.
    pub fn merged(
        names: &Option<ClaudeNames>,
        command: Option<String>,
        agent_commands: Option<Vec<String>>,
        agent_window_names: Option<Vec<String>>,
        new_window_prefix: Option<String>,
    ) -> (config: Self)
        ensures
            exists|defaults: TmuxConfig|
                #![trigger defaults.is_default(*names)]
                defaults.is_default(*names) && config.command@ == text_or(
                    command,
                    defaults.command,
                ) && texts(config.agent_commands@) == texts_or(
                    agent_commands,
                    defaults.agent_commands,
                ) && texts(config.agent_window_names@) == texts_or(
                    agent_window_names,
                    defaults.agent_window_names,
                ) && config.new_window_prefix@ == text_or(
                    new_window_prefix,
                    defaults.new_window_prefix,
                ),
    {
        let defaults = TmuxConfig::default(names);
        let ghost usual = defaults;
        assert(usual.is_default(*names));
        TmuxConfig {
            command: given_or(command, defaults.command),
            agent_commands: match agent_commands {
                Some(commands) => commands,
                None => defaults.agent_commands,
            },
            agent_window_names: match agent_window_names {
                Some(names) => names,
                None => defaults.agent_window_names,
            },
            new_window_prefix: given_or(new_window_prefix, defaults.new_window_prefix),
        }
    }
}

/// Texts that were given, or others in their stead.
pub open spec fn texts_or(given: Option<Vec<String>>, other: Vec<String>) -> Seq<Seq<char>> {
    match given {
        Some(list) => texts(list@),
        None => texts(other@),
    }
}

impl UiConfig {
    /// Whether nothing was set.
    pub open spec fn is_default(self) -> bool {
        &&& !self.archived_default
        &&& self.archive_icon@ == DEFAULT_UI_ARCHIVE_ICON@
        &&& self.default_harness@ == DEFAULT_UI_DEFAULT_HARNESS@
    }
}

impl Default for UiConfig {
    /// What the interface starts with where nothing else is said.
    fn default() -> (config: Self)
        ensures
            config.is_default(),
    {
        UiConfig {
            archived_default: false,
            archive_icon: DEFAULT_UI_ARCHIVE_ICON.to_owned(),
            default_harness: DEFAULT_UI_DEFAULT_HARNESS.to_owned(),
        }
    }
}

impl ThemeConfig {
    /// Whether nothing was set.
    pub open spec fn is_default(self) -> bool {
        &&& self.background@ == "#101218"@
        &&& self.surface@ == "#1b1e28"@
        &&& self.foreground@ == "#e6e6e6"@
        &&& self.muted@ == "#747b8c"@
        &&& self.accent@ == "#a8c7fa"@
        &&& self.selected@ == "#30364a"@
        &&& self.success@ == "#9bd5a5"@
        &&& self.warning@ == "#e5c07b"@
        &&& self.error@ == "$BRIGHTRED_HEX"@
        &&& self.title_focused@ == "#d2fd9d"@
        &&& self.title_unfocused@ == "#5c617d"@
        &&& self.border_focused@ == "#000000"@
        &&& self.border_unfocused@ == "#5c617d"@
        &&& self.status_projects@ == "#e6e6e6"@
        &&& self.status_threads@ == "#000000"@
        &&& self.status_open@ == "#80d7fe"@
        &&& self.status_new@ == "#80d7fe"@
        &&& self.status_new_chat@ == "#9bd5a5"@
        &&& self.status_search@ == "#0000ff"@
        &&& self.status_archive@ == "#e06c75"@
        &&& self.status_archive_action@ == "#e06c75"@
        &&& self.status_unarchive@ == "#c678dd"@
        &&& self.status_delete@ == "#e06c75"@
        &&& self.archive_icon@ == "#ff0000"@
        &&& self.status_help@ == "#e5c07b"@
        &&& self.preview_user@ == "#0000ff"@
        &&& self.preview_codex@ == "#00ffff"@
        &&& self.preview_pi@ == "$MAGENTA_HEX"@
        &&& self.preview_text@ == "#e6e6e6"@
        &&& self.preview_title@ == "$CYAN_HEX"@
        &&& self.new_chat_unfocused@ == "$BRIGHTBLACK_HEX"@
        &&& self.new_chat_pi@ == "$MAGENTA_HEX"@
        &&& self.new_chat_claude@ == "$BRIGHTYELLOW_HEX"@
        &&& self.new_chat_codex@ == "$BRIGHTMAGENTA_HEX"@
        &&& self.new_chat_cursor@ == DEFAULT_NEW_CHAT_CURSOR_COLOR@
        &&& self.new_chat_opencode@ == DEFAULT_NEW_CHAT_OPENCODE_COLOR@
        &&& self.new_chat_path@ == "$BLUE_HEX"@
        &&& self.new_chat_executable@ == "$BRIGHTGREEN_HEX"@
    }
}

impl Default for ThemeConfig {
    /// The colors of the interface where nothing else is said.
    fn default() -> (config: Self)
        ensures
            config.is_default(),
    {
        ThemeConfig {
            background: "#101218".to_owned(),
            surface: "#1b1e28".to_owned(),
            foreground: "#e6e6e6".to_owned(),
            muted: "#747b8c".to_owned(),
            accent: "#a8c7fa".to_owned(),
            selected: "#30364a".to_owned(),
            success: "#9bd5a5".to_owned(),
            warning: "#e5c07b".to_owned(),
            error: "$BRIGHTRED_HEX".to_owned(),
            title_focused: "#d2fd9d".to_owned(),
            title_unfocused: "#5c617d".to_owned(),
            border_focused: "#000000".to_owned(),
            border_unfocused: "#5c617d".to_owned(),
            status_projects: "#e6e6e6".to_owned(),
            status_threads: "#000000".to_owned(),
            status_open: "#80d7fe".to_owned(),
            status_new: "#80d7fe".to_owned(),
            status_new_chat: "#9bd5a5".to_owned(),
            status_search: "#0000ff".to_owned(),
            status_archive: "#e06c75".to_owned(),
            status_archive_action: "#e06c75".to_owned(),
            status_unarchive: "#c678dd".to_owned(),
            status_delete: "#e06c75".to_owned(),
            archive_icon: "#ff0000".to_owned(),
            status_help: "#e5c07b".to_owned(),
            preview_user: "#0000ff".to_owned(),
            preview_codex: "#00ffff".to_owned(),
            preview_pi: "$MAGENTA_HEX".to_owned(),
            preview_text: "#e6e6e6".to_owned(),
            preview_title: "$CYAN_HEX".to_owned(),
            new_chat_unfocused: "$BRIGHTBLACK_HEX".to_owned(),
            new_chat_pi: "$MAGENTA_HEX".to_owned(),
            new_chat_claude: "$BRIGHTYELLOW_HEX".to_owned(),
            new_chat_codex: "$BRIGHTMAGENTA_HEX".to_owned(),
            new_chat_cursor: DEFAULT_NEW_CHAT_CURSOR_COLOR.to_owned(),
            new_chat_opencode: DEFAULT_NEW_CHAT_OPENCODE_COLOR.to_owned(),
            new_chat_path: "$BLUE_HEX".to_owned(),
            new_chat_executable: "$BRIGHTGREEN_HEX".to_owned(),
        }
    }
}

impl Config {
    /// Whether nothing was set.
    pub open spec fn is_default(self, names: Option<ClaudeNames>) -> bool {
        &&& self.codex.is_default()
        &&& self.pi.is_default()
        &&& self.claude.is_default(names)
        &&& self.cursor.is_default()
        &&& self.opencode.is_default()
        &&& self.tmux.is_default(names)
        &&& self.ui.is_default()
        &&& self.theme.is_default()
    }

    /// The settings where nothing else is said.
    pub fn default(names: &Option<ClaudeNames>) -> (config: Self)
        ensures
            config.is_default(*names),
    {
        Config {
            codex: CodexConfig::default(),
            pi: PiConfig::default(),
            claude: ClaudeConfig::default(names),
            cursor: CursorConfig::default(),
            opencode: OpencodeConfig::default(),
            tmux: TmuxConfig::default(names),
            ui: UiConfig::default(),
            theme: ThemeConfig::default(),
        }
    }
}

/// Environment variables, by name.
#[derive(Clone, Debug)]
pub struct Environment {
    pub variables: Vec<(String, String)>,
}

/// The value of the first variable of a name.
pub open spec fn variable(variables: Seq<(String, String)>, name: Seq<char>) -> Option<Seq<char>>
    decreases variables.len(),
{
    if variables.len() == 0 {
        None
    } else if variables[0].0@ == name {
        Some(variables[0].1@)
    } else {
        variable(variables.skip(1), name)
    }
}

impl Environment {
    /// The value of a variable, where it is set.
    pub open spec fn value(self, name: Seq<char>) -> Option<Seq<char>> {
        variable(self.variables@, name)
    }

    /// The value of a variable, and nothing where it is not set.
    pub open spec fn value_or_empty(self, name: Seq<char>) -> Seq<char> {
        match self.value(name) {
            Some(value) => value,
            None => Seq::empty(),
        }
    }

    /// Looks a variable up.
    pub fn var(&self, name: &str) -> (value: Option<&str>)
        ensures
            opt_str(value) == self.value(name@),
    {
        let ghost all = self.variables@;
        let count: usize = self.variables.len();
        let mut index: usize = 0;
        assert(all.skip(0) =~= all);
        while index < count
            invariant
                index <= count,
                all == self.variables@,
                count == all.len(),
                variable(all, name@) == variable(all.skip(index as int), name@),
            decreases count - index,
        {
            assert(all.skip(index as int)[0] == all[index as int]);
            assert(all.skip(index as int).skip(1) =~= all.skip(index + 1));
            if same_text(self.variables[index].0.as_str(), name) {
                return Some(self.variables[index].1.as_str());
            }
            index = index + 1;
        }
        None
    }
}

/// A character that the name of a variable may begin with.
pub open spec fn begins_name(character: char) -> bool {
    character == '_' || 'a' <= character <= 'z' || 'A' <= character <= 'Z'
}

/// A character that the name of a variable may go on with.
pub open spec fn continues_name(character: char) -> bool {
    begins_name(character) || '0' <= character <= '9'
}

/// How many characters of a text make up the name that it begins with.
pub open spec fn name_length(value: Seq<char>) -> nat
    decreases value.len(),
{
    if value.len() > 0 && continues_name(value[0]) {
        1 + name_length(value.skip(1))
    } else {
        0
    }
}

/// A text with its variables replaced by their values: `$NAME` and `${NAME}` stand for a variable,
/// which counts as empty where it is not set, `$$` for a dollar sign, and any other dollar sign
/// for itself. What an open brace begins goes on to the end of the text where nothing closes it.
pub open spec fn expanded(value: Seq<char>, env: Environment) -> Seq<char>
    decreases value.len(),
    via expanded_decreases
{
    if value.len() == 0 {
        Seq::empty()
    } else if value[0] != '$' {
        seq![value[0]] + expanded(value.skip(1), env)
    } else if value.len() > 1 && value[1] == '$' {
        seq!['$'] + expanded(value.skip(2), env)
    } else if value.len() > 1 && value[1] == '{' {
        let rest = value.skip(2);
        let end = first_position(rest, '}');
        let after = if end < rest.len() {
            rest.skip(end + 1)
        } else {
            Seq::empty()
        };
        env.value_or_empty(rest.take(end)) + expanded(after, env)
    } else if value.len() > 1 && begins_name(value[1]) {
        let rest = value.skip(1);
        let end = name_length(rest) as int;
        env.value_or_empty(rest.take(end)) + expanded(rest.skip(end), env)
    } else {
        seq!['$'] + expanded(value.skip(1), env)
    }
}

proof fn lemma_name_length(value: Seq<char>)
    ensures
        name_length(value) <= value.len(),
        forall|k: int| 0 <= k < name_length(value) ==> continues_name(value[k]),
        name_length(value) < value.len() ==> !continues_name(value[name_length(value) as int]),
    decreases value.len(),
{
    if value.len() > 0 && continues_name(value[0]) {
        let rest = value.skip(1);
        lemma_name_length(rest);
        assert forall|k: int| 0 <= k < name_length(value) implies continues_name(value[k]) by {
            if k > 0 {
                assert(rest[k - 1] == value[k]);
            }
        }
    }
}

#[via_fn]
proof fn expanded_decreases(value: Seq<char>, env: Environment) {
    if value.len() > 1 {
        crate::text::lemma_first_position(value.skip(2), '}');
        lemma_name_length(value.skip(1));
    }
}

fn is_name_character(character: char) -> (continues: bool)
    ensures
        continues == continues_name(character),
{
    character == '_' || ('a' <= character && character <= 'z') || ('A' <= character && character
        <= 'Z') || ('0' <= character && character <= '9')
}

/// Replaces the variables in a text by their values.
pub fn expand_env_vars(value: &str, env: &Environment) -> (result: String)
    ensures
        result@ == expanded(value@, *env),
{
    let chars = chars_of(value);
    let count: usize = chars.len();
    let mut result = String::new();
    let mut index: usize = 0;
    let ghost all = value@;
    proof {
        assert(all.skip(0) =~= all);
        assert(Seq::<char>::empty() + expanded(all, *env) =~= expanded(all, *env));
    }
    while index < count
        invariant
            index <= count,
            all == value@,
            chars@ == all,
            count == all.len(),
            expanded(all, *env) == result@ + expanded(all.skip(index as int), *env),
        decreases count - index,
    {
        let ghost before = result@;
        let ghost start = index as int;
        let ghost here = all.skip(start);
        proof {
            assert(here[0] == all[start]);
            assert(here.skip(1) =~= all.skip(start + 1));
            if start + 1 < count {
                assert(here[1] == all[start + 1]);
                assert(here.skip(2) =~= all.skip(start + 2));
            }
        }
        if chars[index] != '$' {
            result.push(chars[index]);
            index = index + 1;
            assert(before + (seq![here[0]] + expanded(all.skip(index as int), *env)) =~= result@
                + expanded(all.skip(index as int), *env));
        } else if index + 1 < count && chars[index + 1] == '$' {
            result.push('$');
            index = index + 2;
            assert(before + (seq!['$'] + expanded(all.skip(index as int), *env)) =~= result@
                + expanded(all.skip(index as int), *env));
        } else if index + 1 < count && chars[index + 1] == '{' {
            let name_start: usize = index + 2;
            let mut end: usize = name_start;
            while end < count && chars[end] != '}'
                invariant
                    name_start <= end <= count,
                    chars@ == all,
                    count == all.len(),
                    forall|k: int| name_start <= k < end ==> all[k] != '}',
                decreases count - end,
            {
                end = end + 1;
            }
            let name = value.substring_char(name_start, end);
            let ghost rest = all.skip(start + 2);
            proof {
                lemma_is_first_position(rest, '}', end - name_start);
                assert(rest.take(end - name_start) =~= name@);
            }
            match env.var(name) {
                Some(found) => {
                    result.append(found);
                },
                None => {
                    assert(before + Seq::<char>::empty() =~= before);
                },
            }
            assert(result@ == before + env.value_or_empty(name@));
            if end < count {
                index = end + 1;
                assert(rest.skip(end - name_start + 1) =~= all.skip(index as int));
            } else {
                index = end;
                assert(all.skip(index as int) =~= Seq::<char>::empty());
            }
            assert(before + (env.value_or_empty(name@) + expanded(all.skip(index as int), *env))
                =~= result@ + expanded(all.skip(index as int), *env));
        } else if index + 1 < count && is_name_character(chars[index + 1]) && !('0'
            <= chars[index + 1] && chars[index + 1] <= '9') {
            let name_start: usize = index + 1;
            let mut end: usize = name_start;
            while end < count && is_name_character(chars[end])
                invariant
                    name_start <= end <= count,
                    chars@ == all,
                    count == all.len(),
                    forall|k: int| name_start <= k < end ==> continues_name(all[k]),
                decreases count - end,
            {
                end = end + 1;
            }
            let name = value.substring_char(name_start, end);
            let ghost rest = all.skip(start + 1);
            proof {
                lemma_name_length(rest);
                assert(name_length(rest) == end - name_start) by {
                    let found = name_length(rest) as int;
                    if found < end - name_start {
                        assert(rest[found] == all[name_start + found]);
                    }
                    if found > end - name_start {
                        assert(rest[end - name_start] == all[end as int]);
                    }
                }
                assert(rest.take(end - name_start) =~= name@);
                assert(rest.skip(end - name_start) =~= all.skip(end as int));
            }
            match env.var(name) {
                Some(found) => {
                    result.append(found);
                },
                None => {
                    assert(before + Seq::<char>::empty() =~= before);
                },
            }
            assert(result@ == before + env.value_or_empty(name@));
            assert(end > name_start) by {
                assert(continues_name(all[name_start as int]));
            }
            index = end;
            assert(before + (env.value_or_empty(name@) + expanded(all.skip(index as int), *env))
                =~= result@ + expanded(all.skip(index as int), *env));
        } else {
            result.push('$');
            index = index + 1;
            assert(before + (seq!['$'] + expanded(all.skip(index as int), *env)) =~= result@
                + expanded(all.skip(index as int), *env));
        }
    }
    assert(all.skip(count as int) =~= Seq::<char>::empty());
    assert(result@ + Seq::<char>::empty() =~= result@);
    result
}

/// A text without a dollar sign stays as it is.
pub proof fn law_expansion_keeps_plain_text(value: Seq<char>, env: Environment)
    requires
        !value.contains('$'),
    ensures
        expanded(value, env) == value,
    decreases value.len(),
{
    if value.len() > 0 {
        let rest = value.skip(1);
        assert(value[0] != '$');
        assert forall|k: int| 0 <= k < rest.len() implies rest[k] != '$' by {
            assert(rest[k] == value[k + 1]);
        }
        law_expansion_keeps_plain_text(rest, env);
        assert(seq![value[0]] + rest =~= value);
    } else {
        assert(value =~= Seq::<char>::empty());
    }
}

/// Every text can be written so that it comes out as it is: with each dollar sign doubled.
pub open spec fn doubled(value: Seq<char>) -> Seq<char>
    decreases value.len(),
{
    if value.len() == 0 {
        Seq::empty()
    } else if value[0] == '$' {
        seq!['$', '$'] + doubled(value.skip(1))
    } else {
        seq![value[0]] + doubled(value.skip(1))
    }
}

/// Doubling each dollar sign undoes the replacement of variables, for every text.
pub proof fn law_doubled_dollars_stand_for_themselves(value: Seq<char>, env: Environment)
    ensures
        expanded(doubled(value), env) == value,
    decreases value.len(),
{
    if value.len() > 0 {
        law_doubled_dollars_stand_for_themselves(value.skip(1), env);
        let rest = doubled(value.skip(1));
        if value[0] == '$' {
            assert((seq!['$', '$'] + rest).skip(2) =~= rest);
            assert(seq!['$'] + value.skip(1) =~= value);
        } else {
            assert((seq![value[0]] + rest).skip(1) =~= rest);
            assert(seq![value[0]] + value.skip(1) =~= value);
        }
    } else {
        assert(value =~= Seq::<char>::empty());
    }
}

/// Each text of a list with its variables replaced.
pub open spec fn expanded_texts(values: Seq<String>, env: Environment) -> Seq<Seq<char>> {
    values.map_values(|value: String| expanded(value@, env))
}

fn expand_all(values: &Vec<String>, env: &Environment) -> (result: Vec<String>)
    ensures
        texts(result@) == expanded_texts(values@, *env),
{
    let mut result: Vec<String> = Vec::new();
    let count: usize = values.len();
    let mut index: usize = 0;
    while index < count
        invariant
            index <= count,
            count == values@.len(),
            result@.len() == index,
            forall|k: int| 0 <= k < index ==> (#[trigger] result@[k])@ == expanded(values@[k]@, *env),
        decreases count - index,
    {
        result.push(expand_env_vars(values[index].as_str(), env));
        index = index + 1;
    }
    assert(texts(result@) =~= expanded_texts(values@, *env));
    result
}

/// Whether the colors of a theme are those of another with their variables replaced.
pub open spec fn is_expanded_theme(
    before: ThemeConfig,
    after: ThemeConfig,
    env: Environment,
) -> bool {
    &&& after.background@ == expanded(before.background@, env)
    &&& after.surface@ == expanded(before.surface@, env)
    &&& after.foreground@ == expanded(before.foreground@, env)
    &&& after.muted@ == expanded(before.muted@, env)
    &&& after.accent@ == expanded(before.accent@, env)
    &&& after.selected@ == expanded(before.selected@, env)
    &&& after.success@ == expanded(before.success@, env)
    &&& after.warning@ == expanded(before.warning@, env)
    &&& after.error@ == expanded(before.error@, env)
    &&& after.title_focused@ == expanded(before.title_focused@, env)
    &&& after.title_unfocused@ == expanded(before.title_unfocused@, env)
    &&& after.border_focused@ == expanded(before.border_focused@, env)
    &&& after.border_unfocused@ == expanded(before.border_unfocused@, env)
    &&& after.status_projects@ == expanded(before.status_projects@, env)
    &&& after.status_threads@ == expanded(before.status_threads@, env)
    &&& after.status_open@ == expanded(before.status_open@, env)
    &&& after.status_new@ == expanded(before.status_new@, env)
    &&& after.status_new_chat@ == expanded(before.status_new_chat@, env)
    &&& after.status_search@ == expanded(before.status_search@, env)
    &&& after.status_archive@ == expanded(before.status_archive@, env)
    &&& after.status_archive_action@ == expanded(before.status_archive_action@, env)
    &&& after.status_unarchive@ == expanded(before.status_unarchive@, env)
    &&& after.status_delete@ == expanded(before.status_delete@, env)
    &&& after.archive_icon@ == expanded(before.archive_icon@, env)
    &&& after.status_help@ == expanded(before.status_help@, env)
    &&& after.preview_user@ == expanded(before.preview_user@, env)
    &&& after.preview_codex@ == expanded(before.preview_codex@, env)
    &&& after.preview_pi@ == expanded(before.preview_pi@, env)
    &&& after.preview_text@ == expanded(before.preview_text@, env)
    &&& after.preview_title@ == expanded(before.preview_title@, env)
    &&& after.new_chat_unfocused@ == expanded(before.new_chat_unfocused@, env)
    &&& after.new_chat_pi@ == expanded(before.new_chat_pi@, env)
    &&& after.new_chat_claude@ == expanded(before.new_chat_claude@, env)
    &&& after.new_chat_codex@ == expanded(before.new_chat_codex@, env)
    &&& after.new_chat_cursor@ == expanded(before.new_chat_cursor@, env)
    &&& after.new_chat_opencode@ == expanded(before.new_chat_opencode@, env)
    &&& after.new_chat_path@ == expanded(before.new_chat_path@, env)
    &&& after.new_chat_executable@ == expanded(before.new_chat_executable@, env)
}

impl ThemeConfig {
    /// Replaces the variables in the colors.
    pub fn expand_env(&mut self, env: &Environment)
        ensures
            is_expanded_theme(*old(self), *final(self), *env),
    {
        self.background = expand_env_vars(self.background.as_str(), env);
        self.surface = expand_env_vars(self.surface.as_str(), env);
        self.foreground = expand_env_vars(self.foreground.as_str(), env);
        self.muted = expand_env_vars(self.muted.as_str(), env);
        self.accent = expand_env_vars(self.accent.as_str(), env);
        self.selected = expand_env_vars(self.selected.as_str(), env);
        self.success = expand_env_vars(self.success.as_str(), env);
        self.warning = expand_env_vars(self.warning.as_str(), env);
        self.error = expand_env_vars(self.error.as_str(), env);
        self.title_focused = expand_env_vars(self.title_focused.as_str(), env);
        self.title_unfocused = expand_env_vars(self.title_unfocused.as_str(), env);
        self.border_focused = expand_env_vars(self.border_focused.as_str(), env);
        self.border_unfocused = expand_env_vars(self.border_unfocused.as_str(), env);
        self.status_projects = expand_env_vars(self.status_projects.as_str(), env);
        self.status_threads = expand_env_vars(self.status_threads.as_str(), env);
        self.status_open = expand_env_vars(self.status_open.as_str(), env);
        self.status_new = expand_env_vars(self.status_new.as_str(), env);
        self.status_new_chat = expand_env_vars(self.status_new_chat.as_str(), env);
        self.status_search = expand_env_vars(self.status_search.as_str(), env);
        self.status_archive = expand_env_vars(self.status_archive.as_str(), env);
        self.status_archive_action = expand_env_vars(self.status_archive_action.as_str(), env);
        self.status_unarchive = expand_env_vars(self.status_unarchive.as_str(), env);
        self.status_delete = expand_env_vars(self.status_delete.as_str(), env);
        self.archive_icon = expand_env_vars(self.archive_icon.as_str(), env);
        self.status_help = expand_env_vars(self.status_help.as_str(), env);
        self.preview_user = expand_env_vars(self.preview_user.as_str(), env);
        self.preview_codex = expand_env_vars(self.preview_codex.as_str(), env);
        self.preview_pi = expand_env_vars(self.preview_pi.as_str(), env);
        self.preview_text = expand_env_vars(self.preview_text.as_str(), env);
        self.preview_title = expand_env_vars(self.preview_title.as_str(), env);
        self.new_chat_unfocused = expand_env_vars(self.new_chat_unfocused.as_str(), env);
        self.new_chat_pi = expand_env_vars(self.new_chat_pi.as_str(), env);
        self.new_chat_claude = expand_env_vars(self.new_chat_claude.as_str(), env);
        self.new_chat_codex = expand_env_vars(self.new_chat_codex.as_str(), env);
        self.new_chat_cursor = expand_env_vars(self.new_chat_cursor.as_str(), env);
        self.new_chat_opencode = expand_env_vars(self.new_chat_opencode.as_str(), env);
        self.new_chat_path = expand_env_vars(self.new_chat_path.as_str(), env);
        self.new_chat_executable = expand_env_vars(self.new_chat_executable.as_str(), env);
    }
}

/// Whether settings are others with their variables replaced; numbers and switches stay as they
/// were.
pub open spec fn is_expanded_config(before: Config, after: Config, env: Environment) -> bool {
    &&& after.codex.command@ == expanded(before.codex.command@, env)
    &&& after.codex.icon@ == expanded(before.codex.icon@, env)
    &&& after.codex.label@ == expanded(before.codex.label@, env)
    &&& after.pi.command@ == expanded(before.pi.command@, env)
    &&& after.pi.icon@ == expanded(before.pi.icon@, env)
    &&& after.pi.label@ == expanded(before.pi.label@, env)
    &&& after.claude.command@ == expanded(before.claude.command@, env)
    &&& after.claude.icon@ == expanded(before.claude.icon@, env)
    &&& after.claude.label@ == expanded(before.claude.label@, env)
    &&& after.cursor.command@ == expanded(before.cursor.command@, env)
    &&& after.cursor.icon@ == expanded(before.cursor.icon@, env)
    &&& after.cursor.label@ == expanded(before.cursor.label@, env)
    &&& after.opencode.command@ == expanded(before.opencode.command@, env)
    &&& after.opencode.icon@ == expanded(before.opencode.icon@, env)
    &&& after.opencode.label@ == expanded(before.opencode.label@, env)
    &&& after.tmux.command@ == expanded(before.tmux.command@, env)
    &&& after.tmux.new_window_prefix@ == expanded(before.tmux.new_window_prefix@, env)
    &&& after.ui.archive_icon@ == expanded(before.ui.archive_icon@, env)
    &&& after.ui.default_harness@ == expanded(before.ui.default_harness@, env)
    &&& opt_text(after.pi.session_dir) == match before.pi.session_dir {
        Some(session_dir) => Some(expanded(session_dir@, env)),
        None => None,
    }
    &&& texts(after.tmux.agent_commands@) == expanded_texts(before.tmux.agent_commands@, env)
    &&& texts(after.tmux.agent_window_names@) == expanded_texts(
        before.tmux.agent_window_names@,
        env,
    )
    &&& is_expanded_theme(before.theme, after.theme, env)
    &&& after.codex.transcript_turns == before.codex.transcript_turns
    &&& after.pi.enabled == before.pi.enabled
    &&& after.claude.id == before.claude.id
    &&& after.claude.enabled == before.claude.enabled
    &&& after.cursor.enabled == before.cursor.enabled
    &&& after.opencode.enabled == before.opencode.enabled
    &&& after.ui.archived_default == before.ui.archived_default
}

impl Config {
    /// The settings in force: those that were read, or the default ones where there are none to
    /// read, with the variables in them replaced.
    pub fn load(read: Option<Config>, names: &Option<ClaudeNames>, env: &Environment) -> (config: Config)
        ensures
            read matches Some(before) ==> is_expanded_config(before, config, *env),
            read is None ==> exists|before: Config|
                before.is_default(*names) && #[trigger] is_expanded_config(
                    before,
                    config,
                    *env,
                ),
    {
        let mut config = match read {
            Some(config) => config,
            None => Config::default(names),
        };
        let ghost before = config;
        config.expand_env(env);
        assert(is_expanded_config(before, config, *env));
        config
    }

    /// Replaces the variables in the settings.
    pub fn expand_env(&mut self, env: &Environment)
        ensures
            is_expanded_config(*old(self), *final(self), *env),
    {
        self.codex.command = expand_env_vars(self.codex.command.as_str(), env);
        self.codex.icon = expand_env_vars(self.codex.icon.as_str(), env);
        self.codex.label = expand_env_vars(self.codex.label.as_str(), env);
        self.pi.command = expand_env_vars(self.pi.command.as_str(), env);
        self.pi.icon = expand_env_vars(self.pi.icon.as_str(), env);
        self.pi.label = expand_env_vars(self.pi.label.as_str(), env);
        self.claude.command = expand_env_vars(self.claude.command.as_str(), env);
        self.claude.icon = expand_env_vars(self.claude.icon.as_str(), env);
        self.claude.label = expand_env_vars(self.claude.label.as_str(), env);
        self.cursor.command = expand_env_vars(self.cursor.command.as_str(), env);
        self.cursor.icon = expand_env_vars(self.cursor.icon.as_str(), env);
        self.cursor.label = expand_env_vars(self.cursor.label.as_str(), env);
        self.opencode.command = expand_env_vars(self.opencode.command.as_str(), env);
        self.opencode.icon = expand_env_vars(self.opencode.icon.as_str(), env);
        self.opencode.label = expand_env_vars(self.opencode.label.as_str(), env);
        self.tmux.command = expand_env_vars(self.tmux.command.as_str(), env);
        self.tmux.new_window_prefix = expand_env_vars(self.tmux.new_window_prefix.as_str(), env);
        self.ui.archive_icon = expand_env_vars(self.ui.archive_icon.as_str(), env);
        self.ui.default_harness = expand_env_vars(self.ui.default_harness.as_str(), env);
        self.pi.session_dir = match &self.pi.session_dir {
            Some(session_dir) => Some(expand_env_vars(session_dir.as_str(), env)),
            None => None,
        };
        self.tmux.agent_commands = expand_all(&self.tmux.agent_commands, env);
        self.tmux.agent_window_names = expand_all(&self.tmux.agent_window_names, env);
        self.theme.expand_env(env);
    }
}

/// The home directory, or the working directory where none is set.
pub open spec fn home(env: Environment) -> Seq<char> {
    match env.value("HOME"@) {
        Some(home) => home,
        None => "."@,
    }
}

/// Finds the home directory.
pub fn home_dir(env: &Environment) -> (home: String)
    ensures
        home@ == self::home(*env),
{
    match env.var("HOME") {
        Some(home) => home.to_owned(),
        None => ".".to_owned(),
    }
}

/// Where the settings are read from.
pub open spec fn config_file(env: Environment) -> Seq<char> {
    match env.value("XDG_CONFIG_HOME"@) {
        Some(base) => joined(base, "cia/config.toml"@),
        None => joined(joined(home(env), ".config"@), "cia/config.toml"@),
    }
}

/// Finds the file that the settings are read from.
pub fn config_path(env: &Environment) -> (path: String)
    ensures
        path@ == config_file(*env),
{
    match env.var("XDG_CONFIG_HOME") {
        Some(base) => path_join(base, "cia/config.toml"),
        None => path_join(
            path_join(home_dir(env).as_str(), ".config").as_str(),
            "cia/config.toml",
        ),
    }
}

/// Where the state and new projects are kept.
pub open spec fn state_directory(env: Environment) -> Seq<char> {
    match env.value("XDG_STATE_HOME"@) {
        Some(base) => joined(base, "cia"@),
        None => joined(joined(home(env), ".local/state"@), "cia"@),
    }
}

/// Finds the directory that the state is kept in.
pub fn state_dir(env: &Environment) -> (path: String)
    ensures
        path@ == state_directory(*env),
{
    match env.var("XDG_STATE_HOME") {
        Some(base) => path_join(base, "cia"),
        None => path_join(path_join(home_dir(env).as_str(), ".local/state").as_str(), "cia"),
    }
}

/// Finds the file that the state is kept in.
pub fn state_path(env: &Environment) -> (path: String)
    ensures
        path@ == joined(state_directory(*env), "state.json"@),
{
    path_join(state_dir(env).as_str(), "state.json")
}

} // verus!

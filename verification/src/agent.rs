//! Agents: the chats that they keep and the programs that run them.
use vstd::prelude::*;
use vstd::string::*;
use vstd::utf8::{decode_utf8, valid_utf8};

use crate::config::Config;
use crate::order::{Ranked, Sortable};
use crate::percent::{law_percent_in_bounds, percent, percent_of};
use crate::runner::utf8_text;
use crate::shell::{escape, escaped};
use crate::text::{first_line_of, leading_line, opt_text, trim, trimmed};

verus! {

pub const CODEX_HARNESS_ID: &'static str = "codex";

pub const PI_HARNESS_ID: &'static str = "pi";

pub const PI_HARNESS_LABEL: &'static str = "Pi";

pub const CURSOR_HARNESS_ID: &'static str = "cursor";

pub const OPENCODE_HARNESS_ID: &'static str = "opencode";

pub const DEFAULT_HARNESS_ID: &'static str = CODEX_HARNESS_ID;

/// The harness that counts where none is named.
pub fn default_harness_id() -> (id: String)
    ensures
        id@ == DEFAULT_HARNESS_ID@,
{
    DEFAULT_HARNESS_ID.to_owned()
}

/// A saved chat.
#[derive(Debug)]
pub struct Thread {
    pub harness_id: String,
    pub id: String,
    pub name: Option<String>,
    pub preview: String,
    pub cwd: String,
    pub created_at: i64,
    pub updated_at: i64,
    pub recency_at: Option<i64>,
    pub source: Option<String>,
    pub git_info: Option<GitInfo>,
    pub context_remaining: Option<ContextRemaining>,
    pub archived: bool,
    pub path: Option<String>,
}

/// The repository that a chat was held in.
#[derive(Debug)]
pub struct GitInfo {
    pub branch: Option<String>,
}

/// How much of a model's context a chat has used.
#[derive(Clone, Copy, Debug)]
pub struct ContextRemaining {
    pub used_tokens: u64,
    pub max_tokens: u64,
}

impl ContextRemaining {
    /// The share of the context that is left, in percent.
    pub open spec fn share_left(self) -> nat {
        if self.max_tokens == 0 {
            0
        } else {
            percent_of(
                if self.used_tokens < self.max_tokens {
                    (self.max_tokens - self.used_tokens) as nat
                } else {
                    0
                },
                self.max_tokens as nat,
            )
        }
    }

    /// Finds the share of the context that is left, in percent.
    pub fn percent_left(&self) -> (percent: u64)
        ensures
            percent == self.share_left(),
            percent <= 100,
    {
        if self.max_tokens == 0 {
            return 0;
        }
        let remaining: u64 = self.max_tokens.saturating_sub(self.used_tokens);
        proof {
            law_percent_in_bounds(remaining as nat, self.max_tokens as nat);
        }
        percent(remaining, self.max_tokens)
    }
}

impl Clone for GitInfo {
    fn clone(&self) -> (copy: Self)
        ensures
            copy == *self,
    {
        GitInfo { branch: self.branch.clone() }
    }
}

impl Clone for Thread {
    fn clone(&self) -> (copy: Self)
        ensures
            copy == *self,
    {
        Thread {
            harness_id: self.harness_id.clone(),
            id: self.id.clone(),
            name: self.name.clone(),
            preview: self.preview.clone(),
            cwd: self.cwd.clone(),
            created_at: self.created_at,
            updated_at: self.updated_at,
            recency_at: self.recency_at,
            source: self.source.clone(),
            git_info: self.git_info.clone(),
            context_remaining: self.context_remaining,
            archived: self.archived,
            path: self.path.clone(),
        }
    }
}

/// The title of a chat: its name, or the first line of its preview where it has no name, or a
/// stand-in where that is empty too.
pub open spec fn title_of(name: Option<Seq<char>>, preview: Seq<char>) -> Seq<char> {
    if name is Some && name->0.len() > 0 {
        name->0
    } else if first_line_of(preview) is Some && first_line_of(preview)->0.len() > 0 {
        first_line_of(preview)->0
    } else {
        "Untitled chat"@
    }
}

impl Thread {
    /// The title that the chat is shown by.
    pub open spec fn shown_title(self) -> Seq<char> {
        title_of(opt_text(self.name), self.preview@)
    }

    /// When the chat was last used.
    pub open spec fn last_used(self) -> i64 {
        match self.recency_at {
            Some(recency) => recency,
            None => self.updated_at,
        }
    }

    /// Whether the chat is the one that a harness keeps under an identifier.
    pub open spec fn is_thread(self, harness_id: Seq<char>, thread_id: Seq<char>) -> bool {
        self.harness_id@ == harness_id && self.id@ == thread_id
    }

    /// What the chat was started from.
    pub open spec fn shown_source(self) -> Seq<char> {
        match opt_text(self.source) {
            Some(source) => source,
            None => "unknown"@,
        }
    }

    /// The branch that the chat was held on, where one is known.
    pub open spec fn branch(self) -> Option<Seq<char>> {
        match self.git_info {
            Some(info) => opt_text(info.branch),
            None => None,
        }
    }

    /// Finds what the chat was started from.
    pub fn source_label(&self) -> (label: &str)
        ensures
            label@ == self.shown_source(),
    {
        match &self.source {
            Some(source) => source.as_str(),
            None => "unknown",
        }
    }

    /// Finds the branch that the chat was held on, or says that none is known.
    pub fn branch_label(&self) -> (label: &str)
        ensures
            label@ == match self.branch() {
                Some(branch) => branch,
                None => "no branch"@,
            },
    {
        match &self.git_info {
            Some(info) => match &info.branch {
                Some(branch) => branch.as_str(),
                None => "no branch",
            },
            None => "no branch",
        }
    }

    /// Finds the title that the chat is shown by.
    pub fn title(&self) -> (title: &str)
        ensures
            title@ == self.shown_title(),
    {
        if let Some(name) = &self.name {
            if !name.as_str().is_empty() {
                return name.as_str();
            }
        }
        if let Some(line) = leading_line(self.preview.as_str()) {
            if !line.is_empty() {
                return line;
            }
        }
        "Untitled chat"
    }

    /// Finds when the chat was last used.
    pub fn recency(&self) -> (recency: i64)
        ensures
            recency == self.last_used(),
    {
        match self.recency_at {
            Some(recency) => recency,
            None => self.updated_at,
        }
    }

    /// Lists the files that the chat is kept in, as far as they are known.
    pub fn storage_paths(&self) -> (paths: Vec<&str>)
        ensures
            self.path is None ==> paths@.len() == 0,
            self.path is Some ==> paths@.len() == 1 && paths@[0]@ == self.path->0@,
    {
        let mut paths: Vec<&str> = Vec::new();
        if let Some(path) = &self.path {
            paths.push(path.as_str());
        }
        paths
    }
}

impl Ranked for Thread {
    open spec fn outranks(self, other: Self) -> bool {
        self.last_used() > other.last_used()
    }

    proof fn irreflexive(a: Self) {
    }

    proof fn transitive(a: Self, b: Self, c: Self) {
    }
}

impl Sortable for Thread {
    fn is_ahead_of(&self, other: &Self) -> bool {
        self.recency() > other.recency()
    }
}

/// One message of a chat.
#[derive(Debug)]
pub struct Message {
    pub role: String,
    pub text: String,
}

impl Clone for Message {
    fn clone(&self) -> (copy: Self)
        ensures
            copy == *self,
    {
        Message { role: self.role.clone(), text: self.text.clone() }
    }
}

impl PartialEq for Message {
    fn eq(&self, other: &Self) -> (equal: bool) {
        self.role == other.role && self.text == other.text
    }
}

impl vstd::std_specs::cmp::PartialEqSpecImpl for Message {
    open spec fn obeys_eq_spec() -> bool {
        true
    }

    open spec fn eq_spec(&self, other: &Self) -> bool {
        self.role@ == other.role@ && self.text@ == other.text@
    }
}

/// The role and the text of a message.
pub open spec fn message_view(message: Message) -> (Seq<char>, Seq<char>) {
    (message.role@, message.text@)
}

/// The roles and the texts of messages.
pub open spec fn messages_view(messages: Seq<Message>) -> Seq<(Seq<char>, Seq<char>)> {
    messages.map_values(|message: Message| message_view(message))
}

/// What a harness can do beside being started.
#[derive(Clone, Copy, Debug, PartialEq, Eq, Structural)]
pub enum HarnessKind {
    Codex,
    Pi,
    Basic,
}

/// A program that runs agents. Its kind says how its chats are read: a basic one keeps none.
#[derive(Debug)]
pub struct Harness {
    pub id: String,
    pub label: String,
    pub marker: String,
    pub command: String,
    pub command_path: Option<String>,
    pub kind: HarnessKind,
}

/// Where the commands of the harnesses were found, as far as they were.
#[derive(Debug)]
pub struct CommandPaths {
    pub claude: Option<String>,
    pub codex: Option<String>,
    pub cursor: Option<String>,
    pub opencode: Option<String>,
    pub pi: Option<String>,
}

/// A harness by its texts.
pub struct HarnessView {
    pub id: Seq<char>,
    pub label: Seq<char>,
    pub marker: Seq<char>,
    pub command: Seq<char>,
    pub command_path: Option<Seq<char>>,
    pub kind: HarnessKind,
}

impl Harness {
    /// The harness by its texts.
    pub open spec fn view(self) -> HarnessView {
        HarnessView {
            id: self.id@,
            label: self.label@,
            marker: self.marker@,
            command: self.command@,
            command_path: opt_text(self.command_path),
            kind: self.kind,
        }
    }
}

/// The harness of `ClaudeConfig`.
pub open spec fn claude_harness(config: Config, paths: CommandPaths) -> HarnessView {
    HarnessView {
        id: config.claude.id@,
        label: config.claude.label@,
        marker: config.claude.icon@,
        command: config.claude.command@,
        command_path: opt_text(paths.claude),
        kind: HarnessKind::Basic,
    }
}

/// The harness for Codex. Its chats can be read only where its command was found.
pub open spec fn codex_harness(config: Config, paths: CommandPaths) -> HarnessView {
    HarnessView {
        id: CODEX_HARNESS_ID@,
        label: config.codex.label@,
        marker: config.codex.icon@,
        command: config.codex.command@,
        command_path: opt_text(paths.codex),
        kind: if paths.codex is Some {
            HarnessKind::Codex
        } else {
            HarnessKind::Basic
        },
    }
}

/// The harness for Cursor.
pub open spec fn cursor_harness(config: Config, paths: CommandPaths) -> HarnessView {
    HarnessView {
        id: CURSOR_HARNESS_ID@,
        label: config.cursor.label@,
        marker: config.cursor.icon@,
        command: config.cursor.command@,
        command_path: opt_text(paths.cursor),
        kind: HarnessKind::Basic,
    }
}

/// The harness for OpenCode.
pub open spec fn opencode_harness(config: Config, paths: CommandPaths) -> HarnessView {
    HarnessView {
        id: OPENCODE_HARNESS_ID@,
        label: config.opencode.label@,
        marker: config.opencode.icon@,
        command: config.opencode.command@,
        command_path: opt_text(paths.opencode),
        kind: HarnessKind::Basic,
    }
}

/// The harness for Pi.
pub open spec fn pi_harness(config: Config, paths: CommandPaths) -> HarnessView {
    HarnessView {
        id: PI_HARNESS_ID@,
        label: config.pi.label@,
        marker: config.pi.icon@,
        command: config.pi.command@,
        command_path: opt_text(paths.pi),
        kind: HarnessKind::Pi,
    }
}

/// Whether a harness is to be offered: unless it is switched off.
pub open spec fn is_enabled(enabled: Option<bool>) -> bool {
    enabled != Some(false)
}

/// One harness or none.
pub open spec fn if_enabled(enabled: Option<bool>, harness: HarnessView) -> Seq<HarnessView> {
    if is_enabled(enabled) {
        seq![harness]
    } else {
        Seq::empty()
    }
}

/// The harnesses to offer, in their order. Codex cannot be switched off.
pub open spec fn offered_harnesses(config: Config, paths: CommandPaths) -> Seq<HarnessView> {
    if_enabled(config.claude.enabled, claude_harness(config, paths)) + seq![
        codex_harness(config, paths),
    ] + if_enabled(config.cursor.enabled, cursor_harness(config, paths)) + if_enabled(
        config.opencode.enabled,
        opencode_harness(config, paths),
    ) + if_enabled(config.pi.enabled, pi_harness(config, paths))
}

/// Harnesses by their texts.
pub open spec fn harness_views(harnesses: Seq<Harness>) -> Seq<HarnessView> {
    harnesses.map_values(|harness: Harness| harness.view())
}

fn allows(enabled: Option<bool>) -> (allowed: bool)
    ensures
        allowed == is_enabled(enabled),
{
    match enabled {
        Some(enabled) => enabled,
        None => true,
    }
}

fn copied(value: &Option<String>) -> (copy: Option<String>)
    ensures
        copy == *value,
{
    value.clone()
}

/// The chats of a harness: those that were read, marked as its own.
pub open spec fn owned_threads(threads: Seq<Thread>, owned: Seq<Thread>, id: Seq<char>) -> bool {
    &&& owned.len() == threads.len()
    &&& forall|k: int|
        #![trigger owned[k]]
        0 <= k < threads.len() ==> owned[k].harness_id@ == id && owned[k] == (Thread {
            harness_id: owned[k].harness_id,
            ..threads[k]
        })
}

impl Harness {
    /// Lists the harnesses to offer.
    pub fn start_all(config: &Config, paths: &CommandPaths) -> (harnesses: Vec<Harness>)
        ensures
            harness_views(harnesses@) == offered_harnesses(*config, *paths),
    {
        let mut harnesses: Vec<Harness> = Vec::new();
        assert(harness_views(harnesses@) =~= Seq::<HarnessView>::empty());
        if allows(config.claude.enabled) {
            harnesses.push(
                Self::basic(
                    config.claude.id.as_str(),
                    config.claude.label.as_str(),
                    config.claude.icon.as_str(),
                    config.claude.command.as_str(),
                    copied(&paths.claude),
                ),
            );
        }
        let ghost first = if_enabled(config.claude.enabled, claude_harness(*config, *paths));
        assert(harness_views(harnesses@) =~= first);
        harnesses.push(Self::start_codex(config, copied(&paths.codex)));
        let ghost second = first + seq![codex_harness(*config, *paths)];
        assert(harness_views(harnesses@) =~= second);
        if allows(config.cursor.enabled) {
            harnesses.push(
                Self::basic(
                    CURSOR_HARNESS_ID,
                    config.cursor.label.as_str(),
                    config.cursor.icon.as_str(),
                    config.cursor.command.as_str(),
                    copied(&paths.cursor),
                ),
            );
        }
        let ghost third = second + if_enabled(
            config.cursor.enabled,
            cursor_harness(*config, *paths),
        );
        assert(harness_views(harnesses@) =~= third);
        if allows(config.opencode.enabled) {
            harnesses.push(
                Self::basic(
                    OPENCODE_HARNESS_ID,
                    config.opencode.label.as_str(),
                    config.opencode.icon.as_str(),
                    config.opencode.command.as_str(),
                    copied(&paths.opencode),
                ),
            );
        }
        let ghost fourth = third + if_enabled(
            config.opencode.enabled,
            opencode_harness(*config, *paths),
        );
        assert(harness_views(harnesses@) =~= fourth);
        if allows(config.pi.enabled) {
            harnesses.push(Self::start_pi(config, copied(&paths.pi)));
        }
        assert(harness_views(harnesses@) =~= offered_harnesses(*config, *paths));
        harnesses
    }

    /// The harness for Codex, whose chats can be read only where its command was found.
    pub fn start_codex(config: &Config, command_path: Option<String>) -> (harness: Harness)
        ensures
            harness.id@ == CODEX_HARNESS_ID@,
            harness.label@ == config.codex.label@,
            harness.marker@ == config.codex.icon@,
            harness.command@ == config.codex.command@,
            harness.command_path == command_path,
            harness.kind == if command_path is Some {
                HarnessKind::Codex
            } else {
                HarnessKind::Basic
            },
    {
        let kind = if command_path.is_some() {
            HarnessKind::Codex
        } else {
            HarnessKind::Basic
        };
        Harness {
            id: CODEX_HARNESS_ID.to_owned(),
            label: config.codex.label.clone(),
            marker: config.codex.icon.clone(),
            command: config.codex.command.clone(),
            command_path,
            kind,
        }
    }

    /// The harness for Pi, whose chats can be read without its command.
    pub fn start_pi(config: &Config, command_path: Option<String>) -> (harness: Harness)
        ensures
            harness.id@ == PI_HARNESS_ID@,
            harness.label@ == config.pi.label@,
            harness.marker@ == config.pi.icon@,
            harness.command@ == config.pi.command@,
            harness.command_path == command_path,
            harness.kind == HarnessKind::Pi,
    {
        Harness {
            id: PI_HARNESS_ID.to_owned(),
            label: config.pi.label.clone(),
            marker: config.pi.icon.clone(),
            command: config.pi.command.clone(),
            command_path,
            kind: HarnessKind::Pi,
        }
    }

    /// A harness that can only be started.
    pub fn basic(
        id: &str,
        label: &str,
        marker: &str,
        command: &str,
        command_path: Option<String>,
    ) -> (harness: Harness)
        ensures
            harness.id@ == id@,
            harness.label@ == label@,
            harness.marker@ == marker@,
            harness.command@ == command@,
            harness.command_path == command_path,
            harness.kind == HarnessKind::Basic,
    {
        Harness {
            id: id.to_owned(),
            label: label.to_owned(),
            marker: marker.to_owned(),
            command: command.to_owned(),
            command_path,
            kind: HarnessKind::Basic,
        }
    }

    /// Marks the chats that were read for the harness as its own.
    pub fn list_threads(&self, threads: Vec<Thread>) -> (owned: Vec<Thread>)
        ensures
            owned_threads(threads@, owned@, self.id@),
    {
        let ghost all = threads@;
        let mut owned: Vec<Thread> = Vec::new();
        for thread in it: threads
            invariant
                it.seq() == all,
                owned@.len() == it.index(),
                forall|k: int|
                    #![trigger owned@[k]]
                    0 <= k < it.index() ==> owned@[k].harness_id@ == self.id@ && owned@[k] == (Thread {
                        harness_id: owned@[k].harness_id,
                        ..all[k]
                    }),
        {
            let mut marked = thread;
            marked.harness_id = self.id.clone();
            owned.push(marked);
        }
        owned
    }

    /// Whether the command of the harness was found.
    pub fn command_available(&self) -> (available: bool)
        ensures
            available == (self.command_path is Some),
    {
        self.command_path.is_some()
    }

    /// What is said where the command of the harness was not found.
    pub open spec fn missing_cli(self) -> Seq<char> {
        self.label@ + " cli tool not found - check install in $PATH"@
    }

    /// Writes what is said where the command of the harness was not found.
    pub fn missing_cli_message(&self) -> (message: String)
        ensures
            message@ == self.missing_cli(),
    {
        let mut message = self.label.clone();
        message.append(" cli tool not found - check install in $PATH");
        message
    }
}

/// Writes the script that finds a command.
pub fn command_path_script(command: &str) -> (script: String)
    ensures
        script@ == "command -v "@ + escaped(command@),
{
    let mut script = "command -v ".to_owned();
    script.append(escape(command).as_str());
    script
}

/// The path that the script found: the first line that it printed, where it succeeded and printed
/// text that is not blank there.
pub open spec fn found_path(success: bool, stdout: Seq<u8>) -> Option<Seq<char>> {
    if success && valid_utf8(stdout) && first_line_of(decode_utf8(stdout)) is Some && trimmed(
        first_line_of(decode_utf8(stdout))->0,
    ).len() > 0 {
        Some(trimmed(first_line_of(decode_utf8(stdout))->0))
    } else {
        None
    }
}

/// Reads the path that the script found.
pub fn command_path(success: bool, stdout: Vec<u8>) -> (path: Option<String>)
    ensures
        opt_text(path) == found_path(success, stdout@),
{
    if !success {
        return None;
    }
    match utf8_text(stdout) {
        None => None,
        Some(text) => match leading_line(text.as_str()) {
            None => None,
            Some(line) => {
                let path = trim(line);
                if path.is_empty() {
                    None
                } else {
                    Some(path.to_owned())
                }
            },
        },
    }
}

} // verus!

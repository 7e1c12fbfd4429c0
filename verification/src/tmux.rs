//! Panes of a tmux server: reading the inventory and deciding which commands to run.
use vstd::prelude::*;
use vstd::string::*;
use vstd::utf8::*;

use crate::config::{variable, TmuxConfig};
use crate::path::{file_name, is_same_path, path_file_name, same_path};
use crate::runner::{decoded, encode, encoded, is_hex_char, law_decode_inverts_encode,
    law_encoded_is_hexadecimal, DecodeFault};
use crate::shell::{escape, escaped, is_plain, is_plain_word, law_command_line_words,
    lemma_spaced_concat, lemma_spaced_three, lemma_spaced_two, shell_words, spaced};
use crate::text::{begins_with, contains, contains_text, decimal, decimal_text, decimal_value, digit,
    is_before, is_capital, lemma_lowered, lemma_lowered_stays, lemma_text_before_irreflexive,
    lemma_text_before_total, lemma_text_before_transitive, lines, lines_of, lowered, lowered_chars,
    opt_str, opt_text, parse_i64, parse_u32, same_text, signed_value, split, split_text,
    starts_with, text_before, text_of, texts, trim, trimmed, unsigned_value};

verus! {

/// What stands between the fields of an inventory row.
pub const SEP: char = '\u{1f}';

/// A pane of a tmux server, with the marks that were put on it.
#[derive(Debug, PartialEq, Eq)]
pub struct Window {
    pub session: String,
    pub session_last_attached: i64,
    pub window_id: String,
    pub window_name: String,
    pub pane_id: String,
    pub pane_pid: u32,
    pub command: String,
    pub cwd: String,
    pub harness_id: Option<String>,
    pub thread_id: Option<String>,
    pub chat_title: Option<String>,
}

impl Clone for Window {
    fn clone(&self) -> (copy: Self)
        ensures
            copy == *self,
    {
        Window {
            session: self.session.clone(),
            session_last_attached: self.session_last_attached,
            window_id: self.window_id.clone(),
            window_name: self.window_name.clone(),
            pane_id: self.pane_id.clone(),
            pane_pid: self.pane_pid,
            command: self.command.clone(),
            cwd: self.cwd.clone(),
            harness_id: self.harness_id.clone(),
            thread_id: self.thread_id.clone(),
            chat_title: self.chat_title.clone(),
        }
    }
}

/// A pane by its texts.
pub struct WindowView {
    pub session: Seq<char>,
    pub session_last_attached: int,
    pub window_id: Seq<char>,
    pub window_name: Seq<char>,
    pub pane_id: Seq<char>,
    pub pane_pid: int,
    pub command: Seq<char>,
    pub cwd: Seq<char>,
    pub harness_id: Option<Seq<char>>,
    pub thread_id: Option<Seq<char>>,
    pub chat_title: Option<Seq<char>>,
}

impl Window {
    /// The pane by its texts.
    pub open spec fn view(self) -> WindowView {
        WindowView {
            session: self.session@,
            session_last_attached: self.session_last_attached as int,
            window_id: self.window_id@,
            window_name: self.window_name@,
            pane_id: self.pane_id@,
            pane_pid: self.pane_pid as int,
            command: self.command@,
            cwd: self.cwd@,
            harness_id: opt_text(self.harness_id),
            thread_id: opt_text(self.thread_id),
            chat_title: opt_text(self.chat_title),
        }
    }
}

/// Panes by their texts.
pub open spec fn window_views(windows: Seq<Window>) -> Seq<WindowView> {
    windows.map_values(|window: Window| window.view())
}

/// What an agent is to be started with.
pub struct AgentLaunch<'a> {
    pub inventory: &'a [Window],
    pub cwd: &'a str,
    pub title: &'a str,
    pub harness_id: &'a str,
    pub thread_id: Option<&'a str>,
    pub cia_command: &'a str,
    pub agent_command: &'a str,
    pub session_dir: Option<&'a str>,
}

/// Paths as the file system resolves them; what is not listed could not be resolved.
#[derive(Clone, Debug)]
pub struct CanonicalPaths {
    pub entries: Vec<(String, String)>,
}

impl CanonicalPaths {
    /// A path as the file system resolves it, or as it is where it cannot be resolved.
    pub open spec fn normal(self, path: Seq<char>) -> Seq<char> {
        match variable(self.entries@, path) {
            Some(resolved) => resolved,
            None => path,
        }
    }
}

/// Finds a path as the file system resolves it, or as it is where it cannot be resolved.
pub fn normalized_path(path: &str, canonical: &CanonicalPaths) -> (result: String)
    ensures
        result@ == canonical.normal(path@),
{
    let ghost all = canonical.entries@;
    let count: usize = canonical.entries.len();
    let mut index: usize = 0;
    assert(all.skip(0) =~= all);
    while index < count
        invariant
            index <= count,
            all == canonical.entries@,
            count == all.len(),
            variable(all, path@) == variable(all.skip(index as int), path@),
        decreases count - index,
    {
        assert(all.skip(index as int)[0] == all[index as int]);
        assert(all.skip(index as int).skip(1) =~= all.skip(index + 1));
        if same_text(canonical.entries[index].0.as_str(), path) {
            return canonical.entries[index].1.clone();
        }
        index = index + 1;
    }
    path.to_owned()
}

/// A field that counts as absent where it is empty.
pub open spec fn optional_field(field: Seq<char>) -> Option<Seq<char>> {
    if field.len() == 0 {
        None
    } else {
        Some(field)
    }
}

/// A number, or zero where there is none.
pub open spec fn or_zero(number: Option<int>) -> int {
    match number {
        Some(number) => number,
        None => 0,
    }
}

/// The pane that a row of the inventory tells of, or the number of its fields where it is wrong.
pub open spec fn parsed_window(line: Seq<char>) -> Result<WindowView, nat> {
    let fields = split(line, SEP);
    if fields.len() != 11 {
        Err(fields.len())
    } else {
        Ok(
            WindowView {
                session: fields[0],
                session_last_attached: or_zero(
                    signed_value(fields[1], i64::MIN as int, i64::MAX as int),
                ),
                window_id: fields[2],
                window_name: fields[3],
                pane_id: fields[4],
                pane_pid: or_zero(unsigned_value(fields[5], u32::MAX as int)),
                command: fields[6],
                cwd: fields[7],
                harness_id: optional_field(fields[8]),
                thread_id: optional_field(fields[9]),
                chat_title: optional_field(fields[10]),
            },
        )
    }
}

/// Why the inventory could not be read.
#[derive(Debug)]
pub enum InventoryError {
    /// tmux failed and said this.
    Failed(String),
    /// A row had this many fields.
    Fields(usize),
}

impl InventoryError {
    /// The message shown for the error.
    pub open spec fn text(self) -> Seq<char> {
        match self {
            InventoryError::Failed(reason) => "tmux inventory failed: "@ + reason@,
            InventoryError::Fields(count) => "unexpected tmux inventory row with "@ + decimal(
                count as nat,
            ) + " fields"@,
        }
    }

    /// Writes the message shown for the error.
    pub fn message(&self) -> (message: String)
        ensures
            message@ == self.text(),
    {
        match self {
            InventoryError::Failed(reason) => {
                let mut message = "tmux inventory failed: ".to_owned();
                message.append(reason.as_str());
                message
            },
            InventoryError::Fields(count) => {
                let mut message = "unexpected tmux inventory row with ".to_owned();
                message.append(decimal_text(*count as u128).as_str());
                message.append(" fields");
                message
            },
        }
    }
}

fn optional_text(field: &String) -> (result: Option<String>)
    ensures
        opt_text(result) == optional_field(field@),
{
    if field.as_str().is_empty() {
        None
    } else {
        Some(field.clone())
    }
}

/// Reads a row of the inventory.
pub fn parse_window(line: &str) -> (result: Result<Window, InventoryError>)
    ensures
        match result {
            Ok(window) => parsed_window(line@) == Ok::<WindowView, nat>(window.view()),
            Err(error) => error matches InventoryError::Fields(count) && parsed_window(line@)
                == Err::<WindowView, nat>(count as nat),
        },
{
    let fields = split_text(line, SEP);
    assert(texts(fields@).len() == fields@.len());
    if fields.len() != 11 {
        return Err(InventoryError::Fields(fields.len()));
    }
    assert(forall|k: int| 0 <= k < 11 ==> texts(fields@)[k] == fields@[k]@);
    let session_last_attached: i64 = match parse_i64(fields[1].as_str()) {
        Some(number) => number,
        None => 0,
    };
    let pane_pid: u32 = match parse_u32(fields[5].as_str()) {
        Some(number) => number,
        None => 0,
    };
    Ok(
        Window {
            session: fields[0].clone(),
            session_last_attached,
            window_id: fields[2].clone(),
            window_name: fields[3].clone(),
            pane_id: fields[4].clone(),
            pane_pid,
            command: fields[6].clone(),
            cwd: fields[7].clone(),
            harness_id: optional_text(&fields[8]),
            thread_id: optional_text(&fields[9]),
            chat_title: optional_text(&fields[10]),
        },
    )
}

/// The panes that the rows of an inventory tell of, or the number of fields of the first wrong one.
pub open spec fn parsed_windows(rows: Seq<Seq<char>>) -> Result<Seq<WindowView>, nat>
    decreases rows.len(),
{
    if rows.len() == 0 {
        Ok(Seq::empty())
    } else {
        match parsed_windows(rows.drop_last()) {
            Err(count) => Err(count),
            Ok(windows) => match parsed_window(rows.last()) {
                Err(count) => Err(count),
                Ok(window) => Ok(windows.push(window)),
            },
        }
    }
}

proof fn lemma_first_wrong_row(rows: Seq<Seq<char>>, count: int)
    requires
        0 <= count <= rows.len(),
        parsed_windows(rows.take(count)) is Err,
    ensures
        parsed_windows(rows) == parsed_windows(rows.take(count)),
    decreases rows.len(),
{
    if count < rows.len() {
        assert(rows.drop_last().take(count) =~= rows.take(count));
        lemma_first_wrong_row(rows.drop_last(), count);
    } else {
        assert(rows.take(count) =~= rows);
    }
}

/// Whether a failure of tmux means only that no server is running.
pub open spec fn is_no_server(stderr: Seq<char>) -> bool {
    contains(stderr, "no server running"@) || contains(stderr, "failed to connect"@)
}

/// Decides over the panes of a tmux server.
#[derive(Debug)]
pub struct Client {
    pub config: TmuxConfig,
}

/// Whether a pane counts as an agent's: by its command, by a mark on it, or by the name of its
/// window.
pub open spec fn counts_as_agent(config: TmuxConfig, window: Window) -> bool {
    ||| texts(config.agent_commands@).contains(window.command@)
    ||| window.harness_id is Some
    ||| window.thread_id is Some
    ||| window.chat_title is Some
    ||| begins_with(window.window_name@, config.new_window_prefix@)
}

/// Whether a list of texts holds a text.
pub fn has_text(values: &Vec<String>, wanted: &str) -> (found: bool)
    ensures
        found == texts(values@).contains(wanted@),
{
    let count: usize = values.len();
    let mut index: usize = 0;
    while index < count
        invariant
            index <= count,
            count == values@.len(),
            forall|k: int| 0 <= k < index ==> texts(values@)[k] != wanted@,
        decreases count - index,
    {
        assert(texts(values@)[index as int] == values@[index as int]@);
        if same_text(values[index].as_str(), wanted) {
            return true;
        }
        index = index + 1;
    }
    false
}

/// The inventory of a tmux server, from what tmux answered.
pub open spec fn inventory_of(success: bool, stdout: Seq<char>, stderr: Seq<char>) -> Result<
    Seq<WindowView>,
    InventoryFault,
> {
    if success {
        match parsed_windows(lines(stdout)) {
            Ok(windows) => Ok(windows),
            Err(count) => Err(InventoryFault::Fields(count)),
        }
    } else if is_no_server(stderr) {
        Ok(Seq::empty())
    } else {
        Err(InventoryFault::Failed(trimmed(stderr)))
    }
}

/// An inventory error by its text.
pub enum InventoryFault {
    Failed(Seq<char>),
    Fields(nat),
}

impl InventoryError {
    /// The error by its text.
    pub open spec fn view(self) -> InventoryFault {
        match self {
            InventoryError::Failed(reason) => InventoryFault::Failed(reason@),
            InventoryError::Fields(count) => InventoryFault::Fields(count as nat),
        }
    }
}

impl Client {
    /// A client with the given settings.
    pub fn new(config: TmuxConfig) -> (client: Self)
        ensures
            client.config == config,
    {
        Client { config }
    }

    /// The arguments with which tmux lists its panes.
    pub fn inventory_args(&self) -> (args: Vec<String>)
        ensures
            texts(args@) == seq![
                "list-panes"@,
                "-a"@,
                "-F"@,
                "#{session_name}\u{1f}#{session_last_attached}\u{1f}#{window_id}\u{1f}#{window_name}\u{1f}#{pane_id}\u{1f}#{pane_pid}\u{1f}#{pane_current_command}\u{1f}#{pane_current_path}\u{1f}#{@cia_harness}\u{1f}#{@cia_thread_id}\u{1f}#{@cia_chat_title}"@,
            ],
    {
        let args = vec![
            "list-panes".to_owned(),
            "-a".to_owned(),
            "-F".to_owned(),
            "#{session_name}\u{1f}#{session_last_attached}\u{1f}#{window_id}\u{1f}#{window_name}\u{1f}#{pane_id}\u{1f}#{pane_pid}\u{1f}#{pane_current_command}\u{1f}#{pane_current_path}\u{1f}#{@cia_harness}\u{1f}#{@cia_thread_id}\u{1f}#{@cia_chat_title}".to_owned(),
        ];
        assert(texts(args@) =~= seq![
            "list-panes"@,
            "-a"@,
            "-F"@,
            "#{session_name}\u{1f}#{session_last_attached}\u{1f}#{window_id}\u{1f}#{window_name}\u{1f}#{pane_id}\u{1f}#{pane_pid}\u{1f}#{pane_current_command}\u{1f}#{pane_current_path}\u{1f}#{@cia_harness}\u{1f}#{@cia_thread_id}\u{1f}#{@cia_chat_title}"@,
        ]);
        args
    }

    /// Reads the inventory from what tmux answered. Where no server is running there are no panes.
    pub fn inventory(&self, success: bool, stdout: &str, stderr: &str) -> (result: Result<
        Vec<Window>,
        InventoryError,
    >)
        ensures
            match result {
                Ok(windows) => inventory_of(success, stdout@, stderr@) == Ok::<
                    Seq<WindowView>,
                    InventoryFault,
                >(window_views(windows@)),
                Err(error) => inventory_of(success, stdout@, stderr@) == Err::<
                    Seq<WindowView>,
                    InventoryFault,
                >(error.view()),
            },
    {
        let mut windows: Vec<Window> = Vec::new();
        assert(window_views(windows@) =~= Seq::<WindowView>::empty());
        if !success {
            if contains_text(stderr, "no server running") || contains_text(
                stderr,
                "failed to connect",
            ) {
                return Ok(windows);
            }
            return Err(InventoryError::Failed(trim(stderr).to_owned()));
        }
        let rows = lines_of(stdout);
        let ghost all = texts(rows@);
        let count: usize = rows.len();
        let mut index: usize = 0;
        assert(parsed_windows(all.take(0)) == Ok::<Seq<WindowView>, nat>(window_views(windows@)));
        while index < count
            invariant
                index <= count,
                count == rows@.len(),
                all == texts(rows@),
                all == lines(stdout@),
                success,
                parsed_windows(all.take(index as int)) == Ok::<Seq<WindowView>, nat>(
                    window_views(windows@),
                ),
            decreases count - index,
        {
            let ghost before = window_views(windows@);
            proof {
                assert(all.take(index + 1).drop_last() =~= all.take(index as int));
                assert(all.take(index + 1).last() == rows@[index as int]@);
            }
            match parse_window(rows[index].as_str()) {
                Ok(window) => {
                    windows.push(window);
                    assert(window_views(windows@) =~= before.push(window.view()));
                },
                Err(error) => {
                    proof {
                        lemma_first_wrong_row(all, index + 1);
                    }
                    return Err(error);
                },
            }
            index = index + 1;
        }
        assert(all.take(count as int) =~= all);
        Ok(windows)
    }

    /// Whether a pane counts as an agent's.
    pub fn is_agent(&self, window: &Window) -> (agent: bool)
        ensures
            agent == counts_as_agent(self.config, *window),
    {
        has_text(&self.config.agent_commands, window.command.as_str())
            || window.harness_id.is_some() || window.thread_id.is_some()
            || window.chat_title.is_some() || starts_with(
            window.window_name.as_str(),
            self.config.new_window_prefix.as_str(),
        )
    }
}

/// A letter or a digit of ASCII, or an underscore.
pub open spec fn is_word_char(character: char) -> bool {
    ||| 'a' <= character <= 'z'
    ||| 'A' <= character <= 'Z'
    ||| '0' <= character <= '9'
    ||| character == '_'
}

/// A name with one more character: a word character stands for itself, others for one dash, which
/// neither begins the name nor follows another dash.
pub open spec fn slug_step(name: Seq<char>, character: char) -> Seq<char> {
    if is_word_char(character) {
        name.push(character)
    } else if name.len() > 0 && name.last() != '-' {
        name.push('-')
    } else {
        name
    }
}

/// The name that characters make, up to twenty-four characters long.
pub open spec fn slug(chars: Seq<char>) -> Seq<char>
    decreases chars.len(),
{
    if chars.len() == 0 {
        Seq::empty()
    } else if slug(chars.drop_last()).len() >= 24 {
        slug(chars.drop_last())
    } else {
        slug_step(slug(chars.drop_last()), chars.last())
    }
}

/// A text without the dashes that begin it.
pub open spec fn skip_dashes(value: Seq<char>) -> Seq<char>
    decreases value.len(),
{
    if value.len() > 0 && value[0] == '-' {
        skip_dashes(value.skip(1))
    } else {
        value
    }
}

/// A text without the dashes that end it.
pub open spec fn drop_dashes(value: Seq<char>) -> Seq<char>
    decreases value.len(),
{
    if value.len() > 0 && value.last() == '-' {
        drop_dashes(value.drop_last())
    } else {
        value
    }
}

/// The name of a tmux session made from a text.
pub open spec fn sanitized(value: Seq<char>) -> Seq<char> {
    drop_dashes(skip_dashes(slug(lowered(value))))
}

/// A name of word characters without capitals and single dashes between them, not over twenty-four
/// long.
pub open spec fn is_safe_name(name: Seq<char>) -> bool {
    &&& name.len() <= 24
    &&& forall|k: int|
        0 <= k < name.len() ==> is_word_char(#[trigger] name[k]) && !is_capital(name[k])
            || name[k] == '-'
    &&& name.len() > 0 ==> name[0] != '-' && name.last() != '-'
    &&& forall|k: int|
        0 < k < name.len() && #[trigger] name[k] == '-' ==> name[k - 1] != '-'
}

/// What every slug is: like a safe name, but that it may end with a dash.
spec fn is_slug(name: Seq<char>) -> bool {
    &&& name.len() <= 24
    &&& forall|k: int|
        0 <= k < name.len() ==> is_word_char(#[trigger] name[k]) && !is_capital(name[k])
            || name[k] == '-'
    &&& name.len() > 0 ==> name[0] != '-'
    &&& forall|k: int|
        0 < k < name.len() && #[trigger] name[k] == '-' ==> name[k - 1] != '-'
}

proof fn lemma_slug(chars: Seq<char>)
    requires
        forall|k: int| 0 <= k < chars.len() ==> !is_capital(#[trigger] chars[k]),
    ensures
        is_slug(slug(chars)),
    decreases chars.len(),
{
    if chars.len() > 0 {
        assert(!is_capital(chars[chars.len() - 1]));
        lemma_slug(chars.drop_last());
    }
}

proof fn lemma_slug_trimmed(chars: Seq<char>)
    requires
        forall|k: int| 0 <= k < chars.len() ==> !is_capital(#[trigger] chars[k]),
    ensures
        skip_dashes(slug(chars)) == slug(chars),
        drop_dashes(slug(chars)) == if slug(chars).len() > 0 && slug(chars).last() == '-' {
            slug(chars).drop_last()
        } else {
            slug(chars)
        },
{
    lemma_slug(chars);
    let name = slug(chars);
    if name.len() > 0 && name.last() == '-' {
        assert(name.len() > 1);
        assert(name[name.len() - 1] == '-');
        assert(name.drop_last().last() == name[name.len() - 2]);
        assert(drop_dashes(name.drop_last()) == name.drop_last());
    }
}

proof fn lemma_slug_stays(chars: Seq<char>, count: int)
    requires
        0 <= count <= chars.len(),
        slug(chars.take(count)).len() >= 24,
    ensures
        slug(chars) == slug(chars.take(count)),
    decreases chars.len(),
{
    if count < chars.len() {
        assert(chars.drop_last().take(count) =~= chars.take(count));
        lemma_slug_stays(chars.drop_last(), count);
    } else {
        assert(chars.take(count) =~= chars);
    }
}

/// The name made from any text is safe.
pub proof fn law_sanitized_is_safe(value: Seq<char>)
    ensures
        is_safe_name(sanitized(value)),
{
    let chars = lowered(value);
    lemma_lowered(value);
    lemma_slug(chars);
    lemma_slug_trimmed(chars);
    let name = slug(chars);
    if name.len() > 0 && name.last() == '-' {
        assert(name[name.len() - 1] == '-');
        assert(name.drop_last().last() == name[name.len() - 2]);
    }
}

proof fn lemma_slug_of_safe(name: Seq<char>, count: int)
    requires
        is_safe_name(name),
        0 <= count <= name.len(),
    ensures
        slug(name.take(count)) == name.take(count),
    decreases count,
{
    if count > 0 {
        lemma_slug_of_safe(name, count - 1);
        assert(name.take(count).drop_last() =~= name.take(count - 1));
        assert(name.take(count).last() == name[count - 1]);
        if count > 1 {
            assert(name.take(count - 1).last() == name[count - 2]);
        }
        assert(name.take(count - 1).push(name[count - 1]) =~= name.take(count));
    } else {
        assert(slug(name.take(0)) =~= name.take(0));
    }
}

/// A safe name makes itself, so making a name from a name that was made changes nothing.
pub proof fn law_sanitized_stays(value: Seq<char>)
    ensures
        is_safe_name(value) ==> sanitized(value) == value,
        sanitized(sanitized(value)) == sanitized(value),
{
    law_sanitized_is_safe(value);
    if is_safe_name(value) {
        lemma_lowered_stays(value);
        lemma_slug_of_safe(value, value.len() as int);
        assert(value.take(value.len() as int) =~= value);
    }
    let name = sanitized(value);
    lemma_lowered_stays(name);
    lemma_slug_of_safe(name, name.len() as int);
    assert(name.take(name.len() as int) =~= name);
}

/// Makes the name of a tmux session from a text.
pub fn sanitize_name(value: &str) -> (name: String)
    ensures
        name@ == sanitized(value@),
{
    let chars = lowered_chars(value);
    let count: usize = chars.len();
    let mut name: Vec<char> = Vec::new();
    let mut index: usize = 0;
    while index < count && name.len() < 24
        invariant
            index <= count,
            count == chars@.len(),
            name@ == slug(chars@.take(index as int)),
        decreases count - index,
    {
        proof {
            assert(chars@.take(index + 1).drop_last() =~= chars@.take(index as int));
        }
        let character: char = chars[index];
        if ('a' <= character && character <= 'z') || ('A' <= character && character <= 'Z') || ('0'
            <= character && character <= '9') || character == '_' {
            name.push(character);
        } else if name.len() > 0 && name[name.len() - 1] != '-' {
            name.push('-');
        }
        index = index + 1;
    }
    proof {
        if name@.len() >= 24 {
            lemma_slug_stays(chars@, index as int);
        } else {
            assert(chars@.take(count as int) =~= chars@);
        }
        lemma_lowered(value@);
        lemma_slug_trimmed(chars@);
    }
    if name.len() > 0 && name[name.len() - 1] == '-' {
        let ghost full = name@;
        name.pop();
        assert(name@ =~= full.drop_last());
    }
    text_of(name.as_slice())
}

/// A name with a number behind it.
pub open spec fn numbered(base: Seq<char>, number: nat) -> Seq<char> {
    base + "-"@ + decimal(number)
}

/// The least number, from two on, with which a name is still free.
pub open spec fn is_first_free(base: Seq<char>, existing: Seq<Seq<char>>, number: nat) -> bool {
    &&& number >= 2
    &&& !existing.contains(numbered(base, number))
    &&& forall|lower: nat| 2 <= lower < number ==> existing.contains(#[trigger] numbered(base, lower))
}

/// A name that is still free: the given one, or the first free one with a number behind it.
pub open spec fn free_name(base: Seq<char>, existing: Seq<Seq<char>>) -> Seq<char> {
    if !existing.contains(base) {
        base
    } else {
        numbered(base, choose|number: nat| is_first_free(base, existing, number))
    }
}

proof fn lemma_decimal_value(number: nat)
    ensures
        decimal_value(decimal(number)) == number,
    decreases number,
{
    if number < 10 {
        reveal_with_fuel(decimal_value, 2);
        assert(decimal(number).drop_last() =~= Seq::<char>::empty());
    } else {
        lemma_decimal_value(number / 10);
        assert(decimal(number).drop_last() =~= decimal(number / 10));
    }
}

proof fn lemma_numbered_injective(base: Seq<char>, left: nat, right: nat)
    requires
        numbered(base, left) == numbered(base, right),
    ensures
        left == right,
{
    let start = (base + "-"@).len() as int;
    assert(numbered(base, left).skip(start) =~= decimal(left));
    assert(numbered(base, right).skip(start) =~= decimal(right));
    lemma_decimal_value(left);
    lemma_decimal_value(right);
}

spec fn numbered_set(base: Seq<char>, count: nat) -> Set<Seq<char>>
    decreases count,
{
    if count == 0 {
        Set::empty()
    } else {
        numbered_set(base, (count - 1) as nat).insert(numbered(base, count + 1))
    }
}

proof fn lemma_numbered_set(base: Seq<char>, count: nat)
    ensures
        numbered_set(base, count).finite(),
        numbered_set(base, count).len() == count,
        forall|name: Seq<char>|
            #[trigger] numbered_set(base, count).contains(name) ==> exists|number: nat|
                2 <= number < count + 2 && name == #[trigger] numbered(base, number),
    decreases count,
{
    if count > 0 {
        let less = (count - 1) as nat;
        lemma_numbered_set(base, less);
        assert(!numbered_set(base, less).contains(numbered(base, count + 1))) by {
            if numbered_set(base, less).contains(numbered(base, count + 1)) {
                let number = choose|number: nat|
                    2 <= number < less + 2 && numbered(base, count + 1) == #[trigger] numbered(
                        base,
                        number,
                    );
                lemma_numbered_injective(base, count + 1, number);
            }
        }
        assert forall|name: Seq<char>| #[trigger]
            numbered_set(base, count).contains(name) implies exists|number: nat|
            2 <= number < count + 2 && name == #[trigger] numbered(base, number) by {
            if name == numbered(base, count + 1) {
            } else {
                assert(numbered_set(base, less).contains(name));
            }
        }
    }
}

proof fn lemma_taken_numbers(base: Seq<char>, existing: Seq<Seq<char>>, count: nat)
    requires
        forall|number: nat|
            2 <= number < count + 2 ==> existing.contains(#[trigger] numbered(base, number)),
    ensures
        count <= existing.len(),
{
    lemma_numbered_set(base, count);
    existing.lemma_cardinality_of_set();
    assert(numbered_set(base, count).subset_of(existing.to_set())) by {
        assert forall|name: Seq<char>| #[trigger]
            numbered_set(base, count).contains(name) implies existing.to_set().contains(name) by {
            let number = choose|number: nat|
                2 <= number < count + 2 && name == #[trigger] numbered(base, number);
            assert(existing.contains(numbered(base, number)));
        }
    }
    vstd::set_lib::lemma_len_subset(numbered_set(base, count), existing.to_set());
}

/// A free name is not taken, and is the given name with nothing or a number behind it.
pub proof fn law_free_name_is_free(base: Seq<char>, existing: Seq<Seq<char>>)
    ensures
        !existing.contains(free_name(base, existing)),
        free_name(base, existing) == base || exists|number: nat|
            number >= 2 && free_name(base, existing) == #[trigger] numbered(base, number),
{
    if existing.contains(base) {
        lemma_some_free(base, existing, 0);
        let number = choose|number: nat| is_first_free(base, existing, number);
        assert(is_first_free(base, existing, number));
    }
}

pub(crate) proof fn lemma_some_free(base: Seq<char>, existing: Seq<Seq<char>>, taken: nat)
    requires
        forall|lower: nat|
            2 <= lower < taken + 2 ==> existing.contains(#[trigger] numbered(base, lower)),
    ensures
        exists|number: nat| is_first_free(base, existing, number),
    decreases existing.len() + 1 - taken,
{
    lemma_taken_numbers(base, existing, taken);
    if existing.contains(numbered(base, taken + 2)) {
        lemma_taken_numbers(base, existing, taken + 1);
        lemma_some_free(base, existing, taken + 1);
    } else {
        assert(is_first_free(base, existing, taken + 2));
    }
}

/// Finds a name that is still free.
pub fn unique_name(base: &str, existing: &Vec<String>) -> (name: String)
    ensures
        name@ == free_name(base@, texts(existing@)),
{
    if !has_text(existing, base) {
        return base.to_owned();
    }
    let ghost taken = texts(existing@);
    let count: usize = existing.len();
    let mut number: u128 = 2;
    loop
        invariant
            2 <= number <= count + 2,
            count == existing@.len(),
            taken == texts(existing@),
            taken.contains(base@),
            forall|lower: nat|
                2 <= lower < number ==> taken.contains(#[trigger] numbered(base@, lower)),
        decreases existing@.len() + 2 - number,
    {
        let mut candidate = base.to_owned();
        candidate.append("-");
        candidate.append(decimal_text(number).as_str());
        assert(candidate@ == numbered(base@, number as nat));
        if !has_text(existing, candidate.as_str()) {
            proof {
                assert(is_first_free(base@, taken, number as nat));
                let found = choose|found: nat| is_first_free(base@, taken, found);
                if found < number {
                    assert(taken.contains(numbered(base@, found)));
                }
                if number < found {
                    assert(taken.contains(numbered(base@, number as nat)));
                }
            }
            return candidate;
        }
        proof {
            lemma_taken_numbers(base@, taken, (number - 1) as nat);
            assert(texts(existing@).len() == existing@.len());
        }
        number = number + 1;
    }
}

/// The sessions of panes.
pub open spec fn sessions(inventory: Seq<Window>) -> Seq<Seq<char>> {
    inventory.map_values(|window: Window| window.session@)
}

/// What a new session for a directory is named after.
pub open spec fn session_base(cwd: Seq<char>) -> Seq<char> {
    if file_name(cwd) is Some && sanitized(file_name(cwd)->0).len() > 0 {
        sanitized(file_name(cwd)->0)
    } else {
        "project"@
    }
}

/// The name of a new session for a directory.
pub open spec fn new_session(inventory: Seq<Window>, cwd: Seq<char>) -> Seq<char> {
    free_name(session_base(cwd), sessions(inventory))
}

/// Names a new session for a directory.
pub fn unique_session_name(inventory: &[Window], cwd: &str) -> (name: String)
    ensures
        name@ == new_session(inventory@, cwd@),
{
    let base = match path_file_name(cwd) {
        Some(name) => {
            let safe = sanitize_name(name.as_str());
            if safe.as_str().is_empty() {
                "project".to_owned()
            } else {
                safe
            }
        },
        None => "project".to_owned(),
    };
    let mut existing: Vec<String> = Vec::new();
    let count: usize = inventory.len();
    let mut index: usize = 0;
    while index < count
        invariant
            index <= count,
            count == inventory@.len(),
            existing@.len() == index,
            forall|k: int| 0 <= k < index ==> (#[trigger] existing@[k])@ == inventory@[k].session@,
        decreases count - index,
    {
        existing.push(inventory[index].session.clone());
        index = index + 1;
    }
    assert(texts(existing@) =~= sessions(inventory@));
    unique_name(base.as_str(), &existing)
}

/// Whether a pane stands in a directory.
pub open spec fn stands_in(window: Window, cwd: Seq<char>, canonical: CanonicalPaths) -> bool {
    same_path(canonical.normal(window.cwd@), canonical.normal(cwd))
}

/// Whether a pane's session is preferred to that of another: it was attached later, or at the same
/// time and its name comes first.
pub open spec fn is_preferred(window: Window, other: Window) -> bool {
    ||| window.session_last_attached > other.session_last_attached
    ||| window.session_last_attached == other.session_last_attached && text_before(
        window.session@,
        other.session@,
    )
}

/// The pane in a directory whose session is preferred to all others.
pub open spec fn preferred_pane(
    inventory: Seq<Window>,
    cwd: Seq<char>,
    canonical: CanonicalPaths,
) -> Option<Window>
    decreases inventory.len(),
{
    if inventory.len() == 0 {
        None
    } else {
        let best = preferred_pane(inventory.drop_last(), cwd, canonical);
        if stands_in(inventory.last(), cwd, canonical) && (best is None || !is_preferred(
            best->0,
            inventory.last(),
        )) {
            Some(inventory.last())
        } else {
            best
        }
    }
}

/// A pane is found if and only if one stands in the directory, and no session of such a pane is
/// preferred to that of the found one.
pub proof fn law_preferred_pane(
    inventory: Seq<Window>,
    cwd: Seq<char>,
    canonical: CanonicalPaths,
)
    ensures
        match preferred_pane(inventory, cwd, canonical) {
            Some(best) => inventory.contains(best) && stands_in(best, cwd, canonical)
                && forall|k: int|
                0 <= k < inventory.len() && stands_in(#[trigger] inventory[k], cwd, canonical)
                    ==> !is_preferred(inventory[k], best),
            None => forall|k: int|
                0 <= k < inventory.len() ==> !stands_in(#[trigger] inventory[k], cwd, canonical),
        },
    decreases inventory.len(),
{
    if inventory.len() > 0 {
        let rest = inventory.drop_last();
        let last = inventory.last();
        law_preferred_pane(rest, cwd, canonical);
        assert(inventory[inventory.len() - 1] == last);
        assert forall|k: int| 0 <= k < inventory.len() - 1 implies #[trigger] inventory[k] == rest[k] by {}
        let best = preferred_pane(rest, cwd, canonical);
        if best is Some {
            let at = choose|at: int| 0 <= at < rest.len() && rest[at] == best->0;
            assert(inventory[at] == best->0);
        }
        match preferred_pane(inventory, cwd, canonical) {
            Some(found) => {
                assert forall|k: int|
                    0 <= k < inventory.len() && stands_in(
                        #[trigger] inventory[k],
                        cwd,
                        canonical,
                    ) implies !is_preferred(inventory[k], found) by {
                    lemma_text_before_irreflexive(found.session@);
                    if k < inventory.len() - 1 && found == last && best is Some {
                        assert(inventory[k] == rest[k]);
                        lemma_preference(inventory[k], best->0, found);
                    }
                    if text_before(found.session@, last.session@) && text_before(
                        last.session@,
                        found.session@,
                    ) {
                        lemma_text_before_transitive(found.session@, last.session@, found.session@);
                    }
                }
            },
            None => {},
        }
    }
}

proof fn lemma_preference(left: Window, middle: Window, right: Window)
    requires
        !is_preferred(left, middle),
        !is_preferred(middle, right),
    ensures
        !is_preferred(left, right),
{
    if text_before(left.session@, right.session@) {
        lemma_text_before_total(left.session@, middle.session@);
        lemma_text_before_total(middle.session@, right.session@);
        if text_before(middle.session@, left.session@) {
            lemma_text_before_transitive(middle.session@, left.session@, right.session@);
        }
    }
}

/// The session in which an agent is opened: the preferred one in its directory, or a new one.
pub open spec fn agent_session(
    inventory: Seq<Window>,
    cwd: Seq<char>,
    canonical: CanonicalPaths,
) -> Seq<char> {
    match preferred_pane(inventory, cwd, canonical) {
        Some(window) => window.session@,
        None => new_session(inventory, cwd),
    }
}

/// The name of the window that agents are opened in.
pub open spec fn agent_window_name(config: TmuxConfig) -> Seq<char> {
    if config.agent_window_names@.len() > 0 {
        config.agent_window_names@[0]@
    } else {
        "agents"@
    }
}

/// The first pane of the window of a session that has a name.
pub open spec fn window_in(
    inventory: Seq<Window>,
    session: Seq<char>,
    name: Seq<char>,
) -> Option<Window>
    decreases inventory.len(),
{
    if inventory.len() == 0 {
        None
    } else if inventory[0].session@ == session && inventory[0].window_name@ == name {
        Some(inventory[0])
    } else {
        window_in(inventory.skip(1), session, name)
    }
}

/// The arguments with which tmux makes the pane of an agent: a part of the agents' window, or such
/// a window in the session, or the session.
pub open spec fn pane_arguments(
    config: TmuxConfig,
    inventory: Seq<Window>,
    cwd: Seq<char>,
    canonical: CanonicalPaths,
) -> Seq<Seq<char>> {
    let session = agent_session(inventory, cwd, canonical);
    let name = agent_window_name(config);
    match window_in(inventory, session, name) {
        Some(window) => seq![
            "split-window"@,
            "-d"@,
            "-P"@,
            "-F"@,
            "#{pane_id}"@,
            "-t"@,
            window.window_id@,
            "-c"@,
            cwd,
        ],
        None => if sessions(inventory).contains(session) {
            seq![
                "new-window"@,
                "-d"@,
                "-P"@,
                "-F"@,
                "#{pane_id}"@,
                "-t"@,
                session,
                "-c"@,
                cwd,
                "-n"@,
                name,
            ]
        } else {
            seq![
                "new-session"@,
                "-d"@,
                "-P"@,
                "-F"@,
                "#{pane_id}"@,
                "-s"@,
                session,
                "-c"@,
                cwd,
                "-n"@,
                name,
            ]
        },
    }
}

/// A command line option with its value, where there is one.
pub open spec fn option_part(name: Seq<char>, value: Option<Seq<char>>) -> Seq<char> {
    match value {
        Some(value) => name + value,
        None => Seq::empty(),
    }
}

/// A text quoted for a shell, where there is one.
pub open spec fn escaped_option(value: Option<Seq<char>>) -> Option<Seq<char>> {
    match value {
        Some(value) => Some(escaped(value)),
        None => None,
    }
}

/// A text in hexadecimal form, where there is one.
pub open spec fn encoded_option(value: Option<Seq<char>>) -> Option<Seq<char>> {
    match value {
        Some(value) => Some(encoded(value)),
        None => None,
    }
}

/// The command line that starts an agent in its pane.
pub open spec fn launch_line(
    cia_command: Seq<char>,
    harness_id: Seq<char>,
    thread_id: Option<Seq<char>>,
    cwd: Seq<char>,
    title: Seq<char>,
    agent_command: Seq<char>,
    session_dir: Option<Seq<char>>,
) -> Seq<char> {
    escaped(cia_command) + " run-thread --harness-id "@ + escaped(harness_id) + option_part(
        " --thread-id "@,
        escaped_option(thread_id),
    ) + " --cwd-hex "@ + encoded(cwd) + " --title-hex "@ + encoded(title)
        + " --agent-command-hex "@ + encoded(agent_command) + option_part(
        " --session-dir-hex "@,
        encoded_option(session_dir),
    )
}

/// The words of the command line that starts an agent in its pane.
pub open spec fn launch_words(
    cia_command: Seq<char>,
    harness_id: Seq<char>,
    thread_id: Option<Seq<char>>,
    cwd: Seq<char>,
    title: Seq<char>,
    agent_command: Seq<char>,
    session_dir: Option<Seq<char>>,
) -> Seq<Seq<char>> {
    seq![cia_command, "run-thread"@, "--harness-id"@, harness_id] + (match thread_id {
        Some(thread_id) => seq!["--thread-id"@, thread_id],
        None => Seq::empty(),
    }) + seq![
        "--cwd-hex"@,
        encoded(cwd),
        "--title-hex"@,
        encoded(title),
        "--agent-command-hex"@,
        encoded(agent_command),
    ] + (match session_dir {
        Some(session_dir) => seq!["--session-dir-hex"@, encoded(session_dir)],
        None => Seq::empty(),
    })
}

/// A shell reads the command line of an agent as the words that it is meant to say, whatever
/// characters they hold, and what is in hexadecimal form is read back as it was. A directory, a
/// title or a command that is empty leaves no word behind, so none is.
pub proof fn law_launch_line_words(
    cia_command: Seq<char>,
    harness_id: Seq<char>,
    thread_id: Option<Seq<char>>,
    cwd: Seq<char>,
    title: Seq<char>,
    agent_command: Seq<char>,
    session_dir: Option<Seq<char>>,
)
    requires
        cwd.len() > 0,
        title.len() > 0,
        agent_command.len() > 0,
        session_dir is Some ==> session_dir->0.len() > 0,
    ensures
        shell_words(
            launch_line(
                cia_command,
                harness_id,
                thread_id,
                cwd,
                title,
                agent_command,
                session_dir,
            ),
        ) == Some(
            launch_words(
                cia_command,
                harness_id,
                thread_id,
                cwd,
                title,
                agent_command,
                session_dir,
            ),
        ),
        decoded(encoded(cwd)) == Ok::<Seq<char>, DecodeFault>(cwd),
        decoded(encoded(title)) == Ok::<Seq<char>, DecodeFault>(title),
        decoded(encoded(agent_command)) == Ok::<Seq<char>, DecodeFault>(agent_command),
        session_dir is Some ==> decoded(encoded(session_dir->0)) == Ok::<Seq<char>, DecodeFault>(
            session_dir->0,
        ),
{
    law_decode_inverts_encode(cwd);
    law_decode_inverts_encode(title);
    law_decode_inverts_encode(agent_command);
    if session_dir is Some {
        law_decode_inverts_encode(session_dir->0);
    }
    let words = launch_arguments(
        harness_id,
        thread_id,
        cwd,
        title,
        agent_command,
        session_dir,
    );
    lemma_launch_line(
        cia_command,
        harness_id,
        thread_id,
        cwd,
        title,
        agent_command,
        session_dir,
    );
    law_command_line_words(cia_command, words);
    lemma_launch_words(
        cia_command,
        harness_id,
        thread_id,
        cwd,
        title,
        agent_command,
        session_dir,
    );
}

spec fn thread_words(thread_id: Option<Seq<char>>) -> Seq<Seq<char>> {
    match thread_id {
        Some(thread_id) => seq!["--thread-id"@, thread_id],
        None => Seq::empty(),
    }
}

spec fn session_words(session_dir: Option<Seq<char>>) -> Seq<Seq<char>> {
    match session_dir {
        Some(session_dir) => seq!["--session-dir-hex"@, encoded(session_dir)],
        None => Seq::empty(),
    }
}

spec fn launch_arguments(
    harness_id: Seq<char>,
    thread_id: Option<Seq<char>>,
    cwd: Seq<char>,
    title: Seq<char>,
    agent_command: Seq<char>,
    session_dir: Option<Seq<char>>,
) -> Seq<Seq<char>> {
    seq!["run-thread"@, "--harness-id"@, harness_id] + thread_words(thread_id) + seq![
        "--cwd-hex"@,
        encoded(cwd),
    ] + seq!["--title-hex"@, encoded(title)] + seq!["--agent-command-hex"@, encoded(agent_command)]
        + session_words(session_dir)
}

proof fn lemma_launch_words(
    cia_command: Seq<char>,
    harness_id: Seq<char>,
    thread_id: Option<Seq<char>>,
    cwd: Seq<char>,
    title: Seq<char>,
    agent_command: Seq<char>,
    session_dir: Option<Seq<char>>,
)
    ensures
        seq![cia_command] + launch_arguments(
            harness_id,
            thread_id,
            cwd,
            title,
            agent_command,
            session_dir,
        ) == launch_words(
            cia_command,
            harness_id,
            thread_id,
            cwd,
            title,
            agent_command,
            session_dir,
        ),
{
    let first = seq![cia_command];
    let a = seq!["run-thread"@, "--harness-id"@, harness_id];
    let b = thread_words(thread_id);
    let c1 = seq!["--cwd-hex"@, encoded(cwd)];
    let c2 = seq!["--title-hex"@, encoded(title)];
    let c3 = seq!["--agent-command-hex"@, encoded(agent_command)];
    let d = session_words(session_dir);
    let head = seq![cia_command, "run-thread"@, "--harness-id"@, harness_id];
    let c = seq![
        "--cwd-hex"@,
        encoded(cwd),
        "--title-hex"@,
        encoded(title),
        "--agent-command-hex"@,
        encoded(agent_command),
    ];
    assert(first + a =~= head);
    assert(c1 + c2 + c3 =~= c);
    lemma_regroup(first, a, b, c1, c2, c3, d);
}

proof fn lemma_regroup<T>(
    first: Seq<T>,
    a: Seq<T>,
    b: Seq<T>,
    c1: Seq<T>,
    c2: Seq<T>,
    c3: Seq<T>,
    d: Seq<T>,
)
    ensures
        first + (a + b + c1 + c2 + c3 + d) == (first + a) + b + (c1 + c2 + c3) + d,
{
    assert(first + (a + b + c1 + c2 + c3 + d) =~= (first + a) + b + (c1 + c2 + c3) + d);
}

proof fn lemma_launch_line(
    cia_command: Seq<char>,
    harness_id: Seq<char>,
    thread_id: Option<Seq<char>>,
    cwd: Seq<char>,
    title: Seq<char>,
    agent_command: Seq<char>,
    session_dir: Option<Seq<char>>,
)
    requires
        cwd.len() > 0,
        title.len() > 0,
        agent_command.len() > 0,
        session_dir is Some ==> session_dir->0.len() > 0,
    ensures
        launch_line(cia_command, harness_id, thread_id, cwd, title, agent_command, session_dir)
            == escaped(cia_command) + spaced(
            launch_arguments(harness_id, thread_id, cwd, title, agent_command, session_dir),
        ),
{
    let start = escaped(cia_command);
    let a = seq!["run-thread"@, "--harness-id"@, harness_id];
    let b = thread_words(thread_id);
    let c1 = seq!["--cwd-hex"@, encoded(cwd)];
    let c2 = seq!["--title-hex"@, encoded(title)];
    let c3 = seq!["--agent-command-hex"@, encoded(agent_command)];
    let d = session_words(session_dir);
    let line1 = start + " run-thread --harness-id "@ + escaped(harness_id);
    lemma_run_words(start, harness_id);
    let line2 = line1 + option_part(" --thread-id "@, escaped_option(thread_id));
    lemma_thread_words(line1, thread_id);
    let line3 = line2 + " --cwd-hex "@ + encoded(cwd);
    lemma_cwd_words(line2, cwd);
    let line4 = line3 + " --title-hex "@ + encoded(title);
    lemma_title_words(line3, title);
    let line5 = line4 + " --agent-command-hex "@ + encoded(agent_command);
    lemma_command_words(line4, agent_command);
    lemma_session_words(line5, session_dir);
    lemma_line_extends(start, a, b);
    lemma_line_extends(start, a + b, c1);
    lemma_line_extends(start, a + b + c1, c2);
    lemma_line_extends(start, a + b + c1 + c2, c3);
    lemma_line_extends(start, a + b + c1 + c2 + c3, d);
}

proof fn lemma_run_words(line: Seq<char>, harness_id: Seq<char>)
    ensures
        line + " run-thread --harness-id "@ + escaped(harness_id) == line + spaced(
            seq!["run-thread"@, "--harness-id"@, harness_id],
        ),
{
    reveal_strlit(" run-thread --harness-id ");
    reveal_strlit("run-thread");
    reveal_strlit("--harness-id");
    lemma_spaced_three("run-thread"@, "--harness-id"@, harness_id);
    assert(" run-thread --harness-id "@ =~= seq![' '] + "run-thread"@ + seq![' ']
        + "--harness-id"@ + seq![' ']);
    assert(line + " run-thread --harness-id "@ + escaped(harness_id) =~= line + (
    " run-thread --harness-id "@ + escaped(harness_id)));
}

proof fn lemma_thread_words(line: Seq<char>, thread_id: Option<Seq<char>>)
    ensures
        line + option_part(" --thread-id "@, escaped_option(thread_id)) == line + spaced(
            thread_words(thread_id),
        ),
{
    if thread_id is Some {
        reveal_strlit(" --thread-id ");
        reveal_strlit("--thread-id");
        assert(" --thread-id "@ =~= seq![' '] + "--thread-id"@ + seq![' ']);
        lemma_spaced_two("--thread-id"@, thread_id->0);
    }
}

proof fn lemma_cwd_words(line: Seq<char>, cwd: Seq<char>)
    requires
        cwd.len() > 0,
    ensures
        line + " --cwd-hex "@ + encoded(cwd) == line + spaced(seq!["--cwd-hex"@, encoded(cwd)]),
{
    reveal_strlit(" --cwd-hex ");
    reveal_strlit("--cwd-hex");
    assert(" --cwd-hex "@ =~= seq![' '] + "--cwd-hex"@ + seq![' ']);
    lemma_next_option(line, " --cwd-hex "@, "--cwd-hex"@, cwd);
}

proof fn lemma_title_words(line: Seq<char>, title: Seq<char>)
    requires
        title.len() > 0,
    ensures
        line + " --title-hex "@ + encoded(title) == line + spaced(
            seq!["--title-hex"@, encoded(title)],
        ),
{
    reveal_strlit(" --title-hex ");
    reveal_strlit("--title-hex");
    assert(" --title-hex "@ =~= seq![' '] + "--title-hex"@ + seq![' ']);
    lemma_next_option(line, " --title-hex "@, "--title-hex"@, title);
}

proof fn lemma_command_words(line: Seq<char>, agent_command: Seq<char>)
    requires
        agent_command.len() > 0,
    ensures
        line + " --agent-command-hex "@ + encoded(agent_command) == line + spaced(
            seq!["--agent-command-hex"@, encoded(agent_command)],
        ),
{
    reveal_strlit(" --agent-command-hex ");
    reveal_strlit("--agent-command-hex");
    assert(" --agent-command-hex "@ =~= seq![' '] + "--agent-command-hex"@ + seq![' ']);
    lemma_next_option(line, " --agent-command-hex "@, "--agent-command-hex"@, agent_command);
}

proof fn lemma_session_words(line: Seq<char>, session_dir: Option<Seq<char>>)
    requires
        session_dir is Some ==> session_dir->0.len() > 0,
    ensures
        line + option_part(" --session-dir-hex "@, encoded_option(session_dir)) == line + spaced(
            session_words(session_dir),
        ),
{
    if session_dir is Some {
        reveal_strlit(" --session-dir-hex ");
        reveal_strlit("--session-dir-hex");
        assert(" --session-dir-hex "@ =~= seq![' '] + "--session-dir-hex"@ + seq![' ']);
        lemma_encoded_word(session_dir->0);
        lemma_spaced_two("--session-dir-hex"@, encoded(session_dir->0));
    }
}

proof fn lemma_next_option(line: Seq<char>, part: Seq<char>, name: Seq<char>, value: Seq<char>)
    requires
        part == seq![' '] + name + seq![' '],
        is_plain_word(name),
        value.len() > 0,
    ensures
        line + part + encoded(value) == line + spaced(seq![name, encoded(value)]),
{
    lemma_encoded_word(value);
    lemma_spaced_two(name, encoded(value));
    assert(line + part + encoded(value) =~= line + (part + encoded(value)));
}

proof fn lemma_line_extends(start: Seq<char>, words: Seq<Seq<char>>, more: Seq<Seq<char>>)
    ensures
        start + spaced(words) + spaced(more) == start + spaced(words + more),
{
    lemma_spaced_concat(words, more);
    assert(start + spaced(words) + spaced(more) =~= start + (spaced(words) + spaced(more)));
}

proof fn lemma_encoded_word(value: Seq<char>)
    requires
        value.len() > 0,
    ensures
        is_plain_word(encoded(value)),
        escaped(encoded(value)) == encoded(value),
{
    law_encoded_is_hexadecimal(value);
    law_decode_inverts_encode(value);
    if encode_utf8(value).len() == 0 {
        law_decode_inverts_encode(Seq::empty());
        encode_utf8_decode_utf8(value);
        encode_utf8_decode_utf8(Seq::empty());
        assert(encode_utf8(Seq::<char>::empty()) =~= encode_utf8(value));
    }
    assert forall|k: int| 0 <= k < encoded(value).len() implies is_plain(
        #[trigger] encoded(value)[k],
    ) by {
        assert(is_hex_char(encoded(value)[k]));
    }
}

/// What starts an agent: the arguments for the pane, and the command line to be typed into it.
#[derive(Debug)]
pub struct AgentPlan {
    pub pane: Vec<String>,
    pub command: String,
}

/// Arguments of several commands, by their texts.
pub open spec fn commands(values: Seq<Vec<String>>) -> Seq<Seq<Seq<char>>> {
    values.map_values(|args: Vec<String>| texts(args@))
}

/// The commands that mark a pane with a harness and a title.
pub open spec fn title_marks(pane_id: Seq<char>, harness_id: Seq<char>, title: Seq<char>) -> Seq<
    Seq<Seq<char>>,
> {
    seq![
        seq!["set-option"@, "-p"@, "-t"@, pane_id, "@cia_harness"@, harness_id],
        seq!["set-option"@, "-p"@, "-t"@, pane_id, "@cia_chat_title"@, title],
        seq!["select-pane"@, "-t"@, pane_id, "-T"@, title],
    ]
}

/// The commands that mark a pane with a harness, a thread and a title.
pub open spec fn pane_marks(
    pane_id: Seq<char>,
    harness_id: Seq<char>,
    thread_id: Seq<char>,
    title: Seq<char>,
) -> Seq<Seq<Seq<char>>> {
    seq![
        seq!["set-option"@, "-p"@, "-t"@, pane_id, "@cia_harness"@, harness_id],
        seq!["set-option"@, "-p"@, "-t"@, pane_id, "@cia_thread_id"@, thread_id],
    ] + title_marks(pane_id, harness_id, title)
}

/// The commands that mark the pane of a new agent and start the agent in it.
pub open spec fn start_marks(
    pane_id: Seq<char>,
    harness_id: Seq<char>,
    thread_id: Option<Seq<char>>,
    title: Seq<char>,
    command: Seq<char>,
) -> Seq<Seq<Seq<char>>> {
    (match thread_id {
        Some(thread_id) => pane_marks(pane_id, harness_id, thread_id, title),
        None => title_marks(pane_id, harness_id, title),
    }) + seq![
        seq!["send-keys"@, "-t"@, pane_id, "-l"@, command],
        seq!["send-keys"@, "-t"@, pane_id, "Enter"@],
    ]
}

/// A pane with an id.
pub open spec fn pane_with_id(windows: Seq<Window>, pane_id: Seq<char>) -> Option<Window>
    decreases windows.len(),
{
    if windows.len() == 0 {
        None
    } else if windows[0].pane_id@ == pane_id {
        Some(windows[0])
    } else {
        pane_with_id(windows.skip(1), pane_id)
    }
}

/// Something to be done with tmux: to wait for milliseconds, or to run a command.
#[derive(Debug)]
pub enum Step {
    Sleep(u64),
    Run(Vec<String>),
}

/// A step by its texts.
pub enum StepView {
    Sleep(int),
    Run(Seq<Seq<char>>),
}

impl Step {
    /// The step by its texts.
    pub open spec fn view(self) -> StepView {
        match self {
            Step::Sleep(millis) => StepView::Sleep(millis as int),
            Step::Run(args) => StepView::Run(texts(args@)),
        }
    }
}

/// What tmux says of a command that it refused.
pub open spec fn command_failure(stderr: Seq<char>) -> Seq<char> {
    "tmux command failed: "@ + trimmed(stderr)
}

/// The first commands that bring a pane to the front, inside of tmux or outside of it.
pub open spec fn front_commands(window: Window, inside: bool) -> Seq<Seq<Seq<char>>> {
    if inside {
        seq![
            seq!["switch-client"@, "-t"@, window.session@],
            seq!["select-window"@, "-t"@, window.window_id@],
        ]
    } else {
        seq![seq!["attach-session"@, "-t"@, window.session@]]
    }
}

/// The last commands that bring a pane to the front inside of tmux, from the answer on whether a pane
/// of the window fills it.
pub open spec fn fill_commands(window: Window, flag: Seq<char>) -> Seq<Seq<Seq<char>>> {
    (if flag == "1"@ {
        seq![seq!["resize-pane"@, "-Z"@, "-t"@, window.window_id@]]
    } else {
        Seq::empty()
    }) + seq![
        seq!["select-pane"@, "-t"@, window.pane_id@],
        seq!["resize-pane"@, "-Z"@, "-t"@, window.pane_id@],
    ]
}

impl Client {
    /// Finds the session in which an agent is opened.
    pub fn session_for(&self, inventory: &[Window], cwd: &str, canonical: &CanonicalPaths) -> (name:
        String)
        ensures
            name@ == agent_session(inventory@, cwd@, *canonical),
    {
        let target = normalized_path(cwd, canonical);
        let count: usize = inventory.len();
        let mut index: usize = 0;
        let mut best: Option<usize> = None;
        while index < count
            invariant
                index <= count,
                count == inventory@.len(),
                target@ == canonical.normal(cwd@),
                match best {
                    Some(at) => at < index && preferred_pane(
                        inventory@.take(index as int),
                        cwd@,
                        *canonical,
                    ) == Some(inventory@[at as int]),
                    None => preferred_pane(inventory@.take(index as int), cwd@, *canonical) is None,
                },
            decreases count - index,
        {
            proof {
                assert(inventory@.take(index + 1).drop_last() =~= inventory@.take(index as int));
                assert(inventory@.take(index + 1).last() == inventory@[index as int]);
            }
            let window = &inventory[index];
            let place = normalized_path(window.cwd.as_str(), canonical);
            if is_same_path(place.as_str(), target.as_str()) {
                match best {
                    None => {
                        best = Some(index);
                    },
                    Some(at) => {
                        let other = &inventory[at];
                        let ahead = other.session_last_attached > window.session_last_attached || (
                        other.session_last_attached == window.session_last_attached && is_before(
                            other.session.as_str(),
                            window.session.as_str(),
                        ));
                        if !ahead {
                            best = Some(index);
                        }
                    },
                }
            }
            index = index + 1;
        }
        assert(inventory@.take(count as int) =~= inventory@);
        match best {
            Some(at) => inventory[at].session.clone(),
            None => unique_session_name(inventory, cwd),
        }
    }

    /// Plans how to open an agent: which pane to make, and what to type into it.
    pub fn open_agent(&self, launch: &AgentLaunch<'_>, canonical: &CanonicalPaths) -> (plan:
        AgentPlan)
        ensures
            texts(plan.pane@) == pane_arguments(
                self.config,
                launch.inventory@,
                launch.cwd@,
                *canonical,
            ),
            plan.command@ == launch_line(
                launch.cia_command@,
                launch.harness_id@,
                opt_str(launch.thread_id),
                launch.cwd@,
                launch.title@,
                launch.agent_command@,
                opt_str(launch.session_dir),
            ),
    {
        let mut command = escape(launch.cia_command);
        command.append(" run-thread --harness-id ");
        command.append(escape(launch.harness_id).as_str());
        let ghost begun = command@;
        if let Some(thread_id) = launch.thread_id {
            command.append(" --thread-id ");
            command.append(escape(thread_id).as_str());
        }
        assert(command@ =~= begun + option_part(
            " --thread-id "@,
            escaped_option(opt_str(launch.thread_id)),
        ));
        command.append(" --cwd-hex ");
        command.append(encode(launch.cwd).as_str());
        command.append(" --title-hex ");
        command.append(encode(launch.title).as_str());
        command.append(" --agent-command-hex ");
        command.append(encode(launch.agent_command).as_str());
        let ghost carried = command@;
        if let Some(session_dir) = launch.session_dir {
            command.append(" --session-dir-hex ");
            command.append(encode(session_dir).as_str());
        }
        assert(command@ =~= carried + option_part(
            " --session-dir-hex "@,
            encoded_option(opt_str(launch.session_dir)),
        ));
        let pane = self.open_agent_pane(launch.inventory, launch.cwd, canonical);
        AgentPlan { pane, command }
    }

    /// Plans which pane to make for an agent.
    pub fn open_agent_pane(
        &self,
        inventory: &[Window],
        cwd: &str,
        canonical: &CanonicalPaths,
    ) -> (args: Vec<String>)
        ensures
            texts(args@) == pane_arguments(self.config, inventory@, cwd@, *canonical),
    {
        let session = self.session_for(inventory, cwd, canonical);
        let name = if self.config.agent_window_names.len() > 0 {
            self.config.agent_window_names[0].clone()
        } else {
            "agents".to_owned()
        };
        let ghost all = inventory@;
        let ghost wanted = pane_arguments(self.config, inventory@, cwd@, *canonical);
        let count: usize = inventory.len();
        let mut index: usize = 0;
        let mut known = false;
        assert(all.skip(0) =~= all);
        while index < count
            invariant
                index <= count,
                count == inventory@.len(),
                all == inventory@,
                wanted == pane_arguments(self.config, inventory@, cwd@, *canonical),
                session@ == agent_session(inventory@, cwd@, *canonical),
                name@ == agent_window_name(self.config),
                window_in(all, session@, name@) == window_in(
                    all.skip(index as int),
                    session@,
                    name@,
                ),
                known == exists|k: int| 0 <= k < index && (#[trigger] all[k]).session@ == session@,
            decreases count - index,
        {
            assert(all.skip(index as int)[0] == all[index as int]);
            assert(all.skip(index as int).skip(1) =~= all.skip(index + 1));
            let window = &inventory[index];
            if same_text(window.session.as_str(), session.as_str()) {
                known = true;
                if same_text(window.window_name.as_str(), name.as_str()) {
                    let args = vec![
                        "split-window".to_owned(),
                        "-d".to_owned(),
                        "-P".to_owned(),
                        "-F".to_owned(),
                        "#{pane_id}".to_owned(),
                        "-t".to_owned(),
                        window.window_id.clone(),
                        "-c".to_owned(),
                        cwd.to_owned(),
                    ];
                    assert(texts(args@) =~= wanted);
                    return args;
                }
            }
            index = index + 1;
        }
        proof {
            assert(all.skip(count as int) =~= Seq::<Window>::empty());
            if known {
                let at = choose|k: int| 0 <= k < count && (#[trigger] all[k]).session@ == session@;
                assert(sessions(all)[at] == session@);
            } else if sessions(all).contains(session@) {
                let at = choose|k: int| 0 <= k < sessions(all).len() && sessions(all)[k] == session@;
                assert(all[at].session@ == session@);
            }
        }
        if known {
            let args = vec![
                "new-window".to_owned(),
                "-d".to_owned(),
                "-P".to_owned(),
                "-F".to_owned(),
                "#{pane_id}".to_owned(),
                "-t".to_owned(),
                session,
                "-c".to_owned(),
                cwd.to_owned(),
                "-n".to_owned(),
                name,
            ];
            assert(texts(args@) =~= wanted);
            args
        } else {
            let args = vec![
                "new-session".to_owned(),
                "-d".to_owned(),
                "-P".to_owned(),
                "-F".to_owned(),
                "#{pane_id}".to_owned(),
                "-s".to_owned(),
                session,
                "-c".to_owned(),
                cwd.to_owned(),
                "-n".to_owned(),
                name,
            ];
            assert(texts(args@) =~= wanted);
            args
        }
    }

    /// Lists the commands that mark the pane of a new agent and start the agent in it.
    pub fn start_agent(&self, pane_id: &str, launch: &AgentLaunch<'_>, command: &str) -> (steps: Vec<
        Vec<String>,
    >)
        ensures
            commands(steps@) == start_marks(
                pane_id@,
                launch.harness_id@,
                opt_str(launch.thread_id),
                launch.title@,
                command@,
            ),
    {
        let mut steps = match launch.thread_id {
            Some(thread_id) => self.mark_pane(
                pane_id,
                launch.harness_id,
                thread_id,
                launch.title,
            ),
            None => self.mark_title(pane_id, launch.harness_id, launch.title),
        };
        let ghost marks = commands(steps@);
        let typed = keys(pane_id, command);
        let entered = enter(pane_id);
        steps.push(typed);
        steps.push(entered);
        assert(commands(steps@) =~= marks + seq![texts(typed@), texts(entered@)]);
        steps
    }

    /// Lists the commands that mark a pane with a harness, a thread and a title.
    pub fn mark_pane(&self, pane_id: &str, harness_id: &str, thread_id: &str, title: &str) -> (steps:
        Vec<Vec<String>>)
        ensures
            commands(steps@) == pane_marks(pane_id@, harness_id@, thread_id@, title@),
    {
        let harness = vec![
            "set-option".to_owned(),
            "-p".to_owned(),
            "-t".to_owned(),
            pane_id.to_owned(),
            "@cia_harness".to_owned(),
            harness_id.to_owned(),
        ];
        let thread = vec![
            "set-option".to_owned(),
            "-p".to_owned(),
            "-t".to_owned(),
            pane_id.to_owned(),
            "@cia_thread_id".to_owned(),
            thread_id.to_owned(),
        ];
        assert(texts(harness@) =~= pane_marks(pane_id@, harness_id@, thread_id@, title@)[0]);
        assert(texts(thread@) =~= pane_marks(pane_id@, harness_id@, thread_id@, title@)[1]);
        let mut rest = self.mark_title(pane_id, harness_id, title);
        let ghost marks = commands(rest@);
        let mut steps = vec![harness, thread];
        let ghost first = steps@;
        let ghost second = rest@;
        steps.append(&mut rest);
        assert(commands(steps@) =~= commands(first) + commands(second));
        assert(commands(first) =~= seq![texts(harness@), texts(thread@)]);
        steps
    }

    /// Lists the commands that mark a pane with a harness and a title.
    pub fn mark_title(&self, pane_id: &str, harness_id: &str, title: &str) -> (steps: Vec<
        Vec<String>,
    >)
        ensures
            commands(steps@) == title_marks(pane_id@, harness_id@, title@),
    {
        let harness = vec![
            "set-option".to_owned(),
            "-p".to_owned(),
            "-t".to_owned(),
            pane_id.to_owned(),
            "@cia_harness".to_owned(),
            harness_id.to_owned(),
        ];
        let chat = vec![
            "set-option".to_owned(),
            "-p".to_owned(),
            "-t".to_owned(),
            pane_id.to_owned(),
            "@cia_chat_title".to_owned(),
            title.to_owned(),
        ];
        let pane = vec![
            "select-pane".to_owned(),
            "-t".to_owned(),
            pane_id.to_owned(),
            "-T".to_owned(),
            title.to_owned(),
        ];
        assert(texts(harness@) =~= title_marks(pane_id@, harness_id@, title@)[0]);
        assert(texts(chat@) =~= title_marks(pane_id@, harness_id@, title@)[1]);
        assert(texts(pane@) =~= title_marks(pane_id@, harness_id@, title@)[2]);
        let steps = vec![harness, chat, pane];
        assert(commands(steps@) =~= title_marks(pane_id@, harness_id@, title@));
        steps
    }

    /// Finds the pane that was made for an agent among those that tmux lists afterwards.
    pub fn opened_pane(&self, windows: &[Window], pane_id: &str) -> (result: Result<Window, String>)
        ensures
            match result {
                Ok(window) => pane_with_id(windows@, pane_id@) == Some(window),
                Err(message) => pane_with_id(windows@, pane_id@) is None && message@
                    == "tmux created the agent pane but it was not discoverable"@,
            },
    {
        let ghost all = windows@;
        let count: usize = windows.len();
        let mut index: usize = 0;
        assert(all.skip(0) =~= all);
        while index < count
            invariant
                index <= count,
                count == windows@.len(),
                all == windows@,
                pane_with_id(all, pane_id@) == pane_with_id(all.skip(index as int), pane_id@),
            decreases count - index,
        {
            assert(all.skip(index as int)[0] == all[index as int]);
            assert(all.skip(index as int).skip(1) =~= all.skip(index + 1));
            if same_text(windows[index].pane_id.as_str(), pane_id) {
                return Ok(windows[index].clone());
            }
            index = index + 1;
        }
        Err("tmux created the agent pane but it was not discoverable".to_owned())
    }

    /// Lists the steps that give the agent in a pane a new name for its thread.
    pub fn rename_active_agent_thread(&self, pane_id: &str, title: &str) -> (steps: Vec<Step>)
        ensures
            steps@.map_values(|step: Step| step.view()) == seq![
                StepView::Sleep(1000),
                StepView::Run(seq!["send-keys"@, "-t"@, pane_id@, "-l"@, "/rename"@]),
                StepView::Run(seq!["send-keys"@, "-t"@, pane_id@, "Enter"@]),
                StepView::Sleep(250),
                StepView::Run(seq!["send-keys"@, "-t"@, pane_id@, "-l"@, title@]),
                StepView::Sleep(150),
                StepView::Run(seq!["send-keys"@, "-t"@, pane_id@, "Enter"@]),
            ],
    {
        let command = keys(pane_id, "/rename");
        let confirm = enter(pane_id);
        let name = keys(pane_id, title);
        let finish = enter(pane_id);
        let steps = vec![
            Step::Sleep(1000),
            Step::Run(command),
            Step::Run(confirm),
            Step::Sleep(250),
            Step::Run(name),
            Step::Sleep(150),
            Step::Run(finish),
        ];
        assert(steps@.map_values(|step: Step| step.view()) =~= seq![
            StepView::Sleep(1000),
            StepView::Run(seq!["send-keys"@, "-t"@, pane_id@, "-l"@, "/rename"@]),
            StepView::Run(seq!["send-keys"@, "-t"@, pane_id@, "Enter"@]),
            StepView::Sleep(250),
            StepView::Run(seq!["send-keys"@, "-t"@, pane_id@, "-l"@, title@]),
            StepView::Sleep(150),
            StepView::Run(seq!["send-keys"@, "-t"@, pane_id@, "Enter"@]),
        ]);
        steps
    }

    /// Lists the first commands that bring a pane to the front. Inside of tmux more follow, which
    /// depend on whether a pane of the window fills it; outside of tmux these are all.
    pub fn switch_to(&self, window: &Window, inside: bool) -> (steps: Vec<Vec<String>>)
        ensures
            commands(steps@) == front_commands(*window, inside),
            commands(steps@) == if inside {
                seq![
                    seq!["switch-client"@, "-t"@, window.session@],
                    seq!["select-window"@, "-t"@, window.window_id@],
                ]
            } else {
                seq![seq!["attach-session"@, "-t"@, window.session@]]
            },
    {
        if inside {
            let client = vec![
                "switch-client".to_owned(),
                "-t".to_owned(),
                window.session.clone(),
            ];
            let select = vec![
                "select-window".to_owned(),
                "-t".to_owned(),
                window.window_id.clone(),
            ];
            assert(texts(client@) =~= seq!["switch-client"@, "-t"@, window.session@]);
            assert(texts(select@) =~= seq!["select-window"@, "-t"@, window.window_id@]);
            let steps = vec![client, select];
            assert(commands(steps@) =~= seq![texts(client@), texts(select@)]);
            steps
        } else {
            let attach = vec![
                "attach-session".to_owned(),
                "-t".to_owned(),
                window.session.clone(),
            ];
            assert(texts(attach@) =~= seq!["attach-session"@, "-t"@, window.session@]);
            let steps = vec![attach];
            assert(commands(steps@) =~= seq![texts(attach@)]);
            steps
        }
    }

    /// The arguments with which tmux tells whether a pane of a window fills it.
    pub fn zoom_query(&self, window: &Window) -> (args: Vec<String>)
        ensures
            texts(args@) == seq![
                "display-message"@,
                "-p"@,
                "-t"@,
                window.window_id@,
                "#{window_zoomed_flag}"@,
            ],
    {
        let args = vec![
            "display-message".to_owned(),
            "-p".to_owned(),
            "-t".to_owned(),
            window.window_id.clone(),
            "#{window_zoomed_flag}".to_owned(),
        ];
        assert(texts(args@) =~= seq![
            "display-message"@,
            "-p"@,
            "-t"@,
            window.window_id@,
            "#{window_zoomed_flag}"@,
        ]);
        args
    }

    /// Lists the last commands that bring a pane to the front inside of tmux, from the answer on
    /// whether a pane of the window fills it.
    pub fn zoom(&self, window: &Window, flag: &str) -> (steps: Vec<Vec<String>>)
        ensures
            commands(steps@) == fill_commands(*window, flag@),
            commands(steps@) == (if flag@ == "1"@ {
                seq![seq!["resize-pane"@, "-Z"@, "-t"@, window.window_id@]]
            } else {
                Seq::empty()
            }) + seq![
                seq!["select-pane"@, "-t"@, window.pane_id@],
                seq!["resize-pane"@, "-Z"@, "-t"@, window.pane_id@],
            ],
    {
        let mut steps: Vec<Vec<String>> = Vec::new();
        assert(commands(steps@) =~= Seq::<Seq<Seq<char>>>::empty());
        if same_text(flag, "1") {
            let restore = vec![
                "resize-pane".to_owned(),
                "-Z".to_owned(),
                "-t".to_owned(),
                window.window_id.clone(),
            ];
            assert(texts(restore@) =~= seq!["resize-pane"@, "-Z"@, "-t"@, window.window_id@]);
            steps.push(restore);
            assert(commands(steps@) =~= seq![texts(restore@)]);
        }
        let ghost before = commands(steps@);
        let select = vec!["select-pane".to_owned(), "-t".to_owned(), window.pane_id.clone()];
        let fill = vec![
            "resize-pane".to_owned(),
            "-Z".to_owned(),
            "-t".to_owned(),
            window.pane_id.clone(),
        ];
        assert(texts(select@) =~= seq!["select-pane"@, "-t"@, window.pane_id@]);
        assert(texts(fill@) =~= seq!["resize-pane"@, "-Z"@, "-t"@, window.pane_id@]);
        steps.push(select);
        steps.push(fill);
        assert(commands(steps@) =~= before + seq![texts(select@), texts(fill@)]);
        steps
    }

    /// The arguments with which tmux ends a pane.
    pub fn kill_pane(&self, pane_id: &str) -> (args: Vec<String>)
        ensures
            texts(args@) == seq!["kill-pane"@, "-t"@, pane_id@],
    {
        let args = vec!["kill-pane".to_owned(), "-t".to_owned(), pane_id.to_owned()];
        assert(texts(args@) =~= seq!["kill-pane"@, "-t"@, pane_id@]);
        args
    }

    /// What a command gave out, without the white space around it, or why it failed.
    pub fn output(&self, success: bool, stdout: &str, stderr: &str) -> (result: Result<
        String,
        String,
    >)
        ensures
            match result {
                Ok(text) => success && text@ == trimmed(stdout@),
                Err(message) => !success && message@ == command_failure(stderr@),
            },
    {
        if success {
            Ok(trim(stdout).to_owned())
        } else {
            let mut message = "tmux command failed: ".to_owned();
            message.append(trim(stderr));
            Err(message)
        }
    }

    /// Whether a command was done, or why it failed.
    pub fn run(&self, success: bool, stderr: &str) -> (result: Result<(), String>)
        ensures
            match result {
                Ok(_) => success,
                Err(message) => !success && message@ == command_failure(stderr@),
            },
    {
        if success {
            Ok(())
        } else {
            let mut message = "tmux command failed: ".to_owned();
            message.append(trim(stderr));
            Err(message)
        }
    }
}

fn keys(pane_id: &str, text: &str) -> (args: Vec<String>)
    ensures
        texts(args@) == seq!["send-keys"@, "-t"@, pane_id@, "-l"@, text@],
{
    let args = vec![
        "send-keys".to_owned(),
        "-t".to_owned(),
        pane_id.to_owned(),
        "-l".to_owned(),
        text.to_owned(),
    ];
    assert(texts(args@) =~= seq!["send-keys"@, "-t"@, pane_id@, "-l"@, text@]);
    args
}

fn enter(pane_id: &str) -> (args: Vec<String>)
    ensures
        texts(args@) == seq!["send-keys"@, "-t"@, pane_id@, "Enter"@],
{
    let args = vec![
        "send-keys".to_owned(),
        "-t".to_owned(),
        pane_id.to_owned(),
        "Enter".to_owned(),
    ];
    assert(texts(args@) =~= seq!["send-keys"@, "-t"@, pane_id@, "Enter"@]);
    args
}

/// Quotes a text as one word of a shell command.
pub fn shell(value: &str) -> (word: String)
    ensures
        word@ == escaped(value@),
{
    escape(value)
}

} // verus!

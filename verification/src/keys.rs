//! What the keys do.
use vstd::prelude::*;
use vstd::string::*;

use crate::actions::{asking, chat_submitted, delete_confirmed, harness_chosen, harness_moved,
    previewed, project_submitted, quiet, scrolled, searched, status_action_done, with_boundary,
    with_next, Next, Outcome};
use crate::app::{App, AppView, DeleteChoice, DeletePrompt, DeleteTarget, Effect, EffectView, Focus,
    PromptView, StatusAction, TargetView};
use crate::config::Environment;
use crate::geometry::{move_index, moved};

verus! {

/// A key.
#[derive(Clone, Copy, Debug, PartialEq, Eq, Structural)]
pub enum KeyCode {
    Esc,
    Enter,
    Backspace,
    Left,
    Right,
    Up,
    Down,
    Tab,
    BackTab,
    Char(char),
    Other,
}

/// A key that was pressed: with the control key or not, and plain where no modifier was held at
/// all.
#[derive(Clone, Copy, Debug, PartialEq, Eq, Structural)]
pub struct Key {
    pub code: KeyCode,
    pub control: bool,
    pub plain: bool,
}

/// The pane behind another.
pub open spec fn focus_after(focus: Focus) -> Focus {
    match focus {
        Focus::Projects => Focus::Threads,
        Focus::Threads => Focus::Preview,
        Focus::Preview => Focus::Projects,
    }
}

/// The pane before another.
pub open spec fn focus_before(focus: Focus) -> Focus {
    match focus {
        Focus::Projects => Focus::Preview,
        Focus::Threads => Focus::Projects,
        Focus::Preview => Focus::Threads,
    }
}

/// Finds the pane behind another.
pub fn next_focus(focus: Focus) -> (next: Focus)
    ensures
        next == focus_after(focus),
{
    match focus {
        Focus::Projects => Focus::Threads,
        Focus::Threads => Focus::Preview,
        Focus::Preview => Focus::Projects,
    }
}

/// Finds the pane before another.
pub fn previous_focus(focus: Focus) -> (previous: Focus)
    ensures
        previous == focus_before(focus),
{
    match focus {
        Focus::Projects => Focus::Preview,
        Focus::Threads => Focus::Projects,
        Focus::Preview => Focus::Threads,
    }
}

/// Going forth and back among the panes leads back, and three steps go round.
pub proof fn law_focus_goes_round(focus: Focus)
    ensures
        focus_before(focus_after(focus)) == focus,
        focus_after(focus_before(focus)) == focus,
        focus_after(focus_after(focus_after(focus))) == focus,
{
}

/// The answers that can be given to a question.
pub open spec fn answers(target: TargetView) -> Seq<DeleteChoice> {
    match target {
        TargetView::Project { name, cwd } => seq![
            DeleteChoice::No,
            DeleteChoice::Hide,
            DeleteChoice::Delete,
        ],
        TargetView::Chat { thread } => seq![DeleteChoice::No, DeleteChoice::Delete],
    }
}

/// The place of an answer among those that can be given, or the first place.
pub open spec fn answer_place(choice: DeleteChoice, target: TargetView) -> int {
    match target {
        TargetView::Project { name, cwd } => match choice {
            DeleteChoice::No => 0,
            DeleteChoice::Hide => 1,
            DeleteChoice::Delete => 2,
        },
        TargetView::Chat { thread } => match choice {
            DeleteChoice::Delete => 1,
            _ => 0,
        },
    }
}

/// The answer some places behind another, where the ends meet.
#[verifier::opaque]
pub open spec fn answer_moved(choice: DeleteChoice, target: TargetView, delta: int) -> DeleteChoice {
    answers(target)[moved(answer_place(choice, target), answers(target).len() as int, delta)]
}

/// The answer that is given by saying yes.
pub open spec fn usual_answer(target: TargetView) -> DeleteChoice {
    match target {
        TargetView::Project { name, cwd } => DeleteChoice::Hide,
        TargetView::Chat { thread } => DeleteChoice::Delete,
    }
}

/// Lists the answers that can be given to a question.
pub fn delete_choices(target: &DeleteTarget) -> (choices: Vec<DeleteChoice>)
    ensures
        choices@ == answers(target.view()),
{
    match target {
        DeleteTarget::Project { name: _, cwd: _ } => vec![
            DeleteChoice::No,
            DeleteChoice::Hide,
            DeleteChoice::Delete,
        ],
        DeleteTarget::Chat { thread: _ } => vec![DeleteChoice::No, DeleteChoice::Delete],
    }
}

/// Finds the answer that is given by saying yes.
pub fn default_delete_choice(target: &DeleteTarget) -> (choice: DeleteChoice)
    ensures
        choice == usual_answer(target.view()),
{
    match target {
        DeleteTarget::Project { name: _, cwd: _ } => DeleteChoice::Hide,
        DeleteTarget::Chat { thread: _ } => DeleteChoice::Delete,
    }
}

fn place_of_choice(choices: &Vec<DeleteChoice>, choice: DeleteChoice, target: &DeleteTarget) -> (at:
    usize)
    requires
        choices@ == answers(target.view()),
    ensures
        at == answer_place(choice, target.view()),
{
    let count: usize = choices.len();
    let mut index: usize = 0;
    while index < count
        invariant
            index <= count,
            count == choices@.len(),
            choices@ == answers(target.view()),
            forall|k: int| 0 <= k < index ==> choices@[k] != choice,
        decreases count - index,
    {
        if choices[index] == choice {
            return index;
        }
        index = index + 1;
    }
    proof {
        let all = answers(target.view());
        match target.view() {
            TargetView::Project { name, cwd } => {
                assert(all[0] == DeleteChoice::No && all[1] == DeleteChoice::Hide && all[2]
                    == DeleteChoice::Delete);
            },
            TargetView::Chat { thread } => {
                assert(all[0] == DeleteChoice::No && all[1] == DeleteChoice::Delete);
            },
        }
    }
    0
}

/// Finds the answer before another.
pub fn previous_delete_choice(choice: DeleteChoice, target: &DeleteTarget) -> (previous:
    DeleteChoice)
    ensures
        previous == answer_moved(choice, target.view(), -1),
{
    proof {
        reveal(answer_moved);
    }
    let choices = delete_choices(target);
    let at: usize = place_of_choice(&choices, choice, target);
    choices[move_index(at, choices.len(), -1)]
}

/// Finds the answer behind another.
pub fn next_delete_choice(choice: DeleteChoice, target: &DeleteTarget) -> (next: DeleteChoice)
    ensures
        next == answer_moved(choice, target.view(), 1),
{
    proof {
        reveal(answer_moved);
    }
    let choices = delete_choices(target);
    let at: usize = place_of_choice(&choices, choice, target);
    choices[move_index(at, choices.len(), 1)]
}

/// Going forth and back among the answers to a question leads back to one that can be given.
pub proof fn law_answers_go_round(choice: DeleteChoice, target: TargetView)
    requires
        answers(target).contains(choice),
    ensures
        answer_moved(answer_moved(choice, target, 1), target, -1) == choice,
        answer_moved(answer_moved(choice, target, -1), target, 1) == choice,
        answers(target).contains(answer_moved(choice, target, 1)),
        answers(target).contains(answer_moved(choice, target, -1)),
{
    reveal(answer_moved);
    let all = answers(target);
    let k = choose|k: int| 0 <= k < all.len() && all[k] == choice;
    match target {
        TargetView::Project { name, cwd } => {
            assert(all[0] == DeleteChoice::No && all[1] == DeleteChoice::Hide && all[2]
                == DeleteChoice::Delete);
            assert(1int % 3 == 1 && 2int % 3 == 2 && 3int % 3 == 0 && 0int % 3 == 0);
            assert((-1int) % 3 == 2);
        },
        TargetView::Chat { thread } => {
            assert(all[0] == DeleteChoice::No && all[1] == DeleteChoice::Delete);
            assert(1int % 2 == 1 && 2int % 2 == 0 && 0int % 2 == 0);
            assert((-1int) % 2 == 1);
        },
    }
}

/// A text with one more character, unless it is as long as it may be.
pub open spec fn typed(text: Seq<char>, character: char, limit: int) -> Seq<char> {
    if text.len() < limit {
        text.push(character)
    } else {
        text
    }
}

/// A text without its last character.
pub open spec fn erased(text: Seq<char>) -> Seq<char> {
    if text.len() == 0 {
        text
    } else {
        text.drop_last()
    }
}

/// Writes a text without its last character.
pub(crate) fn erase(text: &String) -> (shorter: String)
    ensures
        shorter@ == erased(text@),
{
    let count: usize = text.as_str().unicode_len();
    if count == 0 {
        return text.clone();
    }
    let shorter = text.as_str().substring_char(0, count - 1).to_owned();
    assert(shorter@ =~= text@.drop_last());
    shorter
}

/// The question of an interface with another answer selected.
#[verifier::opaque]
pub open spec fn with_answer(app: AppView, choice: DeleteChoice) -> AppView {
    match app.delete_prompt {
        Some(prompt) => AppView {
            delete_prompt: Some(PromptView { choice, ..prompt }),
            ..app
        },
        None => app,
    }
}

/// What a key means while the question whether something is deleted is asked.
#[derive(Clone, Copy, Debug, PartialEq, Eq, Structural)]
pub enum DeleteMove {
    Close,
    Confirm,
    Select(DeleteChoice),
    Answer(DeleteChoice),
    Nothing,
}

/// What a key means while a question is asked, given the answers before and behind the selected
/// one, and the one that is given by saying yes.
pub open spec fn delete_move(
    code: KeyCode,
    back: DeleteChoice,
    forth: DeleteChoice,
    usual: DeleteChoice,
) -> DeleteMove {
    match code {
        KeyCode::Esc => DeleteMove::Close,
        KeyCode::Enter => DeleteMove::Confirm,
        KeyCode::Left => DeleteMove::Select(back),
        KeyCode::Right => DeleteMove::Select(forth),
        KeyCode::Char(character) => if character == 'h' {
            DeleteMove::Select(back)
        } else if character == 'l' {
            DeleteMove::Select(forth)
        } else if character == 'n' || character == 'N' {
            DeleteMove::Close
        } else if character == 'y' || character == 'Y' {
            DeleteMove::Answer(usual)
        } else if character == 'd' || character == 'D' {
            DeleteMove::Answer(DeleteChoice::Delete)
        } else {
            DeleteMove::Nothing
        },
        _ => DeleteMove::Nothing,
    }
}

/// Finds what a key means while a question is asked.
pub fn find_delete_move(
    code: KeyCode,
    back: DeleteChoice,
    forth: DeleteChoice,
    usual: DeleteChoice,
) -> (result: DeleteMove)
    ensures
        result == delete_move(code, back, forth, usual),
{
    match code {
        KeyCode::Esc => DeleteMove::Close,
        KeyCode::Enter => DeleteMove::Confirm,
        KeyCode::Left => DeleteMove::Select(back),
        KeyCode::Right => DeleteMove::Select(forth),
        KeyCode::Char(character) => if character == 'h' {
            DeleteMove::Select(back)
        } else if character == 'l' {
            DeleteMove::Select(forth)
        } else if character == 'n' || character == 'N' {
            DeleteMove::Close
        } else if character == 'y' || character == 'Y' {
            DeleteMove::Answer(usual)
        } else if character == 'd' || character == 'D' {
            DeleteMove::Answer(DeleteChoice::Delete)
        } else {
            DeleteMove::Nothing
        },
        _ => DeleteMove::Nothing,
    }
}

/// What a key does while the question whether something is deleted is asked.
#[verifier::opaque]
pub open spec fn on_delete_key(app: AppView, prompt: PromptView, code: KeyCode) -> Outcome {
    let back = answer_moved(prompt.choice, prompt.target, -1);
    let forth = answer_moved(prompt.choice, prompt.target, 1);
    match delete_move(code, back, forth, usual_answer(prompt.target)) {
        DeleteMove::Close => quiet(AppView { delete_prompt: None, ..app }),
        DeleteMove::Confirm => delete_confirmed(app),
        DeleteMove::Select(choice) => quiet(with_answer(app, choice)),
        DeleteMove::Answer(choice) => delete_confirmed(with_answer(app, choice)),
        DeleteMove::Nothing => quiet(app),
    }
}

/// What a key means while a text is typed.
#[derive(Clone, Copy, Debug, PartialEq, Eq, Structural)]
pub enum Edit {
    Cancel,
    Submit,
    Erase,
    Clear,
    Type(char),
    Nothing,
}

/// What a key means while a text is typed.
pub open spec fn edit_of(key: Key) -> Edit {
    match key.code {
        KeyCode::Esc => Edit::Cancel,
        KeyCode::Enter => Edit::Submit,
        KeyCode::Backspace => Edit::Erase,
        KeyCode::Char(character) => if !key.control {
            Edit::Type(character)
        } else if character == 'u' {
            Edit::Clear
        } else {
            Edit::Nothing
        },
        _ => Edit::Nothing,
    }
}

/// Finds what a key means while a text is typed.
pub fn find_edit(key: Key) -> (edit: Edit)
    ensures
        edit == edit_of(key),
{
    match key.code {
        KeyCode::Esc => Edit::Cancel,
        KeyCode::Enter => Edit::Submit,
        KeyCode::Backspace => Edit::Erase,
        KeyCode::Char(character) => if !key.control {
            Edit::Type(character)
        } else if character == 'u' {
            Edit::Clear
        } else {
            Edit::Nothing
        },
        _ => Edit::Nothing,
    }
}

/// A text after it was edited, up to a length.
pub open spec fn edited(text: Seq<char>, edit: Edit, limit: int) -> Seq<char> {
    match edit {
        Edit::Erase => erased(text),
        Edit::Clear => Seq::empty(),
        Edit::Type(character) => typed(text, character, limit),
        _ => text,
    }
}

/// Edits a text, up to a length.
pub(crate) fn edit_text(text: &String, edit: Edit, limit: usize) -> (result: String)
    ensures
        result@ == edited(text@, edit, limit as int),
{
    match edit {
        Edit::Erase => erase(text),
        Edit::Clear => String::new(),
        Edit::Type(character) => {
            let mut longer = text.clone();
            if text.as_str().unicode_len() < limit {
                longer.push(character);
            }
            longer
        },
        _ => text.clone(),
    }
}

/// What a key does while the path of a new project is typed.
#[verifier::opaque]
pub open spec fn on_project_key(app: AppView, key: Key, env: Environment) -> Outcome {
    match edit_of(key) {
        Edit::Cancel => quiet(
            AppView { new_project_mode: false, new_project_path: Seq::empty(), ..app },
        ),
        Edit::Submit => project_submitted(app, env),
        edit => quiet(
            AppView { new_project_path: edited(app.new_project_path, edit, 240), ..app },
        ),
    }
}

/// The interface that asks for a new chat no longer.
#[verifier::opaque]
pub open spec fn chat_given_up(app: AppView) -> AppView {
    AppView {
        new_chat_mode: false,
        new_chat_picking_harness: false,
        new_chat_harness_error: None,
        new_chat_name: Seq::empty(),
        ..app
    }
}

/// What a key means while the harness of a new chat is selected.
#[derive(Clone, Copy, Debug, PartialEq, Eq, Structural)]
pub enum HarnessMove {
    GiveUp,
    Choose,
    Back,
    Forth,
    Nothing,
}

/// What a key means while the harness of a new chat is selected.
pub open spec fn harness_move(key: Key) -> HarnessMove {
    match key.code {
        KeyCode::Esc => HarnessMove::GiveUp,
        KeyCode::Enter => HarnessMove::Choose,
        KeyCode::Left => HarnessMove::Back,
        KeyCode::Up => HarnessMove::Back,
        KeyCode::Right => HarnessMove::Forth,
        KeyCode::Down => HarnessMove::Forth,
        KeyCode::Char(character) => if character == 'h' || character == 'k' || (character == 'p'
            && key.control) {
            HarnessMove::Back
        } else if character == 'l' || character == 'j' || (character == 'n' && key.control) {
            HarnessMove::Forth
        } else {
            HarnessMove::Nothing
        },
        _ => HarnessMove::Nothing,
    }
}

/// Finds what a key means while the harness of a new chat is selected.
pub fn find_harness_move(key: Key) -> (result: HarnessMove)
    ensures
        result == harness_move(key),
{
    match key.code {
        KeyCode::Esc => HarnessMove::GiveUp,
        KeyCode::Enter => HarnessMove::Choose,
        KeyCode::Left => HarnessMove::Back,
        KeyCode::Up => HarnessMove::Back,
        KeyCode::Right => HarnessMove::Forth,
        KeyCode::Down => HarnessMove::Forth,
        KeyCode::Char(character) => if character == 'h' || character == 'k' || (character == 'p'
            && key.control) {
            HarnessMove::Back
        } else if character == 'l' || character == 'j' || (character == 'n' && key.control) {
            HarnessMove::Forth
        } else {
            HarnessMove::Nothing
        },
        _ => HarnessMove::Nothing,
    }
}

/// What a key does while the harness of a new chat is selected.
#[verifier::opaque]
pub open spec fn on_harness_key(app: AppView, key: Key) -> Outcome {
    match harness_move(key) {
        HarnessMove::GiveUp => quiet(chat_given_up(app)),
        HarnessMove::Choose => quiet(harness_chosen(app)),
        HarnessMove::Back => quiet(harness_moved(app, -1)),
        HarnessMove::Forth => quiet(harness_moved(app, 1)),
        HarnessMove::Nothing => quiet(app),
    }
}

/// What a key does while the name of a new chat is typed.
#[verifier::opaque]
pub open spec fn on_chat_key(app: AppView, key: Key) -> Outcome {
    match edit_of(key) {
        Edit::Cancel => quiet(chat_given_up(app)),
        Edit::Submit => chat_submitted(app),
        edit => quiet(AppView { new_chat_name: edited(app.new_chat_name, edit, 80), ..app }),
    }
}

/// What a key does while something is searched for.
#[verifier::opaque]
pub open spec fn on_search_key(app: AppView, key: Key) -> Outcome {
    match edit_of(key) {
        Edit::Cancel => searched(AppView { search_mode: false, query: Seq::empty(), ..app }),
        Edit::Submit => quiet(AppView { search_mode: false, ..app }),
        Edit::Nothing => quiet(app),
        Edit::Erase => searched(AppView { query: erased(app.query), ..app }),
        Edit::Clear => searched(AppView { query: Seq::empty(), ..app }),
        Edit::Type(character) => searched(AppView { query: app.query.push(character), ..app }),
    }
}

/// What a key means where nothing is asked.
#[derive(Clone, Copy, Debug, PartialEq, Eq, Structural)]
pub enum Command {
    Quit,
    Refresh,
    Act(StatusAction),
    /// Select the entry behind or before the selected one.
    Select { forward: bool },
    /// Scroll the preview forwards or backwards.
    Scroll { forward: bool },
    Last,
    FocusNext,
    FocusPrevious,
    Nothing,
}

/// What a character means where nothing is asked.
pub open spec fn character_command(character: char, control: bool) -> Command {
    if character == 'q' {
        Command::Quit
    } else if character == '?' {
        Command::Act(StatusAction::Help)
    } else if character == '/' {
        Command::Act(StatusAction::Search)
    } else if character == 'a' {
        Command::Act(StatusAction::ToggleArchived)
    } else if character == 'A' {
        Command::Act(StatusAction::SetArchived)
    } else if character == 'U' {
        Command::Act(StatusAction::SetUnarchived)
    } else if character == 'D' {
        Command::Act(StatusAction::Delete)
    } else if character == 'r' {
        Command::Refresh
    } else if character == 'n' && control {
        Command::Select { forward: true }
    } else if character == 'p' && control {
        Command::Select { forward: false }
    } else if character == 'd' && control {
        Command::Scroll { forward: true }
    } else if character == 'u' && control {
        Command::Scroll { forward: false }
    } else if character == 'N' {
        Command::Act(StatusAction::NewProject)
    } else if character == 'n' {
        Command::Act(StatusAction::New)
    } else if character == 'G' {
        Command::Last
    } else if character == 'j' {
        Command::Select { forward: true }
    } else if character == 'k' {
        Command::Select { forward: false }
    } else if character == 'l' {
        Command::FocusNext
    } else if character == 'h' {
        Command::FocusPrevious
    } else {
        Command::Nothing
    }
}

/// What a key means where nothing is asked.
pub open spec fn command_of(key: Key) -> Command {
    match key.code {
        KeyCode::Char(character) => character_command(character, key.control),
        KeyCode::Esc => Command::Quit,
        KeyCode::Enter => Command::Act(StatusAction::Open),
        KeyCode::Down => Command::Select { forward: true },
        KeyCode::Up => Command::Select { forward: false },
        KeyCode::Tab => Command::FocusNext,
        KeyCode::Right => Command::FocusNext,
        KeyCode::BackTab => Command::FocusPrevious,
        KeyCode::Left => Command::FocusPrevious,
        _ => Command::Nothing,
    }
}

fn find_character_command(character: char, control: bool) -> (command: Command)
    ensures
        command == character_command(character, control),
{
    if character == 'q' {
        Command::Quit
    } else if character == '?' {
        Command::Act(StatusAction::Help)
    } else if character == '/' {
        Command::Act(StatusAction::Search)
    } else if character == 'a' {
        Command::Act(StatusAction::ToggleArchived)
    } else if character == 'A' {
        Command::Act(StatusAction::SetArchived)
    } else if character == 'U' {
        Command::Act(StatusAction::SetUnarchived)
    } else if character == 'D' {
        Command::Act(StatusAction::Delete)
    } else if character == 'r' {
        Command::Refresh
    } else if character == 'n' && control {
        Command::Select { forward: true }
    } else if character == 'p' && control {
        Command::Select { forward: false }
    } else if character == 'd' && control {
        Command::Scroll { forward: true }
    } else if character == 'u' && control {
        Command::Scroll { forward: false }
    } else if character == 'N' {
        Command::Act(StatusAction::NewProject)
    } else if character == 'n' {
        Command::Act(StatusAction::New)
    } else if character == 'G' {
        Command::Last
    } else if character == 'j' {
        Command::Select { forward: true }
    } else if character == 'k' {
        Command::Select { forward: false }
    } else if character == 'l' {
        Command::FocusNext
    } else if character == 'h' {
        Command::FocusPrevious
    } else {
        Command::Nothing
    }
}

/// Finds what a key means where nothing is asked.
pub fn find_command(key: Key) -> (command: Command)
    ensures
        command == command_of(key),
{
    match key.code {
        KeyCode::Char(character) => find_character_command(character, key.control),
        KeyCode::Esc => Command::Quit,
        KeyCode::Enter => Command::Act(StatusAction::Open),
        KeyCode::Down => Command::Select { forward: true },
        KeyCode::Up => Command::Select { forward: false },
        KeyCode::Tab => Command::FocusNext,
        KeyCode::Right => Command::FocusNext,
        KeyCode::BackTab => Command::FocusPrevious,
        KeyCode::Left => Command::FocusPrevious,
        _ => Command::Nothing,
    }
}

/// What a move among entries and panes does.
#[verifier::opaque]
pub open spec fn on_movement(app: AppView, command: Command) -> Outcome {
    match command {
        Command::Select { forward } => previewed(
            with_next(
                app,
                if forward {
                    1
                } else {
                    -1
                },
            ),
        ),
        Command::Scroll { forward } => quiet(
            scrolled(
                app,
                if forward {
                    8
                } else {
                    -8
                },
            ),
        ),
        Command::Last => previewed(with_boundary(app, true)),
        Command::FocusNext => quiet(AppView { focus: focus_after(app.focus), ..app }),
        Command::FocusPrevious => quiet(AppView { focus: focus_before(app.focus), ..app }),
        _ => quiet(app),
    }
}

/// What a command does.
#[verifier::opaque]
pub open spec fn on_command(app: AppView, command: Command) -> Outcome {
    match command {
        Command::Quit => quiet(AppView { running: false, ..app }),
        Command::Refresh => asking(app, EffectView::RefreshView),
        Command::Act(action) => status_action_done(app, action),
        _ => on_movement(app, command),
    }
}

/// Whether a key is the letter g, with no other key held.
pub open spec fn is_plain_g(key: Key) -> bool {
    key.plain && key.code == KeyCode::Char('g')
}

/// What a key does where nothing is asked. Two presses of g select the first entry.
#[verifier::opaque]
pub open spec fn on_browse_key(app: AppView, key: Key) -> Outcome {
    if is_plain_g(key) && !app.pending_g {
        quiet(AppView { pending_g: true, ..app })
    } else {
        let settled = AppView { pending_g: false, ..app };
        if is_plain_g(key) {
            previewed(with_boundary(settled, false))
        } else {
            on_command(settled, command_of(key))
        }
    }
}

/// What a key does. A question comes before the path of a new project, then a new chat, then the
/// search, then the help, which any key closes.
#[verifier::opaque]
pub open spec fn on_key(app: AppView, key: Key, env: Environment) -> Outcome {
    match app.delete_prompt {
        Some(prompt) => on_delete_key(app, prompt, key.code),
        None => if app.new_project_mode {
            on_project_key(app, key, env)
        } else if app.new_chat_mode {
            if app.new_chat_picking_harness {
                on_harness_key(app, key)
            } else {
                on_chat_key(app, key)
            }
        } else if app.search_mode {
            on_search_key(app, key)
        } else if app.show_help {
            quiet(AppView { show_help: false, ..app })
        } else {
            on_browse_key(app, key)
        },
    }
}

/// What the interface is busy with.
#[derive(Clone, Copy, Debug)]
pub struct Mode {
    pub deleting: bool,
    pub new_project: bool,
    pub new_chat: bool,
    pub picking_harness: bool,
    pub searching: bool,
    pub helping: bool,
    pub pending_g: bool,
}

impl App {
    /// Tells what the interface is busy with.
    pub fn mode(&self) -> (mode: Mode)
        ensures
            mode.deleting == (self.view().delete_prompt is Some),
            mode.new_project == self.view().new_project_mode,
            mode.new_chat == self.view().new_chat_mode,
            mode.picking_harness == self.view().new_chat_picking_harness,
            mode.searching == self.view().search_mode,
            mode.helping == self.view().show_help,
            mode.pending_g == self.view().pending_g,
    {
        proof {
            reveal(App::view);
        }
        Mode {
            deleting: self.delete_prompt.is_some(),
            new_project: self.new_project_mode,
            new_chat: self.new_chat_mode,
            picking_harness: self.new_chat_picking_harness,
            searching: self.search_mode,
            helping: self.show_help,
            pending_g: self.pending_g,
        }
    }

    /// Takes the last character from what is searched for.
    pub fn with_query_erased(self) -> (app: App)
        ensures
            app.view() == (AppView { query: erased(self.view().query), ..self.view() }),
    {
        proof {
            reveal(App::view);
        }
        let mut app = self;
        app.query = erase(&app.query);
        app
    }

    /// Adds a character to what is searched for.
    pub fn with_query_typed(self, character: char) -> (app: App)
        ensures
            app.view() == (AppView { query: self.view().query.push(character), ..self.view() }),
    {
        proof {
            reveal(App::view);
        }
        let mut app = self;
        app.query.push(character);
        app
    }

    /// Finds the answers before and behind the selected one, and the one that is given by saying
    /// yes.
    pub fn neighbour_answers(&self) -> (answers: (DeleteChoice, DeleteChoice, DeleteChoice))
        requires
            self.view().delete_prompt is Some,
        ensures
            ({
                let prompt = self.view().delete_prompt->0;
                &&& answers.0 == answer_moved(prompt.choice, prompt.target, -1)
                &&& answers.1 == answer_moved(prompt.choice, prompt.target, 1)
                &&& answers.2 == usual_answer(prompt.target)
            }),
    {
        proof {
            reveal(App::view);
        }
        match &self.delete_prompt {
            Some(prompt) => (
                previous_delete_choice(prompt.choice, &prompt.target),
                next_delete_choice(prompt.choice, &prompt.target),
                default_delete_choice(&prompt.target),
            ),
            None => (DeleteChoice::No, DeleteChoice::No, DeleteChoice::No),
        }
    }

    /// Selects an answer to the question whether something is deleted.
    pub fn with_choice(self, choice: DeleteChoice) -> (app: App)
        ensures
            app.view() == with_answer(self.view(), choice),
    {
        proof {
            reveal(App::view);
            reveal(with_answer);
        }
        let mut app = self;
        app.delete_prompt = match app.delete_prompt {
            Some(prompt) => Some(DeletePrompt { target: prompt.target, choice }),
            None => None,
        };
        app
    }

    fn handle_delete_key(self, code: KeyCode) -> (next: Next)
        requires
            self.view().delete_prompt is Some,
        ensures
            next.outcome() == on_delete_key(
                self.view(),
                self.view().delete_prompt->0,
                code,
            ),
    {
        proof {
            reveal(on_delete_key);
        }
        let (back, forth, usual) = self.neighbour_answers();
        match find_delete_move(code, back, forth, usual) {
            DeleteMove::Close => self.without_prompt().quietly(),
            DeleteMove::Confirm => self.confirm_delete(),
            DeleteMove::Select(choice) => self.with_choice(choice).quietly(),
            DeleteMove::Answer(choice) => self.with_choice(choice).confirm_delete(),
            DeleteMove::Nothing => self.quietly(),
        }
    }

    /// Edits the path of a new project.
    pub fn with_path_edited(self, edit: Edit) -> (app: App)
        ensures
            app.view() == (AppView {
                new_project_path: edited(self.view().new_project_path, edit, 240),
                ..self.view()
            }),
    {
        proof {
            reveal(App::view);
        }
        let mut app = self;
        app.new_project_path = edit_text(&app.new_project_path, edit, 240);
        app
    }

    /// Asks for the path of a new project no longer.
    pub fn give_up_project(self) -> (app: App)
        ensures
            app.view() == (AppView {
                new_project_mode: false,
                new_project_path: Seq::empty(),
                ..self.view()
            }),
    {
        proof {
            reveal(App::view);
        }
        let mut app = self;
        app.new_project_mode = false;
        app.new_project_path = String::new();
        app
    }

    fn handle_project_key(self, key: Key, env: &Environment) -> (next: Next)
        ensures
            next.outcome() == on_project_key(self.view(), key, *env),
    {
        proof {
            reveal(on_project_key);
        }
        match find_edit(key) {
            Edit::Cancel => self.give_up_project().quietly(),
            Edit::Submit => self.submit_new_project(env),
            edit => self.with_path_edited(edit).quietly(),
        }
    }

    /// Edits the name of a new chat.
    pub fn with_name_edited(self, edit: Edit) -> (app: App)
        ensures
            app.view() == (AppView {
                new_chat_name: edited(self.view().new_chat_name, edit, 80),
                ..self.view()
            }),
    {
        proof {
            reveal(App::view);
        }
        let mut app = self;
        app.new_chat_name = edit_text(&app.new_chat_name, edit, 80);
        app
    }

    /// Asks for a new chat no longer.
    pub fn give_up_chat(self) -> (app: App)
        ensures
            app.view() == chat_given_up(self.view()),
    {
        proof {
            reveal(App::view);
            reveal(chat_given_up);
        }
        let mut app = self;
        app.new_chat_mode = false;
        app.new_chat_picking_harness = false;
        app.new_chat_harness_error = None;
        app.new_chat_name = String::new();
        app
    }

    fn handle_harness_key(self, key: Key) -> (next: Next)
        ensures
            next.outcome() == on_harness_key(self.view(), key),
    {
        proof {
            reveal(on_harness_key);
        }
        match find_harness_move(key) {
            HarnessMove::GiveUp => self.give_up_chat().quietly(),
            HarnessMove::Choose => self.select_new_chat_harness().quietly(),
            HarnessMove::Back => self.move_new_chat_harness(-1).quietly(),
            HarnessMove::Forth => self.move_new_chat_harness(1).quietly(),
            HarnessMove::Nothing => self.quietly(),
        }
    }

    fn handle_chat_key(self, key: Key) -> (next: Next)
        ensures
            next.outcome() == on_chat_key(self.view(), key),
    {
        proof {
            reveal(on_chat_key);
        }
        match find_edit(key) {
            Edit::Cancel => self.give_up_chat().quietly(),
            Edit::Submit => self.submit_new_thread(),
            edit => self.with_name_edited(edit).quietly(),
        }
    }

    fn handle_search_key(self, key: Key) -> (next: Next)
        ensures
            next.outcome() == on_search_key(self.view(), key),
    {
        proof {
            reveal(on_search_key);
        }
        match find_edit(key) {
            Edit::Cancel => self.with_search_mode(false).with_query(
                String::new(),
            ).reset_search_selection(),
            Edit::Submit => self.with_search_mode(false).quietly(),
            Edit::Nothing => self.quietly(),
            Edit::Clear => self.with_query(String::new()).reset_search_selection(),
            Edit::Erase => self.with_query_erased().reset_search_selection(),
            Edit::Type(character) => self.with_query_typed(character).reset_search_selection(),
        }
    }

    fn handle_movement(self, command: Command) -> (next: Next)
        ensures
            next.outcome() == on_movement(self.view(), command),
    {
        proof {
            reveal(on_movement);
        }
        match command {
            Command::Select { forward } => {
                let delta: isize = if forward {
                    1
                } else {
                    -1
                };
                self.select_next(delta)
            },
            Command::Scroll { forward } => {
                let delta: isize = if forward {
                    8
                } else {
                    -8
                };
                self.scroll_preview(delta).quietly()
            },
            Command::Last => self.select_boundary(true),
            Command::FocusNext => {
                let focus = next_focus(self.focused());
                self.with_focus(focus).quietly()
            },
            Command::FocusPrevious => {
                let focus = previous_focus(self.focused());
                self.with_focus(focus).quietly()
            },
            _ => self.quietly(),
        }
    }

    fn handle_command(self, command: Command) -> (next: Next)
        ensures
            next.outcome() == on_command(self.view(), command),
    {
        proof {
            reveal(on_command);
        }
        match command {
            Command::Quit => self.stopped().quietly(),
            Command::Refresh => self.asking_for(Effect::RefreshView),
            Command::Act(action) => self.run_status_action(action),
            _ => self.handle_movement(command),
        }
    }

    fn handle_browse_key(self, key: Key) -> (next: Next)
        ensures
            next.outcome() == on_browse_key(self.view(), key),
    {
        proof {
            reveal(on_browse_key);
        }
        let plain_g = match key.code {
            KeyCode::Char(character) => key.plain && character == 'g',
            _ => false,
        };
        if plain_g && !self.mode().pending_g {
            return self.with_pending(true).quietly();
        }
        let app = self.with_pending(false);
        if plain_g {
            app.select_boundary(false)
        } else {
            app.handle_command(find_command(key))
        }
    }

    /// Does what a key stands for.
    pub fn handle_key(self, key: Key, env: &Environment) -> (next: Next)
        ensures
            next.outcome() == on_key(self.view(), key, *env),
    {
        proof {
            reveal(on_key);
        }
        let mode = self.mode();
        if mode.deleting {
            self.handle_delete_key(key.code)
        } else if mode.new_project {
            self.handle_project_key(key, env)
        } else if mode.new_chat {
            if mode.picking_harness {
                self.handle_harness_key(key)
            } else {
                self.handle_chat_key(key)
            }
        } else if mode.searching {
            self.handle_search_key(key)
        } else if mode.helping {
            self.with_help(false).quietly()
        } else {
            self.handle_browse_key(key)
        }
    }
}

} // verus!

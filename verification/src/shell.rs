//! What the interactive shell needs besides the store: the prompts it
//! shows, the cleaning of a line that was typed, and the reading of a
//! command keyword.

use crate::text::same_text;
use crate::text::trim;
use crate::text::trimmed;
use vstd::prelude::*;

verus! {

/// A command of the shell.
#[derive(Clone, Copy, Debug, PartialEq, Eq, Structural)]
pub enum MenuOption {
    Help,
    AddHabit,
    RemoveHabit,
    CheckHabit,
    HistoryHabit,
    ListHabits,
    Exit,
}

impl MenuOption {
    /// The command that a keyword stands for, if any. Keywords are matched
    /// as they are written, small letters only.
    pub open spec fn of_keyword(word: Seq<char>) -> Option<MenuOption> {
        if word == "help"@ {
            Some(MenuOption::Help)
        } else if word == "add"@ {
            Some(MenuOption::AddHabit)
        } else if word == "remove"@ {
            Some(MenuOption::RemoveHabit)
        } else if word == "check"@ {
            Some(MenuOption::CheckHabit)
        } else if word == "history"@ {
            Some(MenuOption::HistoryHabit)
        } else if word == "list"@ {
            Some(MenuOption::ListHabits)
        } else if word == "exit"@ || word == "quit"@ {
            Some(MenuOption::Exit)
        } else {
            None
        }
    }
}

/// The prompt that asks for a command.
pub fn cmd_prompt() -> (r: &'static str)
    ensures
        r@ == "> "@,
{
    "> "
}

/// The prompt that asks a question: the question and one space.
pub fn ask(prompt: &str) -> (r: String)
    ensures
        r@ == prompt@ + " "@,
{
    String::from_str(prompt).concat(" ")
}

/// A line as it was typed, without the whitespace around it.
pub fn clean_line(raw: &str) -> (r: String)
    ensures
        r@ == trimmed(raw@),
{
    String::from_str(trim(raw))
}

/// The command that a cleaned line names, or `None` for a line that names
/// no command.
pub fn choice_option(input: &str) -> (r: Option<MenuOption>)
    ensures
        r == MenuOption::of_keyword(input@),
{
    if same_text(input, "help") {
        Some(MenuOption::Help)
    } else if same_text(input, "add") {
        Some(MenuOption::AddHabit)
    } else if same_text(input, "remove") {
        Some(MenuOption::RemoveHabit)
    } else if same_text(input, "check") {
        Some(MenuOption::CheckHabit)
    } else if same_text(input, "history") {
        Some(MenuOption::HistoryHabit)
    } else if same_text(input, "list") {
        Some(MenuOption::ListHabits)
    } else if same_text(input, "exit") || same_text(input, "quit") {
        Some(MenuOption::Exit)
    } else {
        None
    }
}

} // verus!

//! What the library asks of the store and of the program around it.

use vstd::prelude::*;
use vstd::string::StringExecFns;
use crate::text::{decimal, decimal_chars, opt_view, string_from_chars};

verus! {

/// One thing that a command asks for. The library decides which; the caller
/// carries it out.
#[derive(Debug, Clone, PartialEq, Eq)]
pub enum Request {
    /// Store a new category.
    PostCategory { label: String, prompt: String },
    /// Store a new choice in a category.
    PostChoice { label: String, shortcut: String, category: String },
    /// Store a new quiz.
    PostQuiz { label: String },
    /// Put a category at the end of a quiz.
    LinkCategoryToQuiz { category: String, quiz: String },
    /// Take a category out of a quiz.
    UnlinkCategoryFromQuiz { category: String, quiz: String },
    /// Show all categories.
    GetAllCategories,
    /// Show all quizzes.
    GetAllQuizzes,
    /// Show the categories of a quiz.
    GetCategoriesInQuiz { quiz: String },
    /// Show the choices of a category.
    GetChoicesInCategory { category: String },
    /// Disable a choice of a category.
    DisableChoice { category: String, choice: String },
    /// Disable a category.
    DisableCategory { category: String },
    /// Show a choice in streaks if it is not shown, and hide it if it is.
    ToggleShowInStreaksForChoice { category: String, choice: String },
    /// Set the reminder interval of a choice, or take it away.
    ChangeTimerForChoice { choice: String, new_timer: Option<i32> },
    /// Move the most recent entry back by one day.
    MoveLastEntryToYesterday,
    /// Give a category another label.
    RenameCategory { category: String, new_name: String },
    /// Give a choice of a category another label.
    RenameChoice { category: String, choice: String, new_name: String },
    /// Give a quiz another label.
    RenameQuiz { quiz: String, new_name: String },
    /// List the entries of the last days, into a file where one is named.
    PrintEntries { days: u32, output: Option<String> },
    /// Run a quiz.
    RunQuiz { quiz: String },
    /// Set the store up.
    Setup { config: Option<String>, path: Option<String> },
}

/// The number that stands for a reminder interval where a command names it:
/// the days of the interval, or -1 for none.
pub open spec fn timer_number(timer: Option<i32>) -> int {
    match timer {
        Some(days) => days as int,
        None => -1,
    }
}

/// What is shown when `request` has been carried out; nothing for a request
/// that shows its own result.
pub open spec fn success_text(request: Request) -> Option<Seq<char>> {
    match request {
        Request::PostCategory { label, prompt } => Some(
            "Success! Added category "@ + label@ + "."@,
        ),
        Request::PostChoice { label, shortcut, category } => Some(
            "Success! Added choice "@ + label@ + "."@,
        ),
        Request::PostQuiz { label } => Some("Success! Added quiz "@ + label@ + "."@),
        Request::LinkCategoryToQuiz { category, quiz } => Some(
            "Success! Added category "@ + category@ + " to quiz "@ + quiz@ + "."@,
        ),
        Request::UnlinkCategoryFromQuiz { category, quiz } => Some(
            "Success! Added category "@ + category@ + " to quiz "@ + quiz@ + "."@,
        ),
        Request::DisableChoice { category, choice } => Some(
            "Success! Disabled choice "@ + choice@ + "."@,
        ),
        Request::DisableCategory { category } => Some(
            "Success! Disabled category "@ + category@ + "."@,
        ),
        Request::ToggleShowInStreaksForChoice { category, choice } => Some(
            "Success! Toggled show_in_streaks for choice "@ + choice@ + "."@,
        ),
        Request::ChangeTimerForChoice { choice, new_timer } => Some(
            "Success! Changed timer for choice "@ + choice@ + " to "@ + decimal(
                timer_number(new_timer),
            ) + " days."@,
        ),
        Request::MoveLastEntryToYesterday => Some("Success! Moved last entry to yesterday."@),
        _ => None,
    }
}

/// The heading under which the result of `request` is listed; none for a
/// request that lists nothing.
pub open spec fn heading_text(request: Request) -> Option<Seq<char>> {
    match request {
        Request::GetAllCategories => Some("Categories:"@),
        Request::GetCategoriesInQuiz { quiz } => Some("Categories in quiz "@ + quiz@ + ":"@),
        Request::GetChoicesInCategory { category } => Some(
            "Choices in category "@ + category@ + ":"@,
        ),
        _ => None,
    }
}

/// `before`, `name` and `after` in one text.
fn framed(before: &str, name: &str, after: &str) -> (text: String)
    ensures
        text@ == before@ + name@ + after@,
{
    let mut text = String::from_str(before);
    text.append(name);
    text.append(after);
    text
}

/// What is shown when `request` has been carried out.
///
/// Taking a category out of a quiz is reported in the words of putting it
/// in.
pub fn success_message(request: &Request) -> (message: Option<String>)
    ensures
        opt_view(message) == success_text(*request),
{
    match request {
        Request::PostCategory { label, prompt } => Some(
            framed("Success! Added category ", label.as_str(), "."),
        ),
        Request::PostChoice { label, shortcut, category } => Some(
            framed("Success! Added choice ", label.as_str(), "."),
        ),
        Request::PostQuiz { label } => Some(framed("Success! Added quiz ", label.as_str(), ".")),
        Request::LinkCategoryToQuiz { category, quiz } => {
            let mut text = framed("Success! Added category ", category.as_str(), " to quiz ");
            text.append(quiz.as_str());
            text.append(".");
            Some(text)
        },
        Request::UnlinkCategoryFromQuiz { category, quiz } => {
            let mut text = framed("Success! Added category ", category.as_str(), " to quiz ");
            text.append(quiz.as_str());
            text.append(".");
            Some(text)
        },
        Request::DisableChoice { category, choice } => Some(
            framed("Success! Disabled choice ", choice.as_str(), "."),
        ),
        Request::DisableCategory { category } => Some(
            framed("Success! Disabled category ", category.as_str(), "."),
        ),
        Request::ToggleShowInStreaksForChoice { category, choice } => Some(
            framed("Success! Toggled show_in_streaks for choice ", choice.as_str(), "."),
        ),
        Request::ChangeTimerForChoice { choice, new_timer } => {
            let number = match new_timer {
                Some(days) => *days,
                None => -1,
            };
            let mut text = framed("Success! Changed timer for choice ", choice.as_str(), " to ");
            text.append(string_from_chars(&decimal_chars(number)).as_str());
            text.append(" days.");
            Some(text)
        },
        Request::MoveLastEntryToYesterday => Some(
            String::from_str("Success! Moved last entry to yesterday."),
        ),
        _ => None,
    }
}

/// The heading under which the result of `request` is listed.
pub fn list_heading(request: &Request) -> (heading: Option<String>)
    ensures
        opt_view(heading) == heading_text(*request),
{
    match request {
        Request::GetAllCategories => Some(String::from_str("Categories:")),
        Request::GetCategoriesInQuiz { quiz } => Some(
            framed("Categories in quiz ", quiz.as_str(), ":"),
        ),
        Request::GetChoicesInCategory { category } => Some(
            framed("Choices in category ", category.as_str(), ":"),
        ),
        _ => None,
    }
}


} // verus!

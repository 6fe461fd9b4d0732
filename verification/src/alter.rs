//! The commands that change or list what the store holds: each checks its
//! arguments and names the request that carries it out.

use vstd::prelude::*;
use vstd::string::StringExecFns;
use crate::errors::Error;
use crate::models::{Category, Choice};
use crate::requests::Request;

verus! {

/// Whether `result` refuses the arguments with `message`.
pub open spec fn refuses(result: Result<Request, Error>, message: Seq<char>) -> bool {
    result matches Err(Error::InvalidInput(text)) && text@ == message
}

/// The error for arguments that are not acceptable.
fn invalid(message: &str) -> (error: Result<Request, Error>)
    ensures
        refuses(error, message@),
{
    Err(Error::InvalidInput(message.to_owned()))
}

/// What [`new_category`] returns.
pub open spec fn new_category_result(label: Seq<char>, prompt: Seq<char>, result: Result<Request, Error>) -> bool {
    if label.len() == 0 || prompt.len() == 0 {
        refuses(result, "You must provide a label and a prompt."@)
    } else {
        result matches Ok(Request::PostCategory { label: l, prompt: p }) && l@ == label && p@
            == prompt
    }
}

/// A new category with the given label and prompt; neither may be empty.
pub fn new_category(label: &str, prompt: &str) -> (result: Result<Request, Error>)
    ensures
        new_category_result(label@, prompt@, result),
{
    if label.unicode_len() == 0 || prompt.unicode_len() == 0 {
        return invalid("You must provide a label and a prompt.");
    }
    Ok(Request::PostCategory { label: label.to_owned(), prompt: prompt.to_owned() })
}

/// What [`new_choice`] returns.
pub open spec fn new_choice_result(
    label: Seq<char>,
    shortcut: Seq<char>,
    category: Seq<char>,
    result: Result<Request, Error>,
) -> bool {
    if label.len() == 0 || shortcut.len() == 0 || category.len() == 0 {
        refuses(result, "You must provide a label, a shortcut, and a category."@)
    } else {
        result matches Ok(Request::PostChoice { label: l, shortcut: s, category: c }) && l@
            == label && s@ == shortcut && c@ == category
    }
}

/// A new choice in a category; label, shortcut and category must not be empty.
pub fn new_choice(label: &str, shortcut: &str, category: &str) -> (result: Result<Request, Error>)
    ensures
        new_choice_result(label@, shortcut@, category@, result),
{
    if label.unicode_len() == 0 || shortcut.unicode_len() == 0 || category.unicode_len() == 0 {
        return invalid("You must provide a label, a shortcut, and a category.");
    }
    Ok(
        Request::PostChoice {
            label: label.to_owned(),
            shortcut: shortcut.to_owned(),
            category: category.to_owned(),
        },
    )
}

/// What [`new_quiz`] returns.
pub open spec fn new_quiz_result(label: Seq<char>, result: Result<Request, Error>) -> bool {
    if label.len() == 0 {
        refuses(result, "You must provide a label for the quiz."@)
    } else {
        result matches Ok(Request::PostQuiz { label: l }) && l@ == label
    }
}

/// A new quiz with the given label, which must not be empty.
pub fn new_quiz(label: &str) -> (result: Result<Request, Error>)
    ensures
        new_quiz_result(label@, result),
{
    if label.unicode_len() == 0 {
        return invalid("You must provide a label for the quiz.");
    }
    Ok(Request::PostQuiz { label: label.to_owned() })
}

/// What [`link_category_to_quiz`] returns.
pub open spec fn link_result(category: Seq<char>, quiz: Seq<char>, result: Result<Request, Error>) -> bool {
    if category.len() == 0 || quiz.len() == 0 {
        refuses(result, "You must provide a category and a quiz."@)
    } else {
        result matches Ok(Request::LinkCategoryToQuiz { category: c, quiz: q }) && c@ == category
            && q@ == quiz
    }
}

/// Puts a category at the end of a quiz; neither label may be empty.
pub fn link_category_to_quiz(category: &str, quiz: &str) -> (result: Result<Request, Error>)
    ensures
        link_result(category@, quiz@, result),
{
    if category.unicode_len() == 0 || quiz.unicode_len() == 0 {
        return invalid("You must provide a category and a quiz.");
    }
    Ok(Request::LinkCategoryToQuiz { category: category.to_owned(), quiz: quiz.to_owned() })
}

/// What [`unlink_category_from_quiz`] returns.
pub open spec fn unlink_result(category: Seq<char>, quiz: Seq<char>, result: Result<Request, Error>) -> bool {
    if category.len() == 0 || quiz.len() == 0 {
        refuses(result, "You must provide a category and a quiz."@)
    } else {
        result matches Ok(Request::UnlinkCategoryFromQuiz { category: c, quiz: q }) && c@
            == category && q@ == quiz
    }
}

/// Takes a category out of a quiz; neither label may be empty.
pub fn unlink_category_from_quiz(category: &str, quiz: &str) -> (result: Result<Request, Error>)
    ensures
        unlink_result(category@, quiz@, result),
{
    if category.unicode_len() == 0 || quiz.unicode_len() == 0 {
        return invalid("You must provide a category and a quiz.");
    }
    Ok(Request::UnlinkCategoryFromQuiz { category: category.to_owned(), quiz: quiz.to_owned() })
}

/// What [`list_all_categories_in_quiz`] returns.
pub open spec fn list_in_quiz_result(quiz: Seq<char>, result: Result<Request, Error>) -> bool {
    if quiz.len() == 0 {
        refuses(result, "You must provide a quiz."@)
    } else {
        result matches Ok(Request::GetCategoriesInQuiz { quiz: q }) && q@ == quiz
    }
}

/// Lists the categories of a quiz, whose label must not be empty.
pub fn list_all_categories_in_quiz(quiz: &str) -> (result: Result<Request, Error>)
    ensures
        list_in_quiz_result(quiz@, result),
{
    if quiz.unicode_len() == 0 {
        return invalid("You must provide a quiz.");
    }
    Ok(Request::GetCategoriesInQuiz { quiz: quiz.to_owned() })
}

/// What [`list_all_choices_in_category`] returns.
pub open spec fn list_choices_result(category: Seq<char>, result: Result<Request, Error>) -> bool {
    if category.len() == 0 {
        refuses(result, "You must provide a category."@)
    } else {
        result matches Ok(Request::GetChoicesInCategory { category: c }) && c@ == category
    }
}

/// Lists the choices of a category, whose label must not be empty.
pub fn list_all_choices_in_category(category_label: &str) -> (result: Result<Request, Error>)
    ensures
        list_choices_result(category_label@, result),
{
    if category_label.unicode_len() == 0 {
        return invalid("You must provide a category.");
    }
    Ok(Request::GetChoicesInCategory { category: category_label.to_owned() })
}

/// What [`disable_choice`] returns.
pub open spec fn disable_choice_result(category: Seq<char>, choice: Seq<char>, result: Result<Request, Error>) -> bool {
    if choice.len() == 0 || category.len() == 0 {
        refuses(result, "You must provide a choice and a category."@)
    } else {
        result matches Ok(Request::DisableChoice { category: c, choice: l }) && c@ == category
            && l@ == choice
    }
}

/// Disables a choice of a category; neither label may be empty.
pub fn disable_choice(category: &str, choice: &str) -> (result: Result<Request, Error>)
    ensures
        disable_choice_result(category@, choice@, result),
{
    if choice.unicode_len() == 0 || category.unicode_len() == 0 {
        return invalid("You must provide a choice and a category.");
    }
    Ok(Request::DisableChoice { category: category.to_owned(), choice: choice.to_owned() })
}

/// What [`disable_category`] returns.
pub open spec fn disable_category_result(category: Seq<char>, result: Result<Request, Error>) -> bool {
    if category.len() == 0 {
        refuses(result, "You must provide a category."@)
    } else {
        result matches Ok(Request::DisableCategory { category: c }) && c@ == category
    }
}

/// Disables a category, whose label must not be empty.
pub fn disable_category(category: &str) -> (result: Result<Request, Error>)
    ensures
        disable_category_result(category@, result),
{
    if category.unicode_len() == 0 {
        return invalid("You must provide a category.");
    }
    Ok(Request::DisableCategory { category: category.to_owned() })
}

/// What [`toggle_show_in_streaks_for_choice`] returns.
pub open spec fn toggle_result(category: Seq<char>, choice: Seq<char>, result: Result<Request, Error>) -> bool {
    if choice.len() == 0 {
        refuses(result, "You must provide a choice."@)
    } else {
        result matches Ok(Request::ToggleShowInStreaksForChoice { category: c, choice: l }) && c@
            == category && l@ == choice
    }
}

/// Shows a choice in streaks if it is not shown, and hides it if it is; the
/// label of the choice must not be empty.
pub fn toggle_show_in_streaks_for_choice(category: &str, choice: &str) -> (result: Result<
    Request,
    Error,
>)
    ensures
        toggle_result(category@, choice@, result),
{
    if choice.unicode_len() == 0 {
        return invalid("You must provide a choice.");
    }
    Ok(
        Request::ToggleShowInStreaksForChoice {
            category: category.to_owned(),
            choice: choice.to_owned(),
        },
    )
}

/// The reminder interval that the number `new_timer` stands for: none for
/// -1, the number itself where it is at least 1; other numbers stand for
/// nothing.
pub open spec fn timer_of(new_timer: i32) -> Option<Option<i32>> {
    if new_timer == -1 {
        Some(None)
    } else if new_timer >= 1 {
        Some(Some(new_timer))
    } else {
        None
    }
}

/// What [`change_timer_for_choice`] returns.
pub open spec fn change_timer_result(
    category: Seq<char>,
    choice: Seq<char>,
    new_timer: i32,
    result: Result<Request, Error>,
) -> bool {
    if choice.len() == 0 || category.len() == 0 {
        refuses(result, "You must provide a choice and a category."@)
    } else {
        match timer_of(new_timer) {
            Some(timer) => result matches Ok(
                Request::ChangeTimerForChoice { choice: l, new_timer: t },
            ) && l@ == choice && t == timer,
            None => refuses(result, "Timer must be -1 or greater than 1."@),
        }
    }
}

/// Sets the reminder interval of a choice to `new_timer` days, or takes it
/// away where `new_timer` is -1. Neither label may be empty, and no other
/// number below 1 is accepted.
pub fn change_timer_for_choice(category: &str, choice: &str, new_timer: i32) -> (result: Result<
    Request,
    Error,
>)
    ensures
        change_timer_result(category@, choice@, new_timer, result),
{
    if choice.unicode_len() == 0 || category.unicode_len() == 0 {
        return invalid("You must provide a choice and a category.");
    }
    let timer = if new_timer == -1 {
        None
    } else if new_timer >= 1 {
        Some(new_timer)
    } else {
        return invalid("Timer must be -1 or greater than 1.");
    };
    Ok(Request::ChangeTimerForChoice { choice: choice.to_owned(), new_timer: timer })
}

/// Lists all categories.
pub fn list_all_categories() -> (request: Request)
    ensures
        request == Request::GetAllCategories,
{
    Request::GetAllCategories
}

/// Moves the most recent entry back by one day.
pub fn move_last_entry_to_yesterday() -> (request: Request)
    ensures
        request == Request::MoveLastEntryToYesterday,
{
    Request::MoveLastEntryToYesterday
}

/// The line that shows a category in a list: label, colon, prompt.
pub open spec fn category_line(category: Category) -> Seq<char> {
    category.label@ + seq![':', ' '] + category.prompt@
}

/// The line that shows a choice in a list: two spaces, label, colon, shortcut.
pub open spec fn choice_line(choice: Choice) -> Seq<char> {
    seq![' ', ' '] + choice.label@ + seq![':', ' '] + choice.shortcut@
}

/// The lines that list `categories` under `heading`.
pub fn show_categories(heading: &str, categories: &Vec<Category>) -> (lines: Vec<String>)
    ensures
        lines@.len() == categories@.len() + 1,
        lines@[0]@ == heading@,
        forall|i: int|
            0 <= i < categories@.len() ==> (#[trigger] lines@[i + 1])@ == category_line(
                categories@[i],
            ),
{
    let mut lines: Vec<String> = Vec::new();
    lines.push(heading.to_owned());
    let mut i: usize = 0;
    while i < categories.len()
        invariant
            i <= categories.len(),
            lines@.len() == i + 1,
            lines@[0]@ == heading@,
            forall|k: int|
                0 <= k < i ==> (#[trigger] lines@[k + 1])@ == category_line(categories@[k]),
        decreases categories.len() - i,
    {
        let mut line = categories[i].label.clone();
        line.append(": ");
        line.append(categories[i].prompt.as_str());
        proof {
            reveal_strlit(": ");
            assert(": "@ =~= seq![':', ' ']);
        }
        lines.push(line);
        i += 1;
    }
    lines
}

/// The lines that list `choices` under `heading`.
pub fn show_choices(heading: &str, choices: &Vec<Choice>) -> (lines: Vec<String>)
    ensures
        lines@.len() == choices@.len() + 1,
        lines@[0]@ == heading@,
        forall|i: int|
            0 <= i < choices@.len() ==> (#[trigger] lines@[i + 1])@ == choice_line(choices@[i]),
{
    let mut lines: Vec<String> = Vec::new();
    lines.push(heading.to_owned());
    let mut i: usize = 0;
    while i < choices.len()
        invariant
            i <= choices.len(),
            lines@.len() == i + 1,
            lines@[0]@ == heading@,
            forall|k: int| 0 <= k < i ==> (#[trigger] lines@[k + 1])@ == choice_line(choices@[k]),
        decreases choices.len() - i,
    {
        let mut line = String::from_str("  ");
        line.append(choices[i].label.as_str());
        line.append(": ");
        line.append(choices[i].shortcut.as_str());
        proof {
            reveal_strlit("  ");
            reveal_strlit(": ");
            assert("  "@ =~= seq![' ', ' ']);
            assert(": "@ =~= seq![':', ' ']);
        }
        lines.push(line);
        i += 1;
    }
    lines
}

} // verus!

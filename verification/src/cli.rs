//! The commands of the program and the request that each of them stands for.

use vstd::prelude::*;
use crate::alter::{
    change_timer_for_choice, change_timer_result, disable_category, disable_category_result,
    disable_choice, disable_choice_result, link_category_to_quiz, link_result,
    list_all_categories_in_quiz, list_all_choices_in_category, list_choices_result,
    list_in_quiz_result, new_category, new_category_result, new_choice, new_choice_result,
    new_quiz, new_quiz_result, refuses, toggle_result, toggle_show_in_streaks_for_choice,
    unlink_category_from_quiz, unlink_result,
};
use crate::errors::{Error, ParsingCommandError};
use crate::requests::Request;
use crate::text::{copy_text, opt_view};

verus! {

/// The arguments of the program.
#[derive(Debug, Clone)]
pub struct Args {
    /// The quiz to run.
    pub quiz: Option<String>,
    /// The note to add, where the quiz is the quick note.
    pub note: Option<String>,
    /// The command, where no quiz is named.
    pub subcommand: Option<SubCommand>,
}

/// The commands of the program.
#[derive(Debug, Clone)]
pub enum SubCommand {
    /// Lists the recent entries.
    Print {
        /// The number of days to list.
        days: u32,
        /// The file to write the listing to, in place of showing it.
        output: Option<String>,
    },
    /// Shows, adds or changes categories.
    Category { subcommand: CategorySubcommands },
    /// Shows, adds or changes quizzes.
    Quiz { subcommand: QuizSubcommands },
    /// Shows, adds or changes choices.
    Choice { subcommand: ChoiceSubcommands },
    /// Lists or corrects entries.
    Entries { subcommand: EntriesSubcommands },
    /// Sets the store up.
    Init {
        /// The directory in which the store is kept.
        path: Option<String>,
        /// The file that holds the configuration.
        config: Option<String>,
    },
}

/// The commands on categories.
#[derive(Debug, Clone)]
pub enum CategorySubcommands {
    /// Adds a category.
    Create { category: String, prompt: String },
    /// Lists all categories.
    List,
    /// Gives a category another label.
    Rename { category: String, new_name: String },
    /// Disables a category.
    Disable { category: String },
    /// Adds a choice to a category.
    AddChoice { category: String, choice_label: String, choice_shortcut: String },
    /// Lists the choices of a category.
    ListChoices { category: String },
}

/// The commands on quizzes.
#[derive(Debug, Clone)]
pub enum QuizSubcommands {
    /// Adds a quiz.
    Create { quiz: String },
    /// Lists all quizzes.
    List,
    /// Gives a quiz another label.
    Rename { quiz: String, new_name: String },
    /// Puts a category at the end of a quiz.
    LinkCategory { quiz: String, category: String },
    /// Takes a category out of a quiz.
    UnlinkCategory { quiz: String, category: String },
    /// Lists the categories of a quiz.
    ListCategories { quiz: String },
}

/// The commands on choices.
#[derive(Debug, Clone)]
pub enum ChoiceSubcommands {
    /// Adds a choice to a category.
    Add { label: String, shortcut: String, category: String },
    /// Disables a choice.
    Disable { category: String, label: String },
    /// Gives a choice another label.
    Rename { category: String, label: String, new_name: String },
    /// Lists the choices of a category.
    List { category: String },
    /// Sets the reminder interval of a choice; -1 takes it away.
    ChangeTimer { category: String, label: String, timer: i32 },
    /// Shows a choice in streaks, or hides it.
    ToggleStreaks { category: String, label: String },
}

/// The commands on entries.
#[derive(Debug, Clone)]
pub enum EntriesSubcommands {
    /// Lists the recent entries.
    Print { days: u32, output: Option<String> },
    /// Moves the most recent entry back by one day.
    PushLatestToYesterday,
}

/// Whether `result` is the request to list the entries of the last `days`
/// days into `output`.
pub open spec fn print_result(days: u32, output: Option<String>, result: Result<Request, Error>) -> bool {
    result matches Ok(Request::PrintEntries { days: d, output: o }) && d == days && opt_view(o)
        == opt_view(output)
}

/// What a command on categories stands for: the request, or the refusal of
/// its arguments, of the command that it names.
pub open spec fn category_command_result(subcommand: CategorySubcommands, result: Result<Request, Error>) -> bool {
    match subcommand {
        CategorySubcommands::Create { category, prompt } => new_category_result(
            category@,
            prompt@,
            result,
        ),
        CategorySubcommands::Disable { category } => disable_category_result(category@, result),
        CategorySubcommands::Rename { category, new_name } => result matches Ok(
            Request::RenameCategory { category: c, new_name: n },
        ) && c@ == category@ && n@ == new_name@,
        CategorySubcommands::List => result == Ok::<Request, Error>(Request::GetAllCategories),
        CategorySubcommands::AddChoice { category, choice_label, choice_shortcut } => new_choice_result(
            choice_label@,
            choice_shortcut@,
            category@,
            result,
        ),
        CategorySubcommands::ListChoices { category } => list_choices_result(category@, result),
    }
}

/// What a command on quizzes stands for.
pub open spec fn quiz_command_result(subcommand: QuizSubcommands, result: Result<Request, Error>) -> bool {
    match subcommand {
        QuizSubcommands::Create { quiz } => new_quiz_result(quiz@, result),
        QuizSubcommands::LinkCategory { quiz, category } => link_result(category@, quiz@, result),
        QuizSubcommands::UnlinkCategory { quiz, category } => unlink_result(
            category@,
            quiz@,
            result,
        ),
        QuizSubcommands::Rename { quiz, new_name } => result matches Ok(
            Request::RenameQuiz { quiz: q, new_name: n },
        ) && q@ == quiz@ && n@ == new_name@,
        QuizSubcommands::List => result == Ok::<Request, Error>(Request::GetAllQuizzes),
        QuizSubcommands::ListCategories { quiz } => list_in_quiz_result(quiz@, result),
    }
}

/// What a command on choices stands for.
pub open spec fn choice_command_result(subcommand: ChoiceSubcommands, result: Result<Request, Error>) -> bool {
    match subcommand {
        ChoiceSubcommands::Add { label, shortcut, category } => new_choice_result(
            label@,
            shortcut@,
            category@,
            result,
        ),
        ChoiceSubcommands::Disable { category, label } => disable_choice_result(
            category@,
            label@,
            result,
        ),
        ChoiceSubcommands::Rename { category, label, new_name } => result matches Ok(
            Request::RenameChoice { category: c, choice: l, new_name: n },
        ) && c@ == category@ && l@ == label@ && n@ == new_name@,
        ChoiceSubcommands::List { category } => list_choices_result(category@, result),
        ChoiceSubcommands::ChangeTimer { category, label, timer } => change_timer_result(
            category@,
            label@,
            timer,
            result,
        ),
        ChoiceSubcommands::ToggleStreaks { category, label } => toggle_result(
            category@,
            label@,
            result,
        ),
    }
}

/// What a command on entries stands for.
pub open spec fn entries_command_result(subcommand: EntriesSubcommands, result: Result<Request, Error>) -> bool {
    match subcommand {
        EntriesSubcommands::Print { days, output } => print_result(days, output, result),
        EntriesSubcommands::PushLatestToYesterday => result == Ok::<Request, Error>(
            Request::MoveLastEntryToYesterday,
        ),
    }
}

/// The request that a command on categories stands for, or why its arguments
/// are refused.
pub fn dispatch_category_subcommands(subcommand: &CategorySubcommands) -> (result: Result<
    Request,
    Error,
>)
    ensures
        category_command_result(*subcommand, result),
{
    match subcommand {
        CategorySubcommands::Create { category, prompt } => new_category(
            category.as_str(),
            prompt.as_str(),
        ),
        CategorySubcommands::Disable { category } => disable_category(category.as_str()),
        CategorySubcommands::Rename { category, new_name } => Ok(
            Request::RenameCategory { category: category.clone(), new_name: new_name.clone() },
        ),
        CategorySubcommands::List => Ok(Request::GetAllCategories),
        CategorySubcommands::AddChoice { category, choice_label, choice_shortcut } => new_choice(
            choice_label.as_str(),
            choice_shortcut.as_str(),
            category.as_str(),
        ),
        CategorySubcommands::ListChoices { category } => list_all_choices_in_category(
            category.as_str(),
        ),
    }
}

/// The request that a command on quizzes stands for, or why its arguments
/// are refused.
pub fn dispatch_quiz_subcommands(subcommand: &QuizSubcommands) -> (result: Result<Request, Error>)
    ensures
        quiz_command_result(*subcommand, result),
{
    match subcommand {
        QuizSubcommands::Create { quiz } => new_quiz(quiz.as_str()),
        QuizSubcommands::LinkCategory { quiz, category } => link_category_to_quiz(
            category.as_str(),
            quiz.as_str(),
        ),
        QuizSubcommands::UnlinkCategory { quiz, category } => unlink_category_from_quiz(
            category.as_str(),
            quiz.as_str(),
        ),
        QuizSubcommands::Rename { quiz, new_name } => Ok(
            Request::RenameQuiz { quiz: quiz.clone(), new_name: new_name.clone() },
        ),
        QuizSubcommands::List => Ok(Request::GetAllQuizzes),
        QuizSubcommands::ListCategories { quiz } => list_all_categories_in_quiz(quiz.as_str()),
    }
}

/// The request that a command on choices stands for, or why its arguments
/// are refused.
pub fn dispatch_choice_subcommands(subcommand: &ChoiceSubcommands) -> (result: Result<
    Request,
    Error,
>)
    ensures
        choice_command_result(*subcommand, result),
{
    match subcommand {
        ChoiceSubcommands::Add { label, shortcut, category } => new_choice(
            label.as_str(),
            shortcut.as_str(),
            category.as_str(),
        ),
        ChoiceSubcommands::Disable { category, label } => disable_choice(
            category.as_str(),
            label.as_str(),
        ),
        ChoiceSubcommands::Rename { category, label, new_name } => Ok(
            Request::RenameChoice {
                category: category.clone(),
                choice: label.clone(),
                new_name: new_name.clone(),
            },
        ),
        ChoiceSubcommands::List { category } => list_all_choices_in_category(category.as_str()),
        ChoiceSubcommands::ChangeTimer { category, label, timer } => change_timer_for_choice(
            category.as_str(),
            label.as_str(),
            *timer,
        ),
        ChoiceSubcommands::ToggleStreaks { category, label } => toggle_show_in_streaks_for_choice(
            category.as_str(),
            label.as_str(),
        ),
    }
}

/// The request that a command on entries stands for.
pub fn dispatch_entries_subcommands(subcommand: &EntriesSubcommands) -> (result: Result<
    Request,
    Error,
>)
    ensures
        entries_command_result(*subcommand, result),
{
    match subcommand {
        EntriesSubcommands::Print { days, output } => Ok(
            Request::PrintEntries { days: *days, output: copy_text(output) },
        ),
        EntriesSubcommands::PushLatestToYesterday => Ok(Request::MoveLastEntryToYesterday),
    }
}

/// What a command stands for.
pub open spec fn subcommand_result(subcommand: SubCommand, result: Result<Request, Error>) -> bool {
    match subcommand {
        SubCommand::Print { days, output } => print_result(days, output, result),
        SubCommand::Category { subcommand } => category_command_result(subcommand, result),
        SubCommand::Quiz { subcommand } => quiz_command_result(subcommand, result),
        SubCommand::Choice { subcommand } => choice_command_result(subcommand, result),
        SubCommand::Entries { subcommand } => entries_command_result(subcommand, result),
        SubCommand::Init { path, config } => result matches Ok(
            Request::Setup { config: c, path: p },
        ) && opt_view(c) == opt_view(config) && opt_view(p) == opt_view(path),
    }
}

/// The request that the arguments of the program stand for.
///
/// A quiz that is named is run, whatever else is given; its label must not
/// be empty. Without a quiz the command decides. It is an error if there is
/// neither.
pub fn dispatch(args: &Args) -> (result: Result<Request, Error>)
    ensures
        match args.quiz {
            Some(quiz) => if quiz@.len() == 0 {
                refuses(result, "You must provide a quiz."@)
            } else {
                result matches Ok(Request::RunQuiz { quiz: q }) && q@ == quiz@
            },
            None => match args.subcommand {
                Some(subcommand) => subcommand_result(subcommand, result),
                None => result == Err::<Request, Error>(
                    Error::CLIParsing(ParsingCommandError::TooFewArguments),
                ),
            },
        },
{
    match &args.quiz {
        Some(quiz_name) => {
            if quiz_name.as_str().unicode_len() == 0 {
                return Err(Error::InvalidInput("You must provide a quiz.".to_owned()));
            }
            return Ok(Request::RunQuiz { quiz: quiz_name.clone() });
        },
        None => {},
    }
    match &args.subcommand {
        Some(subcommand) => match subcommand {
            SubCommand::Print { days, output } => Ok(
                Request::PrintEntries { days: *days, output: copy_text(output) },
            ),
            SubCommand::Category { subcommand } => dispatch_category_subcommands(subcommand),
            SubCommand::Quiz { subcommand } => dispatch_quiz_subcommands(subcommand),
            SubCommand::Choice { subcommand } => dispatch_choice_subcommands(subcommand),
            SubCommand::Entries { subcommand } => dispatch_entries_subcommands(subcommand),
            SubCommand::Init { path, config } => Ok(
                Request::Setup { config: copy_text(config), path: copy_text(path) },
            ),
        },
        None => Err(Error::CLIParsing(ParsingCommandError::TooFewArguments)),
    }
}

} // verus!

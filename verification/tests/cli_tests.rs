use jurnalo::alter::{
    change_timer_for_choice, disable_category, disable_choice, link_category_to_quiz,
    list_all_categories, list_all_categories_in_quiz, list_all_choices_in_category,
    move_last_entry_to_yesterday, new_category, new_choice, new_quiz, show_categories,
    show_choices, toggle_show_in_streaks_for_choice, unlink_category_from_quiz,
};
use jurnalo::cli::{
    dispatch, dispatch_category_subcommands, dispatch_choice_subcommands,
    dispatch_entries_subcommands, dispatch_quiz_subcommands, Args, CategorySubcommands,
    ChoiceSubcommands, EntriesSubcommands, QuizSubcommands, SubCommand,
};
use jurnalo::errors::{Error, ParsingCommandError};
use jurnalo::models::{Category, Choice};
use jurnalo::quick_note::{add_note, note_saved_message, parse_note};
use jurnalo::models::NewEntry;
use jurnalo::requests::{list_heading, success_message, Request};

fn s(text: &str) -> String {
    text.to_string()
}

fn invalid(message: &str) -> Result<Request, Error> {
    Err(Error::InvalidInput(message.to_string()))
}

#[test]
fn new_category_needs_label_and_prompt() {
    assert_eq!(
        new_category("mood", "How was it?"),
        Ok(Request::PostCategory { label: s("mood"), prompt: s("How was it?") })
    );
    assert_eq!(new_category("", "How was it?"), invalid("You must provide a label and a prompt."));
    assert_eq!(new_category("mood", ""), invalid("You must provide a label and a prompt."));
}

#[test]
fn new_choice_needs_label_shortcut_and_category() {
    assert_eq!(
        new_choice("Good", "g", "mood"),
        Ok(Request::PostChoice { label: s("Good"), shortcut: s("g"), category: s("mood") })
    );
    let refusal = invalid("You must provide a label, a shortcut, and a category.");
    assert_eq!(new_choice("", "g", "mood"), refusal);
    assert_eq!(new_choice("Good", "", "mood"), refusal);
    assert_eq!(new_choice("Good", "g", ""), refusal);
}

#[test]
fn new_quiz_needs_a_label() {
    assert_eq!(new_quiz("daily"), Ok(Request::PostQuiz { label: s("daily") }));
    assert_eq!(new_quiz(""), invalid("You must provide a label for the quiz."));
}

#[test]
fn linking_needs_category_and_quiz() {
    assert_eq!(
        link_category_to_quiz("mood", "daily"),
        Ok(Request::LinkCategoryToQuiz { category: s("mood"), quiz: s("daily") })
    );
    assert_eq!(
        unlink_category_from_quiz("mood", "daily"),
        Ok(Request::UnlinkCategoryFromQuiz { category: s("mood"), quiz: s("daily") })
    );
    let refusal = invalid("You must provide a category and a quiz.");
    assert_eq!(link_category_to_quiz("", "daily"), refusal);
    assert_eq!(link_category_to_quiz("mood", ""), refusal);
    assert_eq!(unlink_category_from_quiz("", "daily"), refusal);
    assert_eq!(unlink_category_from_quiz("mood", ""), refusal);
}

#[test]
fn listing_needs_what_is_listed() {
    assert_eq!(list_all_categories(), Request::GetAllCategories);
    assert_eq!(
        list_all_categories_in_quiz("daily"),
        Ok(Request::GetCategoriesInQuiz { quiz: s("daily") })
    );
    assert_eq!(list_all_categories_in_quiz(""), invalid("You must provide a quiz."));
    assert_eq!(
        list_all_choices_in_category("mood"),
        Ok(Request::GetChoicesInCategory { category: s("mood") })
    );
    assert_eq!(list_all_choices_in_category(""), invalid("You must provide a category."));
}

#[test]
fn disabling_needs_its_labels() {
    assert_eq!(
        disable_choice("mood", "Good"),
        Ok(Request::DisableChoice { category: s("mood"), choice: s("Good") })
    );
    assert_eq!(disable_choice("", "Good"), invalid("You must provide a choice and a category."));
    assert_eq!(disable_choice("mood", ""), invalid("You must provide a choice and a category."));
    assert_eq!(disable_category("mood"), Ok(Request::DisableCategory { category: s("mood") }));
    assert_eq!(disable_category(""), invalid("You must provide a category."));
}

#[test]
fn toggling_needs_the_choice_only() {
    assert_eq!(
        toggle_show_in_streaks_for_choice("", "Good"),
        Ok(Request::ToggleShowInStreaksForChoice { category: s(""), choice: s("Good") })
    );
    assert_eq!(
        toggle_show_in_streaks_for_choice("mood", ""),
        invalid("You must provide a choice.")
    );
}

#[test]
fn the_timer_is_minus_one_or_at_least_one() {
    assert_eq!(
        change_timer_for_choice("mood", "Good", -1),
        Ok(Request::ChangeTimerForChoice { choice: s("Good"), new_timer: None })
    );
    assert_eq!(
        change_timer_for_choice("mood", "Good", 1),
        Ok(Request::ChangeTimerForChoice { choice: s("Good"), new_timer: Some(1) })
    );
    assert_eq!(
        change_timer_for_choice("mood", "Good", 30),
        Ok(Request::ChangeTimerForChoice { choice: s("Good"), new_timer: Some(30) })
    );
    let refusal = invalid("Timer must be -1 or greater than 1.");
    assert_eq!(change_timer_for_choice("mood", "Good", 0), refusal);
    assert_eq!(change_timer_for_choice("mood", "Good", -2), refusal);
    assert_eq!(change_timer_for_choice("mood", "Good", i32::MIN), refusal);
    let refusal = invalid("You must provide a choice and a category.");
    assert_eq!(change_timer_for_choice("", "Good", 3), refusal);
    assert_eq!(change_timer_for_choice("mood", "", 3), refusal);
    assert_eq!(change_timer_for_choice("", "", 0), refusal);
}

#[test]
fn moving_the_last_entry_needs_nothing() {
    assert_eq!(move_last_entry_to_yesterday(), Request::MoveLastEntryToYesterday);
}

#[test]
fn categories_are_shown_under_their_heading() {
    let categories = vec![
        Category {
            id: 1,
            label: s("mood"),
            prompt: s("How was it?"),
            category_type: 1,
            disabled_bool: 0,
            extra_info: None,
            show_in_streaks: 0,
            reminder_timer_in_days: None,
        },
        Category {
            id: 2,
            label: s("notes"),
            prompt: s("Anything else?"),
            category_type: 1,
            disabled_bool: 0,
            extra_info: None,
            show_in_streaks: 0,
            reminder_timer_in_days: None,
        },
    ];
    assert_eq!(
        show_categories("Categories:", &categories),
        vec![s("Categories:"), s("mood: How was it?"), s("notes: Anything else?")]
    );
    assert_eq!(show_categories("Categories:", &Vec::new()), vec![s("Categories:")]);
}

#[test]
fn choices_are_shown_under_their_heading() {
    let choices = vec![Choice {
        id: 1,
        label: s("Good"),
        shortcut: s("g"),
        disabled_bool: 0,
        category_label: s("mood"),
        show_in_streaks: 0,
        reminder_timer_in_days: None,
    }];
    assert_eq!(
        show_choices("Choices in category mood:", &choices),
        vec![s("Choices in category mood:"), s("  Good: g")]
    );
}

#[test]
fn category_commands_are_dispatched() {
    assert_eq!(
        dispatch_category_subcommands(&CategorySubcommands::Create {
            category: s("mood"),
            prompt: s("How?")
        }),
        Ok(Request::PostCategory { label: s("mood"), prompt: s("How?") })
    );
    assert_eq!(
        dispatch_category_subcommands(&CategorySubcommands::Create {
            category: s(""),
            prompt: s("How?")
        }),
        invalid("You must provide a label and a prompt.")
    );
    assert_eq!(
        dispatch_category_subcommands(&CategorySubcommands::Disable { category: s("mood") }),
        Ok(Request::DisableCategory { category: s("mood") })
    );
    assert_eq!(
        dispatch_category_subcommands(&CategorySubcommands::Rename {
            category: s("mood"),
            new_name: s("feeling")
        }),
        Ok(Request::RenameCategory { category: s("mood"), new_name: s("feeling") })
    );
    assert_eq!(
        dispatch_category_subcommands(&CategorySubcommands::List),
        Ok(Request::GetAllCategories)
    );
    assert_eq!(
        dispatch_category_subcommands(&CategorySubcommands::AddChoice {
            category: s("mood"),
            choice_label: s("Good"),
            choice_shortcut: s("g")
        }),
        Ok(Request::PostChoice { label: s("Good"), shortcut: s("g"), category: s("mood") })
    );
    assert_eq!(
        dispatch_category_subcommands(&CategorySubcommands::ListChoices { category: s("") }),
        invalid("You must provide a category.")
    );
}

#[test]
fn quiz_commands_are_dispatched() {
    assert_eq!(
        dispatch_quiz_subcommands(&QuizSubcommands::Create { quiz: s("daily") }),
        Ok(Request::PostQuiz { label: s("daily") })
    );
    assert_eq!(
        dispatch_quiz_subcommands(&QuizSubcommands::LinkCategory {
            quiz: s("daily"),
            category: s("mood")
        }),
        Ok(Request::LinkCategoryToQuiz { category: s("mood"), quiz: s("daily") })
    );
    assert_eq!(
        dispatch_quiz_subcommands(&QuizSubcommands::UnlinkCategory {
            quiz: s("daily"),
            category: s("")
        }),
        invalid("You must provide a category and a quiz.")
    );
    assert_eq!(
        dispatch_quiz_subcommands(&QuizSubcommands::Rename {
            quiz: s("daily"),
            new_name: s("evening")
        }),
        Ok(Request::RenameQuiz { quiz: s("daily"), new_name: s("evening") })
    );
    assert_eq!(dispatch_quiz_subcommands(&QuizSubcommands::List), Ok(Request::GetAllQuizzes));
    assert_eq!(
        dispatch_quiz_subcommands(&QuizSubcommands::ListCategories { quiz: s("daily") }),
        Ok(Request::GetCategoriesInQuiz { quiz: s("daily") })
    );
}

#[test]
fn choice_commands_are_dispatched() {
    assert_eq!(
        dispatch_choice_subcommands(&ChoiceSubcommands::Add {
            label: s("Good"),
            shortcut: s("g"),
            category: s("mood")
        }),
        Ok(Request::PostChoice { label: s("Good"), shortcut: s("g"), category: s("mood") })
    );
    assert_eq!(
        dispatch_choice_subcommands(&ChoiceSubcommands::Disable {
            category: s("mood"),
            label: s("Good")
        }),
        Ok(Request::DisableChoice { category: s("mood"), choice: s("Good") })
    );
    assert_eq!(
        dispatch_choice_subcommands(&ChoiceSubcommands::Rename {
            category: s("mood"),
            label: s("Good"),
            new_name: s("Fine")
        }),
        Ok(Request::RenameChoice { category: s("mood"), choice: s("Good"), new_name: s("Fine") })
    );
    assert_eq!(
        dispatch_choice_subcommands(&ChoiceSubcommands::List { category: s("mood") }),
        Ok(Request::GetChoicesInCategory { category: s("mood") })
    );
    assert_eq!(
        dispatch_choice_subcommands(&ChoiceSubcommands::ChangeTimer {
            category: s("mood"),
            label: s("Good"),
            timer: 0
        }),
        invalid("Timer must be -1 or greater than 1.")
    );
    assert_eq!(
        dispatch_choice_subcommands(&ChoiceSubcommands::ToggleStreaks {
            category: s("mood"),
            label: s("Good")
        }),
        Ok(Request::ToggleShowInStreaksForChoice { category: s("mood"), choice: s("Good") })
    );
}

#[test]
fn entries_commands_are_dispatched() {
    assert_eq!(
        dispatch_entries_subcommands(&EntriesSubcommands::Print {
            days: 3,
            output: Some(s("out.md"))
        }),
        Ok(Request::PrintEntries { days: 3, output: Some(s("out.md")) })
    );
    assert_eq!(
        dispatch_entries_subcommands(&EntriesSubcommands::PushLatestToYesterday),
        Ok(Request::MoveLastEntryToYesterday)
    );
}

#[test]
fn a_named_quiz_is_run_whatever_else_is_given() {
    let args = Args {
        quiz: Some(s("daily")),
        note: Some(s("ignored")),
        subcommand: Some(SubCommand::Print { days: 1, output: None }),
    };
    assert_eq!(dispatch(&args), Ok(Request::RunQuiz { quiz: s("daily") }));
    let args = Args { quiz: Some(s("")), note: None, subcommand: None };
    assert_eq!(dispatch(&args), invalid("You must provide a quiz."));
}

#[test]
fn without_a_quiz_the_command_decides() {
    let with = |subcommand| Args { quiz: None, note: None, subcommand: Some(subcommand) };
    assert_eq!(
        dispatch(&with(SubCommand::Print { days: 7, output: None })),
        Ok(Request::PrintEntries { days: 7, output: None })
    );
    assert_eq!(
        dispatch(&with(SubCommand::Category { subcommand: CategorySubcommands::List })),
        Ok(Request::GetAllCategories)
    );
    assert_eq!(
        dispatch(&with(SubCommand::Quiz { subcommand: QuizSubcommands::List })),
        Ok(Request::GetAllQuizzes)
    );
    assert_eq!(
        dispatch(&with(SubCommand::Choice {
            subcommand: ChoiceSubcommands::List { category: s("mood") }
        })),
        Ok(Request::GetChoicesInCategory { category: s("mood") })
    );
    assert_eq!(
        dispatch(&with(SubCommand::Entries {
            subcommand: EntriesSubcommands::PushLatestToYesterday
        })),
        Ok(Request::MoveLastEntryToYesterday)
    );
    assert_eq!(
        dispatch(&with(SubCommand::Init { path: Some(s("db")), config: None })),
        Ok(Request::Setup { config: None, path: Some(s("db")) })
    );
}

#[test]
fn no_arguments_are_too_few() {
    let args = Args { quiz: None, note: None, subcommand: None };
    assert_eq!(dispatch(&args), Err(Error::CLIParsing(ParsingCommandError::TooFewArguments)));
    let args = Args { quiz: None, note: Some(s("text")), subcommand: None };
    assert_eq!(dispatch(&args), Err(Error::CLIParsing(ParsingCommandError::TooFewArguments)));
}

#[test]
fn a_parsing_error_becomes_an_error() {
    assert_eq!(
        Error::from(ParsingCommandError::TooManyArguments),
        Error::CLIParsing(ParsingCommandError::TooManyArguments)
    );
    assert_eq!(
        Error::from(ParsingCommandError::CommandNotRecognized(s("x"))),
        Error::CLIParsing(ParsingCommandError::CommandNotRecognized(s("x")))
    );
}

#[test]
fn success_is_reported_in_words() {
    let message = |request: Request| success_message(&request);
    assert_eq!(
        message(Request::PostCategory { label: s("mood"), prompt: s("How?") }),
        Some(s("Success! Added category mood."))
    );
    assert_eq!(
        message(Request::PostChoice { label: s("Good"), shortcut: s("g"), category: s("mood") }),
        Some(s("Success! Added choice Good."))
    );
    assert_eq!(
        message(Request::PostQuiz { label: s("daily") }),
        Some(s("Success! Added quiz daily."))
    );
    assert_eq!(
        message(Request::LinkCategoryToQuiz { category: s("mood"), quiz: s("daily") }),
        Some(s("Success! Added category mood to quiz daily."))
    );
    assert_eq!(
        message(Request::UnlinkCategoryFromQuiz { category: s("mood"), quiz: s("daily") }),
        Some(s("Success! Added category mood to quiz daily."))
    );
    assert_eq!(
        message(Request::DisableChoice { category: s("mood"), choice: s("Good") }),
        Some(s("Success! Disabled choice Good."))
    );
    assert_eq!(
        message(Request::DisableCategory { category: s("mood") }),
        Some(s("Success! Disabled category mood."))
    );
    assert_eq!(
        message(Request::ToggleShowInStreaksForChoice { category: s("mood"), choice: s("Good") }),
        Some(s("Success! Toggled show_in_streaks for choice Good."))
    );
    assert_eq!(
        message(Request::ChangeTimerForChoice { choice: s("Good"), new_timer: Some(14) }),
        Some(s("Success! Changed timer for choice Good to 14 days."))
    );
    assert_eq!(
        message(Request::ChangeTimerForChoice { choice: s("Good"), new_timer: None }),
        Some(s("Success! Changed timer for choice Good to -1 days."))
    );
    assert_eq!(
        message(Request::MoveLastEntryToYesterday),
        Some(s("Success! Moved last entry to yesterday."))
    );
    assert_eq!(message(Request::GetAllCategories), None);
    assert_eq!(message(Request::RunQuiz { quiz: s("daily") }), None);
}

#[test]
fn lists_have_headings() {
    assert_eq!(list_heading(&Request::GetAllCategories), Some(s("Categories:")));
    assert_eq!(
        list_heading(&Request::GetCategoriesInQuiz { quiz: s("daily") }),
        Some(s("Categories in quiz daily:"))
    );
    assert_eq!(
        list_heading(&Request::GetChoicesInCategory { category: s("mood") }),
        Some(s("Choices in category mood:"))
    );
    assert_eq!(list_heading(&Request::GetAllQuizzes), None);
    assert_eq!(list_heading(&Request::MoveLastEntryToYesterday), None);
}

#[test]
fn a_note_is_an_entry_without_category_and_choice() {
    assert_eq!(
        add_note(s("remember the milk")),
        Ok(NewEntry { category: None, value: None, details: Some(s("remember the milk")) })
    );
    assert_eq!(
        add_note(s("")),
        Err(Error::InvalidInput(s("You must provide a message with this command.")))
    );
}

#[test]
fn the_words_of_a_note_are_joined_by_spaces() {
    assert_eq!(
        parse_note(&vec![s("remember"), s("the"), s("milk")]),
        Ok(NewEntry { category: None, value: None, details: Some(s("remember the milk")) })
    );
    assert_eq!(
        parse_note(&vec![s(""), s("")]),
        Ok(NewEntry { category: None, value: None, details: Some(s(" ")) })
    );
    assert_eq!(
        parse_note(&Vec::new()),
        Err(Error::InvalidInput(s("You must provide a message with this command.")))
    );
    assert_eq!(
        parse_note(&vec![s("")]),
        Err(Error::InvalidInput(s("You must provide a message with this command.")))
    );
}

#[test]
fn a_stored_note_is_reported() {
    assert_eq!(note_saved_message("milk"), "Success! Saved note:\nmilk");
}

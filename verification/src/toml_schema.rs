//! What a configuration file holds: the categories with their choices, and
//! the quizzes.

use vstd::prelude::*;

verus! {

/// The whole of a configuration.
#[derive(Debug, Clone)]
pub struct TomlData {
    /// The categories.
    pub categories: Vec<Category>,
    /// The quizzes.
    pub quizzes: Vec<Quiz>,
}

/// A category as the configuration gives it.
#[derive(Debug, Clone)]
pub struct Category {
    /// The label, unique among categories.
    pub label: String,
    /// The text that is shown.
    pub prompt: String,
    /// The choices of the category, where it has any.
    pub choices: Option<Vec<Choice>>,
    /// The tag of the category's type; 1 where none is given.
    pub question_type: Option<i32>,
    /// Free text about the category.
    pub extra_info: Option<String>,
    /// 1 where the category is shown in streaks.
    pub show_in_streaks: Option<i32>,
    /// The days after which the category is due again.
    pub reminder_timer_in_days: Option<i32>,
}

/// A choice as the configuration gives it.
#[derive(Debug, Clone)]
pub struct Choice {
    /// The short token that selects the choice.
    pub shortcut: String,
    /// The label of the choice.
    pub label: String,
    /// 1 where the choice is shown in streaks.
    pub show_in_streaks: Option<i32>,
    /// The days after which the choice is due again.
    pub reminder_timer_in_days: Option<i32>,
}

/// A quiz as the configuration gives it.
#[derive(Debug, Clone)]
pub struct Quiz {
    /// The command that runs the quiz; it is the label of the quiz too.
    pub command: String,
    /// The labels of the categories of the quiz, in order.
    pub categories: Vec<String>,
}

} // verus!

//! The records of the store as the library sees them.

use vstd::prelude::*;
use crate::timestamp::Timestamp;

verus! {

/// A prompt that is shown to the user.
#[derive(Debug, Clone)]
pub struct Category {
    /// The number under which the store keeps the category.
    pub id: i32,
    /// The label, unique among categories.
    pub label: String,
    /// The text that is shown.
    pub prompt: String,
    /// The tag of the category's type.
    pub category_type: i32,
    /// Not 0 where the category is disabled.
    pub disabled_bool: i32,
    /// Free text about the category.
    pub extra_info: Option<String>,
    /// 1 where the category is shown in streaks.
    pub show_in_streaks: i32,
    /// The days after which the category is due again.
    pub reminder_timer_in_days: Option<i32>,
}

/// One recorded answer.
#[derive(Debug, Clone)]
pub struct Entry {
    /// The number under which the store keeps the entry.
    pub id: i32,
    /// When the entry was made.
    pub timestamp: Timestamp,
    /// The category that was answered.
    pub category: Option<i32>,
    /// The choice that was selected.
    pub value: Option<i32>,
    /// The free text of the answer.
    pub details: Option<String>,
}

/// One answer that can be selected in a category.
#[derive(Debug, Clone)]
pub struct Choice {
    /// The number under which the store keeps the choice.
    pub id: i32,
    /// The label of the choice.
    pub label: String,
    /// The short token that selects the choice, unique in its category.
    pub shortcut: String,
    /// Not 0 where the choice is disabled.
    pub disabled_bool: i32,
    /// The label of the category that the choice belongs to.
    pub category_label: String,
    /// 1 where the choice is shown in streaks.
    pub show_in_streaks: i32,
    /// The days after which the choice is due again.
    pub reminder_timer_in_days: Option<i32>,
}

/// A quiz that is to be stored.
#[derive(Debug, Clone, PartialEq, Eq)]
pub struct NewQuiz {
    /// The label of the quiz.
    pub label: String,
    /// The command that runs the quiz.
    pub command: Option<String>,
}

/// A place of a category in a quiz that is to be stored.
#[derive(Debug, Clone, PartialEq, Eq)]
pub struct NewQuizToCategory {
    /// The label of the quiz.
    pub quiz_label: String,
    /// The label of the category.
    pub category_label: String,
    /// The place of the category among those of the quiz.
    pub order: i32,
}

/// A category that is to be stored.
#[derive(Debug, Clone, PartialEq, Eq)]
pub struct NewCategory {
    /// The label, unique among categories.
    pub label: String,
    /// The text that is shown.
    pub prompt: String,
    /// The tag of the category's type.
    pub category_type: i32,
    /// Free text about the category.
    pub extra_info: Option<String>,
    /// 1 where the category is shown in streaks.
    pub show_in_streaks: Option<i32>,
    /// The days after which the category is due again.
    pub reminder_timer_in_days: Option<i32>,
}

/// An answer that is to be stored.
#[derive(Debug, Clone, PartialEq, Eq)]
pub struct NewEntry {
    /// The category that was answered.
    pub category: Option<i32>,
    /// The choice that was selected.
    pub value: Option<i32>,
    /// The free text of the answer.
    pub details: Option<String>,
}

/// A choice that is to be stored.
#[derive(Debug, Clone, PartialEq, Eq)]
pub struct NewChoice {
    /// The label of the choice.
    pub label: String,
    /// The short token that selects the choice.
    pub shortcut: String,
    /// The label of the category that the choice belongs to.
    pub category_label: String,
    /// 1 where the choice is shown in streaks.
    pub show_in_streaks: Option<i32>,
    /// The days after which the choice is due again.
    pub reminder_timer_in_days: Option<i32>,
}

/// An entry together with the labels of its category and of its choice.
#[derive(Debug, Clone)]
pub struct EntryWithLabelsTuple(pub Entry, pub Option<String>, pub Option<String>);

} // verus!

//! From a configuration to the records that a new store is filled with.

use vstd::prelude::*;
use crate::errors::Error;
use crate::models::{NewCategory, NewChoice, NewQuiz, NewQuizToCategory};
use crate::text::{copy_text, opt_view};
use crate::toml_schema::{Category, Choice, Quiz, TomlData};

verus! {

/// The category type of a category for which the configuration names none.
pub const DEFAULT_CATEGORY_TYPE: i32 = 1;

/// The records that a new store is filled with.
#[derive(Debug, Clone)]
pub struct ObjectsToInsertFromSetup {
    /// One record for each category.
    pub categories: Vec<NewCategory>,
    /// One record for each choice of each category.
    pub alternatives: Vec<NewChoice>,
    /// One record for each quiz.
    pub quizzes: Vec<NewQuiz>,
    /// One record for each category of each quiz.
    pub quiz_to_cat: Vec<NewQuizToCategory>,
}

/// Whether `record` is the record of the category `source`.
pub open spec fn is_category_record(record: NewCategory, source: Category) -> bool {
    &&& record.label@ == source.label@
    &&& record.prompt@ == source.prompt@
    &&& record.category_type == match source.question_type {
        Some(tag) => tag,
        None => DEFAULT_CATEGORY_TYPE,
    }
    &&& opt_view(record.extra_info) == opt_view(source.extra_info)
    &&& record.show_in_streaks == source.show_in_streaks
    &&& record.reminder_timer_in_days == source.reminder_timer_in_days
}

/// Whether `record` is the record of the choice `source` of the category
/// with the label `category`.
pub open spec fn is_choice_record(record: NewChoice, category: Seq<char>, source: Choice) -> bool {
    &&& record.label@ == source.label@
    &&& record.shortcut@ == source.shortcut@
    &&& record.category_label@ == category
    &&& record.show_in_streaks == source.show_in_streaks
    &&& record.reminder_timer_in_days == source.reminder_timer_in_days
}

/// Whether `record` is the record of the quiz `source`.
pub open spec fn is_quiz_record(record: NewQuiz, source: Quiz) -> bool {
    &&& record.label@ == source.command@
    &&& opt_view(record.command) == Some(source.command@)
}

/// Whether `record` puts the category with the label `category` at the
/// place `order` of the quiz with the label `quiz`.
pub open spec fn is_link_record(record: NewQuizToCategory, quiz: Seq<char>, category: Seq<char>, order: int) -> bool {
    &&& record.quiz_label@ == quiz
    &&& record.category_label@ == category
    &&& record.order == order
}

/// The choices of a category as the configuration gives them.
pub open spec fn listed_choices(category: Category) -> Seq<Choice> {
    match category.choices {
        Some(choices) => choices@,
        None => Seq::empty(),
    }
}

/// All choices of `categories` in order, each with the label of its category.
pub open spec fn all_choices(categories: Seq<Category>) -> Seq<(Seq<char>, Choice)>
    decreases categories.len(),
{
    if categories.len() == 0 {
        Seq::empty()
    } else {
        let last = categories.last();
        all_choices(categories.drop_last()) + Seq::new(
            listed_choices(last).len(),
            |j: int| (last.label@, listed_choices(last)[j]),
        )
    }
}

/// All places of categories in `quizzes` in order: the label of the quiz,
/// the label of the category, and the place, counted from 0.
pub open spec fn all_links(quizzes: Seq<Quiz>) -> Seq<(Seq<char>, Seq<char>, int)>
    decreases quizzes.len(),
{
    if quizzes.len() == 0 {
        Seq::empty()
    } else {
        let last = quizzes.last();
        all_links(quizzes.drop_last()) + Seq::new(
            last.categories@.len(),
            |j: int| (last.command@, last.categories@[j]@, j),
        )
    }
}

/// Whether some quiz has more categories than an `i32` can count.
pub open spec fn too_many_links(quizzes: Seq<Quiz>) -> bool {
    exists|q: int| 0 <= q < quizzes.len() && (#[trigger] quizzes[q]).categories@.len() > i32::MAX + 1
}

/// Whether `objects` holds the records of the configuration `data`: one for
/// each category, choice, quiz and place of a category in a quiz, in the
/// order of the configuration.
pub open spec fn holds_records_of(objects: ObjectsToInsertFromSetup, data: TomlData) -> bool {
    let choices = all_choices(data.categories@);
    let links = all_links(data.quizzes@);
    &&& objects.categories@.len() == data.categories@.len()
    &&& forall|i: int|
        0 <= i < data.categories@.len() ==> is_category_record(
            #[trigger] objects.categories@[i],
            data.categories@[i],
        )
    &&& objects.alternatives@.len() == choices.len()
    &&& forall|i: int|
        0 <= i < choices.len() ==> is_choice_record(
            #[trigger] objects.alternatives@[i],
            choices[i].0,
            choices[i].1,
        )
    &&& objects.quizzes@.len() == data.quizzes@.len()
    &&& forall|i: int|
        0 <= i < data.quizzes@.len() ==> is_quiz_record(
            #[trigger] objects.quizzes@[i],
            data.quizzes@[i],
        )
    &&& objects.quiz_to_cat@.len() == links.len()
    &&& forall|i: int|
        0 <= i < links.len() ==> is_link_record(
            #[trigger] objects.quiz_to_cat@[i],
            links[i].0,
            links[i].1,
            links[i].2,
        )
}

/// The records that a new store is filled with from the configuration
/// `toml_data`.
///
/// It is an error if a quiz has more categories than an `i32` can count,
/// because the place of a category in its quiz is stored as an `i32`.
pub fn toml_to_db_query(toml_data: &TomlData) -> (result: Result<ObjectsToInsertFromSetup, Error>)
    ensures
        match result {
            Ok(objects) => !too_many_links(toml_data.quizzes@) && holds_records_of(
                objects,
                *toml_data,
            ),
            Err(error) => {
                &&& too_many_links(toml_data.quizzes@)
                &&& error matches Error::InvalidInput(message)
                &&& message@ == "A quiz has too many categories."@
            },
        },
{
    let mut result_questions: Vec<NewCategory> = Vec::new();
    let mut result_question_options: Vec<NewChoice> = Vec::new();
    let mut result_quizzes: Vec<NewQuiz> = Vec::new();
    let mut result_quiz_to_cat: Vec<NewQuizToCategory> = Vec::new();
    let ghost categories = toml_data.categories@;
    let ghost quizzes = toml_data.quizzes@;

    let mut i: usize = 0;
    while i < toml_data.categories.len()
        invariant
            i <= toml_data.categories.len(),
            categories == toml_data.categories@,
            result_questions@.len() == i,
            forall|k: int|
                0 <= k < i ==> is_category_record(#[trigger] result_questions@[k], categories[k]),
            result_question_options@.len() == all_choices(categories.take(i as int)).len(),
            forall|k: int|
                0 <= k < result_question_options@.len() ==> is_choice_record(
                    #[trigger] result_question_options@[k],
                    all_choices(categories.take(i as int))[k].0,
                    all_choices(categories.take(i as int))[k].1,
                ),
        decreases toml_data.categories.len() - i,
    {
        let question = &toml_data.categories[i];
        let category_type = match question.question_type {
            Some(tag) => tag,
            None => DEFAULT_CATEGORY_TYPE,
        };
        result_questions.push(
            NewCategory {
                label: question.label.clone(),
                prompt: question.prompt.clone(),
                category_type,
                extra_info: copy_text(&question.extra_info),
                show_in_streaks: question.show_in_streaks,
                reminder_timer_in_days: question.reminder_timer_in_days,
            },
        );
        let ghost before = all_choices(categories.take(i as int));
        proof {
            assert(categories.take(i + 1).drop_last() =~= categories.take(i as int));
            assert(categories.take(i + 1).last() == *question);
        }
        match &question.choices {
            None => {
                assert(all_choices(categories.take(i + 1)) =~= before);
            },
            Some(choices) => {
                let mut j: usize = 0;
                while j < choices.len()
                    invariant
                        j <= choices.len(),
                        choices@ == listed_choices(*question),
                        result_question_options@.len() == before.len() + j,
                        forall|k: int|
                            0 <= k < before.len() ==> is_choice_record(
                                #[trigger] result_question_options@[k],
                                before[k].0,
                                before[k].1,
                            ),
                        forall|k: int|
                            0 <= k < j ==> is_choice_record(
                                #[trigger] result_question_options@[before.len() + k],
                                question.label@,
                                choices@[k],
                            ),
                    decreases choices.len() - j,
                {
                    let choice = &choices[j];
                    result_question_options.push(
                        NewChoice {
                            label: choice.label.clone(),
                            shortcut: choice.shortcut.clone(),
                            category_label: question.label.clone(),
                            show_in_streaks: choice.show_in_streaks,
                            reminder_timer_in_days: choice.reminder_timer_in_days,
                        },
                    );
                    j += 1;
                }
                proof {
                    let after = all_choices(categories.take(i + 1));
                    assert(after.len() == before.len() + choices@.len());
                    assert forall|k: int| 0 <= k < after.len() implies is_choice_record(
                        #[trigger] result_question_options@[k],
                        after[k].0,
                        after[k].1,
                    ) by {
                        if k >= before.len() {
                            assert(result_question_options@[k] == result_question_options@[before.len()
                                + (k - before.len())]);
                        }
                    }
                }
            },
        }
        i += 1;
    }
    assert(categories.take(toml_data.categories.len() as int) =~= categories);

    let mut q: usize = 0;
    while q < toml_data.quizzes.len()
        invariant
            q <= toml_data.quizzes.len(),
            quizzes == toml_data.quizzes@,
            result_quizzes@.len() == q,
            forall|k: int| 0 <= k < q ==> is_quiz_record(#[trigger] result_quizzes@[k], quizzes[k]),
            forall|k: int| 0 <= k < q ==> (#[trigger] quizzes[k]).categories@.len() <= i32::MAX + 1,
            result_quiz_to_cat@.len() == all_links(quizzes.take(q as int)).len(),
            forall|k: int|
                0 <= k < result_quiz_to_cat@.len() ==> is_link_record(
                    #[trigger] result_quiz_to_cat@[k],
                    all_links(quizzes.take(q as int))[k].0,
                    all_links(quizzes.take(q as int))[k].1,
                    all_links(quizzes.take(q as int))[k].2,
                ),
        decreases toml_data.quizzes.len() - q,
    {
        let quiz = &toml_data.quizzes[q];
        if quiz.categories.len() > 2_147_483_648 {
            return Err(Error::InvalidInput("A quiz has too many categories.".to_owned()));
        }
        result_quizzes.push(
            NewQuiz { label: quiz.command.clone(), command: Some(quiz.command.clone()) },
        );
        let ghost before = all_links(quizzes.take(q as int));
        proof {
            assert(quizzes.take(q + 1).drop_last() =~= quizzes.take(q as int));
            assert(quizzes.take(q + 1).last() == *quiz);
        }
        let mut j: usize = 0;
        while j < quiz.categories.len()
            invariant
                j <= quiz.categories.len() <= i32::MAX + 1,
                result_quiz_to_cat@.len() == before.len() + j,
                forall|k: int|
                    0 <= k < before.len() ==> is_link_record(
                        #[trigger] result_quiz_to_cat@[k],
                        before[k].0,
                        before[k].1,
                        before[k].2,
                    ),
                forall|k: int|
                    0 <= k < j ==> is_link_record(
                        #[trigger] result_quiz_to_cat@[before.len() + k],
                        quiz.command@,
                        quiz.categories@[k]@,
                        k,
                    ),
            decreases quiz.categories.len() - j,
        {
            result_quiz_to_cat.push(
                NewQuizToCategory {
                    quiz_label: quiz.command.clone(),
                    category_label: quiz.categories[j].clone(),
                    order: j as i32,
                },
            );
            j += 1;
        }
        proof {
            let after = all_links(quizzes.take(q + 1));
            assert(after.len() == before.len() + quiz.categories@.len());
            assert forall|k: int| 0 <= k < after.len() implies is_link_record(
                #[trigger] result_quiz_to_cat@[k],
                after[k].0,
                after[k].1,
                after[k].2,
            ) by {
                if k >= before.len() {
                    assert(result_quiz_to_cat@[k] == result_quiz_to_cat@[before.len() + (k
                        - before.len())]);
                }
            }
        }
        q += 1;
    }
    assert(quizzes.take(toml_data.quizzes.len() as int) =~= quizzes);
    Ok(
        ObjectsToInsertFromSetup {
            categories: result_questions,
            alternatives: result_question_options,
            quizzes: result_quizzes,
            quiz_to_cat: result_quiz_to_cat,
        },
    )
}

} // verus!

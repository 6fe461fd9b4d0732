//! The decisions that stand between the calls of the store: how the rows of
//! a quiz become its prompts, which place a new category gets in a quiz,
//! whether a name is free, whether the store is empty.

use vstd::prelude::*;
use crate::errors::Error;
use crate::models::{Category, Choice};
use crate::session::Prompt;

verus! {

/// One row of a quiz as the store hands it over: a category and one of its
/// choices, or the category alone where it has no choice.
pub type QuizRow = (Category, Option<Choice>);

/// A prompt as a value: the category and the sequence of its choices.
pub type Group = (Category, Option<Seq<Choice>>);

/// The choices of a category after one more row of it: the choice of the row
/// is added to those found so far; a row without choice leaves none.
pub open spec fn merged(found: Option<Seq<Choice>>, choice: Option<Choice>) -> Option<Seq<Choice>> {
    match choice {
        Some(c) => match found {
            Some(choices) => Some(choices.push(c)),
            None => Some(seq![c]),
        },
        None => None,
    }
}

/// The index of the group of the category with the number `id`, or the
/// number of groups where there is none.
pub open spec fn group_index(groups: Seq<Group>, id: i32) -> int
    decreases groups.len(),
{
    if groups.len() == 0 {
        0
    } else if groups[0].0.id == id {
        0
    } else {
        1 + group_index(groups.drop_first(), id)
    }
}

/// The groups after one more row: the row is merged into the group of its
/// category, which keeps its place and its category; a category that is met
/// for the first time gets a new group at the end.
pub open spec fn with_row(groups: Seq<Group>, row: QuizRow) -> Seq<Group> {
    let at = group_index(groups, row.0.id);
    if at < groups.len() {
        groups.update(at, (groups[at].0, merged(groups[at].1, row.1)))
    } else {
        groups.push((row.0, merged(None, row.1)))
    }
}

/// The prompts that `rows` make: one for each category, in the order in
/// which the categories are first met, each with its choices in the order of
/// the rows. Categories are told apart by their number.
pub open spec fn grouped(rows: Seq<QuizRow>) -> Seq<Group>
    decreases rows.len(),
{
    if rows.len() == 0 {
        Seq::empty()
    } else {
        with_row(grouped(rows.drop_last()), rows.last())
    }
}

/// The values of a list of prompts.
pub open spec fn groups_of(prompts: Seq<Prompt>) -> Seq<Group> {
    Seq::new(
        prompts.len(),
        |i: int| (prompts[i].category, choice_seq(prompts[i].choices)),
    )
}

proof fn lemma_group_index(groups: Seq<Group>, id: i32, at: int)
    requires
        0 <= at <= groups.len(),
        forall|k: int| 0 <= k < at ==> (#[trigger] groups[k]).0.id != id,
        at < groups.len() ==> groups[at].0.id == id,
    ensures
        group_index(groups, id) == at,
    decreases at,
{
    if at > 0 {
        let rest = groups.drop_first();
        assert forall|k: int| 0 <= k < at - 1 implies (#[trigger] rest[k]).0.id != id by {
            assert(rest[k] == groups[k + 1]);
        }
        if at < groups.len() {
            assert(rest[at - 1] == groups[at]);
        }
        lemma_group_index(rest, id, at - 1);
    }
}

/// The value of an optional list of choices.
pub open spec fn choice_seq(choices: Option<Vec<Choice>>) -> Option<Seq<Choice>> {
    match choices {
        Some(list) => Some(list@),
        None => None,
    }
}

/// The choices of a category after one more row of it.
fn merge_choice(found: Option<Vec<Choice>>, choice: Option<Choice>) -> (next: Option<Vec<Choice>>)
    ensures
        choice_seq(next) == merged(choice_seq(found), choice),
{
    match choice {
        Some(c) => match found {
            Some(list) => {
                let mut list = list;
                list.push(c);
                Some(list)
            },
            None => {
                let mut list: Vec<Choice> = Vec::new();
                list.push(c);
                assert(list@ =~= seq![c]);
                Some(list)
            },
        },
        None => None,
    }
}

/// The rows from the last to the first.
fn backwards(rows: Vec<QuizRow>) -> (out: Vec<QuizRow>)
    ensures
        out@.len() == rows@.len(),
        forall|k: int| 0 <= k < rows@.len() ==> out@[k] == rows@[rows@.len() - 1 - k],
{
    let ghost all = rows@;
    let mut rows = rows;
    let mut out: Vec<QuizRow> = Vec::new();
    while rows.len() > 0
        invariant
            rows@.len() + out@.len() == all.len(),
            forall|k: int| 0 <= k < rows@.len() ==> rows@[k] == all[k],
            forall|k: int| 0 <= k < out@.len() ==> out@[k] == all[all.len() - 1 - k],
        decreases rows@.len(),
    {
        let row = rows.pop().unwrap();
        out.push(row);
    }
    out
}

/// The prompts of a quiz from its rows: one prompt for each category, in the
/// order in which the categories are first met, each with its choices in the
/// order of the rows.
pub fn categories_and_choices(rows: Vec<QuizRow>) -> (prompts: Vec<Prompt>)
    ensures
        groups_of(prompts@) == grouped(rows@),
{
    let mut prompts: Vec<Prompt> = Vec::new();
    let ghost all = rows@;
    let mut done: usize = 0;
    let total = rows.len();
    let mut rows = backwards(rows);
    assert(groups_of(prompts@) =~= grouped(all.take(0)));
    while done < total
        invariant
            done <= total == all.len(),
            rows@.len() == total - done,
            forall|k: int| 0 <= k < total - done ==> rows@[k] == all[total - 1 - k],
            groups_of(prompts@) == grouped(all.take(done as int)),
        decreases total - done,
    {
        let ghost before = groups_of(prompts@);
        let row = rows.pop().unwrap();
        assert(row == all[done as int]);
        proof {
            assert(all.take(done + 1).drop_last() =~= all.take(done as int));
            assert(all.take(done + 1).last() == row);
        }
        let (category, choice) = row;
        let mut at: usize = 0;
        while at < prompts.len() && prompts[at].category.id != category.id
            invariant
                at <= prompts.len(),
                forall|k: int| 0 <= k < at ==> (#[trigger] prompts@[k]).category.id != category.id,
            decreases prompts.len() - at,
        {
            at += 1;
        }
        proof {
            assert forall|k: int| 0 <= k < at implies (#[trigger] before[k]).0.id
                != category.id by {
                assert(before[k].0 == prompts@[k].category);
            }
            lemma_group_index(before, category.id, at as int);
        }
        let ghost old_prompts = prompts@;
        if at < prompts.len() {
            let mut found: Option<Vec<Choice>> = None;
            std::mem::swap(&mut found, &mut prompts[at].choices);
            assert(found == old_prompts[at as int].choices);
            let mut next = merge_choice(found, choice);
            let ghost merged_choices = next;
            std::mem::swap(&mut next, &mut prompts[at].choices);
            proof {
                let after = groups_of(prompts@);
                let expected = with_row(before, row);
                assert(prompts@.len() == old_prompts.len());
                assert(prompts@[at as int].choices == merged_choices);
                assert(prompts@[at as int].category == old_prompts[at as int].category);
                assert forall|k: int| 0 <= k < after.len() implies after[k] == expected[k] by {
                    if k != at {
                        assert(prompts@[k] == old_prompts[k]);
                    }
                }
                assert(after =~= expected);
            }
        } else {
            let choices = merge_choice(None, choice);
            prompts.push(Prompt { category, choices });
            proof {
                let after = groups_of(prompts@);
                let expected = with_row(before, row);
                assert forall|k: int| 0 <= k < after.len() implies after[k] == expected[k] by {
                    if k < old_prompts.len() {
                        assert(prompts@[k] == old_prompts[k]);
                    }
                }
                assert(after =~= expected);
            }
        }
        done += 1;
    }
    assert(all.take(total as int) =~= all);
    prompts
}

/// The place of a category that is put at the end of a quiz whose last
/// place is `last`: the place after it, or 1 where the quiz has no category
/// yet. None where that number is more than an `i32` holds.
pub fn next_link_order(last: Option<i32>) -> (next: Option<i32>)
    ensures
        match last {
            Some(order) => if order < i32::MAX {
                next == Some((order + 1) as i32)
            } else {
                next is None
            },
            None => next == Some(1i32),
        },
{
    match last {
        Some(order) => if order < i32::MAX {
            Some(order + 1)
        } else {
            None
        },
        None => Some(1),
    }
}

/// What is to get a new name.
#[derive(Debug, Clone, Copy, PartialEq, Eq, Structural)]
pub enum Renamed {
    /// A category.
    Category,
    /// A choice.
    Choice,
    /// A quiz.
    Quiz,
}

/// Decides whether a rename may go on: `existing` is the number of the
/// record that bears the new name already, if there is one. It is an error
/// if the name is taken.
pub fn check_name_is_free(what: Renamed, new_name: &str, existing: Option<i32>) -> (result: Result<
    (),
    Error,
>)
    ensures
        existing is None ==> result is Ok,
        existing is Some ==> match what {
            Renamed::Category => result matches Err(Error::CategoryAlreadyExists(name)) && name@
                == new_name@,
            Renamed::Choice => result matches Err(Error::ChoiceAlreadyExists(name)) && name@
                == new_name@,
            Renamed::Quiz => result matches Err(Error::QuizAlreadyExists(name)) && name@
                == new_name@,
        },
{
    match existing {
        None => Ok(()),
        Some(_) => match what {
            Renamed::Category => Err(Error::CategoryAlreadyExists(new_name.to_owned())),
            Renamed::Choice => Err(Error::ChoiceAlreadyExists(new_name.to_owned())),
            Renamed::Quiz => Err(Error::QuizAlreadyExists(new_name.to_owned())),
        },
    }
}

/// How counting the categories of the store ended.
#[derive(Debug, Clone, PartialEq, Eq)]
pub enum CountOutcome {
    /// The store holds this many categories.
    Rows(i64),
    /// The store reported an error of unknown kind, as it does where the
    /// table of categories does not exist.
    UnknownDatabaseError(String),
    /// Counting failed in another way.
    Failed(String),
}

/// Whether the store is empty and has to be set up: it holds no category, or
/// has no table of categories at all. Another failure is passed on.
pub fn is_database_empty(outcome: CountOutcome) -> (result: Result<bool, Error>)
    ensures
        match outcome {
            CountOutcome::Rows(n) => result == Ok::<bool, Error>(n == 0),
            CountOutcome::UnknownDatabaseError(_) => result == Ok::<bool, Error>(true),
            CountOutcome::Failed(message) => result == Err::<bool, Error>(
                Error::DatabaseError(message),
            ),
        },
{
    match outcome {
        CountOutcome::Rows(n) => Ok(n == 0),
        CountOutcome::UnknownDatabaseError(_) => Ok(true),
        CountOutcome::Failed(message) => Err(Error::DatabaseError(message)),
    }
}

} // verus!

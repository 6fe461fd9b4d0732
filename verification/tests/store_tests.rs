use jurnalo::errors::Error;
use jurnalo::models::{Category, Choice};
use jurnalo::store::{
    categories_and_choices, check_name_is_free, is_database_empty, next_link_order,
    CountOutcome, Renamed,
};

fn category(id: i32, label: &str) -> Category {
    Category {
        id,
        label: label.to_string(),
        prompt: format!("{}?", label),
        category_type: 1,
        disabled_bool: 0,
        extra_info: None,
        show_in_streaks: 0,
        reminder_timer_in_days: None,
    }
}

fn choice(id: i32, shortcut: &str) -> Choice {
    Choice {
        id,
        label: shortcut.to_uppercase(),
        shortcut: shortcut.to_string(),
        disabled_bool: 0,
        category_label: String::new(),
        show_in_streaks: 0,
        reminder_timer_in_days: None,
    }
}

fn shape(rows: Vec<(Category, Option<Choice>)>) -> Vec<(i32, String, Option<Vec<i32>>)> {
    categories_and_choices(rows)
        .into_iter()
        .map(|p| {
            (
                p.category.id,
                p.category.label,
                p.choices.map(|cs| cs.into_iter().map(|c| c.id).collect()),
            )
        })
        .collect()
}

#[test]
fn rows_are_grouped_by_category_in_the_order_of_the_rows() {
    let rows = vec![
        (category(30, "habits"), Some(choice(1, "m"))),
        (category(10, "mood"), Some(choice(2, "b"))),
        (category(30, "habits"), Some(choice(3, "w"))),
        (category(20, "notes"), None),
        (category(10, "mood"), Some(choice(4, "g"))),
    ];
    assert_eq!(
        shape(rows),
        vec![
            (30, "habits".to_string(), Some(vec![1, 3])),
            (10, "mood".to_string(), Some(vec![2, 4])),
            (20, "notes".to_string(), None),
        ]
    );
}

#[test]
fn no_rows_give_no_prompts() {
    assert_eq!(shape(Vec::new()), Vec::new());
}

#[test]
fn a_row_without_choice_leaves_its_category_without_choices() {
    let rows = vec![
        (category(1, "a"), Some(choice(1, "x"))),
        (category(1, "a"), None),
    ];
    assert_eq!(shape(rows), vec![(1, "a".to_string(), None)]);
    let rows = vec![
        (category(1, "a"), None),
        (category(1, "a"), Some(choice(2, "y"))),
    ];
    assert_eq!(shape(rows), vec![(1, "a".to_string(), Some(vec![2]))]);
}

#[test]
fn the_category_of_the_first_row_is_kept() {
    let rows = vec![
        (category(1, "first"), Some(choice(1, "x"))),
        (category(1, "second"), Some(choice(2, "y"))),
    ];
    assert_eq!(shape(rows), vec![(1, "first".to_string(), Some(vec![1, 2]))]);
}

#[test]
fn a_new_category_goes_after_the_last() {
    assert_eq!(next_link_order(None), Some(1));
    assert_eq!(next_link_order(Some(0)), Some(1));
    assert_eq!(next_link_order(Some(4)), Some(5));
    assert_eq!(next_link_order(Some(-3)), Some(-2));
    assert_eq!(next_link_order(Some(i32::MAX - 1)), Some(i32::MAX));
    assert_eq!(next_link_order(Some(i32::MAX)), None);
}

#[test]
fn a_free_name_may_be_taken() {
    assert_eq!(check_name_is_free(Renamed::Category, "new", None), Ok(()));
    assert_eq!(check_name_is_free(Renamed::Choice, "new", None), Ok(()));
    assert_eq!(check_name_is_free(Renamed::Quiz, "new", None), Ok(()));
}

#[test]
fn a_name_that_is_taken_is_refused() {
    assert_eq!(
        check_name_is_free(Renamed::Category, "new", Some(3)),
        Err(Error::CategoryAlreadyExists("new".to_string()))
    );
    assert_eq!(
        check_name_is_free(Renamed::Choice, "new", Some(3)),
        Err(Error::ChoiceAlreadyExists("new".to_string()))
    );
    assert_eq!(
        check_name_is_free(Renamed::Quiz, "new", Some(3)),
        Err(Error::QuizAlreadyExists("new".to_string()))
    );
}

#[test]
fn the_store_is_empty_without_categories() {
    assert_eq!(is_database_empty(CountOutcome::Rows(0)), Ok(true));
    assert_eq!(is_database_empty(CountOutcome::Rows(5)), Ok(false));
    assert_eq!(
        is_database_empty(CountOutcome::UnknownDatabaseError("no such table".to_string())),
        Ok(true)
    );
    assert_eq!(
        is_database_empty(CountOutcome::Failed("broken".to_string())),
        Err(Error::DatabaseError("broken".to_string()))
    );
}

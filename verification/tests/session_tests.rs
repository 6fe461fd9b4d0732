use jurnalo::errors::{Error, ParsingCommandError};
use jurnalo::models::{Category, Choice, NewEntry};
use jurnalo::session::{quiz_full, Phase, Prompt, QuizSession, SessionAction, SessionEvent};
use jurnalo::timestamp::Timestamp;

fn at(day: i32, second: u32) -> Timestamp {
    Timestamp::new(day, second, 0).unwrap()
}

fn category(id: i32, label: &str, prompt: &str) -> Category {
    Category {
        id,
        label: label.to_string(),
        prompt: prompt.to_string(),
        category_type: 1,
        disabled_bool: 0,
        extra_info: None,
        show_in_streaks: 0,
        reminder_timer_in_days: None,
    }
}

fn choice(id: i32, label: &str, shortcut: &str, interval: Option<i32>) -> Choice {
    Choice {
        id,
        label: label.to_string(),
        shortcut: shortcut.to_string(),
        disabled_bool: 0,
        category_label: "c".to_string(),
        show_in_streaks: 1,
        reminder_timer_in_days: interval,
    }
}

fn prompts() -> Vec<Prompt> {
    vec![
        Prompt {
            category: category(10, "mood", "How was your mood today?"),
            choices: Some(vec![choice(1, "Good", "g", None), choice(2, "Bad", "b", None)]),
        },
        Prompt { category: category(20, "notes", "Anything else?"), choices: None },
        Prompt {
            category: category(30, "habits", "What habits did you accomplish today?"),
            choices: Some(vec![
                choice(3, "Meditate", "M", Some(2)),
                choice(4, "Walk", "W", None),
                choice(5, "Read", "R", Some(7)),
            ]),
        },
    ]
}

fn entry(category: i32, value: Option<i32>, details: Option<&str>) -> NewEntry {
    NewEntry { category: Some(category), value, details: details.map(|d| d.to_string()) }
}

fn line(text: &str) -> SessionEvent {
    SessionEvent::LineRead(Ok(text.to_string()))
}

fn started() -> QuizSession {
    let (session, action) = quiz_full("daily");
    match action {
        SessionAction::FetchPrompts { quiz_label } => assert_eq!(quiz_label, "daily"),
        other => panic!("unexpected action {:?}", other),
    }
    assert_eq!(session.phase(), Phase::FetchingPrompts);
    session
}

fn expect_ask(action: SessionAction, prompt: &str, choices: Option<&str>) {
    match action {
        SessionAction::Ask { prompt: p, choices: c } => {
            assert_eq!(p, prompt);
            assert_eq!(c.as_deref(), choices);
        }
        other => panic!("unexpected action {:?}", other),
    }
}

fn expect_fetch(action: SessionAction, id: i32) {
    match action {
        SessionAction::FetchLatestTimestamp { choice_id } => assert_eq!(choice_id, id),
        other => panic!("unexpected action {:?}", other),
    }
}

fn through_the_habits(session: QuizSession, now: Timestamp) -> (QuizSession, SessionAction) {
    let (session, action) = session.step(SessionEvent::LatestTimestampFetched {
        now,
        latest: Ok(Some(at(now.day() - 1, 0))),
    });
    assert_eq!(session.phase(), Phase::Prompting);
    expect_fetch(action, 5);
    session.step(SessionEvent::LatestTimestampFetched { now, latest: Ok(None) })
}

#[test]
fn a_session_asks_every_prompt_and_submits_one_batch() {
    let now = at(20_000, 30_000);
    let session = started();
    assert!(session.expects(&SessionEvent::PromptsFetched(Ok(Vec::new()))));
    assert!(!session.expects(&line("x")));
    let (session, action) = session.step(SessionEvent::PromptsFetched(Ok(prompts())));
    assert_eq!(session.phase(), Phase::ReadingInput);
    expect_ask(action, "How was your mood today?", Some("[g] Good [b] Bad"));

    let (session, action) = session.step(line("  G b: long day \n"));
    assert_eq!(session.phase(), Phase::ReadingInput);
    expect_ask(action, "Anything else?", None);

    let (session, action) = session.step(line("slept badly\n"));
    assert_eq!(session.phase(), Phase::Prompting);
    expect_fetch(action, 3);

    let (session, action) = through_the_habits(session, now);
    assert_eq!(session.phase(), Phase::ReadingInput);
    expect_ask(
        action,
        "What habits did you accomplish today?",
        Some("[M] Meditate [W] Walk [R] *Read*"),
    );

    let (session, action) = session.step(line("w\n"));
    assert_eq!(session.phase(), Phase::Submitting);
    assert!(!session.has_ended());
    match action {
        SessionAction::Submit { summary, entries } => {
            assert_eq!(summary, "G b: long day | slept badly | w");
            assert_eq!(
                entries,
                vec![
                    entry(10, Some(1), Some("long day")),
                    entry(10, Some(2), Some("long day")),
                    entry(20, None, Some("slept badly")),
                    entry(30, Some(4), None),
                ]
            );
        }
        other => panic!("unexpected action {:?}", other),
    }

    let (session, action) = session.step(SessionEvent::EntriesSubmitted(Ok(())));
    assert_eq!(session.phase(), Phase::ReportingStreaks);
    assert!(matches!(action, SessionAction::FetchStreaks));

    let response = vec![("Walk".to_string(), Some(now)), ("Read".to_string(), None)];
    let (session, action) =
        session.step(SessionEvent::StreaksFetched { now, response: Ok(response) });
    assert_eq!(session.phase(), Phase::Done);
    assert!(session.has_ended());
    match action {
        SessionAction::Finish { table, passed_over } => {
            assert_eq!(passed_over, 0);
            let walk = format!("Walk  {}# \n", " ".repeat(12));
            let read = format!("Read  {}\n", " ".repeat(14));
            assert_eq!(
                table,
                Some(format!("{}6 5 4 3 2 1 0 \n{}{}", " ".repeat(6), walk, read))
            );
        }
        other => panic!("unexpected action {:?}", other),
    }
}

#[test]
fn blank_lines_give_an_empty_batch() {
    let now = at(20_000, 30_000);
    let session = started();
    let (session, _) = session.step(SessionEvent::PromptsFetched(Ok(prompts())));
    let (session, _) = session.step(line("\n"));
    let (session, _) = session.step(line("   \t \n"));
    let (session, _) = through_the_habits(session, now);
    let (session, action) = session.step(line(""));
    assert_eq!(session.phase(), Phase::Submitting);
    match action {
        SessionAction::Submit { summary, entries } => {
            assert_eq!(entries, Vec::<NewEntry>::new());
            assert_eq!(summary, " |  | ");
        }
        other => panic!("unexpected action {:?}", other),
    }
}

#[test]
fn a_quiz_without_prompts_is_not_found() {
    let session = started();
    let (session, action) = session.step(SessionEvent::PromptsFetched(Ok(Vec::new())));
    assert_eq!(session.phase(), Phase::QuizNotFound);
    assert!(session.has_ended());
    match action {
        SessionAction::Fail { error } => assert_eq!(
            error,
            Error::CLIParsing(ParsingCommandError::QuizNotFound("daily".to_string()))
        ),
        other => panic!("unexpected action {:?}", other),
    }
}

#[test]
fn a_failing_fetch_of_prompts_ends_the_session() {
    let session = started();
    let failure = Error::DatabaseError("no such table".to_string());
    let (session, action) = session.step(SessionEvent::PromptsFetched(Err(failure.clone())));
    assert_eq!(session.phase(), Phase::Failed);
    assert!(session.has_ended());
    match action {
        SessionAction::Fail { error } => assert_eq!(error, failure),
        other => panic!("unexpected action {:?}", other),
    }
}

#[test]
fn a_failing_read_ends_the_session() {
    let session = started();
    let (session, _) = session.step(SessionEvent::PromptsFetched(Ok(prompts())));
    let failure = Error::IO("stdin closed".to_string());
    let (session, action) = session.step(SessionEvent::LineRead(Err(failure.clone())));
    assert_eq!(session.phase(), Phase::Failed);
    match action {
        SessionAction::Fail { error } => assert_eq!(error, failure),
        other => panic!("unexpected action {:?}", other),
    }
    assert!(!session.expects(&line("x")));
}

#[test]
fn a_failing_look_at_the_history_ends_the_session() {
    let session = started();
    let (session, _) = session.step(SessionEvent::PromptsFetched(Ok(prompts())));
    let (session, _) = session.step(line("g"));
    let (session, action) = session.step(line(""));
    expect_fetch(action, 3);
    let failure = Error::DatabaseError("locked".to_string());
    let (session, action) = session.step(SessionEvent::LatestTimestampFetched {
        now: at(20_000, 0),
        latest: Err(failure.clone()),
    });
    assert_eq!(session.phase(), Phase::Failed);
    match action {
        SessionAction::Fail { error } => assert_eq!(error, failure),
        other => panic!("unexpected action {:?}", other),
    }
}

#[test]
fn a_refused_batch_fails_the_submission() {
    let session = started();
    let only = vec![Prompt { category: category(1, "n", "Notes?"), choices: None }];
    let (session, _) = session.step(SessionEvent::PromptsFetched(Ok(only)));
    let (session, action) = session.step(line("something"));
    match action {
        SessionAction::Submit { entries, .. } => {
            assert_eq!(entries, vec![entry(1, None, Some("something"))])
        }
        other => panic!("unexpected action {:?}", other),
    }
    let failure = Error::DatabaseError("disk full".to_string());
    let (session, action) = session.step(SessionEvent::EntriesSubmitted(Err(failure.clone())));
    assert_eq!(session.phase(), Phase::SubmissionFailed);
    assert!(session.has_ended());
    match action {
        SessionAction::Fail { error } => assert_eq!(error, failure),
        other => panic!("unexpected action {:?}", other),
    }
}

#[test]
fn a_failing_fetch_of_streaks_fails_the_session() {
    let session = started();
    let only = vec![Prompt { category: category(1, "n", "Notes?"), choices: None }];
    let (session, _) = session.step(SessionEvent::PromptsFetched(Ok(only)));
    let (session, _) = session.step(line(""));
    let (session, _) = session.step(SessionEvent::EntriesSubmitted(Ok(())));
    let failure = Error::DatabaseError("gone".to_string());
    let (session, action) = session.step(SessionEvent::StreaksFetched {
        now: at(20_000, 0),
        response: Err(failure.clone()),
    });
    assert_eq!(session.phase(), Phase::Failed);
    match action {
        SessionAction::Fail { error } => assert_eq!(error, failure),
        other => panic!("unexpected action {:?}", other),
    }
}

#[test]
fn without_labels_no_table_is_shown() {
    let session = started();
    let only = vec![Prompt { category: category(1, "n", "Notes?"), choices: None }];
    let (session, _) = session.step(SessionEvent::PromptsFetched(Ok(only)));
    let (session, _) = session.step(line(""));
    let (session, _) = session.step(SessionEvent::EntriesSubmitted(Ok(())));
    let (session, action) = session.step(SessionEvent::StreaksFetched {
        now: at(20_000, 0),
        response: Ok(Vec::new()),
    });
    assert_eq!(session.phase(), Phase::Done);
    match action {
        SessionAction::Finish { table, passed_over } => {
            assert_eq!(table, None);
            assert_eq!(passed_over, 0);
        }
        other => panic!("unexpected action {:?}", other),
    }
}

#[test]
fn a_category_with_an_empty_list_of_choices_shows_an_empty_line() {
    let session = started();
    let only = vec![Prompt { category: category(1, "n", "Notes?"), choices: Some(Vec::new()) }];
    let (_, action) = session.step(SessionEvent::PromptsFetched(Ok(only)));
    expect_ask(action, "Notes?", Some(""));
}

#[test]
fn a_due_choice_is_marked_in_the_prompt() {
    let now = at(20_000, 0);
    let session = started();
    let only = vec![Prompt {
        category: category(1, "h", "Habits?"),
        choices: Some(vec![choice(3, "Meditate", "M", Some(2)), choice(5, "Read", "R", Some(7))]),
    }];
    let (session, action) = session.step(SessionEvent::PromptsFetched(Ok(only)));
    expect_fetch(action, 3);
    let (session, action) = session.step(SessionEvent::LatestTimestampFetched {
        now,
        latest: Ok(Some(at(19_998, 0))),
    });
    expect_fetch(action, 5);
    let (_, action) = session.step(SessionEvent::LatestTimestampFetched {
        now,
        latest: Ok(Some(at(19_994, 0))),
    });
    expect_ask(action, "Habits?", Some("[M] *Meditate* [R] Read"));
}

#[test]
fn each_phase_awaits_its_own_event() {
    let session = started();
    let (session, _) = session.step(SessionEvent::PromptsFetched(Ok(prompts())));
    assert!(session.expects(&line("x")));
    assert!(!session.expects(&SessionEvent::PromptsFetched(Ok(Vec::new()))));
    assert!(!session.expects(&SessionEvent::EntriesSubmitted(Ok(()))));
    assert!(!session.expects(&SessionEvent::StreaksFetched {
        now: at(0, 0),
        response: Ok(Vec::new())
    }));
    assert!(!session.expects(&SessionEvent::LatestTimestampFetched {
        now: at(0, 0),
        latest: Ok(None)
    }));
}

#[test]
fn a_reading_after_now_is_reported_as_passed_over() {
    let now = at(20_000, 100);
    let session = started();
    let only = vec![Prompt { category: category(1, "n", "Notes?"), choices: None }];
    let (session, _) = session.step(SessionEvent::PromptsFetched(Ok(only)));
    let (session, _) = session.step(line(""));
    let (session, _) = session.step(SessionEvent::EntriesSubmitted(Ok(())));
    let response = vec![("Walk".to_string(), Some(at(20_000, 200)))];
    let (_, action) = session.step(SessionEvent::StreaksFetched { now, response: Ok(response) });
    match action {
        SessionAction::Finish { table, passed_over } => {
            assert_eq!(passed_over, 1);
            assert_eq!(
                table,
                Some(format!("{}6 5 4 3 2 1 0 \nWalk  {}\n", " ".repeat(6), " ".repeat(14)))
            );
        }
        other => panic!("unexpected action {:?}", other),
    }
}

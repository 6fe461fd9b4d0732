//! The quiz session engine: one run through the prompts of a quiz.
//!
//! The engine does no input or output of its own. It is a state machine: the
//! caller performs the action that the engine asks for and hands the outcome
//! back as an event, until the engine says that the session has ended.

use vstd::prelude::*;
use crate::errors::{Error, ParsingCommandError};
use crate::matcher::{
    each_trimmed, extract_shortcuts_from_input, input_tokens, is_blank,
    lemma_selected_ids_are_known, lowered, matched_detail, matched_ids, shortcut_views,
};
use crate::models::{Category, Choice, NewEntry};
use crate::reminder::{
    choice_is_due, choice_text, format_choice_and_shortcut, is_due, opt_instant,
};
use crate::streaks::{
    fetch_and_process_streaks, format_streaks_into_table, passed_over_count, readings,
    streak_report, STREAK_RANGE,
};
use crate::text::{
    copy_text, join_chars, joined, opt_view, string_from_chars, string_views, to_chars,
    trim_chars, trimmed, views,
};
use crate::timestamp::Timestamp;

verus! {

/// One prompt of a quiz: a category and the choices that belong to it.
#[derive(Debug, Clone)]
pub struct Prompt {
    /// The category that is asked.
    pub category: Category,
    /// The choices of the category, where it has any.
    pub choices: Option<Vec<Choice>>,
}

/// Where a session stands.
#[derive(Debug, Clone, Copy, PartialEq, Eq, Structural)]
pub enum Phase {
    /// The prompts of the quiz have been asked for.
    FetchingPrompts,
    /// The prompt of a category is being put together; the most recent use
    /// of one of its choices has been asked for.
    Prompting,
    /// A prompt has been shown and a line of input is awaited.
    ReadingInput,
    /// All categories are answered and the entries have been handed over.
    Submitting,
    /// The entries are stored and the streak data has been asked for.
    ReportingStreaks,
    /// The session has ended well.
    Done,
    /// The quiz has no prompt: the session has ended.
    QuizNotFound,
    /// The store did not take the entries: the session has ended and its
    /// answers are lost.
    SubmissionFailed,
    /// The store or the input failed: the session has ended.
    Failed,
}

/// What the engine asks its caller to do next.
#[derive(Debug, Clone)]
pub enum SessionAction {
    /// Fetch the ordered prompts of the quiz with this label.
    FetchPrompts { quiz_label: String },
    /// Fetch the time of the most recent entry that refers to this choice.
    FetchLatestTimestamp { choice_id: i32 },
    /// Show the prompt, then the line of choices where there is one, and
    /// read one line of input.
    Ask { prompt: String, choices: Option<String> },
    /// Show the summary of the answers and store the entries as one batch.
    Submit { summary: String, entries: Vec<NewEntry> },
    /// Fetch the uses of the choices that are shown in streaks.
    FetchStreaks,
    /// Show the table, where there is one, and warn of the readings that
    /// were passed over, where there are any: the session has ended well.
    Finish { table: Option<String>, passed_over: usize },
    /// Report the error: the session has ended.
    Fail { error: Error },
}

/// The outcome of an action.
#[derive(Debug)]
pub enum SessionEvent {
    /// The prompts of the quiz, in order, or why they could not be fetched.
    PromptsFetched(Result<Vec<Prompt>, Error>),
    /// The time of the most recent entry of the choice, if it has any, with
    /// the time at which this was asked; or why it could not be fetched.
    LatestTimestampFetched { now: Timestamp, latest: Result<Option<Timestamp>, Error> },
    /// The line that was read, or why none could be read.
    LineRead(Result<String, Error>),
    /// Whether the store took the entries.
    EntriesSubmitted(Result<(), Error>),
    /// The uses of the choices that are shown in streaks, with the time at
    /// which this was asked; or why they could not be fetched.
    StreaksFetched { now: Timestamp, response: Result<Vec<(String, Option<Timestamp>)>, Error> },
}

/// The mathematical value of an entry that is to be stored: category, choice
/// and free text.
pub type Answer = (Option<i32>, Option<i32>, Option<Seq<char>>);

/// The mathematical values of a list of entries.
pub open spec fn entry_views(entries: Seq<NewEntry>) -> Seq<Answer> {
    Seq::new(
        entries.len(),
        |i: int| (entries[i].category, entries[i].value, opt_view(entries[i].details)),
    )
}

/// The choices of a prompt; none where the category has no list of choices.
pub open spec fn choices_of(prompt: Prompt) -> Seq<Choice> {
    match prompt.choices {
        Some(choices) => choices@,
        None => Seq::empty(),
    }
}

/// The `(id, shortcut)` pairs of `choices`.
pub open spec fn shortcuts_of(choices: Seq<Choice>) -> Seq<(i32, Seq<char>)> {
    Seq::new(choices.len(), |i: int| (choices[i].id, choices[i].shortcut@))
}

/// The entries that one answer gives: one for each selected choice, all with
/// the same free text; one without choice where only free text was given;
/// none where nothing was given.
pub open spec fn entries_for(category: i32, ids: Seq<i32>, detail: Option<Seq<char>>) -> Seq<
    Answer,
> {
    if ids.len() > 0 {
        Seq::new(ids.len(), |i: int| (Some(category), Some(ids[i]), detail))
    } else if detail is Some {
        seq![(Some(category), None, detail)]
    } else {
        Seq::empty()
    }
}

/// The entries that `line`, trimmed already, gives as the answer to `prompt`.
pub open spec fn answer(prompt: Prompt, line: Seq<char>) -> Seq<Answer> {
    let shortcuts = shortcuts_of(choices_of(prompt));
    entries_for(prompt.category.id, matched_ids(line, shortcuts), matched_detail(line, shortcuts))
}

/// The entries that `lines` give, the line at each index taken as the answer
/// to the prompt at that index.
pub open spec fn answers(prompts: Seq<Prompt>, lines: Seq<Seq<char>>) -> Seq<Answer>
    decreases lines.len(),
{
    if lines.len() == 0 {
        Seq::empty()
    } else {
        answers(prompts, lines.drop_last()) + answer(prompts[lines.len() - 1], lines.last())
    }
}

/// The due flags once every choice that needs no look into the store is
/// settled: starting after the flags in `due`, each choice without reminder
/// interval is not due, up to the first choice that has an interval.
pub open spec fn settled(choices: Seq<Choice>, due: Seq<bool>) -> Seq<bool>
    decreases choices.len() - due.len(),
{
    if due.len() >= choices.len() {
        due
    } else if choices[due.len() as int].reminder_timer_in_days is None {
        settled(choices, due.push(false))
    } else {
        due
    }
}

/// How the choices are shown, each with its due flag.
pub open spec fn choice_texts(choices: Seq<Choice>, due: Seq<bool>) -> Seq<Seq<char>> {
    Seq::new(
        choices.len(),
        |i: int| choice_text(choices[i].shortcut@, choices[i].label@, due[i]),
    )
}

/// The line of choices of a prompt: the choices separated by spaces; none
/// where the category has no list of choices.
pub open spec fn choices_line(prompt: Prompt, due: Seq<bool>) -> Option<Seq<char>> {
    match prompt.choices {
        Some(choices) => Some(joined(choice_texts(choices@, due), seq![' '])),
        None => None,
    }
}

/// The summary of a session: its lines, separated by `" | "`.
pub open spec fn summary(lines: Seq<Seq<char>>) -> Seq<char> {
    joined(lines, seq![' ', '|', ' '])
}

/// The mathematical value of a session.
pub struct SessionView {
    /// Where the session stands.
    pub phase: Phase,
    /// The label of the quiz.
    pub label: Seq<char>,
    /// The prompts of the quiz, once they are fetched.
    pub prompts: Seq<Prompt>,
    /// The lines that were read, trimmed, one for each prompt answered so far.
    pub lines: Seq<Seq<char>>,
    /// The due flags of the leading choices of the prompt that is being put
    /// together or was shown last.
    pub due: Seq<bool>,
}

/// One run through the prompts of a quiz.
#[derive(Debug)]
pub struct QuizSession {
    quiz_label: String,
    phase: Phase,
    prompts: Vec<Prompt>,
    due: Vec<bool>,
    inputs: Vec<String>,
    entries: Vec<NewEntry>,
}

impl View for QuizSession {
    type V = SessionView;

    closed spec fn view(&self) -> SessionView {
        SessionView {
            phase: self.phase,
            label: self.quiz_label@,
            prompts: self.prompts@,
            lines: string_views(self.inputs@),
            due: self.due@,
        }
    }
}

/// Whether a session in the state `s` awaits `event`.
pub open spec fn awaits(s: SessionView, event: SessionEvent) -> bool {
    match event {
        SessionEvent::PromptsFetched(_) => s.phase == Phase::FetchingPrompts,
        SessionEvent::LatestTimestampFetched { .. } => s.phase == Phase::Prompting,
        SessionEvent::LineRead(_) => s.phase == Phase::ReadingInput,
        SessionEvent::EntriesSubmitted(_) => s.phase == Phase::Submitting,
        SessionEvent::StreaksFetched { .. } => s.phase == Phase::ReportingStreaks,
    }
}

/// Whether the session has ended in the state `s`.
pub open spec fn ended(s: SessionView) -> bool {
    s.phase == Phase::Done || s.phase == Phase::QuizNotFound || s.phase == Phase::SubmissionFailed
        || s.phase == Phase::Failed
}

/// What a session does when it turns to its next prompt with the due flags
/// `due` known: it settles the choices that need no look into the store;
/// then it asks for the most recent use of the first choice that has a
/// reminder interval, or, where no such choice is left, shows the prompt.
pub open spec fn turns_to_prompt(next: SessionView, action: SessionAction, due: Seq<bool>) -> bool {
    let prompt = next.prompts[next.lines.len() as int];
    let choices = choices_of(prompt);
    &&& next.lines.len() < next.prompts.len()
    &&& next.due == settled(choices, due)
    &&& if next.due.len() < choices.len() {
        &&& next.phase == Phase::Prompting
        &&& action == (SessionAction::FetchLatestTimestamp {
            choice_id: choices[next.due.len() as int].id,
        })
    } else {
        &&& next.phase == Phase::ReadingInput
        &&& action matches SessionAction::Ask { prompt: text, choices: line }
        &&& text@ == prompt.category.prompt@
        &&& opt_view(line) == choices_line(prompt, next.due)
    }
}

/// Whether `next` and `action` are what a session in the state `s` makes of
/// `event`.
pub open spec fn follows(s: SessionView, event: SessionEvent, next: SessionView, action: SessionAction) -> bool {
    &&& next.label == s.label
    &&& match event {
        SessionEvent::PromptsFetched(Err(error)) => {
            &&& next.phase == Phase::Failed
            &&& action == (SessionAction::Fail { error })
        },
        SessionEvent::PromptsFetched(Ok(prompts)) => {
            if prompts@.len() == 0 {
                &&& next.phase == Phase::QuizNotFound
                &&& action matches SessionAction::Fail {
                    error: Error::CLIParsing(ParsingCommandError::QuizNotFound(label)),
                }
                &&& label@ == s.label
            } else {
                &&& next.prompts == prompts@
                &&& next.lines.len() == 0
                &&& turns_to_prompt(next, action, Seq::empty())
            }
        },
        SessionEvent::LatestTimestampFetched { now, latest: Err(error) } => {
            &&& next.phase == Phase::Failed
            &&& action == (SessionAction::Fail { error })
        },
        SessionEvent::LatestTimestampFetched { now, latest: Ok(latest) } => {
            let choice = choices_of(s.prompts[s.lines.len() as int])[s.due.len() as int];
            &&& next.prompts == s.prompts
            &&& next.lines == s.lines
            &&& turns_to_prompt(
                next,
                action,
                s.due.push(is_due(choice.reminder_timer_in_days, now@, opt_instant(latest))),
            )
        },
        SessionEvent::LineRead(Err(error)) => {
            &&& next.phase == Phase::Failed
            &&& action == (SessionAction::Fail { error })
        },
        SessionEvent::LineRead(Ok(line)) => {
            &&& next.prompts == s.prompts
            &&& next.lines == s.lines.push(trimmed(line@))
            &&& if next.lines.len() < next.prompts.len() {
                turns_to_prompt(next, action, Seq::empty())
            } else {
                &&& next.phase == Phase::Submitting
                &&& action matches SessionAction::Submit { summary: text, entries }
                &&& text@ == summary(next.lines)
                &&& entry_views(entries@) == answers(next.prompts, next.lines)
            }
        },
        SessionEvent::EntriesSubmitted(Err(error)) => {
            &&& next.phase == Phase::SubmissionFailed
            &&& action == (SessionAction::Fail { error })
        },
        SessionEvent::EntriesSubmitted(Ok(_)) => {
            &&& next.phase == Phase::ReportingStreaks
            &&& action == SessionAction::FetchStreaks
        },
        SessionEvent::StreaksFetched { now, response: Err(error) } => {
            &&& next.phase == Phase::Failed
            &&& action == (SessionAction::Fail { error })
        },
        SessionEvent::StreaksFetched { now, response: Ok(response) } => {
            &&& next.phase == Phase::Done
            &&& action matches SessionAction::Finish { table, passed_over }
            &&& opt_view(table) == streak_report(now@, STREAK_RANGE as int, readings(response@))
            &&& passed_over == passed_over_count(now@, STREAK_RANGE as int, readings(response@))
        },
    }
}

/// The `(id, shortcut)` pairs of the choices of `prompt`.
fn prompt_shortcuts(prompt: &Prompt) -> (out: Vec<(i32, String)>)
    ensures
        shortcut_views(out@) == shortcuts_of(choices_of(*prompt)),
{
    let mut out: Vec<(i32, String)> = Vec::new();
    match &prompt.choices {
        Some(choices) => {
            let mut i: usize = 0;
            while i < choices.len()
                invariant
                    i <= choices.len(),
                    out.len() == i,
                    forall|k: int|
                        0 <= k < i ==> out@[k].0 == choices@[k].id && out@[k].1@
                            == choices@[k].shortcut@,
                decreases choices.len() - i,
            {
                out.push((choices[i].id, choices[i].shortcut.clone()));
                i += 1;
            }
        },
        None => {},
    }
    assert(shortcut_views(out@) =~= shortcuts_of(choices_of(*prompt)));
    out
}

/// Appends to `entries` the entries that an answer gives.
fn accumulate(
    entries: &mut Vec<NewEntry>,
    category: i32,
    ids: Option<Vec<i32>>,
    detail: Option<String>,
)
    requires
        ids matches Some(v) ==> v@.len() > 0,
    ensures
        entry_views(final(entries)@) == entry_views(old(entries)@) + entries_for(
            category,
            match ids {
                Some(v) => v@,
                None => Seq::empty(),
            },
            opt_view(detail),
        ),
{
    let ghost before = entry_views(entries@);
    match ids {
        Some(chosen) => {
            let mut i: usize = 0;
            assert(entry_views(entries@) =~= before + Seq::new(
                0,
                |k: int| (Some(category), Some(chosen@[k]), opt_view(detail)),
            ));
            while i < chosen.len()
                invariant
                    i <= chosen.len(),
                    chosen@.len() > 0,
                    entry_views(entries@) == before + Seq::new(
                        i as nat,
                        |k: int| (Some(category), Some(chosen@[k]), opt_view(detail)),
                    ),
                decreases chosen.len() - i,
            {
                let ghost so_far = entry_views(entries@);
                entries.push(
                    NewEntry {
                        category: Some(category),
                        value: Some(chosen[i]),
                        details: copy_text(&detail),
                    },
                );
                assert(entry_views(entries@) =~= so_far.push(
                    (Some(category), Some(chosen@[i as int]), opt_view(detail)),
                ));
                i += 1;
                assert(entry_views(entries@) =~= before + Seq::new(
                    i as nat,
                    |k: int| (Some(category), Some(chosen@[k]), opt_view(detail)),
                ));
            }
            assert(entry_views(entries@) =~= before + entries_for(
                category,
                chosen@,
                opt_view(detail),
            ));
        },
        None => {
            if detail.is_some() {
                entries.push(NewEntry { category: Some(category), value: None, details: detail });
                assert(entry_views(entries@) =~= before.push(
                    (Some(category), None, opt_view(detail)),
                ));
            }
            assert(entry_views(entries@) =~= before + entries_for(
                category,
                Seq::empty(),
                opt_view(detail),
            ));
        },
    }
}

/// The line of choices of `prompt`.
fn render_choices(prompt: &Prompt, due: &Vec<bool>) -> (line: Option<String>)
    requires
        due@.len() == choices_of(*prompt).len(),
    ensures
        opt_view(line) == choices_line(*prompt, due@),
{
    match &prompt.choices {
        Some(choices) => {
            let mut texts: Vec<Vec<char>> = Vec::new();
            let mut i: usize = 0;
            while i < choices.len()
                invariant
                    i <= choices.len(),
                    due@.len() == choices@.len(),
                    texts.len() == i,
                    forall|k: int|
                        0 <= k < i ==> texts@[k]@ == choice_text(
                            choices@[k].shortcut@,
                            choices@[k].label@,
                            due@[k],
                        ),
                decreases choices.len() - i,
            {
                let text = format_choice_and_shortcut(&choices[i], due[i]);
                texts.push(to_chars(text.as_str()));
                i += 1;
            }
            assert(views(texts@) =~= choice_texts(choices@, due@));
            let space: Vec<char> = vec![' '];
            assert(space@ =~= seq![' ']);
            let line = join_chars(&texts, &space);
            Some(string_from_chars(&line))
        },
        None => None,
    }
}

/// The summary of the lines that were read.
fn render_summary(inputs: &Vec<String>) -> (text: String)
    ensures
        text@ == summary(string_views(inputs@)),
{
    let mut lines: Vec<Vec<char>> = Vec::new();
    let mut i: usize = 0;
    while i < inputs.len()
        invariant
            i <= inputs.len(),
            lines.len() == i,
            forall|k: int| 0 <= k < i ==> lines@[k]@ == inputs@[k]@,
        decreases inputs.len() - i,
    {
        lines.push(to_chars(inputs[i].as_str()));
        i += 1;
    }
    assert(views(lines@) =~= string_views(inputs@));
    let bar: Vec<char> = vec![' ', '|', ' '];
    assert(bar@ =~= seq![' ', '|', ' ']);
    let text = join_chars(&lines, &bar);
    string_from_chars(&text)
}

impl QuizSession {
    #[verifier::type_invariant]
    spec fn well_formed(self) -> bool {
        match self.phase {
            Phase::FetchingPrompts => self.prompts@.len() == 0 && self.inputs@.len() == 0
                && self.entries@.len() == 0 && self.due@.len() == 0,
            Phase::Prompting => self.collecting() && self.due@.len() < self.current_choices().len()
                && self.current_choices()[self.due@.len() as int].reminder_timer_in_days is Some,
            Phase::ReadingInput => self.collecting(),
            _ => true,
        }
    }

    /// Whether the session is among its prompts and holds the entries of the
    /// lines read so far.
    spec fn collecting(self) -> bool {
        &&& self.inputs@.len() < self.prompts@.len()
        &&& entry_views(self.entries@) == answers(self.prompts@, string_views(self.inputs@))
    }

    /// The choices of the prompt that the session has turned to.
    spec fn current_choices(self) -> Seq<Choice> {
        choices_of(self.prompts@[self.inputs@.len() as int])
    }

    /// Where the session stands.
    pub fn phase(&self) -> (phase: Phase)
        ensures
            phase == self@.phase,
    {
        self.phase
    }

    /// Whether the session has ended.
    pub fn has_ended(&self) -> (over: bool)
        ensures
            over == ended(self@),
    {
        match self.phase {
            Phase::Done => true,
            Phase::QuizNotFound => true,
            Phase::SubmissionFailed => true,
            Phase::Failed => true,
            _ => false,
        }
    }

    /// Whether the session awaits `event`.
    pub fn expects(&self, event: &SessionEvent) -> (awaited: bool)
        ensures
            awaited == awaits(self@, *event),
    {
        match event {
            SessionEvent::PromptsFetched(_) => self.phase == Phase::FetchingPrompts,
            SessionEvent::LatestTimestampFetched { .. } => self.phase == Phase::Prompting,
            SessionEvent::LineRead(_) => self.phase == Phase::ReadingInput,
            SessionEvent::EntriesSubmitted(_) => self.phase == Phase::Submitting,
            SessionEvent::StreaksFetched { .. } => self.phase == Phase::ReportingStreaks,
        }
    }

    /// Ends the session with `error`.
    fn fail(quiz_label: String, phase: Phase, error: Error) -> (out: (QuizSession, SessionAction))
        requires
            phase == Phase::Failed || phase == Phase::SubmissionFailed || phase
                == Phase::QuizNotFound,
        ensures
            out.0@.phase == phase,
            out.0@.label == quiz_label@,
            out.1 == (SessionAction::Fail { error }),
    {
        (
            QuizSession {
                quiz_label,
                phase,
                prompts: Vec::new(),
                due: Vec::new(),
                inputs: Vec::new(),
                entries: Vec::new(),
            },
            SessionAction::Fail { error },
        )
    }

    /// Turns to the prompt after the lines read so far.
    fn open_prompt(
        quiz_label: String,
        prompts: Vec<Prompt>,
        due: Vec<bool>,
        inputs: Vec<String>,
        entries: Vec<NewEntry>,
    ) -> (out: (QuizSession, SessionAction))
        requires
            inputs@.len() < prompts@.len(),
            due@.len() <= choices_of(prompts@[inputs@.len() as int]).len(),
            entry_views(entries@) == answers(prompts@, string_views(inputs@)),
        ensures
            out.0@.label == quiz_label@,
            out.0@.prompts == prompts@,
            out.0@.lines == string_views(inputs@),
            turns_to_prompt(out.0@, out.1, due@),
    {
        let ghost choices = choices_of(prompts@[inputs@.len() as int]);
        let ghost known = due@;
        let mut due = due;
        let at = inputs.len();
        let mut pending: Option<i32> = None;
        match &prompts[at].choices {
            Some(list) => {
                while due.len() < list.len() && pending.is_none()
                    invariant
                        list@ == choices,
                        due@.len() <= choices.len(),
                        settled(choices, known) == settled(choices, due@),
                        pending matches Some(id) ==> due@.len() < choices.len()
                            && choices[due@.len() as int].reminder_timer_in_days is Some && id
                            == choices[due@.len() as int].id,
                    decreases
                            choices.len() - due@.len() + if pending is None {
                                1int
                            } else {
                                0int
                            },
                {
                    if list[due.len()].reminder_timer_in_days.is_none() {
                        due.push(false);
                    } else {
                        pending = Some(list[due.len()].id);
                    }
                }
            },
            None => {},
        }
        match pending {
            Some(choice_id) => {
                (
                    QuizSession {
                        quiz_label,
                        phase: Phase::Prompting,
                        prompts,
                        due,
                        inputs,
                        entries,
                    },
                    SessionAction::FetchLatestTimestamp { choice_id },
                )
            },
            None => {
                let prompt = prompts[at].category.prompt.clone();
                let line = render_choices(&prompts[at], &due);
                (
                    QuizSession {
                        quiz_label,
                        phase: Phase::ReadingInput,
                        prompts,
                        due,
                        inputs,
                        entries,
                    },
                    SessionAction::Ask { prompt, choices: line },
                )
            },
        }
    }

    /// Takes the outcome of the action that the session asked for last, and
    /// says what is to be done next.
    ///
    /// The prompts are asked in the order in which they were fetched. A line
    /// of input gives the entries of its category; they are handed over in one
    /// batch when the last category is answered, also where the batch is
    /// empty. An error of the store or of the input ends the session at once.
    pub fn step(self, event: SessionEvent) -> (out: (QuizSession, SessionAction))
        requires
            awaits(self@, event),
        ensures
            follows(self@, event, out.0@, out.1),
    {
        proof {
            use_type_invariant(&self);
        }
        let ghost before = self@;
        let QuizSession { quiz_label, phase, prompts, due, inputs, entries } = self;
        match event {
            SessionEvent::PromptsFetched(Err(error)) => Self::fail(
                quiz_label,
                Phase::Failed,
                error,
            ),
            SessionEvent::PromptsFetched(Ok(fetched)) => {
                if fetched.len() == 0 {
                    let label = quiz_label.clone();
                    Self::fail(
                        quiz_label,
                        Phase::QuizNotFound,
                        Error::CLIParsing(ParsingCommandError::QuizNotFound(label)),
                    )
                } else {
                    assert(string_views(inputs@) =~= Seq::<Seq<char>>::empty());
                    assert(entry_views(entries@) =~= answers(fetched@, string_views(inputs@)));
                    Self::open_prompt(quiz_label, fetched, Vec::new(), inputs, entries)
                }
            },
            SessionEvent::LatestTimestampFetched { now, latest: Err(error) } => Self::fail(
                quiz_label,
                Phase::Failed,
                error,
            ),
            SessionEvent::LatestTimestampFetched { now, latest: Ok(latest) } => {
                let mut due = due;
                let flag = match &prompts[inputs.len()].choices {
                    Some(list) => choice_is_due(&list[due.len()], &now, latest),
                    None => false,
                };
                due.push(flag);
                Self::open_prompt(quiz_label, prompts, due, inputs, entries)
            },
            SessionEvent::LineRead(Err(error)) => Self::fail(quiz_label, Phase::Failed, error),
            SessionEvent::LineRead(Ok(line)) => {
                let mut inputs = inputs;
                let mut entries = entries;
                let ghost lines = string_views(inputs@);
                let input = string_from_chars(&trim_chars(&to_chars(line.as_str())));
                let at = inputs.len();
                let shortcuts = prompt_shortcuts(&prompts[at]);
                let found = extract_shortcuts_from_input(input.clone(), shortcuts);
                accumulate(&mut entries, prompts[at].category.id, found.0, found.1);
                inputs.push(input);
                proof {
                    let grown = string_views(inputs@);
                    assert(grown =~= lines.push(trimmed(line@)));
                    assert(grown.drop_last() =~= lines);
                }
                if inputs.len() < prompts.len() {
                    Self::open_prompt(quiz_label, prompts, Vec::new(), inputs, entries)
                } else {
                    let text = render_summary(&inputs);
                    (
                        QuizSession {
                            quiz_label,
                            phase: Phase::Submitting,
                            prompts,
                            due: Vec::new(),
                            inputs,
                            entries: Vec::new(),
                        },
                        SessionAction::Submit { summary: text, entries },
                    )
                }
            },
            SessionEvent::EntriesSubmitted(Err(error)) => Self::fail(
                quiz_label,
                Phase::SubmissionFailed,
                error,
            ),
            SessionEvent::EntriesSubmitted(Ok(_)) => (
                QuizSession {
                    quiz_label,
                    phase: Phase::ReportingStreaks,
                    prompts,
                    due,
                    inputs,
                    entries,
                },
                SessionAction::FetchStreaks,
            ),
            SessionEvent::StreaksFetched { now, response: Err(error) } => Self::fail(
                quiz_label,
                Phase::Failed,
                error,
            ),
            SessionEvent::StreaksFetched { now, response: Ok(response) } => {
                let (shown, passed_over) = fetch_and_process_streaks(&now, &response);
                let table = format_streaks_into_table(&shown);
                (
                    QuizSession { quiz_label, phase: Phase::Done, prompts, due, inputs, entries },
                    SessionAction::Finish { table, passed_over },
                )
            },
        }
    }
}

/// Starts a session on the quiz with the label `quiz_name`: the first thing
/// to do is to fetch its prompts.
pub fn quiz_full(quiz_name: &str) -> (out: (QuizSession, SessionAction))
    requires
        quiz_name@.len() > 0,
    ensures
        out.0@ == (SessionView {
            phase: Phase::FetchingPrompts,
            label: quiz_name@,
            prompts: Seq::empty(),
            lines: Seq::empty(),
            due: Seq::empty(),
        }),
        out.1 matches SessionAction::FetchPrompts { quiz_label } && quiz_label@ == quiz_name@,
{
    let session = QuizSession {
        quiz_label: quiz_name.to_owned(),
        phase: Phase::FetchingPrompts,
        prompts: Vec::new(),
        due: Vec::new(),
        inputs: Vec::new(),
        entries: Vec::new(),
    };
    assert(session@.lines =~= Seq::<Seq<char>>::empty());
    (session, SessionAction::FetchPrompts { quiz_label: quiz_name.to_owned() })
}

/// A session in which every prompt is answered with a blank line hands
/// over an empty batch: no line that is blank gives an entry, whatever the
/// prompts and their choices are.
pub proof fn lemma_blank_session_submits_nothing(prompts: Seq<Prompt>, raw_lines: Seq<Seq<char>>)
    requires
        forall|i: int| 0 <= i < raw_lines.len() ==> is_blank(#[trigger] raw_lines[i]),
    ensures
        answers(prompts, each_trimmed(raw_lines)).len() == 0,
        answers(prompts, raw_lines).len() == 0,
    decreases raw_lines.len(),
{
    if raw_lines.len() > 0 {
        let before = raw_lines.drop_last();
        lemma_blank_session_submits_nothing(prompts, before);
        assert(each_trimmed(raw_lines).drop_last() =~= each_trimmed(before));
        assert(is_blank(raw_lines.last()));
    }
}

/// No entry is empty, and none strays from its prompt: every entry that a
/// line gives bears the category of the prompt, has a choice or free text,
/// and its choice, if it has one, is a choice of that prompt.
pub proof fn lemma_entries_belong_to_their_prompt(prompt: Prompt, line: Seq<char>, i: int)
    requires
        0 <= i < answer(prompt, line).len(),
    ensures
        answer(prompt, line)[i].0 == Some(prompt.category.id),
        answer(prompt, line)[i].1 is Some || answer(prompt, line)[i].2 is Some,
        answer(prompt, line)[i].1 matches Some(id) ==> exists|j: int|
            0 <= j < choices_of(prompt).len() && (#[trigger] choices_of(prompt)[j]).id == id,
{
    let shortcuts = shortcuts_of(choices_of(prompt));
    let ids = matched_ids(line, shortcuts);
    if ids.len() > 0 {
        lemma_selected_ids_are_known(input_tokens(line), lowered(shortcuts), i);
        let j = choose|j: int|
            0 <= j < lowered(shortcuts).len() && (#[trigger] lowered(shortcuts)[j]).0 == ids[i];
        assert(choices_of(prompt)[j].id == shortcuts[j].0);
    }
}


} // verus!

//! The quick note: free text that is stored as an entry of its own.

use vstd::prelude::*;
use vstd::string::StringExecFns;
use crate::errors::Error;
use crate::models::NewEntry;
use crate::text::{join_chars, joined, string_from_chars, string_views, to_chars, views};

verus! {

/// What [`add_note`] returns.
pub open spec fn note_result(note: Seq<char>, result: Result<NewEntry, Error>) -> bool {
    if note.len() == 0 {
        &&& result matches Err(Error::InvalidInput(message))
        &&& message@ == "You must provide a message with this command."@
    } else {
        &&& result matches Ok(entry)
        &&& entry.category is None
        &&& entry.value is None
        &&& entry.details matches Some(text)
        &&& text@ == note
    }
}

/// The entry that stores `note`: it has neither category nor choice. It is an
/// error if the note is empty.
pub fn add_note(note: String) -> (result: Result<NewEntry, Error>)
    ensures
        note_result(note@, result),
{
    if note.as_str().unicode_len() == 0 {
        return Err(
            Error::InvalidInput("You must provide a message with this command.".to_owned()),
        );
    }
    Ok(NewEntry { category: None, value: None, details: Some(note) })
}

/// The entry that stores the words of `content` as one note, the words
/// separated by spaces. It is an error if that note is empty.
pub fn parse_note(content: &Vec<String>) -> (result: Result<NewEntry, Error>)
    ensures
        note_result(joined(string_views(content@), seq![' ']), result),
{
    let mut words: Vec<Vec<char>> = Vec::new();
    let mut i: usize = 0;
    while i < content.len()
        invariant
            i <= content.len(),
            words.len() == i,
            forall|k: int| 0 <= k < i ==> words@[k]@ == content@[k]@,
        decreases content.len() - i,
    {
        words.push(to_chars(content[i].as_str()));
        i += 1;
    }
    assert(views(words@) =~= string_views(content@));
    let space: Vec<char> = vec![' '];
    assert(space@ =~= seq![' ']);
    let message = join_chars(&words, &space);
    add_note(string_from_chars(&message))
}

/// What is shown when `note` has been stored.
pub fn note_saved_message(note: &str) -> (message: String)
    ensures
        message@ == "Success! Saved note:\n"@ + note@,
{
    let mut message = String::from_str("Success! Saved note:\n");
    message.append(note);
    message
}

} // verus!

//! The shortcut matcher: splits one line of input into the choices it selects
//! and the free text that remains.

use vstd::prelude::*;
use crate::text::{
    copy_range, join_chars, joined, lowercase, lowercase_chars, opt_view,
    split_chars, split_on, str_to_lowercase, string_from_chars, string_views, to_chars,
    trim_chars, trimmed, views,
};

verus! {

/// The views of a list of `(id, shortcut)` pairs.
pub open spec fn shortcut_views(shortcuts: Seq<(i32, String)>) -> Seq<(i32, Seq<char>)> {
    Seq::new(shortcuts.len(), |i: int| (shortcuts[i].0, shortcuts[i].1@))
}

/// The id of the first shortcut whose text is exactly `token`, if there is one.
pub open spec fn lookup(token: Seq<char>, shortcuts: Seq<(i32, Seq<char>)>) -> Option<i32>
    decreases shortcuts.len(),
{
    if shortcuts.len() == 0 {
        None
    } else if shortcuts[0].1 == token {
        Some(shortcuts[0].0)
    } else {
        lookup(token, shortcuts.drop_first())
    }
}

/// The ids that `tokens` select, one for each token that is a shortcut, in the
/// order of the tokens. A token that occurs twice selects twice.
pub open spec fn selected(tokens: Seq<Seq<char>>, shortcuts: Seq<(i32, Seq<char>)>) -> Seq<i32>
    decreases tokens.len(),
{
    if tokens.len() == 0 {
        Seq::empty()
    } else {
        let before = selected(tokens.drop_last(), shortcuts);
        match lookup(tokens.last(), shortcuts) {
            Some(id) => before.push(id),
            None => before,
        }
    }
}

/// The tokens that are no shortcut, in order.
pub open spec fn unknown(tokens: Seq<Seq<char>>, shortcuts: Seq<(i32, Seq<char>)>) -> Seq<
    Seq<char>,
>
    decreases tokens.len(),
{
    if tokens.len() == 0 {
        Seq::empty()
    } else {
        let before = unknown(tokens.drop_last(), shortcuts);
        match lookup(tokens.last(), shortcuts) {
            Some(_) => before,
            None => before.push(tokens.last()),
        }
    }
}

/// How a piece of the shortcut section is compared: lowercased, then trimmed.
pub open spec fn normalized(piece: Seq<char>) -> Seq<char> {
    trimmed(lowercase(piece))
}

/// The non-empty normalized forms of `pieces`, in order.
pub open spec fn tokens_of(pieces: Seq<Seq<char>>) -> Seq<Seq<char>>
    decreases pieces.len(),
{
    if pieces.len() == 0 {
        Seq::empty()
    } else {
        let before = tokens_of(pieces.drop_last());
        let token = normalized(pieces.last());
        if token.len() == 0 {
            before
        } else {
            before.push(token)
        }
    }
}

/// The shortcuts with their texts lowercased.
pub open spec fn lowered(shortcuts: Seq<(i32, Seq<char>)>) -> Seq<(i32, Seq<char>)> {
    Seq::new(shortcuts.len(), |i: int| (shortcuts[i].0, lowercase(shortcuts[i].1)))
}

/// Each of `parts` trimmed.
pub open spec fn each_trimmed(parts: Seq<Seq<char>>) -> Seq<Seq<char>> {
    Seq::new(parts.len(), |i: int| trimmed(parts[i]))
}

/// The separator put between colon-delimited parts of the detail section.
pub open spec fn colon_separator() -> Seq<char> {
    seq![' ', ':', ' ']
}

/// The separator put between detail fragments.
pub open spec fn fragment_separator() -> Seq<char> {
    seq![';', ' ']
}

/// The separator put between unknown tokens.
pub open spec fn token_separator() -> Seq<char> {
    seq![' ']
}

/// The detail fragments: the colon-delimited detail first, if it is not empty,
/// then the unknown tokens joined by spaces, if there are any.
pub open spec fn fragments(detail: Seq<char>, unknown_tokens: Seq<Seq<char>>) -> Seq<Seq<char>> {
    let first = if detail.len() > 0 {
        seq![detail]
    } else {
        Seq::<Seq<char>>::empty()
    };
    if unknown_tokens.len() > 0 {
        first.push(joined(unknown_tokens, token_separator()))
    } else {
        first
    }
}

/// The free text of an answer: the fragments joined by `"; "`, or nothing when
/// there is no fragment.
pub open spec fn detail_text(detail: Seq<char>, unknown_tokens: Seq<Seq<char>>) -> Option<
    Seq<char>,
> {
    let parts = fragments(detail, unknown_tokens);
    if parts.len() == 0 {
        None
    } else {
        Some(joined(parts, fragment_separator()))
    }
}

/// The trimmed parts of `input` between colons.
pub open spec fn sections(input: Seq<char>) -> Seq<Seq<char>> {
    each_trimmed(split_on(input, ':'))
}

/// The tokens of the shortcut section of `input`.
pub open spec fn input_tokens(input: Seq<char>) -> Seq<Seq<char>> {
    tokens_of(split_on(sections(input)[0], ' '))
}

/// The detail section of `input`: what follows the first colon, its parts
/// trimmed and put together again with `" : "`.
pub open spec fn input_detail(input: Seq<char>) -> Seq<char> {
    joined(sections(input).skip(1), colon_separator())
}

/// Whether `input` holds nothing but whitespace.
pub open spec fn is_blank(input: Seq<char>) -> bool {
    trimmed(input).len() == 0
}

/// The ids that `input` selects among `shortcuts`; empty for a blank input.
pub open spec fn matched_ids(input: Seq<char>, shortcuts: Seq<(i32, Seq<char>)>) -> Seq<i32> {
    if is_blank(input) {
        Seq::empty()
    } else {
        selected(input_tokens(input), lowered(shortcuts))
    }
}

/// The free text that `input` leaves; none for a blank input.
pub open spec fn matched_detail(input: Seq<char>, shortcuts: Seq<(i32, Seq<char>)>) -> Option<
    Seq<char>,
> {
    if is_blank(input) {
        None
    } else {
        detail_text(input_detail(input), unknown(input_tokens(input), lowered(shortcuts)))
    }
}

proof fn lemma_lookup_skip(token: Seq<char>, shortcuts: Seq<(i32, Seq<char>)>, i: int)
    requires
        0 <= i <= shortcuts.len(),
        forall|k: int| 0 <= k < i ==> shortcuts[k].1 != token,
    ensures
        lookup(token, shortcuts) == lookup(token, shortcuts.skip(i)),
    decreases i,
{
    if i == 0 {
        assert(shortcuts.skip(0) =~= shortcuts);
    } else {
        assert(shortcuts.drop_first().skip(i - 1) =~= shortcuts.skip(i));
        lemma_lookup_skip(token, shortcuts.drop_first(), i - 1);
    }
}

/// The id of the first of `shortcuts` whose text is exactly `token`.
pub fn find_shortcut(token: &String, shortcuts: &Vec<(i32, String)>) -> (found: Option<i32>)
    ensures
        found == lookup(token@, shortcut_views(shortcuts@)),
{
    let ghost all = shortcut_views(shortcuts@);
    let mut i: usize = 0;
    while i < shortcuts.len()
        invariant
            i <= shortcuts.len(),
            all == shortcut_views(shortcuts@),
            forall|k: int| 0 <= k < i ==> all[k].1 != token@,
        decreases shortcuts.len() - i,
    {
        if shortcuts[i].1 == *token {
            proof {
                lemma_lookup_skip(token@, all, i as int);
                assert(all.skip(i as int)[0] == all[i as int]);
            }
            return Some(shortcuts[i].0);
        }
        i += 1;
    }
    proof {
        lemma_lookup_skip(token@, all, all.len() as int);
    }
    None
}

/// Sorts `tokens` into the ids they select and the tokens that select nothing.
///
/// Tokens and shortcut texts are compared as they are given: the caller has
/// already brought both to the form in which they are to be compared.
pub fn select_shortcuts(tokens: &Vec<String>, shortcuts: &Vec<(i32, String)>) -> (found: (
    Vec<i32>,
    Vec<String>,
))
    ensures
        found.0@ == selected(string_views(tokens@), shortcut_views(shortcuts@)),
        string_views(found.1@) == unknown(string_views(tokens@), shortcut_views(shortcuts@)),
{
    let ghost all = string_views(tokens@);
    let ghost known = shortcut_views(shortcuts@);
    let mut ids: Vec<i32> = Vec::new();
    let mut rest: Vec<String> = Vec::new();
    let mut i: usize = 0;
    while i < tokens.len()
        invariant
            i <= tokens.len(),
            all == string_views(tokens@),
            known == shortcut_views(shortcuts@),
            ids@ == selected(all.take(i as int), known),
            string_views(rest@) == unknown(all.take(i as int), known),
        decreases tokens.len() - i,
    {
        proof {
            let next = all.take(i + 1);
            assert(next.drop_last() =~= all.take(i as int));
            assert(next.last() == tokens@[i as int]@);
        }
        match find_shortcut(&tokens[i], shortcuts) {
            Some(id) => {
                ids.push(id);
            },
            None => {
                let ghost before = string_views(rest@);
                rest.push(tokens[i].clone());
                assert(string_views(rest@) =~= before.push(tokens@[i as int]@));
            },
        }
        i += 1;
    }
    assert(all.take(tokens.len() as int) =~= all);
    (ids, rest)
}

/// The shortcuts with their texts lowercased.
pub fn lowercase_shortcuts(shortcuts: &Vec<(i32, String)>) -> (out: Vec<(i32, String)>)
    ensures
        shortcut_views(out@) == lowered(shortcut_views(shortcuts@)),
{
    let mut out: Vec<(i32, String)> = Vec::new();
    let mut i: usize = 0;
    while i < shortcuts.len()
        invariant
            i <= shortcuts.len(),
            out.len() == i,
            forall|k: int|
                0 <= k < i ==> out@[k].0 == shortcuts@[k].0 && out@[k].1@ == lowercase(
                    shortcuts@[k].1@,
                ),
        decreases shortcuts.len() - i,
    {
        let lower = str_to_lowercase(shortcuts[i].1.as_str());
        out.push((shortcuts[i].0, lower));
        i += 1;
    }
    assert(shortcut_views(out@) =~= lowered(shortcut_views(shortcuts@)));
    out
}

/// The non-empty normalized forms of `pieces`, in order.
pub fn normalize_tokens(pieces: &Vec<Vec<char>>) -> (out: Vec<String>)
    ensures
        string_views(out@) == tokens_of(views(pieces@)),
{
    let ghost all = views(pieces@);
    let mut out: Vec<String> = Vec::new();
    let mut i: usize = 0;
    while i < pieces.len()
        invariant
            i <= pieces.len(),
            all == views(pieces@),
            string_views(out@) == tokens_of(all.take(i as int)),
        decreases pieces.len() - i,
    {
        proof {
            let next = all.take(i + 1);
            assert(next.drop_last() =~= all.take(i as int));
            assert(next.last() == pieces@[i as int]@);
        }
        let lower = lowercase_chars(&pieces[i]);
        let token = trim_chars(&lower);
        if token.len() > 0 {
            let ghost before = string_views(out@);
            out.push(string_from_chars(&token));
            assert(string_views(out@) =~= before.push(token@));
        }
        i += 1;
    }
    assert(all.take(pieces.len() as int) =~= all);
    out
}

/// Puts the free text of an answer together from the colon-delimited detail
/// and the tokens that selected nothing.
pub fn assemble_details(detail: &Vec<char>, unknown_tokens: &Vec<String>) -> (text: Option<String>)
    ensures
        opt_view(text) == detail_text(detail@, string_views(unknown_tokens@)),
{
    let mut parts: Vec<Vec<char>> = Vec::new();
    if detail.len() > 0 {
        parts.push(copy_range(detail, 0, detail.len()));
        assert(detail@.subrange(0, detail.len() as int) =~= detail@);
    }
    assert(views(parts@) =~= if detail@.len() > 0 {
        seq![detail@]
    } else {
        Seq::<Seq<char>>::empty()
    });
    if unknown_tokens.len() > 0 {
        let mut words: Vec<Vec<char>> = Vec::new();
        let mut i: usize = 0;
        while i < unknown_tokens.len()
            invariant
                i <= unknown_tokens.len(),
                words.len() == i,
                forall|k: int| 0 <= k < i ==> words@[k]@ == unknown_tokens@[k]@,
            decreases unknown_tokens.len() - i,
        {
            words.push(to_chars(unknown_tokens[i].as_str()));
            i += 1;
        }
        assert(views(words@) =~= string_views(unknown_tokens@));
        let space: Vec<char> = vec![' '];
        assert(space@ =~= token_separator());
        let ghost before = views(parts@);
        let line = join_chars(&words, &space);
        parts.push(line);
        assert(views(parts@) =~= before.push(line@));
    }
    assert(views(parts@) =~= fragments(detail@, string_views(unknown_tokens@)));
    if parts.len() == 0 {
        None
    } else {
        let separator: Vec<char> = vec![';', ' '];
        assert(separator@ =~= fragment_separator());
        let text = join_chars(&parts, &separator);
        Some(string_from_chars(&text))
    }
}

/// Splits one line of input into the ids of the choices it selects and the
/// free text that remains.
///
/// What stands before the first colon is read as shortcuts separated by
/// spaces, compared without regard to case; what follows is detail. A token
/// that is no shortcut is kept as text, after the detail. A blank line gives
/// neither ids nor text.
pub fn extract_shortcuts_from_input(user_input: String, shortcuts: Vec<(i32, String)>) -> (found:
    (Option<Vec<i32>>, Option<String>))
    ensures
        match found.0 {
            Some(ids) => ids@.len() > 0 && ids@ == matched_ids(
                user_input@,
                shortcut_views(shortcuts@),
            ),
            None => matched_ids(user_input@, shortcut_views(shortcuts@)).len() == 0,
        },
        opt_view(found.1) == matched_detail(user_input@, shortcut_views(shortcuts@)),
        is_blank(user_input@) ==> found.0 is None && found.1 is None,
{
    let chars = to_chars(user_input.as_str());
    if trim_chars(&chars).len() == 0 {
        return (None, None);
    }
    let raw_parts = split_chars(&chars, ':');
    let mut parts: Vec<Vec<char>> = Vec::new();
    let mut i: usize = 0;
    while i < raw_parts.len()
        invariant
            i <= raw_parts.len(),
            parts.len() == i,
            forall|k: int| 0 <= k < i ==> parts@[k]@ == trimmed(raw_parts@[k]@),
        decreases raw_parts.len() - i,
    {
        parts.push(trim_chars(&raw_parts[i]));
        i += 1;
    }
    assert(views(parts@) =~= sections(user_input@));

    let mut detail_parts: Vec<Vec<char>> = Vec::new();
    let mut j: usize = 1;
    while j < parts.len()
        invariant
            1 <= j <= parts.len(),
            detail_parts.len() == j - 1,
            forall|k: int| 0 <= k < j - 1 ==> detail_parts@[k]@ == parts@[k + 1]@,
        decreases parts.len() - j,
    {
        detail_parts.push(copy_range(&parts[j], 0, parts[j].len()));
        assert(parts@[j as int]@.subrange(0, parts@[j as int]@.len() as int) =~= parts@[j as int]@);
        j += 1;
    }
    assert(views(detail_parts@) =~= views(parts@).skip(1));
    let colon: Vec<char> = vec![' ', ':', ' '];
    assert(colon@ =~= colon_separator());
    let detail = join_chars(&detail_parts, &colon);

    let pieces = split_chars(&parts[0], ' ');
    let tokens = normalize_tokens(&pieces);
    let lowered_shortcuts = lowercase_shortcuts(&shortcuts);
    let (ids, unknown_tokens) = select_shortcuts(&tokens, &lowered_shortcuts);
    let text = assemble_details(&detail, &unknown_tokens);
    if ids.len() == 0 {
        (None, text)
    } else {
        (Some(ids), text)
    }
}

/// A token selects the same choice however its letters are cased: two pieces
/// of input with the same lowercase form are looked up alike.
pub proof fn lemma_case_variants_select_alike(
    a: Seq<char>,
    b: Seq<char>,
    shortcuts: Seq<(i32, Seq<char>)>,
)
    requires
        lowercase(a) == lowercase(b),
    ensures
        lookup(normalized(a), lowered(shortcuts)) == lookup(normalized(b), lowered(shortcuts)),
        tokens_of(seq![a]) == tokens_of(seq![b]),
        selected(tokens_of(seq![a]), lowered(shortcuts)) == selected(
            tokens_of(seq![b]),
            lowered(shortcuts),
        ),
{
    assert(seq![a].drop_last() =~= Seq::<Seq<char>>::empty());
    assert(seq![b].drop_last() =~= Seq::<Seq<char>>::empty());
    assert(seq![a].last() == a);
    assert(seq![b].last() == b);
    assert(tokens_of(seq![a].drop_last()) == Seq::<Seq<char>>::empty());
    assert(tokens_of(seq![b].drop_last()) == Seq::<Seq<char>>::empty());
}

/// Selection does not depend on case in the shortcut section as a whole:
/// two runs of pieces that agree piece by piece in lowercase form give the
/// same tokens, and so select the same ids and leave the same unknown tokens.
pub proof fn lemma_selection_ignores_case(
    a: Seq<Seq<char>>,
    b: Seq<Seq<char>>,
    shortcuts: Seq<(i32, Seq<char>)>,
)
    requires
        a.len() == b.len(),
        forall|i: int| 0 <= i < a.len() ==> lowercase(a[i]) == lowercase(b[i]),
    ensures
        tokens_of(a) == tokens_of(b),
        selected(tokens_of(a), lowered(shortcuts)) == selected(tokens_of(b), lowered(shortcuts)),
        unknown(tokens_of(a), lowered(shortcuts)) == unknown(tokens_of(b), lowered(shortcuts)),
    decreases a.len(),
{
    if a.len() > 0 {
        lemma_selection_ignores_case(a.drop_last(), b.drop_last(), shortcuts);
    }
}

/// Selection does not depend on the case in which the shortcuts themselves
/// are written.
pub proof fn lemma_shortcut_case_is_ignored(
    known: Seq<(i32, Seq<char>)>,
    other: Seq<(i32, Seq<char>)>,
)
    requires
        known.len() == other.len(),
        forall|i: int|
            0 <= i < known.len() ==> known[i].0 == other[i].0 && lowercase(known[i].1)
                == lowercase(other[i].1),
    ensures
        lowered(known) == lowered(other),
{
    assert(lowered(known) =~= lowered(other));
}

/// The matcher is blind to case: two lines of input, neither of them blank,
/// whose shortcut sections agree piece by piece in lowercase form select the
/// same ids, also against shortcuts that differ in case only.
pub proof fn lemma_matching_ignores_case(
    a: Seq<char>,
    b: Seq<char>,
    known: Seq<(i32, Seq<char>)>,
    other: Seq<(i32, Seq<char>)>,
)
    requires
        !is_blank(a),
        !is_blank(b),
        split_on(sections(a)[0], ' ').len() == split_on(sections(b)[0], ' ').len(),
        forall|i: int|
            0 <= i < split_on(sections(a)[0], ' ').len() ==> lowercase(
                #[trigger] split_on(sections(a)[0], ' ')[i],
            ) == lowercase(split_on(sections(b)[0], ' ')[i]),
        known.len() == other.len(),
        forall|i: int|
            0 <= i < known.len() ==> (#[trigger] known[i]).0 == other[i].0 && lowercase(
                known[i].1,
            ) == lowercase(other[i].1),
    ensures
        matched_ids(a, known) == matched_ids(b, other),
{
    lemma_shortcut_case_is_ignored(known, other);
    lemma_selection_ignores_case(
        split_on(sections(a)[0], ' '),
        split_on(sections(b)[0], ' '),
        known,
    );
}


/// Whatever a token selects is the id of one of the shortcuts.
pub proof fn lemma_lookup_finds_a_shortcut(token: Seq<char>, shortcuts: Seq<(i32, Seq<char>)>)
    ensures
        lookup(token, shortcuts) matches Some(id) ==> exists|j: int|
            0 <= j < shortcuts.len() && (#[trigger] shortcuts[j]).0 == id && shortcuts[j].1
                == token,
    decreases shortcuts.len(),
{
    if shortcuts.len() > 0 {
        if shortcuts[0].1 == token {
        } else {
            lemma_lookup_finds_a_shortcut(token, shortcuts.drop_first());
            if lookup(token, shortcuts) is Some {
                let rest = shortcuts.drop_first();
                let j = choose|j: int|
                    0 <= j < rest.len() && (#[trigger] rest[j]).0 == lookup(token, shortcuts)->0
                        && rest[j].1 == token;
                assert(shortcuts[j + 1] == rest[j]);
            }
        }
    }
}

/// Every id that a line of input selects is the id of one of the shortcuts
/// it was matched against.
pub proof fn lemma_selected_ids_are_known(
    tokens: Seq<Seq<char>>,
    shortcuts: Seq<(i32, Seq<char>)>,
    i: int,
)
    requires
        0 <= i < selected(tokens, shortcuts).len(),
    ensures
        exists|j: int| 0 <= j < shortcuts.len() && (#[trigger] shortcuts[j]).0 == selected(
            tokens,
            shortcuts,
        )[i],
    decreases tokens.len(),
{
    if tokens.len() > 0 {
        let before = selected(tokens.drop_last(), shortcuts);
        if i < before.len() {
            lemma_selected_ids_are_known(tokens.drop_last(), shortcuts, i);
        } else {
            lemma_lookup_finds_a_shortcut(tokens.last(), shortcuts);
        }
    }
}


} // verus!

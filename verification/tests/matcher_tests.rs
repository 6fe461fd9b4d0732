use jurnalo::matcher::{
    assemble_details, extract_shortcuts_from_input, find_shortcut, lowercase_shortcuts,
    normalize_tokens, select_shortcuts,
};

fn shortcuts(pairs: &[(i32, &str)]) -> Vec<(i32, String)> {
    pairs.iter().map(|(id, s)| (*id, s.to_string())).collect()
}

fn chars(s: &str) -> Vec<char> {
    s.chars().collect()
}

fn strings(items: &[&str]) -> Vec<String> {
    items.iter().map(|s| s.to_string()).collect()
}

#[test]
fn selects_two_choices_and_keeps_the_detail() {
    let found = extract_shortcuts_from_input(
        "a b: details".to_string(),
        shortcuts(&[(1, "a"), (2, "b")]),
    );
    assert_eq!(found.0, Some(vec![1, 2]));
    assert_eq!(found.1, Some("details".to_string()));
}

#[test]
fn unknown_token_is_kept_after_the_colon_detail() {
    let found = extract_shortcuts_from_input("zz: note".to_string(), shortcuts(&[(1, "a")]));
    assert_eq!(found.0, None);
    assert_eq!(found.1, Some("note; zz".to_string()));
}

#[test]
fn empty_input_gives_nothing() {
    let found = extract_shortcuts_from_input(String::new(), shortcuts(&[(1, "a"), (2, "b")]));
    assert_eq!(found, (None, None));
    let found = extract_shortcuts_from_input(String::new(), Vec::new());
    assert_eq!(found, (None, None));
}

#[test]
fn blank_input_gives_nothing() {
    let found = extract_shortcuts_from_input("  \t ".to_string(), shortcuts(&[(1, "a")]));
    assert_eq!(found, (None, None));
}

#[test]
fn case_variants_select_the_same_id() {
    let known = shortcuts(&[(7, "m"), (8, "Run")]);
    let lower = extract_shortcuts_from_input("m run".to_string(), known.clone());
    let upper = extract_shortcuts_from_input("M RUN".to_string(), known.clone());
    let mixed = extract_shortcuts_from_input("m rUn".to_string(), known);
    assert_eq!(lower.0, Some(vec![7, 8]));
    assert_eq!(upper.0, lower.0);
    assert_eq!(mixed.0, lower.0);
    assert_eq!(lower.1, None);
    assert_eq!(upper.1, None);
}

#[test]
fn shortcut_case_does_not_matter_beyond_ascii() {
    let found = extract_shortcuts_from_input("é".to_string(), shortcuts(&[(3, "É")]));
    assert_eq!(found.0, Some(vec![3]));
    assert_eq!(found.1, None);
}

#[test]
fn a_token_given_twice_selects_twice() {
    let found = extract_shortcuts_from_input("a a b a".to_string(), shortcuts(&[(1, "a"), (2, "b")]));
    assert_eq!(found.0, Some(vec![1, 1, 2, 1]));
    assert_eq!(found.1, None);
}

#[test]
fn the_first_of_two_equal_shortcuts_wins() {
    let found = extract_shortcuts_from_input("a".to_string(), shortcuts(&[(5, "a"), (6, "A")]));
    assert_eq!(found.0, Some(vec![5]));
}

#[test]
fn further_colons_stay_in_the_detail() {
    let found = extract_shortcuts_from_input(
        "a: first :second:  third ".to_string(),
        shortcuts(&[(1, "a")]),
    );
    assert_eq!(found.0, Some(vec![1]));
    assert_eq!(found.1, Some("first : second : third".to_string()));
}

#[test]
fn an_empty_detail_is_dropped() {
    let found = extract_shortcuts_from_input("a:".to_string(), shortcuts(&[(1, "a")]));
    assert_eq!(found.0, Some(vec![1]));
    assert_eq!(found.1, None);
    let found = extract_shortcuts_from_input("a:   ".to_string(), shortcuts(&[(1, "a")]));
    assert_eq!(found.1, None);
}

#[test]
fn two_empty_detail_parts_leave_their_separator() {
    let found = extract_shortcuts_from_input("a::".to_string(), shortcuts(&[(1, "a")]));
    assert_eq!(found.0, Some(vec![1]));
    assert_eq!(found.1, Some(" : ".to_string()));
}

#[test]
fn unknown_tokens_are_lowercased_and_joined_by_spaces() {
    let found = extract_shortcuts_from_input(
        "Foo a  BAR".to_string(),
        shortcuts(&[(1, "a")]),
    );
    assert_eq!(found.0, Some(vec![1]));
    assert_eq!(found.1, Some("foo bar".to_string()));
}

#[test]
fn detail_only_gives_no_ids() {
    let found = extract_shortcuts_from_input(": just text".to_string(), shortcuts(&[(1, "a")]));
    assert_eq!(found.0, None);
    assert_eq!(found.1, Some("just text".to_string()));
}

#[test]
fn free_text_without_colon_is_all_unknown_tokens() {
    let found = extract_shortcuts_from_input("Went for a walk".to_string(), Vec::new());
    assert_eq!(found.0, None);
    assert_eq!(found.1, Some("went for a walk".to_string()));
}

#[test]
fn tabs_around_a_token_are_trimmed() {
    let found = extract_shortcuts_from_input("\ta\t b: x".to_string(), shortcuts(&[(1, "a"), (2, "b")]));
    assert_eq!(found.0, Some(vec![1, 2]));
    assert_eq!(found.1, Some("x".to_string()));
}

#[test]
fn find_shortcut_compares_exactly() {
    let known = shortcuts(&[(1, "a"), (2, "b"), (3, "a")]);
    assert_eq!(find_shortcut(&"a".to_string(), &known), Some(1));
    assert_eq!(find_shortcut(&"b".to_string(), &known), Some(2));
    assert_eq!(find_shortcut(&"A".to_string(), &known), None);
    assert_eq!(find_shortcut(&"".to_string(), &known), None);
    assert_eq!(find_shortcut(&"a".to_string(), &Vec::new()), None);
}

#[test]
fn select_shortcuts_sorts_tokens() {
    let known = shortcuts(&[(1, "a"), (2, "b")]);
    let found = select_shortcuts(&strings(&["b", "zz", "a", "b", "yy"]), &known);
    assert_eq!(found.0, vec![2, 1, 2]);
    assert_eq!(found.1, strings(&["zz", "yy"]));
    let found = select_shortcuts(&Vec::new(), &known);
    assert_eq!(found.0, Vec::<i32>::new());
    assert_eq!(found.1, Vec::<String>::new());
}

#[test]
fn lowercase_shortcuts_keeps_ids() {
    let lowered = lowercase_shortcuts(&shortcuts(&[(4, "MoOd"), (9, "x"), (1, "ÄB")]));
    assert_eq!(lowered, shortcuts(&[(4, "mood"), (9, "x"), (1, "äb")]));
}

#[test]
fn normalize_tokens_drops_empty_pieces() {
    let pieces = vec![chars("A"), chars(""), chars(" B\t"), chars("\t"), chars("cD")];
    assert_eq!(normalize_tokens(&pieces), strings(&["a", "b", "cd"]));
}

#[test]
fn assemble_details_orders_detail_before_unknown_tokens() {
    assert_eq!(assemble_details(&chars(""), &Vec::new()), None);
    assert_eq!(assemble_details(&chars("note"), &Vec::new()), Some("note".to_string()));
    assert_eq!(
        assemble_details(&chars(""), &strings(&["x", "y"])),
        Some("x y".to_string())
    );
    assert_eq!(
        assemble_details(&chars("note"), &strings(&["x", "y"])),
        Some("note; x y".to_string())
    );
}

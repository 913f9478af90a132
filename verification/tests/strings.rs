use holograph_server::strings::{get_string_part, replace_case_insensitive, stripslash, try_replace_case_insensitive, wrap_parameters};

#[test]
fn string_part_counts_characters() {
    assert_eq!(get_string_part("héllo world", 1, 4), "éllo");
    assert_eq!(get_string_part("abc", 5, 2), "");
    assert_eq!(get_string_part("abc", 1, 99), "bc");
}

#[test]
fn wrap_parameters_joins_the_rest() {
    let params: Vec<String> = ["alert", "bob", "hello", "there"].iter().map(|s| s.to_string()).collect();
    assert_eq!(wrap_parameters(&params, 2), "hello there");
    assert_eq!(wrap_parameters(&params, 9), "");
}

#[test]
fn stripslash_escapes_quotes_and_backslashes() {
    assert_eq!(stripslash("it's a \\ test"), "it\\'s a \\\\ test");
    assert_eq!(stripslash("plain"), "plain");
}

#[test]
fn replace_ignores_case() {
    assert_eq!(replace_case_insensitive("Bad words are BAD", "bad", "***"), "*** words are ***");
    assert_eq!(replace_case_insensitive("nothing here", "", "x"), "nothing here");
    assert_eq!(replace_case_insensitive("aaa", "aa", "b"), "ba");
}

#[test]
fn replace_refuses_cuts_inside_characters() {
    // 'İ' lowers to two characters, so the lowered text is longer than the
    // text it is matched against, and the cut after the match falls off the end.
    assert_eq!(try_replace_case_insensitive("İ", "i", "x"), None);
    assert_eq!(try_replace_case_insensitive("ÄB", "äb", "x").as_deref(), Some("x"));
}

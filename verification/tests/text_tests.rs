use cargit::text::{str_eq, str_eq_ci, tokenize, trim, trim_char, trim_end};

#[test]
fn trim_drops_blanks_at_both_ends() {
    assert_eq!(trim("  hello \n"), "hello");
    assert_eq!(trim("hello"), "hello");
    assert_eq!(trim(" \t\r\n "), "");
    assert_eq!(trim(""), "");
}

#[test]
fn trim_end_keeps_the_start() {
    assert_eq!(trim_end("  main\n"), "  main");
}

#[test]
fn trim_char_drops_only_the_named_character() {
    assert_eq!(trim_char("'abc'", '\''), "abc");
    assert_eq!(trim_char("''a''", '\''), "a");
    assert_eq!(trim_char("abc", '\''), "abc");
    assert_eq!(trim_char("''", '\''), "");
}

#[test]
fn tokenize_splits_on_runs_of_whitespace() {
    assert_eq!(tokenize("a bb  ccc\n d"), vec!["a", "bb", "ccc", "d"]);
    assert!(tokenize("   ").is_empty());
}

#[test]
fn string_comparison_is_exact() {
    assert!(str_eq("abc", "abc"));
    assert!(!str_eq("abc", "abd"));
    assert!(!str_eq("abc", "ab"));
}

#[test]
fn case_insensitive_comparison_folds_ascii_letters_only() {
    assert!(str_eq_ci("Prev", "prev"));
    assert!(str_eq_ci("YES", "yes"));
    assert!(!str_eq_ci("prev", "prevx"));
    assert!(!str_eq_ci("pr-v", "prev"));
}

use cargit::pattern::{
    find_first, find_first_from, DigitRunQualifier, NoQualifier, PatternMatching, StringPattern,
};

#[test]
fn literal_char_finds_first_occurrence() {
    let pattern: StringPattern<NoQualifier> = StringPattern::Literal('b');
    let m = find_first(&pattern, "abcabc").unwrap();
    assert_eq!(m.index, 1);
    assert_eq!(m.length, 1);
    assert_eq!(m.value, "b");
}

#[test]
fn literal_char_absent_gives_none() {
    let pattern: StringPattern<NoQualifier> = StringPattern::Literal('z');
    assert!(find_first(&pattern, "abcabc").is_none());
}

#[test]
fn literal_char_on_empty_text_gives_none() {
    let pattern: StringPattern<NoQualifier> = StringPattern::Literal('a');
    assert!(find_first(&pattern, "").is_none());
}

#[test]
fn literal_sequence_finds_leftmost_then_next() {
    let pattern: StringPattern<NoQualifier> = StringPattern::LiteralSequence("ab".to_string());
    let first = find_first(&pattern, "xxabyab").unwrap();
    assert_eq!(first.index, 2);
    assert_eq!(first.length, 2);
    assert_eq!(first.value, "ab");
    let second = find_first_from(&pattern, "xxabyab", first.index + first.length).unwrap();
    assert_eq!(second.index, 5);
    assert!(find_first_from(&pattern, "xxabyab", second.index + 1).is_none());
}

#[test]
fn empty_literal_sequence_matches_at_offset_zero() {
    let pattern: StringPattern<NoQualifier> = StringPattern::LiteralSequence(String::new());
    let m = find_first(&pattern, "abc").unwrap();
    assert_eq!(m.index, 0);
    assert_eq!(m.length, 0);
    assert_eq!(m.value, "");
}

#[test]
fn empty_literal_sequence_matches_empty_text() {
    let pattern: StringPattern<NoQualifier> = StringPattern::LiteralSequence(String::new());
    let m = find_first(&pattern, "").unwrap();
    assert_eq!(m.index, 0);
    assert_eq!(m.length, 0);
}

#[test]
fn any_of_chars_finds_leftmost_member() {
    let pattern: StringPattern<NoQualifier> =
        StringPattern::AnyOfChars(vec!['x', 'c', 'b']);
    let m = find_first(&pattern, "aabca").unwrap();
    assert_eq!(m.index, 2);
    assert_eq!(m.length, 1);
    assert_eq!(m.value, "b");
}

#[test]
fn any_of_sequences_prefers_longest_at_leftmost_position() {
    let pattern: StringPattern<NoQualifier> =
        StringPattern::AnyOfSequences(vec!["ab".to_string(), "abc".to_string()]);
    let m = find_first(&pattern, "xabcY").unwrap();
    assert_eq!(m.index, 1);
    assert_eq!(m.length, 3);
    assert_eq!(m.value, "abc");
}

#[test]
fn any_of_sequences_longest_wins_regardless_of_order() {
    let pattern: StringPattern<NoQualifier> =
        StringPattern::AnyOfSequences(vec!["abc".to_string(), "ab".to_string()]);
    let m = find_first(&pattern, "xabcY").unwrap();
    assert_eq!(m.length, 3);
}

#[test]
fn any_of_sequences_picks_leftmost_position_over_longer_later_match() {
    let pattern: StringPattern<NoQualifier> =
        StringPattern::AnyOfSequences(vec!["yy".to_string(), "xxx".to_string()]);
    let m = find_first(&pattern, "ayyxxx").unwrap();
    assert_eq!(m.index, 1);
    assert_eq!(m.length, 2);
}

#[test]
fn qualifier_finds_first_digit_run() {
    let pattern = StringPattern::Qualifier(DigitRunQualifier);
    let m = find_first(&pattern, "release 123 of 45").unwrap();
    assert_eq!(m.index, 8);
    assert_eq!(m.length, 3);
    assert_eq!(m.value, "123");
}

#[test]
fn qualifier_search_from_offset_finds_later_run() {
    let pattern = StringPattern::Qualifier(DigitRunQualifier);
    let m = find_first_from(&pattern, "release 123 of 45", 11).unwrap();
    assert_eq!(m.index, 15);
    assert_eq!(m.length, 2);
    assert_eq!(m.value, "45");
}

#[test]
fn qualifier_without_hit_gives_none() {
    let pattern = StringPattern::Qualifier(DigitRunQualifier);
    assert!(find_first(&pattern, "no numbers here").is_none());
}

#[test]
fn match_pattern_searches_from_the_start() {
    let pattern: StringPattern<NoQualifier> = StringPattern::LiteralSequence("lo".to_string());
    let m = "hello".match_pattern(&pattern).unwrap();
    assert_eq!(m.index, 3);
    assert_eq!(m.value, "lo");
}

#[test]
fn match_bounds_report_start_and_end() {
    let pattern: StringPattern<NoQualifier> = StringPattern::LiteralSequence("bc".to_string());
    let m = find_first(&pattern, "abcd").unwrap();
    assert_eq!(m.start(), 1);
    assert_eq!(m.end(), 3);
}

#[test]
fn find_first_from_past_the_end_gives_none() {
    let pattern: StringPattern<NoQualifier> = StringPattern::LiteralSequence("a".to_string());
    assert!(find_first_from(&pattern, "aaa", 10).is_none());
}

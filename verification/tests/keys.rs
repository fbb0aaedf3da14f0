use commr::{compare_keys, decide, Column, Line, Rank};

#[test]
fn smaller_first_byte_comes_before() {
    assert_eq!(compare_keys("a", "b"), Rank::Before);
    assert_eq!(compare_keys("b", "a"), Rank::After);
}

#[test]
fn equal_keys_rank_the_same() {
    assert_eq!(compare_keys("same", "same"), Rank::Same);
    assert_eq!(compare_keys("", ""), Rank::Same);
}

#[test]
fn a_proper_prefix_comes_before() {
    assert_eq!(compare_keys("ab", "abc"), Rank::Before);
    assert_eq!(compare_keys("abc", "ab"), Rank::After);
    assert_eq!(compare_keys("", "a"), Rank::Before);
    assert_eq!(compare_keys("a", ""), Rank::After);
}

#[test]
fn the_first_difference_decides() {
    assert_eq!(compare_keys("abcx", "abda"), Rank::Before);
    assert_eq!(compare_keys("abd", "abcz"), Rank::After);
}

#[test]
fn capitals_come_before_small_letters() {
    assert_eq!(compare_keys("Zebra", "apple"), Rank::Before);
}

#[test]
fn digits_are_compared_as_text() {
    assert_eq!(compare_keys("10", "9"), Rank::Before);
}

#[test]
fn keys_beyond_ascii_go_by_their_encoding() {
    assert_eq!(compare_keys("z", "é"), Rank::Before);
    assert_eq!(compare_keys("é", "z"), Rank::After);
    assert_eq!(compare_keys("é", "é"), Rank::Same);
    assert_eq!(compare_keys("é", "ê"), Rank::Before);
    assert_eq!(compare_keys("日本", "日本語"), Rank::Before);
}

#[test]
fn keys_rank_as_strings_do() {
    let samples = ["", "a", "A", "ab", "b", "é", "z", "日本", "~", " ", "a b"];
    for x in samples {
        for y in samples {
            let expected = if x < y {
                Rank::Before
            } else if x > y {
                Rank::After
            } else {
                Rank::Same
            };
            assert_eq!(compare_keys(x, y), expected);
        }
    }
}

#[test]
fn a_new_line_keeps_its_text_as_key_when_case_counts() {
    let line = Line::new("MiXed".to_string(), false);
    assert_eq!(line.text(), "MiXed");
    assert_eq!(line.key(), "MiXed");
}

#[test]
fn a_new_line_is_keyed_in_lower_case_when_case_is_ignored() {
    let line = Line::new("MiXed".to_string(), true);
    assert_eq!(line.text(), "MiXed");
    assert_eq!(line.key(), "mixed");
}

#[test]
fn lower_case_key_of_a_non_ascii_line() {
    let line = Line::new("ÄÖÜ Straße".to_string(), true);
    assert_eq!(line.key(), "äöü straße");
    assert_eq!(line.into_text(), "ÄÖÜ Straße");
}

#[test]
fn a_line_can_be_cloned() {
    let line = Line::with_key("Text".to_string(), "key".to_string());
    let copy = line.clone();
    assert_eq!(copy, line);
    assert_eq!(copy.text(), "Text");
    assert_eq!(copy.key(), "key");
    let plain = Line::verbatim("plain".to_string());
    assert_eq!(plain.clone().key(), "plain");
}

#[test]
fn nothing_to_decide_when_both_sources_are_done() {
    assert_eq!(decide(None, None), None);
}

#[test]
fn the_remaining_source_is_drained() {
    let line = Line::verbatim("x".to_string());
    assert_eq!(decide(Some(&line), None), Some(Column::First));
    assert_eq!(decide(None, Some(&line)), Some(Column::Second));
}

#[test]
fn the_smaller_key_goes_first() {
    let a = Line::verbatim("a".to_string());
    let b = Line::verbatim("b".to_string());
    assert_eq!(decide(Some(&a), Some(&b)), Some(Column::First));
    assert_eq!(decide(Some(&b), Some(&a)), Some(Column::Second));
}

#[test]
fn equal_keys_go_together() {
    let a = Line::new("Same".to_string(), true);
    let b = Line::new("sAME".to_string(), true);
    assert_eq!(decide(Some(&a), Some(&b)), Some(Column::Both));
    let c = Line::new("Same".to_string(), false);
    let d = Line::new("sAME".to_string(), false);
    assert_eq!(decide(Some(&c), Some(&d)), Some(Column::First));
}

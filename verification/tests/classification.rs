use commr::{classify, classify_texts, with_keys, Column, Line, Record};
use std::collections::BTreeSet;

fn owned(lines: &[&str]) -> Vec<String> {
    lines.iter().map(|s| s.to_string()).collect()
}

fn first(text: &str) -> Record {
    Record::OnlyInFirst(text.to_string())
}

fn second(text: &str) -> Record {
    Record::OnlyInSecond(text.to_string())
}

fn both(text: &str) -> Record {
    Record::InBoth(text.to_string())
}

fn keys_in(records: &[Record], columns: &[Column], fold: bool) -> BTreeSet<String> {
    records
        .iter()
        .filter(|r| columns.contains(&r.column()))
        .map(|r| if fold { r.text().to_lowercase() } else { r.text().to_string() })
        .collect()
}

fn key_set(lines: &[String], fold: bool) -> BTreeSet<String> {
    lines.iter().map(|s| if fold { s.to_lowercase() } else { s.clone() }).collect()
}

#[test]
fn overlapping_sources_fall_into_three_columns() {
    let a = owned(&["apple", "banana", "cherry"]);
    let b = owned(&["banana", "cherry", "date"]);
    let records = classify_texts(&a, &b, false);
    assert_eq!(records, vec![first("apple"), both("banana"), both("cherry"), second("date")]);
}

#[test]
fn two_empty_sources_give_no_record() {
    let records = classify_texts(&Vec::new(), &Vec::new(), false);
    assert_eq!(records, Vec::<Record>::new());
}

#[test]
fn empty_first_source_puts_all_in_second_column() {
    let b = owned(&["x", "y"]);
    let records = classify_texts(&Vec::new(), &b, false);
    assert_eq!(records, vec![second("x"), second("y")]);
}

#[test]
fn empty_second_source_puts_all_in_first_column() {
    let a = owned(&["x", "y"]);
    let records = classify_texts(&a, &Vec::new(), false);
    assert_eq!(records, vec![first("x"), first("y")]);
}

#[test]
fn first_source_ends_before_second() {
    let a = owned(&["a"]);
    let b = owned(&["a", "b", "c"]);
    assert_eq!(classify_texts(&a, &b, false), vec![both("a"), second("b"), second("c")]);
}

#[test]
fn second_source_ends_before_first() {
    let a = owned(&["a", "b", "c"]);
    let b = owned(&["b"]);
    assert_eq!(classify_texts(&a, &b, false), vec![first("a"), both("b"), first("c")]);
}

#[test]
fn identical_sources_are_all_in_both() {
    let a = owned(&["one", "three", "two"]);
    assert_eq!(classify_texts(&a, &a, false), vec![both("one"), both("three"), both("two")]);
}

#[test]
fn disjoint_sources_interleave_by_key() {
    let a = owned(&["a", "c", "e"]);
    let b = owned(&["b", "d", "f"]);
    assert_eq!(
        classify_texts(&a, &b, false),
        vec![first("a"), second("b"), first("c"), second("d"), first("e"), second("f")]
    );
}

#[test]
fn blank_lines_are_lines_like_any_other() {
    let a = owned(&["", "a"]);
    let b = owned(&["", "b"]);
    assert_eq!(classify_texts(&a, &b, false), vec![both(""), first("a"), second("b")]);
}

#[test]
fn blank_line_sorts_before_every_other_line() {
    let a = owned(&["a"]);
    let b = owned(&[""]);
    assert_eq!(classify_texts(&a, &b, false), vec![second(""), first("a")]);
}

#[test]
fn repeated_lines_pair_off_one_to_one() {
    let a = owned(&["a", "a", "b"]);
    let b = owned(&["a", "b", "b"]);
    assert_eq!(
        classify_texts(&a, &b, false),
        vec![both("a"), first("a"), both("b"), second("b")]
    );
}

#[test]
fn unsorted_input_is_merged_as_it_comes() {
    let a = owned(&["b", "a"]);
    let b = owned(&["a", "b"]);
    assert_eq!(
        classify_texts(&a, &b, false),
        vec![second("a"), both("b"), first("a")]
    );
}

#[test]
fn upper_case_sorts_before_lower_case() {
    let a = owned(&["Foo"]);
    let b = owned(&["foo"]);
    assert_eq!(classify_texts(&a, &b, false), vec![first("Foo"), second("foo")]);
    assert_eq!(classify_texts(&b, &a, false), vec![second("Foo"), first("foo")]);
}

#[test]
fn folding_matches_lines_that_differ_in_case_only() {
    let a = owned(&["Foo"]);
    let b = owned(&["foo"]);
    assert_eq!(classify_texts(&a, &b, true), vec![both("Foo")]);
    assert_eq!(classify_texts(&b, &a, true), vec![both("foo")]);
}

#[test]
fn folding_orders_by_the_folded_key() {
    let a = owned(&["apple", "Banana", "cherry"]);
    let b = owned(&["APPLE", "banana", "Date"]);
    assert_eq!(
        classify_texts(&a, &b, true),
        vec![both("apple"), both("Banana"), first("cherry"), second("Date")]
    );
}

#[test]
fn folding_reaches_beyond_ascii() {
    let a = owned(&["ÉCOLE"]);
    let b = owned(&["école"]);
    assert_eq!(classify_texts(&a, &b, true), vec![both("ÉCOLE")]);
    assert_eq!(classify_texts(&a, &b, false), vec![first("ÉCOLE"), second("école")]);
}

#[test]
fn lines_are_matched_by_key_and_reported_by_text() {
    let a = vec![
        Line::with_key("first one".to_string(), "1".to_string()),
        Line::with_key("first three".to_string(), "3".to_string()),
    ];
    let b = vec![
        Line::with_key("second one".to_string(), "1".to_string()),
        Line::with_key("second two".to_string(), "2".to_string()),
    ];
    assert_eq!(
        classify(&a, &b),
        vec![both("first one"), second("second two"), first("first three")]
    );
}

#[test]
fn verbatim_lines_are_their_own_keys() {
    let a = vec![Line::verbatim("b".to_string())];
    let b = vec![Line::with_key("shown".to_string(), "b".to_string())];
    assert_eq!(classify(&a, &b), vec![both("b")]);
    assert_eq!(classify(&b, &a), vec![both("shown")]);
}

#[test]
fn with_keys_folds_each_text_once() {
    let lines = with_keys(&owned(&["Ab", "cD"]), true);
    assert_eq!(lines.len(), 2);
    assert_eq!(lines[0].text(), "Ab");
    assert_eq!(lines[0].key(), "ab");
    assert_eq!(lines[1].text(), "cD");
    assert_eq!(lines[1].key(), "cd");
    let plain = with_keys(&owned(&["Ab"]), false);
    assert_eq!(plain[0].key(), "Ab");
    assert_eq!(plain[0].text(), "Ab");
}

#[test]
fn sorted_sources_split_their_keys_three_ways() {
    let a = owned(&["ant", "bee", "cat", "eel", "fox"]);
    let b = owned(&["bee", "cow", "eel", "gnu"]);
    let records = classify_texts(&a, &b, false);
    let in_a = key_set(&a, false);
    let in_b = key_set(&b, false);
    let col1 = keys_in(&records, &[Column::First], false);
    let col2 = keys_in(&records, &[Column::Second], false);
    let col3 = keys_in(&records, &[Column::Both], false);
    assert_eq!(keys_in(&records, &[Column::First, Column::Both], false), in_a);
    assert_eq!(keys_in(&records, &[Column::Second, Column::Both], false), in_b);
    assert_eq!(col3, in_a.intersection(&in_b).cloned().collect());
    assert_eq!(col1, in_a.difference(&in_b).cloned().collect());
    assert_eq!(col2, in_b.difference(&in_a).cloned().collect());
}

#[test]
fn sorted_sources_split_their_folded_keys_three_ways() {
    let a = owned(&["Ant", "bee", "Cat"]);
    let b = owned(&["ant", "BEE", "dog"]);
    let records = classify_texts(&a, &b, true);
    let in_a = key_set(&a, true);
    let in_b = key_set(&b, true);
    assert_eq!(keys_in(&records, &[Column::First, Column::Both], true), in_a);
    assert_eq!(keys_in(&records, &[Column::Second, Column::Both], true), in_b);
    assert_eq!(
        keys_in(&records, &[Column::Both], true),
        in_a.intersection(&in_b).cloned().collect()
    );
}

#[test]
fn sorted_sources_come_out_in_rising_order() {
    let a = owned(&["ant", "bee", "cat", "eel", "fox"]);
    let b = owned(&["bee", "cow", "eel", "gnu"]);
    let records = classify_texts(&a, &b, false);
    let texts: Vec<&str> = records.iter().map(|r| r.text()).collect();
    assert_eq!(texts, vec!["ant", "bee", "cat", "cow", "eel", "fox", "gnu"]);
}

#[test]
fn no_line_of_the_first_source_is_lost() {
    let a = owned(&["d", "a", "a", "c"]);
    let b = owned(&["a", "e", "b"]);
    let records = classify_texts(&a, &b, false);
    let kept: Vec<String> = records
        .iter()
        .filter(|r| r.column() != Column::Second)
        .map(|r| r.text().to_string())
        .collect();
    assert_eq!(kept, a);
    let matched: Vec<String> = records
        .iter()
        .filter(|r| r.column() != Column::First)
        .map(|r| r.text().to_string())
        .collect();
    assert_eq!(matched, b);
}

#[test]
fn trading_the_sources_trades_the_outer_columns() {
    let a = owned(&["apple", "banana", "cherry"]);
    let b = owned(&["banana", "cherry", "date"]);
    assert_eq!(
        classify_texts(&b, &a, false),
        vec![second("apple"), both("banana"), both("cherry"), first("date")]
    );
}

#[test]
fn trading_the_sources_keeps_the_keys_of_the_third_column() {
    let a = owned(&["Apple", "kiwi"]);
    let b = owned(&["apple", "Lime"]);
    let one_way = classify_texts(&a, &b, true);
    let other_way = classify_texts(&b, &a, true);
    assert_eq!(one_way, vec![both("Apple"), first("kiwi"), second("Lime")]);
    assert_eq!(other_way, vec![both("apple"), second("kiwi"), first("Lime")]);
}

use commr::{classify_raw, classify_texts, render, Action, Columns, Comparator, Record};

fn raw_lines(lines: &[&[u8]]) -> Vec<Vec<u8>> {
    lines.iter().map(|l| l.to_vec()).collect()
}

fn drain(first: &[&[u8]], second: &[&[u8]], fold: bool) -> Vec<Record> {
    let mut a = first.iter();
    let mut b = second.iter();
    let mut comparator = Comparator::new(fold);
    let mut out = Vec::new();
    loop {
        match comparator.advance() {
            Action::PullFirst => comparator.feed_first(a.next().map(|l| l.to_vec())),
            Action::PullSecond => comparator.feed_second(b.next().map(|l| l.to_vec())),
            Action::Emit(record) => out.push(record),
            Action::Finished => return out,
        }
    }
}

#[test]
fn a_comparator_keeps_its_policy() {
    assert!(Comparator::new(true).insensitive());
    assert!(!Comparator::new(false).insensitive());
}

#[test]
fn a_comparator_asks_for_the_first_source_first() {
    let mut comparator = Comparator::new(false);
    assert_eq!(comparator.advance(), Action::PullFirst);
    comparator.feed_first(Some(b"a\n".to_vec()));
    assert_eq!(comparator.advance(), Action::PullSecond);
    comparator.feed_second(Some(b"a\n".to_vec()));
    assert_eq!(comparator.advance(), Action::Emit(Record::InBoth("a".to_string())));
    assert_eq!(comparator.advance(), Action::PullFirst);
    comparator.feed_first(None);
    assert_eq!(comparator.advance(), Action::PullSecond);
    comparator.feed_second(None);
    assert_eq!(comparator.advance(), Action::Finished);
}

#[test]
fn a_line_that_does_not_decode_is_asked_for_again() {
    let mut comparator = Comparator::new(false);
    assert_eq!(comparator.advance(), Action::PullFirst);
    comparator.feed_first(Some(vec![0xff, 0x0a]));
    assert_eq!(comparator.advance(), Action::PullFirst);
    comparator.feed_first(Some(b"ok\n".to_vec()));
    assert_eq!(comparator.advance(), Action::PullSecond);
    comparator.feed_second(Some(vec![0xc0, 0x80, 0x0a]));
    assert_eq!(comparator.advance(), Action::PullSecond);
    comparator.feed_second(None);
    assert_eq!(comparator.advance(), Action::Emit(Record::OnlyInFirst("ok".to_string())));
}

#[test]
fn a_comparator_folds_both_sources_alike() {
    let mut comparator = Comparator::new(true);
    comparator.feed_first(Some(b"Apple\r\n".to_vec()));
    comparator.feed_second(Some(b"aPPLE".to_vec()));
    assert_eq!(comparator.advance(), Action::Emit(Record::InBoth("Apple".to_string())));
}

#[test]
fn a_comparator_respects_case_when_told_to() {
    let mut comparator = Comparator::new(false);
    comparator.feed_first(Some(b"apple\n".to_vec()));
    comparator.feed_second(Some(b"Apple\n".to_vec()));
    assert_eq!(comparator.advance(), Action::Emit(Record::OnlyInSecond("Apple".to_string())));
    assert_eq!(comparator.advance(), Action::PullSecond);
}

#[test]
fn streamed_lines_are_classified_like_lines_at_hand() {
    let first: [&[u8]; 4] = [b"apple\n", b"banana\n", b"cherry\n", b"fig"];
    let second: [&[u8]; 3] = [b"banana\r\n", b"cherry\r\n", b"date\r\n"];
    let streamed = drain(&first, &second, false);
    let texts_a: Vec<String> = ["apple", "banana", "cherry", "fig"].iter().map(|s| s.to_string()).collect();
    let texts_b: Vec<String> = ["banana", "cherry", "date"].iter().map(|s| s.to_string()).collect();
    assert_eq!(streamed, classify_texts(&texts_a, &texts_b, false));
    assert_eq!(streamed, classify_raw(&raw_lines(&first), &raw_lines(&second), false));
}

#[test]
fn raw_lines_are_trimmed_decoded_and_classified() {
    let first = raw_lines(&[b"a\n", b"b\r\n", b"d"]);
    let second = raw_lines(&[b"b\n", b"c\n"]);
    assert_eq!(
        classify_raw(&first, &second, false),
        vec![
            Record::OnlyInFirst("a".to_string()),
            Record::InBoth("b".to_string()),
            Record::OnlyInSecond("c".to_string()),
            Record::OnlyInFirst("d".to_string()),
        ]
    );
}

#[test]
fn raw_lines_that_do_not_decode_are_left_out() {
    let first = raw_lines(&[b"a\n", b"\xff\xfe\n", b"c\n"]);
    let second = raw_lines(&[b"\x80\n", b"a\n", b"b\n", b"\xf8\n"]);
    assert_eq!(
        classify_raw(&first, &second, false),
        vec![
            Record::InBoth("a".to_string()),
            Record::OnlyInSecond("b".to_string()),
            Record::OnlyInFirst("c".to_string()),
        ]
    );
    assert_eq!(
        drain(&[b"a\n", b"\xff\xfe\n", b"c\n"], &[b"\x80\n", b"a\n", b"b\n", b"\xf8\n"], false),
        classify_raw(&first, &second, false)
    );
}

#[test]
fn sources_of_lines_that_do_not_decode_give_nothing() {
    let bad = raw_lines(&[b"\xff\n", b"\xfe\n"]);
    assert_eq!(classify_raw(&bad, &bad, true), Vec::<Record>::new());
    assert_eq!(classify_raw(&Vec::new(), &Vec::new(), true), Vec::<Record>::new());
}

#[test]
fn raw_lines_are_folded_when_case_is_ignored() {
    let first = raw_lines(&[b"Zoo\n", "Ärger\n".as_bytes()]);
    let second = raw_lines(&[b"zebra\n", "ärger\n".as_bytes()]);
    assert_eq!(
        classify_raw(&first, &second, true),
        vec![
            Record::OnlyInSecond("zebra".to_string()),
            Record::OnlyInFirst("Zoo".to_string()),
            Record::InBoth("Ärger".to_string()),
        ]
    );
}

#[test]
fn streamed_records_are_printed_as_they_come() {
    let columns = Columns::all().without(commr::Column::Second);
    let printed: Vec<String> = drain(&[b"a\n", b"b\n"], &[b"b\n", b"c\n"], false)
        .iter()
        .filter_map(|r| render(r, &columns, "\t"))
        .collect();
    assert_eq!(printed, vec!["a".to_string(), "\tb".to_string()]);
}

use fortune::errors::FortuneError;
use fortune::filter::{SizeFilter, filter_records, record_matches};
use fortune::format::{ColorChoice, render};
use fortune::select::select;

fn v(s: &str) -> Vec<u8> {
    s.as_bytes().to_vec()
}

fn record_of_len(n: usize) -> Vec<u8> {
    vec![b'x'; n]
}

#[test]
fn boundary_150_is_short() {
    let r = record_of_len(150);
    assert!(record_matches(SizeFilter::Short, &r));
    assert!(!record_matches(SizeFilter::Medium, &r));
    assert!(!record_matches(SizeFilter::Long, &r));
}

#[test]
fn boundary_151_is_medium() {
    let r = record_of_len(151);
    assert!(!record_matches(SizeFilter::Short, &r));
    assert!(record_matches(SizeFilter::Medium, &r));
    assert!(!record_matches(SizeFilter::Long, &r));
}

#[test]
fn boundary_399_is_medium() {
    let r = record_of_len(399);
    assert!(!record_matches(SizeFilter::Short, &r));
    assert!(record_matches(SizeFilter::Medium, &r));
    assert!(!record_matches(SizeFilter::Long, &r));
}

#[test]
fn boundary_400_is_long() {
    let r = record_of_len(400);
    assert!(!record_matches(SizeFilter::Short, &r));
    assert!(!record_matches(SizeFilter::Medium, &r));
    assert!(record_matches(SizeFilter::Long, &r));
}

#[test]
fn any_matches_every_length() {
    assert!(record_matches(SizeFilter::Any, &record_of_len(0)));
    assert!(record_matches(SizeFilter::Any, &record_of_len(150)));
    assert!(record_matches(SizeFilter::Any, &record_of_len(5000)));
}

#[test]
fn filter_keeps_exactly_the_matching_records_in_order() {
    let records = vec![
        record_of_len(1),
        record_of_len(150),
        record_of_len(151),
        record_of_len(399),
        record_of_len(400),
    ];
    let short = filter_records(&records, SizeFilter::Short);
    assert_eq!(short, vec![record_of_len(1), record_of_len(150)]);
    let medium = filter_records(&records, SizeFilter::Medium);
    assert_eq!(medium, vec![record_of_len(151), record_of_len(399)]);
    let long = filter_records(&records, SizeFilter::Long);
    assert_eq!(long, vec![record_of_len(400)]);
    let all = filter_records(&records, SizeFilter::Any);
    assert_eq!(all, records);
}

#[test]
fn select_returns_a_member_of_the_filtered_subset() {
    let records = vec![v("aa"), record_of_len(200), v("bb"), record_of_len(500)];
    for _ in 0..50 {
        let chosen = select(&records, SizeFilter::Short).unwrap();
        assert!(chosen == v("aa") || chosen == v("bb"));
    }
}

#[test]
fn select_over_everything_returns_some_record() {
    let records = vec![v("one"), v("two"), v("three")];
    for _ in 0..50 {
        let chosen = select(&records, SizeFilter::Any).unwrap();
        assert!(records.contains(&chosen));
    }
}

#[test]
fn select_over_empty_subset_fails() {
    let records = vec![v("aa"), v("bb")];
    let r = select(&records, SizeFilter::Long);
    assert_eq!(r, Err(FortuneError::EmptySelectionFailure));
}

#[test]
fn select_over_empty_database_fails() {
    let records: Vec<Vec<u8>> = Vec::new();
    let r = select(&records, SizeFilter::Any);
    assert_eq!(r, Err(FortuneError::EmptySelectionFailure));
}

#[test]
fn render_red_wraps_in_escape_codes() {
    let out = render(&v("X"), ColorChoice::Red);
    assert_eq!(out, v("\x1B[31mX\x1B[0m"));
}

#[test]
fn render_no_color_leaves_text_unchanged() {
    let out = render(&v("X"), ColorChoice::NoColor);
    assert_eq!(out, v("X"));
}

#[test]
fn render_other_colors_use_their_codes() {
    assert_eq!(render(&v("q"), ColorChoice::Green), v("\x1B[32mq\x1B[0m"));
    assert_eq!(render(&v("q"), ColorChoice::Yellow), v("\x1B[33mq\x1B[0m"));
    assert_eq!(render(&v("q"), ColorChoice::Blue), v("\x1B[34mq\x1B[0m"));
    assert_eq!(render(&v("q"), ColorChoice::Magenta), v("\x1B[35mq\x1B[0m"));
    assert_eq!(render(&v("q"), ColorChoice::Cyan), v("\x1B[36mq\x1B[0m"));
}

#[test]
fn error_messages_are_nonempty() {
    assert!(!FortuneError::LocateFailure.message().is_empty());
    assert!(!FortuneError::ReadFailure.message().is_empty());
    assert!(!FortuneError::EmptySelectionFailure.message().is_empty());
    assert!(!FortuneError::WriteFailure.message().is_empty());
}

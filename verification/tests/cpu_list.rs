use minstant::cpu_list::{parse_cpu_list_bytes, parse_cpu_list_format, CoreSet, ParseError};

fn parsed(text: &str) -> Vec<usize> {
    parse_cpu_list_format(text).unwrap().into_vec()
}

fn error(text: &str) -> ParseError {
    parse_cpu_list_format(text).unwrap_err()
}

#[test]
fn single_core() {
    assert_eq!(parsed("0"), vec![0]);
    assert_eq!(parsed("17"), vec![17]);
}

#[test]
fn range_of_one() {
    assert_eq!(parsed("3-3"), vec![3]);
}

#[test]
fn whitespace_around_the_list_is_ignored() {
    assert_eq!(parsed(" \t0-1\r\n"), vec![0, 1]);
}

#[test]
fn entries_out_of_order_come_out_ascending() {
    assert_eq!(parsed("7,0-2"), vec![0, 1, 2, 7]);
}

#[test]
fn overlapping_entries_count_once() {
    assert_eq!(parsed("0-3,2-5,4"), vec![0, 1, 2, 3, 4, 5]);
}

#[test]
fn leading_zeros_are_digits() {
    assert_eq!(parsed("007"), vec![7]);
}

#[test]
fn largest_identifier_is_accepted() {
    let text = format!("{}", usize::MAX);
    assert_eq!(parsed(&text), vec![usize::MAX]);
    let range = format!("{}-{}", usize::MAX - 1, usize::MAX);
    assert_eq!(parsed(&range), vec![usize::MAX - 1, usize::MAX]);
}

#[test]
fn empty_list_is_an_error() {
    assert_eq!(error(""), ParseError::Empty);
    assert_eq!(error("\n"), ParseError::Empty);
    assert_eq!(error("   "), ParseError::Empty);
}

#[test]
fn empty_entry_is_an_error() {
    assert_eq!(error("0,,1"), ParseError::Empty);
    assert_eq!(error("0,"), ParseError::Empty);
    assert_eq!(error(",0"), ParseError::Empty);
}

#[test]
fn empty_bound_is_an_error() {
    assert_eq!(error("-3"), ParseError::Empty);
    assert_eq!(error("3-"), ParseError::Empty);
    assert_eq!(error("-"), ParseError::Empty);
}

#[test]
fn other_bytes_are_an_error() {
    assert_eq!(error("a"), ParseError::InvalidDigit);
    assert_eq!(error("0, 1"), ParseError::InvalidDigit);
    assert_eq!(error("1-2-3"), ParseError::InvalidDigit);
    assert_eq!(error("+1"), ParseError::InvalidDigit);
    assert_eq!(error("0x10"), ParseError::InvalidDigit);
}

#[test]
fn number_beyond_the_identifiers_is_an_error() {
    assert_eq!(error("99999999999999999999999999"), ParseError::TooLarge);
    let text = format!("{}0", usize::MAX);
    assert_eq!(error(&text), ParseError::TooLarge);
}

#[test]
fn invalid_digit_wins_over_size() {
    assert_eq!(error("99999999999999999999999999x"), ParseError::InvalidDigit);
}

#[test]
fn inverted_range_is_an_error() {
    assert_eq!(error("5-2"), ParseError::InvertedRange);
}

#[test]
fn first_bad_entry_decides() {
    assert_eq!(error("0,5-2,x"), ParseError::InvertedRange);
    assert_eq!(error("0,x,5-2"), ParseError::InvalidDigit);
}

#[test]
fn bytes_and_text_agree() {
    let from_text = parse_cpu_list_format("0-2,7").unwrap().into_vec();
    let from_bytes = parse_cpu_list_bytes(b"0-2,7").unwrap().into_vec();
    assert_eq!(from_text, from_bytes);
}

#[test]
fn core_set_insert_and_lookup() {
    let mut set = CoreSet::new();
    assert!(set.is_empty());
    set.insert(5);
    set.insert(1);
    set.insert(5);
    set.insert(3);
    assert_eq!(set.len(), 3);
    assert!(set.contains(1));
    assert!(set.contains(3));
    assert!(!set.contains(2));
    assert_eq!(set.position(3), Some(1));
    assert_eq!(set.position(4), None);
    assert_eq!(set.get(2), 5);
    assert_eq!(set.into_vec(), vec![1, 3, 5]);
}

#[test]
fn core_set_insert_range() {
    let mut set = CoreSet::new();
    set.insert_range(4, 6);
    set.insert_range(0, 1);
    set.insert_range(5, 8);
    assert_eq!(set.into_vec(), vec![0, 1, 4, 5, 6, 7, 8]);
}

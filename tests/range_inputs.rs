use mlh_archiver::range_inputs::{parse_sequence, SequenceParseError};

fn collect_vec(s: &str) -> Result<Vec<usize>, SequenceParseError> {
    parse_sequence(s).map(|seq| seq.to_vec())
}

#[test]
fn test_simple_numbers() {
    assert_eq!(collect_vec("1,5,10").unwrap(), vec![1, 5, 10]);
}

#[test]
fn test_simple_range() {
    assert_eq!(collect_vec("3-7").unwrap(), vec![3, 4, 5, 6, 7]);
}

#[test]
fn test_mixed_numbers_and_ranges() {
    assert_eq!(collect_vec("1,3-5,8").unwrap(), vec![1, 3, 4, 5, 8]);
}

#[test]
fn test_multiple_ranges() {
    assert_eq!(
        collect_vec("1-2,5-6,10-11").unwrap(),
        vec![1, 2, 5, 6, 10, 11]
    );
}

#[test]
fn test_range_with_same_endpoints() {
    assert_eq!(collect_vec("5-5").unwrap(), vec![5]);
}

#[test]
fn test_with_whitespace() {
    assert_eq!(collect_vec(" 1, 2 - 4 , 6 ").unwrap(), vec![1, 2, 3, 4, 6]);
}

#[test]
fn test_empty_string_is_ok() {
    assert_eq!(collect_vec("").unwrap_err(), SequenceParseError::EmptyPart);
}

#[test]
fn test_single_number_string() {
    assert_eq!(collect_vec("42").unwrap(), vec![42]);
}

#[test]
fn test_single_range_string() {
    assert_eq!(collect_vec("100-102").unwrap(), vec![100, 101, 102]);
}

#[test]
fn test_single_negative_number_string() {
    assert_eq!(
        collect_vec("-42").unwrap_err(),
        SequenceParseError::InvalidRange("-42".to_string())
    );
}

#[test]
fn test_fail_on_invalid_number() {
    assert_eq!(
        collect_vec("1,foo,5").unwrap_err(),
        SequenceParseError::InvalidNumber("foo".to_string())
    );
}

#[test]
fn test_fail_on_invalid_range_start() {
    assert_eq!(
        collect_vec("a-5").unwrap_err(),
        SequenceParseError::InvalidRange("a-5".to_string())
    );
}

#[test]
fn test_fail_on_invalid_range_end() {
    assert_eq!(
        collect_vec("1-bar").unwrap_err(),
        SequenceParseError::InvalidRange("1-bar".to_string())
    );
}

#[test]
fn test_fail_on_descending_range() {
    assert_eq!(
        collect_vec("20-10").unwrap_err(),
        SequenceParseError::DescendingRange { start: 20, end: 10 }
    );
}

#[test]
fn test_fail_on_empty_part_middle() {
    assert_eq!(
        collect_vec("1,,5").unwrap_err(),
        SequenceParseError::EmptyPart
    );
}

#[test]
fn test_fail_on_empty_part_leading() {
    assert_eq!(
        collect_vec(",1,5").unwrap_err(),
        SequenceParseError::EmptyPart
    );
}

#[test]
fn test_fail_on_empty_part_trailing() {
    assert_eq!(
        collect_vec("1,5,").unwrap_err(),
        SequenceParseError::EmptyPart
    );
}

#[test]
fn test_fail_on_just_a_comma() {
    assert_eq!(collect_vec(",").unwrap_err(), SequenceParseError::EmptyPart);
}

#[test]
fn test_fail_on_string_with_just_whitespace() {
    assert_eq!(collect_vec(" ").unwrap_err(), SequenceParseError::EmptyPart);
}

#[test]
fn test_fail_on_multiple_hyphens() {
    assert_eq!(
        collect_vec("1-2-3").unwrap_err(),
        SequenceParseError::InvalidRange("1-2-3".to_string())
    );
}

#[test]
fn plus_sign_and_unicode_spaces_read_like_std() {
    assert_eq!(collect_vec("+7,\u{a0}8\u{3000}").unwrap(), vec![7, 8]);
    assert_eq!(
        collect_vec("+").unwrap_err(),
        SequenceParseError::InvalidNumber("+".to_string())
    );
}

#[test]
fn number_above_usize_is_invalid() {
    assert_eq!(
        collect_vec("99999999999999999999999").unwrap_err(),
        SequenceParseError::InvalidNumber("99999999999999999999999".to_string())
    );
    assert_eq!(
        collect_vec("1-99999999999999999999999").unwrap_err(),
        SequenceParseError::InvalidRange("1-99999999999999999999999".to_string())
    );
}

#[test]
fn first_bad_token_decides_the_error() {
    assert_eq!(
        collect_vec("x,,20-10").unwrap_err(),
        SequenceParseError::InvalidNumber("x".to_string())
    );
}

#[test]
fn cursor_yields_numbers_lazily_in_order() {
    let seq = parse_sequence("4,7-9").unwrap();
    let mut cur = seq.iter();
    assert_eq!(cur.next(), Some(4));
    assert_eq!(cur.next(), Some(7));
    assert_eq!(cur.next(), Some(8));
    assert_eq!(cur.next(), Some(9));
    assert_eq!(cur.next(), None);
    assert_eq!(cur.next(), None);
}

#[test]
fn range_up_to_usize_max_ends() {
    let text = format!("{}-{}", usize::MAX - 1, usize::MAX);
    assert_eq!(collect_vec(&text).unwrap(), vec![usize::MAX - 1, usize::MAX]);
}

#[test]
fn error_messages() {
    assert_eq!(
        SequenceParseError::InvalidNumber("foo".to_string()).to_text(),
        "invalid number: 'foo'"
    );
    assert_eq!(
        SequenceParseError::InvalidRange("1-x".to_string()).to_text(),
        "invalid range: '1-x'"
    );
    assert_eq!(
        SequenceParseError::DescendingRange { start: 20, end: 10 }.to_text(),
        "descending range not allowed: 20-10"
    );
    assert_eq!(SequenceParseError::EmptyPart.to_text(), "empty part in sequence");
}

use event_producer::text::{decimal_string, join_strings};

#[test]
fn decimal_of_zero() {
    assert_eq!(decimal_string(0), "0");
}

#[test]
fn decimal_of_small_and_large_numbers() {
    assert_eq!(decimal_string(7), "7");
    assert_eq!(decimal_string(10), "10");
    assert_eq!(decimal_string(42), "42");
    assert_eq!(decimal_string(1000), "1000");
    assert_eq!(decimal_string(u32::MAX), "4294967295");
}

#[test]
fn decimal_matches_std_formatting() {
    for n in [0u32, 1, 9, 99, 100, 12345, 65536, 999_999_999] {
        assert_eq!(decimal_string(n), n.to_string());
    }
}

#[test]
fn join_of_nothing_is_empty() {
    assert_eq!(join_strings(&vec![], " "), "");
}

#[test]
fn join_of_one_has_no_separator() {
    assert_eq!(join_strings(&vec!["a:9092".to_string()], " "), "a:9092");
}

#[test]
fn join_puts_separator_between_neighbours() {
    let list = vec!["a".to_string(), "b".to_string(), "c".to_string()];
    assert_eq!(join_strings(&list, " "), "a b c");
    assert_eq!(join_strings(&list, ", "), "a, b, c");
}

use loadgen::strings::{parse_u64, split_two, str_eq, u64_to_string};
use loadgen::threadpool::effective_pool_size;

#[test]
fn decimal_rendering_is_exact() {
    assert_eq!(u64_to_string(0), "0".to_string());
    assert_eq!(u64_to_string(7), "7".to_string());
    assert_eq!(u64_to_string(1234), "1234".to_string());
    assert_eq!(u64_to_string(u64::MAX), "18446744073709551615".to_string());
}

#[test]
fn decimal_parsing_is_exact() {
    assert_eq!(parse_u64("0"), Some(0));
    assert_eq!(parse_u64("123"), Some(123));
    assert_eq!(parse_u64("18446744073709551615"), Some(u64::MAX));
    assert_eq!(parse_u64("18446744073709551616"), None);
    assert_eq!(parse_u64(""), None);
    assert_eq!(parse_u64("12a"), None);
    assert_eq!(parse_u64("-1"), None);
}

#[test]
fn split_keeps_empty_pieces() {
    assert_eq!(
        split_two("a|b||c", '|', '|'),
        vec![
            "a".to_string(),
            "b".to_string(),
            "".to_string(),
            "c".to_string()
        ]
    );
    assert_eq!(split_two("", '|', '|'), vec!["".to_string()]);
    assert_eq!(
        split_two("x,y;z", ',', ';'),
        vec!["x".to_string(), "y".to_string(), "z".to_string()]
    );
}

#[test]
fn string_equality_compares_contents() {
    assert!(str_eq("abc", "abc"));
    assert!(!str_eq("abc", "abd"));
    assert!(!str_eq("abc", "ab"));
    assert!(str_eq("", ""));
}

#[test]
fn zero_pool_size_becomes_one() {
    assert_eq!(effective_pool_size(0), 1);
    assert_eq!(effective_pool_size(1), 1);
    assert_eq!(effective_pool_size(0), effective_pool_size(1));
    assert_eq!(effective_pool_size(8), 8);
}

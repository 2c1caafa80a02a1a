use row_filter::coerce::{parse_bool, parse_i64, split_char};
use row_filter::digits::u64_to_string;
use row_filter::get_tmp_dir;
use row_filter::get_used_columns;

#[test]
fn columns_are_extracted_zero_based() {
    assert_eq!(
        get_used_columns("c1==\"chr1\" && c3-c2>=2000 && c6==\"+\""),
        vec![0, 2, 1, 5]
    );
}

#[test]
fn duplicate_references_are_deduplicated() {
    assert_eq!(get_used_columns("c2+c2>c2"), vec![1]);
    assert_eq!(get_used_columns("c1*c2+c1"), vec![0, 1]);
}

#[test]
fn token_scan_is_textual() {
    assert_eq!(get_used_columns("cc12x"), vec![11]);
    assert_eq!(get_used_columns("c2c3"), vec![1, 2]);
    assert_eq!(get_used_columns("abc"), Vec::<usize>::new());
    assert_eq!(get_used_columns(""), Vec::<usize>::new());
}

#[test]
fn impossible_references_are_ignored() {
    assert_eq!(get_used_columns("c0"), Vec::<usize>::new());
    assert_eq!(
        get_used_columns("c99999999999999999999999999999"),
        Vec::<usize>::new()
    );
    assert_eq!(get_used_columns("c0 && c1"), vec![0]);
}

#[test]
fn integers_parse_by_rust_rules() {
    assert_eq!(parse_i64("42"), Some(42));
    assert_eq!(parse_i64("+7"), Some(7));
    assert_eq!(parse_i64("-13"), Some(-13));
    assert_eq!(parse_i64("9223372036854775807"), Some(i64::MAX));
    assert_eq!(parse_i64("-9223372036854775808"), Some(i64::MIN));
    assert_eq!(parse_i64("9223372036854775808"), None);
    assert_eq!(parse_i64("-9223372036854775809"), None);
    assert_eq!(parse_i64("007"), Some(7));
    assert_eq!(parse_i64(""), None);
    assert_eq!(parse_i64("-"), None);
    assert_eq!(parse_i64("4.5"), None);
    assert_eq!(parse_i64("12a"), None);
    assert_eq!(parse_i64(" 42"), None);
    assert_eq!(parse_i64("42 "), None);
}

#[test]
fn booleans_parse_by_rust_rules() {
    assert_eq!(parse_bool("true"), Some(true));
    assert_eq!(parse_bool("false"), Some(false));
    assert_eq!(parse_bool("True"), None);
    assert_eq!(parse_bool("1"), None);
    assert_eq!(parse_bool(""), None);
}

#[test]
fn splitting_keeps_empty_pieces() {
    assert_eq!(split_char("a,b,c", ','), vec!["a", "b", "c"]);
    assert_eq!(split_char("", ','), vec![""]);
    assert_eq!(split_char("a,,b", ','), vec!["a", "", "b"]);
    assert_eq!(split_char(",a,", ','), vec!["", "a", ""]);
    assert_eq!(split_char("one\ttwo", '\t'), vec!["one", "two"]);
}

#[test]
fn numbers_render_in_decimal() {
    assert_eq!(u64_to_string(0), "0");
    assert_eq!(u64_to_string(7), "7");
    assert_eq!(u64_to_string(12345), "12345");
    assert_eq!(u64_to_string(u64::MAX), "18446744073709551615");
}

#[test]
fn tmp_dir_is_fixed() {
    assert_eq!(get_tmp_dir(), "./.tmp");
}

use themefox_manager::number::{decimal_chars, signed_decimal_chars};
use themefox_manager::text::{
    ascii_words_exec, chars_of, contains_exec, replace_all_exec, split_on_any, string_of,
    trim_end_exec,
};

fn cs(s: &str) -> Vec<char> {
    s.chars().collect()
}

#[test]
fn splitting_keeps_empty_pieces() {
    let parts = split_on_any(&cs("a=b]]c\n"), &cs("=]\n"));
    let texts: Vec<String> = parts.iter().map(|p| string_of(p)).collect();
    assert_eq!(texts, vec!["a", "b", "", "c", ""]);
    assert_eq!(split_on_any(&cs(""), &cs("/")).len(), 1);
}

#[test]
fn words_skip_runs_of_whitespace() {
    let w = ascii_words_exec(&cs("  DO\t x \n\x0c y  "));
    let texts: Vec<String> = w.iter().map(|p| string_of(p)).collect();
    assert_eq!(texts, vec!["DO", "x", "y"]);
    assert!(ascii_words_exec(&cs(" \r ")).is_empty());
}

#[test]
fn trimming_and_searching() {
    assert_eq!(string_of(&trim_end_exec(&cs("abc \t\u{2003}"))), "abc");
    assert_eq!(string_of(&trim_end_exec(&cs("   "))), "");
    assert!(contains_exec(&cs("hello world"), &cs("o w")));
    assert!(!contains_exec(&cs("hello"), &cs("hello!")));
    assert!(contains_exec(&cs("x"), &cs("")));
    assert_eq!(chars_of("héllo"), cs("héllo"));
}

#[test]
fn replacing_is_left_to_right_without_overlap() {
    assert_eq!(string_of(&replace_all_exec(&cs("aaa"), &cs("aa"), &cs("b"))), "ba");
    assert_eq!(string_of(&replace_all_exec(&cs("xyz"), &cs("q"), &cs("b"))), "xyz");
}

#[test]
fn decimal_numbers() {
    assert_eq!(string_of(&decimal_chars(0)), "0");
    assert_eq!(string_of(&decimal_chars(1234)), "1234");
    assert_eq!(string_of(&decimal_chars(u64::MAX)), u64::MAX.to_string());
    assert_eq!(string_of(&signed_decimal_chars(i64::MIN)), i64::MIN.to_string());
    assert_eq!(string_of(&signed_decimal_chars(-7)), "-7");
}

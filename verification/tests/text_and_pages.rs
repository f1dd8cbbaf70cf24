use chapter_export::pages::{file_extension, file_stem, page_number, page_order, parse_i32};
use chapter_export::text::{concat2, concat3, decimal_string, find_last, starts_with, str_eq};

#[test]
fn decimal_string_writes_integers_as_to_string_does() {
    assert_eq!(decimal_string(0), "0");
    assert_eq!(decimal_string(7), "7");
    assert_eq!(decimal_string(10), "10");
    assert_eq!(decimal_string(101), "101");
    assert_eq!(decimal_string(-1), "-1");
    assert_eq!(decimal_string(-9050), "-9050");
    assert_eq!(decimal_string(i64::MAX), "9223372036854775807");
    assert_eq!(decimal_string(i64::MIN), "-9223372036854775808");
    for n in [-1234567_i64, -10, 9, 99, 100, 4_000_000_000] {
        assert_eq!(decimal_string(n), n.to_string());
    }
}

#[test]
fn texts_are_compared_by_their_characters() {
    assert!(str_eq("", ""));
    assert!(str_eq("save", "save"));
    assert!(str_eq("héllo", "héllo"));
    assert!(!str_eq("save", "Save"));
    assert!(!str_eq("save", "saved"));
    assert!(!str_eq("saved", "save"));
    assert!(!str_eq("é", "e"));
}

#[test]
fn prefixes_are_recognised() {
    assert!(starts_with("image/png", "image/"));
    assert!(starts_with("image/", "image/"));
    assert!(starts_with("anything", ""));
    assert!(!starts_with("image", "image/"));
    assert!(!starts_with("text/html", "image/"));
    assert!(!starts_with("", "i"));
}

#[test]
fn last_occurrence_is_found_by_character_count() {
    assert_eq!(find_last("a.b.c", '.'), Some(3));
    assert_eq!(find_last(".hidden", '.'), Some(0));
    assert_eq!(find_last("none", '.'), None);
    assert_eq!(find_last("", '.'), None);
    assert_eq!(find_last("é.é", '.'), Some(1));
    assert_eq!(find_last("...", '.'), Some(2));
}

#[test]
fn texts_are_joined_in_order() {
    assert_eq!(concat2("ab", "cd"), "abcd");
    assert_eq!(concat2("", ""), "");
    assert_eq!(concat3("a", "/", "b"), "a/b");
}

#[test]
fn stem_is_the_name_before_its_last_dot() {
    assert_eq!(file_stem("12.png"), "12");
    assert_eq!(file_stem("archive.tar.gz"), "archive.tar");
    assert_eq!(file_stem("noext"), "noext");
    assert_eq!(file_stem(".hidden"), ".hidden");
    assert_eq!(file_stem("trailing."), "trailing");
    assert_eq!(file_stem(""), "");
}

#[test]
fn extension_is_the_name_after_its_last_dot() {
    assert_eq!(file_extension("12.png"), Some("png"));
    assert_eq!(file_extension("archive.tar.gz"), Some("gz"));
    assert_eq!(file_extension("noext"), None);
    assert_eq!(file_extension(".hidden"), None);
    assert_eq!(file_extension("trailing."), Some(""));
    assert_eq!(file_extension(""), None);
}

#[test]
fn stem_and_extension_agree_with_std_paths() {
    for name in ["1.jpg", "a.b.c", "plain", ".profile", "x.", "007.webp", "..a"] {
        let path = std::path::Path::new(name);
        assert_eq!(Some(file_stem(name)), path.file_stem().and_then(|s| s.to_str()), "{}", name);
        assert_eq!(file_extension(name), path.extension().and_then(|s| s.to_str()), "{}", name);
    }
}

#[test]
fn integers_are_read_as_parse_reads_them() {
    assert_eq!(parse_i32("0"), Some(0));
    assert_eq!(parse_i32("12"), Some(12));
    assert_eq!(parse_i32("007"), Some(7));
    assert_eq!(parse_i32("+5"), Some(5));
    assert_eq!(parse_i32("-5"), Some(-5));
    assert_eq!(parse_i32("-0"), Some(0));
    assert_eq!(parse_i32("2147483647"), Some(i32::MAX));
    assert_eq!(parse_i32("-2147483648"), Some(i32::MIN));
    assert_eq!(parse_i32("2147483648"), None);
    assert_eq!(parse_i32("-2147483649"), None);
    assert_eq!(parse_i32("99999999999999999999999999"), None);
    assert_eq!(parse_i32(""), None);
    assert_eq!(parse_i32("-"), None);
    assert_eq!(parse_i32("+"), None);
    assert_eq!(parse_i32("+-1"), None);
    assert_eq!(parse_i32("1a"), None);
    assert_eq!(parse_i32("a1"), None);
    assert_eq!(parse_i32(" 1"), None);
    assert_eq!(parse_i32("1.5"), None);
    assert_eq!(parse_i32("١٢"), None);
    for text in ["0", "-12", "+3", "0000", "2147483647", "2147483648", "x", "", "-", "12 "] {
        assert_eq!(parse_i32(text), text.parse::<i32>().ok(), "{:?}", text);
    }
}

#[test]
fn page_number_is_the_number_of_the_stem() {
    assert_eq!(page_number("12.png"), Some(12));
    assert_eq!(page_number("003.jpg"), Some(3));
    assert_eq!(page_number("12"), Some(12));
    assert_eq!(page_number("cover.png"), None);
    assert_eq!(page_number(".png"), None);
    assert_eq!(page_number("1.5.png"), None);
}

#[test]
fn pages_are_ordered_by_number() {
    assert_eq!(page_order(&vec![]), Vec::<usize>::new());
    assert_eq!(page_order(&vec![5]), vec![0]);
    assert_eq!(page_order(&vec![3, 1, 2]), vec![1, 2, 0]);
    assert_eq!(page_order(&vec![10, 9, 2, 1]), vec![3, 2, 1, 0]);
    assert_eq!(page_order(&vec![-1, i32::MIN, i32::MAX, 0]), vec![1, 0, 3, 2]);
}

#[test]
fn pages_with_equal_numbers_keep_their_listing_order() {
    assert_eq!(page_order(&vec![2, 1, 2, 1, 2]), vec![1, 3, 0, 2, 4]);
    assert_eq!(page_order(&vec![7, 7, 7]), vec![0, 1, 2]);
}

#[test]
fn page_order_agrees_with_a_stable_sort() {
    let numbers = vec![15, 3, 9, 3, 27, 1, 15, 0, -4, 9, 3];
    let mut expected: Vec<usize> = (0..numbers.len()).collect();
    expected.sort_by_key(|i| numbers[*i]);
    assert_eq!(page_order(&numbers), expected);
}

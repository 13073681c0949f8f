use novacl::text::{decimal, last_segment_of, parse_decimal};

#[test]
fn last_segment_follows_the_last_slash() {
    assert_eq!(last_segment_of("/api/versions"), "versions");
    assert_eq!(last_segment_of("/f"), "f");
    assert_eq!(last_segment_of("/a/b/c.tar.gz"), "c.tar.gz");
}

#[test]
fn last_segment_of_a_path_that_ends_in_a_slash_is_empty() {
    assert_eq!(last_segment_of("/"), "");
    assert_eq!(last_segment_of("/dir/"), "");
    assert_eq!(last_segment_of(""), "");
}

#[test]
fn last_segment_of_a_path_without_slash_is_the_path() {
    assert_eq!(last_segment_of("mailto"), "mailto");
}

#[test]
fn last_segment_keeps_characters_beyond_ascii() {
    assert_eq!(last_segment_of("/下载/文件.zip"), "文件.zip");
}

#[test]
fn decimal_writes_numbers_without_leading_zeros() {
    assert_eq!(decimal(0), "0");
    assert_eq!(decimal(7), "7");
    assert_eq!(decimal(10), "10");
    assert_eq!(decimal(249), "249");
    assert_eq!(decimal(1_000_000), "1000000");
    assert_eq!(decimal(u64::MAX), "18446744073709551615");
}

#[test]
fn parse_decimal_reads_digits() {
    assert_eq!(parse_decimal("0"), Some(0));
    assert_eq!(parse_decimal("1000"), Some(1000));
    assert_eq!(parse_decimal("+5"), Some(5));
    assert_eq!(parse_decimal("007"), Some(7));
    assert_eq!(parse_decimal("18446744073709551615"), Some(u64::MAX));
    assert_eq!(parse_decimal("000000000000000000000000000018446744073709551615"), Some(u64::MAX));
}

#[test]
fn parse_decimal_refuses_everything_else() {
    for text in [
        "",
        "+",
        "-",
        "-1",
        "++1",
        "+-1",
        "1+",
        "12a",
        " 12",
        "12 ",
        "1_000",
        "1.0",
        "0x10",
        "１２",
        "12é",
        "é",
        "18446744073709551616",
        "28446744073709551615",
        "99999999999999999999999999",
    ] {
        assert_eq!(parse_decimal(text), None, "{:?}", text);
    }
}

#[test]
fn parse_decimal_agrees_with_the_standard_parser() {
    for text in [
        "", "+", "-", "0", "+0", "-0", "00", "42", "+42", "-42", "4 2", "42\n", "\t42",
        "18446744073709551615", "18446744073709551616", "+18446744073709551615",
        "184467440737095516150", "٣", "1e3",
    ] {
        assert_eq!(parse_decimal(text), text.parse::<u64>().ok(), "{:?}", text);
    }
}

#[test]
fn decimal_is_read_back() {
    for n in [0u64, 1, 9, 10, 99, 100, 12345, u64::MAX / 10, u64::MAX - 1, u64::MAX] {
        assert_eq!(parse_decimal(&decimal(n)), Some(n));
    }
}

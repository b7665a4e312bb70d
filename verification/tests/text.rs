use robswebhub::text::{chars_of, count_text, cut_at, find_char, number_text, read_count, split_lines};

#[test]
fn chars_are_kept_in_order() {
    assert_eq!(chars_of("a:é"), vec!['a', ':', 'é']);
    assert_eq!(chars_of(""), Vec::<char>::new());
}

#[test]
fn find_char_gives_first_position_or_length() {
    let v = chars_of("ab:cd:e");
    assert_eq!(find_char(&v, ':'), 2);
    assert_eq!(find_char(&v, 'x'), 7);
    assert_eq!(find_char(&chars_of(""), ':'), 0);
}

#[test]
fn cut_at_splits_at_first_separator_only() {
    assert_eq!(cut_at("3:1", ':'), Some(("3", "1")));
    assert_eq!(cut_at("a b c", ' '), Some(("a", "b c")));
    assert_eq!(cut_at(":x", ':'), Some(("", "x")));
    assert_eq!(cut_at("x:", ':'), Some(("x", "")));
    assert_eq!(cut_at("abc", ':'), None);
    assert_eq!(cut_at("", ':'), None);
}

#[test]
fn cut_at_counts_characters_not_bytes() {
    assert_eq!(cut_at("é ü", ' '), Some(("é", "ü")));
}

#[test]
fn lines_end_at_lf_or_crlf() {
    assert_eq!(split_lines("a\nb"), vec!["a", "b"]);
    assert_eq!(split_lines("a\r\nb"), vec!["a", "b"]);
    assert_eq!(split_lines("a\r\nb\n"), vec!["a", "b"]);
    assert_eq!(split_lines("a\r\nb\r\n"), vec!["a", "b"]);
}

#[test]
fn empty_text_has_no_lines() {
    assert_eq!(split_lines(""), Vec::<&str>::new());
}

#[test]
fn blank_lines_are_lines() {
    assert_eq!(split_lines("a\n\nb"), vec!["a", "", "b"]);
    assert_eq!(split_lines("\n"), vec![""]);
    assert_eq!(split_lines("\r\n"), vec![""]);
}

#[test]
fn carriage_return_is_kept_where_no_line_feed_follows() {
    assert_eq!(split_lines("a\rb"), vec!["a\rb"]);
    assert_eq!(split_lines("a\r"), vec!["a\r"]);
    assert_eq!(split_lines("a\r\r\nb"), vec!["a\r", "b"]);
}

#[test]
fn counts_are_read_in_base_ten() {
    assert_eq!(read_count("0"), Some(0));
    assert_eq!(read_count("16"), Some(16));
    assert_eq!(read_count("007"), Some(7));
    assert_eq!(read_count("32767"), Some(32767));
    assert_eq!(read_count("+5"), Some(5));
    assert_eq!(read_count("-0"), Some(0));
}

#[test]
fn counts_out_of_range_are_refused() {
    assert_eq!(read_count("32768"), None);
    assert_eq!(read_count("99999999999999999999999999"), None);
    assert_eq!(read_count("-1"), None);
    assert_eq!(read_count("-32768"), None);
}

#[test]
fn counts_that_are_no_numbers_are_refused() {
    assert_eq!(read_count(""), None);
    assert_eq!(read_count("+"), None);
    assert_eq!(read_count("-"), None);
    assert_eq!(read_count("three"), None);
    assert_eq!(read_count("1 "), None);
    assert_eq!(read_count(" 1"), None);
    assert_eq!(read_count("1.5"), None);
    assert_eq!(read_count("++1"), None);
    assert_eq!(read_count("1+"), None);
    assert_eq!(read_count("١"), None);
}

#[test]
fn long_runs_of_zeros_are_read() {
    assert_eq!(read_count("000000000000000000000000000000000001"), Some(1));
}

#[test]
fn numbers_are_written_in_base_ten() {
    assert_eq!(count_text(0), "0");
    assert_eq!(count_text(7), "7");
    assert_eq!(count_text(10), "10");
    assert_eq!(count_text(32767), "32767");
    assert_eq!(count_text(-1), "-1");
    assert_eq!(count_text(-32768), "-32768");
    assert_eq!(number_text(0), "0");
    assert_eq!(number_text(1234567890123), "1234567890123");
    assert_eq!(number_text(u128::MAX), u128::MAX.to_string());
}

#[test]
fn written_counts_read_back() {
    let mut n: i16 = 0;
    loop {
        assert_eq!(read_count(&count_text(n)), Some(n));
        if n == i16::MAX {
            break;
        }
        n += 1;
    }
}

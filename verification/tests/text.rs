use auto_backup::number::{format_count, parse_count};
use auto_backup::text::{split_lines, split_text};
use std::io::BufRead;

#[test]
fn split_gives_one_piece_more_than_separators() {
    assert_eq!(split_text("*.tmp *.log", ' '), vec!["*.tmp", "*.log"]);
    assert_eq!(split_text("a,b,c", ','), vec!["a", "b", "c"]);
    assert_eq!(split_text("abc", ','), vec!["abc"]);
}

#[test]
fn split_keeps_empty_pieces() {
    assert_eq!(split_text("", ' '), vec![""]);
    assert_eq!(split_text(" ", ' '), vec!["", ""]);
    assert_eq!(split_text(" a", ' '), vec!["", "a"]);
    assert_eq!(split_text("a ", ' '), vec!["a", ""]);
    assert_eq!(split_text("a  b", ' '), vec!["a", "", "b"]);
    assert_eq!(split_text(",,", ','), vec!["", "", ""]);
}

#[test]
fn split_counts_characters_not_bytes() {
    assert_eq!(split_text("백업 실행 é", ' '), vec!["백업", "실행", "é"]);
    assert_eq!(split_text("é,ü", ','), vec!["é", "ü"]);
}

#[test]
fn split_agrees_with_the_standard_split() {
    for text in ["", "a", " ", "a b", "  a  b  ", "*.tmp *.log *.", "x y z "] {
        let expected: Vec<String> = text.split(' ').map(|piece| piece.to_string()).collect();
        assert_eq!(split_text(text, ' '), expected);
    }
}

#[test]
fn lines_end_at_line_feeds() {
    assert_eq!(split_lines("a\nb\n"), vec!["a", "b"]);
    assert_eq!(split_lines("a\nb"), vec!["a", "b"]);
    assert_eq!(split_lines("a\n\nb\n"), vec!["a", "", "b"]);
    assert_eq!(split_lines("\n"), vec![""]);
    assert!(split_lines("").is_empty());
}

#[test]
fn lines_lose_the_carriage_return_before_a_line_feed() {
    assert_eq!(split_lines("a\r\nb\r\n"), vec!["a", "b"]);
    assert_eq!(split_lines("\r\n"), vec![""]);
    assert_eq!(split_lines("a\r\r\n"), vec!["a\r"]);
    assert_eq!(split_lines("a\rb\n"), vec!["a\rb"]);
}

#[test]
fn last_line_without_line_feed_keeps_its_carriage_return() {
    assert_eq!(split_lines("a\nb\r"), vec!["a", "b\r"]);
    assert_eq!(split_lines("\r"), vec!["\r"]);
}

#[test]
fn lines_agree_with_the_standard_reader() {
    for text in ["", "\n", "a", "a\n", "a\r\n", "a\r", "a\n\r", "Count\n2\nx,y\n", "\r\n\r\n", "a\r\r\nb"] {
        let expected: Vec<String> = std::io::Cursor::new(text).lines().map(|line| line.unwrap()).collect();
        assert_eq!(split_lines(text), expected);
    }
}

#[test]
fn counts_are_written_in_decimal() {
    assert_eq!(format_count(0), "0");
    assert_eq!(format_count(7), "7");
    assert_eq!(format_count(10), "10");
    assert_eq!(format_count(1203), "1203");
    assert_eq!(format_count(usize::MAX), usize::MAX.to_string());
}

#[test]
fn counts_are_read_from_decimal() {
    assert_eq!(parse_count("0"), 0);
    assert_eq!(parse_count("7"), 7);
    assert_eq!(parse_count("42"), 42);
    assert_eq!(parse_count("007"), 7);
    assert_eq!(parse_count("+5"), 5);
    assert_eq!(parse_count(&usize::MAX.to_string()), usize::MAX);
}

#[test]
fn unreadable_counts_are_zero() {
    assert_eq!(parse_count(""), 0);
    assert_eq!(parse_count("+"), 0);
    assert_eq!(parse_count("-1"), 0);
    assert_eq!(parse_count("++1"), 0);
    assert_eq!(parse_count("1+"), 0);
    assert_eq!(parse_count(" 5"), 0);
    assert_eq!(parse_count("5 "), 0);
    assert_eq!(parse_count("12a"), 0);
    assert_eq!(parse_count("٣"), 0);
    assert_eq!(parse_count("3.0"), 0);
}

#[test]
fn counts_beyond_the_word_are_zero() {
    let mut beyond = usize::MAX.to_string();
    beyond.push('0');
    assert_eq!(parse_count(&beyond), 0);
    assert_eq!(parse_count("340282366920938463463374607431768211456"), 0);
}

#[test]
fn counts_agree_with_the_standard_parser() {
    for text in ["", "0", "+0", "-0", "12", "+12", "0012", "1_000", "18446744073709551615", "18446744073709551616", "x"] {
        assert_eq!(parse_count(text), text.parse::<usize>().unwrap_or(0));
    }
}

#[test]
fn a_written_count_reads_back() {
    for n in [0usize, 1, 9, 10, 99, 100, 65535, 4294967295, usize::MAX] {
        assert_eq!(parse_count(&format_count(n)), n);
    }
}

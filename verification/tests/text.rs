use finshell::number::{read_i32, read_milli, read_u64, scan_digits, Digits};
use finshell::slicing::{join, piece_after, remove_all, shorten, strip_byte};
use finshell::text::{
    bytes_eq, copy_range, find, has, matches_at, seek_byte, split_lines, split_words,
    starts_with, trimmed,
};

fn strings(v: Vec<Vec<u8>>) -> Vec<String> {
    v.into_iter().map(|w| String::from_utf8(w).unwrap()).collect()
}

#[test]
fn words_are_the_runs_between_white_space() {
    assert_eq!(
        strings(split_words(b"cpu  10 20\t30\n40 ")),
        vec!["cpu", "10", "20", "30", "40"]
    );
    assert!(split_words(b"").is_empty());
    assert!(split_words(b" \t\r\n\x0b\x0c").is_empty());
    assert_eq!(strings(split_words(b"one")), vec!["one"]);
}

#[test]
fn lines_drop_their_endings() {
    assert_eq!(strings(split_lines(b"a\nb\r\nc")), vec!["a", "b", "c"]);
    assert_eq!(strings(split_lines(b"a\n")), vec!["a"]);
    assert_eq!(strings(split_lines(b"\n")), vec![""]);
    assert_eq!(strings(split_lines(b"a\n\nb")), vec!["a", "", "b"]);
    assert!(split_lines(b"").is_empty());
}

#[test]
fn a_carriage_return_without_line_feed_stays() {
    assert_eq!(strings(split_lines(b"a\r")), vec!["a\r"]);
    assert_eq!(strings(split_lines(b"a\rb\n")), vec!["a\rb"]);
    assert_eq!(strings(split_lines(b"a\r\r\n")), vec!["a\r"]);
}

#[test]
fn trimmed_takes_white_space_from_both_ends() {
    assert_eq!(trimmed(b"  97\n"), b"97");
    assert_eq!(trimmed(b"a b"), b"a b");
    assert_eq!(trimmed(b" \t "), b"");
    assert_eq!(trimmed(b""), b"");
}

#[test]
fn search_finds_the_first_occurrence() {
    assert_eq!(find(b"a>>b>>c", b">>", 0), Some(1));
    assert_eq!(find(b"a>>b>>c", b">>", 2), Some(4));
    assert_eq!(find(b"a>>b>>c", b">>", 5), None);
    assert_eq!(find(b"abc", b"abcd", 0), None);
    assert_eq!(find(b"abc", b"", 0), Some(0));
    assert_eq!(find(b"abc", b"", 3), Some(3));
    assert_eq!(find(b"abc", b"c", 7), None);
    assert!(has(b"Volume: 0.40 [MUTED]", b"MUTED"));
    assert!(!has(b"Volume: 0.40", b"MUTED"));
    assert!(has(b"firefox", b""));
    assert!(matches_at(b"abc", b"bc", 1));
    assert!(!matches_at(b"abc", b"bc", 2));
    assert!(!matches_at(b"abc", b"bc", 9));
}

#[test]
fn prefix_and_equality() {
    assert!(starts_with(b"workspace>>3", b"workspace>>"));
    assert!(!starts_with(b"workspace", b"workspace>>"));
    assert!(starts_with(b"abc", b""));
    assert!(bytes_eq(b"up", b"up"));
    assert!(!bytes_eq(b"up", b"up "));
    assert!(!bytes_eq(b"up", b"uq"));
}

#[test]
fn seek_and_copy() {
    assert_eq!(seek_byte(b"wifi:home", b':', 0), 4);
    assert_eq!(seek_byte(b"wifi:home", b':', 5), 9);
    assert_eq!(seek_byte(b"", b':', 0), 0);
    assert_eq!(copy_range(b"wifi:home", 5, 9), b"home".to_vec());
    assert_eq!(copy_range(b"wifi:home", 3, 3), Vec::<u8>::new());
}

#[test]
fn unsigned_numbers() {
    assert_eq!(read_u64(b"0"), Some(0));
    assert_eq!(read_u64(b"007"), Some(7));
    assert_eq!(read_u64(b"+15"), Some(15));
    assert_eq!(read_u64(b"18446744073709551615"), Some(u64::MAX));
    assert_eq!(read_u64(b"18446744073709551616"), None);
    assert_eq!(read_u64(b"99999999999999999999999"), None);
    assert_eq!(read_u64(b""), None);
    assert_eq!(read_u64(b"+"), None);
    assert_eq!(read_u64(b"-1"), None);
    assert_eq!(read_u64(b"12a"), None);
    assert_eq!(read_u64(b" 12"), None);
}

#[test]
fn signed_numbers() {
    assert_eq!(read_i32(b"3"), Some(3));
    assert_eq!(read_i32(b"+3"), Some(3));
    assert_eq!(read_i32(b"-3"), Some(-3));
    assert_eq!(read_i32(b"-0"), Some(0));
    assert_eq!(read_i32(b"2147483647"), Some(i32::MAX));
    assert_eq!(read_i32(b"2147483648"), None);
    assert_eq!(read_i32(b"-2147483648"), Some(i32::MIN));
    assert_eq!(read_i32(b"-2147483649"), None);
    assert_eq!(read_i32(b"-"), None);
    assert_eq!(read_i32(b"+-3"), None);
    assert_eq!(read_i32(b""), None);
    assert_eq!(read_i32(b"xyz"), None);
    assert_eq!(read_i32(b"3 "), None);
}

#[test]
fn digit_runs() {
    assert!(matches!(scan_digits(b"a123b", 1, 4, 1000), Digits::Value(123)));
    assert!(matches!(scan_digits(b"a123b", 1, 4, 122), Digits::TooLarge));
    assert!(matches!(scan_digits(b"a123b", 0, 4, 1000), Digits::Invalid));
    assert!(matches!(scan_digits(b"a123b", 2, 2, 0), Digits::Value(0)));
    assert!(matches!(scan_digits(b"5", 0, 1, 4), Digits::TooLarge));
}

#[test]
fn decimal_fractions_in_thousandths() {
    assert_eq!(read_milli(b"0.45"), Some(450));
    assert_eq!(read_milli(b"0.57"), Some(570));
    assert_eq!(read_milli(b"1.00"), Some(1000));
    assert_eq!(read_milli(b"1"), Some(1000));
    assert_eq!(read_milli(b"70."), Some(70000));
    assert_eq!(read_milli(b".5"), Some(500));
    assert_eq!(read_milli(b"+0.125"), Some(125));
    assert_eq!(read_milli(b"0.1239"), Some(123));
    assert_eq!(read_milli(b"0.07"), Some(70));
    assert_eq!(read_milli(b"."), None);
    assert_eq!(read_milli(b""), None);
    assert_eq!(read_milli(b"+"), None);
    assert_eq!(read_milli(b"-0.5"), None);
    assert_eq!(read_milli(b"1e3"), None);
    assert_eq!(read_milli(b"1.2.3"), None);
    assert_eq!(read_milli(b"0.4x"), None);
    assert_eq!(read_milli(b"4294967.295"), Some(u32::MAX));
    assert_eq!(read_milli(b"4294967.294"), Some(u32::MAX - 1));
    assert_eq!(read_milli(b"4294967.296"), Some(u32::MAX));
    assert_eq!(read_milli(b"99999999999999999999"), Some(u32::MAX));
}

#[test]
fn the_second_piece_stands_between_two_separators() {
    assert_eq!(piece_after(b"workspace>>3", b">>"), Some(b"3".to_vec()));
    assert_eq!(piece_after(b"a>>b>>c", b">>"), Some(b"b".to_vec()));
    assert_eq!(piece_after(b"a>>", b">>"), Some(Vec::new()));
    assert_eq!(piece_after(b"abc", b">>"), None);
    assert_eq!(
        piece_after(b"Volume: 0.45 [MUTED]\n", b"Volume: "),
        Some(b"0.45 [MUTED]\n".to_vec())
    );
}

#[test]
fn removing_a_pattern() {
    assert_eq!(remove_all(b"Name=Files", b"Name="), b"Files".to_vec());
    assert_eq!(remove_all(b"Name=Name=x", b"Name="), b"x".to_vec());
    assert_eq!(remove_all(b"aaa", b"aa"), b"a".to_vec());
    assert_eq!(remove_all(b"abc", b""), b"abc".to_vec());
    assert_eq!(remove_all(b"", b"x"), Vec::<u8>::new());
}

#[test]
fn stripping_a_byte() {
    assert_eq!(strip_byte(b"70.", b'.'), b"70");
    assert_eq!(strip_byte(b"..7.0..", b'.'), b"7.0");
    assert_eq!(strip_byte(b"...", b'.'), b"");
    assert_eq!(strip_byte(b"70", b'.'), b"70");
}

#[test]
fn shortening_keeps_characters_whole() {
    assert_eq!(shorten(b"short", 15), b"short".to_vec());
    assert_eq!(shorten(b"exactly15bytes!", 15), b"exactly15bytes!".to_vec());
    assert_eq!(shorten(b"sixteen bytes !!", 15), b"sixteen byte...".to_vec());
    // The twelfth and thirteenth byte are one character of two bytes.
    let name = "elevenbytes\u{e9}andmore".as_bytes();
    assert_eq!(name.len(), 20);
    assert_eq!(shorten(name, 15), b"elevenbytes...".to_vec());
    assert!(String::from_utf8(shorten(name, 15)).is_ok());
}

#[test]
fn joining_with_a_separator() {
    assert_eq!(join(&vec![], b", "), Vec::<u8>::new());
    assert_eq!(join(&vec![b"a".to_vec()], b", "), b"a".to_vec());
    assert_eq!(
        join(&vec![b"a".to_vec(), b"b".to_vec(), b"c".to_vec()], b", "),
        b"a, b, c".to_vec()
    );
    assert_eq!(join(&vec![Vec::new(), Vec::new()], b"-"), b"-".to_vec());
}

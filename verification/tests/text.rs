use slitscan::frame_bytes;
use slitscan::text;

#[test]
fn a_number_is_written_as_the_formatter_writes_it() {
    for n in [0, 1, 9, 10, 99, 100, 720, 1080, 1920, 4_000_000_000, u32::MAX] {
        assert_eq!(text::decimal(n), format!("{n}"));
    }
    assert_eq!(text::size_string((1280, 720)), "1280x720");
}

#[test]
fn a_number_is_read_as_the_standard_library_reads_it() {
    for s in [
        "", "0", "7", "+7", "-7", "-0", "+", "-", "++7", "+-7", "007", "12 ", " 12", "1_2", "1.5",
        "4294967295", "4294967296", "00000000004294967295", "99999999999999999999", "\u{661}", "1x",
    ] {
        let chars: Vec<char> = s.chars().collect();
        assert_eq!(text::parse_number(&chars), s.parse::<u32>().ok(), "{s:?}");
    }
}

#[test]
fn a_size_that_was_written_reads_back() {
    for size in [(1, 1), (97, 53), (1920, 1080), (0, 7), (u32::MAX, u32::MAX)] {
        let chars: Vec<char> = text::size_string(size).chars().collect();
        assert_eq!(text::parse_dimensions(&chars), Some(size));
    }
}

#[test]
fn white_space_is_what_unicode_says_it_is() {
    for c in '\0'..=char::MAX {
        assert_eq!(text::space(c), c.is_whitespace(), "{c:?}");
    }
}

#[test]
fn trimming_takes_white_space_off_both_ends() {
    for s in ["", " ", "a", " a", "a ", "\r\n a b\t\u{3000}", "\u{a0}\u{2003}x\u{85}"] {
        let chars: Vec<char> = s.chars().collect();
        let trimmed: String = text::trim(&chars).iter().collect();
        assert_eq!(trimmed, s.trim(), "{s:?}");
    }
}

#[test]
fn strings_are_joined_with_the_separator_between() {
    let words = |list: &[&str]| -> Vec<String> { list.iter().map(|w| w.to_string()).collect() };
    assert_eq!(text::join(&words(&[]), " "), "");
    assert_eq!(text::join(&words(&["a"]), " "), "a");
    assert_eq!(text::join(&words(&["a", "", "b c"]), "--"), "a----b c");
}

#[test]
fn words_are_pushed_in_order() {
    let mut list = vec!["a".to_string()];
    text::push_word(&mut list, "b");
    text::push_words(&mut list, &vec!["c".to_string(), "d".to_string()]);
    assert_eq!(list, ["a", "b", "c", "d"]);
}

#[test]
fn strings_are_the_same_character_for_character() {
    assert!(text::same("na\u{ef}ve", "na\u{ef}ve"));
    assert!(!text::same("naive", "na\u{ef}ve"));
    assert!(!text::same("a", "ab"));
    assert_eq!(text::characters("na\u{ef}ve"), ['n', 'a', '\u{ef}', 'v', 'e']);
}

#[test]
fn a_frame_is_four_bytes_a_pixel() {
    assert_eq!(frame_bytes((97, 53)), 20_564);
    assert_eq!(frame_bytes((1920, 1080)), 8_294_400);
    assert_eq!(frame_bytes((0, 53)), 0);
}

use uart_readline::util::{assert_eq_u8, get_two_mut_checked, previous_word_cursor_position};
use uart_readline::Line;

/// The line that holds `head` and `tail`, with the cursor between the two.
fn make_line<const LEN: usize>(head: &str, tail: &str) -> Line<LEN> {
    let bytes = [head, tail].concat();
    let mut line = Line::<LEN>::from_u8(bytes.as_bytes());
    line.set_cursor_index(head.len());
    line
}

#[test]
fn test_line_macro() {
    let line = make_line::<2>("a", "b");
    assert!(assert_eq_u8(line.start_to_cursor(), "a"));
    assert!(assert_eq_u8(line.start_to_end(), "ab"));

    let line: Line<2> = make_line("cd", "");
    assert!(assert_eq_u8(line.start_to_cursor(), "cd"));
    assert!(assert_eq_u8(line.start_to_end(), "cd"));

    let line = make_line::<2>("", "ef");
    assert!(assert_eq_u8(line.start_to_cursor(), ""));
    assert!(assert_eq_u8(line.start_to_end(), "ef"));

    assert_eq!(make_line("abc", ""), make_line::<4>("abc", ""))
}

#[test]
fn test_middle_works() {
    let mut arr = [0, 1, 2, 3, 4];
    let (e1, e2) = get_two_mut_checked(1, 2, &mut arr).unwrap();
    assert_eq!(*e1, 1);
    assert_eq!(*e2, 2);
}

#[test]
fn test_middle_rev_works() {
    let mut arr = [0, 1, 2, 3, 4];
    let (e1, e2) = get_two_mut_checked(2, 1, &mut arr).unwrap();
    assert_eq!(*e1, 2);
    assert_eq!(*e2, 1);
}

#[test]
fn test_boundary_works() {
    let mut arr = [0, 1, 2, 3, 4];
    let (e1, e2) = get_two_mut_checked(0, 4, &mut arr).unwrap();
    assert_eq!(*e1, 0);
    assert_eq!(*e2, 4);

    let mut arr = [0, 1, 2, 3, 4];
    let (e1, e2) = get_two_mut_checked(0, 1, &mut arr).unwrap();
    assert_eq!(*e1, 0);
    assert_eq!(*e2, 1);
}

#[test]
fn test_boundary_rev_works() {
    let mut arr = [0, 1, 2, 3, 4];
    let (e1, e2) = get_two_mut_checked(4, 0, &mut arr).unwrap();
    assert_eq!(*e1, 4);
    assert_eq!(*e2, 0);

    let mut arr = [0, 1, 2, 3, 4];
    let (e1, e2) = get_two_mut_checked(1, 0, &mut arr).unwrap();
    assert_eq!(*e1, 1);
    assert_eq!(*e2, 0);
}

#[test]
fn two_mut_writes_reach_the_slice() {
    let mut arr = [0, 1, 2, 3, 4];
    let (e1, e2) = get_two_mut_checked(3, 1, &mut arr).unwrap();
    *e1 = 30;
    *e2 = 10;
    assert_eq!(arr, [0, 10, 2, 30, 4]);
}

#[test]
fn two_mut_refuses_bad_indices() {
    let mut arr = [0, 1, 2];
    assert_eq!(get_two_mut_checked(3, 0, &mut arr), Err("idx1 out of range"));
    assert_eq!(get_two_mut_checked(0, 3, &mut arr), Err("idx2 out of range"));
    assert_eq!(get_two_mut_checked(3, 3, &mut arr), Err("idx1 out of range"));
    assert_eq!(get_two_mut_checked(1, 1, &mut arr), Err("idx1 == idx2; must be different"));
    assert_eq!(arr, [0, 1, 2]);
    let mut none: [u8; 0] = [];
    assert_eq!(get_two_mut_checked(0, 0, &mut none), Err("idx1 out of range"));
}

#[test]
fn assert_eq_u8_compares_bytes() {
    assert!(assert_eq_u8(b"", ""));
    assert!(assert_eq_u8(b"abc", "abc"));
    assert!(!assert_eq_u8(b"abc", "abd"));
    assert!(!assert_eq_u8(b"abc", "ab"));
    assert!(!assert_eq_u8(b"ab", "abc"));
    assert!(assert_eq_u8(&[0xC3, 0xA9], "\u{e9}"));
}

/// Moves the cursor to the start of the word before it, and removes what lies
/// between the two.
fn check_word_move(
    before_input: &str,
    after_input: &str,
    expected_start_to_cursor: &str,
    expected_start_to_end: &str,
    expected_range: core::ops::Range<usize>,
) {
    let buf = [before_input.as_bytes(), after_input.as_bytes()].concat();
    let mut line = Line::<16>::from_u8(&buf);
    line.set_cursor_index(before_input.len());
    let old_cursor = line.cursor_index();
    previous_word_cursor_position(&mut line);
    let new_cursor = line.cursor_index();
    let range = new_cursor..old_cursor;
    assert_eq!(expected_start_to_cursor.as_bytes(), line.start_to_cursor());
    assert_eq!(expected_range, range);

    line.remove_range(range).unwrap();
    assert_eq!(expected_start_to_end.as_bytes(), line.start_to_end());
}

#[test]
fn test_simple_word_move_empty() {
    check_word_move("", "", "", "", 0..0);
}

#[test]
fn test_simple_word_move_only_blanks() {
    check_word_move("   ", "", "", "", 0..3);
}

#[test]
fn test_simple_word_move_at_start() {
    check_word_move("", "   ", "", "   ", 0..0);
}

#[test]
fn test_simple_word_move_after_blank() {
    check_word_move("hello world ", "", "hello ", "hello ", 6..12);
}

#[test]
fn test_simple_word_move_after_word() {
    check_word_move("hello world", " ", "hello ", "hello  ", 6..11);
}

#[test]
fn test_simple_word_move_within_word() {
    check_word_move("hello wo", "rld ", "hello ", "hello rld ", 6..8);
}

#[test]
fn test_simple_word_move_first_word_and_blank() {
    check_word_move("hello ", "world ", "", "world ", 0..6);
}

#[test]
fn test_simple_word_move_first_word() {
    check_word_move("hello", " world ", "", " world ", 0..5);
}

#[test]
fn word_move_stops_at_every_ascii_blank() {
    check_word_move("a\tb", "", "a\t", "a\t", 2..3);
    check_word_move("a\nb", "", "a\n", "a\n", 2..3);
    check_word_move("a\x0Cb", "", "a\x0C", "a\x0C", 2..3);
    check_word_move("a\rb", "", "a\r", "a\r", 2..3);
    check_word_move("a\x0Bb", "", "", "", 0..3);
}

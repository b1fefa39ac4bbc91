use tetrs::highscores::find;
use tetrs::highscores::format_table;
use tetrs::highscores::line_to_slice;
use tetrs::highscores::parse_number;
use tetrs::highscores::parse_numbers;
use tetrs::highscores::parse_table;
use tetrs::highscores::push_decimal;
use tetrs::highscores::push_joined;
use tetrs::highscores::record_result;
use tetrs::highscores::slice_to_string;
use tetrs::highscores::update_vec;

fn bytes(text: &str) -> Vec<u8> {
    text.as_bytes().to_vec()
}

fn by_std(line: &str) -> Vec<u32> {
    line.split(" ").filter_map(|nb| nb.parse::<u32>().ok()).collect()
}

#[test]
fn update_vec_appends_while_the_list_is_short() {
    let mut v = vec![];
    assert!(update_vec(&mut v, 0));
    assert!(update_vec(&mut v, 50));
    assert!(update_vec(&mut v, 7));
    assert!(update_vec(&mut v, 7));
    assert!(update_vec(&mut v, 1));
    assert_eq!(v, vec![0, 50, 7, 7, 1]);
}

#[test]
fn update_vec_overwrites_the_first_entry_beaten() {
    let mut v = vec![10, 5, 8, 3, 7];
    assert!(update_vec(&mut v, 6));
    assert_eq!(v, vec![10, 6, 8, 3, 7]);
    assert!(update_vec(&mut v, 11));
    assert_eq!(v, vec![11, 6, 8, 3, 7]);
    assert!(update_vec(&mut v, 4));
    assert_eq!(v, vec![11, 6, 8, 4, 7]);
}

#[test]
fn update_vec_leaves_out_what_beats_nothing() {
    let mut v = vec![10, 5, 8, 3, 7];
    assert!(!update_vec(&mut v, 3));
    assert!(!update_vec(&mut v, 0));
    assert_eq!(v, vec![10, 5, 8, 3, 7]);
    let mut long = vec![4, 4, 4, 4, 4, 1];
    assert!(update_vec(&mut long, 2));
    assert_eq!(long, vec![4, 4, 4, 4, 4, 2]);
}

#[test]
fn numbers_are_written_in_decimal() {
    for n in [0u32, 1, 9, 10, 11, 99, 100, 101, 1000, 65535, 4294967294, u32::MAX] {
        let mut out = bytes("x");
        push_decimal(&mut out, n);
        assert_eq!(out, bytes(&format!("x{}", n)));
        assert_eq!(slice_to_string(&vec![n]), bytes(&n.to_string()));
    }
}

#[test]
fn lists_are_joined_by_single_spaces() {
    assert_eq!(slice_to_string(&vec![]), bytes(""));
    assert_eq!(slice_to_string(&vec![1, 20, 300]), bytes("1 20 300"));
    assert_eq!(slice_to_string(&vec![0, 0]), bytes("0 0"));
    let mut out = bytes("a:");
    push_joined(&mut out, &vec![5, 4294967295, 0]);
    assert_eq!(out, bytes("a:5 4294967295 0"));
}

#[test]
fn table_text_has_two_lines() {
    assert_eq!(format_table(&vec![1, 2], &vec![3]), bytes("1 2\n3\n"));
    assert_eq!(format_table(&vec![], &vec![]), bytes("\n\n"));
    assert_eq!(format_table(&vec![1200], &vec![17, 4]), bytes("1200\n17 4\n"));
}

#[test]
fn find_stops_at_the_first_mark_or_at_the_end() {
    let text = bytes("ab cd ef");
    assert_eq!(find(&text, 0, 8, b' '), 2);
    assert_eq!(find(&text, 2, 8, b' '), 2);
    assert_eq!(find(&text, 3, 8, b' '), 5);
    assert_eq!(find(&text, 6, 8, b' '), 8);
    assert_eq!(find(&text, 3, 4, b' '), 4);
    assert_eq!(find(&text, 8, 8, b' '), 8);
}

#[test]
fn tokens_spell_numbers_as_u32_does() {
    let tokens = [
        "0", "7", "42", "+42", "007", "4294967295", "4294967296", "99999999999999999999",
        "000000000000000000000000000001", "", "+", "-", "-1", "++1", "+-1", "1+", "1a", "a1",
        " 1", "1\n", "1.0", "0x10", "١",
    ];
    for token in tokens.iter() {
        let text = bytes(token);
        assert_eq!(parse_number(&text, 0, text.len()), token.parse::<u32>().ok(), "{:?}", token);
    }
    let text = bytes("xx123yy");
    assert_eq!(parse_number(&text, 2, 5), Some(123));
    assert_eq!(parse_number(&text, 2, 6), None);
    assert_eq!(parse_number(&text, 3, 3), None);
}

#[test]
fn lines_give_the_numbers_they_spell() {
    assert_eq!(line_to_slice(&bytes("1 2 3")), vec![1, 2, 3]);
    assert_eq!(line_to_slice(&bytes("")), Vec::<u32>::new());
    assert_eq!(line_to_slice(&bytes("   ")), Vec::<u32>::new());
    assert_eq!(line_to_slice(&bytes("1  2")), vec![1, 2]);
    assert_eq!(line_to_slice(&bytes(" 15 ")), vec![15]);
    assert_eq!(
        line_to_slice(&bytes("+7 -3 x 08 4294967295 4294967296")),
        vec![7, 8, 4294967295]
    );
    // Only the space separates: a number with a newline attached is no number.
    assert_eq!(line_to_slice(&bytes("4 5 6\n")), vec![4, 5]);
    assert_eq!(line_to_slice(&bytes("4\t5")), Vec::<u32>::new());
    let text = bytes("skip 10 20 30 rest");
    assert_eq!(parse_numbers(&text, 5, 13), vec![10, 20, 30]);
    assert_eq!(parse_numbers(&text, 5, 12), vec![10, 20, 3]);
}

#[test]
fn lines_are_read_as_std_reads_them() {
    let lines = [
        "", " ", "1", "1 ", " 1", "12 34 56", "a b c", "1 a 2 b 3", "+1 +2", "1  2   3",
        "4294967295 4294967296 0", "00 01 002", "9 8 7 6 5\n", "- + 5",
    ];
    for line in lines.iter() {
        assert_eq!(line_to_slice(&bytes(line)), by_std(line), "{:?}", line);
    }
}

#[test]
fn table_needs_a_newline() {
    assert_eq!(parse_table(&bytes("")), None);
    assert_eq!(parse_table(&bytes("1 2 3")), None);
    assert_eq!(parse_table(&bytes("\n")), Some((vec![], vec![])));
    assert_eq!(parse_table(&bytes("1 2 3\n4 5 6")), Some((vec![1, 2, 3], vec![4, 5, 6])));
    assert_eq!(parse_table(&bytes("\n4 5 6")), Some((vec![], vec![4, 5, 6])));
}

#[test]
fn table_text_read_back_loses_the_last_line_count() {
    // All that follows the first newline is the second line, its final newline included.
    assert_eq!(parse_table(&bytes("1 2 3\n4 5 6\n")), Some((vec![1, 2, 3], vec![4, 5])));
    assert_eq!(parse_table(&bytes("1\n2\n3")), Some((vec![1], vec![])));
    let text = format_table(&vec![900, 40], &vec![9, 3, 1]);
    assert_eq!(parse_table(&text), Some((vec![900, 40], vec![9, 3])));
}

#[test]
fn first_result_starts_the_table() {
    for content in [None, Some(bytes("")), Some(bytes("no table here"))] {
        let verdict = record_result(content, 100, 7);
        assert!(verdict.new_highscore);
        assert!(verdict.new_lines);
        assert_eq!(verdict.text, Some(bytes("100\n7\n")));
    }
}

#[test]
fn result_joins_a_short_table() {
    let verdict = record_result(Some(bytes("50 40\n3 2 1\n")), 45, 1);
    assert!(verdict.new_highscore);
    assert!(verdict.new_lines);
    assert_eq!(verdict.text, Some(bytes("50 40 45\n3 2 1\n")));
}

#[test]
fn result_that_beats_nothing_leaves_a_full_table_alone() {
    let verdict = record_result(Some(bytes("9 8 7 6 5\n9 8 7 6 5 0\n")), 5, 1);
    assert!(!verdict.new_highscore);
    assert!(!verdict.new_lines);
    assert_eq!(verdict.text, None);
}

#[test]
fn result_that_beats_one_list_rewrites_the_table() {
    let verdict = record_result(Some(bytes("9 8 7 6 5\n9 8 7 6 5 0\n")), 7, 2);
    assert!(verdict.new_highscore);
    assert!(!verdict.new_lines);
    assert_eq!(verdict.text, Some(bytes("9 8 7 7 5\n9 8 7 6 5\n")));
    let verdict = record_result(Some(bytes("9 8 7 6 5\n9 8 7 6 5 0\n")), 0, 10);
    assert!(!verdict.new_highscore);
    assert!(verdict.new_lines);
    assert_eq!(verdict.text, Some(bytes("9 8 7 6 5\n10 8 7 6 5\n")));
}

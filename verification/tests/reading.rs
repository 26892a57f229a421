use fileio::{FileError, FileIO};
use std::io::BufRead;

fn found(text: &str) -> Result<Vec<u8>, FileError> {
    Ok(text.as_bytes().to_vec())
}

fn strings(lines: &[&str]) -> Vec<String> {
    lines.iter().map(|line| line.to_string()).collect()
}

#[test]
fn new_keeps_the_path() {
    let editor = FileIO::new("notes/today.txt");
    assert_eq!(editor.path(), "notes/today.txt");
}

#[test]
fn from_path_keeps_the_path() {
    let editor = FileIO::from_path(String::from("notes/today.txt"));
    assert_eq!(editor.path(), "notes/today.txt");
}

#[test]
fn file_is_short_for_new() {
    assert_eq!(fileio::file("a.txt").path(), FileIO::new("a.txt").path());
}

#[test]
fn clone_is_bound_to_the_same_path() {
    let editor = fileio::file("a.txt");
    assert_eq!(editor.clone().path(), "a.txt");
}

#[test]
fn read_all_gives_the_text() {
    let editor = fileio::file("a.txt");
    assert_eq!(editor.read_all(&found("Line 1\nLine 2\n")), Ok(String::from("Line 1\nLine 2\n")));
}

#[test]
fn read_all_decodes_utf8() {
    let editor = fileio::file("a.txt");
    let source = Ok(vec![0x67, 0x72, 0xC3, 0xBC, 0xC3, 0x9F, 0x20, 0xE2, 0x82, 0xAC]);
    assert_eq!(editor.read_all(&source), Ok(String::from("grüß €")));
}

#[test]
fn read_all_of_missing_file_is_not_found() {
    let editor = fileio::file("a.txt");
    assert_eq!(editor.read_all(&Err(FileError::NotFound)), Err(FileError::NotFound));
}

#[test]
fn read_all_passes_a_failure_on() {
    let editor = fileio::file("a.txt");
    assert_eq!(editor.read_all(&Err(FileError::IOFailure)), Err(FileError::IOFailure));
}

#[test]
fn read_all_of_bytes_that_are_no_text_fails() {
    let editor = fileio::file("a.txt");
    assert_eq!(editor.read_all(&Ok(vec![0x61, 0xFF, 0x62])), Err(FileError::IOFailure));
    assert_eq!(editor.read_all(&Ok(vec![0xC3])), Err(FileError::IOFailure));
}

#[test]
fn read_lines_splits_at_newlines() {
    let editor = fileio::file("a.txt");
    assert_eq!(editor.read_lines(&found("a\nb\nc")), Ok(strings(&["a", "b", "c"])));
}

#[test]
fn read_lines_ignores_one_final_newline() {
    let editor = fileio::file("a.txt");
    assert_eq!(editor.read_lines(&found("a\nb\n")), Ok(strings(&["a", "b"])));
    assert_eq!(editor.read_lines(&found("a\nb\n\n")), Ok(strings(&["a", "b", ""])));
    assert_eq!(editor.read_lines(&found("\n")), Ok(strings(&[""])));
}

#[test]
fn read_lines_of_empty_file_is_empty() {
    let editor = fileio::file("a.txt");
    assert_eq!(editor.read_lines(&found("")), Ok(Vec::new()));
}

#[test]
fn read_lines_keeps_empty_lines_in_the_middle() {
    let editor = fileio::file("a.txt");
    assert_eq!(editor.read_lines(&found("a\n\n\nb")), Ok(strings(&["a", "", "", "b"])));
}

#[test]
fn read_lines_drops_carriage_return_before_newline() {
    let editor = fileio::file("a.txt");
    assert_eq!(editor.read_lines(&found("a\r\nb\r\n")), Ok(strings(&["a", "b"])));
    assert_eq!(editor.read_lines(&found("a\r\r\nb")), Ok(strings(&["a\r", "b"])));
    assert_eq!(editor.read_lines(&found("\r\n")), Ok(strings(&[""])));
}

#[test]
fn read_lines_keeps_other_carriage_returns() {
    let editor = fileio::file("a.txt");
    assert_eq!(editor.read_lines(&found("a\rb\nc\r")), Ok(strings(&["a\rb", "c\r"])));
    assert_eq!(editor.read_lines(&found("\r")), Ok(strings(&["\r"])));
}

#[test]
fn read_lines_of_missing_file_is_not_found() {
    let editor = fileio::file("a.txt");
    assert_eq!(editor.read_lines(&Err(FileError::NotFound)), Err(FileError::NotFound));
}

#[test]
fn read_lines_of_bytes_that_are_no_text_fails() {
    let editor = fileio::file("a.txt");
    assert_eq!(editor.read_lines(&Ok(vec![0x61, 0x0A, 0x80])), Err(FileError::IOFailure));
}

#[test]
fn read_lines_agrees_with_a_buffered_reader() {
    let editor = fileio::file("a.txt");
    let samples = [
        "", "a", "a\n", "\n", "\n\n", "a\nb", "a\r\nb\r\n", "a\r", "\r", "\r\n", "\r\r\n", "a\n\rb",
        "one\ntwo\n\nfour\n", "tab\there \n  spaced  \n", "grüß\n€uro\r\n", "\n\r\n\r",
    ];
    for text in samples {
        let expected: Vec<String> =
            std::io::Cursor::new(text.as_bytes()).lines().map(|line| line.unwrap()).collect();
        assert_eq!(editor.read_lines(&found(text)), Ok(expected), "{:?}", text);
    }
}

#[test]
fn read_non_empty_lines_trims_and_drops_blank_lines() {
    let editor = fileio::file("a.txt");
    assert_eq!(
        editor.read_non_empty_lines(&found("  a \n\n \t \n\tb\n   \nc d  ")),
        Ok(strings(&["a", "b", "c d"]))
    );
}

#[test]
fn read_non_empty_lines_trims_unicode_white_space() {
    let editor = fileio::file("a.txt");
    assert_eq!(
        editor.read_non_empty_lines(&found("\u{3000}a\u{00A0}\n\u{2003}\u{2028}\n\u{0085}b c\u{205F}")),
        Ok(strings(&["a", "b c"]))
    );
}

#[test]
fn read_non_empty_lines_of_blank_file_is_empty() {
    let editor = fileio::file("a.txt");
    assert_eq!(editor.read_non_empty_lines(&found(" \n\t\n\r\n")), Ok(Vec::new()));
}

#[test]
fn read_non_empty_lines_of_missing_file_is_not_found() {
    let editor = fileio::file("a.txt");
    assert_eq!(editor.read_non_empty_lines(&Err(FileError::NotFound)), Err(FileError::NotFound));
}

#[test]
fn count_lines_counts_newlines_and_an_open_last_line() {
    let editor = fileio::file("a.txt");
    assert_eq!(editor.count_lines(&found("")), Ok(0));
    assert_eq!(editor.count_lines(&found("a")), Ok(1));
    assert_eq!(editor.count_lines(&found("a\n")), Ok(1));
    assert_eq!(editor.count_lines(&found("a\nb")), Ok(2));
    assert_eq!(editor.count_lines(&found("a\nb\n")), Ok(2));
    assert_eq!(editor.count_lines(&found("\n")), Ok(1));
    assert_eq!(editor.count_lines(&found("\n\n\n")), Ok(3));
}

#[test]
fn count_lines_agrees_with_read_lines_on_text() {
    let editor = fileio::file("a.txt");
    for text in ["", "a", "a\n", "a\r\nb", "\n\n", "grüß\n€\n", "x\n\ny", "\r"] {
        let lines = editor.read_lines(&found(text)).unwrap();
        assert_eq!(editor.count_lines(&found(text)), Ok(lines.len()), "{:?}", text);
    }
}

#[test]
fn count_lines_counts_bytes_that_are_no_text() {
    let editor = fileio::file("a.txt");
    let bytes = vec![0xFF, 0x0A, 0x61, 0x80, 0x0A, 0xC3];
    let expected = std::io::Cursor::new(bytes.clone()).lines().count();
    assert_eq!(expected, 3);
    assert_eq!(editor.count_lines(&Ok(bytes)), Ok(3));
}

#[test]
fn count_lines_of_missing_file_is_not_found() {
    let editor = fileio::file("a.txt");
    assert_eq!(editor.count_lines(&Err(FileError::NotFound)), Err(FileError::NotFound));
    assert_eq!(editor.count_lines(&Err(FileError::IOFailure)), Err(FileError::IOFailure));
}

#[test]
fn is_empty_of_missing_file_is_true() {
    let editor = fileio::file("a.txt");
    assert_eq!(editor.is_empty(&Err(FileError::NotFound)), Ok(true));
}

#[test]
fn is_empty_looks_at_the_bytes() {
    let editor = fileio::file("a.txt");
    assert_eq!(editor.is_empty(&found("")), Ok(true));
    assert_eq!(editor.is_empty(&found("\n")), Ok(false));
    assert_eq!(editor.is_empty(&Ok(vec![0xFF])), Ok(false));
}

#[test]
fn is_empty_passes_other_failures_on() {
    let editor = fileio::file("a.txt");
    assert_eq!(editor.is_empty(&Err(FileError::IOFailure)), Err(FileError::IOFailure));
}

#[test]
fn file_exists_unless_it_was_not_found() {
    let editor = fileio::file("a.txt");
    assert!(editor.file_exists(&found("")));
    assert!(editor.file_exists(&found("a")));
    assert!(editor.file_exists(&Err(FileError::IOFailure)));
    assert!(!editor.file_exists(&Err(FileError::NotFound)));
}

#[test]
fn create_if_missing_creates_an_empty_file() {
    let editor = fileio::file("a.txt");
    assert_eq!(editor.create_if_missing(&Err(FileError::NotFound)), Some(Vec::new()));
}

#[test]
fn create_if_missing_leaves_a_file_alone() {
    let editor = fileio::file("a.txt");
    assert_eq!(editor.create_if_missing(&found("")), None);
    assert_eq!(editor.create_if_missing(&found("a\nb")), None);
    assert_eq!(editor.create_if_missing(&Err(FileError::IOFailure)), None);
}

#[test]
fn read_range_gives_the_lines_in_the_range() {
    let editor = fileio::file("a.txt");
    let source = found("a\nb\nc\nd\ne");
    assert_eq!(editor.read_range(&source, 2, 4), Ok(strings(&["b", "c", "d"])));
    assert_eq!(editor.read_range(&source, 1, 1), Ok(strings(&["a"])));
    assert_eq!(editor.read_range(&source, 5, 5), Ok(strings(&["e"])));
    assert_eq!(editor.read_range(&source, 1, 5), Ok(strings(&["a", "b", "c", "d", "e"])));
}

#[test]
fn read_range_takes_its_ends_in_either_order() {
    let editor = fileio::file("a.txt");
    let source = found("a\nb\nc\nd\ne");
    assert_eq!(editor.read_range(&source, 4, 2), Ok(strings(&["b", "c", "d"])));
    for start in 1..8 {
        for end in 1..8 {
            assert_eq!(
                editor.read_range(&source, start, end),
                editor.read_range(&source, end, start)
            );
        }
    }
}

#[test]
fn read_range_is_clipped_to_the_file() {
    let editor = fileio::file("a.txt");
    let source = found("a\nb\nc");
    assert_eq!(editor.read_range(&source, 2, 10), Ok(strings(&["b", "c"])));
    assert_eq!(editor.read_range(&source, 3, usize::MAX), Ok(strings(&["c"])));
    assert_eq!(editor.read_range(&source, 4, 4), Ok(Vec::new()));
    assert_eq!(editor.read_range(&source, 7, 9), Ok(Vec::new()));
    assert_eq!(editor.read_range(&source, usize::MAX, usize::MAX), Ok(Vec::new()));
}

#[test]
fn read_range_refuses_line_zero() {
    let editor = fileio::file("a.txt");
    let source = found("a\nb\nc");
    assert_eq!(editor.read_range(&source, 0, 2), Err(FileError::InvalidInput));
    assert_eq!(editor.read_range(&source, 2, 0), Err(FileError::InvalidInput));
    assert_eq!(editor.read_range(&source, 0, 0), Err(FileError::InvalidInput));
    assert_eq!(editor.read_range(&Err(FileError::NotFound), 0, 1), Err(FileError::InvalidInput));
}

#[test]
fn read_range_of_unreadable_file_is_empty() {
    let editor = fileio::file("a.txt");
    assert_eq!(editor.read_range(&Err(FileError::NotFound), 1, 3), Ok(Vec::new()));
    assert_eq!(editor.read_range(&Err(FileError::IOFailure), 1, 3), Ok(Vec::new()));
    assert_eq!(editor.read_range(&Ok(vec![0x61, 0x0A, 0xFF]), 1, 3), Ok(Vec::new()));
}

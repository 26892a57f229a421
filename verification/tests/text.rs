use fileio::lines::{join_lines, split_lines, terminate_lines};
use fileio::text::{is_space, replace_all, trim, trim_non_blank};

fn strings(lines: &[&str]) -> Vec<String> {
    lines.iter().map(|line| line.to_string()).collect()
}

#[test]
fn split_lines_gives_the_lines() {
    assert_eq!(split_lines("a\nb\r\nc"), strings(&["a", "b", "c"]));
    assert_eq!(split_lines("a\n\nb\n"), strings(&["a", "", "b"]));
    assert_eq!(split_lines(""), Vec::<String>::new());
    assert_eq!(split_lines("\r\r\ra\r\r\n\r"), strings(&["\r\r\ra\r", "\r"]));
}

#[test]
fn join_lines_puts_newlines_between_the_lines() {
    assert_eq!(join_lines(&strings(&["a", "b", "c"])), "a\nb\nc");
    assert_eq!(join_lines(&strings(&["a"])), "a");
    assert_eq!(join_lines(&strings(&["", ""])), "\n");
    assert_eq!(join_lines(&[]), "");
}

#[test]
fn join_lines_agrees_with_join() {
    let samples: [&[&str]; 5] = [&[], &[""], &["a", "", "b"], &["", "", ""], &["x y", "grüß", "€"]];
    for sample in samples {
        let lines = strings(sample);
        assert_eq!(join_lines(&lines), lines.join("\n"));
    }
}

#[test]
fn split_lines_undoes_join_lines() {
    let lines = strings(&["alpha", "", "beta gamma", "\tdelta"]);
    assert_eq!(split_lines(&join_lines(&lines)), lines);
}

#[test]
fn terminate_lines_puts_a_newline_after_every_line() {
    assert_eq!(terminate_lines(&strings(&["a", "b"])), "a\nb\n");
    assert_eq!(terminate_lines(&strings(&[""])), "\n");
    assert_eq!(terminate_lines(&[]), "");
}

#[test]
fn is_space_agrees_with_char_is_whitespace() {
    for code in 0..=0x10FFFFu32 {
        if let Some(c) = char::from_u32(code) {
            assert_eq!(is_space(c), c.is_whitespace(), "U+{:04X}", code);
        }
    }
}

#[test]
fn is_space_knows_the_white_space_of_ascii() {
    for c in [' ', '\t', '\n', '\r', '\u{0B}', '\u{0C}'] {
        assert!(is_space(c));
    }
    for c in ['a', '0', '_', '\0', '\u{1F}', '\u{200B}', '\u{FEFF}', '\u{180E}'] {
        assert!(!is_space(c));
    }
}

#[test]
fn trim_removes_white_space_at_both_ends() {
    assert_eq!(trim("  a b  "), "a b");
    assert_eq!(trim("\t\r\n x \n"), "x");
    assert_eq!(trim("x"), "x");
    assert_eq!(trim("   "), "");
    assert_eq!(trim(""), "");
    assert_eq!(trim("\u{3000}€\u{2009}\u{00A0}"), "€");
}

#[test]
fn trim_agrees_with_str_trim() {
    for text in ["", " ", "a", " a", "a ", " a b ", "\t\n\r a\u{0B}\u{0C}", "\u{1680}x\u{202F} y\u{2029}"] {
        assert_eq!(trim(text), text.trim(), "{:?}", text);
    }
}

#[test]
fn trim_non_blank_keeps_what_is_left_of_each_line() {
    assert_eq!(
        trim_non_blank(&strings(&[" a ", "", "  ", "b", "\tc d\t"])),
        strings(&["a", "b", "c d"])
    );
    assert_eq!(trim_non_blank(&strings(&["", " "])), Vec::<String>::new());
    assert_eq!(trim_non_blank(&[]), Vec::<String>::new());
}

#[test]
fn replace_all_replaces_from_left_to_right() {
    assert_eq!(replace_all("Line 1\nLine 2", "Line", "Ln"), "Ln 1\nLn 2");
    assert_eq!(replace_all("aaa", "aa", "b"), "ba");
    assert_eq!(replace_all("aaaa", "aa", "b"), "bb");
    assert_eq!(replace_all("abcabc", "bc", ""), "aa");
    assert_eq!(replace_all("abc", "abcd", "x"), "abc");
    assert_eq!(replace_all("abc", "abc", "x"), "x");
    assert_eq!(replace_all("", "a", "x"), "");
}

#[test]
fn replace_all_of_nothing_goes_between_the_characters() {
    assert_eq!(replace_all("ab", "", "-"), "-a-b-");
    assert_eq!(replace_all("", "", "-"), "-");
    assert_eq!(replace_all("ab", "", ""), "ab");
    assert_eq!(replace_all("€¢", "", "."), ".€.¢.");
}

#[test]
fn replace_all_agrees_with_str_replace() {
    let texts = ["", "a", "aaa", "abab", "xaxbxc", "Line 1\nLine 2", "grüß grüß", "ababa", "mississippi"];
    let finds = ["", "a", "aa", "ab", "aba", "x", "Line", "ü", "ss", "issi", "zz"];
    let replacements = ["", "b", "ab", "Ln", "ßß"];
    for text in texts {
        for find in finds {
            for with in replacements {
                assert_eq!(
                    replace_all(text, find, with),
                    text.replace(find, with),
                    "{:?} {:?} {:?}",
                    text,
                    find,
                    with
                );
            }
        }
    }
}

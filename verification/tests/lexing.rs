use pipeline_shell::lex::{split, split_segments, tokenize, trim, Separator};
use pipeline_shell::text::{chars_of, is_whitespace, string_of, strings_of};

fn strs(v: &Vec<Vec<char>>) -> Vec<String> {
    strings_of(v)
}

#[test]
fn chars_and_strings_round_trip() {
    let chars = chars_of("ls -l é");
    assert_eq!(chars, vec!['l', 's', ' ', '-', 'l', ' ', 'é']);
    assert_eq!(string_of(&chars), "ls -l é");
    assert_eq!(string_of(&Vec::new()), "");
}

#[test]
fn string_of_appends_every_character() {
    assert_eq!(string_of(&vec!['a', 'b']), "ab");
    assert_eq!(strings_of(&vec![vec!['a'], vec![], vec!['b', 'c']]), vec!["a", "", "bc"]);
}

#[test]
fn whitespace_is_the_unicode_property() {
    for c in [' ', '\t', '\n', '\u{b}', '\u{c}', '\r', '\u{85}', '\u{a0}', '\u{1680}', '\u{2000}',
        '\u{200a}', '\u{2028}', '\u{2029}', '\u{202f}', '\u{205f}', '\u{3000}']
    {
        assert!(is_whitespace(c), "{:?}", c);
        assert!(c.is_whitespace());
    }
    let others = ['a', '|', '\u{8}', '\u{e}', '\u{1f}', '\u{200b}', '\u{180e}', '\u{feff}'];
    for c in others {
        assert!(!is_whitespace(c), "{:?}", c);
        assert!(!c.is_whitespace());
    }
}

#[test]
fn whitespace_agrees_with_the_standard_library_everywhere() {
    let mut code: u32 = 0;
    while code <= 0x10FFFF {
        if let Some(c) = char::from_u32(code) {
            assert_eq!(is_whitespace(c), c.is_whitespace(), "U+{:04X}", code);
        }
        code += 1;
    }
}

#[test]
fn separator_matches_its_own_characters() {
    assert!(Separator::Pipe.matches('|'));
    assert!(!Separator::Pipe.matches(' '));
    assert!(Separator::Whitespace.matches(' '));
    assert!(Separator::Whitespace.matches('\u{2003}'));
    assert!(!Separator::Whitespace.matches('|'));
}

#[test]
fn split_without_separator_gives_one_piece() {
    assert_eq!(strs(&split(&chars_of("ls -l"), Separator::Pipe)), vec!["ls -l"]);
    assert_eq!(strs(&split(&chars_of(""), Separator::Pipe)), vec![""]);
}

#[test]
fn split_keeps_empty_pieces() {
    assert_eq!(strs(&split(&chars_of("ls || ls"), Separator::Pipe)), vec!["ls ", "", " ls"]);
    assert_eq!(strs(&split(&chars_of("| ls"), Separator::Pipe)), vec!["", " ls"]);
    assert_eq!(strs(&split(&chars_of("ls |"), Separator::Pipe)), vec!["ls ", ""]);
    assert_eq!(strs(&split(&chars_of("|"), Separator::Pipe)), vec!["", ""]);
    assert_eq!(strs(&split(&chars_of("a  b"), Separator::Whitespace)), vec!["a", "", "b"]);
}

#[test]
fn split_pieces_join_to_the_line() {
    for line in ["", "|", "a|b", "ls -l | grep x |", "||a||", "no pipe at all"] {
        let pieces = strs(&split(&chars_of(line), Separator::Pipe));
        assert_eq!(pieces.join("|"), line);
        assert_eq!(pieces.len(), line.matches('|').count() + 1);
        assert!(pieces.iter().all(|p| !p.contains('|')));
        let expected: Vec<&str> = line.split('|').collect();
        assert_eq!(pieces, expected);
    }
}

#[test]
fn trim_removes_both_ends() {
    assert_eq!(string_of(&trim(&chars_of(" \t ls -l \n"))), "ls -l");
    assert_eq!(string_of(&trim(&chars_of("ls"))), "ls");
    assert_eq!(string_of(&trim(&chars_of("\u{3000}a b\u{a0}"))), "a b");
}

#[test]
fn trim_of_blank_is_empty() {
    assert_eq!(string_of(&trim(&chars_of(""))), "");
    assert_eq!(string_of(&trim(&chars_of("   "))), "");
    assert_eq!(string_of(&trim(&chars_of(" \t\r\n"))), "");
}

#[test]
fn trim_agrees_with_the_standard_library() {
    for s in ["", " ", "a", " a", "a ", "  a  b  ", "\t\n x \u{2003}y\u{2003} \n", "\u{200b} z"] {
        assert_eq!(string_of(&trim(&chars_of(s))), s.trim());
    }
}

#[test]
fn tokenize_drops_whitespace_runs() {
    assert_eq!(strs(&tokenize(&chars_of("  grep   -v\tfoo "))), vec!["grep", "-v", "foo"]);
    assert_eq!(strs(&tokenize(&chars_of("ls"))), vec!["ls"]);
    assert_eq!(strs(&tokenize(&chars_of("echo \"a b\""))), vec!["echo", "\"a", "b\""]);
}

#[test]
fn tokenize_of_blank_has_no_word() {
    assert!(tokenize(&chars_of("")).is_empty());
    assert!(tokenize(&chars_of(" \t ")).is_empty());
}

#[test]
fn tokenize_agrees_with_the_standard_library() {
    let lines = ["", " ", "a", " a", "a ", "  a  b  ", "cd /tmp", "\t\n x \u{2003}y\u{2003} \n"];
    for s in lines {
        let expected: Vec<&str> = s.split_whitespace().collect();
        assert_eq!(strs(&tokenize(&chars_of(s))), expected);
        assert_eq!(strs(&tokenize(&trim(&chars_of(s)))), expected);
    }
}

#[test]
fn segments_are_trimmed() {
    assert_eq!(
        strs(&split_segments(&chars_of("cmdA | cmdB | cmdC"))),
        vec!["cmdA", "cmdB", "cmdC"]
    );
    assert_eq!(strs(&split_segments(&chars_of("ls || ls"))), vec!["ls", "", "ls"]);
    assert_eq!(strs(&split_segments(&chars_of("ls -l"))), vec!["ls -l"]);
    assert_eq!(strs(&split_segments(&chars_of("  ls   -l  |wc"))), vec!["ls   -l", "wc"]);
}

#[test]
fn lexing_agrees_with_the_standard_library_on_short_lines() {
    let alphabet = ['a', ' ', '|', '\t', 'c'];
    let mut lines: Vec<String> = vec![String::new()];
    let mut start = 0;
    for _ in 0..6 {
        let end = lines.len();
        for i in start..end {
            for c in alphabet {
                let mut longer = lines[i].clone();
                longer.push(c);
                lines.push(longer);
            }
        }
        start = end;
    }
    assert_eq!(lines.len(), 19531);
    for line in &lines {
        let chars = chars_of(line);
        let cut: Vec<&str> = line.split('|').collect();
        assert_eq!(strs(&split(&chars, Separator::Pipe)), cut);
        let trimmed: Vec<&str> = line.split('|').map(|s| s.trim()).collect();
        assert_eq!(strs(&split_segments(&chars)), trimmed);
        let words: Vec<&str> = line.split_whitespace().collect();
        assert_eq!(strs(&tokenize(&chars)), words);
        assert_eq!(string_of(&trim(&chars)), line.trim());
    }
}

use openwarp::ansi::strip_ansi;
use openwarp::terminal::{blocks_from_output, parse_blocks, Block};
use openwarp::text::{chars_of, is_whitespace, split_lines, string_of, trim_end_len};
use regex::Regex;

fn texts(blocks: Vec<Block>) -> Vec<String> {
    blocks.into_iter().map(|b| b.text).collect()
}

#[test]
fn parse_cases() {
    assert_eq!(texts(parse_blocks("$ echo hi\nhi\n")), vec!["$ echo hi\nhi"]);
    assert_eq!(
        texts(parse_blocks("\u{1b}[31mred\u{1b}[0m\n$ done\n")),
        vec!["red", "$ done"]
    );
}

#[test]
fn coloured_line_and_prompt_make_two_blocks() {
    let blocks = parse_blocks("\x1b[31mred\x1b[0m\n$ done\n");
    assert_eq!(blocks.len(), 2);
    assert_eq!(blocks[0], Block { text: "red".to_string() });
    assert_eq!(blocks[1], Block { text: "$ done".to_string() });
}

#[test]
fn empty_output_has_no_block() {
    assert!(parse_blocks("").is_empty());
    assert!(parse_blocks("\n\n\n").is_empty());
}

#[test]
fn each_prompt_opens_a_block() {
    let out = "$ ls\na\nb\n$ pwd\n/home\n$ exit\n";
    assert_eq!(texts(parse_blocks(out)), vec!["$ ls\na\nb", "$ pwd\n/home", "$ exit"]);
}

#[test]
fn first_block_needs_no_prompt() {
    assert_eq!(texts(parse_blocks("motd\n$ ls\n")), vec!["motd", "$ ls"]);
}

#[test]
fn a_prompt_is_only_seen_at_the_start_of_a_line() {
    assert_eq!(texts(parse_blocks("cost: $ 5\n $ x\n$y\n")), vec!["cost: $ 5\n $ x\n$y"]);
}

#[test]
fn a_prompt_is_seen_once_colour_is_stripped() {
    assert_eq!(
        texts(parse_blocks("one\n\x1b[1;32m$ \x1b[0mls\n")),
        vec!["one", "$ ls"]
    );
}

#[test]
fn empty_lines_before_the_first_block_are_dropped() {
    assert_eq!(texts(parse_blocks("\n\r\n\x1b[0m\nfirst\n\nsecond\n")), vec!["first\n\nsecond"]);
}

#[test]
fn block_text_ends_without_white_space() {
    assert_eq!(texts(parse_blocks("a  \t\n\n\n$ b \u{a0}\n")), vec!["a", "$ b"]);
    assert_eq!(texts(parse_blocks("   \n")), vec![""]);
}

#[test]
fn inner_white_space_and_empty_lines_stay() {
    assert_eq!(texts(parse_blocks("  a\n\n  b\n")), vec!["  a\n\n  b"]);
}

#[test]
fn carriage_returns_before_line_feeds_are_dropped() {
    assert_eq!(texts(parse_blocks("$ a\r\nb\r\n")), vec!["$ a\nb"]);
    assert_eq!(texts(parse_blocks("a\rb\r")), vec!["a\rb"]);
}

#[test]
fn stripping_is_one_pass() {
    assert_eq!(strip_ansi("\x1b[\x1b[0m0m"), "\x1b[0m");
    assert_eq!(texts(parse_blocks("\x1b[\x1b[0m0mx\n")), vec!["\x1b[0mx"]);
}

#[test]
fn strips_what_the_pattern_matches() {
    assert_eq!(strip_ansi("\x1b[31mred\x1b[0m"), "red");
    assert_eq!(strip_ansi("\x1b[1;31;40mx\x1b[K\x1b[2J"), "x");
    assert_eq!(strip_ansi("\x1b[m"), "");
    assert_eq!(strip_ansi("\x1b[;;m"), "");
    assert_eq!(strip_ansi("plain"), "plain");
    assert_eq!(strip_ansi(""), "");
}

#[test]
fn keeps_what_the_pattern_does_not_match() {
    assert_eq!(strip_ansi("\x1b[31"), "\x1b[31");
    assert_eq!(strip_ansi("\x1b[31H"), "\x1b[31H");
    assert_eq!(strip_ansi("\x1b[?25l"), "\x1b[?25l");
    assert_eq!(strip_ansi("\x1b]0;title\x07"), "\x1b]0;title\x07");
    assert_eq!(strip_ansi("\x1b"), "\x1b");
    assert_eq!(strip_ansi("\x1b["), "\x1b[");
    assert_eq!(strip_ansi("[31m"), "[31m");
    assert_eq!(strip_ansi("\x1b[3 1m"), "\x1b[3 1m");
}

fn samples() -> Vec<String> {
    let alphabet = ['\x1b', '[', '0', '7', ';', 'm', 'K', 'J', 'x', ' ', '\u{e9}'];
    let mut out = vec![String::new()];
    let mut last = vec![String::new()];
    for _ in 0..4 {
        let mut next = Vec::new();
        for s in &last {
            for c in alphabet {
                let mut t = s.clone();
                t.push(c);
                next.push(t);
            }
        }
        out.extend(next.iter().cloned());
        last = next;
    }
    for s in [
        "\x1b[31;1mbold\x1b[0m and \x1b[Kclear\x1b[2J",
        "\x1b[\x1b[\x1b[0mmm",
        "\x1b[12;34;56",
        "a\x1b[1mb\x1b[2Kc\x1b[3Jd\x1b[4He",
        "\x1b[0m\x1b[0m\x1b[0m",
        "\x1b\x1b[[0mm",
    ] {
        out.push(s.to_string());
    }
    out
}

#[test]
fn stripping_agrees_with_the_regular_expression() {
    let re = Regex::new(r"\x1b\[[0-9;]*[mKJ]").unwrap();
    for s in samples() {
        assert_eq!(strip_ansi(&s), re.replace_all(&s, "").into_owned(), "input {:?}", s);
    }
}

#[test]
fn white_space_is_what_std_takes_for_it() {
    for code in 0..=0x10ffff_u32 {
        if let Some(c) = char::from_u32(code) {
            assert_eq!(is_whitespace(c), c.is_whitespace(), "U+{:04X}", code);
        }
    }
}

#[test]
fn lines_are_what_std_takes_for_them() {
    let alphabet = ['a', '\n', '\r', ' '];
    let mut all = vec![String::new()];
    let mut last = vec![String::new()];
    for _ in 0..6 {
        let mut next = Vec::new();
        for s in &last {
            for c in alphabet {
                let mut t = s.clone();
                t.push(c);
                next.push(t);
            }
        }
        all.extend(next.iter().cloned());
        last = next;
    }
    for s in all {
        let got: Vec<String> =
            split_lines(&chars_of(&s)).iter().map(|l| string_of(l)).collect();
        let want: Vec<String> = s.lines().map(|l| l.to_string()).collect();
        assert_eq!(got, want, "input {:?}", s);
    }
}

#[test]
fn trimming_is_what_std_takes_for_it() {
    for s in ["", " ", "a", "a ", " a", "a \t\r\n", "a\u{3000}\u{2003}", "\u{85}", "a b  ", "é \u{200b}"] {
        let chars = chars_of(s);
        let n = trim_end_len(&chars);
        assert_eq!(string_of(&chars[..n]), s.trim_end(), "input {:?}", s);
    }
}

#[test]
fn output_bytes_are_decoded_lossily() {
    assert_eq!(texts(blocks_from_output(b"$ echo hi\nhi\n")), vec!["$ echo hi\nhi"]);
    assert_eq!(texts(blocks_from_output(b"a\xffb\n$ c\xc3\n")), vec!["a\u{fffd}b", "$ c\u{fffd}"]);
    assert_eq!(texts(blocks_from_output("gr\u{fc}n\n".as_bytes())), vec!["gr\u{fc}n"]);
}

#[test]
fn blocks_joined_again_are_the_stripped_lines() {
    let out = "$ make\n\x1b[32mok\x1b[0m  \n\n$ ls\na\nb\n";
    let re = Regex::new(r"\x1b\[[0-9;]*[mKJ]").unwrap();
    let stripped: Vec<String> = out.lines().map(|l| re.replace_all(l, "").into_owned()).collect();
    let joined = texts(parse_blocks(out)).join("\n");
    assert_eq!(joined, "$ make\nok\n$ ls\na\nb");
    assert_eq!(stripped.join("\n"), "$ make\nok  \n\n$ ls\na\nb");
}

#[test]
fn blocks_of_well_formed_output_hold_no_control_sequence() {
    let re = Regex::new(r"\x1b\[[0-9;]*[mKJ]").unwrap();
    let out = "\x1b[1m$ \x1b[0mcargo test\n\x1b[32mok\x1b[0m\x1b[K\n\x1b[2J$ \n";
    for block in parse_blocks(out) {
        assert!(!re.is_match(&block.text), "block {:?}", block.text);
    }
}

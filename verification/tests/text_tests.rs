use agent_host::text::{parse_usize, split_lines, trim_chars};

fn chars_of(s: &str) -> Vec<char> {
    s.chars().collect()
}

fn string_of(v: &Vec<char>) -> String {
    v.iter().collect()
}

fn lines(s: &str) -> Vec<String> {
    split_lines(&chars_of(s)).iter().map(|l| string_of(l)).collect()
}

#[test]
fn lines_match_std() {
    for s in ["", "a", "a\n", "a\r\nb", "a\n\nb\n", "\n", "a\r", "x\ry\n"] {
        let expect: Vec<String> = s.lines().map(|l| l.to_string()).collect();
        assert_eq!(lines(s), expect, "{:?}", s);
    }
}

#[test]
fn trim_matches_std() {
    for s in ["  a b \t", "\u{3000}x\u{85}", "", "   "] {
        assert_eq!(string_of(&trim_chars(&chars_of(s))), s.trim());
    }
}

#[test]
fn parse_matches_std() {
    for s in ["0", "42", "+7", "", "+", "-1", "18446744073709551615", "18446744073709551616", "1a"] {
        assert_eq!(parse_usize(&chars_of(s)), s.parse::<usize>().ok(), "{:?}", s);
    }
}

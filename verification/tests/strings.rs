use telora::strings::{
    bytes_of, cat, chars_of, decimal_of, is_white_space, lines_of, lower_chars, octal_of, parse_u32,
    same, split_chars, starts_with, string_of, to_ascii_lower, trimmed, words_of,
};

#[test]
fn white_space_agrees_with_std() {
    for n in 0..=0x10ffffu32 {
        if let Some(c) = char::from_u32(n) {
            assert_eq!(is_white_space(c), c.is_whitespace(), "{n:x}");
            assert_eq!(to_ascii_lower(c), c.to_ascii_lowercase(), "{n:x}");
        }
    }
}

const TEXTS: &[&str] = &[
    "", " ", "a", " a ", "a b", "\ta\u{a0}b\n", "a\r\nb\n\nc", "\n", "\r", "a\r", "a\r\r\nb", "x+y++z",
    "+", "ñandú\u{3000}", "uno\ndos\r\n",
];

#[test]
fn splitting_agrees_with_std() {
    for s in TEXTS {
        let chars = chars_of(s);
        assert_eq!(string_of(&chars), *s);
        assert_eq!(trimmed(s), s.trim());
        let ours: Vec<String> = split_chars(&chars, '+').iter().map(string_of).collect();
        assert_eq!(ours, s.split('+').map(|t| t.to_string()).collect::<Vec<_>>());
        let ours: Vec<String> = lines_of(&chars).iter().map(string_of).collect();
        assert_eq!(ours, s.lines().map(|t| t.to_string()).collect::<Vec<_>>());
        let ours: Vec<String> = words_of(&chars).iter().map(string_of).collect();
        assert_eq!(ours, s.split_whitespace().map(|t| t.to_string()).collect::<Vec<_>>());
        assert_eq!(string_of(&lower_chars(&chars)), s.to_ascii_lowercase());
        assert_eq!(bytes_of(s), s.as_bytes().to_vec());
        for t in TEXTS {
            assert_eq!(starts_with(&chars, t), s.starts_with(t));
            assert_eq!(same(s, t), s == t);
            assert_eq!(cat(s, t), format!("{s}{t}"));
        }
    }
}

#[test]
fn numbers_agree_with_std() {
    for n in [0u64, 7, 8, 9, 10, 63, 64, 511, 1000, 4294967295, 4294967296, u64::MAX] {
        assert_eq!(decimal_of(n), format!("{n}"));
        assert_eq!(octal_of(n), format!("{n:o}"));
    }
    for s in ["", "+", "0", "+7", "007", "42", "-1", "4294967295", "4294967296", "99999999999999999999999", "1 ", "a", "++1"] {
        assert_eq!(parse_u32(&chars_of(s)), s.parse::<u32>().ok(), "{s:?}");
    }
}

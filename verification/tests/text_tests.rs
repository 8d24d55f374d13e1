use grindbot::text::{lines_of, parse_u16, parse_u64, replace_chars, trim_chars, u64_to_string, words_of};

fn chars(s: &str) -> Vec<char> {
    s.chars().collect()
}

fn strings(v: Vec<Vec<char>>) -> Vec<String> {
    v.into_iter().map(|c| c.into_iter().collect()).collect()
}

#[test]
fn unsigned_parsing_matches_std() {
    for s in ["0", "42", "+7", "", "+", "-1", "18446744073709551615", "18446744073709551616", "1a", " 1"] {
        assert_eq!(parse_u64(&chars(s)), s.parse::<u64>().ok(), "{s:?}");
    }
    for s in ["65535", "65536", "8080", "+0"] {
        assert_eq!(parse_u16(&chars(s)), s.parse::<u16>().ok(), "{s:?}");
    }
}

#[test]
fn lines_and_words_match_std() {
    for s in ["a\nb", "a\r\nb\n", "\n\n", "", "x", "x\r"] {
        assert_eq!(strings(lines_of(&chars(s))), s.lines().map(String::from).collect::<Vec<_>>(), "{s:?}");
    }
    for s in ["  a b\tc ", "", "one", " \u{3000}x"] {
        assert_eq!(strings(words_of(&chars(s))), s.split_whitespace().map(String::from).collect::<Vec<_>>(), "{s:?}");
    }
}

#[test]
fn replace_and_trim_match_std() {
    for (s, f, t) in [("aaa", "aa", "b"), ("x{a}y{a}", "{a}", "1"), ("\n", "\n", "\n> ")] {
        let r: String = replace_chars(&chars(s), &chars(f), &chars(t)).into_iter().collect();
        assert_eq!(r, s.replace(f, t));
    }
    let t: String = trim_chars(&chars(" \t x y \n")).into_iter().collect();
    assert_eq!(t, "x y");
    assert_eq!(u64_to_string(1234567890), "1234567890");
    assert_eq!(u64_to_string(0), "0");
}

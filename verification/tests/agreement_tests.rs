use cheesecake::charclass::{ascii_char, digit_char, link_inner_char, link_last_char, whitespace_char, word_char};
use cheesecake::text::{
    collect, decimal, escape, has_prefix, join_path, lower, pieces, replace_all, str_eq, to_chars, wrap,
};

fn every_char() -> impl Iterator<Item = char> {
    (0u32..=0x10_ffff).filter_map(char::from_u32)
}

#[test]
fn white_space_is_that_of_the_standard_library() {
    for c in every_char() {
        assert_eq!(whitespace_char(c), c.is_whitespace(), "{:?}", c);
    }
}

#[test]
fn ascii_word_characters_are_those_of_the_pattern_class() {
    let word = regex::Regex::new(r"^\w$").unwrap();
    let digit = regex::Regex::new(r"^\d$").unwrap();
    for c in every_char().take_while(|c| c.is_ascii()) {
        assert!(ascii_char(c));
        assert_eq!(word_char(c), word.is_match(&c.to_string()), "{:?}", c);
        assert_eq!(digit_char(c), digit.is_match(&c.to_string()), "{:?}", c);
    }
    assert!(!ascii_char('\u{80}'));
}

#[test]
fn characters_beyond_ascii_are_classed_by_the_pattern_classes() {
    let word = regex::Regex::new(r"^\w$").unwrap();
    let digit = regex::Regex::new(r"^\d$").unwrap();
    for c in ['\u{e9}', '\u{661}', '\u{2014}', '\u{30c4}', '\u{1f600}', '\u{203f}', '\u{ff11}', '\u{b2}'] {
        assert_eq!(word_char(c), word.is_match(&c.to_string()), "{:?}", c);
        assert_eq!(digit_char(c), digit.is_match(&c.to_string()), "{:?}", c);
    }
    assert!(digit_char('\u{661}'));
    assert!(!digit_char('\u{b2}'));
    assert!(word_char('\u{e9}'));
    assert!(!word_char('\u{2014}'));
}

#[test]
fn address_characters_are_those_of_the_link_pattern() {
    let inner = regex::Regex::new(r"^[-A-Za-z0-9+&@#/%?=~_|!:,.;]$").unwrap();
    let last = regex::Regex::new(r"^[A-Za-z0-9+&@#/%=~_|]$").unwrap();
    for c in every_char().take(0x3000) {
        assert_eq!(link_inner_char(c), inner.is_match(&c.to_string()), "{:?}", c);
        assert_eq!(link_last_char(c), last.is_match(&c.to_string()), "{:?}", c);
    }
}

#[test]
fn lower_case_is_that_of_the_standard_library() {
    let all: String = every_char().take(0x800).collect();
    assert_eq!(lower(&all), all.to_ascii_lowercase());
    assert_eq!(lower("PNG.JpG"), "png.jpg");
}

#[test]
fn decimal_is_that_of_the_standard_library() {
    for n in [0u64, 1, 9, 10, 11, 99, 100, 12345, 1_000_000_007, u64::MAX - 1, u64::MAX] {
        assert_eq!(decimal(n), n.to_string());
    }
}

#[test]
fn replacing_is_that_of_the_standard_library() {
    for (s, from, to) in [
        ("a\nb\n\nc", "\n", "<br>"),
        ("{} and {}", "{}", "SELECT"),
        ("{{}}", "{}", "x"),
        ("aaa", "aa", "b"),
        ("abc", "abcd", "x"),
        ("", "x", "y"),
        ("\u{e9}x\u{e9}", "\u{e9}", ""),
        ("xyxyx", "xyx", "-"),
    ] {
        assert_eq!(replace_all(s, from, to), s.replace(from, to));
    }
}

#[test]
fn strings_are_equal_where_their_characters_are() {
    assert!(str_eq("", ""));
    assert!(str_eq("default", "default"));
    assert!(!str_eq("default", "defaulT"));
    assert!(!str_eq("default", "defaults"));
    assert!(str_eq("\u{30c4}\u{e9}", "\u{30c4}\u{e9}"));
    assert!(!str_eq("\u{30c4}", "\u{30c5}"));
}

#[test]
fn pieces_are_those_of_the_standard_library() {
    for (s, c) in [("a b  c", ' '), ("", ' '), (" ", ' '), ("a-b", '-'), ("1,2,3", ','), ("x", ':'), ("::", ':')] {
        let expected: Vec<String> = s.split(c).map(String::from).collect();
        assert_eq!(pieces(s, c), expected);
    }
}

#[test]
fn prefixes_and_slices() {
    assert!(has_prefix("SPOILER_x", "SPOILER_"));
    assert!(has_prefix("x", ""));
    assert!(!has_prefix("SPOILER", "SPOILER_"));
    assert!(!has_prefix("spoiler_x", "SPOILER_"));
    let chars = to_chars("a\u{e9}\u{30c4}b");
    assert_eq!(chars, vec!['a', '\u{e9}', '\u{30c4}', 'b']);
    assert_eq!(collect(&chars, 1, 3), "\u{e9}\u{30c4}");
    assert_eq!(collect(&chars, 2, 2), "");
    assert_eq!(wrap("<b>", "x", "</b>"), "<b>x</b>");
}

#[test]
fn escaping_is_that_of_the_escaping_crate() {
    for s in ["", "plain", "a < b & c > d", "&&<<>>", "\u{e9}<\u{30c4}>&amp;", "\"quotes\" and 'these' / stay"] {
        assert_eq!(escape(s), html_escape::encode_text(s).into_owned());
    }
    assert_eq!(escape("<b>&</b>"), "&lt;b&gt;&amp;&lt;/b&gt;");
}

#[test]
fn joining_is_that_of_paths_with_slashes() {
    for (base, child) in [
        ("backup", "avatars"),
        ("backup/avatars", "a.png"),
        ("backup/", "a.png"),
        ("", "a.png"),
        ("backup", "/abs/a.png"),
        ("backup", ""),
        ("", ""),
        ("/", "x"),
        ("a/b", "c/d.e"),
        ("caf\u{e9}", "\u{30c4}"),
    ] {
        let expected = std::path::Path::new(base).join(child).to_string_lossy().into_owned();
        if std::path::MAIN_SEPARATOR == '/' {
            assert_eq!(join_path(base, child), expected, "{:?} {:?}", base, child);
        }
    }
    assert_eq!(join_path("backup/avatars", "a.png"), "backup/avatars/a.png");
    assert_eq!(join_path("backup", "/abs"), "/abs");
    assert_eq!(join_path("backup/", "a"), "backup/a");
    assert_eq!(join_path("", "a"), "a");
}

use web_transport::text::{
    chars_of, contains, cut_at, is_whitespace, push_decimal, push_decimal_int, same, split_words,
    starts_with, to_upper, trim, upper_chars,
};

#[test]
fn whitespace_is_that_of_unicode() {
    for n in 0..0x11_0000_u32 {
        if let Some(c) = char::from_u32(n) {
            assert_eq!(is_whitespace(c), c.is_whitespace());
            assert_eq!(to_upper(c), c.to_ascii_uppercase());
        }
    }
}

#[test]
fn words_are_split_at_whitespace() {
    for s in ["", "  ", "a", " a  b\tc\n", "a\u{2009}b", "\u{85}x\u{1680}"] {
        let expected: Vec<String> = s.split_whitespace().map(str::to_owned).collect();
        assert_eq!(split_words(s), expected);
        assert_eq!(trim(s), s.trim());
    }
}

#[test]
fn cut_is_at_the_first_separator() {
    assert_eq!(cut_at("a=b=c", '='), Some(("a", "b=c")));
    assert_eq!(cut_at("=", '='), Some(("", "")));
    assert_eq!(cut_at("abc", '='), None);
}

#[test]
fn search_finds_a_part_anywhere() {
    let hay = chars_of("приветhello");
    assert!(contains(&hay, "hello"));
    assert!(contains(&hay, "тhe"));
    assert!(contains(&hay, ""));
    assert!(!contains(&hay, "helloo"));
    assert!(!contains(&hay, "приветhello!"));
    assert!(starts_with("addin.kill", "addin."));
    assert!(!starts_with("addin", "addin."));
    assert!(same("я", "я"));
    assert!(!same("я", "Я"));
    assert_eq!(upper_chars("aZя1"), vec!['A', 'Z', 'я', '1']);
}

#[test]
fn numerals_are_those_of_format() {
    for n in [0, 7, 9, 10, 11, 99, 100, 4_294_967_295, u64::MAX] {
        let mut s = "n=".to_owned();
        push_decimal(&mut s, n);
        assert_eq!(s, format!("n={}", n));
    }
    for n in [0, 1, -1, 42, -32601, i32::MAX, i32::MIN] {
        let mut s = String::new();
        push_decimal_int(&mut s, n);
        assert_eq!(s, format!("{}", n));
    }
}

use testauskameli::text::{
    chars_of, contains, decimal, escape_backticks, find, join, parse_usize, rfind, split_range,
    split_whitespace, starts_with, string_of, trim_bounds, truncate,
};

fn v(s: &str) -> Vec<char> {
    s.chars().collect()
}

#[test]
fn find_gives_first_occurrence() {
    assert_eq!(find(&v("a```c b```c"), &v("```c")), Some(1));
    assert_eq!(find(&v("abc"), &v("x")), None);
    assert_eq!(find(&v("abc"), &v("")), Some(0));
    assert_eq!(find(&v("ab"), &v("abc")), None);
}

#[test]
fn rfind_gives_last_occurrence() {
    assert_eq!(rfind(&v("```a```b````"), &v("```")), Some(9));
    assert_eq!(rfind(&v("abc"), &v("x")), None);
    assert_eq!(rfind(&v("abc"), &v("")), Some(3));
}

#[test]
fn contains_matches_std() {
    for (s, p) in [("hello", "ll"), ("hello", "lo!"), ("", ""), ("é€x", "€x")] {
        assert_eq!(contains(&v(s), &v(p)), s.contains(p));
    }
}

#[test]
fn chars_and_strings_round_trip() {
    let s = "héllo 🦀";
    assert_eq!(chars_of(s), v(s));
    assert_eq!(string_of(&v(s)), s);
}

#[test]
fn truncate_keeps_whole_characters() {
    let mut s = String::from("aé€🦀");
    truncate(&mut s, 3);
    assert_eq!(s, "aé");
    let mut s = String::from("aé€🦀");
    truncate(&mut s, 100);
    assert_eq!(s, "aé€🦀");
    let mut s = String::from("aé€🦀");
    truncate(&mut s, 6);
    assert_eq!(s, "aé€");
    let mut s = String::from("abc");
    truncate(&mut s, 0);
    assert_eq!(s, "");
}

#[test]
fn trim_bounds_match_std_trim() {
    for s in ["  a b \n", "\u{3000}x\u{85}", "   ", "", "x"] {
        let c = v(s);
        let (a, b) = trim_bounds(&c, 0);
        let t: String = c[a..b].iter().collect();
        assert_eq!(t, s.trim());
    }
}

#[test]
fn split_range_matches_std_split() {
    for s in ["a\nb", "", "\n", "a\n", "\nx\n\ny"] {
        let c = v(s);
        let parts = split_range(&c, 0, c.len(), '\n');
        let expected: Vec<String> = s.split('\n').map(|x| x.to_string()).collect();
        assert_eq!(parts, expected);
    }
}

#[test]
fn join_puts_separator_between() {
    let parts = vec!["a".to_string(), "b".to_string(), "c".to_string()];
    assert_eq!(join(&parts, ","), "a,b,c");
    assert_eq!(join(&vec![], ","), "");
    assert_eq!(join(&vec!["x".to_string()], ","), "x");
}

#[test]
fn split_whitespace_matches_std() {
    for s in ["  -O2   -Wall\t-threaded ", "", "   ", "one"] {
        let words = split_whitespace(s);
        let expected: Vec<String> = s.split_whitespace().map(|x| x.to_string()).collect();
        assert_eq!(words, expected);
    }
}

#[test]
fn escape_backticks_escapes_each() {
    assert_eq!(escape_backticks("a`b``"), "a\\`b\\`\\`");
    assert_eq!(escape_backticks("plain"), "plain");
}

#[test]
fn decimal_writes_numbers() {
    assert_eq!(decimal(0), "0");
    assert_eq!(decimal(40000), "40000");
    assert_eq!(decimal(u64::MAX), u64::MAX.to_string());
}

#[test]
fn parse_usize_matches_std() {
    for s in ["0", "+12", "007", "-1", "", "+", "1a", "18446744073709551615", "18446744073709551616", "99999999999999999999"] {
        assert_eq!(parse_usize(s), s.parse::<usize>().ok(), "{}", s);
    }
}

#[test]
fn parse_reads_back_decimal() {
    for n in [0u64, 7, 10, 1000000000, 100000000000] {
        assert_eq!(parse_usize(&decimal(n)), Some(n as usize));
    }
}

#[test]
fn starts_with_checks_prefix() {
    assert!(starts_with("video/mp4", "video/"));
    assert!(!starts_with("image/png", "video/"));
    assert!(!starts_with("vid", "video/"));
}

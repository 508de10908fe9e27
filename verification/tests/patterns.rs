use regex::Regex;
use testauskameli::snippets::latex::latex_math;
use testauskameli::snippets::nomeme::meme_subject;

fn samples() -> Vec<String> {
    let mut v: Vec<String> = [
        "no bitches?", "no  way? really?", "nothing?", "no\nfoo?", "no x\n?", "so no?? no problem?",
        "no ?", "no", "no \t\u{3000} x ?? y", "NO way?", "a no b\nno c?", "no \n\n ok?", "nono  x?",
        "no\r\nx?", "$x$", "$", "a$b$c$d", "$\n$", "no $money$?", "", "no\u{85}x?", "no\u{200b}x?",
        "é no ünïcødé? ok", "no\n", "no   \n", "no x?\nno y?", "no \u{2028}z?",
    ]
    .iter()
    .map(|s| s.to_string())
    .collect();
    let alphabet = ['n', 'o', ' ', '\n', '?', 'x', '$', '\t'];
    let mut seed: u64 = 12345;
    for _ in 0..3000 {
        let mut s = String::new();
        seed = seed.wrapping_mul(6364136223846793005).wrapping_add(1442695040888963407);
        let len = (seed >> 59) as usize;
        for _ in 0..len {
            seed = seed.wrapping_mul(6364136223846793005).wrapping_add(1442695040888963407);
            s.push(alphabet[(seed >> 61) as usize]);
        }
        v.push(s);
    }
    v
}

#[test]
fn meme_subject_agrees_with_regex() {
    let re = Regex::new(r"no\s+(.*)?\?").unwrap();
    for s in samples() {
        let expected = re.captures_iter(&s).next().map(|c| c.get(1).unwrap().as_str().to_string());
        assert_eq!(meme_subject(&s), expected, "{:?}", s);
    }
}

#[test]
fn latex_math_agrees_with_regex() {
    let re = Regex::new(r"\$([^$]*)\$").unwrap();
    for s in samples() {
        let expected = re.captures(&s).map(|c| c.get(1).unwrap().as_str().to_string());
        assert_eq!(latex_math(&s), expected, "{:?}", s);
    }
}

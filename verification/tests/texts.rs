use roco_battle::text::{
    contains, ends_with, find, find_all, join, leading, lines, shorten, split, split_once, starts_with, strip_prefix,
    text_after, text_after_last, text_before, trailing, trim, trim_end, trim_of, trim_parts, trim_prefix, trim_start,
    CharClass,
};

const SAMPLES: [&str; 14] = [
    "", " ", "a", " a b ", "\u{3000}全角\u{3000}", "a\nb", "a\r\nb\n", "\n\n", "x\r", "a,b,,c,", "//a//", "【回合 1】",
    "\u{85}\u{a0}\u{2003}é\u{200b}", "、、a、",
];

#[test]
fn trimming() {
    for s in SAMPLES {
        assert_eq!(trim(s), s.trim());
        assert_eq!(trim_end(s, CharClass::Only('/')), s.trim_end_matches('/'));
        assert_eq!(trim_start(s, CharClass::Only('/')), s.trim_start_matches('/'));
        assert_eq!(trim_of(s, CharClass::Only('、')), s.trim_matches('、'));
        assert_eq!(trim_prefix(s, "、"), s.trim_start_matches("、"));
    }
    assert_eq!(trim_prefix("ababac", "ab"), "ac");
    assert_eq!(trim_prefix("ab", ""), "ab");
}

#[test]
fn white_space_is_that_of_unicode() {
    for n in 0..0x3100u32 {
        if let Some(c) = char::from_u32(n) {
            assert_eq!(CharClass::Space.test(c), c.is_whitespace());
            assert_eq!(CharClass::Digit.test(c), c.is_ascii_digit());
        }
    }
}

#[test]
fn lines_and_pieces() {
    for s in SAMPLES {
        assert_eq!(lines(s), s.lines().map(|l| l.to_string()).collect::<Vec<_>>());
        assert_eq!(split(s, ','), s.split(',').map(|l| l.to_string()).collect::<Vec<_>>());
        assert_eq!(split_once(s, 'b'), s.split_once('b'));
        let kept: Vec<String> = s.lines().map(str::trim).filter(|l| !l.is_empty()).map(|l| l.to_string()).collect();
        assert_eq!(trim_parts(&lines(s)), kept);
    }
}

#[test]
fn searching() {
    let t = "A方 甲 使用 [水枪]，使用 [火苗]";
    for pat in ["", "A", "使用 [", "火苗]", "没有", "A方 甲 使用 [水枪]，使用 [火苗]x"] {
        assert_eq!(contains(t, pat), t.contains(pat));
        assert_eq!(starts_with(t, pat), t.starts_with(pat));
        assert_eq!(ends_with(t, pat), t.ends_with(pat));
        assert_eq!(strip_prefix(t, pat), t.strip_prefix(pat));
        assert_eq!(find(t, pat), t.find(pat).map(|i| t[..i].chars().count()));
        assert_eq!(text_before(t, pat), t.find(pat).map(|i| &t[..i]));
        assert_eq!(text_after(t, pat), t.find(pat).map(|i| &t[i + pat.len()..]));
    }
    assert_eq!(find_all(t, "使用"), vec![5, 13]);
    assert_eq!(find_all(t, "没有"), Vec::<usize>::new());
    assert_eq!(text_after_last("一。二。三", '。'), Some("三"));
    assert_eq!(text_after_last("一", '。'), None);
    assert_eq!(leading("12a3", CharClass::Digit), "12");
    assert_eq!(leading("1.2.a", CharClass::Numeral), "1.2.");
    assert_eq!(trailing("a12", CharClass::Digit), "12");
}

#[test]
fn joining_and_shortening() {
    let v = |s: &[&str]| s.iter().map(|x| x.to_string()).collect::<Vec<_>>();
    for parts in [&[][..], &["a"][..], &["a", "", "b"][..]] {
        assert_eq!(join(&v(parts), "，"), parts.join("，"));
    }
    assert_eq!(shorten("一二三", 2), "一二");
    assert_eq!(shorten("一二三", 3), "一二三");
    assert_eq!(shorten("一二三", 9), "一二三");
    assert_eq!(shorten("一二三", 0), "");
}

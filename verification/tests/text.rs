use gws::text::{
    begins_with, concatenated, copy_texts, holds_text, is_blank, is_white_space, join_texts,
    same_text, sandwich, split_at_char, trim_text,
};

#[test]
fn white_space_is_that_of_unicode() {
    for n in 0..=0x10ffff_u32 {
        if let Some(c) = char::from_u32(n) {
            assert_eq!(is_white_space(c), c.is_whitespace(), "{n:x}");
        }
    }
}

const SAMPLES: [&str; 9] = [
    "",
    " ",
    "drive",
    " drive ,gmail",
    "a,,b,",
    ",",
    "\u{a0}\u{3000}x y\u{2028}",
    "na\u{ef}ve_\u{1f600}_x",
    "\t\r\n",
];

#[test]
fn splitting_and_trimming_agree_with_the_standard_library() {
    for s in SAMPLES {
        for sep in [',', '_', '\u{1f600}'] {
            let expected: Vec<&str> = s.split(sep).collect();
            assert_eq!(split_at_char(s, sep), expected);
            let mut mark = String::new();
            mark.push(sep);
            assert_eq!(join_texts(&split_at_char(s, sep), &mark), s);
        }
        assert_eq!(trim_text(s), s.trim());
        assert_eq!(is_blank(s), s.trim().is_empty());
        for t in SAMPLES {
            assert_eq!(same_text(s, t), s == t);
            assert_eq!(begins_with(s, t), s.starts_with(t));
        }
    }
}

#[test]
fn lists_of_texts() {
    let list = vec!["a".to_string(), "bc".to_string()];
    assert!(holds_text(&list, "bc"));
    assert!(!holds_text(&list, "b"));
    assert_eq!(copy_texts(&list), list);
    assert_eq!(join_texts(&list, ", "), "a, bc");
    assert_eq!(join_texts(&vec![], ", "), "");
    assert_eq!(concatenated("x", "yz"), "xyz");
    assert_eq!(sandwich("<", "m", ">"), "<m>");
}

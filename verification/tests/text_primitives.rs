use about_sys::report::{
    ARCH_LABEL, CONTINUATION, CORES_LABEL, CPU_SPEED_LABEL, DISK_LABEL, DISTRIBUTION_LABEL,
    ENDIANNESS_LABEL, GPU_LABEL, HOSTNAME_LABEL, IP_LABEL, OS_LABEL, OS_VERSION_LABEL, RAM_LABEL,
};
use about_sys::text::{
    char_in_class, chars_of, find_str, nth_token, string_of, text_from_bytes_lossy, trim_range,
    CharClass,
};

#[test]
fn whitespace_class_matches_std() {
    for code in 0u32..0x3100 {
        if let Some(c) = char::from_u32(code) {
            assert_eq!(char_in_class(c, CharClass::Whitespace), c.is_whitespace(), "char {:#x}", code);
        }
    }
}

#[test]
fn trim_matches_std() {
    for t in ["", "  ", " a ", "\u{3000}b\u{a0}", "\"'q'\"", "x\t\n", "\u{200b}z"] {
        let cs = chars_of(t);
        let (a, b) = trim_range(&cs, 0, cs.len(), CharClass::Whitespace);
        assert_eq!(string_of(&cs, a, b), t.trim(), "text = {:?}", t);
        let (a, b) = trim_range(&cs, 0, cs.len(), CharClass::Quote);
        assert_eq!(string_of(&cs, a, b), t.trim_matches(|c| c == '"' || c == '\''), "text = {:?}", t);
    }
}

#[test]
fn words_match_split_whitespace() {
    for t in ["", " one  two\tthree ", "single", "\u{2003}a\u{2003}b"] {
        let cs = chars_of(t);
        let words: Vec<&str> = t.split_whitespace().collect();
        for n in 0..4 {
            let got = nth_token(&cs, 0, cs.len(), n).map(|(a, b)| string_of(&cs, a, b));
            assert_eq!(got.as_deref(), words.get(n).copied(), "text = {:?}, word {}", t, n);
        }
    }
}

#[test]
fn substring_search_matches_std() {
    for (t, p) in [("abcabc", "ca"), ("abc", ""), ("", "a"), ("aaab", "aab"), ("xyz", "xyzw")] {
        let cs = chars_of(t);
        let pat = chars_of(p);
        let got = find_str(&cs, 0, cs.len(), &pat);
        let want = t.find(p).map(|byte| t[..byte].chars().count());
        assert_eq!(got, want, "text = {:?}, pattern = {:?}", t, p);
    }
}

#[test]
fn lossy_decoding() {
    assert_eq!(text_from_bytes_lossy("héllo".as_bytes()), "héllo");
    assert_eq!(text_from_bytes_lossy(b"a\xc3b"), "a\u{fffd}b");
}

#[test]
fn labels_line_up() {
    // Without the variation selectors, every label takes 23 characters, and the
    // indentation of list entries 24 columns, the width of an emoji and 22 spaces.
    for label in [
        HOSTNAME_LABEL, OS_LABEL, OS_VERSION_LABEL, DISTRIBUTION_LABEL, ARCH_LABEL,
        ENDIANNESS_LABEL, CORES_LABEL, CPU_SPEED_LABEL, GPU_LABEL, RAM_LABEL, DISK_LABEL, IP_LABEL,
    ] {
        assert_eq!(label.chars().filter(|&c| c != '\u{fe0f}').count(), 23, "label {:?}", label);
    }
    assert_eq!(CONTINUATION.chars().count(), 24);
}

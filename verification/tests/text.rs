use motu_mk5::text::{
    chars_contain, chars_of, decimal_string, lowercase_text, string_from_chars, text_lines,
    trim_text,
};

const SAMPLES: &[&str] = &[
    "",
    "one",
    "one\n",
    "one\ntwo",
    "one\r\ntwo\r\n",
    "a\n\nb\n\n",
    "\n",
    "\r\n",
    "x\r",
    "x\ry\nz",
    "  tab\tbed \u{3000}",
    "\u{85}\u{a0}wide\u{2003}\u{2028}",
    "\u{180e}mongolian vowel separator\u{200b}",
];

#[test]
fn lines_match_str_lines() {
    for s in SAMPLES {
        let ours: Vec<String> = text_lines(s).into_iter().map(|l| l.into_iter().collect()).collect();
        let std: Vec<String> = s.lines().map(String::from).collect();
        assert_eq!(ours, std, "lines of {s:?}");
    }
}

#[test]
fn trim_matches_str_trim() {
    for s in SAMPLES {
        assert_eq!(trim_text(s), s.trim(), "trim of {s:?}");
    }
    assert_eq!(trim_text("\t x86_64 \n"), "x86_64");
}

#[test]
fn contains_matches_str_contains() {
    for s in SAMPLES {
        for needle in ["", "o", "one", "\r\n", "wide", "zz"] {
            assert_eq!(
                chars_contain(&chars_of(s), &chars_of(needle)),
                s.contains(needle),
                "{s:?} contains {needle:?}"
            );
        }
    }
}

#[test]
fn lowercase_uses_unicode_case_mapping() {
    assert_eq!(lowercase_text("MOTU UltraLite"), "motu ultralite");
    assert_eq!(lowercase_text("ÄÖÜ İ"), "äöü i\u{307}");
}

#[test]
fn strings_and_numerals() {
    assert_eq!(string_from_chars(&['a', 'ß', '\u{1F3B5}']), "aß\u{1F3B5}");
    assert_eq!(decimal_string(0), "0");
    assert_eq!(decimal_string(48000), "48000");
    assert_eq!(decimal_string(u64::MAX), "18446744073709551615");
}

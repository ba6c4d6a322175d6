use crash_analyzer::text::{cut_after_last, decimal_string, ends_with};

#[test]
fn decimal_numerals() {
    assert_eq!(decimal_string(0), "0");
    assert_eq!(decimal_string(9), "9");
    assert_eq!(decimal_string(10), "10");
    assert_eq!(decimal_string(42), "42");
    assert_eq!(decimal_string(1_000_000), "1000000");
    assert_eq!(decimal_string(u32::MAX), "4294967295");
}

#[test]
fn decimal_numerals_read_back() {
    for n in [0u32, 1, 5, 19, 100, 101, 65_535, 65_536, 999_999_999, 4_000_000_000] {
        let numeral = decimal_string(n);
        assert_eq!(numeral.parse::<u32>(), Ok(n));
        assert_eq!(numeral, format!("{}", n));
    }
}

#[test]
fn the_cut_is_just_behind_the_last_mark() {
    assert_eq!(cut_after_last("a/b\\c", '/', '\\'), 4);
    assert_eq!(cut_after_last("a/b\\c", '/', '/'), 2);
    assert_eq!(cut_after_last("abc", '/', '\\'), 0);
    assert_eq!(cut_after_last("", '/', '\\'), 0);
    assert_eq!(cut_after_last("abc/", '/', '\\'), 4);
    assert_eq!(cut_after_last("/abc", '/', '\\'), 1);
    assert_eq!(cut_after_last("a.b.c", '.', '.'), 4);
}

#[test]
fn the_cut_counts_characters() {
    assert_eq!(cut_after_last("üü/é", '/', '\\'), 3);
    assert_eq!(cut_after_last("日本.語", '.', '.'), 3);
}

#[test]
fn suffixes() {
    assert!(ends_with("crash.dmp", ".dmp"));
    assert!(ends_with("crash.dmp", ""));
    assert!(ends_with("", ""));
    assert!(ends_with(".dmp", ".dmp"));
    assert!(!ends_with("dmp", ".dmp"));
    assert!(!ends_with("crash.dmp", ".DMP"));
    assert!(!ends_with("crash.dmp ", ".dmp"));
    assert!(!ends_with("", "x"));
    assert!(ends_with("größe", "ße"));
    assert!(!ends_with("größe", "sse"));
}

#[test]
fn suffixes_agree_with_the_standard_library() {
    for text in ["", "a", "report.json", "report.json.log", "x.dmp", "é.dmp", "dmp."] {
        for suffix in ["", ".json", ".json.log", ".dmp", "p", "é.dmp", "."] {
            assert_eq!(ends_with(text, suffix), text.ends_with(suffix));
        }
    }
}

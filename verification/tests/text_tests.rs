use cobra::error::CobraError;
use cobra::table::NameTable;
use cobra::text::{
    before_window, char_is_whitespace, find_in, matches_at, same_text, scan_backward,
    scan_forward, skip_leading, slice_text, strip_trailing_window, to_chars, trim_window, trimmed,
    CharClass,
};
use cobra::vectors::reversed;

fn chars(s: &str) -> Vec<char> {
    s.chars().collect()
}

#[test]
fn whitespace_is_the_unicode_property() {
    for code in 0..=0x10FFFFu32 {
        if let Some(c) = char::from_u32(code) {
            assert_eq!(char_is_whitespace(c), c.is_whitespace(), "U+{:04X}", code);
        }
    }
}

#[test]
fn trimming_agrees_with_the_standard_library() {
    for s in ["", " ", "a", " a", "a ", "  a b  ", "\t\n x \r\n", "\u{3000}ä\u{2009}", " \u{feff} "] {
        assert_eq!(trimmed(s), s.trim(), "{:?}", s);
        let v = chars(s);
        let (lo, hi) = trim_window(&v, 0, v.len());
        assert_eq!(v[lo..hi].iter().collect::<String>(), s.trim());
    }
}

#[test]
fn character_classes() {
    assert!(CharClass::Whitespace.test(' '));
    assert!(!CharClass::Whitespace.test('x'));
    assert!(CharClass::Only('(').test('('));
    assert!(!CharClass::Only('(').test(')'));
    assert!(CharClass::Except(';').test('a'));
    assert!(!CharClass::Except(';').test(';'));
}

#[test]
fn scans_stay_inside_their_window() {
    let v = chars("aa;bb;;");
    assert_eq!(scan_forward(&v, 0, v.len(), CharClass::Except(';')), 2);
    assert_eq!(scan_forward(&v, 3, v.len(), CharClass::Except(';')), 5);
    assert_eq!(scan_forward(&v, 0, 2, CharClass::Except(';')), 2);
    assert_eq!(scan_forward(&v, 2, 2, CharClass::Except(';')), 2);
    assert_eq!(scan_backward(&v, 0, v.len(), CharClass::Only(';')), 5);
    assert_eq!(scan_backward(&v, 5, v.len(), CharClass::Only(';')), 5);
    assert_eq!(before_window(&v, 0, v.len(), ';'), 2);
    assert_eq!(before_window(&v, 0, v.len(), '#'), v.len());
    assert_eq!(strip_trailing_window(&v, 0, v.len(), ';'), 5);
    assert_eq!(strip_trailing_window(&v, 0, v.len(), 'b'), v.len());
}

#[test]
fn patterns_are_found_at_their_first_occurrence() {
    let v = chars("a>=1,==2,==3");
    assert_eq!(find_in(&v, 0, v.len(), &chars("==")), Some(5));
    assert_eq!(find_in(&v, 6, v.len(), &chars("==")), Some(9));
    assert_eq!(find_in(&v, 0, 6, &chars("==")), None);
    assert_eq!(find_in(&v, 0, v.len(), &chars(">=")), Some(1));
    assert_eq!(find_in(&v, 0, v.len(), &chars("~=")), None);
    assert_eq!(find_in(&v, 3, v.len(), &chars("")), Some(3));
    assert_eq!(find_in(&v, 0, 1, &chars("a>")), None);
    assert!(matches_at(&v, 1, v.len(), &chars(">=")));
    assert!(!matches_at(&v, 0, v.len(), &chars(">=")));
    assert!(!matches_at(&v, 11, v.len(), &chars("33")));
}

#[test]
fn repeated_prefixes_are_skipped() {
    let v = chars("====1.0");
    assert_eq!(skip_leading(&v, 0, v.len(), &chars("==")), 4);
    assert_eq!(skip_leading(&v, 0, v.len(), &chars("=")), 4);
    assert_eq!(skip_leading(&v, 0, v.len(), &chars("===")), 3);
    assert_eq!(skip_leading(&v, 0, v.len(), &chars(">=")), 0);
    assert_eq!(skip_leading(&v, 0, v.len(), &chars("")), 0);
    assert_eq!(skip_leading(&v, 0, 3, &chars("==")), 2);
}

#[test]
fn texts_are_cut_and_joined_by_characters() {
    assert_eq!(to_chars("äb"), vec!['ä', 'b']);
    assert_eq!(slice_text("äbç", 1, 3), "bç");
    assert_eq!(slice_text("abc", 2, 2), "");
    assert_eq!(cobra::text::concat("ab", "cd"), "abcd");
    assert!(same_text("ab", "ab"));
    assert!(!same_text("ab", "aB"));
}

#[test]
fn reversal_hands_items_out_in_order() {
    let mut r = reversed(vec![1, 2, 3]);
    assert_eq!(r.pop(), Some(1));
    assert_eq!(r.pop(), Some(2));
    assert_eq!(r.pop(), Some(3));
    assert!(reversed(Vec::<u8>::new()).is_empty());
}

#[test]
fn table_keeps_the_order_of_first_insertion() {
    let mut table: NameTable<u32> = NameTable::new();
    assert_eq!(table.len(), 0);
    table.insert("b".to_string(), 1);
    table.insert("a".to_string(), 2);
    table.insert("b".to_string(), 3);
    assert_eq!(table.len(), 2);
    assert_eq!((table.key_at(0).as_str(), *table.value_at(0)), ("b", 3));
    assert_eq!((table.key_at(1).as_str(), *table.value_at(1)), ("a", 2));
    assert_eq!(table.get("a"), Some(&2));
    assert_eq!(table.get("c"), None);
    assert_eq!(table.position("a"), Some(1));
    assert!(table.contains_key("b"));
    assert_eq!(table.remove("b"), Some(3));
    assert_eq!(table.remove("b"), None);
    assert_eq!(table.len(), 1);
    assert_eq!(table.position("a"), Some(0));
}

#[test]
fn every_kind_of_error_has_its_line() {
    let cause = || "why".to_string();
    let lines = [
        (CobraError::Config(cause()), "Configuration error: why"),
        (CobraError::Network(cause()), "Network error: why"),
        (CobraError::Io(cause()), "IO error: why"),
        (CobraError::PackageNotFound(cause()), "Package not found: why"),
        (CobraError::ResolutionFailed(cause()), "Dependency resolution failed: why"),
        (CobraError::InstallationFailed(cause()), "Installation failed: why"),
        (CobraError::Cache(cause()), "Cache error: why"),
        (CobraError::PythonEnv(cause()), "Python environment error: why"),
        (CobraError::Archive(cause()), "Archive extraction error: why"),
        (CobraError::HashMismatch, "Hash verification failed"),
    ];
    for (error, line) in lines {
        assert_eq!(error.message(), line);
        assert_eq!(error.clone().message(), line);
    }
}

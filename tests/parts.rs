use std::path::PathBuf;
use std::sync::Arc;

use finder::aggregate::merge_batches;
use finder::decode::{decode_text, detect_bom, TextEncoding};
use finder::lines::split_lines;
use finder::load::{load_patterns, read_lines, PatternSource};
use finder::pattern::{compile_regex_with_cache, Matcher, MatcherCache};
use finder::roots::{partition_paths, roots_verdict, RootsVerdict};
use finder::search::{first_matching, search_in_buffer, search_text, SearchResult};

fn chars(s: &str) -> Vec<char> {
    s.chars().collect()
}

fn strings(v: &[&str]) -> Vec<String> {
    v.iter().map(|s| s.to_string()).collect()
}

fn record(path: &str, line_number: usize, line: &str, pattern: &str) -> SearchResult {
    SearchResult {
        path: path.to_string(),
        line_number,
        line: line.to_string(),
        pattern: pattern.to_string(),
    }
}

fn tuples(v: &[SearchResult]) -> Vec<(String, usize, String, String)> {
    v.iter().map(|r| (r.path.clone(), r.line_number, r.line.clone(), r.pattern.clone())).collect()
}

#[test]
fn test_partition_paths() {
    let valid_file_path = PathBuf::from("valid_path.txt");
    let invalid_path = PathBuf::from("non_existent_file.txt");

    let paths = vec![(valid_file_path.clone(), true), (invalid_path.clone(), false)];
    let (valid, invalid) = partition_paths(paths);

    assert_eq!(valid.len(), 1);
    assert_eq!(valid[0], valid_file_path);
    assert_eq!(invalid.len(), 1);
    assert_eq!(invalid[0], invalid_path);
}

#[test]
fn partition_keeps_order_and_covers_input() {
    let paths = vec![("a", false), ("b", true), ("c", true), ("d", false), ("e", true)];
    let (valid, invalid) = partition_paths(paths);
    assert_eq!(valid, vec!["b", "c", "e"]);
    assert_eq!(invalid, vec!["a", "d"]);
}

#[test]
fn partition_of_nothing_is_empty() {
    let (valid, invalid) = partition_paths(Vec::<(String, bool)>::new());
    assert!(valid.is_empty());
    assert!(invalid.is_empty());
}

#[test]
fn partition_all_invalid() {
    let (valid, invalid) = partition_paths(vec![("x", false), ("y", false)]);
    assert!(valid.is_empty());
    assert_eq!(invalid, vec!["x", "y"]);
}

#[test]
fn bom_detection() {
    assert_eq!(detect_bom(&[0xEF, 0xBB, 0xBF, b'a']), Some((TextEncoding::Utf8, 3)));
    assert_eq!(detect_bom(&[0xFF, 0xFE]), Some((TextEncoding::Utf16Le, 2)));
    assert_eq!(detect_bom(&[0xFE, 0xFF, 0, b'a']), Some((TextEncoding::Utf16Be, 2)));
    assert_eq!(detect_bom(&[0xEF, 0xBB]), None);
    assert_eq!(detect_bom(b"plain"), None);
    assert_eq!(detect_bom(&[]), None);
}

#[test]
fn decode_fallback_maps_single_bytes() {
    assert_eq!(decode_text(&[0x48, 0xE9, 0x80]), chars("Hé€"));
    assert_eq!(decode_text(&[]), Vec::<char>::new());
}

#[test]
fn decode_strips_the_bom() {
    assert_eq!(decode_text(&[0xEF, 0xBB, 0xBF, 0xC3, 0xA9]), chars("é"));
    assert_eq!(decode_text(&[0xFF, 0xFE, 0x41, 0x00]), chars("A"));
    assert_eq!(decode_text(&[0xFE, 0xFF, 0x00, 0x41]), chars("A"));
}

#[test]
fn decode_replaces_malformed_sequences() {
    assert_eq!(decode_text(&[0xEF, 0xBB, 0xBF, b'a', 0xFF, b'b']), chars("a\u{FFFD}b"));
}

#[test]
fn split_lines_handles_both_terminators() {
    let lines = split_lines(&chars("one\r\ntwo\nthree"));
    assert_eq!(lines, vec![chars("one"), chars("two"), chars("three")]);
}

#[test]
fn split_lines_drops_trailing_empty_fragment() {
    assert_eq!(split_lines(&chars("a\n")), vec![chars("a")]);
    assert_eq!(split_lines(&chars("a\r\n")), vec![chars("a")]);
    assert_eq!(split_lines(&chars("")), Vec::<Vec<char>>::new());
    assert_eq!(split_lines(&chars("\n")), vec![chars("")]);
}

#[test]
fn split_lines_keeps_inner_empty_lines_and_lone_cr() {
    assert_eq!(split_lines(&chars("a\n\nb")), vec![chars("a"), chars(""), chars("b")]);
    assert_eq!(split_lines(&chars("a\rb\n")), vec![chars("a\rb")]);
    assert_eq!(split_lines(&chars("end\r")), vec![chars("end\r")]);
}

#[test]
fn read_lines_decodes_and_splits() {
    assert_eq!(read_lines(b"x\r\ny\n"), strings(&["x", "y"]));
    assert_eq!(read_lines(&[0xE9, b'\n', 0xFC]), strings(&["é", "ü"]));
}

#[test]
fn load_literal_pattern() {
    let source = PatternSource::Literal("a.c".to_string());
    assert_eq!(load_patterns(&source), strings(&["a.c"]));
}

#[test]
fn load_pattern_file_skips_empty_lines() {
    let source = PatternSource::FileContents(b"one\n\r\n\ntwo\n".to_vec());
    assert_eq!(load_patterns(&source), strings(&["one", "two"]));
}

#[test]
fn compile_keeps_order_and_flag() {
    let ms = compile_regex_with_cache(&strings(&["b", "a"]), true).unwrap();
    assert_eq!(ms.len(), 2);
    assert_eq!(ms[0].pattern(), "b");
    assert_eq!(ms[1].pattern(), "a");
    assert!(ms[0].ignore_case());
    assert!(ms[0].is_match("B"));
}

#[test]
fn compile_shares_identical_patterns() {
    let ms = compile_regex_with_cache(&strings(&["x", "y", "x"]), false).unwrap();
    assert!(Arc::ptr_eq(&ms[0], &ms[2]));
    assert!(!Arc::ptr_eq(&ms[0], &ms[1]));
}

#[test]
fn compile_reports_first_invalid_pattern() {
    let err = compile_regex_with_cache(&strings(&["ok", "(", "["]), false).unwrap_err();
    assert_eq!(err.index, 1);
    assert_eq!(err.pattern, "(");
    assert!(!err.message.is_empty());
}

#[test]
fn compile_empty_list() {
    let ms = compile_regex_with_cache(&[], false).unwrap();
    assert!(ms.is_empty());
}

#[test]
fn matcher_compile_and_match() {
    let m = Matcher::compile(&"^ab".to_string(), false).unwrap();
    assert!(m.is_match("abc"));
    assert!(!m.is_match("cab"));
    assert!(Matcher::compile(&"(".to_string(), false).is_err());
}

#[test]
fn cache_returns_same_matcher() {
    let mut cache = MatcherCache::new();
    let a = cache.get_or_compile(&"q".to_string(), false).unwrap();
    let b = cache.get_or_compile(&"q".to_string(), false).unwrap();
    let c = cache.get_or_compile(&"q".to_string(), true).unwrap();
    assert!(Arc::ptr_eq(&a, &b));
    assert!(!Arc::ptr_eq(&a, &c));
    assert!(cache.get_or_compile(&")".to_string(), false).is_err());
}

#[test]
fn first_matching_index() {
    let ms = compile_regex_with_cache(&strings(&["z", "b", "a"]), false).unwrap();
    assert_eq!(first_matching(&ms, "abc"), Some(1));
    assert_eq!(first_matching(&ms, "xyz"), Some(0));
    assert_eq!(first_matching(&ms, "q"), None);
}

#[test]
fn search_text_numbers_lines() {
    let ms = compile_regex_with_cache(&strings(&["x"]), false).unwrap();
    let r = search_text(&"p".to_string(), &chars("x\r\ny\nx\n"), &ms);
    assert_eq!(tuples(&r), vec![
        ("p".to_string(), 1, "x".to_string(), "x".to_string()),
        ("p".to_string(), 3, "x".to_string(), "x".to_string()),
    ]);
}

#[test]
fn merge_keeps_batches_contiguous() {
    let batches = vec![
        vec![record("a", 1, "l1", "p"), record("a", 4, "l4", "p")],
        vec![],
        vec![record("b", 2, "m", "q")],
    ];
    let merged = merge_batches(batches);
    assert_eq!(tuples(&merged), vec![
        ("a".to_string(), 1, "l1".to_string(), "p".to_string()),
        ("a".to_string(), 4, "l4".to_string(), "p".to_string()),
        ("b".to_string(), 2, "m".to_string(), "q".to_string()),
    ]);
}

#[test]
fn merge_order_does_not_change_the_multiset() {
    let ms = compile_regex_with_cache(&strings(&["o"]), false).unwrap();
    let files: Vec<(&str, &[u8])> = vec![("f1", b"one\ntwo"), ("f2", b"no\nyes"), ("f3", b"zzz")];
    let batch = |i: usize| search_in_buffer(&files[i].0.to_string(), files[i].1, &ms);
    let single = merge_batches(vec![batch(0), batch(1), batch(2)]);
    let other = merge_batches(vec![batch(2), batch(1), batch(0)]);
    let mut a = tuples(&single);
    let mut b = tuples(&other);
    assert_eq!(a.len(), 3);
    a.sort();
    b.sort();
    assert_eq!(a, b);
}

#[test]
fn repeated_scan_gives_same_results() {
    let ms = compile_regex_with_cache(&strings(&["e"]), false).unwrap();
    let first = search_in_buffer(&"f".to_string(), b"one\nthree\nsix", &ms);
    let second = search_in_buffer(&"f".to_string(), b"one\nthree\nsix", &ms);
    assert_eq!(tuples(&first), tuples(&second));
    assert_eq!(first.len(), 2);
}

#[test]
fn one_valid_and_one_missing_root() {
    let (valid, invalid) = partition_paths(vec![("here", true), ("missing", false)]);
    assert_eq!(valid, vec!["here"]);
    assert_eq!(invalid, vec!["missing"]);
    assert_eq!(roots_verdict(valid.len(), invalid.len()), RootsVerdict::Scan);
}

#[test]
fn verdict_without_usable_roots() {
    assert_eq!(roots_verdict(0, 2), RootsVerdict::NoneUsable);
    assert_eq!(roots_verdict(0, 0), RootsVerdict::NothingGiven);
    assert_eq!(roots_verdict(3, 0), RootsVerdict::Scan);
}

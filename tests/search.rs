use encoding_rs::WINDOWS_1252;
use finder::pattern::compile_regex_with_cache;
use finder::search::{search_in_buffer, SearchResult};
use finder::load::{load_patterns, PatternSource};

fn compile(patterns: &[&str], ignore_case: bool) -> Vec<std::sync::Arc<finder::pattern::Matcher>> {
    let owned: Vec<String> = patterns.iter().map(|p| p.to_string()).collect();
    compile_regex_with_cache(&owned, ignore_case).unwrap()
}

fn search(name: &str, content: &[u8], patterns: &[&str], ignore_case: bool) -> Vec<SearchResult> {
    let matchers = compile(patterns, ignore_case);
    search_in_buffer(&name.to_string(), content, &matchers)
}

#[test]
fn test_search_in_file_found() {
    let results = search("test_found.txt", b"hello world\nfind me here\nanother line", &["find me"], false);
    assert_eq!(results.len(), 1);
    assert_eq!(results[0].line_number, 2);
    assert_eq!(results[0].line, "find me here");
    assert_eq!(results[0].pattern, "find me");
    assert_eq!(results[0].path, "test_found.txt");
}

#[test]
fn test_search_in_file_not_found() {
    let results = search("test_not_found.txt", b"hello world\nanother line", &["missing"], false);
    assert!(results.is_empty());
}

#[test]
fn test_search_in_file_multiple_matches() {
    let results = search("test_multiple.txt", b"match one\nsome line\nmatch two", &["match"], false);
    assert_eq!(results.len(), 2);
    assert_eq!(results[0].line_number, 1);
    assert_eq!(results[1].line_number, 3);
}

#[test]
fn test_search_in_file_windows1252_encoding() {
    let (encoded_content, _, _) = WINDOWS_1252.encode("Héllö Wörld");
    assert_eq!(encoded_content.len(), 11);
    let results = search("test_windows1252.txt", &encoded_content, &["Héllö"], false);
    assert_eq!(results.len(), 1);
    assert_eq!(results[0].line, "Héllö Wörld");
}

#[test]
fn test_search_in_file_case_insensitive() {
    let results = search("test_case_insensitive.txt", b"Hello hello HeLLo", &["hello"], true);
    assert_eq!(results.len(), 1);
}

#[test]
fn test_search_with_input_file() {
    let source = PatternSource::FileContents(b"one\nthird".to_vec());
    let patterns = load_patterns(&source);
    assert_eq!(patterns, vec!["one", "third"]);

    let matchers = compile_regex_with_cache(&patterns, false).unwrap();
    let results = search_in_buffer(
        &"target.txt".to_string(),
        b"This is line one.\nHere is the second line.\nAnd a third.",
        &matchers,
    );

    assert_eq!(results.len(), 2);
    assert_eq!(results[0].line_number, 1);
    assert_eq!(results[0].pattern, "one");
    assert_eq!(results[0].line, "This is line one.");

    assert_eq!(results[1].line_number, 3);
    assert_eq!(results[1].pattern, "third");
    assert_eq!(results[1].line, "And a third.");
}

#[test]
fn test_search_in_file_with_crlf() {
    let results = search("test_crlf.txt", b"line one\r\nline two\r\nline three", &["two"], false);
    assert_eq!(results.len(), 1);
    assert_eq!(results[0].line_number, 2);
    assert_eq!(results[0].line, "line two");
}

#[test]
fn first_matching_pattern_is_recorded_once() {
    let results = search("f", b"line one\nnothing\none line", &["line", "one"], false);
    assert_eq!(results.len(), 2);
    assert_eq!(results[0].line_number, 1);
    assert_eq!(results[0].pattern, "line");
    assert_eq!(results[1].line_number, 3);
    assert_eq!(results[1].pattern, "line");
    let results = search("f", b"line one\nnothing\none line", &["one", "line"], false);
    assert_eq!(results[0].pattern, "one");
    assert_eq!(results[1].pattern, "one");
}

#[test]
fn records_count_equals_matching_lines() {
    let results = search("f", b"ab\ncd\nab\n\nxab\n", &["ab"], false);
    let numbers: Vec<usize> = results.iter().map(|r| r.line_number).collect();
    assert_eq!(numbers, vec![1, 3, 5]);
    assert_eq!(results[2].line, "xab");
}

#[test]
fn empty_file_has_no_records() {
    let results = search("f", b"", &["a"], false);
    assert!(results.is_empty());
}

#[test]
fn no_matchers_no_records() {
    let results = search("f", b"abc\ndef", &[], false);
    assert!(results.is_empty());
}

#[test]
fn regex_syntax_is_used() {
    let results = search("f", b"a1\nb\nc22", &["[0-9]+$"], false);
    let numbers: Vec<usize> = results.iter().map(|r| r.line_number).collect();
    assert_eq!(numbers, vec![1, 3]);
}

#[test]
fn case_sensitive_by_default() {
    let results = search("f", b"Hello", &["hello"], false);
    assert!(results.is_empty());
}

#[test]
fn utf8_bom_file_is_decoded_as_utf8() {
    let mut bytes = vec![0xEF, 0xBB, 0xBF];
    bytes.extend_from_slice("Grüße\nzwei".as_bytes());
    let results = search("f", &bytes, &["Grüße"], false);
    assert_eq!(results.len(), 1);
    assert_eq!(results[0].line, "Grüße");
    assert_eq!(results[0].line_number, 1);
}

#[test]
fn utf16le_bom_file_is_decoded() {
    let mut bytes = vec![0xFF, 0xFE];
    for unit in "ab\ncd".encode_utf16() {
        bytes.extend_from_slice(&unit.to_le_bytes());
    }
    let results = search("f", &bytes, &["cd"], false);
    assert_eq!(results.len(), 1);
    assert_eq!(results[0].line, "cd");
    assert_eq!(results[0].line_number, 2);
}

#[test]
fn utf16be_bom_file_is_decoded() {
    let mut bytes = vec![0xFE, 0xFF];
    for unit in "ab\ncd".encode_utf16() {
        bytes.extend_from_slice(&unit.to_be_bytes());
    }
    let results = search("f", &bytes, &["ab"], false);
    assert_eq!(results.len(), 1);
    assert_eq!(results[0].line, "ab");
}

#[test]
fn arbitrary_bytes_never_fail_to_decode() {
    let bytes: Vec<u8> = (0u8..=255).collect();
    let results = search("f", &bytes, &["\u{00FF}"], false);
    assert_eq!(results.len(), 1);
    assert_eq!(results[0].line_number, 2);
}

//! Positions, URIs and path patterns on concrete values.

use lspctl::glob::{expand_braces, glob_matches, glob_matches_at, protocol_glob_matches};
use lspctl::position::{
    PositionEncoding, ProtocolPosition, char_width, offset_in_line, position_to_offset, resolve_source_position,
};
use lspctl::uri::{uri_contains_path_traversal, windows_file_uri_drive_alias};

#[test]
fn positions_require_a_real_or_trailing_empty_line() {
    assert_eq!(
        position_to_offset("abc\nxyz", ProtocolPosition { line: 1, character: 3 }, PositionEncoding::Utf8),
        Some(7)
    );
    assert_eq!(
        position_to_offset("abc\nxyz", ProtocolPosition { line: 2, character: 0 }, PositionEncoding::Utf8),
        None
    );
    assert_eq!(
        position_to_offset("abc\n", ProtocolPosition { line: 1, character: 0 }, PositionEncoding::Utf8),
        Some(4)
    );
}

#[test]
fn positions_count_the_units_of_their_encoding() {
    let text = "a😀b\r\nxyz";
    for (character, encoding, expected) in [
        (0, PositionEncoding::Utf8, Some(0)),
        (1, PositionEncoding::Utf8, Some(1)),
        (2, PositionEncoding::Utf8, None),
        (5, PositionEncoding::Utf8, Some(5)),
        (6, PositionEncoding::Utf8, Some(6)),
        (7, PositionEncoding::Utf8, None),
        (1, PositionEncoding::Utf16, Some(1)),
        (2, PositionEncoding::Utf16, None),
        (3, PositionEncoding::Utf16, Some(5)),
        (4, PositionEncoding::Utf16, Some(6)),
        (5, PositionEncoding::Utf16, None),
    ] {
        assert_eq!(position_to_offset(text, ProtocolPosition { line: 0, character }, encoding), expected);
    }
    assert_eq!(char_width('😀', PositionEncoding::Utf8), 4);
    assert_eq!(char_width('😀', PositionEncoding::Utf16), 2);
    assert_eq!(offset_in_line("a😀b", 3, PositionEncoding::Utf16), Some(5));
    assert_eq!(PositionEncoding::Utf8.name(), "utf-8");
    assert_eq!(PositionEncoding::Utf16.name(), "utf-16");
}

#[test]
fn columns_count_characters_before_they_are_resolved() {
    let found = resolve_source_position("a😀x", 0, 2, PositionEncoding::Utf16).unwrap();
    assert_eq!(found, ProtocolPosition { line: 0, character: 3 });
    let found = resolve_source_position("a😀x", 0, 2, PositionEncoding::Utf8).unwrap();
    assert_eq!(found, ProtocolPosition { line: 0, character: 5 });
    assert_eq!(position_to_offset("a😀x", found, PositionEncoding::Utf8), Some(5));
    assert_eq!(resolve_source_position("a😀x", 0, 4, PositionEncoding::Utf8), None);
    assert_eq!(resolve_source_position("a😀x", 1, 0, PositionEncoding::Utf8), None);
}

#[test]
fn windows_file_uri_alias_only_ignores_drive_case() {
    assert!(windows_file_uri_drive_alias("file:///C:/workspace/main.rs", "file:///c:/workspace/main.rs"));
    assert!(!windows_file_uri_drive_alias("file:///C:/Workspace/main.rs", "file:///c:/workspace/main.rs"));
}

#[test]
fn dot_segments_are_path_traversal() {
    for (uri, expected) in [
        ("file:///workspace/main.rs", false),
        ("file:///workspace/child/../main.rs", true),
        ("file:///workspace/./main.rs", true),
        ("file:///workspace/%2e%2E/main.rs", true),
        ("file:///workspace/..hidden/main.rs", false),
    ] {
        assert_eq!(uri_contains_path_traversal(uri), expected, "{uri}");
    }
}

#[test]
fn recursive_glob_respects_directory_boundaries() {
    for (pattern, path, ignore_case, expected) in [
        ("**/main.rs", "main.rs", false, true),
        ("**/main.rs", "/main.rs", false, true),
        ("**/main.rs", "src/main.rs", false, true),
        ("**/main.rs", "/workspace/src/main.rs", false, true),
        ("**/main.rs", "domain.rs", false, false),
        ("**/main.rs", "/workspace/domain.rs", false, false),
        ("**/main.rs", "/workspace/main.rs.bak", false, false),
        ("src/**/main.rs", "src/main.rs", false, true),
        ("src/**/main.rs", "src/one/two/main.rs", false, true),
        ("src/**/main.rs", "src/domain.rs", false, false),
        ("*.rs", "main.rs", false, true),
        ("*.rs", "src/main.rs", false, false),
        ("**.rs", "src/main.rs", false, true),
        ("**main.rs", "src/domain.rs", false, true),
        ("**/main.{rs,py}", "src/main.py", false, true),
        ("**/main.{rs,py}", "src/domain.rs", false, false),
        ("**/main.[r-t][!x]", "src/main.rs", false, true),
        ("**/main.[!r]s", "src/main.rs", false, false),
        ("**/MAIN.RS", "src/main.rs", true, true),
        ("**/MAIN.RS", "src/main.rs", false, false),
        ("**/MAIN.RS", "src/DOMAIN.RS", true, false),
    ] {
        assert_eq!(
            protocol_glob_matches(pattern, path, ignore_case),
            expected,
            "pattern={pattern:?}, path={path:?}, ignore_case={ignore_case}"
        );
    }
}

#[test]
fn stars_stay_in_a_directory_and_names_match_themselves() {
    assert!(glob_matches(b"a*c", b"abbc"));
    assert!(!glob_matches(b"a*c", b"ab/c"));
    assert!(glob_matches(b"main.rs", b"main.rs"));
    assert!(glob_matches(b"?.rs", b"a.rs"));
    assert!(!glob_matches(b"?.rs", b"/.rs"));
}

fn expanded(pattern: &str, mut output: Vec<Vec<u8>>, limit: usize) -> Vec<String> {
    expand_braces(&pattern.as_bytes().to_vec(), &mut output, limit);
    output.into_iter().map(|bytes| String::from_utf8(bytes).unwrap()).collect()
}

#[test]
fn braces_are_expanded_up_to_a_limit() {
    assert_eq!(expanded("a{b,c}{d,e}", Vec::new(), 256), ["abd", "abe", "acd", "ace"]);
    assert_eq!(expanded("{a,{b,c}}", Vec::new(), 256), ["a", "b", "c"]);
    assert_eq!(expanded("{a}", Vec::new(), 256), ["{a}"]);
    assert_eq!(expanded("{a,b,c}", vec![b"x".to_vec()], 3), ["x", "a", "b"]);
    let full = vec![b"x".to_vec(), b"y".to_vec(), b"z".to_vec()];
    assert_eq!(expanded("{a,b}", full.clone(), 2), ["x", "y", "z"]);
    assert_eq!(expanded("{a,b}", full, 3), ["x", "y", "z"]);
}

#[test]
fn answers_are_kept_in_their_cells() {
    let (pattern, path) = (b"a*c".to_vec(), b"abbc");
    let mut states = vec![vec![None; path.len() + 1]; pattern.len() + 1];
    assert!(glob_matches_at(&pattern, path, 0, 0, &mut states));
    assert_eq!(states[0][0], Some(true));
    assert_eq!(states[pattern.len()][path.len()], Some(true));
    for (i, row) in states.iter().enumerate() {
        for (j, cell) in row.iter().enumerate() {
            if let Some(answer) = cell {
                let mut fresh = vec![vec![None; path.len() + 1]; pattern.len() + 1];
                assert_eq!(glob_matches_at(&pattern, path, i, j, &mut fresh), *answer);
            }
        }
    }
    assert!(!glob_matches_at(&pattern, path, pattern.len(), 1, &mut states));
    assert_eq!(states[pattern.len()][1], Some(false));
    let mut none = Vec::new();
    assert!(glob_matches_at(&pattern, path, 0, 0, &mut none));
}

#[test]
fn paths_match_themselves() {
    assert!(glob_matches(b"src/main.rs", b"src/main.rs"));
    assert!(!glob_matches(b"src/main.rs", b"src/main.rsx"));
    assert!(glob_matches(b"**/src/main.rs", b"/workspace/src/main.rs"));
    assert!(!glob_matches(b"**/src/main.rs", b"/workspace/mysrc/main.rs"));
}

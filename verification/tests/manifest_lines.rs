//! The lines of a manifest of invalidation tests.

use tile_invalidation::manifest::{
    parse_manifest_line, test_passes, InvalidationOp, InvalidationTest, ManifestError, Word,
};

fn names(line: &str) -> Option<(InvalidationOp, String, String)> {
    let test = parse_manifest_line(line.as_bytes()).expect("a test or nothing")?;
    Some((
        test.op,
        line[test.file1.start..test.file1.end].to_string(),
        line[test.file2.start..test.file2.end].to_string(),
    ))
}

#[test]
fn test_manifest_line() {
    assert_eq!(
        parse_manifest_line(b"== a.yaml b.yaml"),
        Ok(Some(InvalidationTest {
            op: InvalidationOp::Equal,
            file1: Word { start: 3, end: 9 },
            file2: Word { start: 10, end: 16 },
        }))
    );
    assert_eq!(
        names("== a.yaml b.yaml"),
        Some((InvalidationOp::Equal, "a.yaml".to_string(), "b.yaml".to_string()))
    );
    assert_eq!(
        names("  !=\tscenes/x.yaml \t  y.yaml   # moved by a pixel"),
        Some((InvalidationOp::NotEqual, "scenes/x.yaml".to_string(), "y.yaml".to_string()))
    );
    assert_eq!(
        names("!= a b\r\n"),
        Some((InvalidationOp::NotEqual, "a".to_string(), "b".to_string()))
    );
    assert_eq!(
        names("== a b#c d"),
        Some((InvalidationOp::Equal, "a".to_string(), "b".to_string()))
    );
}

#[test]
fn test_manifest_lines_without_a_test() {
    assert_eq!(parse_manifest_line(b""), Ok(None));
    assert_eq!(parse_manifest_line(b"   \t "), Ok(None));
    assert_eq!(parse_manifest_line(b"# == a b"), Ok(None));
    assert_eq!(parse_manifest_line(b"   # a comment"), Ok(None));
    assert_eq!(parse_manifest_line(b"\n"), Ok(None));
}

#[test]
fn test_manifest_line_errors() {
    assert_eq!(parse_manifest_line(b"=="), Err(ManifestError::WordCount));
    assert_eq!(parse_manifest_line(b"== a"), Err(ManifestError::WordCount));
    assert_eq!(parse_manifest_line(b"== a b c"), Err(ManifestError::WordCount));
    assert_eq!(parse_manifest_line(b"== a #b"), Err(ManifestError::WordCount));
    assert_eq!(parse_manifest_line(b"a b"), Err(ManifestError::WordCount));
    // Four words with an unknown first: the number of words is looked at first.
    assert_eq!(parse_manifest_line(b"<> a b c"), Err(ManifestError::WordCount));
    assert_eq!(parse_manifest_line(b"= a b"), Err(ManifestError::UnknownOperator));
    assert_eq!(parse_manifest_line(b"=== a b"), Err(ManifestError::UnknownOperator));
    assert_eq!(parse_manifest_line(b"<> a b"), Err(ManifestError::UnknownOperator));
    assert_eq!(parse_manifest_line(b"=! a b"), Err(ManifestError::UnknownOperator));
    assert_eq!(parse_manifest_line(b"==a b c"), Err(ManifestError::UnknownOperator));
}

#[test]
fn test_whether_a_test_passes() {
    assert!(test_passes(InvalidationOp::Equal, false));
    assert!(!test_passes(InvalidationOp::Equal, true));
    assert!(test_passes(InvalidationOp::NotEqual, true));
    assert!(!test_passes(InvalidationOp::NotEqual, false));
}

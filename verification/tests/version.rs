use fx_core::services::version::{compute_diff, parse_hunk_header, parse_range, parse_unified_diff, version_diff, ArticleVersionFull};

fn chars(s: &str) -> Vec<char> {
    s.chars().collect()
}

fn kinds(h: &fx_core::services::version::DiffHunk) -> Vec<(String, String)> {
    h.lines.iter().map(|l| (l.kind.clone(), l.content.clone())).collect()
}

#[test]
fn parse_range_forms() {
    assert_eq!(parse_range(&chars("3,4")), (3, 4));
    assert_eq!(parse_range(&chars("7")), (7, 1));
    assert_eq!(parse_range(&chars("x,2")), (1, 2));
    assert_eq!(parse_range(&chars("0,0")), (0, 0));
    assert_eq!(parse_range(&chars("99999999999999999999999,5")), (1, 5));
}

#[test]
fn parse_hunk_header_fields() {
    let h = parse_hunk_header(&chars("@@ -1,3 +1,4 @@")).unwrap();
    assert_eq!((h.old_start, h.old_count, h.new_start, h.new_count), (1, 3, 1, 4));
    assert!(h.lines.is_empty());
    let h2 = parse_hunk_header(&chars("@@ -5 +6,2 @@ fn main")).unwrap();
    assert_eq!((h2.old_start, h2.old_count, h2.new_start, h2.new_count), (5, 1, 6, 2));
    assert!(parse_hunk_header(&chars("@@")).is_none());
}

#[test]
fn parse_unified_diff_reads_hunks() {
    let text = "--- a\n+++ b\n@@ -1,3 +1,3 @@\n a\n-b\n+c\n d\n@@ -10,1 +10,2 @@\n x\n+y\n";
    let hunks = parse_unified_diff(text);
    assert_eq!(hunks.len(), 2);
    assert_eq!((hunks[0].old_start, hunks[0].old_count, hunks[0].new_start, hunks[0].new_count), (1, 3, 1, 3));
    assert_eq!(
        kinds(&hunks[0]),
        vec![
            ("context".to_string(), "a".to_string()),
            ("remove".to_string(), "b".to_string()),
            ("add".to_string(), "c".to_string()),
            ("context".to_string(), "d".to_string()),
        ]
    );
    assert_eq!(hunks[1].new_count, 2);
    assert_eq!(kinds(&hunks[1]), vec![("context".to_string(), "x".to_string()), ("add".to_string(), "y".to_string())]);
}

#[test]
fn parse_unified_diff_empty_and_unmarked_lines() {
    assert!(parse_unified_diff("").is_empty());
    let hunks = parse_unified_diff("@@ -1 +1 @@\nplain\n");
    assert_eq!(kinds(&hunks[0]), vec![("context".to_string(), "plain".to_string())]);
}

#[test]
fn compute_diff_finds_changed_line() {
    let hunks = compute_diff("a\nb\nc\n", "a\nx\nc\n");
    assert_eq!(hunks.len(), 1);
    let lines = kinds(&hunks[0]);
    assert!(lines.contains(&("remove".to_string(), "b".to_string())));
    assert!(lines.contains(&("add".to_string(), "x".to_string())));
    assert!(compute_diff("same\n", "same\n").is_empty());
}

#[test]
fn version_diff_keeps_ids() {
    let v = |id: i32, text: &str| ArticleVersionFull {
        id,
        article_uri: "at://x".into(),
        change_hash: "h".into(),
        editor_did: "did:x".into(),
        message: "m".into(),
        source_text: text.into(),
        created_at: "2024-01-01T00:00:00Z".into(),
    };
    let d = version_diff(&v(1, "a\n"), &v(2, "b\n"));
    assert_eq!((d.from_version, d.to_version), (1, 2));
    assert_eq!(d.hunks.len(), 1);
}

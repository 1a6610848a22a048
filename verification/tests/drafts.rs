use fx_core::content::PrereqType;
use fx_core::models::tag::ArticlePrereq;
use fx_core::services::draft::{draft_tags, prereqs_json, tags_json};

#[test]
fn tags_column_is_a_json_array() {
    let tags = vec!["rust".to_string(), "say \"hi\"".to_string()];
    assert_eq!(tags_json(&tags), r#"["rust","say \"hi\""]"#);
    assert_eq!(tags_json(&Vec::new()), "[]");
}

#[test]
fn prereqs_column_is_a_json_array_of_objects() {
    let prereqs = vec![
        ArticlePrereq { tag_id: "linear-algebra".to_string(), prereq_type: PrereqType::Required },
        ArticlePrereq { tag_id: "calc".to_string(), prereq_type: PrereqType::Suggested },
    ];
    assert_eq!(
        prereqs_json(&prereqs),
        r#"[{"tag_id":"linear-algebra","prereq_type":"required"},{"tag_id":"calc","prereq_type":"suggested"}]"#
    );
    assert_eq!(prereqs_json(&Vec::new()), "[]");
}

#[test]
fn stored_tags_are_read_back() {
    assert_eq!(draft_tags(r#"["a", "b"]"#), vec!["a", "b"]);
    assert_eq!(draft_tags(&tags_json(&vec!["x\ny".to_string()])), vec!["x\ny"]);
    assert!(draft_tags("not json").is_empty());
    assert!(draft_tags("[1, 2]").is_empty());
}

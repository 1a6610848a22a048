use std::collections::HashMap;

use fx_core::error::Error;
use fx_core::services::access::{content_access, content_access_with_grant, notifies, require_found};
use fx_core::services::author::authorship_status;
use fx_core::services::book_series::{series_edit_fields, UpdateBookSeries};
use fx_core::services::tag::{
    check_no_pending_deletion, dedupe_labels_by_tag, extra_labels, guess_lang_from_id, name_updates, NameUpdate,
};

fn pairs(v: &[(&str, &str)]) -> Vec<(String, String)> {
    v.iter().map(|(a, b)| (a.to_string(), b.to_string())).collect()
}

#[test]
fn extra_labels_skip_own_language_and_blank_names() {
    let entries = pairs(&[("en", "Lattice"), ("zh", "  格  "), ("fr", "   "), ("de", " Verband ")]);
    let out = extra_labels("en", &entries);
    assert_eq!(out, pairs(&[("zh", "格"), ("de", "Verband")]));
}

#[test]
fn name_updates_rename_origin_and_set_siblings() {
    let entries = pairs(&[("zh", " 格 "), ("en", "Lattice"), ("ja", "")]);
    let out = name_updates("zh", &entries);
    assert_eq!(
        out,
        vec![
            NameUpdate::RenameOrigin("格".to_string()),
            NameUpdate::SetSibling { lang: "en".to_string(), name: "Lattice".to_string() },
        ]
    );
}

#[test]
fn dedupe_keeps_first_label_of_each_tag() {
    let ids: Vec<String> = vec!["lattice".into(), "格".into(), "order".into(), "unknown".into(), "unknown".into()];
    let rows = pairs(&[("lattice", "t1"), ("格", "t1"), ("order", "t2")]);
    let out = dedupe_labels_by_tag(&ids, &rows);
    assert_eq!(out, vec!["lattice", "order", "unknown", "unknown"]);
}

#[test]
fn pending_deletion_blocks_edits() {
    match check_no_pending_deletion(true) {
        Err(Error::Validation(v)) => {
            assert_eq!(v.len(), 1);
            assert_eq!(v[0].field, "label_id");
        }
        other => panic!("expected a validation error, got {other:?}"),
    }
    assert!(check_no_pending_deletion(false).is_ok());
}

#[test]
fn tag_language_guess() {
    assert_eq!(guess_lang_from_id("格论"), "zh");
    assert_eq!(guess_lang_from_id("lattice-theory"), "en");
}

#[test]
fn untouched_rows_mean_not_found() {
    match require_found(0, "event", "e1") {
        Err(Error::NotFound { entity, id }) => {
            assert_eq!(entity, "event");
            assert_eq!(id, "e1");
        }
        other => panic!("expected NotFound, got {other:?}"),
    }
    assert!(require_found(3, "event", "e1").is_ok());
}

#[test]
fn nobody_is_notified_of_their_own_action() {
    assert!(!notifies("did:a", "did:a"));
    assert!(notifies("did:a", "did:b"));
}

#[test]
fn self_added_authors_are_verified() {
    assert_eq!(authorship_status("did:a", "did:a"), "verified");
    assert_eq!(authorship_status("did:a", "did:b"), "pending");
}

#[test]
fn series_edit_lists_given_fields_in_column_order() {
    let mut title = HashMap::new();
    title.insert("en".to_string(), "Series".to_string());
    let input = UpdateBookSeries {
        title: Some(title),
        subtitle: None,
        description: Some(HashMap::new()),
        cover_url: Some("c.png".to_string()),
        summary: None,
    };
    assert_eq!(series_edit_fields(&input), vec!["title", "description", "cover_url"]);
    let empty = UpdateBookSeries { title: None, subtitle: None, description: None, cover_url: None, summary: None };
    assert!(series_edit_fields(&empty).is_empty());
}

#[test]
fn restricted_content_access() {
    assert_eq!(content_access("did:o", false, None), Some(true));
    assert_eq!(content_access("did:o", true, None), Some(false));
    assert_eq!(content_access("did:o", true, Some("did:o")), Some(true));
    assert_eq!(content_access("did:o", true, Some("did:v")), None);
    assert!(content_access_with_grant("did:o", true, Some("did:v"), true));
    assert!(!content_access_with_grant("did:o", true, Some("did:v"), false));
    assert!(!content_access_with_grant("did:o", true, None, true));
}

#[test]
fn empty_language_name_sets_a_sibling() {
    let entries = pairs(&[("", "x"), ("en", "Lattice")]);
    let out = name_updates("en", &entries);
    assert_eq!(
        out,
        vec![
            NameUpdate::SetSibling { lang: String::new(), name: "x".to_string() },
            NameUpdate::RenameOrigin("Lattice".to_string()),
        ]
    );
}

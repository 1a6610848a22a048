use fx_core::services::social::{profile_response, Contacts, ProfileRow};
use fx_core::services::platform_user::{hash_password, local_did, verify_password};

#[test]
fn unknown_did_gets_an_empty_profile() {
    let p = profile_response("did:x", None);
    assert_eq!(p.did, "did:x");
    assert!(p.handle.is_none() && p.display_name.is_none() && p.avatar_url.is_none());
    assert_eq!(p.bio, "");
    assert_eq!(p.reputation, 0);
    assert_eq!(p.article_count, 0);
    assert_eq!(p.series_count, 0);
    assert!(p.contacts.website.is_none() && p.contacts.custom.is_empty());
    assert!(p.education.is_empty() && p.publications.is_empty());
    assert!(p.projects.is_empty() && p.teaching.is_empty());
    assert!(!p.credentials_verified);
}

fn row(verified: Option<bool>) -> ProfileRow {
    let mut contacts = Contacts::default();
    contacts.github = Some("octo".to_string());
    ProfileRow {
        handle: Some("alice".to_string()),
        display_name: Some("Alice".to_string()),
        avatar_url: None,
        banner_url: None,
        bio: "hi".to_string(),
        reputation: 12,
        contacts,
        email: Some("a@example.org".to_string()),
        education: Vec::new(),
        publications: Vec::new(),
        projects: Vec::new(),
        teaching: Vec::new(),
        affiliation: Some("Lab".to_string()),
        credentials_verified: verified,
        article_count: 3,
        series_count: 1,
    }
}

#[test]
fn stored_profile_is_passed_through() {
    let p = profile_response("did:a", Some(row(Some(true))));
    assert_eq!(p.did, "did:a");
    assert_eq!(p.handle.as_deref(), Some("alice"));
    assert_eq!(p.bio, "hi");
    assert_eq!(p.reputation, 12);
    assert_eq!(p.article_count, 3);
    assert_eq!(p.series_count, 1);
    assert_eq!(p.contacts.github.as_deref(), Some("octo"));
    assert_eq!(p.affiliation.as_deref(), Some("Lab"));
    assert!(p.credentials_verified);
    assert!(!profile_response("did:a", Some(row(None))).credentials_verified);
}

#[test]
fn a_password_hash_accepts_its_password() {
    use_password_fns();
}

fn use_password_fns() {
    let h = hash_password("correct horse").expect("hashing succeeds");
    assert!(h.starts_with("$argon2"));
    assert_eq!(verify_password("correct horse", &h).ok(), Some(true));
    assert_eq!(verify_password("wrong horse", &h).ok(), Some(false));
    assert!(verify_password("correct horse", "not a phc string").is_err());
    assert_eq!(local_did("alice"), "did:local:alice");
}

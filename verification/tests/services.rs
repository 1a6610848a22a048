use std::collections::HashMap;

use fx_core::content::{ContentFormat, ContentKind, PrereqType};
use fx_core::error::Error;
use fx_core::models::article::CreateArticle;
use fx_core::models::draft::{SaveDraft, UpdateDraft};
use fx_core::models::tag::ArticlePrereq;
use fx_core::services::article::{
    article_defaults, chapter_synthetic_uri, check_rows_affected, last_segment_of, plan_article_route,
    plan_visibility, translation_path, ArticleRoute, VisibilityChange,
};
use fx_core::services::book::{
    book_content_uri, chapter_predicate, chapters_with_tags, check_edition_deletion, check_isbn_free,
    edition_id, edition_status, exam_clause, reading_progress, stored_exam_tags, BookChapter,
    ChapterAuthorRow, ChapterPrereqRow, ChapterTeachRow,
};
use fx_core::services::book_series::{hex_short_id, hex_suffix};
use fx_core::services::consistency::{consistency_report, ArticleRepoState, SeriesRepoState};
use fx_core::services::draft::{check_draft_editor, draft_changes, draft_defaults, DraftChange};
use fx_core::services::graph::{assemble_graph, GraphEdgeRow, GraphTagRow};
use fx_core::services::series::{context_ref, decode_uri_component, parse_chapter_uri, ContextRef};
use fx_core::services::skill::{check_tag_edge, skill_status, skill_tree_tags, SkillTreeEdgeRow, SkillTreePrereqRow};
use fx_core::services::term::{term_edit, term_edit_steps, TermRow, UpdateTerm};
use fx_core::services::patch::{apply_patch, json_eq};
use fx_core::services::vote::{complete_vote_summaries, is_canonical_vote_target, vote_action, VoteAction, VoteSummary};
use fx_core::services::author::{is_blank, non_blank_names};

fn create_article(format: ContentFormat) -> CreateArticle {
    CreateArticle {
        title: "T".into(),
        summary: None,
        content: "body".into(),
        content_format: format,
        lang: None,
        license: None,
        translation_of: None,
        restricted: None,
        category: None,
        tags: vec![],
        prereqs: vec![],
        related: vec![],
        topics: vec![],
        series_id: None,
        authors: vec![],
        invites: vec![],
        metadata: None,
        book_chapter_id: None,
        term_session_id: None,
    }
}

#[test]
fn article_routes() {
    let input = create_article(ContentFormat::Markdown);
    match plan_article_route("at://did:plc:x/at.nightbo.work/abc123", &input, ContentKind::Question) {
        ArticleRoute::ServerQa { repo_uri, source_path } => {
            assert_eq!(repo_uri, "server://qa/abc123");
            assert_eq!(source_path, "question.md");
        }
        other => panic!("unexpected route {other:?}"),
    }
    match plan_article_route("at://did:plc:x/at.nightbo.work/abc123", &create_article(ContentFormat::Tex), ContentKind::Article) {
        ArticleRoute::Standalone { repo_uri, source_path } => {
            assert_eq!(repo_uri, "at://did:plc:x/at.nightbo.work/abc123");
            assert_eq!(source_path, "main.typ");
        }
        other => panic!("unexpected route {other:?}"),
    }
    let mut tr = create_article(ContentFormat::Html);
    tr.translation_of = Some("at://src".into());
    match plan_article_route("at://x/y/z", &tr, ContentKind::Answer) {
        ArticleRoute::Translation { source_uri } => assert_eq!(source_uri, "at://src"),
        other => panic!("unexpected route {other:?}"),
    }
    assert_eq!(last_segment_of("no-slash"), "no-slash");
}

#[test]
fn article_defaults_and_paths() {
    let mut input = create_article(ContentFormat::Typst);
    let d = article_defaults(&input);
    assert_eq!((d.lang.as_str(), d.restricted, d.license.as_str(), d.category.as_str()), ("zh", false, "CC-BY-SA-4.0", "general"));
    input.restricted = Some(true);
    input.license = Some("MIT".into());
    assert_eq!(article_defaults(&input).license, "All-Rights-Reserved");
    assert_eq!(translation_path("main.typ", "zh-CN", "typ"), "main.zh-CN.typ");
    assert_eq!(translation_path("notes", "en", "md"), "notes.en.md");
    assert_eq!(chapter_synthetic_uri("at://s", "ch1.md"), "nightboat://article/at://s/ch1.md");
}

#[test]
fn article_visibility_changes() {
    assert_eq!(plan_visibility("removed", Some("spam")), VisibilityChange::Remove { reason: Some("spam".into()) });
    assert_eq!(plan_visibility("public", Some("spam")), VisibilityChange::Assign { visibility: "public".into() });
    assert!(check_rows_affected(1, "u").is_ok());
    match check_rows_affected(0, "u") {
        Err(Error::NotFound { entity, id }) => assert_eq!((entity, id.as_str()), ("article", "u")),
        other => panic!("unexpected {other:?}"),
    }
}

#[test]
fn drafts() {
    let save = SaveDraft {
        title: "t".into(),
        description: None,
        content: "c".into(),
        content_format: ContentFormat::Markdown,
        lang: Some("en".into()),
        license: None,
        tags: vec![],
        prereqs: vec![],
    };
    let d = draft_defaults(&save);
    assert_eq!((d.description.as_str(), d.lang.as_str(), d.license.as_str()), ("", "en", "CC-BY-SA-4.0"));
    assert!(check_draft_editor(Some("did:a"), "did:a", "d1").is_ok());
    assert!(matches!(check_draft_editor(Some("did:b"), "did:a", "d1"), Err(Error::Forbidden { action: "update draft owned by another user" })));
    assert!(matches!(check_draft_editor(None, "did:a", "d1"), Err(Error::NotFound { entity: "draft", .. })));
    let upd = UpdateDraft {
        id: "d1".into(),
        title: Some("new".into()),
        description: None,
        content: None,
        content_format: Some(ContentFormat::Typst),
        lang: None,
        license: None,
        tags: Some(vec!["x".into()]),
        prereqs: Some(vec![ArticlePrereq { tag_id: "p".into(), prereq_type: PrereqType::Recommended }]),
    };
    let ch = draft_changes(&upd);
    assert_eq!(ch.len(), 4);
    assert!(matches!(&ch[0], DraftChange::Title(t) if t == "new"));
    assert!(matches!(&ch[1], DraftChange::ContentFormat(ContentFormat::Typst)));
    assert!(matches!(&ch[2], DraftChange::Tags(t) if t == &vec!["x".to_string()]));
    assert!(matches!(&ch[3], DraftChange::Prereqs(p) if p.len() == 1 && p[0].tag_id == "p"));
}

#[test]
fn book_rules() {
    assert!(check_isbn_free(Some("978"), None).is_ok());
    assert!(check_isbn_free(None, Some("b1")).is_ok());
    match check_isbn_free(Some("978"), Some("b1")) {
        Err(Error::BadRequest(m)) => assert_eq!(m, "ISBN 978 already exists on book b1"),
        other => panic!("unexpected {other:?}"),
    }
    assert_eq!(book_content_uri("b1"), "book:b1");
    assert_eq!(edition_id("x"), "ed-x");
    assert_eq!(edition_status(&None), "published");
    assert_eq!(edition_status(&Some("draft".into())), "draft");
    assert_eq!(stored_exam_tags(&Some(vec![])), None);
    assert_eq!(stored_exam_tags(&Some(vec!["kaoyan".into()])), Some(vec!["kaoyan".to_string()]));
    assert_eq!(exam_clause(None), ("TRUE", None));
    assert_eq!(exam_clause(Some("none")).0, "(b.exam_tags IS NULL OR cardinality(b.exam_tags) = 0)");
    assert_eq!(exam_clause(Some("kaoyan-408")), ("$4 = ANY(b.exam_tags)", Some("kaoyan-408".to_string())));
    assert_eq!(chapter_predicate("answer").unwrap(), "a.kind = $2::content_kind");
    assert_eq!(chapter_predicate("note").unwrap(), "a.category = $2");
    match chapter_predicate("video") {
        Err(Error::BadRequest(m)) => assert_eq!(m, "get_chapter_articles: unsupported kind_or_category 'video'"),
        other => panic!("unexpected {other:?}"),
    }
    assert!(matches!(check_edition_deletion(0, "e"), Err(Error::NotFound { entity: "book_edition", .. })));
    assert!(matches!(check_edition_deletion(1, "e"), Err(Error::BadRequest(_))));
    assert!(check_edition_deletion(2, "e").is_ok());
    assert_eq!(reading_progress(3, 4), 75);
    assert_eq!(reading_progress(5, 0), 0);
    assert_eq!(reading_progress(9, 4), 100);
    assert_eq!(reading_progress(-5, 4), 0);
    assert_eq!(reading_progress(-6_553_600, 1), 0);
    assert_eq!(reading_progress(-655, 1), 36);
}

#[test]
fn chapters_group_their_links() {
    let ch = |id: &str| BookChapter {
        id: id.into(),
        book_id: "b".into(),
        parent_id: None,
        title: id.to_uppercase(),
        title_i18n: HashMap::new(),
        order_index: 0,
        article_uri: None,
    };
    let chapters = vec![ch("c1"), ch("c2")];
    let teaches = vec![
        ChapterTeachRow { content_uri: "chapter:c1".into(), tag_id: "t1".into() },
        ChapterTeachRow { content_uri: "chapter:c2".into(), tag_id: "t2".into() },
        ChapterTeachRow { content_uri: "chapter:c1".into(), tag_id: "t3".into() },
    ];
    let prereqs = vec![ChapterPrereqRow { content_uri: "chapter:c2".into(), tag_id: "p".into(), prereq_type: "required".into() }];
    let authors = vec![ChapterAuthorRow { chapter_id: "c1".into(), author_id: "a1".into(), name: "Ann".into(), role: "author".into() }];
    let out = chapters_with_tags(&chapters, &teaches, &prereqs, &authors);
    assert_eq!(out.len(), 2);
    assert_eq!(out[0].teaches, vec!["t1".to_string(), "t3".to_string()]);
    assert!(out[0].prereqs.is_empty());
    assert_eq!(out[0].authors.len(), 1);
    assert_eq!(out[1].teaches, vec!["t2".to_string()]);
    assert_eq!(out[1].prereqs[0].tag_id, "p");
    assert_eq!(out[1].title, "C2");
}

#[test]
fn knowledge_graph_assembly() {
    let row = |tag: &str, label: &str| GraphTagRow { tag_id: tag.into(), label_id: label.into(), name: label.to_uppercase(), names: HashMap::new() };
    let edge = |f: &str, t: &str, k: &str| GraphEdgeRow { from_tag: f.into(), to_tag: t.into(), prereq_type: k.into() };
    let g = assemble_graph(
        vec![row("t1", "l1"), row("t2", "l2")],
        &vec!["t2".to_string()],
        &vec![edge("t1", "t2", "required"), edge("t1", "t2", "required"), edge("t1", "t9", "required"), edge("t2", "t1", "recommended")],
    );
    assert_eq!(g.nodes.len(), 2);
    assert_eq!((g.nodes[0].id.as_str(), g.nodes[0].lit), ("l1", false));
    assert_eq!((g.nodes[1].id.as_str(), g.nodes[1].lit), ("l2", true));
    let edges: Vec<(&str, &str, &str)> = g.edges.iter().map(|e| (e.from.as_str(), e.to.as_str(), e.edge_type.as_str())).collect();
    assert_eq!(edges, vec![("l1", "l2", "required"), ("l2", "l1", "recommended")]);
}

#[test]
fn series_chapter_uris() {
    assert_eq!(decode_uri_component("a%2Fb%20c"), "a/b c");
    assert_eq!(decode_uri_component("100%"), "100%");
    assert_eq!(parse_chapter_uri("nightboat-chapter://s1/ch%201.md"), Some(("s1".to_string(), "ch 1.md".to_string())));
    assert_eq!(parse_chapter_uri("nightboat-chapter://s1"), None);
    assert_eq!(context_ref("at://x/y/z"), ContextRef::Localization);
    assert_eq!(context_ref("nightboat-chapter://only"), ContextRef::Unresolvable);
}

#[test]
fn skills_and_hierarchy() {
    assert!(matches!(check_tag_edge("a", "a"), Err(Error::Validation(v)) if v.len() == 1 && v[0].field == "child_tag" && v[0].message == "cannot equal parent_tag"));
    assert!(check_tag_edge("a", "b").is_ok());
    assert_eq!(skill_status("learning"), "learning");
    assert_eq!(skill_status("anything"), "mastered");
    let edges = vec![SkillTreeEdgeRow { parent_tag: "a".into(), child_tag: "b".into() }, SkillTreeEdgeRow { parent_tag: "b".into(), child_tag: "c".into() }];
    let prereqs = vec![SkillTreePrereqRow { from_tag: "c".into(), to_tag: "d".into(), prereq_type: "required".into() }];
    assert_eq!(skill_tree_tags(&edges, &prereqs), vec!["a", "b", "c", "d"]);
}

#[test]
fn votes() {
    assert!(is_canonical_vote_target("nightboat://article/at://x/y"));
    assert!(!is_canonical_vote_target("at://x/y"));
    assert_eq!(vote_action(0), VoteAction::Withdraw);
    assert_eq!(vote_action(5), VoteAction::Store(1));
    assert_eq!(vote_action(-3), VoteAction::Store(-1));
    let rows = vec![VoteSummary { target_uri: "u1".into(), score: 2, upvotes: 2, downvotes: 0 }];
    let all = complete_vote_summaries(rows, &vec!["u0".into(), "u1".into(), "u2".into()]);
    let uris: Vec<&str> = all.iter().map(|v| v.target_uri.as_str()).collect();
    assert_eq!(uris, vec!["u1", "u0", "u2"]);
    assert_eq!(all[1].score, 0);
}

#[test]
fn consistency_pass() {
    let articles = vec![
        ArticleRepoState { at_uri: "at://a/1".into(), dir_exists: true },
        ArticleRepoState { at_uri: "at://a/2".into(), dir_exists: false },
    ];
    let series = vec![SeriesRepoState { series_id: "s1".into(), node_id: "series_s1".into(), dir_exists: false }];
    let dirs = vec!["at___a_1".to_string(), "series_old".to_string(), ".tmp".to_string(), "stray".to_string(), "typst-packages".to_string()];
    let r = consistency_report(&articles, &series, &dirs);
    assert_eq!(r.article_missing_repo.len(), 1);
    assert_eq!(r.article_missing_repo[0].node_id, "at___a_2");
    assert_eq!(r.series_missing_repo[0].ref_id, "s1");
    let orphans: Vec<(&str, &str)> = r.orphan_dirs.iter().map(|m| (m.kind, m.node_id.as_str())).collect();
    assert_eq!(orphans, vec![("series", "series_old"), ("article", "stray")]);
    assert_eq!(r.total_dirs_scanned, 3);
}

#[test]
fn term_edit_patch_reproduces_new_snapshot() {
    let row = TermRow {
        id: "t".into(),
        did: "did:o".into(),
        title: "Compilers".into(),
        code: Some("CS143".into()),
        description: "d".into(),
        institution: None,
        department: None,
        semester: Some("2023".into()),
        lang: "en".into(),
        license: "CC".into(),
        source_url: None,
        source_attribution: None,
        created_at: "x".into(),
        updated_at: "x".into(),
        course_id: None,
    };
    let edit = UpdateTerm {
        title: Some("Compilers II".into()),
        code: None,
        description: None,
        syllabus: Some("week 1".into()),
        institution: Some("MIT".into()),
        department: None,
        semester: None,
        lang: None,
        license: None,
        source_url: None,
        source_attribution: None,
        authors: None,
        summary: None,
    };
    let e = term_edit(&row, "old syllabus", &edit);
    let paths: Vec<&str> = e.ops.iter().map(|o| o.path.as_str()).collect();
    assert_eq!(paths, vec!["/institution", "/syllabus", "/title"]);
    let mut doc = e.old_doc;
    apply_patch(&mut doc, &e.ops).unwrap();
    assert!(json_eq(&doc, &e.new_doc));
    let steps = term_edit_steps(e.ops.len(), false, false);
    assert!(!steps.unchanged && steps.record_patch && !steps.write_fields && !steps.write_authors);
    let none = term_edit_steps(0, false, true);
    assert!(none.unchanged && !none.record_patch);
    let authors_only = term_edit_steps(0, true, true);
    assert!(!authors_only.unchanged && !authors_only.record_patch && authors_only.write_authors);
}

#[test]
fn short_ids_and_names() {
    assert_eq!(hex_suffix(0x1234abcd, 4), "abcd");
    assert_eq!(hex_suffix(0xff, 8), "ff");
    assert_eq!(hex_suffix(0, 3), "0");
    let id = hex_short_id(6);
    assert_eq!(id.len(), 6);
    assert!(id.chars().all(|c| c.is_ascii_hexdigit()));
    assert!(is_blank("  \t"));
    assert!(!is_blank(" x "));
    let kept = non_blank_names(vec![("en".into(), "Knuth".into()), ("zh".into(), "  ".into())]);
    assert_eq!(kept, vec![("en".to_string(), "Knuth".to_string())]);
}

use fx_core::meta::{
    default_chapter_path, extract_first_heading, merge_frontmatter, render_markdown_with_frontmatter,
    split_frontmatter_text, ChapterGroup, Frontmatter, PrereqEntry, SeriesMeta,
};

fn empty_frontmatter() -> Frontmatter {
    Frontmatter {
        title: None,
        description: None,
        lang: None,
        category: None,
        license: None,
        cover: None,
        teaches: vec![],
        prereqs: vec![],
        related: vec![],
    }
}

#[test]
fn extract_md_heading_skips_frontmatter() {
    let src = "---\ntitle: foo\n---\n# After frontmatter\n";
    assert_eq!(extract_first_heading(src, "md").as_deref(), Some("After frontmatter"));
}

#[test]
fn extract_typst_heading_top() {
    assert_eq!(extract_first_heading("= Top\n== Sub", "typst").as_deref(), Some("Top"));
}

#[test]
fn extract_html_heading_simple() {
    assert_eq!(extract_first_heading("<h1>Header</h1>", "html").as_deref(), Some("Header"));
    assert_eq!(
        extract_first_heading("<h1 class=\"x\">With <em>tags</em></h1>", "html").as_deref(),
        Some("With tags"),
    );
}

#[test]
fn merge_frontmatter_empty_input_is_noop() {
    let body = "# Hi\n\nbody\n";
    let fm = empty_frontmatter();
    let (yaml, rest) = split_frontmatter_text(body);
    assert!(yaml.is_none());
    let merged = merge_frontmatter(&empty_frontmatter(), &fm);
    assert!(merged.title.is_none() && merged.teaches.is_empty());
    // The YAML of a frontmatter with every field left out is an empty mapping.
    let empty_yaml = serde_yml::to_string(&std::collections::BTreeMap::<String, String>::new()).unwrap();
    let out = render_markdown_with_frontmatter(&empty_yaml, &rest);
    assert_eq!(out, body);
}

#[test]
fn frontmatter_basic() {
    let src = "---\ntitle: Preface\nteaches:\n  - x\n  - y\nprereqs:\n  - tag: a\n  - tag: b\n    type: recommended\n---\n# Preface\n\nbody\n";
    let (yaml, body) = split_frontmatter_text(src);
    let yaml = yaml.expect("frontmatter present");
    let v: serde_yml::Value = serde_yml::from_str(&yaml).unwrap();
    assert_eq!(v.get("title").and_then(|t| t.as_str()), Some("Preface"));
    let teaches: Vec<&str> = v.get("teaches").unwrap().as_sequence().unwrap().iter().map(|t| t.as_str().unwrap()).collect();
    assert_eq!(teaches, vec!["x", "y"]);
    let prereqs: Vec<PrereqEntry> = v
        .get("prereqs")
        .unwrap()
        .as_sequence()
        .unwrap()
        .iter()
        .map(|p| PrereqEntry {
            tag: p.get("tag").unwrap().as_str().unwrap().to_string(),
            prereq_type: p.get("type").and_then(|t| t.as_str()).map(|t| t.to_string()),
        })
        .collect();
    assert_eq!(prereqs.len(), 2);
    assert_eq!(prereqs[0].kind(), "required");
    assert_eq!(prereqs[1].kind(), "recommended");
    assert!(body.starts_with("# Preface"));
}

#[test]
fn frontmatter_missing() {
    let src = "# Just content\nnothing above\n";
    let (yaml, body) = split_frontmatter_text(src);
    assert!(yaml.is_none());
    assert_eq!(body, src);
}

#[test]
fn frontmatter_trailing_content_only() {
    let src = "# Heading\n\n---\nthree dashes mid-body\n";
    let (yaml, body) = split_frontmatter_text(src);
    assert!(yaml.is_none());
    assert_eq!(body, src);
}

#[test]
fn frame_then_split_gives_back_yaml_and_body() {
    let yaml = "title: Hi\nlang: zh\n\n";
    let body = "# Hi\n\nbody\n";
    let framed = render_markdown_with_frontmatter(yaml, body);
    assert_eq!(framed, "---\ntitle: Hi\nlang: zh\n---\n# Hi\n\nbody\n");
    let (back, rest) = split_frontmatter_text(&framed);
    assert_eq!(back.as_deref(), Some("title: Hi\nlang: zh"));
    assert_eq!(rest, body);
}

#[test]
fn frontmatter_with_crlf_and_unclosed_block() {
    let (y, b) = split_frontmatter_text("---\r\na: 1\r\n---\r\nbody");
    assert_eq!(y.as_deref(), Some("a: 1"));
    assert_eq!(b, "body");
    let (y2, b2) = split_frontmatter_text("---\na: 1\nno close\n");
    assert!(y2.is_none());
    assert_eq!(b2, "---\na: 1\nno close\n");
    let (y3, b3) = split_frontmatter_text("---\na: 1\n---");
    assert_eq!(y3.as_deref(), Some("a: 1"));
    assert_eq!(b3, "");
}

#[test]
fn merge_incoming_fields_win() {
    let mut existing = empty_frontmatter();
    existing.title = Some("Old".into());
    existing.lang = Some("en".into());
    let mut incoming = empty_frontmatter();
    incoming.title = Some("New".into());
    incoming.teaches = vec!["calculus".into()];
    let m = merge_frontmatter(&existing, &incoming);
    assert_eq!(m.title.as_deref(), Some("New"));
    assert_eq!(m.lang.as_deref(), Some("en"));
    assert_eq!(m.teaches, vec!["calculus".to_string()]);
}

#[test]
fn heading_edge_cases() {
    assert_eq!(extract_first_heading("no heading here", "md"), None);
    assert_eq!(extract_first_heading("<H1>Upper</H1>", "html").as_deref(), Some("Upper"));
    assert_eq!(extract_first_heading("<h2>Sub</h2>", "html"), None);
    assert_eq!(extract_first_heading("<h1>   </h1>", "html"), None);
    assert_eq!(extract_first_heading("text\n# Title  \nmore", "markdown").as_deref(), Some("Title"));
    assert_eq!(extract_first_heading("= A", "pdf"), None);
}

#[test]
fn series_sections_and_chapter_path() {
    let meta = SeriesMeta {
        title: "Demo".into(),
        description: None,
        long_description: None,
        lang: Some("zh".into()),
        category: None,
        topics: vec![],
        split_level: Some(2),
        chapters: vec![
            ChapterGroup { title: "Preface".into(), sections: vec!["README.md".into()] },
            ChapterGroup { title: "Chapter 0".into(), sections: vec!["ch0/ch0.md".into(), "ch0/b.md".into()] },
        ],
        cover: None,
    };
    assert_eq!(meta.section_paths(), vec!["README.md".to_string(), "ch0/ch0.md".to_string(), "ch0/b.md".to_string()]);
    assert_eq!(default_chapter_path("c1", "md"), "chapters/c1.md");
}

use fx_core::content::{Category, ContentFormat, ContentKind, PrereqType};
use fx_core::models::flat::PrereqType as ModelPrereqType;
use fx_core::region::{default_visibility, visibility_filter, InstanceMode};

#[test]
fn content_format_from_str() {
    assert_eq!("typst".parse::<ContentFormat>().unwrap(), ContentFormat::Typst);
    assert_eq!("md".parse::<ContentFormat>().unwrap(), ContentFormat::Markdown);
    assert!("invalid".parse::<ContentFormat>().is_err());
}

#[test]
fn content_format_extension() {
    assert_eq!(ContentFormat::Typst.file_extension(), "typ");
    assert_eq!(ContentFormat::from_extension("md"), Some(ContentFormat::Markdown));
}

#[test]
fn content_prereq_type_as_str() {
    assert_eq!(PrereqType::Required.as_str(), "required");
    assert_eq!(PrereqType::Recommended.as_str(), "recommended");
    assert_eq!(PrereqType::Suggested.as_str(), "suggested");
}

#[test]
fn models_prereq_type_as_str() {
    assert_eq!(ModelPrereqType::Required.as_str(), "required");
    assert_eq!(ModelPrereqType::Recommended.as_str(), "recommended");
    assert_eq!(ModelPrereqType::Suggested.as_str(), "suggested");
}

#[test]
fn category_default() {
    assert_eq!(Category::default(), Category::General);
}

#[test]
fn content_format_name_roundtrip_all() {
    for fmt in [ContentFormat::Typst, ContentFormat::Markdown, ContentFormat::Html, ContentFormat::Tex] {
        assert_eq!(fmt.as_str().parse::<ContentFormat>().unwrap(), fmt);
        assert_eq!(ContentFormat::from_extension(fmt.file_extension()), Some(fmt));
    }
}

#[test]
fn content_format_rejects_with_message() {
    let e = "docx".parse::<ContentFormat>().unwrap_err();
    assert_eq!(e, "unknown content format: docx");
    assert_eq!(ContentFormat::from_extension("docx"), None);
    assert_eq!(ContentFormat::from_extension("htm"), Some(ContentFormat::Html));
}

#[test]
fn content_kind_names() {
    assert_eq!(ContentKind::Question.as_str(), "question");
    assert_eq!("answer".parse::<ContentKind>().unwrap(), ContentKind::Answer);
    assert!("essay".parse::<ContentKind>().is_err());
}

#[test]
fn category_names_roundtrip() {
    let c = Category::default();
    assert_eq!(c.as_str().parse::<Category>().unwrap(), c);
}

#[test]
fn instance_mode_roundtrip_and_defaults() {
    for m in [InstanceMode::Cn, InstanceMode::Intl] {
        assert_eq!(InstanceMode::from_str(m.as_str()), m);
    }
    assert_eq!(InstanceMode::default(), InstanceMode::Intl);
    assert!(InstanceMode::Cn.requires_phone());
    assert!(!InstanceMode::Intl.requires_phone());
    assert_eq!(default_visibility(true), "public");
    assert_eq!(default_visibility(false), "cn_hidden");
    assert_eq!(visibility_filter(InstanceMode::Cn), "a.visibility = 'public'");
    assert_eq!(visibility_filter(InstanceMode::Intl), "a.visibility IN ('public', 'cn_hidden')");
}

use fx_core::error::{Error, ValidationError};

#[test]
fn validation_error_display() {
    let ve = ValidationError { field: "title".into(), message: "too long".into() };
    assert_eq!(ve.to_string(), "title: too long");
}

#[test]
fn not_found_display() {
    let e = Error::NotFound { entity: "article", id: "abc".into() };
    assert_eq!(e.to_string(), "not found: article: abc");
}

#[test]
fn forbidden_display() {
    let e = Error::Forbidden { action: "delete" };
    assert_eq!(e.to_string(), "forbidden: delete");
}

#[test]
fn validation_display() {
    let e = Error::Validation(vec![ValidationError { field: "title".into(), message: "empty".into() }]);
    assert_eq!(e.to_string(), "validation failed");
}

#[test]
fn other_error_messages() {
    assert_eq!(Error::Conflict { message: "dup".into() }.to_string(), "conflict: dup");
    assert_eq!(Error::Unauthorized.to_string(), "unauthorized");
    assert_eq!(Error::BadRequest("x".into()).to_string(), "bad request: x");
    assert_eq!(Error::Database("down".into()).to_string(), "database error: down");
    assert_eq!(Error::Io("missing".into()).to_string(), "io error: missing");
    assert_eq!(Error::Pijul("p".into()).to_string(), "pijul error: p");
    assert_eq!(Error::AtProto("a".into()).to_string(), "atproto error: a");
    assert_eq!(Error::Render("r".into()).to_string(), "render error: r");
    assert_eq!(Error::Internal("oops".into()).to_string(), "oops");
}

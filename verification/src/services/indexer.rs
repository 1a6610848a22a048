//! Repository indexing: content format of a file by its extension.

use vstd::prelude::*;

use crate::text::{chars_of, ends_with, has_suffix};

verus! {

/// The content format of a file path: `.md` markdown, `.html` html, anything
/// else typst.
pub open spec fn format_of_path(p: Seq<char>) -> Seq<char> {
    if has_suffix(p, ".md"@) {
        "markdown"@
    } else if has_suffix(p, ".html"@) {
        "html"@
    } else {
        "typst"@
    }
}

pub fn infer_content_format(file_path: &str) -> (r: &'static str)
    ensures
        r@ == format_of_path(file_path@),
{
    let v = chars_of(file_path);
    let md = chars_of(".md");
    let html = chars_of(".html");
    if ends_with(v.as_slice(), md.as_slice()) {
        "markdown"
    } else if ends_with(v.as_slice(), html.as_slice()) {
        "html"
    } else {
        "typst"
    }
}

} // verus!

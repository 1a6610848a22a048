//! Tag creation requests and prerequisite links.

use vstd::prelude::*;

use std::collections::HashMap;

use crate::content::PrereqType;

verus! {

/// A request to create a tag (concept) with its first name.
#[derive(Debug, Clone)]
pub struct CreateTag {
    /// The initial name in its own language.
    pub name: String,
    /// Extra names keyed by language; each becomes its own name row
    /// attached to the same tag.
    pub names: Option<HashMap<String, String>>,
}

/// A prerequisite of some content on a tag, with its strength.
#[derive(Debug, Clone)]
pub struct ArticlePrereq {
    pub tag_id: String,
    pub prereq_type: PrereqType,
}

} // verus!

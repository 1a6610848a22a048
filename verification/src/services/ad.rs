//! Advertisements: what a served slot shows.

use vstd::prelude::*;

verus! {

/// The part of an advertisement a page shows.
#[derive(Debug, Clone)]
pub struct AdSlot {
    pub id: String,
    pub title: String,
    pub body: Option<String>,
    pub image_url: Option<String>,
    pub link_url: String,
}

} // verus!

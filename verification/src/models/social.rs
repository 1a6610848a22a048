//! Votes.

use vstd::prelude::*;

verus! {

#[derive(Debug, Clone)]
pub struct Vote {
    pub at_uri: String,
    pub target_uri: String,
    pub did: String,
    pub value: i32,
}

} // verus!

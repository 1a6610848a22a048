//! Data records of articles, drafts, votes and tags.

pub mod article;
pub mod draft;
pub mod social;
pub mod tag;
pub mod flat;

//! Core domain logic of the knowledge-sharing platform: content metadata,
//! markdown frontmatter framing, identifiers, JSON-patch edit history,
//! unified-diff parsing and the decision rules of the service layer.

pub mod text;
pub mod content;
pub mod region;
pub mod error;
pub mod meta;
pub mod util;
pub mod models;
pub mod services;

pub use error::Error;

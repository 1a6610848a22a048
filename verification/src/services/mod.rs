//! Decision rules and records of the service layer. Each module holds the
//! part of a service that computes: validation, permission checks, default
//! values, identifiers, and the assembly of query results. Running the
//! queries is left to the caller.

pub mod access;
pub mod publication;
pub mod short_review;
pub mod tag;
pub mod indexer;
pub mod platform_user;
pub mod social;
pub mod report;
pub mod event;
pub mod listing;
pub mod comment;
pub mod reputation;
pub mod series;
pub mod article;
pub mod version;
pub mod patch;
pub mod patch_law;
pub mod graph;
pub mod draft;
pub mod book;
pub mod term;
pub mod skill;
pub mod vote;
pub mod consistency;
pub mod book_series;
pub mod course;
pub mod paper;
pub mod ad;
pub mod auth;
pub mod author;

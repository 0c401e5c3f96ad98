//! Request-handling rules of a search and retrieval service: access roles,
//! request validation, chunk and file processing options, and the text
//! transformations that the handlers apply before calling their services.

use vstd::prelude::*;

pub mod errors;
pub mod text;
pub mod models;
pub mod auth;
pub mod ids;
pub mod file;
pub mod chunk;
pub mod rag;
pub mod codec;
pub mod message;
pub mod query;
pub mod invitation;
pub mod account;
pub mod dataset;
pub mod group;
pub mod topic;
pub mod webhook;
pub mod page;
pub mod metrics;
pub mod stripe;
pub mod card;
pub mod events;
pub mod paging;
pub mod collection;
pub mod history;
pub mod organization;
pub mod analytics;

verus! {
} // verus!

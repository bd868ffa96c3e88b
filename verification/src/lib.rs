//! Session state for a paginated search front-end: a bounded, recency-ordered
//! store of search sessions, the offset arithmetic of paging, the compact
//! callback tokens attached to interactive controls, and the catalog entries
//! that the searches return.

pub mod constants;
pub mod cache;
pub mod codec;
pub mod handler;
pub mod link;
pub mod search;
pub mod state;
pub mod text;

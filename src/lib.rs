//! Audits the repositories of an organisation for a recognised team topic.
//!
//! The library decodes pages of a repository search, decides which
//! repositories carry none of the team topics, and drives the walk over the
//! pages of the search. Fetching the pages is left to the caller.

pub mod error;
pub mod topics;
pub mod search;
pub mod pager;
pub mod query;

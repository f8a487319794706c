//! Issue-tracker data: the response cache, the records the views show and
//! the extraction of issue drafts from free-form text.

pub mod anthropic;
pub mod cache;
pub mod types;

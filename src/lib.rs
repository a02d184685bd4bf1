//! Validation, classification and summary of small batches of user records.

pub mod classify;
pub mod pipeline;
pub mod records;
pub mod summary;
pub mod text;
pub mod validate;

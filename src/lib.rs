//! Resolving video identifiers, batching and paging metadata requests,
//! naming downloaded files, and deciding the per-video download stages.

pub mod text;
pub mod category;
pub mod sanitize;
pub mod idempotence;
pub mod error;
pub mod platform;
pub mod matcher;
pub mod batch;
pub mod paginate;
pub mod pipeline;
pub mod youtube;
pub mod hooks;
pub mod records;
pub mod init;
pub mod duration;

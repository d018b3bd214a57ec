//! Verified core of a collection downloader: the shared work queue, the
//! record of items already decided, the selection of what to process, and
//! the per-item decisions that every worker takes.

pub mod cache;
pub mod catalog;
pub mod collector;
pub mod config;
pub mod dates;
pub mod dispatch;
pub mod queue;
pub mod select;
pub mod text;

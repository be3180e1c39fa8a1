//! Verified core of a streaming post-ingestion pipeline.
//!
//! Incoming post events are filtered for eligibility, enriched with reply
//! context from a bounded least-recently-used cache, accumulated into a
//! bounded buffer, and handed out as immutable flush batches from which two
//! row-correlated, time-partitioned datasets are planned.

pub mod context_cache;
pub mod decimal;
pub mod flush_plan;
pub mod ids;
pub mod post_buffer;
pub mod post_handler;
pub mod time;

//! A library for driving HTTP load tests: it plans an even split of a
//! request budget across worker threads, tracks the collection protocol
//! that funnels per-request measurements back to one aggregator, and
//! turns the finished measurement set into a statistical summary with a
//! percentile ladder, a latency histogram and terminal bar charts.

pub mod bench;
pub mod chart;
pub mod collector;
pub mod content_length;
pub mod digits;
pub mod duration;
pub mod engine;
pub mod message;
pub mod new;
pub mod plan;
pub mod stats;

//! The wire format of the internal reporting channel: either one datum
//! from a worker, or the worker's end-of-stream marker.

use vstd::prelude::*;

verus! {

/// One message from a worker to the collector. Every worker sends all
/// of its payloads first and exactly one `EOF` after them.
pub enum Message<T> {
    Body(T),
    EOF,
}

} // verus!

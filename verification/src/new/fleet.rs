//! The request-driver capability: anything that can work through a
//! plan share and hand back one fact per finished request. The
//! transports implementing it live outside the library.

use crate::plan::Plan;
use crate::stats::Fact;
use vstd::prelude::*;

verus! {

/// A pluggable request driver: given a plan share, it performs the
/// requests and reports each outcome through the callback.
pub trait Drive: Clone {
    fn drive<F: FnMut(Fact)>(self, plan: Plan, collect: F);
}

} // verus!

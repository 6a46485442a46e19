//! The in-progress reworking of the run machinery: a builder-based
//! plan that carries its URLs and method, and the request-driver
//! capability that a transport implements.

pub mod fleet;
pub mod plan;

//! Deterministic fault injection for exercising error-handling paths.
//!
//! A test driver arms a countdown; every fallible operation routed through
//! [`injector::FaultInjector::evaluate`] takes one position of it, and the
//! call that brings it from one to zero fails with a synthetic fault tagged
//! with its call site. Failures of the operations themselves are forwarded
//! with their classification kept and the call site put in front of their
//! description.

pub mod countdown;
pub mod injector;
pub mod jitter;
pub mod origin;

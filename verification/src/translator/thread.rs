//! The boundary of a thread in the net.

pub mod thread_span;

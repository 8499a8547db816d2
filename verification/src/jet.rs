//! The native-operation ("jet") layer: a small, closed set of accelerated
//! fixed-width bit operations, spliced into the combinator model as opaque
//! leaves with pinned commitments.

pub mod application;
pub mod turing;

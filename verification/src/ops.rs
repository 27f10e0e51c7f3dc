//! Transformation stages composed over a source observable.

pub mod skip;

//! Core protocol of a push-based event-stream composition library.
//!
//! A pipeline is assembled by chaining operators over a source
//! [`Observable`](observable::Observable); no events flow at composition time.
//! A terminal subscribe call walks the chain from the outermost operator
//! inward, each operator wrapping the downstream
//! [`Subscriber`](subscriber::Subscriber) with a proxy
//! [`Observer`](observer::Observer), until the innermost source begins
//! producing events, which then flow outward through each proxy to the
//! consumer.
//!
//! Every pipeline delivers zero or more `next` events followed by at most one
//! terminal event (`error` or `complete`), and every cancellation handle is
//! idempotent. Both are stated as contracts and proved.

pub mod event;
pub mod observable;
pub mod observer;
pub mod ops;
pub mod shared;
pub mod subscriber;
pub mod subscription;

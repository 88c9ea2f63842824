//! Acquisition and relay logic of a web-novel downloader: page parsing for
//! two platforms, the per-novel download state machine, the batch driver,
//! the streaming relay's line protocol, and the storage layout.
//!
//! The library decides and computes; it never touches the network, the
//! file system or the clock. A host performs what the state machines ask
//! for and reports back.

pub mod text;
pub mod number;
pub mod order;
pub mod lists;
pub mod links;
pub mod json;
pub mod html;
pub mod pattern;
pub mod model;
pub mod storage;
pub mod tree;
pub mod worker;
pub mod qidian;
pub mod fanqie;
pub mod pipeline;
pub mod batch;
pub mod relay;

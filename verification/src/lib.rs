//! Query named properties from a document and render one report line per
//! requested name.
//!
//! The crate is a small display adapter: a raw, comma-separated list of
//! property names is split into segments, each segment is looked up on a
//! [`document::Document`], and each lookup outcome is rendered as one output
//! line, in input order.

pub mod document;
pub mod render;
pub mod show;
pub mod split;

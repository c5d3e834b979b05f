//! Incremental decoding of streamed text-generation responses and
//! markdown-aware terminal rendering of the decoded text.
//!
//! The crate reconstructs discrete events (content deltas, usage statistics,
//! completion signals) from network chunks that may be split at arbitrary
//! boundaries, in either of two framing disciplines (line-delimited event
//! frames or whole-object frames), and renders the reconstructed text
//! incrementally as styled output through a markdown state machine that
//! tolerates markers split across deliveries.
use vstd::prelude::*;

pub mod extract;
pub mod groq;
pub mod json;
pub mod llm;
pub mod model;
pub mod openrouter;
pub mod render;
pub mod tool;
pub mod text;

verus! {

} // verus!

//! Bulk text normalization: discover files, classify each as text or binary
//! by a control-character heuristic, and rewrite CRLF / lone-CR line endings
//! to LF.
//!
//! The verified library holds the byte-level logic: the classification
//! heuristic, the line-ending rewrite, and the per-file decision pipeline.
//! Filesystem traversal and the parallel driver live outside, handing the
//! library plain byte buffers.

pub mod classify;
pub mod fontmatch;
pub mod normalize;
pub mod pipeline;

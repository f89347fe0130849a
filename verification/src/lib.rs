//! Batch audio speed adjustment: the verified core.
//!
//! The library holds the logic of the tool: classifying a file as one of the
//! supported audio formats from its leading bytes and extension, parsing a
//! user's format selection into a set, deciding per file whether to transform
//! or skip, planning the transform command and its temporary output, and
//! tallying the outcomes of a run.  Filesystem walking, the worker pool and
//! the transcoder subprocess live outside the library and hand it plain
//! values.

pub mod bytes;
pub mod classify;
pub mod format;
pub mod pipeline;
pub mod selector;

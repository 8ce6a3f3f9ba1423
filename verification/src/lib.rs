//! Generates a report over the source files of a directory tree: a summary
//! table (file name, line count, size in kilobytes) followed by a listing of
//! each file's contents, emitted as a word-processing document.
//!
//! The pipeline is: build an extension filter, match file names against it,
//! compute per-file metrics, assemble an in-memory report document, and render
//! it through `docx_rs`. Directory traversal and file I/O live in the
//! accompanying application, which hands plain values to this library.

use vstd::prelude::*;

pub mod document;
pub mod extensions;
pub mod metrics;
pub mod report;

verus! {

} // verus!

//! Triage of Windows PE images: a bounds-checked reader for headers, sections
//! and the export table, together with the queries run over a batch of files.

pub mod arch;
pub mod pe;
pub mod resolve;
pub mod text;
pub mod exports;
pub mod query;
pub mod scan;
pub mod batch;
pub mod partition;

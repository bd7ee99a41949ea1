//! Keeps a local listing of the files of a Google Drive in step with the
//! remote one: which records are known, when the listing was last brought
//! up to date, whether that is recent enough, and how the pages of a remote
//! listing are folded into it.
//!
//! Everything here works on plain values. Reading and writing files, talking
//! to the network and showing the picker are left to the caller, who does
//! what a step names and hands back what came of it. Dates and times are
//! read and written by `chrono`, and the record of the last sync by
//! `serde_json`; what these two give is taken on trust.

pub mod drive_file;
pub mod drive_files;
pub mod launch;
pub mod listing;
pub mod sync;
pub mod timestamp;

//! Verified core of a video-page downloader.
//!
//! The library turns a fetched video page into a playable selection: it
//! locates metadata embedded in script blocks (either as a literal
//! `window.<field>=` prefix or as an assignment inside a larger script),
//! decodes the advertised quality catalog, and resolves the best video and
//! audio variant by bandwidth.  Around that core it provides the pure parts
//! of the download orchestration: file-name planning, merge-command
//! construction, and batch bookkeeping.  All I/O (HTTP, file system,
//! subprocesses) lives outside this crate; outside parsers (an HTML parser,
//! a script parser, a JSON parser) are called through small trusted
//! wrappers whose contracts state what the call returns.

pub mod batch;
pub mod catalog;
pub mod crawler;
pub mod decode;
pub mod err;
pub mod json;
pub mod logger;
pub mod orchestrate;
pub mod page;
pub mod resolve;
pub mod script;
pub mod text;
pub mod video;

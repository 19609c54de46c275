//! The quality catalog advertised for one video.
//!
//! A catalog lists the selectable quality tiers (`accept_quality`, ordered
//! most-preferred first), their index-aligned human-readable labels
//! (`accept_description`), and the concrete encoded streams: video variants
//! tagged with a quality id, and audio variants selected purely by
//! bandwidth.

use vstd::prelude::*;

verus! {

/// One audio stream: a source URL and its bandwidth (larger = higher
/// bitrate).
#[derive(Debug)]
pub struct Audio {
    pub base_url: String,
    pub bandwidth: u32,
}

/// One video stream: the quality tier it belongs to, a source URL and its
/// bandwidth.
#[derive(Debug)]
pub struct Video {
    pub id: u8,
    pub base_url: String,
    pub bandwidth: u32,
}

/// The adaptive-stream variant sets of one page.
#[derive(Debug)]
pub struct Dash {
    pub video: Vec<Video>,
    pub audio: Vec<Audio>,
}

/// The full decoded catalog payload.
#[derive(Debug)]
pub struct Data {
    pub accept_description: Vec<String>,
    pub accept_quality: Vec<u8>,
    pub dash: Dash,
}

/// Metadata as embedded in a video page (`window.<field>=` payload).
#[derive(Debug)]
pub struct BVInfo {
    pub data: Data,
}

/// Metadata as returned by the play-url endpoint; same shape as the
/// page-embedded payload.
#[derive(Debug)]
pub struct RawVideoInfo {
    pub data: Data,
}

} // verus!

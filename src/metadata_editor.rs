//! The metadata editor's record of one audio file.
use vstd::prelude::*;

verus! {

#[derive(Debug, Clone, Default)]
pub struct FileMetadata {
    pub title: String,
    pub artist: String,
    pub album: String,
    pub genre: String,
    pub year: Option<u32>,
    pub duration: Option<u64>,
    pub bitrate: Option<u32>,
    pub sample_rate: Option<u32>,
    pub has_cover: bool,
}

} // verus!

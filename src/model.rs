//! Which utility is shown, and the tags read from one audio file.
use vstd::prelude::*;

verus! {

#[derive(Debug, Clone, Copy, PartialEq, Eq, Default)]
pub enum Screen {
    #[default]
    Home,
    MetadataEditor,
    MusicDownloader,
    AudioConverter,
}

#[derive(Debug, Clone, Default)]
pub struct FileMetadata {
    pub artist: String,
    pub album: String,
    pub title: String,
    pub year: Option<u32>,
    pub genre: String,
    pub track: Option<u32>,
    pub duration: Option<u64>,
    pub format: String,
    pub bitrate: Option<u32>,
    pub sample_rate: Option<u32>,
    pub channels: Option<u8>,
}

} // verus!

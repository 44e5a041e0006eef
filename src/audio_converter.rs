//! Output formats of the audio converter.
use vstd::prelude::*;

verus! {

#[derive(Debug, Clone, Copy, PartialEq, Eq, Default)]
pub enum OutputFormat {
    #[default]
    MP3,
    FLAC,
    WAV,
    OGG,
    AAC,
}

impl OutputFormat {
    pub open spec fn name(self) -> Seq<char> {
        match self {
            OutputFormat::MP3 => "MP3"@,
            OutputFormat::FLAC => "FLAC"@,
            OutputFormat::WAV => "WAV"@,
            OutputFormat::OGG => "OGG"@,
            OutputFormat::AAC => "AAC"@,
        }
    }

    /// The format's display name.
    pub fn as_str(&self) -> (r: &'static str)
        ensures
            r@ == self.name(),
    {
        match self {
            OutputFormat::MP3 => "MP3",
            OutputFormat::FLAC => "FLAC",
            OutputFormat::WAV => "WAV",
            OutputFormat::OGG => "OGG",
            OutputFormat::AAC => "AAC",
        }
    }

    /// Every format, in menu order.
    pub fn all() -> (r: Vec<OutputFormat>)
        ensures
            r@ == seq![
                OutputFormat::MP3,
                OutputFormat::FLAC,
                OutputFormat::WAV,
                OutputFormat::OGG,
                OutputFormat::AAC,
            ],
    {
        vec![
            OutputFormat::MP3,
            OutputFormat::FLAC,
            OutputFormat::WAV,
            OutputFormat::OGG,
            OutputFormat::AAC,
        ]
    }
}

} // verus!

//! The closed set of quality choices and the format-selection expression
//! each one hands to the external downloader.

use vstd::prelude::*;
use vstd::string::*;

verus! {

/// A quality choice for a download. The set is closed: every run selects
/// exactly one of these, and each maps to one fixed format-selection string.
#[derive(Debug, Clone, PartialEq, Eq, Structural)]
pub enum VideoQuality {
    Best,
    High1080p,
    Medium720p,
    Low480p,
    AudioOnly,
}

impl VideoQuality {
    /// The format-selection expression for this quality, as a sequence of
    /// characters.
    pub open spec fn spec_format(self) -> Seq<char> {
        match self {
            VideoQuality::Best => "bestvideo+bestaudio/best"@,
            VideoQuality::High1080p => "bestvideo[height<=1080]+bestaudio/best[height<=1080]"@,
            VideoQuality::Medium720p => "bestvideo[height<=720]+bestaudio/best[height<=720]"@,
            VideoQuality::Low480p => "bestvideo[height<=480]+bestaudio/best[height<=480]"@,
            VideoQuality::AudioOnly => "bestaudio/best"@,
        }
    }

    /// The format-selection expression for this quality, ready to be passed
    /// to the external downloader.
    pub fn format_to_ytdlp(&self) -> (r: String)
        ensures
            r@ == self.spec_format(),
    {
        match self {
            VideoQuality::Best => String::from_str("bestvideo+bestaudio/best"),
            VideoQuality::High1080p => String::from_str(
                "bestvideo[height<=1080]+bestaudio/best[height<=1080]",
            ),
            VideoQuality::Medium720p => String::from_str(
                "bestvideo[height<=720]+bestaudio/best[height<=720]",
            ),
            VideoQuality::Low480p => String::from_str(
                "bestvideo[height<=480]+bestaudio/best[height<=480]",
            ),
            VideoQuality::AudioOnly => String::from_str("bestaudio/best"),
        }
    }
}

} // verus!

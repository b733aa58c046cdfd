//! The failure taxonomy of the pipeline.

use vstd::prelude::*;

verus! {

/// Every failure the pipeline can report. Each kind carries a fixed
/// diagnostic line, so callers can branch on the kind rather than on
/// message text.
#[derive(Clone, Copy, Debug, PartialEq, Eq, Structural)]
pub enum Error {
    /// The input path could not be opened for reading.
    InputOpenError,
    /// The input stream is not a well-formed PNG.
    InputDecodeError,
    /// The image is neither RGB nor RGBA.
    UnsupportedColorType,
    /// The per-sample bit depth is neither 8 nor 16.
    UnsupportedBitDepth,
    /// The decoder produced a frame that does not match its own header.
    FrameDecodeError,
    /// The Bayer pattern argument is not one of the four pattern names.
    InvalidPatternString,
    /// The output file could not be written.
    OutputWriteError,
}

impl Error {
    /// The diagnostic line shown for this failure.
    pub fn message(&self) -> (m: &'static str)
        ensures
            m@ == self.spec_message(),
    {
        match self {
            Error::InputOpenError => "PNG image couldn't be opened.",
            Error::InputDecodeError => "This PNG file appears to be corrupted.",
            Error::UnsupportedColorType => "PNG image needs to be RGB or RGBA Color Type.",
            Error::UnsupportedBitDepth => "PNG image needs to have 8 or 16 Bit Depth.",
            Error::FrameDecodeError => "An error occurred interpreting this PNG image.",
            Error::InvalidPatternString => "Could not parse the bayer pattern. Please enter one of the following:\n    RGGB\n    BGGR\n    GRBG\n    GBRG",
            Error::OutputWriteError => "The DNG file couldn't be written.",
        }
    }

    /// The diagnostic line, as a character sequence.
    pub open spec fn spec_message(self) -> Seq<char> {
        match self {
            Error::InputOpenError => "PNG image couldn't be opened."@,
            Error::InputDecodeError => "This PNG file appears to be corrupted."@,
            Error::UnsupportedColorType => "PNG image needs to be RGB or RGBA Color Type."@,
            Error::UnsupportedBitDepth => "PNG image needs to have 8 or 16 Bit Depth."@,
            Error::FrameDecodeError => "An error occurred interpreting this PNG image."@,
            Error::InvalidPatternString => "Could not parse the bayer pattern. Please enter one of the following:\n    RGGB\n    BGGR\n    GRBG\n    GBRG"@,
            Error::OutputWriteError => "The DNG file couldn't be written."@,
        }
    }
}

} // verus!

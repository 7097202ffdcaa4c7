//! The ways in which an export can fail.

use vstd::prelude::*;

verus! {

/// A request that cannot be served as it stands.
#[derive(Debug, Clone, Copy, PartialEq, Eq, Structural)]
pub enum InputError {
    /// The frame rate is zero or negative.
    ZeroFps,
    /// There is no subtitle frame.
    NoSubtitles,
    /// Two subtitle frames share an onset, or the onsets are out of order.
    OnsetsNotIncreasing,
    /// No background source was given.
    NoBackground,
    /// A list of videos to stitch is empty.
    NothingToConcatenate,
    /// No subtitle image was handed over.
    NoImages,
    /// There are not as many subtitle images as onsets.
    ImagesAndOnsetsDiffer,
}

/// Why a job ended without an output file.
#[derive(Debug, Clone, Copy, PartialEq, Eq, Structural)]
pub enum ExportError {
    /// The request was rejected before any work started.
    Input(InputError),
    /// The media toolchain is missing or did not identify itself.
    Probe,
    /// The media toolchain exited with a failure.
    Encode,
    /// A file or pipe could not be read, written or created.
    Io,
    /// The graphics device could not be acquired or read back.
    Gpu,
    /// The job was cancelled on request.
    Cancelled,
}

/// What the caller is told about a rejected request.
pub open spec fn input_message(error: InputError) -> Seq<char> {
    match error {
        InputError::ZeroFps => "fps must be positive"@,
        InputError::NoSubtitles => "Aucune image .png trouvée dans imgs_folder"@,
        InputError::OnsetsNotIncreasing => "Subtitle onsets must be strictly increasing"@,
        InputError::NoBackground => "No background video provided"@,
        InputError::NothingToConcatenate => "Aucune vidéo fournie pour la concaténation"@,
        InputError::NoImages => "Aucune image fournie"@,
        InputError::ImagesAndOnsetsDiffer => "Subtitle images and onsets differ in number"@,
    }
}

impl InputError {
    /// The words for the caller.
    pub fn message(&self) -> (text: String)
        ensures
            text@ == input_message(*self),
    {
        match self {
            InputError::ZeroFps => String::from_str("fps must be positive"),
            InputError::NoSubtitles => String::from_str(
                "Aucune image .png trouvée dans imgs_folder",
            ),
            InputError::OnsetsNotIncreasing => String::from_str(
                "Subtitle onsets must be strictly increasing",
            ),
            InputError::NoBackground => String::from_str("No background video provided"),
            InputError::NothingToConcatenate => String::from_str(
                "Aucune vidéo fournie pour la concaténation",
            ),
            InputError::NoImages => String::from_str("Aucune image fournie"),
            InputError::ImagesAndOnsetsDiffer => String::from_str(
                "Subtitle images and onsets differ in number",
            ),
        }
    }
}

} // verus!

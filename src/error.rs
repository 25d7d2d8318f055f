use vstd::prelude::*;

verus! {

/// Why one file of a run failed. A failure is the file's own: the run goes
/// on with the others.
#[derive(Debug, Clone, Copy, PartialEq, Eq, Structural)]
pub enum ProcessError {
    /// The media engine found no audio stream, so no codec to read.
    NoAudioCodec,
    /// The file's codec is not in the catalog.
    UnknownCodec,
    /// The profile's target format is not in the catalog.
    UnknownTargetFormat,
    /// The file does not lie strictly inside the source folder.
    OutsideSource,
    /// The bit rate in bits per second does not fit a machine word.
    BitRateTooLarge,
    /// The destination folders could not be created.
    CreateDestination,
    /// The file could not be copied.
    Copy,
    /// The media engine failed to transcode the file.
    Transcode,
}

impl ProcessError {
    /// A sentence that says what went wrong.
    pub fn describe(&self) -> (r: &'static str)
        ensures
            r@ == match self {
                ProcessError::NoAudioCodec => "Failed to get codec"@,
                ProcessError::UnknownCodec => "Not an acceptable music file"@,
                ProcessError::UnknownTargetFormat => "Not an acceptable target format"@,
                ProcessError::OutsideSource => "Could not strip prefix from filename"@,
                ProcessError::BitRateTooLarge => "Bit rate is too large"@,
                ProcessError::CreateDestination => "Could not create destination"@,
                ProcessError::Copy => "Could not copy file"@,
                ProcessError::Transcode => "Could not transcode file"@,
            },
    {
        match self {
            ProcessError::NoAudioCodec => "Failed to get codec",
            ProcessError::UnknownCodec => "Not an acceptable music file",
            ProcessError::UnknownTargetFormat => "Not an acceptable target format",
            ProcessError::OutsideSource => "Could not strip prefix from filename",
            ProcessError::BitRateTooLarge => "Bit rate is too large",
            ProcessError::CreateDestination => "Could not create destination",
            ProcessError::Copy => "Could not copy file",
            ProcessError::Transcode => "Could not transcode file",
        }
    }
}

} // verus!

use vstd::prelude::*;

verus! {

/// The settings of one synchronisation run.
#[derive(Debug, Clone, PartialEq, Eq)]
pub struct Config {
    /// The folder that all files are relative to (`~/Music`).
    pub source_folder: String,
    /// The folder that receives the relative paths (`/mnt/Internal_Storage/Music`).
    pub dest_folder: String,
    /// Regular expressions of files to leave out, usually instrumental tracks.
    pub exclude: Option<Vec<String>>,
    /// Files, folders and glob patterns to synchronise, relative to the source.
    pub files: Vec<String>,
    /// How files are converted.
    pub convert_profile: ConvertProfile,
}

/// The conversion settings of a run.
#[derive(Debug, Clone, PartialEq, Eq)]
pub struct ConvertProfile {
    /// The codec that files are converted to when their own is not acceptable.
    pub target_format: String,
    /// Codec names, `quality:lossless` and `quality:lossy`: files of these
    /// kinds are copied unconverted.
    pub acceptable_formats: Vec<String>,
    /// The target bit rate in KB/s (320, 128).
    pub bit_rate: usize,
}

} // verus!

//! Synchronises a music library into a destination tree, copying files whose
//! codec is acceptable and planning a transcode for the others.
pub mod catalog;
pub mod codec;
pub mod config;
pub mod discovery;
pub mod error;
pub mod exclude;
pub mod musicfile;
pub mod paths;
pub mod sync;
pub mod transcode;

//! Frame-accurate planning for subtitle-overlay video exports.
//!
//! The crate holds the decisions of an export pipeline that lays timed,
//! pre-rendered subtitle frames over a background track: the timeline that
//! maps milliseconds to frames, subtitles and fade levels, the selection of
//! background segments, the encoder plan, the filter graph and the argument
//! vectors handed to the media toolchain, and the bookkeeping of running jobs.
//! Nothing here performs I/O. Every function is verified against its
//! contract, but for four calls into outside code whose contracts are stated
//! and believed: appending a character to a string and lower-casing a text,
//! both by the standard library, the MD5 digest, and the decoding of images.

pub mod background;
pub mod codec;
pub mod compositor;
pub mod concat;
pub mod errors;
pub mod export;
pub mod fast_export;
pub mod filter_graph;
pub mod images;
pub mod pipe;
pub mod progress;
pub mod report;
pub mod subtitles;
pub mod supervisor;
pub mod text;
pub mod timeline;

//! A one-shot download-and-merge pipeline for a video-sharing site: it
//! normalizes a video identifier or page URL, locates the title and the
//! two media-stream URLs inside the fetched page text, chooses a unique
//! output path, accounts for download progress, and reads the outcome of
//! the external muxing tool.  Everything here is plain computation; the
//! network, the file system and the muxing process stand outside and hand
//! their outcomes in as plain values.

pub mod extract;
pub mod fetch;
pub mod mux;
pub mod naming;
pub mod pipeline;
pub mod progress;
pub mod text;
pub mod url;

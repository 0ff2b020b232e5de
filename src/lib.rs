// Resolves video-platform URLs to their media, picks qualities, fetches
// tracks with resume, and decides each step of a download batch.
pub mod batch;
pub mod classify;
pub mod cli;
pub mod errors;
pub mod fetch;
pub mod item;
pub mod quality;
pub mod session;
pub mod text;

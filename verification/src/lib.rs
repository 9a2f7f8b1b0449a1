//! Core logic of the SoundCloud desktop client: the per-origin transport
//! ladder (direct vs. relay), the SoundCloud catalog routing and its circuit
//! breaker, and the YouTube helpers around a managed `yt-dlp`.

pub mod text;
pub mod outside;
pub mod edge;
pub mod json;
pub mod catalog;
pub mod routes;
pub mod scapi;
pub mod yt;

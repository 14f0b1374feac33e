//! Verified core of a course-recording backup tool: authenticated session
//! capture for a video-conferencing provider, durable session storage,
//! recording listing with pagination, and a per-recording capture-then-download
//! pipeline with a header-faithful transfer fallback.

pub mod api;
pub mod auth;
pub mod capture;
pub mod config;
pub mod download;
pub mod ffmpeg;
pub mod flow;
pub mod fsnames;
pub mod headers;
pub mod jsonpayload;
pub mod models;
pub mod numfmt;
pub mod pipeline;
pub mod scan;
pub mod sso;
pub mod state;
pub mod store;
pub mod text;
pub mod urlinfo;

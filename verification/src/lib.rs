//! Streamkeep: HLS playlist planning, download bookkeeping and file naming
//! for an assisted video capture app.

pub mod app_core;
pub mod bandwidth;
pub mod binary64;
pub mod capture;
pub mod commands;
pub mod download;
pub mod finish;
pub mod hls;
pub mod metadata;
pub mod playlist;
pub mod session;
pub mod storage;
pub mod text;
pub mod urls;

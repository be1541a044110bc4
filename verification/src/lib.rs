//! Verified core of an analyzer that writes searchable descriptions for the
//! images and videos of an Immich library.

pub mod download;
pub mod encoding;
pub mod error;
pub mod exact_time;
pub mod failover;
pub mod host_manager;
pub mod http;
pub mod ids;
pub mod immich_api;
pub mod interface;
pub mod json;
pub mod keyed_call;
pub mod media_time;
pub mod ready;
pub mod request;
pub mod search;
pub mod segments;
pub mod streams;
pub mod text;
pub mod transcode;
pub mod transfer;
pub mod unavailable;
pub mod video_analysis;

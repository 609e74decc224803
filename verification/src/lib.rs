//! Verified core of the micro-course platform: request checks, grading,
//! pagination, media keys and question-sheet rows.
pub mod model;
pub mod score;
pub mod text;
pub mod grading;
pub mod exam;
pub mod pagination;
pub mod access;
pub mod media;
pub mod hls;
pub mod transcode;
pub mod auth;
pub mod sheet;
pub mod storage;
pub mod catalog;

//! Verified core of a photo gallery: the rules by which uploaded images are
//! named, laid out on storage, transcoded and recorded.

pub mod auth;
pub mod catalog;
pub mod exif;
pub mod ingest;
pub mod layout;
pub mod mode;
pub mod naming;
pub mod quality;
pub mod text;
pub mod transcode;
pub mod upload;

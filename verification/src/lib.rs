//! Metadata extraction for image and video containers.
//!
//! The crate locates and decodes EXIF/TIFF metadata inside JPEG, TIFF, HEIF,
//! ISO base media, Matroska, Fujifilm RAF and Canon CR3 files. Every function
//! works on bytes that are already in memory and states in its contract what
//! it returns; reading from files or streams is left to the caller, who
//! drives a [`loader::BufLoader`] with the bytes it obtains.

pub mod bytes;
pub mod cr3;
pub mod ebml;
pub mod error;
pub mod exif;
pub mod gps;
pub mod heif;
pub mod ifd;
pub mod isobmff;
pub mod jpeg;
pub mod loader;
pub mod media;
pub mod mov;
pub mod raf;
pub mod sniff;
pub mod span;
pub mod tiff;
pub mod walker;

//! Rule package codec: a directory tree of rule documents, one per rule and
//! grouped by category, becomes one compact binary package, and the package
//! becomes the documents again.
//!
//! - [`document`], [`yaml`]: a structured document and how it is read from text.
//! - [`location`], [`extract`]: the place of a document and what is derived
//!   from place and content.
//! - [`model`], [`assemble`]: the package and how it is built from rules.
//! - [`wire`], [`encode`], [`decode`], [`round_trip`], [`framing`]: the byte
//!   layout of a package, its writer and reader, and the laws of the layout.
//! - [`compress`]: the optional zstd stream around the encoded bytes.
//! - [`pack`], [`unpack`], [`laws`]: the whole way from documents to the bytes
//!   of a package file and back, and what holds of it.
//!
//! Files, directories and the clock are the caller's: the library takes texts
//! and bytes and gives texts and bytes.

pub mod assemble;
pub mod compress;
pub mod decode;
pub mod document;
pub mod encode;
pub mod error;
pub mod extract;
pub mod framing;
pub mod laws;
pub mod location;
pub mod model;
pub mod pack;
pub mod round_trip;
pub mod unpack;
pub mod wire;
pub mod yaml;

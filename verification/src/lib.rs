//! Deciding what a file-synchronising uploader does: whether a local file has
//! to be sent to the object store, how it is sent, when a failed attempt is
//! tried again, and how long the link to the stored object stays valid.
//! Beside it stand the rules of three smaller tools, which transcribe videos,
//! have images made and turn the pages of a PDF file into images.
//!
//! The crate performs no input or output. Its functions take what was read or
//! received as plain values and say what is to be done next.

pub mod compare;
pub mod config;
pub mod digest;
pub mod error;
pub mod files;
pub mod helpers;
pub mod imgen;
pub mod multipart;
pub mod openai;
pub mod pdf;
pub mod presign;
pub mod progress;
pub mod report;
pub mod size;
pub mod text;
pub mod transcribe;
pub mod upload;
pub mod worker;

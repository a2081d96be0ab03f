//! The core of a static file server: which file a request path leads to,
//! which response header answers it, and how the body is cut into chunks.
//!
//! The library does no input or output. Its caller asks the filesystem what
//! `open_file` wants to know, sends the header that `response` builds, and
//! lets the storage fill the buffers that `body` hands out.
//!
//! - `open_file`: resolution of a request path beneath the document root.
//! - `containment`: whether one path lies within another.
//! - `mime`: the MIME type of a path, by its extension.
//! - `response`: the response header that answers a resolution.
//! - `body`: the cursor that cuts a file's bytes into chunks.
//! - `header`, `http_date`, `buffer`: what is taken on trust from the
//!   pingora, http, chrono and bytes crates.

pub mod body;
pub mod buffer;
pub mod containment;
pub mod header;
pub mod http_date;
pub mod mime;
pub mod open_file;
pub mod response;

pub use open_file::Root;

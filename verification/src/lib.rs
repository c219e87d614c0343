//! Verified core of UpSauce: the rules that turn SauceNAO results into a
//! Markdown list of sources, and the request/response logic around the
//! file sharing services. Network, file and terminal I/O live in `app/`.

pub mod config;
pub mod fss;
pub mod json;
pub mod linx;
pub mod sauce;
pub mod sauce_laws;
pub mod text;

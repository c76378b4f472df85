//! A small verified web-page pipeline: decode a JSON document of
//! category-to-words mappings, render it as an HTML page, and answer with
//! cache headers set.  The network and filesystem edges live outside the
//! library; everything that decides or computes is verified here.

pub mod bytes_util;
pub mod config;
pub mod date;
pub mod decode;
pub mod errors;
pub mod handler;
pub mod joy;
pub mod response;
pub mod template;

//! The error taxonomy of the server.  Every failure that can flow through
//! the response pipeline is one of these kinds; per-request failures are
//! answered with status 500, startup failures abort before serving.

use vstd::prelude::*;
use vstd::utf8::encode_utf8;
use crate::bytes_util::append_slice;

verus! {

/// Every failure the pipeline can see.
#[derive(Debug)]
pub enum ServerError {
    /// The outbound fetch failed (connection refused, DNS failure, timeout).
    Network(String),
    /// The remote body was not valid JSON of the expected shape.
    Decode(String),
    /// A template could not be rendered.
    Render(String),
    /// The template set or the listener could not be set up; fatal.
    Startup(String),
}

/// The human-readable description of an error, as bytes.
pub open spec fn spec_describe(e: ServerError) -> Seq<u8> {
    match e {
        ServerError::Network(m) => encode_utf8("network error: "@) + encode_utf8(m@),
        ServerError::Decode(m) => encode_utf8("decode error: "@) + encode_utf8(m@),
        ServerError::Render(m) => encode_utf8("render error: "@) + encode_utf8(m@),
        ServerError::Startup(m) => encode_utf8("startup error: "@) + encode_utf8(m@),
    }
}

impl ServerError {
    /// Writes the error out as a human-readable line.
    pub fn describe(&self) -> (out: Vec<u8>)
        ensures
            out@ == spec_describe(*self),
    {
        let mut out: Vec<u8> = Vec::new();
        match self {
            ServerError::Network(m) => {
                append_slice(&mut out, "network error: ".as_bytes());
                append_slice(&mut out, m.as_str().as_bytes());
            },
            ServerError::Decode(m) => {
                append_slice(&mut out, "decode error: ".as_bytes());
                append_slice(&mut out, m.as_str().as_bytes());
            },
            ServerError::Render(m) => {
                append_slice(&mut out, "render error: ".as_bytes());
                append_slice(&mut out, m.as_str().as_bytes());
            },
            ServerError::Startup(m) => {
                append_slice(&mut out, "startup error: ".as_bytes());
                append_slice(&mut out, m.as_str().as_bytes());
            },
        }
        proof {
            assert(out@ =~= spec_describe(*self));
        }
        out
    }
}

/// The error observer of the pipeline: it produces the log line for an
/// error and hands the very same error on, unchanged.
pub fn catch(err: ServerError) -> (r: (Vec<u8>, ServerError))
    ensures
        r.1 == err,
        r.0@ == spec_describe(err),
{
    let msg = err.describe();
    (msg, err)
}

} // verus!

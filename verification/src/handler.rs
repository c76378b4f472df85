//! The request handler and the composed response pipeline: decode the
//! fetched outcome, render, set headers; on failure, log once and answer
//! with status 500.

use vstd::prelude::*;
use vstd::utf8::encode_utf8;
use crate::bytes_util::append_slice;
use crate::date::HttpDate;
use crate::date::spec_rfc1123;
use crate::decode::decode_joy;
use crate::decode::joy_parse;
use crate::errors::ServerError;
use crate::errors::catch;
use crate::errors::spec_describe;
use crate::response::Header;
use crate::response::HeaderName;
use crate::response::HttpResponse;
use crate::response::error_response;
use crate::response::headers_view;
use crate::response::set_cache_headers;
use crate::response::spec_cache_control_value;
use crate::response::spec_set_cache;
use crate::response::spec_strip_cache;
use crate::template::Template;
use crate::template::render;
use crate::template::spec_render;

verus! {

/// Classifies the outbound GET by its HTTP status: only a success (2xx)
/// answer hands its body on; anything else is a network error, as a
/// failed transport is.
pub fn accept_fetch_status(status: u16, body: Vec<u8>) -> (r: Result<Vec<u8>, ServerError>)
    ensures
        200 <= status < 300 ==> r is Ok && r->Ok_0 == body,
        !(200 <= status < 300) ==> r is Err && r->Err_0 is Network
            && ((r->Err_0)->Network_0)@ == "unexpected HTTP status from the joy source"@,
{
    if 200 <= status && status < 300 {
        Ok(body)
    } else {
        Err(ServerError::Network("unexpected HTTP status from the joy source".to_owned()))
    }
}

/// What a successful answer looks like: status 200, the rendered page,
/// and exactly the content-type and the two cache headers.
pub open spec fn spec_success_response(
    resp: HttpResponse,
    before: Seq<u8>,
    after: Seq<u8>,
    data: Seq<(Seq<char>, Seq<Seq<char>>)>,
    now: HttpDate,
    ttl: u32,
) -> bool {
    &&& resp.status == 200
    &&& resp.body@ == spec_render(before, after, data)
    &&& resp.headers@.len() == 3
    &&& resp.headers@[0].name == HeaderName::ContentType
    &&& resp.headers@[0].value@ == encode_utf8("text/html; charset=utf-8"@)
    &&& resp.headers@[1].name == HeaderName::CacheControl
    &&& resp.headers@[1].value@ == spec_cache_control_value(ttl)
    &&& resp.headers@[2].name == HeaderName::LastModified
    &&& resp.headers@[2].value@ == spec_rfc1123(now)
}

/// The request handler: turns the outcome of the fetch into either the
/// finished page or the error that stopped it.
pub fn handle(
    fetch_outcome: Result<Vec<u8>, ServerError>,
    tpl: &Template,
    now: &HttpDate,
    ttl: u32,
) -> (r: Result<HttpResponse, ServerError>)
    requires
        now.wf(),
    ensures
        match fetch_outcome {
            Result::Err(e) => r is Err && r->Err_0 == e,
            Result::Ok(body) => match joy_parse(body@) {
                Result::Err(m) => r is Err && r->Err_0 is Decode
                    && ((r->Err_0)->Decode_0)@ == m,
                Result::Ok(data) => r is Ok
                    && spec_success_response(r->Ok_0, tpl.before@, tpl.after@, data, *now, ttl),
            },
        },
{
    let body = match fetch_outcome {
        Ok(b) => b,
        Err(e) => {
            return Err(e);
        },
    };
    let data = match decode_joy(body.as_slice()) {
        Ok(d) => d,
        Err(e) => {
            return Err(e);
        },
    };
    let page = render(tpl, &data);
    let mut resp = HttpResponse { status: 200, headers: Vec::new(), body: page };
    let mut ct: Vec<u8> = Vec::new();
    append_slice(&mut ct, "text/html; charset=utf-8".as_bytes());
    proof {
        assert(ct@ =~= encode_utf8("text/html; charset=utf-8"@));
    }
    resp.headers.push(Header { name: HeaderName::ContentType, value: ct });
    let ghost hv = headers_view(resp.headers@);
    proof {
        assert(hv.len() == 1);
        assert(hv[0] == (HeaderName::ContentType, encode_utf8("text/html; charset=utf-8"@)));
        assert(hv.drop_last() =~= Seq::<(HeaderName, Seq<u8>)>::empty());
        assert(spec_strip_cache(hv.drop_last()) == Seq::<(HeaderName, Seq<u8>)>::empty());
        assert(spec_strip_cache(hv) =~= hv);
    }
    set_cache_headers(&mut resp, ttl, now);
    proof {
        assert(headers_view(resp.headers@) == spec_set_cache(hv, ttl, *now));
        assert(resp.headers@.len() == 3);
        assert(headers_view(resp.headers@)[0] == hv[0]);
        assert(headers_view(resp.headers@)[1]
            == (HeaderName::CacheControl, spec_cache_control_value(ttl)));
        assert(headers_view(resp.headers@)[2]
            == (HeaderName::LastModified, spec_rfc1123(*now)));
        assert(spec_success_response(resp, tpl.before@, tpl.after@, data@, *now, ttl));
    }
    Ok(resp)
}

/// The whole pipeline for one request: the handler, then the error
/// observer, then the error-to-500 conversion.  Returns the log line to
/// print, if any, and the response to send.
pub fn respond(
    fetch_outcome: Result<Vec<u8>, ServerError>,
    tpl: &Template,
    now: &HttpDate,
    ttl: u32,
) -> (r: (Option<Vec<u8>>, HttpResponse))
    requires
        now.wf(),
    ensures
        match fetch_outcome {
            Result::Err(e) => r.1.status == 500 && r.1.headers@.len() == 0
                && r.1.body@ == spec_describe(e)
                && r.0 is Some && r.0.unwrap()@ == spec_describe(e),
            Result::Ok(body) => match joy_parse(body@) {
                Result::Err(m) => r.1.status == 500 && r.1.headers@.len() == 0
                    && r.1.body@ == encode_utf8("decode error: "@) + encode_utf8(m)
                    && r.0 is Some && r.0.unwrap()@ == r.1.body@,
                Result::Ok(data) => r.0 is None
                    && spec_success_response(r.1, tpl.before@, tpl.after@, data, *now, ttl),
            },
        },
{
    match handle(fetch_outcome, tpl, now, ttl) {
        Ok(resp) => (None, resp),
        Err(e) => {
            let (msg, err) = catch(e);
            let resp = error_response(&err);
            proof {
                if err is Decode {
                    assert(spec_describe(err) == encode_utf8("decode error: "@)
                        + encode_utf8((err->Decode_0)@));
                }
            }
            (Some(msg), resp)
        },
    }
}

} // verus!

//! The HTTP response as the pipeline builds it: status, headers and body,
//! the cache-header stage, the error-to-500 conversion, and the exact
//! wire form of a response.

use vstd::prelude::*;
use vstd::utf8::encode_utf8;
use crate::bytes_util::append_slice;
use crate::bytes_util::push_decimal;
use crate::bytes_util::spec_decimal;
use crate::date::HttpDate;
use crate::date::spec_rfc1123;
use crate::errors::ServerError;
use crate::errors::spec_describe;

verus! {

/// The headers this server sets.
#[derive(Clone, Copy, Debug, PartialEq, Eq, Structural)]
pub enum HeaderName {
    ContentType,
    CacheControl,
    LastModified,
}

/// One response header.
pub struct Header {
    pub name: HeaderName,
    pub value: Vec<u8>,
}

/// An HTTP response.
pub struct HttpResponse {
    pub status: u16,
    pub headers: Vec<Header>,
    pub body: Vec<u8>,
}

/// The value of the `Cache-Control` header for a given TTL.
pub open spec fn spec_cache_control_value(ttl: u32) -> Seq<u8> {
    encode_utf8("max-age="@) + spec_decimal(ttl as nat)
}

/// The observable value of a header list: each name with its bytes.
pub open spec fn headers_view(hs: Seq<Header>) -> Seq<(HeaderName, Seq<u8>)> {
    Seq::new(hs.len(), |i: int| (hs[i].name, hs[i].value@))
}

/// True of the header names the cache stage owns.
pub open spec fn is_cache_header(n: HeaderName) -> bool {
    n == HeaderName::CacheControl || n == HeaderName::LastModified
}

/// The header list with the cache stage's own headers removed, order kept.
pub open spec fn spec_strip_cache(hs: Seq<(HeaderName, Seq<u8>)>) -> Seq<(HeaderName, Seq<u8>)>
    decreases hs.len(),
{
    if hs.len() == 0 {
        Seq::empty()
    } else if is_cache_header(hs.last().0) {
        spec_strip_cache(hs.drop_last())
    } else {
        spec_strip_cache(hs.drop_last()).push(hs.last())
    }
}

/// What the cache stage leaves: the other headers, order kept, then the
/// two cache headers, freshly set.
pub open spec fn spec_set_cache(
    hs: Seq<(HeaderName, Seq<u8>)>,
    ttl: u32,
    date: HttpDate,
) -> Seq<(HeaderName, Seq<u8>)> {
    spec_strip_cache(hs).push((HeaderName::CacheControl, spec_cache_control_value(ttl))).push(
        (HeaderName::LastModified, spec_rfc1123(date)),
    )
}

proof fn lemma_strip_cache_step(hs: Seq<(HeaderName, Seq<u8>)>, j: int)
    requires
        0 <= j < hs.len(),
    ensures
        spec_strip_cache(hs.take(j + 1)) == if is_cache_header(hs[j].0) {
            spec_strip_cache(hs.take(j))
        } else {
            spec_strip_cache(hs.take(j)).push(hs[j])
        },
{
    assert(hs.take(j + 1).drop_last() =~= hs.take(j));
    assert(hs.take(j + 1).last() == hs[j]);
}

proof fn lemma_strip_cache_idempotent(hs: Seq<(HeaderName, Seq<u8>)>)
    ensures
        spec_strip_cache(spec_strip_cache(hs)) == spec_strip_cache(hs),
    decreases hs.len(),
{
    if hs.len() > 0 {
        let rest = hs.drop_last();
        lemma_strip_cache_idempotent(rest);
        if !is_cache_header(hs.last().0) {
            let pushed = spec_strip_cache(rest).push(hs.last());
            assert(pushed.drop_last() =~= spec_strip_cache(rest));
            assert(pushed.last() == hs.last());
        }
    }
}

/// Law: setting the cache headers twice with one TTL and date leaves the
/// headers exactly as after the first setting: the stage replaces its two
/// headers, it never stacks them.
pub proof fn lemma_set_cache_idempotent(hs: Seq<(HeaderName, Seq<u8>)>, ttl: u32, date: HttpDate)
    ensures
        spec_set_cache(spec_set_cache(hs, ttl, date), ttl, date) == spec_set_cache(hs, ttl, date),
{
    let s1 = spec_strip_cache(hs);
    let ccp = (HeaderName::CacheControl, spec_cache_control_value(ttl));
    let lmp = (HeaderName::LastModified, spec_rfc1123(date));
    let once = s1.push(ccp).push(lmp);
    assert(once.drop_last() =~= s1.push(ccp));
    assert(once.last() == lmp);
    assert(spec_strip_cache(once) == spec_strip_cache(s1.push(ccp)));
    assert((s1.push(ccp)).drop_last() =~= s1);
    assert((s1.push(ccp)).last() == ccp);
    assert(spec_strip_cache(s1.push(ccp)) == spec_strip_cache(s1));
    lemma_strip_cache_idempotent(hs);
}

/// Sets the two cache headers — `Cache-Control: max-age=<ttl>` and
/// `Last-Modified: <date>` — replacing any earlier value of either, and
/// leaving everything else unchanged.
pub fn set_cache_headers(res: &mut HttpResponse, ttl: u32, date: &HttpDate)
    requires
        date.wf(),
    ensures
        final(res).status == old(res).status,
        final(res).body == old(res).body,
        headers_view(final(res).headers@)
            == spec_set_cache(headers_view(old(res).headers@), ttl, *date),
{
    let ghost orig = headers_view(old(res).headers@);
    let ghost mut j: int = 0;
    let mut k: usize = 0;
    proof {
        assert(orig.take(0) =~= Seq::<(HeaderName, Seq<u8>)>::empty());
        assert(orig.skip(0) =~= orig);
        assert(headers_view(res.headers@) =~= spec_strip_cache(orig.take(0)) + orig.skip(0));
    }
    while k < res.headers.len()
        invariant
            res.status == old(res).status,
            res.body == old(res).body,
            0 <= j <= orig.len(),
            k == spec_strip_cache(orig.take(j)).len(),
            res.headers@.len() == k + (orig.len() - j),
            headers_view(res.headers@) == spec_strip_cache(orig.take(j)) + orig.skip(j),
        decreases res.headers@.len() - k,
    {
        proof {
            assert(j < orig.len());
            assert(headers_view(res.headers@)[k as int] == orig.skip(j)[0]);
            assert(orig.skip(j)[0] == orig[j]);
            assert((res.headers@[k as int].name, res.headers@[k as int].value@) == orig[j]);
        }
        let name = res.headers[k].name;
        let keep = match name {
            HeaderName::CacheControl => false,
            HeaderName::LastModified => false,
            HeaderName::ContentType => true,
        };
        if keep {
            proof {
                let ghost prev = headers_view(res.headers@);
                lemma_strip_cache_step(orig, j);
                assert(prev =~= spec_strip_cache(orig.take(j + 1)) + orig.skip(j + 1));
                j = j + 1;
            }
            k = k + 1;
        } else {
            let ghost prev = res.headers@;
            res.headers.remove(k);
            proof {
                assert(headers_view(res.headers@) =~= headers_view(prev).remove(k as int));
                lemma_strip_cache_step(orig, j);
                assert(headers_view(prev).remove(k as int)
                    =~= spec_strip_cache(orig.take(j + 1)) + orig.skip(j + 1));
                j = j + 1;
            }
        }
    }
    proof {
        assert(j == orig.len());
        assert(orig.take(j) =~= orig);
        assert(orig.skip(j) =~= Seq::<(HeaderName, Seq<u8>)>::empty());
        assert(headers_view(res.headers@) =~= spec_strip_cache(orig));
    }
    let mut cc: Vec<u8> = Vec::new();
    append_slice(&mut cc, "max-age=".as_bytes());
    push_decimal(&mut cc, ttl);
    proof {
        assert(cc@ =~= spec_cache_control_value(ttl));
    }
    let ghost stripped = res.headers@;
    res.headers.push(Header { name: HeaderName::CacheControl, value: cc });
    let ghost with_cc = res.headers@;
    res.headers.push(Header { name: HeaderName::LastModified, value: date.rfc1123() });
    proof {
        assert(headers_view(with_cc) =~= headers_view(stripped).push(
            (HeaderName::CacheControl, spec_cache_control_value(ttl)),
        ));
        assert(headers_view(res.headers@) =~= headers_view(with_cc).push(
            (HeaderName::LastModified, spec_rfc1123(*date)),
        ));
        assert(headers_view(res.headers@) =~= spec_set_cache(orig, ttl, *date));
    }
}

/// Builds the 500 answer for an error: its description is the body.
pub fn error_response(err: &ServerError) -> (r: HttpResponse)
    ensures
        r.status == 500,
        r.headers@.len() == 0,
        r.body@ == spec_describe(*err),
{
    HttpResponse { status: 500, headers: Vec::new(), body: err.describe() }
}

/// The wire name of a header.
pub open spec fn spec_header_name(n: HeaderName) -> Seq<u8> {
    match n {
        HeaderName::ContentType => encode_utf8("Content-Type"@),
        HeaderName::CacheControl => encode_utf8("Cache-Control"@),
        HeaderName::LastModified => encode_utf8("Last-Modified"@),
    }
}

/// The reason phrase of the statuses this server answers with.
pub open spec fn spec_reason(status: u16) -> Seq<u8> {
    if status == 200 {
        encode_utf8("OK"@)
    } else if status == 500 {
        encode_utf8("Internal Server Error"@)
    } else {
        Seq::empty()
    }
}

/// One serialized header line.
pub open spec fn spec_header_line(h: Header) -> Seq<u8> {
    spec_header_name(h.name) + encode_utf8(": "@) + h.value@ + encode_utf8("\r\n"@)
}

/// All header lines, in order.
pub open spec fn spec_header_lines(hs: Seq<Header>) -> Seq<u8>
    decreases hs.len(),
{
    if hs.len() == 0 {
        Seq::empty()
    } else {
        spec_header_lines(hs.drop_last()) + spec_header_line(hs.last())
    }
}

/// The whole response on the wire.
pub open spec fn spec_serialize(r: HttpResponse) -> Seq<u8> {
    encode_utf8("HTTP/1.1 "@) + spec_decimal(r.status as nat) + encode_utf8(" "@)
        + spec_reason(r.status) + encode_utf8("\r\n"@) + spec_header_lines(r.headers@)
        + encode_utf8("\r\n"@) + r.body@
}

proof fn lemma_header_lines_step(hs: Seq<Header>, k: int)
    requires
        0 <= k < hs.len(),
    ensures
        spec_header_lines(hs.take(k + 1)) == spec_header_lines(hs.take(k))
            + spec_header_line(hs[k]),
{
    assert(hs.take(k + 1).drop_last() =~= hs.take(k));
    assert(hs.take(k + 1).last() == hs[k]);
}

/// Serializes a response for the wire.
pub fn serialize_response(res: &HttpResponse) -> (out: Vec<u8>)
    ensures
        out@ == spec_serialize(*res),
{
    let mut out: Vec<u8> = Vec::new();
    append_slice(&mut out, "HTTP/1.1 ".as_bytes());
    push_decimal(&mut out, res.status as u32);
    append_slice(&mut out, " ".as_bytes());
    if res.status == 200 {
        append_slice(&mut out, "OK".as_bytes());
    } else if res.status == 500 {
        append_slice(&mut out, "Internal Server Error".as_bytes());
    }
    append_slice(&mut out, "\r\n".as_bytes());
    let ghost head = out@;
    proof {
        assert(head =~= encode_utf8("HTTP/1.1 "@) + spec_decimal(res.status as nat)
            + encode_utf8(" "@) + spec_reason(res.status) + encode_utf8("\r\n"@));
        assert(res.headers@.take(0) =~= Seq::<Header>::empty());
        assert(out@ =~= head + spec_header_lines(res.headers@.take(0)));
    }
    let n = res.headers.len();
    let mut i: usize = 0;
    while i < n
        invariant
            n == res.headers@.len(),
            i <= n,
            out@ == head + spec_header_lines(res.headers@.take(i as int)),
            head == encode_utf8("HTTP/1.1 "@) + spec_decimal(res.status as nat)
                + encode_utf8(" "@) + spec_reason(res.status) + encode_utf8("\r\n"@),
        decreases n - i,
    {
        match res.headers[i].name {
            HeaderName::ContentType => append_slice(&mut out, "Content-Type".as_bytes()),
            HeaderName::CacheControl => append_slice(&mut out, "Cache-Control".as_bytes()),
            HeaderName::LastModified => append_slice(&mut out, "Last-Modified".as_bytes()),
        }
        append_slice(&mut out, ": ".as_bytes());
        append_slice(&mut out, res.headers[i].value.as_slice());
        append_slice(&mut out, "\r\n".as_bytes());
        proof {
            lemma_header_lines_step(res.headers@, i as int);
            assert(out@ =~= head + spec_header_lines(res.headers@.take(i + 1)));
        }
        i = i + 1;
    }
    append_slice(&mut out, "\r\n".as_bytes());
    append_slice(&mut out, res.body.as_slice());
    proof {
        assert(res.headers@.take(n as int) =~= res.headers@);
        assert(out@ =~= spec_serialize(*res));
    }
    out
}

} // verus!

//! Behaviour of the individual pieces: search, formatting, the document
//! builder, the error observer, and the wire form.

use joypage::bytes_util::find_bytes;
use joypage::bytes_util::push_decimal;
use joypage::bytes_util::push_four_digits;
use joypage::bytes_util::push_two_digits;
use joypage::config::Config;
use joypage::date::HttpDate;
use joypage::handler::accept_fetch_status;
use joypage::response::set_cache_headers;
use joypage::errors::catch;
use joypage::errors::ServerError;
use joypage::joy::JoyData;
use joypage::joy::JoyEntry;
use joypage::response::error_response;
use joypage::response::serialize_response;
use joypage::response::Header;
use joypage::response::HeaderName;
use joypage::response::HttpResponse;
use joypage::template::parse_template;
use joypage::template::render;

#[test]
fn find_bytes_returns_the_first_occurrence() {
    assert_eq!(find_bytes("abcabc".as_bytes(), "bc".as_bytes()), Some(1));
    assert_eq!(find_bytes("abcabc".as_bytes(), "cb".as_bytes()), None);
    assert_eq!(find_bytes("short".as_bytes(), "much longer".as_bytes()), None);
    assert_eq!(find_bytes("anything".as_bytes(), "".as_bytes()), Some(0));
}

#[test]
fn decimal_digits_come_out_exactly() {
    let mut out: Vec<u8> = Vec::new();
    push_decimal(&mut out, 0);
    assert_eq!(out, "0".as_bytes().to_vec());
    let mut out: Vec<u8> = Vec::new();
    push_decimal(&mut out, 300);
    assert_eq!(out, "300".as_bytes().to_vec());
    let mut out: Vec<u8> = Vec::new();
    push_decimal(&mut out, 4294967295);
    assert_eq!(out, "4294967295".as_bytes().to_vec());
}

#[test]
fn padded_digits_come_out_exactly() {
    let mut out: Vec<u8> = Vec::new();
    push_two_digits(&mut out, 5);
    assert_eq!(out, "05".as_bytes().to_vec());
    let mut out: Vec<u8> = Vec::new();
    push_four_digits(&mut out, 31);
    assert_eq!(out, "0031".as_bytes().to_vec());
}

#[test]
fn rfc1123_formats_the_reference_date() {
    let date = match HttpDate::new(1994, 11, 6, 0, 8, 49, 37) {
        Some(d) => d,
        None => panic!("the fields are in range"),
    };
    assert_eq!(date.rfc1123(), "Sun, 06 Nov 1994 08:49:37 GMT".as_bytes().to_vec());
}

#[test]
fn dates_out_of_range_are_refused() {
    assert!(HttpDate::new(2016, 13, 1, 0, 0, 0, 0).is_none());
    assert!(HttpDate::new(2016, 1, 0, 0, 0, 0, 0).is_none());
    assert!(HttpDate::new(2016, 1, 1, 7, 0, 0, 0).is_none());
    assert!(HttpDate::new(2016, 1, 1, 0, 24, 0, 0).is_none());
    assert!(HttpDate::new(10000, 1, 1, 0, 0, 0, 0).is_none());
}

#[test]
fn duplicate_keys_are_refused() {
    let entries = vec![
        JoyEntry { key: String::from("happy"), words: vec![String::from("sun")] },
        JoyEntry { key: String::from("happy"), words: vec![String::from("rain")] },
    ];
    assert!(JoyData::from_entries(entries).is_none());
    let entries = vec![
        JoyEntry { key: String::from("happy"), words: vec![String::from("sun")] },
        JoyEntry { key: String::from("sad"), words: vec![String::from("rain")] },
    ];
    assert!(JoyData::from_entries(entries).is_some());
}

#[test]
fn catch_logs_and_passes_the_error_through() {
    let (line, err) = catch(ServerError::Render(String::from("missing field")));
    assert_eq!(line, "render error: missing field".as_bytes().to_vec());
    match err {
        ServerError::Render(m) => assert_eq!(m, "missing field"),
        _ => panic!("the error must come through unchanged"),
    }
}

#[test]
fn every_error_kind_becomes_a_500() {
    let kinds = vec![
        ServerError::Network(String::from("a")),
        ServerError::Decode(String::from("b")),
        ServerError::Render(String::from("c")),
        ServerError::Startup(String::from("d")),
    ];
    for err in kinds {
        let resp = error_response(&err);
        assert_eq!(resp.status, 500);
        assert_eq!(resp.headers.len(), 0);
    }
}

#[test]
fn the_split_takes_the_first_placeholder() {
    let tpl = match parse_template("A{{joy}}B{{joy}}C".as_bytes()) {
        Ok(t) => t,
        Err(_) => panic!("the placeholder is present"),
    };
    assert_eq!(tpl.before, "A".as_bytes().to_vec());
    assert_eq!(tpl.after, "B{{joy}}C".as_bytes().to_vec());
}

#[test]
fn an_empty_document_renders_the_bare_template() {
    let tpl = match parse_template("pre|{{joy}}|post".as_bytes()) {
        Ok(t) => t,
        Err(_) => panic!("the placeholder is present"),
    };
    let data = match JoyData::from_entries(Vec::new()) {
        Some(d) => d,
        None => panic!("no keys, no duplicates"),
    };
    assert_eq!(render(&tpl, &data), "pre||post".as_bytes().to_vec());
}

#[test]
fn rendering_lists_every_category_in_order() {
    let tpl = match parse_template("{{joy}}".as_bytes()) {
        Ok(t) => t,
        Err(_) => panic!("the placeholder is present"),
    };
    let entries = vec![
        JoyEntry { key: String::from("happy"), words: vec![String::from("sun")] },
        JoyEntry { key: String::from("sad"), words: vec![String::from("rain")] },
    ];
    let data = match JoyData::from_entries(entries) {
        Some(d) => d,
        None => panic!("the keys are distinct"),
    };
    let expected = "<h2>happy</h2>\n<ul>\n<li>sun</li>\n</ul>\n\
                    <h2>sad</h2>\n<ul>\n<li>rain</li>\n</ul>\n";
    assert_eq!(render(&tpl, &data), expected.as_bytes().to_vec());
}

#[test]
fn setting_cache_headers_replaces_rather_than_stacks() {
    let date = match HttpDate::new(2016, 5, 17, 2, 12, 0, 0) {
        Some(d) => d,
        None => panic!("the fields are in range"),
    };
    let mut resp = HttpResponse {
        status: 200,
        headers: vec![
            Header { name: HeaderName::CacheControl, value: "max-age=1".as_bytes().to_vec() },
            Header { name: HeaderName::ContentType, value: "text/html".as_bytes().to_vec() },
            Header { name: HeaderName::LastModified, value: "stale".as_bytes().to_vec() },
        ],
        body: Vec::new(),
    };
    set_cache_headers(&mut resp, 300, &date);
    // The other headers stay, in order; the two cache headers are fresh.
    assert_eq!(resp.headers.len(), 3);
    assert!(matches!(resp.headers[0].name, HeaderName::ContentType));
    assert_eq!(resp.headers[0].value, "text/html".as_bytes().to_vec());
    assert!(matches!(resp.headers[1].name, HeaderName::CacheControl));
    assert_eq!(resp.headers[1].value, "max-age=300".as_bytes().to_vec());
    assert!(matches!(resp.headers[2].name, HeaderName::LastModified));
    assert_eq!(resp.headers[2].value, "Tue, 17 May 2016 12:00:00 GMT".as_bytes().to_vec());
    // A second setting with the same date changes nothing.
    set_cache_headers(&mut resp, 300, &date);
    assert_eq!(resp.headers.len(), 3);
    assert!(matches!(resp.headers[0].name, HeaderName::ContentType));
    assert!(matches!(resp.headers[1].name, HeaderName::CacheControl));
    assert_eq!(resp.headers[1].value, "max-age=300".as_bytes().to_vec());
    assert!(matches!(resp.headers[2].name, HeaderName::LastModified));
    assert_eq!(resp.headers[2].value, "Tue, 17 May 2016 12:00:00 GMT".as_bytes().to_vec());
}

#[test]
fn only_a_2xx_fetch_status_hands_the_body_on() {
    let body = "{}".as_bytes().to_vec();
    match accept_fetch_status(200, body.clone()) {
        Ok(b) => assert_eq!(b, body),
        Err(_) => panic!("a 200 answer must pass"),
    }
    assert!(accept_fetch_status(299, body.clone()).is_ok());
    for status in [199u16, 301, 404, 500] {
        match accept_fetch_status(status, body.clone()) {
            Err(ServerError::Network(_)) => {},
            _ => panic!("a non-2xx answer must be a network error"),
        }
    }
}

#[test]
fn the_wire_form_is_exact() {
    let resp = HttpResponse {
        status: 200,
        headers: vec![Header {
            name: HeaderName::CacheControl,
            value: "max-age=300".as_bytes().to_vec(),
        }],
        body: "hello".as_bytes().to_vec(),
    };
    let expected = "HTTP/1.1 200 OK\r\nCache-Control: max-age=300\r\n\r\nhello";
    assert_eq!(serialize_response(&resp), expected.as_bytes().to_vec());
}

#[test]
fn the_standard_config_matches_the_served_literals() {
    let config = Config::standard();
    assert_eq!(
        config.url,
        "https://raw.githubusercontent.com/squidpickles/slippybot/master/joy.json"
    );
    assert_eq!(config.listen_addr, "127.0.0.1:4707");
    assert_eq!(config.cache_ttl, 300);
}

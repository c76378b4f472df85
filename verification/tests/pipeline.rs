//! End-to-end behaviour of the response pipeline.

use joypage::bytes_util::contains_slice;
use joypage::date::HttpDate;
use joypage::decode::decode_joy;
use joypage::errors::ServerError;
use joypage::handler::respond;
use joypage::response::HeaderName;
use joypage::template::parse_template;
use joypage::template::Template;

fn page_template() -> Template {
    match parse_template("<html><body>{{joy}}</body></html>".as_bytes()) {
        Ok(t) => t,
        Err(_) => panic!("the template holds the placeholder"),
    }
}

fn test_date() -> HttpDate {
    match HttpDate::new(2016, 5, 17, 2, 12, 0, 0) {
        Some(d) => d,
        None => panic!("the fields are in range"),
    }
}

#[test]
fn joy_scenario_renders_words() {
    let tpl = page_template();
    let now = test_date();
    let body = r#"{"happy": ["sun", "friends"], "sad": ["rain"]}"#.as_bytes().to_vec();
    let (log_line, resp) = respond(Ok(body), &tpl, &now, 300);
    assert!(log_line.is_none());
    assert_eq!(resp.status, 200);
    assert!(contains_slice(&resp.body, "sun".as_bytes()));
    assert!(contains_slice(&resp.body, "friends".as_bytes()));
    assert!(contains_slice(&resp.body, "rain".as_bytes()));
    assert!(contains_slice(&resp.body, "happy".as_bytes()));
    assert!(contains_slice(&resp.body, "sad".as_bytes()));
    assert_eq!(resp.headers.len(), 3);
    assert!(matches!(resp.headers[1].name, HeaderName::CacheControl));
    assert_eq!(resp.headers[1].value, "max-age=300".as_bytes().to_vec());
}

#[test]
fn fetch_failure_gives_500_and_the_next_request_succeeds() {
    let tpl = page_template();
    let now = test_date();
    let failure = ServerError::Network(String::from("connection refused"));
    let (log_line, resp) = respond(Err(failure), &tpl, &now, 300);
    assert_eq!(resp.status, 500);
    assert_eq!(resp.headers.len(), 0);
    assert_eq!(resp.body, "network error: connection refused".as_bytes().to_vec());
    match log_line {
        Some(line) => assert_eq!(line, resp.body),
        None => panic!("an error must be logged"),
    }
    // The pipeline is a plain function: the next request is served as if
    // nothing had happened.
    let body = r#"{"happy": ["sun"]}"#.as_bytes().to_vec();
    let (log_line, resp) = respond(Ok(body), &tpl, &now, 300);
    assert!(log_line.is_none());
    assert_eq!(resp.status, 200);
}

#[test]
fn malformed_body_gives_500() {
    let tpl = page_template();
    let now = test_date();
    let body = "{ this is not json".as_bytes().to_vec();
    let (log_line, resp) = respond(Ok(body), &tpl, &now, 300);
    assert_eq!(resp.status, 500);
    assert_eq!(resp.headers.len(), 0);
    let prefix = "decode error: ".as_bytes();
    assert_eq!(&resp.body[..prefix.len()], prefix);
    match log_line {
        Some(line) => assert_eq!(line, resp.body),
        None => panic!("an error must be logged"),
    }
}

#[test]
fn wrong_shape_gives_500() {
    let tpl = page_template();
    let now = test_date();
    let body = r#"{"happy": "sun"}"#.as_bytes().to_vec();
    let (_, resp) = respond(Ok(body), &tpl, &now, 300);
    assert_eq!(resp.status, 500);
}

#[test]
fn success_carries_cache_and_date_headers() {
    let tpl = page_template();
    let now = test_date();
    let body = r#"{"calm": ["sea"]}"#.as_bytes().to_vec();
    let (_, resp) = respond(Ok(body), &tpl, &now, 300);
    assert_eq!(resp.status, 200);
    assert!(matches!(resp.headers[0].name, HeaderName::ContentType));
    assert_eq!(resp.headers[0].value, "text/html; charset=utf-8".as_bytes().to_vec());
    assert!(matches!(resp.headers[1].name, HeaderName::CacheControl));
    assert_eq!(resp.headers[1].value, "max-age=300".as_bytes().to_vec());
    assert!(matches!(resp.headers[2].name, HeaderName::LastModified));
    assert_eq!(resp.headers[2].value, "Tue, 17 May 2016 12:00:00 GMT".as_bytes().to_vec());
}

#[test]
fn decode_is_real_parsing() {
    let doc = r#"{"sad": ["rain"], "happy": ["sun", "friends"]}"#.as_bytes();
    let data = match decode_joy(doc) {
        Ok(d) => d,
        Err(_) => panic!("the document is well shaped"),
    };
    // Keys come out in ascending order, each held once.
    assert_eq!(data.entries.len(), 2);
    assert_eq!(data.entries[0].key, "happy");
    assert_eq!(data.entries[0].words, vec![String::from("sun"), String::from("friends")]);
    assert_eq!(data.entries[1].key, "sad");
    assert_eq!(data.entries[1].words, vec![String::from("rain")]);
}

#[test]
fn decode_rejects_malformed_json() {
    let outcome = decode_joy("[1, 2, 3]".as_bytes());
    match outcome {
        Err(ServerError::Decode(_)) => {},
        _ => panic!("a document of the wrong shape must be refused as a decode error"),
    }
}

#[test]
fn missing_placeholder_is_a_startup_error() {
    let outcome = parse_template("<html><body>nothing here</body></html>".as_bytes());
    match outcome {
        Err(ServerError::Startup(_)) => {},
        _ => panic!("a template without the placeholder must be refused at startup"),
    }
}

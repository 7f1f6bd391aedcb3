use simple_server::{
    current_time, http_date, render_head, serialize_head, write_response, CalendarTime,
    HeaderLine,
};

fn epoch() -> CalendarTime {
    CalendarTime {
        sec: 0,
        min: 0,
        hour: 0,
        mday: 1,
        mon: 0,
        year: 70,
        wday: 4,
        yday: 0,
        isdst: 0,
        utcoff: 0,
        nsec: 0,
    }
}

fn head_of(response: &http::Response<Vec<u8>>) -> Option<Vec<u8>> {
    let headers: Vec<HeaderLine> = response
        .headers()
        .iter()
        .map(|(k, v)| HeaderLine { name: k.as_str().as_bytes().to_vec(), value: v.as_bytes().to_vec() })
        .collect();
    write_response(response.status().as_u16(), &headers, response.body())
}

fn line(name: &str, value: &str) -> HeaderLine {
    HeaderLine { name: name.as_bytes().to_vec(), value: value.as_bytes().to_vec() }
}

#[test]
fn test_write_response() {
    let mut builder = http::response::Builder::new();
    builder.status(http::StatusCode::OK);
    builder.header(http::header::DATE, "Thu, 01 Jan 1970 00:00:00 GMT");
    builder.header(http::header::CONTENT_TYPE, "text/plain".as_bytes());

    let response = builder.body("Hello rust".as_bytes().to_vec()).unwrap();
    let mut output = head_of(&response).unwrap();
    output.extend_from_slice(response.body());
    let expected = b"HTTP/1.1 200 OK\r\n\
        connection: close\r\n\
        content-length: 10\r\n\
        date: Thu, 01 Jan 1970 00:00:00 GMT\r\n\
        content-type: text/plain\r\n\
        \r\n\
        Hello rust";
    assert_eq!(&expected[..], &output[..]);
}

#[test]
fn test_write_response_no_headers() {
    let mut builder = http::response::Builder::new();
    builder.header(http::header::DATE, "Thu, 01 Jan 1970 00:00:00 GMT");
    builder.status(http::StatusCode::OK);

    let response = builder.body("Hello rust".as_bytes().to_vec()).unwrap();
    let mut output = head_of(&response).unwrap();
    output.extend_from_slice(response.body());
    let expected = b"HTTP/1.1 200 OK\r\n\
        connection: close\r\n\
        content-length: 10\r\n\
        date: Thu, 01 Jan 1970 00:00:00 GMT\r\n\
        \r\n\
        Hello rust";
    assert_eq!(&expected[..], &output[..]);
}

#[test]
fn default_status_response_gets_mandatory_headers() {
    let mut builder = http::response::Builder::new();
    let response = builder.body("Hello Rust!".as_bytes().to_vec()).unwrap();
    let mut output = head_of(&response).unwrap();
    output.extend_from_slice(response.body());
    let text = String::from_utf8(output).unwrap();
    assert!(text.starts_with("HTTP/1.1 200 OK\r\n"));
    assert!(text.contains("\r\ncontent-length: 11\r\n"));
    assert!(text.contains("\r\nconnection: close\r\n"));
    assert!(text.contains("\r\ndate: "));
    assert!(text.ends_with("\r\n\r\nHello Rust!"));
}

#[test]
fn serialises_exactly() {
    let out = serialize_head(404, "Not Found", "Thu, 01 Jan 1970 00:00:00 GMT", &vec![], 0);
    let expected = b"HTTP/1.1 404 Not Found\r\n\
        date: Thu, 01 Jan 1970 00:00:00 GMT\r\n\
        connection: close\r\n\
        content-length: 0\r\n\
        \r\n";
    assert_eq!(&expected[..], &out[..]);
}

#[test]
fn handler_headers_are_never_doubled() {
    let hs = vec![line("Connection", "keep-alive"), line("CONTENT-LENGTH", "99"), line("x-a", "1")];
    let out = serialize_head(201, "Created", "D", &hs, 3);
    let expected = b"HTTP/1.1 201 Created\r\n\
        date: D\r\n\
        Connection: keep-alive\r\n\
        CONTENT-LENGTH: 99\r\n\
        x-a: 1\r\n\
        \r\n";
    assert_eq!(&expected[..], &out[..]);
}

#[test]
fn content_length_counts_body_bytes() {
    let out = serialize_head(200, "OK", "D", &vec![], 12345);
    let text = String::from_utf8(out).unwrap();
    assert!(text.contains("\r\ncontent-length: 12345\r\n"));
    assert!(text.ends_with("\r\n\r\n"));
    let zero = String::from_utf8(serialize_head(200, "OK", "D", &vec![], 0)).unwrap();
    assert!(zero.contains("\r\ncontent-length: 0\r\n"));
}

#[test]
fn http_date_of_the_epoch() {
    assert_eq!(Some("Thu, 01 Jan 1970 00:00:00 GMT".to_string()), http_date(&epoch()));
    let t = CalendarTime { sec: 9, min: 5, hour: 13, mday: 22, mon: 2, year: 112, wday: 4, yday: 81, ..epoch() };
    assert_eq!(Some("Thu, 22 Mar 2012 13:05:09 GMT".to_string()), http_date(&t));
}

#[test]
fn http_date_of_an_unrepresentable_year_is_none() {
    let t = CalendarTime { year: i32::MAX, ..epoch() };
    assert_eq!(None, http_date(&t));
}

#[test]
fn render_uses_reason_phrase_and_date() {
    let out = render_head(200, &vec![], 11, &epoch()).unwrap();
    let expected = b"HTTP/1.1 200 OK\r\n\
        date: Thu, 01 Jan 1970 00:00:00 GMT\r\n\
        connection: close\r\n\
        content-length: 11\r\n\
        \r\n";
    assert_eq!(&expected[..], &out[..]);
}

#[test]
fn render_without_reason_phrase_is_none() {
    assert!(render_head(599, &vec![], 0, &epoch()).is_none());
    assert!(render_head(42, &vec![], 0, &epoch()).is_none());
}

#[test]
fn current_time_is_in_range() {
    let t = current_time();
    assert!(t.year >= 70);
    assert!((0..=11).contains(&t.mon));
    assert!(http_date(&t).unwrap().ends_with(" GMT"));
}

#[test]
fn write_response_refuses_a_status_without_phrase() {
    assert!(write_response(599, &vec![], b"x").is_none());
}

#[test]
fn write_response_with_date_header_keeps_it() {
    let hs = vec![line("date", "Thu, 01 Jan 1970 00:00:00 GMT")];
    let out = write_response(404, &hs, b"abc").unwrap();
    let expected = b"HTTP/1.1 404 Not Found\r\n\
        connection: close\r\n\
        content-length: 3\r\n\
        date: Thu, 01 Jan 1970 00:00:00 GMT\r\n\
        \r\n";
    assert_eq!(&expected[..], &out[..]);
}

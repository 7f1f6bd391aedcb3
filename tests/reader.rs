use simple_server::{
    build_request, duration_to_milliseconds, Error, ReadStep, Request, RequestReader, StallAction,
    StreamFault, DEFAULT_MAX_REQUEST_SIZE, READ_CHUNK,
};
use std::io::{self, Read};
use std::time::{Duration, Instant};

const PUT_REQUEST: &[u8] = b"PUT / HTTP/1.1\r\nHost: 127.0.0.1\r\n\r\n";

fn http_request() -> Vec<u8> {
    let mut text = String::from("GET / HTTP/1.1\r\nHost: 127.0.0.1\r\n");
    text.push_str(&format!("X-SOME-HEADER: {}\r\n", "a".repeat(300)));
    text.push_str(&format!("X-SOMEOTHER-HEADER: {}\r\n", "b".repeat(300)));
    text.push_str(&format!("X-ONEMORE-HEADER: {}\r\n", "c".repeat(300)));
    text.push_str("\r\n");
    text.into_bytes()
}

struct ChunkStream {
    content: Vec<u8>,
    bytes_read: usize,
    read_count: usize,
    timeout: Option<Duration>,
}

impl ChunkStream {
    fn new(content: &[u8]) -> ChunkStream {
        ChunkStream { content: content.to_vec(), bytes_read: 0, read_count: 0, timeout: None }
    }

    fn with_timeout(content: &[u8], timeout: Duration) -> ChunkStream {
        ChunkStream { content: content.to_vec(), bytes_read: 0, read_count: 0, timeout: Some(timeout) }
    }
}

impl Read for ChunkStream {
    fn read(&mut self, buf: &mut [u8]) -> io::Result<usize> {
        if let Some(timeout) = self.timeout {
            let start = Instant::now();
            while start.elapsed() < timeout {}
            return Err(io::Error::new(io::ErrorKind::TimedOut, ""));
        }
        let read = match self.read_count {
            0 => {
                let half = self.content.len() / 2;
                let min = std::cmp::min(half, buf.len());
                buf[..min].copy_from_slice(&self.content[..min]);
                min
            }
            _ => {
                let min = std::cmp::min(self.content[self.bytes_read..].len(), buf.len());
                buf[..min].copy_from_slice(&self.content[self.bytes_read..self.bytes_read + min]);
                min
            }
        };
        self.bytes_read += read;
        self.read_count += 1;
        Ok(read)
    }
}

/// Reads one request from `stream` the way the server does.
fn read_request<S: Read>(stream: &mut S, timeout: Option<Duration>, max: usize) -> Result<Request, Error> {
    let start = Instant::now();
    let timeout_ms = timeout.map(|d| duration_to_milliseconds(d.as_secs(), d.subsec_nanos()));
    let mut reader = RequestReader::new(max, timeout_ms);
    let mut chunk = [0u8; READ_CHUNK];
    loop {
        let want = reader.next_read_len()?;
        match stream.read(&mut chunk[..want]) {
            Ok(n) => match reader.receive(&chunk[..n]) {
                ReadStep::Reading(next) => {
                    let d = start.elapsed();
                    next.check_deadline(duration_to_milliseconds(d.as_secs(), d.subsec_nanos()))?;
                    reader = next;
                }
                ReadStep::Done(req) => return Ok(req),
                ReadStep::Failed(e) => return Err(e),
            },
            Err(e) => {
                let fault = match e.kind() {
                    io::ErrorKind::WouldBlock => StreamFault::WouldBlock,
                    io::ErrorKind::TimedOut => StreamFault::TimedOut,
                    _ => StreamFault::Other,
                };
                let d = start.elapsed();
                match reader.on_stall(fault, duration_to_milliseconds(d.as_secs(), d.subsec_nanos())) {
                    StallAction::Retry => continue,
                    StallAction::TimedOut => return Err(Error::Timeout),
                    StallAction::Surface => return Err(Error::Io(e)),
                }
            }
        }
    }
}

fn read(s: &mut ChunkStream, timeout: Option<Duration>) -> Result<http::Request<Vec<u8>>, Error> {
    build_request(read_request(s, timeout, DEFAULT_MAX_REQUEST_SIZE)?)
}

#[test]
fn read_request_stream_in_multiple_chunks() {
    let mut s = ChunkStream::new(&http_request());

    assert!(read(&mut s, None).is_ok());
}

#[test]
fn honour_request_timeout() {
    let timeout = Duration::from_millis(50);
    let mut s = ChunkStream::with_timeout(&http_request(), timeout);

    let result = read(&mut s, Some(timeout));

    match result {
        Err(Error::Timeout) => {}
        Err(e) => panic!("Expected timeout but got {:?}", e),
        Ok(_) => panic!("Expected timeout error but got Ok(_)"),
    }
}

#[test]
fn correctly_parse_request() {
    let mut s = ChunkStream::new(&http_request());
    let r = read(&mut s, None).unwrap();
    assert_eq!(4, r.headers().len());
    assert_eq!("127.0.0.1", r.headers()[http::header::HOST]);
    assert!(r.headers().contains_key("X-SOME-HEADER"));
    assert!(r.headers().contains_key("X-SOMEOTHER-HEADER"));
    assert!(r.headers().contains_key("X-ONEMORE-HEADER"));
}

#[test]
fn parse_method_correctly() {
    let mut s = ChunkStream::new(PUT_REQUEST);
    let req = read(&mut s, None).expect("Failed to parse PUT request.");
    assert_eq!(http::Method::PUT, *req.method());
}

fn feed(chunks: &[&[u8]], max: usize) -> Result<Request, Error> {
    let mut reader = RequestReader::new(max, None);
    for c in chunks {
        reader.next_read_len()?;
        match reader.receive(c) {
            ReadStep::Reading(next) => reader = next,
            ReadStep::Done(r) => return Ok(r),
            ReadStep::Failed(e) => return Err(e),
        }
    }
    Err(Error::RequestIncomplete)
}

fn summary(r: &Request) -> (String, String, Vec<(String, Vec<u8>)>) {
    let mut it = r.headers();
    let mut hs = vec![];
    while let Some(h) = it.next() {
        hs.push((h.name.to_string(), h.value.to_vec()));
    }
    (r.method().to_string(), r.path().to_string(), hs)
}

#[test]
fn byte_at_a_time_matches_one_shot() {
    let bytes = http_request();
    let one: Vec<&[u8]> = bytes.chunks(1).collect();
    let seven: Vec<&[u8]> = bytes.chunks(7).collect();
    let whole = feed(&[&bytes[..]], 4096).unwrap();
    let a = feed(&one, 4096).unwrap();
    let b = feed(&seven, 4096).unwrap();
    assert_eq!(summary(&whole), summary(&a));
    assert_eq!(summary(&whole), summary(&b));
    assert_eq!("GET", summary(&a).0);
}

#[test]
fn endless_head_is_too_large() {
    let mut reader = RequestReader::new(64, None);
    let line = b"X-Filler: aaaaaaaaaaaaaaaaaaaaaaaaaaaaaaaaaaaaaaaaaaaa\r\n";
    let mut first = true;
    loop {
        let want = match reader.next_read_len() {
            Ok(n) => n,
            Err(Error::RequestTooLarge) => break,
            Err(e) => panic!("unexpected {:?}", e),
        };
        assert!(want <= 64);
        let bytes: Vec<u8> = if first { b"GET / HTTP/1.1\r\n".to_vec() } else { line.to_vec() };
        first = false;
        let n = std::cmp::min(want, bytes.len());
        match reader.receive(&bytes[..n]) {
            ReadStep::Reading(next) => reader = next,
            ReadStep::Failed(Error::RequestTooLarge) => break,
            ReadStep::Failed(e) => panic!("unexpected {:?}", e),
            ReadStep::Done(_) => panic!("head never ends"),
        }
    }
}

#[test]
fn chunk_past_the_ceiling_is_too_large() {
    let r = feed(&[b"GET / HTTP/1.1\r\nHost: x\r\n\r\n"], 10);
    assert!(matches!(r, Err(Error::RequestTooLarge)));
}

#[test]
fn empty_read_means_closed() {
    let r = feed(&[b"GET / HT", b""], 1024);
    assert!(matches!(r, Err(Error::ConnectionClosed)));
}

#[test]
fn malformed_stream_fails() {
    let r = feed(&[b"GET / HTTP/1.1\r\n", b"no colon here\r\n\r\n"], 1024);
    assert!(matches!(r, Err(Error::HttpParse(_))));
}

#[test]
fn read_lengths_stay_under_the_ceiling() {
    let reader = RequestReader::new(1000, None);
    assert_eq!(READ_CHUNK, reader.next_read_len().unwrap());
    let reader = RequestReader::new(100, None);
    assert_eq!(100, reader.next_read_len().unwrap());
    let reader = RequestReader::new(0, None);
    assert!(matches!(reader.next_read_len(), Err(Error::RequestTooLarge)));
}

#[test]
fn stalls_time_out_only_past_the_timeout() {
    let r = RequestReader::new(100, Some(50));
    assert_eq!(StallAction::TimedOut, r.on_stall(StreamFault::TimedOut, 51));
    assert_eq!(StallAction::TimedOut, r.on_stall(StreamFault::WouldBlock, 1000));
    assert_eq!(StallAction::Retry, r.on_stall(StreamFault::WouldBlock, 50));
    assert_eq!(StallAction::Surface, r.on_stall(StreamFault::Other, 1000));
    let r = RequestReader::new(100, None);
    assert_eq!(StallAction::Retry, r.on_stall(StreamFault::TimedOut, u64::MAX));
}

#[test]
fn durations_become_milliseconds() {
    assert_eq!(1500, duration_to_milliseconds(1, 500_000_000));
    assert_eq!(0, duration_to_milliseconds(0, 999_999));
    assert_eq!(50, duration_to_milliseconds(0, 50_000_000));
    assert_eq!(u64::MAX, duration_to_milliseconds(u64::MAX, 0));
}

#[test]
fn built_request_carries_path_and_body() {
    let r = feed(&[b"POST /submit?x=1 HTTP/1.1\r\nHost: h\r\n\r\nabc"], 1024).unwrap();
    let req = build_request(r).unwrap();
    assert_eq!(http::Method::POST, *req.method());
    assert_eq!("/submit", req.uri().path());
    assert_eq!(Some("x=1"), req.uri().query());
    assert_eq!(b"abc".to_vec(), *req.body());
}

#[test]
fn built_request_rejects_bad_uri() {
    let r = feed(&[b"GET http://[::1 HTTP/1.1\r\n\r\n"], 1024).unwrap();
    assert!(matches!(build_request(r), Err(Error::InvalidUri(_))));
}

#[test]
fn steady_dribble_is_cut_off_at_the_deadline() {
    let r = RequestReader::new(100, Some(50));
    assert!(r.check_deadline(50).is_ok());
    assert!(matches!(r.check_deadline(51), Err(Error::Timeout)));
    let r = RequestReader::new(100, None);
    assert!(r.check_deadline(u64::MAX).is_ok());
}

#[test]
fn overlong_header_name_is_refused_before_http_sees_it() {
    let mut text = b"GET / HTTP/1.1\r\n".to_vec();
    text.extend(std::iter::repeat(b'a').take(65536));
    text.extend_from_slice(b": x\r\n\r\n");
    let r = feed(&[&text[..]], text.len()).unwrap();
    assert!(matches!(build_request(r), Err(Error::RequestTooLarge)));
}

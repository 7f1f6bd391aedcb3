use simple_server::{
    choose_answer, page_after_handler, Answer,
    after_read_failure, choose_pool_size, pool_size, render_error_page, static_route,
    write_error_page, write_file_response, CalendarTime, Error, ErrorPage, HeadFault,
    ReadFailureAction, StaticRoute,
};

fn epoch() -> CalendarTime {
    CalendarTime {
        sec: 0,
        min: 0,
        hour: 0,
        mday: 1,
        mon: 0,
        year: 70,
        wday: 4,
        yday: 0,
        isdst: 0,
        utcoff: 0,
        nsec: 0,
    }
}

fn lookup(path: &str) -> Option<String> {
    match static_route(path) {
        StaticRoute::Lookup(p) => Some(p),
        StaticRoute::Rejected => None,
    }
}

#[test]
fn traversal_is_rejected() {
    assert!(lookup("/../etc/passwd").is_none());
    assert!(lookup("/a/../../etc/passwd").is_none());
    assert!(lookup("/a/..").is_none());
    assert!(lookup("/..").is_none());
    assert!(lookup("//etc/passwd").is_none());
    assert!(lookup("/./index.html").is_none());
    assert!(lookup("/.").is_none());
}

#[test]
fn plain_paths_are_looked_up() {
    assert_eq!(Some("index.html".to_string()), lookup("/index.html"));
    assert_eq!(Some("css/site.css".to_string()), lookup("/css/site.css"));
    assert_eq!(Some("a..b/c".to_string()), lookup("/a..b/c"));
    assert_eq!(Some("a/./b".to_string()), lookup("/a/./b"));
    assert_eq!(Some("".to_string()), lookup("/"));
    assert_eq!(Some("*".to_string()), lookup("*"));
}

#[test]
fn error_pages_have_fixed_bodies() {
    assert_eq!(404, ErrorPage::NotFound.status());
    assert_eq!("<h1>404</h1><p>Not found!<p>", ErrorPage::NotFound.body());
    assert_eq!(413, ErrorPage::PayloadTooLarge.status());
    assert_eq!("<h1>413</h1><p>Request too large!<p>", ErrorPage::PayloadTooLarge.body());
    assert_eq!(500, ErrorPage::InternalServerError.status());
    assert_eq!("<h1>500</h1><p>Internal Server Error!<p>", ErrorPage::InternalServerError.body());
}

#[test]
fn failing_handler_gets_the_500_page() {
    let mut builder = http::response::Builder::new();
    builder.header("Foo", "Bar\r\n");
    assert!(builder.body("".as_bytes().to_vec()).is_err());
    let out = String::from_utf8(write_error_page(ErrorPage::InternalServerError).unwrap()).unwrap();
    assert!(out.starts_with("HTTP/1.1 500 Internal Server Error\r\n"));
    assert!(out.ends_with("\r\n\r\n<h1>500</h1><p>Internal Server Error!<p>"));
}

#[test]
fn too_large_page_is_exact() {
    let out = render_error_page(ErrorPage::PayloadTooLarge, &epoch()).unwrap();
    let expected = b"HTTP/1.1 413 Payload Too Large\r\n\
        date: Thu, 01 Jan 1970 00:00:00 GMT\r\n\
        connection: close\r\n\
        content-length: 36\r\n\
        \r\n\
        <h1>413</h1><p>Request too large!<p>";
    assert_eq!(&expected[..], &out[..]);
}

#[test]
fn not_found_page_for_traversal() {
    assert!(matches!(static_route("/../etc/passwd"), StaticRoute::Rejected));
    let out = String::from_utf8(render_error_page(ErrorPage::NotFound, &epoch()).unwrap()).unwrap();
    assert!(out.starts_with("HTTP/1.1 404 Not Found\r\n"));
    assert!(out.ends_with("<h1>404</h1><p>Not found!<p>"));
}

#[test]
fn static_index_is_looked_up_under_the_root() {
    assert_eq!(Some("index.html".to_string()), lookup("/index.html"));
}

#[test]
fn read_failures_map_to_actions() {
    assert_eq!(ReadFailureAction::Close, after_read_failure(&Error::ConnectionClosed));
    assert_eq!(ReadFailureAction::Close, after_read_failure(&Error::Timeout));
    assert_eq!(ReadFailureAction::Close, after_read_failure(&Error::HttpParse(HeadFault::Token)));
    assert_eq!(
        ReadFailureAction::Reply(ErrorPage::PayloadTooLarge),
        after_read_failure(&Error::RequestTooLarge)
    );
    let pipe = std::io::Error::new(std::io::ErrorKind::BrokenPipe, "gone");
    assert_eq!(ReadFailureAction::Propagate, after_read_failure(&Error::Io(pipe)));
    let other = std::io::Error::new(std::io::ErrorKind::PermissionDenied, "no");
    assert_eq!(ReadFailureAction::Propagate, after_read_failure(&Error::Io(other)));
    assert_eq!(ReadFailureAction::Propagate, after_read_failure(&Error::RequestIncomplete));
}

#[test]
fn pool_size_prefers_a_valid_setting() {
    assert_eq!(8, choose_pool_size(Some("8"), 4));
    assert_eq!(3, choose_pool_size(Some("+3"), 4));
    assert_eq!(0, choose_pool_size(Some("0"), 4));
    assert_eq!(4, choose_pool_size(Some("eight"), 4));
    assert_eq!(4, choose_pool_size(Some(" 8"), 4));
    assert_eq!(4, choose_pool_size(Some("4294967296"), 4));
    assert_eq!(4294967295, choose_pool_size(Some("4294967295"), 4));
    assert_eq!(4, choose_pool_size(None, 4));
    assert_eq!(12, choose_pool_size(Some("12"), 1));
}

#[test]
fn pool_size_falls_back_on_cores() {
    assert!(pool_size(None) >= 1);
    assert_eq!(6, pool_size(Some("6")));
}

#[test]
fn static_file_head_is_a_200_with_its_length() {
    let contents = b"<html>hi</html>".to_vec();
    let head = String::from_utf8(write_file_response(&contents).unwrap()).unwrap();
    assert!(head.starts_with("HTTP/1.1 200 OK\r\n"));
    assert!(head.contains("\r\ncontent-length: 15\r\n"));
    assert!(head.ends_with("\r\n\r\n"));
}

#[test]
fn dispatch_decisions() {
    assert_eq!(Answer::Handler, choose_answer(None, true));
    assert_eq!(Answer::Page(ErrorPage::NotFound), choose_answer(Some(&StaticRoute::Rejected), true));
    let hit = StaticRoute::Lookup("index.html".to_string());
    assert_eq!(Answer::File, choose_answer(Some(&hit), true));
    assert_eq!(Answer::Handler, choose_answer(Some(&hit), false));
    assert_eq!(Some(ErrorPage::InternalServerError), page_after_handler(true));
    assert_eq!(None, page_after_handler(false));
}

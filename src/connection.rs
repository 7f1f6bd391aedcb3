use crate::error::Error;
use crate::response::{
    append_bytes, calendar_fields_in_range, current_time, render_head,
    response_head, http_date_text, CalendarTime, HeaderLine,
};
use vstd::prelude::*;
use vstd::string::StringSliceAdditionalSpecFns;
use vstd::utf8::{encode_utf8, encode_utf8_valid_utf8, is_char_boundary};

verus! {

/// The fixed pages this server answers with on its own.
#[derive(Clone, Copy, Debug, PartialEq, Eq, Structural)]
pub enum ErrorPage {
    /// 404, for a path that tries to leave the static directory.
    NotFound,
    /// 413, for a request larger than the reader's ceiling.
    PayloadTooLarge,
    /// 500, for a handler that failed.
    InternalServerError,
}

impl ErrorPage {
    pub open spec fn spec_status(self) -> u16 {
        match self {
            ErrorPage::NotFound => 404,
            ErrorPage::PayloadTooLarge => 413,
            ErrorPage::InternalServerError => 500,
        }
    }

    pub open spec fn spec_reason(self) -> Seq<char> {
        match self {
            ErrorPage::NotFound => "Not Found"@,
            ErrorPage::PayloadTooLarge => "Payload Too Large"@,
            ErrorPage::InternalServerError => "Internal Server Error"@,
        }
    }

    pub open spec fn spec_body(self) -> Seq<u8> {
        match self {
            ErrorPage::NotFound => "<h1>404</h1><p>Not found!<p>".spec_bytes(),
            ErrorPage::PayloadTooLarge => "<h1>413</h1><p>Request too large!<p>".spec_bytes(),
            ErrorPage::InternalServerError => "<h1>500</h1><p>Internal Server Error!<p>".spec_bytes(),
        }
    }

    /// The page's status code.
    pub fn status(&self) -> (s: u16)
        ensures
            s == self.spec_status(),
    {
        match self {
            ErrorPage::NotFound => 404,
            ErrorPage::PayloadTooLarge => 413,
            ErrorPage::InternalServerError => 500,
        }
    }

    /// The page's HTML body.
    pub fn body(&self) -> (b: &'static str)
        ensures
            b.spec_bytes() == self.spec_body(),
    {
        match self {
            ErrorPage::NotFound => "<h1>404</h1><p>Not found!<p>",
            ErrorPage::PayloadTooLarge => "<h1>413</h1><p>Request too large!<p>",
            ErrorPage::InternalServerError => "<h1>500</h1><p>Internal Server Error!<p>",
        }
    }
}

/// The bytes of a fixed page at time `now`: the status line with the
/// page's code and reason phrase, the date of `now`, `connection: close`
/// and the body's length, a blank line, and the HTML body.
pub open spec fn error_page_bytes(page: ErrorPage, now: CalendarTime) -> Seq<u8> {
    response_head(
        page.spec_status(),
        encode_utf8(page.spec_reason()),
        encode_utf8(http_date_text(now)),
        Seq::empty(),
        page.spec_body().len(),
    ) + page.spec_body()
}

/// Serialises a fixed page at time `now`: the head for its status, with
/// no headers of its own, followed by its HTML body.  Only a year that does
/// not fit an `i32` gives `None`.
pub fn render_error_page(page: ErrorPage, now: &CalendarTime) -> (r: Option<Vec<u8>>)
    requires
        calendar_fields_in_range(*now),
    ensures
        now.year <= i32::MAX - 1900 ==> (r matches Some(out) && out@ == error_page_bytes(
            page,
            *now,
        )),
        now.year > i32::MAX - 1900 ==> r is None,
{
    let no_headers: Vec<HeaderLine> = Vec::new();
    let body = page.body().as_bytes();
    proof {
        assert(crate::response::lines_view(no_headers@) =~= Seq::empty());
    }
    match render_head(page.status(), &no_headers, body.len(), now) {
        Some(head) => {
            let mut out = head;
            append_bytes(&mut out, body);
            Some(out)
        },
        None => None,
    }
}

/// Serialises a fixed page with the current time for its date line.  Only
/// a clock whose year does not fit an `i32` gives `None`.
pub fn write_error_page(page: ErrorPage) -> (r: Option<Vec<u8>>)
    ensures
        r matches Some(out) ==> exists|now: CalendarTime|
            calendar_fields_in_range(now) && now.year <= i32::MAX - 1900 && out@
                == #[trigger] error_page_bytes(page, now),
        r is None ==> exists|now: CalendarTime|
            calendar_fields_in_range(now) && #[trigger] now.year > i32::MAX - 1900,
{
    let now = current_time();
    render_error_page(page, &now)
}

/// The head of the 200 response that serves a static file with `contents`,
/// with the current time for its date line; the contents go out after it.
/// Only a clock whose year does not fit an `i32` gives `None`.
pub fn write_file_response(contents: &[u8]) -> (r: Option<Vec<u8>>)
    ensures
        r matches Some(out) ==> exists|now: CalendarTime|
            calendar_fields_in_range(now) && out@ == #[trigger] response_head(
                200,
                encode_utf8("OK"@),
                encode_utf8(http_date_text(now)),
                Seq::empty(),
                contents@.len(),
            ),
        r is None ==> exists|now: CalendarTime|
            calendar_fields_in_range(now) && #[trigger] now.year > i32::MAX - 1900,
{
    let no_headers: Vec<HeaderLine> = Vec::new();
    proof {
        assert(crate::response::lines_view(no_headers@) =~= Seq::empty());
    }
    let now = current_time();
    render_head(200, &no_headers, contents.len(), &now)
}

/// What becomes of a connection whose request could not be read.
#[derive(Clone, Copy, Debug, PartialEq, Eq, Structural)]
pub enum ReadFailureAction {
    /// Close the connection without an answer.
    Close,
    /// Answer with a fixed page, then close.
    Reply(ErrorPage),
    /// Hand the error on to the worker.
    Propagate,
}

/// Maps a read failure to what the connection does next: a closed peer, a
/// timeout or a malformed head close it silently; a request over the
/// ceiling gets the 413 page; any other error, I/O errors included, is
/// handed on to the worker.
pub fn after_read_failure(e: &Error) -> (a: ReadFailureAction)
    ensures
        e is ConnectionClosed || e is Timeout || e is HttpParse ==> a == ReadFailureAction::Close,
        e is RequestTooLarge ==> a == ReadFailureAction::Reply(ErrorPage::PayloadTooLarge),
        e is Io || e is Http || e is InvalidUri || e is RequestIncomplete ==> a
            == ReadFailureAction::Propagate,
{
    match e {
        Error::ConnectionClosed | Error::Timeout | Error::HttpParse(_) => ReadFailureAction::Close,
        Error::RequestTooLarge => ReadFailureAction::Reply(ErrorPage::PayloadTooLarge),
        _ => ReadFailureAction::Propagate,
    }
}

/// Where a request goes when static files are served.
#[derive(Debug)]
pub enum StaticRoute {
    /// The path tries to leave the static directory: answer 404 and look
    /// nothing up.
    Rejected,
    /// Look up this path, relative to the static directory; when it is no
    /// regular file, the handler answers.
    Lookup(String),
}

/// How a connection whose request was read is answered.
#[derive(Clone, Copy, Debug, PartialEq, Eq, Structural)]
pub enum Answer {
    /// A fixed page, without calling the handler.
    Page(ErrorPage),
    /// The static file that was looked up, as a 200, without calling the
    /// handler.
    File,
    /// Whatever the handler builds.
    Handler,
}

/// Decides how a request is answered.  `route` is `None` when static files
/// are not served, else where `static_route` sent the path; `is_file` says
/// whether the looked-up path is a regular file.  A rejected path gets the
/// 404 page (never a 403), a file is served, and everything else goes to
/// the handler.
pub fn choose_answer(route: Option<&StaticRoute>, is_file: bool) -> (a: Answer)
    ensures
        route is None ==> a == Answer::Handler,
        route matches Some(StaticRoute::Rejected) ==> a == Answer::Page(ErrorPage::NotFound),
        route matches Some(StaticRoute::Lookup(_)) ==> a == (if is_file {
            Answer::File
        } else {
            Answer::Handler
        }),
{
    match route {
        None => Answer::Handler,
        Some(StaticRoute::Rejected) => Answer::Page(ErrorPage::NotFound),
        Some(StaticRoute::Lookup(_)) => if is_file {
            Answer::File
        } else {
            Answer::Handler
        },
    }
}

/// The page that replaces what a handler returned: the 500 page when the
/// handler failed, whatever it failed with, and none when it succeeded.
pub fn page_after_handler(handler_failed: bool) -> (p: Option<ErrorPage>)
    ensures
        handler_failed ==> p == Some(ErrorPage::InternalServerError),
        !handler_failed ==> p is None,
{
    if handler_failed {
        Some(ErrorPage::InternalServerError)
    } else {
        None
    }
}

/// The path relative to the static directory: the request path without its
/// leading `/`.
pub open spec fn relative_path(path: Seq<u8>) -> Seq<u8> {
    if path.len() > 0 && path[0] == 47 {
        path.drop_first()
    } else {
        path
    }
}

/// A `..` component starts at position `i` of `p`.
pub open spec fn parent_at(p: Seq<u8>, i: int) -> bool {
    &&& 0 <= i
    &&& i + 2 <= p.len()
    &&& (i == 0 || p[i - 1] == 47)
    &&& p[i] == 46
    &&& p[i + 1] == 46
    &&& (i + 2 == p.len() || p[i + 2] == 47)
}

/// The relative path names a component other than a plain name: a root
/// (it starts with `/`), the current directory in front (`.` or `./...`),
/// or a parent directory (`..`) anywhere.
pub open spec fn escapes(p: Seq<u8>) -> bool {
    ||| p.len() > 0 && p[0] == 47
    ||| p.len() > 0 && p[0] == 46 && (p.len() == 1 || p[1] == 47)
    ||| exists|i: int| parent_at(p, i)
}

fn has_parent_component(p: &[u8]) -> (r: bool)
    ensures
        r == exists|i: int| parent_at(p@, i),
{
    let mut i: usize = 0;
    while p.len() >= 2 && i <= p.len() - 2
        invariant
            i <= p@.len(),
            forall|j: int| 0 <= j < i ==> !parent_at(p@, j),
        decreases p@.len() - i,
    {
        let starts = i == 0 || p[i - 1] == 47;
        let ends = i + 2 == p.len() || p[i + 2] == 47;
        if starts && p[i] == 46 && p[i + 1] == 46 && ends {
            assert(parent_at(p@, i as int));
            return true;
        }
        i = i + 1;
    }
    assert forall|j: int| !parent_at(p@, j) by {
        if 0 <= j < i {
        }
    }
    false
}

/// Decides where a request for `path` goes when static files are served.
/// The leading `/` is dropped; a path that names a root, a leading `.` or a
/// `..` component is rejected, any other is looked up.
pub fn static_route(path: &str) -> (r: StaticRoute)
    ensures
        escapes(relative_path(path.spec_bytes())) ==> r is Rejected,
        !escapes(relative_path(path.spec_bytes())) ==> (r matches StaticRoute::Lookup(rel) && encode_utf8(
            rel@,
        ) == relative_path(path.spec_bytes())),
{
    let bytes = path.as_bytes();
    let rel: &str = if bytes.len() > 0 && bytes[0] == 47 {
        proof {
            encode_utf8_valid_utf8(path@);
            reveal_with_fuel(is_char_boundary, 2);
            assert(is_char_boundary(path.spec_bytes(), 1));
        }
        let (_, rest) = path.split_at(1);
        proof {
            assert(rest.spec_bytes() =~= relative_path(path.spec_bytes()));
        }
        rest
    } else {
        path
    };
    let rb = rel.as_bytes();
    let rooted = rb.len() > 0 && rb[0] == 47;
    let current = rb.len() > 0 && rb[0] == 46 && (rb.len() == 1 || rb[1] == 47);
    if rooted || current || has_parent_component(rb) {
        StaticRoute::Rejected
    } else {
        StaticRoute::Lookup(rel.to_owned())
    }
}

/// A request path with a `../` component (at its start or right after a
/// `/`) never reaches the file system: `static_route` rejects it.
pub proof fn lemma_parent_traversal_rejected(path: Seq<u8>, i: int)
    requires
        0 <= i,
        i + 3 <= path.len(),
        i == 0 || path[i - 1] == 47,
        path[i] == 46,
        path[i + 1] == 46,
        path[i + 2] == 47,
    ensures
        escapes(relative_path(path)),
{
    let rel = relative_path(path);
    if path[0] == 47 {
        assert(rel == path.drop_first());
        assert(parent_at(rel, i - 1));
    } else {
        assert(parent_at(rel, i));
    }
}

/// Relies on num_cpus::get: the number of logical cores, at least one.
#[verifier::external_body]
fn logical_cores() -> (n: usize)
    ensures
        n >= 1,
{
    num_cpus::get()
}

/// The value of a run of ASCII decimal digits.
pub open spec fn digits_value(s: Seq<u8>) -> nat
    decreases s.len(),
{
    if s.len() == 0 {
        0
    } else {
        digits_value(s.drop_last()) * 10 + (s.last() as nat - 48) as nat
    }
}

/// One or more ASCII digits.
pub open spec fn all_digits(s: Seq<u8>) -> bool {
    s.len() > 0 && forall|i: int| 0 <= i < s.len() ==> 48 <= #[trigger] s[i] <= 57
}

/// What parsing the text `s` as a `u32` gives, as u32's `FromStr`
/// documents it: an optional `+`, then ASCII digits whose value fits.
pub open spec fn parsed_u32(s: Seq<u8>) -> Option<u32> {
    let d = if s.len() > 0 && s[0] == 43 {
        s.drop_first()
    } else {
        s
    };
    if all_digits(d) && digits_value(d) <= u32::MAX {
        Some(digits_value(d) as u32)
    } else {
        None
    }
}

/// A prefix of a run of digits is worth no more than the whole run.
proof fn lemma_prefix_value_bounded(d: Seq<u8>, k: int)
    requires
        0 <= k <= d.len(),
        forall|i: int| 0 <= i < d.len() ==> 48 <= #[trigger] d[i] <= 57,
    ensures
        digits_value(d.subrange(0, k)) <= digits_value(d),
    decreases d.len(),
{
    if k == d.len() {
        assert(d.subrange(0, k) =~= d);
    } else {
        let shorter = d.drop_last();
        assert(shorter.subrange(0, k) =~= d.subrange(0, k));
        lemma_prefix_value_bounded(shorter, k);
        let x = digits_value(shorter);
        let y = (d.last() as nat - 48) as nat;
        assert(x <= x * 10 + y) by (nonlinear_arith);
    }
}

/// Parses `s` as a `u32` the way u32's `FromStr` does: an optional `+`,
/// then one or more ASCII digits whose value fits.
fn parse_u32(s: &str) -> (r: Option<u32>)
    ensures
        r == parsed_u32(s.spec_bytes()),
{
    let b = s.as_bytes();
    let start: usize = if b.len() > 0 && b[0] == 43 {
        1
    } else {
        0
    };
    let ghost d = b@.subrange(start as int, b@.len() as int);
    proof {
        if start == 1 {
            assert(d =~= b@.drop_first());
        } else {
            assert(d =~= b@);
        }
    }
    if start == b.len() {
        return None;
    }
    let mut value: u64 = 0;
    let mut i: usize = start;
    while i < b.len()
        invariant
            start <= i <= b@.len(),
            start < b@.len(),
            b@ == s.spec_bytes(),
            d == b@.subrange(start as int, b@.len() as int),
            d == (if b@.len() > 0 && b@[0] == 43 {
                b@.drop_first()
            } else {
                b@
            }),
            value == digits_value(b@.subrange(start as int, i as int)),
            value <= u32::MAX,
            forall|j: int| start <= j < i ==> 48 <= #[trigger] b@[j] <= 57,
        decreases b@.len() - i,
    {
        let c = b[i];
        if c < 48 || c > 57 {
            assert(!all_digits(d)) by {
                assert(d[i - start] == c);
            }
            return None;
        }
        proof {
            let next = b@.subrange(start as int, i + 1);
            assert(next.drop_last() =~= b@.subrange(start as int, i as int));
            assert(next.last() == c);
        }
        value = value * 10 + (c - 48) as u64;
        if value > u32::MAX as u64 {
            proof {
                if all_digits(d) {
                    assert(d.subrange(0, i + 1 - start) =~= b@.subrange(start as int, i + 1));
                    lemma_prefix_value_bounded(d, i + 1 - start);
                }
            }
            return None;
        }
        i = i + 1;
    }
    proof {
        assert(b@.subrange(start as int, i as int) =~= d);
        assert forall|j: int| 0 <= j < d.len() implies 48 <= #[trigger] d[j] <= 57 by {
            assert(d[j] == b@[j + start]);
        }
    }
    Some(value as u32)
}

/// The pool size that a thread-count setting and the number of logical
/// cores give: the setting where it parses as a `u32`, else the cores
/// (capped at `u32::MAX`).
pub open spec fn pool_size_spec(setting: Option<Seq<u8>>, cores: nat) -> u32 {
    let fallback = if cores > u32::MAX {
        u32::MAX
    } else {
        cores as u32
    };
    match setting {
        Some(s) => match parsed_u32(s) {
            Some(n) => n,
            None => fallback,
        },
        None => fallback,
    }
}

/// The text of an optional setting.
pub open spec fn setting_text(setting: Option<&str>) -> Option<Seq<u8>> {
    match setting {
        Some(s) => Some(s.spec_bytes()),
        None => None,
    }
}

/// Resolves the worker pool size from an optional thread-count setting and
/// the number of logical cores.
pub fn choose_pool_size(setting: Option<&str>, cores: usize) -> (n: u32)
    ensures
        n == pool_size_spec(setting_text(setting), cores as nat),
{
    let fallback: u32 = if cores > u32::MAX as usize {
        u32::MAX
    } else {
        cores as u32
    };
    match setting {
        Some(s) => match parse_u32(s) {
            Some(n) => n,
            None => fallback,
        },
        None => fallback,
    }
}

/// Resolves the worker pool size from an optional thread-count setting,
/// falling back on the machine's logical cores.
pub fn pool_size(setting: Option<&str>) -> (n: u32)
    ensures
        exists|cores: nat|
            cores >= 1 && n == #[trigger] pool_size_spec(setting_text(setting), cores),
{
    let cores = logical_cores();
    choose_pool_size(setting, cores)
}

} // verus!

use httparse::{Error as HeadError, Request as HeadParser, Status, EMPTY_HEADER};
use vstd::prelude::*;
use vstd::slice::slice_subrange;
use vstd::string::StringSliceAdditionalSpecFns;
use vstd::utf8::valid_utf8;

verus! {

/// Most header lines a request head may carry.
pub const MAX_HEADERS: usize = 32;

/// A half-open range `start..end` of positions in a receive buffer.
#[derive(Clone, Copy, Debug, PartialEq, Eq, Structural)]
pub struct Span {
    pub start: usize,
    pub end: usize,
}

impl Span {
    /// The span is ordered and ends at or before `len`.
    pub open spec fn within(self, len: nat) -> bool {
        self.start <= self.end && self.end <= len
    }

    /// The bytes of `buf` that the span covers.
    pub open spec fn of(self, buf: Seq<u8>) -> Seq<u8> {
        buf.subrange(self.start as int, self.end as int)
    }
}

/// Where a header's name and value lie in the buffer.
#[derive(Clone, Copy, Debug, PartialEq, Eq, Structural)]
pub struct HeaderSpan {
    pub name: Span,
    pub value: Span,
}

/// Where the parts of a complete request head lie in the buffer, and how
/// many bytes the head takes (the body starts there).
pub struct HeadLayout {
    pub method: Span,
    pub path: Span,
    pub headers: Seq<HeaderSpan>,
    pub len: nat,
}

/// Why the HTTP head parser rejected a buffer, one variant for each of
/// httparse's errors.
#[derive(Clone, Copy, Debug, PartialEq, Eq, Structural)]
pub enum HeadFault {
    /// Invalid byte in a header name.
    HeaderName,
    /// Invalid byte in a header value.
    HeaderValue,
    /// Invalid byte in a new line.
    NewLine,
    /// Invalid byte in a response status.
    Status,
    /// Invalid byte where a token is required.
    Token,
    /// More headers than there is room for.
    TooManyHeaders,
    /// Invalid byte in the HTTP version.
    Version,
}

/// What the HTTP head parser finds in a buffer.
pub enum HeadScan {
    Complete(HeadLayout),
    Partial,
    Malformed(HeadFault),
}

/// What httparse's request parser finds in `buf` with room for
/// `max_headers` headers.
pub uninterp spec fn httparse_head(buf: Seq<u8>, max_headers: usize) -> HeadScan;

/// Every span of the layout lies in the head, and the method, the path and
/// the header names are text.
pub open spec fn layout_fits(buf: Seq<u8>, h: HeadLayout) -> bool {
    &&& h.len <= buf.len()
    &&& h.method.within(h.len)
    &&& h.path.within(h.len)
    &&& valid_utf8(h.method.of(buf))
    &&& valid_utf8(h.path.of(buf))
    &&& forall|i: int|
        0 <= i < h.headers.len() ==> {
            &&& (#[trigger] h.headers[i]).name.within(h.len)
            &&& h.headers[i].value.within(h.len)
            &&& valid_utf8(h.headers[i].name.of(buf))
        }
}

/// The positions of a complete request head, as the parser hands them out.
struct RawHead {
    method: Span,
    path: Span,
    headers: Vec<HeaderSpan>,
    len: usize,
}

impl RawHead {
    spec fn layout(&self) -> HeadLayout {
        HeadLayout {
            method: self.method,
            path: self.path,
            headers: self.headers@,
            len: self.len as nat,
        }
    }
}

/// Relies on httparse::Request::parse: `Ok(Complete(n))` when `buf` starts
/// with a whole request head of `n` bytes (the method, path and header
/// slices it fills in borrow from that head), `Ok(Partial)` when more bytes
/// are needed, and an error when the bytes break the grammar or there are
/// more than `max_headers` headers.  Each slice is handed back as its
/// position in `buf`.
#[verifier::external_body]
fn parse_head(buf: &[u8], max_headers: usize) -> (r: Result<Option<RawHead>, HeadFault>)
    ensures
        match r {
            Ok(Some(h)) => httparse_head(buf@, max_headers) == HeadScan::Complete(h.layout())
                && layout_fits(buf@, h.layout()),
            Ok(None) => httparse_head(buf@, max_headers) is Partial,
            Err(f) => httparse_head(buf@, max_headers) == HeadScan::Malformed(f),
        },
{
    let mut slots = vec![EMPTY_HEADER; max_headers];
    let mut req = HeadParser::new(&mut slots);
    let Status::Complete(len) = req.parse(buf).map_err(fault_of)? else { return Ok(None) };
    let base = buf.as_ptr() as usize;
    let at = |s: &[u8]| {
        let start = s.as_ptr() as usize - base;
        Span { start, end: start + s.len() }
    };
    Ok(Some(RawHead {
        method: at(req.method.unwrap().as_bytes()),
        path: at(req.path.unwrap().as_bytes()),
        headers: req.headers.iter().map(|h| HeaderSpan { name: at(h.name.as_bytes()), value: at(h.value) }).collect(),
        len,
    }))
}

#[verifier::external_type_specification]
#[verifier::external_body]
pub struct ExHeadError(HeadError);

/// Tells the variants of an httparse error apart, one arm each.
#[verifier::external_body]
fn fault_of(e: HeadError) -> HeadFault {
    match e {
        HeadError::HeaderName => HeadFault::HeaderName,
        HeadError::HeaderValue => HeadFault::HeaderValue,
        HeadError::NewLine => HeadFault::NewLine,
        HeadError::Status => HeadFault::Status,
        HeadError::Token => HeadFault::Token,
        HeadError::TooManyHeaders => HeadFault::TooManyHeaders,
        HeadError::Version => HeadFault::Version,
    }
}

/// Relies on std::str::from_utf8: it accepts exactly the well-formed UTF-8
/// byte strings and views them as text unchanged.
#[verifier::external_body]
fn utf8_text(bytes: &[u8]) -> (r: Option<&str>)
    ensures
        r is Some <==> valid_utf8(bytes@),
        r matches Some(s) ==> s.spec_bytes() == bytes@,
{
    std::str::from_utf8(bytes).ok()
}

/// A parsed request as plain values: method, path, headers in the order they
/// came, and the bytes that followed the head.
pub struct RequestView {
    pub method: Seq<u8>,
    pub path: Seq<u8>,
    pub headers: Seq<(Seq<u8>, Seq<u8>)>,
    pub body: Seq<u8>,
}

/// The name and value bytes that a header span covers.
pub open spec fn header_of(buf: Seq<u8>, s: HeaderSpan) -> (Seq<u8>, Seq<u8>) {
    (s.name.of(buf), s.value.of(buf))
}

/// The request that a complete head layout describes in `buf`.
pub open spec fn request_of(buf: Seq<u8>, h: HeadLayout) -> RequestView {
    RequestView {
        method: h.method.of(buf),
        path: h.path.of(buf),
        headers: h.headers.map_values(|s: HeaderSpan| header_of(buf, s)),
        body: buf.subrange(h.len as int, buf.len() as int),
    }
}

/// A request head that has been parsed out of its receive buffer.  The
/// request owns the buffer; method, path, headers and body are positions in
/// it, so nothing is copied until the body is split off.
pub struct Request {
    method: Span,
    path: Span,
    headers: Vec<HeaderSpan>,
    body: Span,
    buffer: Vec<u8>,
}

/// A header of a parsed request, borrowed from its buffer.
pub struct Header<'a> {
    pub name: &'a str,
    pub value: &'a [u8],
}

impl View for Request {
    type V = RequestView;

    closed spec fn view(&self) -> RequestView {
        RequestView {
            method: self.method.of(self.buffer@),
            path: self.path.of(self.buffer@),
            headers: self.headers@.map_values(|s: HeaderSpan| header_of(self.buffer@, s)),
            body: self.body.of(self.buffer@),
        }
    }
}

impl Request {
    /// Every position lies in the buffer: the head's parts before the body,
    /// the body up to the end.  Method, path and header names are text.
    pub closed spec fn wf(&self) -> bool {
        let head = self.body.start as nat;
        &&& self.body.start <= self.body.end
        &&& self.body.end == self.buffer@.len()
        &&& self.method.within(head)
        &&& self.path.within(head)
        &&& valid_utf8(self.method.of(self.buffer@))
        &&& valid_utf8(self.path.of(self.buffer@))
        &&& forall|i: int|
            0 <= i < self.headers@.len() ==> {
                &&& (#[trigger] self.headers@[i]).name.within(head)
                &&& self.headers@[i].value.within(head)
                &&& valid_utf8(self.headers@[i].name.of(self.buffer@))
            }
    }

    /// Takes the body out of the request and returns it.  The request keeps
    /// its method, path and headers, and its body is empty afterwards.
    pub fn split_body(&mut self) -> (body: Vec<u8>)
        requires
            old(self).wf(),
        ensures
            final(self).wf(),
            body@ == old(self)@.body,
            final(self)@ == (RequestView { body: Seq::empty(), ..old(self)@ }),
    {
        let start = self.body.start;
        let body = self.buffer.split_off(start);
        self.body = Span { start, end: start };
        proof {
            let old_buf = old(self).buffer@;
            let buf = self.buffer@;
            assert forall|i: int| 0 <= i < self.headers@.len() implies #[trigger] header_of(
                buf,
                self.headers@[i],
            ) == header_of(old_buf, self.headers@[i]) by {
                assert(self.headers@[i].name.within(start as nat));
                assert(self.headers@[i].name.of(buf) =~= self.headers@[i].name.of(old_buf));
                assert(self.headers@[i].value.of(buf) =~= self.headers@[i].value.of(old_buf));
            }
            assert forall|i: int| 0 <= i < self.headers@.len() implies valid_utf8(
                (#[trigger] self.headers@[i]).name.of(buf),
            ) by {
                assert(self.headers@[i].name.within(start as nat));
                assert(self.headers@[i].name.of(buf) =~= self.headers@[i].name.of(old_buf));
            }
            assert(self.method.of(buf) =~= self.method.of(old_buf));
            assert(self.path.of(buf) =~= self.path.of(old_buf));
            assert(self@.headers =~= old(self)@.headers);
            assert(self@.body =~= Seq::<u8>::empty());
        }
        body
    }

    /// The request method, such as `GET`.
    pub fn method(&self) -> (m: &str)
        requires
            self.wf(),
        ensures
            m.spec_bytes() == self@.method,
    {
        self.text_at(self.method)
    }

    /// The request path, such as `/index.html`.
    pub fn path(&self) -> (p: &str)
        requires
            self.wf(),
        ensures
            p.spec_bytes() == self@.path,
    {
        self.text_at(self.path)
    }

    /// The headers of the request, in the order they came.
    pub fn headers<'a>(&'a self) -> (it: HeaderIter<'a>)
        requires
            self.wf(),
        ensures
            it.wf(),
            it@ == (self@.headers, 0nat),
    {
        HeaderIter { request: self, next: 0 }
    }

    fn text_at(&self, s: Span) -> (t: &str)
        requires
            s.within(self.buffer@.len()),
            valid_utf8(s.of(self.buffer@)),
        ensures
            t.spec_bytes() == s.of(self.buffer@),
    {
        let bytes = slice_subrange(self.buffer.as_slice(), s.start, s.end);
        match utf8_text(bytes) {
            Some(t) => t,
            None => {
                proof {
                    assert(false);
                }
                ""
            },
        }
    }
}

/// Walks the headers of a request, one at a time, in the order they came.
pub struct HeaderIter<'a> {
    request: &'a Request,
    next: usize,
}

impl<'a> View for HeaderIter<'a> {
    /// The headers of the request, and how many of them were handed out.
    type V = (Seq<(Seq<u8>, Seq<u8>)>, nat);

    closed spec fn view(&self) -> (Seq<(Seq<u8>, Seq<u8>)>, nat) {
        (self.request@.headers, self.next as nat)
    }
}

impl<'a> HeaderIter<'a> {
    /// The request is well formed and no more headers were handed out than
    /// it has.
    pub closed spec fn wf(&self) -> bool {
        self.request.wf() && self.next <= self.request.headers@.len()
    }

    /// The next header, or `None` once all of them were handed out.
    pub fn next(&mut self) -> (h: Option<Header<'a>>)
        requires
            old(self).wf(),
        ensures
            final(self).wf(),
            final(self)@.0 == old(self)@.0,
            old(self)@.1 < old(self)@.0.len() ==> {
                &&& final(self)@.1 == old(self)@.1 + 1
                &&& h matches Some(h) && h.name.spec_bytes() == old(self)@.0[old(self)@.1 as int].0
                    && h.value@ == old(self)@.0[old(self)@.1 as int].1
            },
            old(self)@.1 >= old(self)@.0.len() ==> final(self)@.1 == old(self)@.1 && h is None,
    {
        let req: &'a Request = self.request;
        if self.next < req.headers.len() {
            let s = req.headers[self.next];
            proof {
                let buf = req.buffer@;
                assert(req.headers@[self.next as int] == s);
                assert(s.name.within(buf.len()));
            }
            let name = req.text_at(s.name);
            let value = slice_subrange(req.buffer.as_slice(), s.value.start, s.value.end);
            self.next = self.next + 1;
            Some(Header { name, value })
        } else {
            None
        }
    }
}

/// The outcome of parsing a buffer: a whole request, or the buffer handed
/// back because the head is not complete yet.
pub enum ParseResult {
    Complete(Request),
    Partial(Vec<u8>),
}

/// Parses the request head at the start of `buffer`.  The buffer is kept:
/// it moves into the request when the head is complete, and comes back
/// unchanged when more bytes are needed.  Bytes that break the HTTP grammar
/// give the parser's fault.
pub fn try_parse_request(buffer: Vec<u8>) -> (r: Result<ParseResult, HeadFault>)
    ensures
        match httparse_head(buffer@, MAX_HEADERS) {
            HeadScan::Complete(h) => r matches Ok(ParseResult::Complete(req)) && req.wf()
                && req@ == request_of(buffer@, h),
            HeadScan::Partial => r matches Ok(ParseResult::Partial(b)) && b@ == buffer@,
            HeadScan::Malformed(f) => r == Err::<ParseResult, HeadFault>(f),
        },
{
    match parse_head(buffer.as_slice(), MAX_HEADERS) {
        Err(e) => Err(e),
        Ok(None) => Ok(ParseResult::Partial(buffer)),
        Ok(Some(head)) => {
            let ghost h = head.layout();
            let body = Span { start: head.len, end: buffer.len() };
            let req = Request {
                method: head.method,
                path: head.path,
                headers: head.headers,
                body,
                buffer,
            };
            proof {
                assert(req.headers@ == h.headers);
                assert(req@.headers =~= request_of(req.buffer@, h).headers);
            }
            Ok(ParseResult::Complete(req))
        },
    }
}

} // verus!

use crate::error::Error;
use crate::parsing::Request;
use http::header::{HeaderName, HeaderValue};
use http::Method;
use http::Request as HttpRequest;
use http::Uri;
use vstd::prelude::*;
use vstd::string::StringSliceAdditionalSpecFns;

verus! {

#[verifier::external_type_specification]
#[verifier::external_body]
#[verifier::reject_recursive_types(T)]
pub struct ExHttpRequest<T>(HttpRequest<T>);

#[verifier::external_type_specification]
#[verifier::external_body]
pub struct ExMethod(Method);

#[verifier::external_type_specification]
#[verifier::external_body]
pub struct ExHeaderName(HeaderName);

#[verifier::external_type_specification]
#[verifier::external_body]
pub struct ExHeaderValue(HeaderValue);

#[verifier::external_type_specification]
#[verifier::external_body]
pub struct ExUri(Uri);

/// Whether the `http` crate takes `b` as a method.
pub uninterp spec fn method_accepts(b: Seq<u8>) -> bool;

/// Whether the `http` crate takes `b` as a header name.
pub uninterp spec fn header_name_accepts(b: Seq<u8>) -> bool;

/// Whether the `http` crate takes `b` as a header value: every byte is a
/// tab, or at least 32 and not 127.
pub open spec fn header_value_accepts(b: Seq<u8>) -> bool {
    forall|i: int| 0 <= i < b.len() ==> (#[trigger] b[i] >= 32 && b[i] != 127) || b[i] == 9
}

/// Whether the `http` crate parses `s` as a URI.
pub uninterp spec fn uri_accepts(s: Seq<u8>) -> bool;

/// The `http` crate refuses, by a panic, header names of this many bytes
/// or more.
pub const MAX_HEADER_NAME_LEN: usize = 65536;

/// Every header name is shorter than `MAX_HEADER_NAME_LEN`.
pub open spec fn header_names_fit(hs: Seq<(Seq<u8>, Seq<u8>)>) -> bool {
    forall|i: int| 0 <= i < hs.len() ==> (#[trigger] hs[i].0).len() < MAX_HEADER_NAME_LEN
}

/// Every header's name and value are taken by the `http` crate.
pub open spec fn headers_accepted(hs: Seq<(Seq<u8>, Seq<u8>)>) -> bool {
    forall|i: int|
        0 <= i < hs.len() ==> header_name_accepts(#[trigger] hs[i].0) && header_value_accepts(
            hs[i].1,
        )
}

/// Relies on http::Method::from_bytes: whether it accepts the bytes depends
/// on the bytes alone; its error becomes an `http::Error` by the crate's
/// own `From`.
#[verifier::external_body]
fn parse_method(b: &[u8]) -> (r: Result<Method, http::Error>)
    ensures
        r is Ok <==> method_accepts(b@),
{
    Method::from_bytes(b).map_err(http::Error::from)
}

/// Relies on http::header::HeaderName::from_bytes: whether it accepts the
/// bytes depends on the bytes alone; its error becomes an `http::Error`.
/// It asserts that a name is shorter than `MAX_HEADER_NAME_LEN` (1 << 16)
/// and panics otherwise, so longer names are left out.
#[verifier::external_body]
fn parse_header_name(b: &[u8]) -> (r: Result<HeaderName, http::Error>)
    requires
        b@.len() < MAX_HEADER_NAME_LEN,
    ensures
        r is Ok <==> header_name_accepts(b@),
{
    HeaderName::from_bytes(b).map_err(http::Error::from)
}

/// Relies on http::header::HeaderValue::from_bytes: it refuses a value with
/// a byte that `is_valid` (value.rs) rejects, and takes every other; its
/// error becomes an `http::Error`.
#[verifier::external_body]
fn parse_header_value(b: &[u8]) -> (r: Result<HeaderValue, http::Error>)
    ensures
        r is Ok <==> header_value_accepts(b@),
{
    HeaderValue::from_bytes(b).map_err(http::Error::from)
}

/// Relies on Uri's FromStr: whether it accepts the text depends on the text
/// alone.
#[verifier::external_body]
fn parse_uri(s: &str) -> (r: Result<Uri, http::uri::InvalidUri>)
    ensures
        r is Ok <==> uri_accepts(s.spec_bytes()),
{
    s.parse::<Uri>()
}

/// Relies on http::Request::new: a request with this body.
#[verifier::external_body]
fn new_request(body: Vec<u8>) -> HttpRequest<Vec<u8>> {
    HttpRequest::new(body)
}

/// Relies on http::Request::method_mut: the place of the request's method.
#[verifier::external_body]
fn set_method(r: &mut HttpRequest<Vec<u8>>, m: Method) {
    *r.method_mut() = m;
}

/// Relies on http::Request::headers_mut and HeaderMap::append: adds the
/// header after those already there.  The map panics only past 32768
/// entries; a parsed request has at most `MAX_HEADERS`.
#[verifier::external_body]
fn append_header(r: &mut HttpRequest<Vec<u8>>, name: HeaderName, value: HeaderValue) {
    r.headers_mut().append(name, value);
}

/// Relies on http::Request::uri_mut: the place of the request's URI.
#[verifier::external_body]
fn set_uri(r: &mut HttpRequest<Vec<u8>>, uri: Uri) {
    *r.uri_mut() = uri;
}

fn names_fit(req: &Request) -> (r: bool)
    requires
        req.wf(),
    ensures
        r == header_names_fit(req@.headers),
{
    let mut it = req.headers();
    loop
        invariant
            it.wf(),
            it@.0 == req@.headers,
            it@.1 <= req@.headers.len(),
            forall|j: int| 0 <= j < it@.1 ==> (#[trigger] req@.headers[j].0).len() < MAX_HEADER_NAME_LEN,
        ensures
            header_names_fit(req@.headers),
        decreases it@.0.len() - it@.1,
    {
        let ghost at = it@.1 as int;
        match it.next() {
            Some(h) => {
                if h.name.as_bytes().len() >= MAX_HEADER_NAME_LEN {
                    assert(req@.headers[at].0.len() >= MAX_HEADER_NAME_LEN);
                    return false;
                }
            },
            None => break,
        }
    }
    true
}

/// Turns a parsed request into the `http` crate's request: its body, its
/// method, its headers in order, and its path as the URI.  It succeeds
/// exactly when the `http` crate takes the method, every header name and
/// value, and the path.  A header name of `MAX_HEADER_NAME_LEN` bytes or
/// more, which the `http` crate cannot take, gives `Error::RequestTooLarge`
/// before anything else is looked at; then a rejected method or header
/// gives `Error::Http`; with those taken, a rejected path gives
/// `Error::InvalidUri`.
pub fn build_request(req: Request) -> (r: Result<HttpRequest<Vec<u8>>, Error>)
    requires
        req.wf(),
    ensures
        r is Ok <==> header_names_fit(req@.headers) && method_accepts(req@.method)
            && headers_accepted(req@.headers) && uri_accepts(req@.path),
        r matches Err(e) ==> (e is RequestTooLarge <==> !header_names_fit(req@.headers)),
        r matches Err(e) ==> (e is Http <==> header_names_fit(req@.headers) && !(method_accepts(
            req@.method,
        ) && headers_accepted(req@.headers))),
        r matches Err(e) ==> (e is RequestTooLarge || e is Http || e is InvalidUri),
{
    if !names_fit(&req) {
        return Err(Error::RequestTooLarge);
    }
    let ghost view = req@;
    let mut parsed = req;
    let body = parsed.split_body();
    let method = match parse_method(parsed.method().as_bytes()) {
        Ok(m) => m,
        Err(e) => return Err(Error::Http(e)),
    };
    let mut request = new_request(body);
    set_method(&mut request, method);
    let mut it = parsed.headers();
    loop
        invariant
            it.wf(),
            view == req@,
            header_names_fit(view.headers),
            method_accepts(view.method),
            it@.0 == view.headers,
            it@.1 <= view.headers.len(),
            forall|j: int|
                0 <= j < it@.1 ==> header_name_accepts(#[trigger] view.headers[j].0)
                    && header_value_accepts(view.headers[j].1),
        ensures
            headers_accepted(view.headers),
        decreases it@.0.len() - it@.1,
    {
        let ghost at = it@.1 as int;
        match it.next() {
            Some(h) => {
                assert(view.headers[at].0.len() < MAX_HEADER_NAME_LEN);
                let name = match parse_header_name(h.name.as_bytes()) {
                    Ok(n) => n,
                    Err(e) => {
                        assert(!header_name_accepts(view.headers[at].0));
                        return Err(Error::Http(e));
                    },
                };
                let value = match parse_header_value(h.value) {
                    Ok(v) => v,
                    Err(e) => {
                        assert(!header_value_accepts(view.headers[at].1));
                        return Err(Error::Http(e));
                    },
                };
                append_header(&mut request, name, value);
            },
            None => break,
        }
    }
    match parse_uri(parsed.path()) {
        Ok(uri) => {
            set_uri(&mut request, uri);
            Ok(request)
        },
        Err(e) => Err(Error::InvalidUri(e)),
    }
}

} // verus!

use vstd::prelude::*;
use vstd::string::StringSliceAdditionalSpecFns;
use vstd::utf8::encode_utf8;

verus! {

/// One header line of a response: its name and value bytes.
#[derive(Debug)]
pub struct HeaderLine {
    pub name: Vec<u8>,
    pub value: Vec<u8>,
}

impl View for HeaderLine {
    type V = (Seq<u8>, Seq<u8>);

    open spec fn view(&self) -> (Seq<u8>, Seq<u8>) {
        (self.name@, self.value@)
    }
}

/// The headers of a list as plain values.
pub open spec fn lines_view(hs: Seq<HeaderLine>) -> Seq<(Seq<u8>, Seq<u8>)> {
    hs.map_values(|h: HeaderLine| h@)
}

/// A broken-down UTC time, field for field as the `time` crate gives it:
/// years since 1900, months since January, days since Sunday.
#[derive(Clone, Copy, Debug, PartialEq, Eq, Structural)]
pub struct CalendarTime {
    pub sec: i32,
    pub min: i32,
    pub hour: i32,
    pub mday: i32,
    pub mon: i32,
    pub year: i32,
    pub wday: i32,
    pub yday: i32,
    pub isdst: i32,
    pub utcoff: i32,
    pub nsec: i32,
}

/// Every field lies in the range that the `time` crate documents for it.
pub open spec fn calendar_fields_in_range(t: CalendarTime) -> bool {
    &&& 0 <= t.sec <= 60
    &&& 0 <= t.min <= 59
    &&& 0 <= t.hour <= 23
    &&& 1 <= t.mday <= 31
    &&& 0 <= t.mon <= 11
    &&& 0 <= t.wday <= 6
    &&& 0 <= t.yday <= 365
    &&& 0 <= t.nsec <= 999_999_999
}

/// The fields are in range and the calendar year fits an `i32`.
pub open spec fn calendar_valid(t: CalendarTime) -> bool {
    calendar_fields_in_range(t) && t.year <= i32::MAX - 1900
}

/// The `strftime` pattern of the HTTP date format (RFC 1123, in GMT).
pub open spec fn http_date_pattern() -> Seq<char> {
    "%a, %d %b %Y %H:%M:%S GMT"@
}

/// The abbreviated English name of the day `wday` days after Sunday.
pub open spec fn day_name(wday: i32) -> Seq<char> {
    if wday == 0 {
        "Sun"@
    } else if wday == 1 {
        "Mon"@
    } else if wday == 2 {
        "Tue"@
    } else if wday == 3 {
        "Wed"@
    } else if wday == 4 {
        "Thu"@
    } else if wday == 5 {
        "Fri"@
    } else {
        "Sat"@
    }
}

/// The abbreviated English name of the month `mon` months after January.
pub open spec fn month_name(mon: i32) -> Seq<char> {
    if mon == 0 {
        "Jan"@
    } else if mon == 1 {
        "Feb"@
    } else if mon == 2 {
        "Mar"@
    } else if mon == 3 {
        "Apr"@
    } else if mon == 4 {
        "May"@
    } else if mon == 5 {
        "Jun"@
    } else if mon == 6 {
        "Jul"@
    } else if mon == 7 {
        "Aug"@
    } else if mon == 8 {
        "Sep"@
    } else if mon == 9 {
        "Oct"@
    } else if mon == 10 {
        "Nov"@
    } else {
        "Dec"@
    }
}

/// The decimal digits of `n` as text, without leading zeros.
pub open spec fn digits_text(n: nat) -> Seq<char>
    decreases n,
{
    if n < 10 {
        seq![((48 + n) as u8) as char]
    } else {
        digits_text(n / 10).push(((48 + n % 10) as u8) as char)
    }
}

/// `n` (at most 99) as two digits, with a leading zero below ten.
pub open spec fn two_digits(n: i32) -> Seq<char> {
    seq![((48 + n / 10) as u8) as char, ((48 + n % 10) as u8) as char]
}

/// A year in decimal, with a minus sign before a negative one.
pub open spec fn year_text(y: int) -> Seq<char> {
    if y < 0 {
        "-"@ + digits_text((-y) as nat)
    } else {
        digits_text(y as nat)
    }
}

/// The HTTP date of `t` as the HTTP date pattern writes it, for example
/// `Thu, 01 Jan 1970 00:00:00 GMT`.
pub open spec fn http_date_text(t: CalendarTime) -> Seq<char> {
    day_name(t.wday) + ", "@ + two_digits(t.mday) + " "@ + month_name(t.mon) + " "@ + year_text(
        t.year + 1900,
    ) + " "@ + two_digits(t.hour) + ":"@ + two_digits(t.min) + ":"@ + two_digits(t.sec)
        + " GMT"@
}

/// The reason phrase that the `http` crate gives a status code, if any.
pub uninterp spec fn reason_phrase(status: u16) -> Option<Seq<char>>;

/// Relies on time::now_utc: the current time in UTC, broken down into fields
/// that lie in the ranges the crate documents for `time::Tm`.
#[verifier::external_body]
fn now_utc() -> (t: CalendarTime)
    ensures
        calendar_fields_in_range(t),
{
    let tm = time::now_utc();
    CalendarTime {
        sec: tm.tm_sec,
        min: tm.tm_min,
        hour: tm.tm_hour,
        mday: tm.tm_mday,
        mon: tm.tm_mon,
        year: tm.tm_year,
        wday: tm.tm_wday,
        yday: tm.tm_yday,
        isdst: tm.tm_isdst,
        utcoff: tm.tm_utcoff,
        nsec: tm.tm_nsec,
    }
}

/// Relies on time::strftime: its format check accepts every specifier of the
/// HTTP date pattern once the day of the week and the month are in range.
/// For that pattern it writes (display.rs, `parse_type`) the day's and the
/// month's three-letter names, `{:02}` of the day of the month, the hour,
/// the minute and the second, and `{}` of `tm_year + 1900`.
#[verifier::external_body]
fn strftime(format: &str, t: &CalendarTime) -> (r: Option<String>)
    requires
        format@ == http_date_pattern(),
        calendar_valid(*t),
    ensures
        r is Some,
        r->0@ == http_date_text(*t),
{
    let tm = time::Tm {
        tm_sec: t.sec,
        tm_min: t.min,
        tm_hour: t.hour,
        tm_mday: t.mday,
        tm_mon: t.mon,
        tm_year: t.year,
        tm_wday: t.wday,
        tm_yday: t.yday,
        tm_isdst: t.isdst,
        tm_utcoff: t.utcoff,
        tm_nsec: t.nsec,
    };
    time::strftime(format, &tm).ok()
}

/// Relies on http::StatusCode::from_u16 and canonical_reason: the phrase
/// depends on the code alone; the table in the crate's status.rs gives
/// "OK" to 200, "Not Found" to 404, "Payload Too Large" to 413 and
/// "Internal Server Error" to 500.
#[verifier::external_body]
fn canonical_reason(status: u16) -> (r: Option<&'static str>)
    ensures
        r matches Some(p) ==> reason_phrase(status) == Some(p@),
        r is None ==> reason_phrase(status) is None,
        status == 200 ==> r is Some && r->0@ == "OK"@,
        status == 404 ==> r is Some && r->0@ == "Not Found"@,
        status == 413 ==> r is Some && r->0@ == "Payload Too Large"@,
        status == 500 ==> r is Some && r->0@ == "Internal Server Error"@,
{
    http::StatusCode::from_u16(status).ok().and_then(|s| s.canonical_reason())
}

/// ASCII letters folded to lower case; other bytes unchanged.
pub open spec fn lower(b: u8) -> u8 {
    if 65 <= b <= 90 {
        (b + 32) as u8
    } else {
        b
    }
}

/// Header names compare without regard to ASCII case.
pub open spec fn same_name(a: Seq<u8>, b: Seq<u8>) -> bool {
    a.len() == b.len() && forall|i: int| 0 <= i < a.len() ==> lower(#[trigger] a[i]) == lower(b[i])
}

/// Some header of the list has the given name.
pub open spec fn has_header(hs: Seq<(Seq<u8>, Seq<u8>)>, name: Seq<u8>) -> bool {
    exists|i: int| 0 <= i < hs.len() && same_name(#[trigger] hs[i].0, name)
}

/// The decimal digits of `n`, most significant first, without leading zeros.
pub open spec fn decimal(n: nat) -> Seq<u8>
    decreases n,
{
    if n < 10 {
        seq![(48 + n) as u8]
    } else {
        decimal(n / 10).push((48 + n % 10) as u8)
    }
}

/// `name: value` and a line break.
pub open spec fn header_line(name: Seq<u8>, value: Seq<u8>) -> Seq<u8> {
    name + ": ".spec_bytes() + value + "\r\n".spec_bytes()
}

/// All header lines of the list, in order.
pub open spec fn header_lines(hs: Seq<(Seq<u8>, Seq<u8>)>) -> Seq<u8>
    decreases hs.len(),
{
    if hs.len() == 0 {
        Seq::empty()
    } else {
        header_lines(hs.drop_last()) + header_line(hs.last().0, hs.last().1)
    }
}

/// `HTTP/1.1 <code> <reason>` and a line break.
pub open spec fn status_line(status: u16, reason: Seq<u8>) -> Seq<u8> {
    "HTTP/1.1 ".spec_bytes() + decimal(status as nat) + " ".spec_bytes() + reason
        + "\r\n".spec_bytes()
}

/// The lines a response gets unless its own headers already name them:
/// the date, `connection: close`, and the exact length of the body.
pub open spec fn added_lines(hs: Seq<(Seq<u8>, Seq<u8>)>, date: Seq<u8>, body_len: nat) -> Seq<u8> {
    (if has_header(hs, "date".spec_bytes()) {
        Seq::empty()
    } else {
        header_line("date".spec_bytes(), date)
    }) + (if has_header(hs, "connection".spec_bytes()) {
        Seq::empty()
    } else {
        "connection: close\r\n".spec_bytes()
    }) + (if has_header(hs, "content-length".spec_bytes()) {
        Seq::empty()
    } else {
        header_line("content-length".spec_bytes(), decimal(body_len))
    })
}

/// The head of a response on the wire, which the body follows: the status
/// line, the added lines, the response's own header lines in order, and a
/// blank line.
pub open spec fn response_head(
    status: u16,
    reason: Seq<u8>,
    date: Seq<u8>,
    hs: Seq<(Seq<u8>, Seq<u8>)>,
    body_len: nat,
) -> Seq<u8> {
    status_line(status, reason) + added_lines(hs, date, body_len) + header_lines(hs)
        + "\r\n".spec_bytes()
}

pub(crate) fn append_bytes(dst: &mut Vec<u8>, src: &[u8])
    ensures
        final(dst)@ == old(dst)@ + src@,
{
    let mut i: usize = 0;
    while i < src.len()
        invariant
            i <= src@.len(),
            dst@ == old(dst)@ + src@.subrange(0, i as int),
        decreases src@.len() - i,
    {
        dst.push(src[i]);
        i = i + 1;
        proof {
            assert(src@.subrange(0, i as int) =~= src@.subrange(0, i - 1) + seq![src@[i - 1]]);
        }
    }
    proof {
        assert(src@.subrange(0, src@.len() as int) =~= src@);
    }
}

fn append_text(dst: &mut Vec<u8>, s: &str)
    ensures
        final(dst)@ == old(dst)@ + s.spec_bytes(),
{
    append_bytes(dst, s.as_bytes());
}

fn append_decimal(dst: &mut Vec<u8>, n: u64)
    ensures
        final(dst)@ == old(dst)@ + decimal(n as nat),
    decreases n,
{
    if n >= 10 {
        append_decimal(dst, n / 10);
    }
    dst.push((48 + n % 10) as u8);
    proof {
        if n < 10 {
            assert(n % 10 == n);
            assert(decimal(n as nat) =~= seq![(48 + n) as u8]);
        }
    }
}

fn lower_byte(b: u8) -> (r: u8)
    ensures
        r == lower(b),
{
    if 65 <= b && b <= 90 {
        b + 32
    } else {
        b
    }
}

fn names_match(a: &[u8], b: &[u8]) -> (r: bool)
    ensures
        r == same_name(a@, b@),
{
    if a.len() != b.len() {
        return false;
    }
    let mut i: usize = 0;
    while i < a.len()
        invariant
            a@.len() == b@.len(),
            i <= a@.len(),
            forall|j: int| 0 <= j < i ==> lower(#[trigger] a@[j]) == lower(b@[j]),
        decreases a@.len() - i,
    {
        if lower_byte(a[i]) != lower_byte(b[i]) {
            return false;
        }
        i = i + 1;
    }
    true
}

fn find_header(hs: &Vec<HeaderLine>, name: &str) -> (r: bool)
    ensures
        r == has_header(lines_view(hs@), name.spec_bytes()),
{
    let key = name.as_bytes();
    let mut i: usize = 0;
    while i < hs.len()
        invariant
            i <= hs@.len(),
            key@ == name.spec_bytes(),
            forall|j: int| 0 <= j < i ==> !same_name(#[trigger] hs@[j].name@, key@),
        decreases hs@.len() - i,
    {
        if names_match(hs[i].name.as_slice(), key) {
            proof {
                assert(lines_view(hs@)[i as int].0 == hs@[i as int].name@);
            }
            return true;
        }
        i = i + 1;
    }
    proof {
        assert forall|j: int| 0 <= j < lines_view(hs@).len() implies !same_name(
            #[trigger] lines_view(hs@)[j].0,
            key@,
        ) by {
            assert(lines_view(hs@)[j].0 == hs@[j].name@);
        }
    }
    false
}

fn append_header_lines(dst: &mut Vec<u8>, hs: &Vec<HeaderLine>)
    ensures
        final(dst)@ == old(dst)@ + header_lines(lines_view(hs@)),
{
    let mut i: usize = 0;
    while i < hs.len()
        invariant
            i <= hs@.len(),
            dst@ == old(dst)@ + header_lines(lines_view(hs@.take(i as int))),
        decreases hs@.len() - i,
    {
        let line = &hs[i];
        append_bytes(dst, line.name.as_slice());
        append_text(dst, ": ");
        append_bytes(dst, line.value.as_slice());
        append_text(dst, "\r\n");
        proof {
            let next = lines_view(hs@.take(i + 1));
            assert(next.drop_last() =~= lines_view(hs@.take(i as int)));
            assert(next.last() == line@);
        }
        i = i + 1;
    }
    proof {
        assert(hs@.take(hs@.len() as int) =~= hs@);
    }
}

fn append_status_line(dst: &mut Vec<u8>, status: u16, reason: &str)
    ensures
        final(dst)@ == old(dst)@ + status_line(status, reason.spec_bytes()),
{
    append_text(dst, "HTTP/1.1 ");
    append_decimal(dst, status as u64);
    append_text(dst, " ");
    append_text(dst, reason);
    append_text(dst, "\r\n");
    proof {
        assert(dst@ =~= old(dst)@ + status_line(status, reason.spec_bytes()));
    }
}

fn append_date_line(dst: &mut Vec<u8>, date: &str)
    ensures
        final(dst)@ == old(dst)@ + header_line("date".spec_bytes(), date.spec_bytes()),
{
    append_text(dst, "date");
    append_text(dst, ": ");
    append_text(dst, date);
    append_text(dst, "\r\n");
    proof {
        assert(dst@ =~= old(dst)@ + header_line("date".spec_bytes(), date.spec_bytes()));
    }
}

fn append_length_line(dst: &mut Vec<u8>, len: usize)
    ensures
        final(dst)@ == old(dst)@ + header_line("content-length".spec_bytes(), decimal(len as nat)),
{
    append_text(dst, "content-length");
    append_text(dst, ": ");
    append_decimal(dst, len as u64);
    append_text(dst, "\r\n");
    proof {
        assert(dst@ =~= old(dst)@ + header_line("content-length".spec_bytes(), decimal(len as nat)));
    }
}

fn append_added_lines(dst: &mut Vec<u8>, headers: &Vec<HeaderLine>, date: &str, body_len: usize)
    ensures
        final(dst)@ == old(dst)@ + added_lines(lines_view(headers@), date.spec_bytes(), body_len as nat),
{
    let ghost s0 = dst@;
    let has_date = find_header(headers, "date");
    if !has_date {
        append_date_line(dst, date);
    }
    let ghost s1 = dst@;
    let has_connection = find_header(headers, "connection");
    if !has_connection {
        append_text(dst, "connection: close\r\n");
    }
    let ghost s2 = dst@;
    let has_length = find_header(headers, "content-length");
    if !has_length {
        append_length_line(dst, body_len);
    }
    proof {
        let hs = lines_view(headers@);
        let date_part = if has_date {
            Seq::<u8>::empty()
        } else {
            header_line("date".spec_bytes(), date.spec_bytes())
        };
        let conn_part = if has_connection {
            Seq::<u8>::empty()
        } else {
            "connection: close\r\n".spec_bytes()
        };
        let len_part = if has_length {
            Seq::<u8>::empty()
        } else {
            header_line("content-length".spec_bytes(), decimal(body_len as nat))
        };
        assert(s1 =~= s0 + date_part);
        assert(s2 =~= s1 + conn_part);
        assert(dst@ =~= s2 + len_part);
        assert(added_lines(hs, date.spec_bytes(), body_len as nat) == date_part + conn_part
            + len_part);
        assert(dst@ =~= s0 + added_lines(hs, date.spec_bytes(), body_len as nat));
    }
}

/// Writes the head of an HTTP/1.1 response whose body has `body_len`
/// bytes: the status line with `status` and `reason`; a `date` line with
/// `date`, `connection: close` and the `content-length`, each only where the
/// response's own headers lack that name (names compare without regard to
/// case); the response's headers in their order; and a blank line.  The
/// body goes out after it as it is.
pub fn serialize_head(
    status: u16,
    reason: &str,
    date: &str,
    headers: &Vec<HeaderLine>,
    body_len: usize,
) -> (out: Vec<u8>)
    ensures
        out@ == response_head(
            status,
            reason.spec_bytes(),
            date.spec_bytes(),
            lines_view(headers@),
            body_len as nat,
        ),
{
    let mut out: Vec<u8> = Vec::new();
    append_status_line(&mut out, status, reason);
    append_added_lines(&mut out, headers, date, body_len);
    append_header_lines(&mut out, headers);
    append_text(&mut out, "\r\n");
    proof {
        let hs = lines_view(headers@);
        assert(out@ =~= status_line(status, reason.spec_bytes()) + added_lines(
            hs,
            date.spec_bytes(),
            body_len as nat,
        ) + header_lines(hs) + "\r\n".spec_bytes());
    }
    out
}

/// The head of a response with `status`, headers `hs` and a body of
/// `body_len` bytes at time `now`: nothing when the status has no reason
/// phrase, or when a date line is owed and the year of `now` does not fit.
pub open spec fn rendered(
    status: u16,
    hs: Seq<(Seq<u8>, Seq<u8>)>,
    body_len: nat,
    now: CalendarTime,
) -> Option<Seq<u8>> {
    match reason_phrase(status) {
        None => None,
        Some(p) => if !has_header(hs, "date".spec_bytes()) && now.year > i32::MAX - 1900 {
            None
        } else {
            Some(
                response_head(
                    status,
                    encode_utf8(p),
                    encode_utf8(http_date_text(now)),
                    hs,
                    body_len,
                ),
            )
        },
    }
}

/// The current time in UTC.
pub fn current_time() -> (t: CalendarTime)
    ensures
        calendar_fields_in_range(t),
{
    now_utc()
}

/// The HTTP date text (RFC 1123, GMT) of `now`; `None` when its calendar
/// year does not fit an `i32`.
pub fn http_date(now: &CalendarTime) -> (r: Option<String>)
    requires
        calendar_fields_in_range(*now),
    ensures
        now.year <= i32::MAX - 1900 ==> (r matches Some(d) && d@ == http_date_text(*now)),
        now.year > i32::MAX - 1900 ==> r is None,
{
    if now.year > i32::MAX - 1900 {
        return None;
    }
    let pattern = "%a, %d %b %Y %H:%M:%S GMT";
    strftime(pattern, now)
}

/// Serialises the head of a response at time `now`.  The status line takes
/// the code's reason phrase, and the date line, where one is owed, the HTTP
/// date of `now`.  A status without a reason phrase gives `None`.
pub fn render_head(
    status: u16,
    headers: &Vec<HeaderLine>,
    body_len: usize,
    now: &CalendarTime,
) -> (r: Option<Vec<u8>>)
    requires
        calendar_fields_in_range(*now),
    ensures
        r matches Some(out) ==> rendered(status, lines_view(headers@), body_len as nat, *now)
            == Some(out@),
        r is None ==> rendered(status, lines_view(headers@), body_len as nat, *now) is None,
        status == 200 ==> reason_phrase(status) == Some("OK"@),
        status == 404 ==> reason_phrase(status) == Some("Not Found"@),
        status == 413 ==> reason_phrase(status) == Some("Payload Too Large"@),
        status == 500 ==> reason_phrase(status) == Some("Internal Server Error"@),
{
    let reason = match canonical_reason(status) {
        Some(p) => p,
        None => return None,
    };
    let hs = Ghost(lines_view(headers@));
    if find_header(headers, "date") {
        let out = serialize_head(status, reason, "", headers, body_len);
        proof {
            let d = encode_utf8(http_date_text(*now));
            assert(added_lines(hs@, "".spec_bytes(), body_len as nat) == added_lines(
                hs@,
                d,
                body_len as nat,
            ));
        }
        Some(out)
    } else {
        match http_date(now) {
            Some(date) => Some(serialize_head(status, reason, date.as_str(), headers, body_len)),
            None => None,
        }
    }
}

/// Serialises the head of a response with `status`, `headers` and `body`,
/// with the current time for the date line; the body goes out after it as
/// it is.  A status without a reason phrase is a programming error of the
/// caller; this function refuses it with `None` rather than panicking.  A
/// clock whose year does not fit an `i32` also gives `None` when a date
/// line is owed.
pub fn write_response(status: u16, headers: &Vec<HeaderLine>, body: &[u8]) -> (r: Option<Vec<u8>>)
    ensures
        reason_phrase(status) is None ==> r is None,
        reason_phrase(status) is Some && has_header(lines_view(headers@), "date".spec_bytes())
            ==> r is Some,
        r matches Some(out) ==> exists|now: CalendarTime|
            calendar_fields_in_range(now) && #[trigger] rendered(
                status,
                lines_view(headers@),
                body@.len(),
                now,
            ) == Some(out@),
        r is None ==> reason_phrase(status) is None || !has_header(
            lines_view(headers@),
            "date".spec_bytes(),
        ),
        r is None && reason_phrase(status) is Some ==> exists|now: CalendarTime|
            calendar_fields_in_range(now) && #[trigger] now.year > i32::MAX - 1900,
{
    let now = now_utc();
    render_head(status, headers, body.len(), &now)
}

} // verus!

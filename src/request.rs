use crate::error::Error;
use crate::parsing::{
    HeadFault, httparse_head, request_of, try_parse_request, HeadScan, ParseResult, Request, RequestView,
    MAX_HEADERS,
};
use crate::response::append_bytes;
use vstd::prelude::*;

verus! {

/// The most bytes that one read from the stream may bring.
pub const READ_CHUNK: usize = 512;

/// The ceiling on the bytes buffered for one request when the caller sets
/// none of its own.
pub const DEFAULT_MAX_REQUEST_SIZE: usize = 65536;

/// What parsing the bytes received so far gives, as plain values.
pub enum Outcome {
    Complete(RequestView),
    Partial,
    Malformed(HeadFault),
}

/// The outcome of parsing `buf` in one go.
pub open spec fn parse_outcome(buf: Seq<u8>) -> Outcome {
    match httparse_head(buf, MAX_HEADERS) {
        HeadScan::Complete(h) => Outcome::Complete(request_of(buf, h)),
        HeadScan::Partial => Outcome::Partial,
        HeadScan::Malformed(f) => Outcome::Malformed(f),
    }
}

/// Parsing depends on the bytes alone: parsing an unchanged buffer again
/// gives the same complete request, the same request for more bytes, or
/// the same rejection.
pub proof fn lemma_parse_is_repeatable(first: Seq<u8>, second: Seq<u8>)
    requires
        first == second,
    ensures
        parse_outcome(first) == parse_outcome(second),
{
}

/// Where reading a request stands, as plain values.
pub enum ReadState {
    /// More bytes are needed; these are the bytes received so far.
    Reading(Seq<u8>),
    Done(RequestView),
    Closed,
    TooLarge,
    Malformed(HeadFault),
    TimedOut,
    /// The stream failed in some other way.
    Broken,
}

/// What the reader does with a chunk that one read brought, given the bytes
/// received before it and the ceiling on their number.
pub open spec fn receive_spec(buffer: Seq<u8>, max_size: nat, chunk: Seq<u8>) -> ReadState {
    if chunk.len() == 0 {
        ReadState::Closed
    } else if buffer.len() + chunk.len() > max_size {
        ReadState::TooLarge
    } else {
        match parse_outcome(buffer + chunk) {
            Outcome::Complete(r) => ReadState::Done(r),
            Outcome::Partial => ReadState::Reading(buffer + chunk),
            Outcome::Malformed(f) => ReadState::Malformed(f),
        }
    }
}

/// How reading ends when the stream hands out `chunks` one after the other:
/// before each read a full buffer ends it with `TooLarge`, and each chunk
/// goes through `receive_spec`.  `Reading` means the chunks ran out first.
pub open spec fn run_chunks(buffer: Seq<u8>, max_size: nat, chunks: Seq<Seq<u8>>) -> ReadState
    decreases chunks.len(),
{
    if chunks.len() == 0 {
        ReadState::Reading(buffer)
    } else if buffer.len() >= max_size {
        ReadState::TooLarge
    } else {
        match receive_spec(buffer, max_size, chunks[0]) {
            ReadState::Reading(b) => run_chunks(b, max_size, chunks.drop_first()),
            other => other,
        }
    }
}

/// The state of a request reader as plain values.
pub struct ReaderView {
    pub buffer: Seq<u8>,
    pub max_size: nat,
    pub timeout_ms: Option<u64>,
}

/// Accumulates the bytes of one request from a stream, bounded in size,
/// and parses them after every read.  The stream itself is read by the
/// caller, who hands each chunk to `receive` and each stall to `on_stall`.
pub struct RequestReader {
    buffer: Vec<u8>,
    max_size: usize,
    timeout_ms: Option<u64>,
}

impl View for RequestReader {
    type V = ReaderView;

    closed spec fn view(&self) -> ReaderView {
        ReaderView {
            buffer: self.buffer@,
            max_size: self.max_size as nat,
            timeout_ms: self.timeout_ms,
        }
    }
}

/// Why the stream handed out no bytes.
#[derive(Clone, Copy, Debug, PartialEq, Eq, Structural)]
pub enum StreamFault {
    /// The read would block.
    WouldBlock,
    /// The read timed out at the transport level.
    TimedOut,
    /// Any other failure.
    Other,
}

/// What the caller does after a read that brought no bytes.
#[derive(Clone, Copy, Debug, PartialEq, Eq, Structural)]
pub enum StallAction {
    /// Read again.
    Retry,
    /// Give up: the request took longer than the timeout.
    TimedOut,
    /// Give up and report the stream's own error.
    Surface,
}

/// The result of handing the reader one chunk.
pub enum ReadStep {
    /// The head is not complete yet; read on with this reader.
    Reading(RequestReader),
    /// The request is complete.
    Done(Request),
    /// Reading ends with this error.
    Failed(Error),
}

impl ReadStep {
    /// The step as plain values.
    pub open spec fn state(&self) -> ReadState {
        match self {
            ReadStep::Reading(rd) => ReadState::Reading(rd@.buffer),
            ReadStep::Done(req) => ReadState::Done(req@),
            ReadStep::Failed(Error::ConnectionClosed) => ReadState::Closed,
            ReadStep::Failed(Error::RequestTooLarge) => ReadState::TooLarge,
            ReadStep::Failed(Error::HttpParse(f)) => ReadState::Malformed(*f),
            ReadStep::Failed(Error::Timeout) => ReadState::TimedOut,
            ReadStep::Failed(_) => ReadState::Broken,
        }
    }
}

/// A read that would block or timed out at the transport level may be
/// tried again.
pub open spec fn stall_is_transient(fault: StreamFault) -> bool {
    fault == StreamFault::WouldBlock || fault == StreamFault::TimedOut
}

/// Whether a stall after `elapsed_ms` milliseconds ends reading: only when a
/// timeout is set and the time since the first read is past it.
pub open spec fn times_out(timeout_ms: Option<u64>, elapsed_ms: u64) -> bool {
    match timeout_ms {
        Some(t) => elapsed_ms > t,
        None => false,
    }
}

impl RequestReader {
    /// The buffer never holds more than the ceiling.
    pub closed spec fn wf(&self) -> bool {
        self.buffer@.len() <= self.max_size
    }

    /// A reader with an empty buffer, a ceiling of `max_size` bytes and an
    /// optional timeout in milliseconds.
    pub fn new(max_size: usize, timeout_ms: Option<u64>) -> (r: RequestReader)
        ensures
            r.wf(),
            r@ == (ReaderView { buffer: Seq::empty(), max_size: max_size as nat, timeout_ms }),
    {
        RequestReader { buffer: Vec::new(), max_size, timeout_ms }
    }

    /// How many bytes the next read may bring: up to a chunk, and never past
    /// the ceiling.  A full buffer ends reading with `RequestTooLarge`.
    pub fn next_read_len(&self) -> (r: Result<usize, Error>)
        requires
            self.wf(),
        ensures
            self@.buffer.len() >= self@.max_size ==> r matches Err(Error::RequestTooLarge),
            self@.buffer.len() < self@.max_size ==> (r matches Ok(n) && 0 < n && n <= READ_CHUNK
                && self@.buffer.len() + n <= self@.max_size && (n == READ_CHUNK || self@.buffer.len()
                + n == self@.max_size)),
    {
        let room = self.max_size - self.buffer.len();
        if room == 0 {
            Err(Error::RequestTooLarge)
        } else if room < READ_CHUNK {
            Ok(room)
        } else {
            Ok(READ_CHUNK)
        }
    }

    /// Hands the reader the bytes that one read brought.  An empty chunk
    /// means the peer closed the connection; a chunk that would take the
    /// buffer past its ceiling ends reading with `RequestTooLarge`.
    /// Otherwise the whole buffer is parsed again.
    pub fn receive(self, chunk: &[u8]) -> (r: ReadStep)
        requires
            self.wf(),
        ensures
            r.state() == receive_spec(self@.buffer, self@.max_size, chunk@),
            r matches ReadStep::Reading(rd) ==> (rd.wf() && rd@.max_size == self@.max_size
                && rd@.timeout_ms == self@.timeout_ms),
            r matches ReadStep::Done(req) ==> req.wf(),
    {
        if chunk.len() == 0 {
            return ReadStep::Failed(Error::ConnectionClosed);
        }
        if chunk.len() > self.max_size - self.buffer.len() {
            return ReadStep::Failed(Error::RequestTooLarge);
        }
        let RequestReader { mut buffer, max_size, timeout_ms } = self;
        append_bytes(&mut buffer, chunk);
        match try_parse_request(buffer) {
            Ok(ParseResult::Complete(req)) => ReadStep::Done(req),
            Ok(ParseResult::Partial(rest)) => ReadStep::Reading(
                RequestReader { buffer: rest, max_size, timeout_ms },
            ),
            Err(e) => ReadStep::Failed(Error::HttpParse(e)),
        }
    }

    /// Checks the deadline after a read that brought bytes but left the head
    /// incomplete, `elapsed_ms` milliseconds after reading began: reading ends
    /// with `Timeout` once the timeout, if one is set, has passed, however
    /// steadily the peer sends.
    pub fn check_deadline(&self, elapsed_ms: u64) -> (r: Result<(), Error>)
        ensures
            times_out(self@.timeout_ms, elapsed_ms) ==> r matches Err(Error::Timeout),
            !times_out(self@.timeout_ms, elapsed_ms) ==> r is Ok,
    {
        match self.timeout_ms {
            Some(t) if elapsed_ms > t => Err(Error::Timeout),
            _ => Ok(()),
        }
    }

    /// Decides what follows a read that brought no bytes, `elapsed_ms`
    /// milliseconds after reading began.  A read that would block or timed
    /// out is retried until the timeout, if one is set, has passed; any
    /// other failure is reported as it is.
    pub fn on_stall(&self, fault: StreamFault, elapsed_ms: u64) -> (a: StallAction)
        ensures
            !stall_is_transient(fault) ==> a == StallAction::Surface,
            stall_is_transient(fault) && times_out(self@.timeout_ms, elapsed_ms) ==> a
                == StallAction::TimedOut,
            stall_is_transient(fault) && !times_out(self@.timeout_ms, elapsed_ms) ==> a
                == StallAction::Retry,
    {
        match fault {
            StreamFault::WouldBlock | StreamFault::TimedOut => match self.timeout_ms {
                Some(t) if elapsed_ms > t => StallAction::TimedOut,
                _ => StallAction::Retry,
            },
            _ => StallAction::Surface,
        }
    }
}

/// Turns a duration given as whole seconds and leftover nanoseconds into
/// whole milliseconds, saturating at `u64::MAX`.
pub fn duration_to_milliseconds(secs: u64, subsec_nanos: u32) -> (ms: u64)
    ensures
        secs * 1000 + subsec_nanos / 1_000_000 <= u64::MAX ==> ms == secs * 1000 + subsec_nanos
            / 1_000_000,
        secs * 1000 + subsec_nanos / 1_000_000 > u64::MAX ==> ms == u64::MAX,
{
    let part = (subsec_nanos / 1_000_000) as u64;
    if secs > (u64::MAX - part) / 1000 {
        proof {
            let q = (u64::MAX - part) / 1000;
            assert(secs >= q + 1);
            assert((u64::MAX - part) < (q + 1) * 1000) by (nonlinear_arith)
                requires
                    q == (u64::MAX - part) / 1000,
            ;
            assert(secs * 1000 >= (q + 1) * 1000) by (nonlinear_arith)
                requires
                    secs >= q + 1,
            ;
        }
        u64::MAX
    } else {
        proof {
            let q = (u64::MAX - part) / 1000;
            assert(q * 1000 <= u64::MAX - part) by (nonlinear_arith)
                requires
                    q == (u64::MAX - part) / 1000,
                    part <= u64::MAX,
            ;
            assert(secs * 1000 <= q * 1000) by (nonlinear_arith)
                requires
                    secs <= q,
            ;
        }
        secs * 1000 + part
    }
}

/// The chunks after the first, concatenated, follow the first chunk.
proof fn lemma_flatten_first(chunks: Seq<Seq<u8>>, k: int)
    requires
        0 <= k < chunks.len(),
    ensures
        chunks.take(k + 1).flatten() == chunks[0] + chunks.drop_first().take(k).flatten(),
{
    let longer = chunks.take(k + 1);
    assert(longer[0] == chunks[0]);
    assert(longer.drop_first() =~= chunks.drop_first().take(k));
}

proof fn lemma_run_in_one_piece(buffer: Seq<u8>, max_size: nat, chunks: Seq<Seq<u8>>)
    requires
        chunks.len() > 0,
        forall|i: int| 0 <= i < chunks.len() ==> (#[trigger] chunks[i]).len() > 0,
        buffer.len() + chunks.flatten().len() <= max_size,
        forall|k: int|
            1 <= k < chunks.len() ==> parse_outcome(buffer + #[trigger] chunks.take(k).flatten())
                is Partial,
    ensures
        run_chunks(buffer, max_size, chunks) == receive_spec(buffer, max_size, chunks.flatten()),
    decreases chunks.len(),
{
    let first = chunks[0];
    let rest = chunks.drop_first();
    assert(chunks.flatten() == first + rest.flatten());
    assert(buffer.len() < max_size);
    if chunks.len() == 1 {
        assert(rest.flatten() =~= Seq::<u8>::empty());
        assert(chunks.flatten() =~= first);
    } else {
        lemma_flatten_first(chunks, 0);
        assert(chunks.take(1).flatten() == first) by {
            assert(rest.take(0).flatten() =~= Seq::<u8>::empty());
            assert(first + Seq::<u8>::empty() =~= first);
        }
        assert(parse_outcome(buffer + chunks.take(1).flatten()) is Partial);
        let next = buffer + first;
        assert(receive_spec(buffer, max_size, first) == ReadState::Reading(next));
        assert(rest[0] == chunks[1]);
        assert(rest.flatten() == rest[0] + rest.drop_first().flatten());
        assert forall|i: int| 0 <= i < rest.len() implies (#[trigger] rest[i]).len() > 0 by {
            assert(rest[i] == chunks[i + 1]);
        }
        assert forall|k: int| 1 <= k < rest.len() implies parse_outcome(
            next + #[trigger] rest.take(k).flatten(),
        ) is Partial by {
            lemma_flatten_first(chunks, k);
            assert(next + rest.take(k).flatten() =~= buffer + chunks.take(k + 1).flatten());
        }
        lemma_run_in_one_piece(next, max_size, rest);
        assert(next + rest.flatten() =~= buffer + chunks.flatten());
    }
}

/// However a request is cut into chunks, reading them one after the other
/// gives what reading all of its bytes at once gives, as long as the parser
/// asks for more bytes at each cut (a cut after a complete head would leave
/// later bytes out of the body).
pub proof fn lemma_chunking_preserves_request(max_size: nat, chunks: Seq<Seq<u8>>)
    requires
        chunks.len() > 0,
        forall|i: int| 0 <= i < chunks.len() ==> (#[trigger] chunks[i]).len() > 0,
        chunks.flatten().len() <= max_size,
        forall|k: int| 1 <= k < chunks.len() ==> parse_outcome(#[trigger] chunks.take(k).flatten()) is Partial,
    ensures
        run_chunks(Seq::empty(), max_size, chunks) == run_chunks(
            Seq::empty(),
            max_size,
            seq![chunks.flatten()],
        ),
{
    assert forall|k: int| 1 <= k < chunks.len() implies parse_outcome(
        Seq::<u8>::empty() + #[trigger] chunks.take(k).flatten(),
    ) is Partial by {
        assert(Seq::<u8>::empty() + chunks.take(k).flatten() =~= chunks.take(k).flatten());
    }
    lemma_run_in_one_piece(Seq::empty(), max_size, chunks);
    let whole = seq![chunks.flatten()];
    assert(whole.flatten() =~= chunks.flatten()) by {
        assert(whole.drop_first().flatten() =~= Seq::<u8>::empty());
    }
    lemma_run_in_one_piece(Seq::empty(), max_size, whole);
}

proof fn lemma_run_overflows(buffer: Seq<u8>, max_size: nat, chunks: Seq<Seq<u8>>)
    requires
        buffer.len() <= max_size,
        forall|i: int| 0 <= i < chunks.len() ==> (#[trigger] chunks[i]).len() > 0,
        buffer.len() + chunks.flatten().len() > max_size,
        forall|k: int|
            1 <= k <= chunks.len() && buffer.len() + (#[trigger] chunks.take(k).flatten()).len()
                <= max_size ==> parse_outcome(buffer + chunks.take(k).flatten()) is Partial,
    ensures
        run_chunks(buffer, max_size, chunks) == ReadState::TooLarge,
    decreases chunks.len(),
{
    if chunks.len() == 0 {
        assert(chunks.flatten() =~= Seq::<u8>::empty());
    } else if buffer.len() >= max_size {
    } else {
        let first = chunks[0];
        let rest = chunks.drop_first();
        assert(chunks.flatten() == first + rest.flatten());
        if buffer.len() + first.len() <= max_size {
            lemma_flatten_first(chunks, 0);
            assert(chunks.take(1).flatten() == first) by {
                assert(rest.take(0).flatten() =~= Seq::<u8>::empty());
                assert(first + Seq::<u8>::empty() =~= first);
            }
            let next = buffer + first;
            assert(receive_spec(buffer, max_size, first) == ReadState::Reading(next));
            assert forall|i: int| 0 <= i < rest.len() implies (#[trigger] rest[i]).len() > 0 by {
                assert(rest[i] == chunks[i + 1]);
            }
            assert forall|k: int|
                1 <= k <= rest.len() && next.len() + (#[trigger] rest.take(k).flatten()).len()
                    <= max_size implies parse_outcome(next + rest.take(k).flatten()) is Partial by {
                lemma_flatten_first(chunks, k);
                assert(next + rest.take(k).flatten() =~= buffer + chunks.take(k + 1).flatten());
            }
            lemma_run_overflows(next, max_size, rest);
        }
    }
}

/// A stream that keeps the head incomplete while sending more bytes than the
/// ceiling ends with `TooLarge`, however its bytes are cut into reads.
pub proof fn lemma_oversized_request_rejected(max_size: nat, chunks: Seq<Seq<u8>>)
    requires
        forall|i: int| 0 <= i < chunks.len() ==> (#[trigger] chunks[i]).len() > 0,
        chunks.flatten().len() > max_size,
        forall|k: int|
            1 <= k <= chunks.len() && (#[trigger] chunks.take(k).flatten()).len() <= max_size
                ==> parse_outcome(chunks.take(k).flatten()) is Partial,
    ensures
        run_chunks(Seq::empty(), max_size, chunks) == ReadState::TooLarge,
{
    assert forall|k: int|
        1 <= k <= chunks.len() && Seq::<u8>::empty().len() + (#[trigger] chunks.take(
            k,
        ).flatten()).len() <= max_size implies parse_outcome(
        Seq::<u8>::empty() + chunks.take(k).flatten(),
    ) is Partial by {
        assert(Seq::<u8>::empty() + chunks.take(k).flatten() =~= chunks.take(k).flatten());
    }
    lemma_run_overflows(Seq::empty(), max_size, chunks);
}

} // verus!

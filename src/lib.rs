//! A small blocking HTTP/1.1 server library.
//!
//! The library reads a request head from a bounded buffer, parses it without
//! copying the method, path or headers, decides how a connection is answered
//! (static file, handler, or a fixed error page), and serialises the response.
//! The socket loop, the file system and the worker pool stay with the caller.

mod connection;
mod conversion;
mod error;
mod parsing;
mod request;
mod response;

pub use connection::{
    choose_answer, page_after_handler, Answer,
    after_read_failure, all_digits, choose_pool_size, digits_value, escapes,
    lemma_parent_traversal_rejected, parent_at, parsed_u32, pool_size, pool_size_spec,
    relative_path, render_error_page, error_page_bytes, write_file_response, setting_text, static_route, write_error_page, ErrorPage,
    ReadFailureAction, StaticRoute,
};
pub use conversion::{
    build_request, header_name_accepts, header_names_fit, MAX_HEADER_NAME_LEN, header_value_accepts, headers_accepted, method_accepts,
    uri_accepts,
};
pub use error::Error;
pub use parsing::{
    header_of, httparse_head, layout_fits, request_of, try_parse_request, Header, HeaderIter,
    HeaderSpan, HeadFault, HeadLayout, HeadScan, ParseResult, Request, RequestView, Span, MAX_HEADERS,
};
pub use request::{
    duration_to_milliseconds, lemma_chunking_preserves_request, lemma_oversized_request_rejected,
    lemma_parse_is_repeatable, parse_outcome, receive_spec, run_chunks, stall_is_transient,
    times_out, Outcome, ReadState, ReadStep, ReaderView, RequestReader, StallAction, StreamFault,
    DEFAULT_MAX_REQUEST_SIZE, READ_CHUNK,
};
pub use response::{
    added_lines, calendar_fields_in_range, calendar_valid, current_time, decimal, has_header,
    header_line, header_lines, http_date, http_date_pattern, lines_view, lower,
    reason_phrase, render_head, rendered, response_head, same_name, serialize_head,
    status_line, http_date_text, day_name, month_name, two_digits, year_text, digits_text,
    write_response, CalendarTime, HeaderLine,
};

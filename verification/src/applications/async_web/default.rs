//! Ready-made responses and status lines.
use vstd::prelude::*;
use vstd::utf8::{encode_utf8, is_ascii_chars_encode_utf8};
use crate::number::decimal;

verus! {

pub const OK: &'static str = "HTTP/1.1 200 OK\r\n";

pub const CREATED: &'static str = "HTTP/1.1 201 Created\r\n";

pub const NO_CONTENT: &'static str = "HTTP/1.1 204 No Content\r\n";

pub const MOVED_PERMANENTLY: &'static str = "HTTP/1.1 301 Moved Permanently\r\n";

pub const FOUND: &'static str = "HTTP/1.1 302 Found\r\n";

pub const NOT_MODIFIED: &'static str = "HTTP/1.1 304 Not Modified\r\n";

/// The whole response to a request that cannot be understood.
pub const BAD_REQUEST: &'static str =
    "HTTP/1.1 400 Bad Request\r\nContent-Length: 11\r\nContent-Type: text/plain\r\n\r\nBad Request";

pub const UNAUTHORIZED: &'static str = "HTTP/1.1 401 Unauthorized\r\n";

pub const FORBIDDEN: &'static str = "HTTP/1.1 403 Forbidden\r\n";

/// The whole response to a request without a handler.
pub const NOT_FOUND: &'static str =
    "HTTP/1.1 404 Not Found\r\nContent-Length: 9\r\nContent-Type: text/plain\r\n\r\nNot Found";

pub const METHOD_NOT_ALLOWED: &'static str = "HTTP/1.1 405 Method Not Allowed\r\n";

pub const REQUEST_TIMEOUT: &'static str = "HTTP/1.1 408 Request Timeout\r\n";

pub const CONFLICT: &'static str = "HTTP/1.1 409 Conflict\r\n";

pub const PAYLOAD_TOO_LARGE: &'static str = "HTTP/1.1 413 Payload Too Large\r\n";

pub const UNSUPPORTED_MEDIA_TYPE: &'static str = "HTTP/1.1 415 Unsupported Media Type\r\n";

pub const TOO_MANY_REQUESTS: &'static str = "HTTP/1.1 429 Too Many Requests\r\n";

/// The whole response to a request on which a filter has failed.
pub const INTERNAL_SERVER_ERROR: &'static str =
    "HTTP/1.1 500 Internal Server Error\r\nContent-Length: 21\r\nContent-Type: text/plain\r\n\r\nInternal Server Error";

pub const NOT_IMPLEMENTED: &'static str = "HTTP/1.1 501 Not Implemented\r\n";

pub const BAD_GATEWAY: &'static str = "HTTP/1.1 502 Bad Gateway\r\n";

pub const SERVICE_UNAVAILABLE: &'static str = "HTTP/1.1 503 Service Unavailable\r\n";

pub const GATEWAY_TIMEOUT: &'static str = "HTTP/1.1 504 Gateway Timeout\r\n";

/// Whether `message` is a response with the status line `status`, with a body of plain text
/// and with a header that declares the length of that body in bytes.
pub open spec fn framed(message: Seq<char>, status: Seq<char>, body: Seq<char>) -> bool {
    message == status + "Content-Length: "@ + decimal(encode_utf8(body).len())
        + "\r\nContent-Type: text/plain\r\n\r\n"@ + body
}

/// The ready-made responses that have a body declare its length.
pub proof fn law_ready_made_responses_are_framed()
    ensures
        framed(BAD_REQUEST@, "HTTP/1.1 400 Bad Request\r\n"@, "Bad Request"@),
        framed(NOT_FOUND@, "HTTP/1.1 404 Not Found\r\n"@, "Not Found"@),
        framed(
            INTERNAL_SERVER_ERROR@,
            "HTTP/1.1 500 Internal Server Error\r\n"@,
            "Internal Server Error"@,
        ),
{
    reveal_with_fuel(decimal, 3);
    reveal_strlit("Content-Length: ");
    reveal_strlit("\r\nContent-Type: text/plain\r\n\r\n");
    reveal_strlit("Bad Request");
    reveal_strlit("HTTP/1.1 400 Bad Request\r\n");
    reveal_strlit("HTTP/1.1 400 Bad Request\r\nContent-Length: 11\r\nContent-Type: text/plain\r\n\r\nBad Request");
    is_ascii_chars_encode_utf8("Bad Request"@);
    assert(decimal(11) =~= seq!['1', '1']);
    assert(BAD_REQUEST@ =~= "HTTP/1.1 400 Bad Request\r\n"@ + "Content-Length: "@ + decimal(11)
        + "\r\nContent-Type: text/plain\r\n\r\n"@ + "Bad Request"@);
    reveal_strlit("Not Found");
    reveal_strlit("HTTP/1.1 404 Not Found\r\n");
    reveal_strlit("HTTP/1.1 404 Not Found\r\nContent-Length: 9\r\nContent-Type: text/plain\r\n\r\nNot Found");
    is_ascii_chars_encode_utf8("Not Found"@);
    assert(decimal(9) =~= seq!['9']);
    assert(NOT_FOUND@ =~= "HTTP/1.1 404 Not Found\r\n"@ + "Content-Length: "@ + decimal(9)
        + "\r\nContent-Type: text/plain\r\n\r\n"@ + "Not Found"@);
    reveal_strlit("Internal Server Error");
    reveal_strlit("HTTP/1.1 500 Internal Server Error\r\n");
    reveal_strlit("HTTP/1.1 500 Internal Server Error\r\nContent-Length: 21\r\nContent-Type: text/plain\r\n\r\nInternal Server Error");
    is_ascii_chars_encode_utf8("Internal Server Error"@);
    assert(decimal(21) =~= seq!['2', '1']);
    assert(INTERNAL_SERVER_ERROR@ =~= "HTTP/1.1 500 Internal Server Error\r\n"@
        + "Content-Length: "@ + decimal(21) + "\r\nContent-Type: text/plain\r\n\r\n"@
        + "Internal Server Error"@);
}

} // verus!

//! The request/response dialect: parsing a request head, locating the body,
//! routing the request, writing into the pixel channel, and framing the wire
//! response with permissive CORS headers and a computed `Content-Length`.

use vstd::prelude::*;

use crate::byteseq::{
    append_bytes, bytes_eq_ignore_case, dec_digits, eq_ignore_case, parse_dec_capped,
    parse_decimal_capped, push_decimal, trim, trim_bytes,
};
use crate::canvas::coords_in_range;
use crate::channel::{spec_channel_write, PixelChannel};
use crate::command::{CLEAR_BYTE_STATE, CLEAR_BYTE_X, CLEAR_BYTE_Y};
use crate::json::{parse_pixel_body, spec_parse_pixel_body};
use vstd::string::StringSliceAdditionalSpecFns;

verus! {

/// Largest `Content-Length` the engine entertains; anything larger can never
/// fit the fixed read buffer and the connection is abandoned instead.
pub const MAX_BODY_LENGTH: u32 = 65535;

/// The header list as pure byte sequences.
pub open spec fn headers_view(hs: Seq<(Vec<u8>, Vec<u8>)>) -> Seq<(Seq<u8>, Seq<u8>)> {
    Seq::new(hs.len(), |i: int| (hs[i].0@, hs[i].1@))
}

/// The fields of a complete request head: method, path, headers, and the
/// head's byte length.
pub type SpecHead = (Seq<char>, Seq<char>, Seq<(Seq<u8>, Seq<u8>)>, int);

/// What the request-head parser makes of a byte prefix: a function of the
/// bytes alone. `None` while the bytes hold only a prefix of a head (read
/// more); `Some(None)` for bytes that are not a well-formed head; and
/// `Some(Some(h))` for a complete head `h`.
pub uninterp spec fn head_parse_of(b: Seq<u8>) -> Option<Option<SpecHead>>;

/// The bytes hold only a prefix of a request head so far.
pub open spec fn head_is_partial(b: Seq<u8>) -> bool {
    head_parse_of(b) is None
}

/// The bytes are not a well-formed request head.
pub open spec fn head_is_malformed(b: Seq<u8>) -> bool {
    match head_parse_of(b) {
        Some(h) => h is None,
        None => false,
    }
}

/// The bytes start with a complete request head.
pub open spec fn head_is_complete(b: Seq<u8>) -> bool {
    match head_parse_of(b) {
        Some(h) => h is Some,
        None => false,
    }
}

/// The fields of the complete head at the front of the bytes.
pub open spec fn head_fields(b: Seq<u8>) -> SpecHead
    recommends
        head_is_complete(b),
{
    match head_parse_of(b) {
        Some(Some(h)) => h,
        _ => (Seq::empty(), Seq::empty(), Seq::empty(), 0),
    }
}

/// A parsed request head.
pub enum HeadParse {
    /// The buffer starts with a complete request head of `head_len` bytes;
    /// the body, if any, follows it.
    Complete { method: String, path: String, headers: Vec<(Vec<u8>, Vec<u8>)>, head_len: usize },
    /// The buffer holds only a prefix of a request head: read more bytes.
    Partial,
    /// The buffer is not a well-formed request head.
    Malformed,
}

/// Relies on `httparse::Request::parse`: it recognises whether the buffer
/// starts with a complete HTTP/1.x request head, and if so reports the
/// method, the target path, the headers and the head's byte length. The
/// parse is a function of the bytes alone, so the result is pinned to the
/// name `head_parse_of`.
#[verifier::external_body]
pub fn parse_request_head(buf: &[u8]) -> (r: HeadParse)
    ensures
        (r is Partial) == head_is_partial(buf@),
        (r is Malformed) == head_is_malformed(buf@),
        r matches HeadParse::Complete { method, path, headers, head_len } ==> head_len
            <= buf@.len() && head_parse_of(buf@) == Some(
            Some((method@, path@, headers_view(headers@), head_len as int)),
        ),
{
    let mut slots = [httparse::EMPTY_HEADER; 16];
    let mut req = httparse::Request::new(&mut slots);
    match req.parse(buf) {
        Ok(httparse::Status::Complete(n)) => HeadParse::Complete {
            method: req.method.unwrap_or("").to_string(),
            path: req.path.unwrap_or("").to_string(),
            headers: req.headers.iter().map(|h| (h.name.as_bytes().to_vec(), h.value.to_vec())).collect(),
            head_len: n,
        },
        Ok(httparse::Status::Partial) => HeadParse::Partial,
        Err(_) => HeadParse::Malformed,
    }
}

/// Value of the first header with the given ASCII-case-insensitive name.
pub open spec fn header_value(hs: Seq<(Seq<u8>, Seq<u8>)>, name: Seq<u8>) -> Option<Seq<u8>>
    decreases hs.len(),
{
    if hs.len() == 0 {
        None
    } else if eq_ignore_case(hs[0].0, name) {
        Some(hs[0].1)
    } else {
        header_value(hs.drop_first(), name)
    }
}

/// The body length a request head announces: its `Content-Length` value,
/// taken as 0 when the header is absent or not a plain bounded decimal.
pub open spec fn spec_content_length(hs: Seq<(Seq<u8>, Seq<u8>)>) -> int {
    match header_value(hs, "content-length".spec_bytes()) {
        Some(v) => match parse_dec_capped(trim(v), MAX_BODY_LENGTH as nat) {
            Some(n) => n as int,
            None => 0,
        },
        None => 0,
    }
}

/// Read the announced body length out of the headers, as
/// `spec_content_length` describes it.
pub fn content_length(headers: &Vec<(Vec<u8>, Vec<u8>)>) -> (n: usize)
    ensures
        n == spec_content_length(headers_view(headers@)),
        n <= MAX_BODY_LENGTH,
{
    let ghost hv = headers_view(headers@);
    let name = "content-length".as_bytes();
    let mut i: usize = 0;
    proof {
        assert(hv.subrange(0, hv.len() as int) =~= hv);
    }
    while i < headers.len()
        invariant
            i <= headers@.len(),
            hv == headers_view(headers@),
            header_value(hv, name@) == header_value(
                hv.subrange(i as int, hv.len() as int),
                name@,
            ),
            name@ == "content-length".spec_bytes(),
        decreases headers@.len() - i,
    {
        proof {
            assert(hv.subrange(i as int, hv.len() as int)[0] == hv[i as int]);
            assert(hv[i as int] == (headers@[i as int].0@, headers@[i as int].1@));
        }
        if bytes_eq_ignore_case(headers[i].0.as_slice(), name) {
            let v = trim_bytes(headers[i].1.as_slice());
            match parse_decimal_capped(v.as_slice(), MAX_BODY_LENGTH) {
                Some(n) => {
                    return n as usize;
                }
                None => {
                    return 0;
                }
            }
        }
        proof {
            assert(hv.subrange(i as int, hv.len() as int).drop_first() =~= hv.subrange(
                i + 1,
                hv.len() as int,
            ));
        }
        i = i + 1;
    }
    0
}

/// Status line of a wire response.
#[derive(PartialEq, Eq, Structural, Clone, Copy, Debug)]
pub enum HttpStatus {
    /// `200 OK`.
    Ok200,
    /// `400 Bad Request`.
    BadRequest400,
    /// `404 Not Found`.
    NotFound404,
}

/// The status line bytes of a response.
pub open spec fn status_text(s: HttpStatus) -> Seq<u8> {
    match s {
        HttpStatus::Ok200 => "HTTP/1.1 200 OK\r\n".spec_bytes(),
        HttpStatus::BadRequest400 => "HTTP/1.1 400 Bad Request\r\n".spec_bytes(),
        HttpStatus::NotFound404 => "HTTP/1.1 404 Not Found\r\n".spec_bytes(),
    }
}

/// The fixed header template every response carries: permissive CORS fields,
/// ending in the `Content-Length` header name awaiting its decimal value.
pub open spec fn header_block() -> Seq<u8> {
    "Access-Control-Allow-Origin: *\r\nAccess-Control-Allow-Methods: GET, POST, OPTIONS\r\nAccess-Control-Allow-Headers: Content-Type\r\nContent-Length: ".spec_bytes()
}

/// A complete wire response: status line, fixed headers, the decimal byte
/// length of the body without leading zeros, a blank line, then the body.
pub open spec fn response_bytes(s: HttpStatus, body: Seq<u8>) -> Seq<u8> {
    status_text(s) + header_block() + dec_digits(body.len()) + "\r\n\r\n".spec_bytes() + body
}

/// Frame one wire response around `body`.
pub fn build_response(status: HttpStatus, body: &[u8]) -> (r: Vec<u8>)
    ensures
        r@ == response_bytes(status, body@),
{
    let mut out: Vec<u8> = Vec::new();
    match status {
        HttpStatus::Ok200 => append_bytes(&mut out, "HTTP/1.1 200 OK\r\n".as_bytes()),
        HttpStatus::BadRequest400 => append_bytes(&mut out, "HTTP/1.1 400 Bad Request\r\n".as_bytes()),
        HttpStatus::NotFound404 => append_bytes(&mut out, "HTTP/1.1 404 Not Found\r\n".as_bytes()),
    }
    append_bytes(
        &mut out,
        "Access-Control-Allow-Origin: *\r\nAccess-Control-Allow-Methods: GET, POST, OPTIONS\r\nAccess-Control-Allow-Headers: Content-Type\r\nContent-Length: ".as_bytes(),
    );
    push_decimal(&mut out, body.len() as u64);
    append_bytes(&mut out, "\r\n\r\n".as_bytes());
    append_bytes(&mut out, body);
    out
}

/// Response body of a successful pixel write.
pub open spec fn ok_body() -> Seq<u8> {
    "OK".spec_bytes()
}

/// Response body of a rejected pixel write.
pub open spec fn bad_request_body() -> Seq<u8> {
    "Bad Request".spec_bytes()
}

/// Response body of a full-canvas clear.
pub open spec fn cleared_body() -> Seq<u8> {
    "Cleared".spec_bytes()
}

/// Plain-text readiness banner of the root route.
pub open spec fn banner_body() -> Seq<u8> {
    "Doodle canvas ready".spec_bytes()
}

/// Response body of an unrecognised route.
pub open spec fn not_found_body() -> Seq<u8> {
    "Not Found".spec_bytes()
}

/// The wire response of one routed request.
pub open spec fn route_response(method: Seq<char>, path: Seq<char>, body: Seq<u8>) -> Seq<u8> {
    if method == "OPTIONS"@ {
        response_bytes(HttpStatus::Ok200, Seq::<u8>::empty())
    } else if method == "POST"@ && path == "/pixel"@ {
        match spec_parse_pixel_body(body) {
            Some((x, y, state)) => if coords_in_range(x, y) {
                response_bytes(HttpStatus::Ok200, ok_body())
            } else {
                response_bytes(HttpStatus::BadRequest400, bad_request_body())
            },
            None => response_bytes(HttpStatus::BadRequest400, bad_request_body()),
        }
    } else if method == "POST"@ && path == "/clear"@ {
        response_bytes(HttpStatus::Ok200, cleared_body())
    } else if method == "GET"@ && path == "/"@ {
        response_bytes(HttpStatus::Ok200, banner_body())
    } else {
        response_bytes(HttpStatus::NotFound404, not_found_body())
    }
}

/// The channel effect of one routed request: an accepted `POST /pixel` writes
/// its record, `POST /clear` writes the clear sentinel, everything else
/// leaves the channel alone.
pub open spec fn route_channel(
    method: Seq<char>,
    path: Seq<char>,
    body: Seq<u8>,
    q: Seq<(u8, u8, u8)>,
) -> Seq<(u8, u8, u8)> {
    if method == "POST"@ && path == "/pixel"@ {
        match spec_parse_pixel_body(body) {
            Some((x, y, state)) => if coords_in_range(x, y) {
                spec_channel_write(q, (x, y, if state { 1 as u8 } else { 0 as u8 }))
            } else {
                q
            },
            None => q,
        }
    } else if method == "POST"@ && path == "/clear"@ {
        spec_channel_write(q, (CLEAR_BYTE_X, CLEAR_BYTE_Y, CLEAR_BYTE_STATE))
    } else {
        q
    }
}

/// Handle one request of the request/response dialect: decide the route from
/// method and path, push the pixel or clear command for the accepted routes,
/// and produce exactly one wire response. A malformed or out-of-range pixel
/// body yields `400` and no channel write; every request gets a response.
pub fn route_request(method: &String, path: &String, body: &[u8], chan: &mut PixelChannel) -> (resp:
    Vec<u8>)
    requires
        old(chan).wf(),
    ensures
        final(chan).wf(),
        resp@ == route_response(method@, path@, body@),
        final(chan)@ == route_channel(method@, path@, body@, old(chan)@),
{
    proof {
        reveal_strlit("OPTIONS");
        reveal_strlit("POST");
        reveal_strlit("GET");
        reveal_strlit("/pixel");
        reveal_strlit("/clear");
        reveal_strlit("/");
    }
    let options_m = <String as vstd::string::StringExecFns>::from_str("OPTIONS");
    let post_m = <String as vstd::string::StringExecFns>::from_str("POST");
    let get_m = <String as vstd::string::StringExecFns>::from_str("GET");
    let pixel_p = <String as vstd::string::StringExecFns>::from_str("/pixel");
    let clear_p = <String as vstd::string::StringExecFns>::from_str("/clear");
    let root_p = <String as vstd::string::StringExecFns>::from_str("/");

    if method.eq(&options_m) {
        proof {
            assert("OPTIONS"@.len() == 7);
            assert("POST"@.len() == 4);
        }
        let empty: Vec<u8> = Vec::new();
        build_response(HttpStatus::Ok200, empty.as_slice())
    } else if method.eq(&post_m) && path.eq(&pixel_p) {
        match parse_pixel_body(body) {
            Some((x, y, state)) => {
                if (x as usize) < crate::canvas::GRID_SIZE && (y as usize) < crate::canvas::GRID_SIZE {
                    chan.write(x, y, if state { 1 } else { 0 });
                    build_response(HttpStatus::Ok200, "OK".as_bytes())
                } else {
                    build_response(HttpStatus::BadRequest400, "Bad Request".as_bytes())
                }
            }
            None => build_response(HttpStatus::BadRequest400, "Bad Request".as_bytes()),
        }
    } else if method.eq(&post_m) && path.eq(&clear_p) {
        chan.write(CLEAR_BYTE_X, CLEAR_BYTE_Y, CLEAR_BYTE_STATE);
        build_response(HttpStatus::Ok200, "Cleared".as_bytes())
    } else if method.eq(&get_m) && path.eq(&root_p) {
        build_response(HttpStatus::Ok200, "Doodle canvas ready".as_bytes())
    } else {
        build_response(HttpStatus::NotFound404, "Not Found".as_bytes())
    }
}

} // verus!

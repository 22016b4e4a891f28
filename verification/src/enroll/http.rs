//! Framing of the enrollment listener's single request: an HTTP/1.1 POST to
//! `/v1/enroll/complete` with a `Content-Length` body holding JSON.
use vstd::prelude::*;
use vstd::utf8::{decode_utf8, valid_utf8};

use crate::text::{
    chars_of, eq_ignore_ascii_case, eq_ignore_ascii_case_chars, find_first, find_first_exec,
    lemma_find_first, marks, occurs_at, parse_usize, parse_usize_chars, split_bounds, split_pieces,
    slice_range, trim, trimmed, word_bounds, words, chars_eq, decimal, push_decimal, push_str,
};

verus! {

pub const ENROLL_PATH: &'static str = "/v1/enroll/complete";

pub const MAX_REQUEST_BYTES: usize = 65536;

#[verifier::external_type_specification]
#[verifier::external_body]
pub struct ExUtf8Error(core::str::Utf8Error);

/// `str::from_utf8` accepts exactly the valid UTF-8 byte strings and decodes them.
pub assume_specification[ core::str::from_utf8 ](v: &[u8]) -> (r: Result<&str, core::str::Utf8Error>)
    ensures
        r is Ok <==> valid_utf8(v@),
        r matches Ok(s) ==> s@ == decode_utf8(v@),
;

#[verifier::external_type_specification]
#[verifier::external_body]
pub struct ExJsonValue(serde_json::Value);

/// Whether `serde_json` accepts `text` as one JSON document.
pub uninterp spec fn json_text_parses(text: Seq<char>) -> bool;

/// `serde_json::from_str::<Value>`: a value exactly when the text is accepted.
#[verifier::external_body]
pub(crate) fn parse_json_value(text: &str) -> (r: Option<serde_json::Value>)
    ensures
        r is Some == json_text_parses(text@),
{
    serde_json::from_str::<serde_json::Value>(text).ok()
}

/// The request after parsing.
pub enum ParseResult {
    Complete(serde_json::Value),
    Incomplete,
    Invalid,
}

/// What the bytes received so far amount to, before the body is decoded.
pub enum Frame {
    Incomplete,
    Invalid,
    Body(Seq<u8>),
}

pub open spec fn crlf2() -> Seq<u8> {
    seq![13u8, 10u8, 13u8, 10u8]
}

pub open spec fn crlf() -> Seq<char> {
    seq!['\r', '\n']
}

/// The first header line (after the request line) that is `Content-Length: <n>`,
/// name matched without regard to ASCII case, value a valid `usize` once trimmed.
pub open spec fn content_length(ls: Seq<Seq<char>>) -> Option<nat>
    decreases ls.len(),
{
    if ls.len() == 0 {
        None
    } else {
        let l = ls[0];
        let i = find_first(l, seq![':']);
        if i >= 0 && eq_ignore_ascii_case(l.take(i), "Content-Length"@) && parse_usize(
            trim(l.skip(i + 1)),
        ) is Some {
            parse_usize(trim(l.skip(i + 1)))
        } else {
            content_length(ls.drop_first())
        }
    }
}

/// Framing of `raw`.
pub open spec fn http_frame(raw: Seq<u8>) -> Frame {
    if raw.len() > MAX_REQUEST_BYTES {
        Frame::Invalid
    } else {
        let h = find_first(raw, crlf2());
        if h < 0 {
            if raw.len() >= MAX_REQUEST_BYTES {
                Frame::Invalid
            } else {
                Frame::Incomplete
            }
        } else if !valid_utf8(raw.take(h)) {
            Frame::Invalid
        } else {
            let lines = split_pieces(decode_utf8(raw.take(h)), crlf());
            let w = words(lines[0]);
            if w.len() < 3 || w[0] != "POST"@ || w[1] != ENROLL_PATH@ {
                Frame::Invalid
            } else {
                match content_length(lines.drop_first()) {
                    None => Frame::Invalid,
                    Some(n) => if n > MAX_REQUEST_BYTES {
                        Frame::Invalid
                    } else if raw.len() < h + 4 + n {
                        Frame::Incomplete
                    } else {
                        Frame::Body(raw.subrange(h + 4, h + 4 + n))
                    },
                }
            }
        }
    }
}

/// Whether a framed body is accepted: UTF-8 text that JSON accepts.
pub open spec fn body_accepted(b: Seq<u8>) -> bool {
    valid_utf8(b) && json_text_parses(decode_utf8(b))
}

fn find_bytes(s: &[u8], p: &[u8]) -> (r: Option<usize>)
    ensures
        match r {
            Some(i) => i as int == find_first(s@, p@),
            None => find_first(s@, p@) == -1,
        },
{
    proof {
        lemma_find_first(s@, p@);
    }
    if p.len() > s.len() {
        assert forall|j: int| !occurs_at(s@, p@, j) by {}
        return None;
    }
    let last = s.len() - p.len();
    let mut i: usize = 0;
    loop
        invariant
            p.len() <= s.len(),
            last == s.len() - p.len(),
            i <= last,
            forall|j: int| 0 <= j < i ==> !occurs_at(s@, p@, j),
            -1 <= find_first(s@, p@) <= s.len(),
            find_first(s@, p@) >= 0 ==> occurs_at(s@, p@, find_first(s@, p@)),
            forall|j: int| 0 <= j < find_first(s@, p@) ==> !occurs_at(s@, p@, j),
            find_first(s@, p@) < 0 ==> !crate::text::contains(s@, p@),
        decreases last - i,
    {
        let mut k: usize = 0;
        let mut ok = true;
        while k < p.len()
            invariant
                i + p.len() <= s.len(),
                k <= p.len(),
                ok ==> forall|m: int| 0 <= m < k ==> s@[i + m] == p@[m],
                !ok ==> !occurs_at(s@, p@, i as int),
            decreases p.len() - k,
        {
            if s[i + k] != p[k] {
                assert(s@.subrange(i as int, i + p.len())[k as int] != p@[k as int]);
                ok = false;
            }
            k = k + 1;
        }
        if ok {
            assert(s@.subrange(i as int, i + p.len()) =~= p@);
            assert(occurs_at(s@, p@, i as int));
            proof {
                let f = find_first(s@, p@);
                if f < 0 {
                    assert(crate::text::contains(s@, p@));
                }
            }
            return Some(i);
        }
        if i == last {
            proof {
                let f = find_first(s@, p@);
                if f >= 0 {
                    assert(occurs_at(s@, p@, f));
                }
            }
            return None;
        }
        i = i + 1;
    }
}

fn byte_range(s: &[u8], a: usize, b: usize) -> (out: Vec<u8>)
    requires
        a <= b <= s.len(),
    ensures
        out@ == s@.subrange(a as int, b as int),
{
    let mut out: Vec<u8> = Vec::new();
    let mut i = a;
    while i < b
        invariant
            a <= i <= b <= s.len(),
            out@ == s@.subrange(a as int, i as int),
        decreases b - i,
    {
        out.push(s[i]);
        i = i + 1;
        assert(out@ =~= s@.subrange(a as int, i as int));
    }
    out
}

/// The `Content-Length` value among header lines `hs` (bounds into `text`).
fn find_content_length(text: &[char], hs: &[(usize, usize)], from: usize, Ghost(pieces): Ghost<Seq<Seq<char>>>) -> (r: Option<usize>)
    requires
        from <= hs.len(),
        hs@.len() == pieces.len(),
        forall|k: int| 0 <= k < hs@.len() ==> marks(text@, #[trigger] hs@[k], pieces[k]),
    ensures
        match r {
            Some(n) => content_length(pieces.skip(from as int)) == Some(n as nat),
            None => content_length(pieces.skip(from as int)) is None,
        },
    decreases hs.len() - from,
{
    if from == hs.len() {
        assert(pieces.skip(from as int).len() == 0);
        return None;
    }
    let (a, b) = hs[from];
    let line = slice_range(text, a, b);
    assert(line@ == pieces[from as int]);
    assert(pieces.skip(from as int)[0] == line@);
    assert(pieces.skip(from as int).drop_first() =~= pieces.skip(from + 1));
    let colon = vec![':'];
    assert(colon@ =~= seq![':']);
    match find_first_exec(line.as_slice(), colon.as_slice()) {
        Some(i) => {
            proof {
                lemma_find_first(line@, colon@);
            }
            let name = slice_range(line.as_slice(), 0, i);
            let value = slice_range(line.as_slice(), i + 1, line.len());
            assert(name@ =~= line@.take(i as int));
            assert(value@ =~= line@.skip(i + 1));
            let want = chars_of("Content-Length");
            if eq_ignore_ascii_case_chars(name.as_slice(), want.as_slice()) {
                let v = trimmed(value.as_slice());
                match parse_usize_chars(v.as_slice()) {
                    Some(n) => return Some(n),
                    None => {},
                }
            }
            find_content_length(text, hs, from + 1, Ghost(pieces))
        },
        None => find_content_length(text, hs, from + 1, Ghost(pieces)),
    }
}

/// Parse a POST to `/v1/enroll/complete` once the whole request is available.
pub fn parse_http_post_json(raw: &[u8]) -> (r: ParseResult)
    ensures
        match r {
            ParseResult::Complete(_) => http_frame(raw@) matches Frame::Body(b) && body_accepted(b),
            ParseResult::Incomplete => http_frame(raw@) is Incomplete,
            ParseResult::Invalid => http_frame(raw@) is Invalid || (http_frame(raw@) matches Frame::Body(b)
                && !body_accepted(b)),
        },
{
    if raw.len() > MAX_REQUEST_BYTES {
        return ParseResult::Invalid;
    }
    let sep_v = vec![13u8, 10u8, 13u8, 10u8];
    assert(sep_v@ =~= crlf2());
    let header_end = match find_bytes(raw, sep_v.as_slice()) {
        Some(h) => h,
        None => {
            if raw.len() >= MAX_REQUEST_BYTES {
                return ParseResult::Invalid;
            } else {
                return ParseResult::Incomplete;
            }
        },
    };
    proof {
        lemma_find_first(raw@, crlf2());
    }
    let head_bytes = byte_range(raw, 0, header_end);
    assert(head_bytes@ =~= raw@.take(header_end as int));
    let headers = match core::str::from_utf8(head_bytes.as_slice()) {
        Ok(s) => s,
        Err(_) => return ParseResult::Invalid,
    };
    let text = chars_of(headers);
    let crlf_v = vec!['\r', '\n'];
    assert(crlf_v@ =~= crlf());
    let ghost pieces = split_pieces(text@, crlf());
    let hs = split_bounds(text.as_slice(), crlf_v.as_slice());
    proof {
        lemma_split_nonempty(text@, crlf());
    }
    let (a0, b0) = hs[0];
    let request_line = slice_range(text.as_slice(), a0, b0);
    assert(request_line@ == pieces[0]);
    let ws = word_bounds(request_line.as_slice(), 3);
    if ws.len() < 3 {
        return ParseResult::Invalid;
    }
    let (ma, mb) = ws[0];
    let (pa, pb) = ws[1];
    let method = slice_range(request_line.as_slice(), ma, mb);
    let path = slice_range(request_line.as_slice(), pa, pb);
    let post = chars_of("POST");
    let enroll = chars_of(ENROLL_PATH);
    if !chars_eq(method.as_slice(), post.as_slice()) || !chars_eq(path.as_slice(), enroll.as_slice()) {
        return ParseResult::Invalid;
    }
    let content_length = match find_content_length(text.as_slice(), hs.as_slice(), 1, Ghost(pieces)) {
        Some(n) => n,
        None => {
            assert(pieces.skip(1) =~= pieces.drop_first());
            return ParseResult::Invalid;
        },
    };
    assert(pieces.skip(1) =~= pieces.drop_first());
    if content_length > MAX_REQUEST_BYTES {
        return ParseResult::Invalid;
    }
    let body_start = header_end + 4;
    let body_end = body_start + content_length;
    if raw.len() < body_end {
        return ParseResult::Incomplete;
    }
    let body_bytes = byte_range(raw, body_start, body_end);
    let body = match core::str::from_utf8(body_bytes.as_slice()) {
        Ok(s) => s,
        Err(_) => return ParseResult::Invalid,
    };
    match parse_json_value(body) {
        Some(v) => ParseResult::Complete(v),
        None => ParseResult::Invalid,
    }
}

proof fn lemma_split_nonempty(s: Seq<char>, sep: Seq<char>)
    ensures
        split_pieces(s, sep).len() >= 1,
{
    let i = find_first(s, sep);
    if !(i < 0 || sep.len() == 0) {
        assert(split_pieces(s, sep) == seq![s.take(i)] + split_pieces(s.skip(i + sep.len()), sep));
    }
}

/// The listener's whole HTTP response: status line, JSON headers with the
/// body's byte length (`body_bytes`), and the body.
pub open spec fn response_text(status: u16, reason: Seq<char>, body: Seq<char>, body_bytes: nat) -> Seq<char> {
    "HTTP/1.1 "@ + decimal(status as nat) + " "@ + reason
        + "\r\nContent-Type: application/json\r\nContent-Length: "@ + decimal(body_bytes)
        + "\r\nConnection: close\r\n\r\n"@ + body
}

/// The bytes the listener writes for a response.
pub fn http_response_text(status: u16, body: &str) -> (r: String)
    ensures
        r@ == response_text(status, reason_of(status), body@, body.len() as nat),
{
    let mut s = String::from_str("HTTP/1.1 ");
    push_decimal(&mut s, status as u128);
    push_str(&mut s, " ");
    push_str(&mut s, status_reason(status));
    push_str(&mut s, "\r\nContent-Type: application/json\r\nContent-Length: ");
    push_decimal(&mut s, body.len() as u128);
    push_str(&mut s, "\r\nConnection: close\r\n\r\n");
    push_str(&mut s, body);
    s
}

/// What the reader does after a chunk arrives.
pub enum ReadStep {
    /// The request is complete; here is its body.
    Done(serde_json::Value),
    /// Read more.
    More,
    /// Give up: too long, or not an enrollment request.
    Fail,
}

/// The reader's decision on the bytes received so far: give up past the size
/// limit, else as the request parses.
pub fn after_chunk(buf: &[u8]) -> (r: ReadStep)
    ensures
        buf@.len() > MAX_REQUEST_BYTES ==> r is Fail,
        buf@.len() <= MAX_REQUEST_BYTES ==> match r {
            ReadStep::Done(_) => http_frame(buf@) matches Frame::Body(b) && body_accepted(b),
            ReadStep::More => http_frame(buf@) is Incomplete,
            ReadStep::Fail => http_frame(buf@) is Invalid || (http_frame(buf@) matches Frame::Body(b)
                && !body_accepted(b)),
        },
{
    if buf.len() > MAX_REQUEST_BYTES {
        return ReadStep::Fail;
    }
    match parse_http_post_json(buf) {
        ParseResult::Complete(v) => ReadStep::Done(v),
        ParseResult::Incomplete => ReadStep::More,
        ParseResult::Invalid => ReadStep::Fail,
    }
}

/// The body once the peer closed the connection: only a complete request counts.
pub fn at_end_of_stream(buf: &[u8]) -> (r: Option<serde_json::Value>)
    ensures
        r is Some <==> (http_frame(buf@) matches Frame::Body(b) && body_accepted(b)),
{
    match parse_http_post_json(buf) {
        ParseResult::Complete(v) => Some(v),
        _ => None,
    }
}

pub open spec fn reason_of(status: u16) -> Seq<char> {
    if status == 200 {
        "OK"@
    } else if status == 400 {
        "Bad Request"@
    } else if status == 403 {
        "Forbidden"@
    } else if status == 409 {
        "Conflict"@
    } else {
        "Error"@
    }
}

/// Reason phrase the listener sends with `status`.
pub fn status_reason(status: u16) -> (r: &'static str)
    ensures
        r@ == reason_of(status),
{
    match status {
        200 => "OK",
        400 => "Bad Request",
        403 => "Forbidden",
        409 => "Conflict",
        _ => "Error",
    }
}

} // verus!

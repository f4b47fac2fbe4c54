//! Byte-range streaming: parsing the fixed video route and the range header,
//! and planning one bounded response (status, read window, headers) for a
//! request against a local file.
//!
//! The server never holds more than [`crate::MAX_CHUNK`] bytes in one
//! response; a request for a larger span is answered with the first chunk of
//! that span, and the client is expected to continue with further range
//! requests.

use vstd::prelude::*;
use crate::MAX_CHUNK;
use crate::numeric::{all_dec_digits, dec_rep, dec_val, parse_u64, u64_to_dec};
use crate::text::{find_from, find_char_from, has_prefix, lemma_find_from_props};

verus! {

/// A parsed `Range` header: the first byte offset asked for, and the last,
/// when one was given.
pub struct RangeRequest {
    pub start: u64,
    pub end: Option<u64>,
}

/// One planned response: the status, the half-open read window
/// `[start, start + length)` of the file to serve as the body, and the
/// `Content-Range` header value when one is owed.
pub struct StreamPlan {
    pub status: u16,
    pub start: u64,
    pub length: u64,
    pub content_range: Option<String>,
}

/// The header value with a leading `bytes=` removed, when present.
pub open spec fn range_body(h: Seq<char>) -> Seq<char> {
    if h.len() >= "bytes="@.len() && h.subrange(0, "bytes="@.len() as int) == "bytes="@ {
        h.subrange("bytes="@.len() as int, h.len() as int)
    } else {
        h
    }
}

/// The text before the first dash: the requested start offset.
pub open spec fn start_text(b: Seq<char>) -> Seq<char> {
    match find_from(b, 0, '-') {
        Some(p) => b.subrange(0, p),
        None => b,
    }
}

/// The text between the first dash and the second (or the end): the
/// requested last offset, absent when the header holds no dash.
pub open spec fn end_text(b: Seq<char>) -> Option<Seq<char>> {
    match find_from(b, 0, '-') {
        Some(p) => match find_from(b, p + 1, '-') {
            Some(q) => Some(b.subrange(p + 1, q)),
            None => Some(b.subrange(p + 1, b.len() as int)),
        },
        None => None,
    }
}

/// A non-empty digit run whose value fits in a `u64`.
pub open spec fn valid_u64_text(s: Seq<char>) -> bool {
    s.len() > 0 && all_dec_digits(s) && dec_val(s) <= u64::MAX
}

/// The start offset a header value asks for; malformed text falls back to 0.
pub open spec fn spec_range_start(h: Seq<char>) -> nat {
    if valid_u64_text(start_text(range_body(h))) {
        dec_val(start_text(range_body(h)))
    } else {
        0
    }
}

/// The last offset a header value asks for; absent or malformed text means
/// "to the end of the file".
pub open spec fn spec_range_end(h: Seq<char>) -> Option<nat> {
    match end_text(range_body(h)) {
        Some(t) => if valid_u64_text(t) {
            Some(dec_val(t))
        } else {
            None
        },
        None => None,
    }
}

/// Parse a `Range` header value of the form `bytes=start-end`. Either part
/// may be absent or malformed; such a part falls back to its default (start
/// 0, end of file), so a malformed header is tolerated, never rejected.
pub fn parse_range_header(h: &str) -> (r: RangeRequest)
    ensures
        r.start as nat == spec_range_start(h@),
        match r.end {
            Some(e) => spec_range_end(h@) == Some(e as nat),
            None => spec_range_end(h@) is None,
        },
{
    proof {
        reveal_strlit("bytes=");
    }
    let n = h.unicode_len();
    let body: &str = if has_prefix(h, "bytes=") {
        h.substring_char(6, n)
    } else {
        h
    };
    proof {
        assert(body@ == range_body(h@));
    }
    let nb = body.unicode_len();
    match find_char_from(body, 0, '-') {
        None => {
            let start = match parse_u64(body) {
                Some(v) => v,
                None => 0,
            };
            RangeRequest { start, end: None }
        },
        Some(p) => {
            proof {
                lemma_find_from_props(body@, 0, '-');
            }
            let left = body.substring_char(0, p);
            let q = match find_char_from(body, p + 1, '-') {
                Some(q) => {
                    proof {
                        lemma_find_from_props(body@, p as int + 1, '-');
                    }
                    q
                },
                None => nb,
            };
            let right = body.substring_char(p + 1, q);
            let start = match parse_u64(left) {
                Some(v) => v,
                None => 0,
            };
            let end = parse_u64(right);
            RangeRequest { start, end }
        },
    }
}

/// The last file offset a request covers before the chunk cap: the requested
/// end clamped to the last byte of the file, with an absent or inverted end
/// falling back to the end of the file.
pub open spec fn effective_end(fs: nat, start: nat, end: Option<nat>) -> nat
    recommends
        start < fs,
{
    let e1 = match end {
        Some(e) => if e < fs {
            e
        } else {
            (fs - 1) as nat
        },
        None => (fs - 1) as nat,
    };
    if e1 < start {
        (fs - 1) as nat
    } else {
        e1
    }
}

/// How many bytes the requested span covers, before the chunk cap.
pub open spec fn requested_len(fs: nat, start: nat, end: Option<nat>) -> nat
    recommends
        start < fs,
{
    (effective_end(fs, start, end) - start + 1) as nat
}

/// How many bytes one response carries: the requested span, capped at
/// `MAX_CHUNK`.
pub open spec fn clamped_len(fs: nat, start: nat, end: Option<nat>) -> nat
    recommends
        start < fs,
{
    if requested_len(fs, start, end) > MAX_CHUNK {
        MAX_CHUNK as nat
    } else {
        requested_len(fs, start, end)
    }
}

/// The value of a `Content-Range` header naming the inclusive span
/// `[start, end]` of a file of `total` bytes.
pub open spec fn content_range_rep(start: nat, end: nat, total: nat) -> Seq<char> {
    "bytes "@ + dec_rep(start) + "-"@ + dec_rep(end) + "/"@ + dec_rep(total)
}

/// Render a `Content-Range` header value.
pub fn content_range_value(start: u64, end: u64, total: u64) -> (r: String)
    ensures
        r@ == content_range_rep(start as nat, end as nat, total as nat),
{
    let mut s = String::from_str("bytes ");
    s.append(u64_to_dec(start).as_str());
    s.append("-");
    s.append(u64_to_dec(end).as_str());
    s.append("/");
    s.append(u64_to_dec(total).as_str());
    s
}

/// What a correct plan looks like for a file of `fs` bytes and a request
/// with parsed offsets `start` and `end` (`has_range` says whether a range
/// header was present; without one the whole file is requested).
pub open spec fn stream_plan_matches(
    fs: nat,
    start: nat,
    end: Option<nat>,
    has_range: bool,
    p: StreamPlan,
) -> bool {
    &&& p.start as nat == start
    &&& if start >= fs {
        p.status == 416 && p.length == 0 && p.content_range is None
    } else {
        &&& p.length as nat == clamped_len(fs, start, end)
        &&& if has_range {
            &&& p.status == 206
            &&& (p.content_range matches Some(s) && s@ == content_range_rep(
                start,
                (start + p.length - 1) as nat,
                fs,
            ))
        } else {
            p.status == 200 && p.content_range is None
        }
    }
}

/// Plan the response for an opened file of `file_size` bytes. A request
/// whose start lies at or past the end of the file is answered 416 with an
/// empty body; otherwise the requested span, capped at `MAX_CHUNK` bytes, is
/// served with status 206 and a `Content-Range` header when a range header
/// was present, or status 200 without one.
pub fn plan_stream(file_size: u64, range: Option<&RangeRequest>) -> (p: StreamPlan)
    ensures
        match range {
            Some(rq) => stream_plan_matches(
                file_size as nat,
                rq.start as nat,
                match rq.end {
                    Some(e) => Some(e as nat),
                    None => None,
                },
                true,
                p,
            ),
            None => stream_plan_matches(file_size as nat, 0, None, false, p),
        },
{
    let (start, given_end, has_range): (u64, Option<u64>, bool) = match range {
        Some(rq) => (rq.start, rq.end, true),
        None => (0, None, false),
    };
    if start >= file_size {
        return StreamPlan { status: 416, start, length: 0, content_range: None };
    }
    let e1 = match given_end {
        Some(e) => if e < file_size {
            e
        } else {
            file_size - 1
        },
        None => file_size - 1,
    };
    let e1 = if e1 < start {
        file_size - 1
    } else {
        e1
    };
    let req_len = e1 - start + 1;
    let length = if req_len > MAX_CHUNK {
        MAX_CHUNK
    } else {
        req_len
    };
    let end = start + length - 1;
    if has_range {
        let cr = content_range_value(start, end, file_size);
        StreamPlan { status: 206, start, length, content_range: Some(cr) }
    } else {
        StreamPlan { status: 200, start, length, content_range: None }
    }
}

/// Plan the response once the file-open attempt is known: a path that could
/// not be opened is answered 404 with an empty body, whatever the request
/// said; an opened file is served per [`plan_stream`].
pub fn plan_response(opened: Option<u64>, range: Option<&RangeRequest>) -> (p: StreamPlan)
    ensures
        opened is None ==> p.status == 404 && p.length == 0 && p.content_range is None,
        opened matches Some(fs) ==> match range {
            Some(rq) => stream_plan_matches(
                fs as nat,
                rq.start as nat,
                match rq.end {
                    Some(e) => Some(e as nat),
                    None => None,
                },
                true,
                p,
            ),
            None => stream_plan_matches(fs as nat, 0, None, false, p),
        },
{
    match opened {
        None => StreamPlan { status: 404, start: 0, length: 0, content_range: None },
        Some(fs) => plan_stream(fs, range),
    }
}

/// Two renderings with the same digits split identically: a run of digits
/// followed by a non-digit determines both parts.
proof fn lemma_digit_prefix_unique(
    x: Seq<char>,
    a1: Seq<char>,
    r1: Seq<char>,
    a2: Seq<char>,
    r2: Seq<char>,
)
    requires
        x == a1 + r1,
        x == a2 + r2,
        all_dec_digits(a1),
        all_dec_digits(a2),
        r1.len() > 0 && !crate::numeric::is_dec_digit(r1[0]),
        r2.len() > 0 && !crate::numeric::is_dec_digit(r2[0]),
    ensures
        a1 == a2,
        r1 == r2,
{
    if a1.len() < a2.len() {
        assert(x[a1.len() as int] == r1[0]);
        assert(x[a1.len() as int] == a2[a1.len() as int]);
        assert(false);
    } else if a2.len() < a1.len() {
        assert(x[a2.len() as int] == r2[0]);
        assert(x[a2.len() as int] == a1[a2.len() as int]);
        assert(false);
    } else {
        assert forall|i: int| 0 <= i < a1.len() implies a1[i] == a2[i] by {
            assert(a1[i] == (a1 + r1)[i]);
            assert(a2[i] == (a2 + r2)[i]);
        }
        assert(a1 =~= a2);
        assert((a1 + r1).len() == a1.len() + r1.len());
        assert((a2 + r2).len() == a2.len() + r2.len());
        assert(r1.len() == r2.len());
        assert forall|i: int| 0 <= i < r1.len() implies r1[i] == r2[i] by {
            assert((a1 + r1)[a1.len() + i] == r1[i]);
            assert((a2 + r2)[a2.len() + i] == r2[i]);
            assert((a1 + r1)[a1.len() + i] == (a2 + r2)[a2.len() + i]);
        }
        assert(r1 =~= r2);
    }
}

/// A `Content-Range` value identifies its span exactly: equal header texts
/// name the same start, the same end, and the same file size, so the body
/// window a plan reads is the one and only span its header describes.
#[verifier::rlimit(100)]
pub proof fn lemma_content_range_identifies(
    s1: nat,
    e1: nat,
    t1: nat,
    s2: nat,
    e2: nat,
    t2: nat,
)
    requires
        content_range_rep(s1, e1, t1) == content_range_rep(s2, e2, t2),
    ensures
        s1 == s2,
        e1 == e2,
        t1 == t2,
{
    reveal_strlit("bytes ");
    reveal_strlit("-");
    reveal_strlit("/");
    crate::numeric::lemma_dec_rep_val(s1);
    crate::numeric::lemma_dec_rep_val(s2);
    crate::numeric::lemma_dec_rep_val(e1);
    crate::numeric::lemma_dec_rep_val(e2);
    crate::numeric::lemma_dec_rep_val(t1);
    crate::numeric::lemma_dec_rep_val(t2);
    let w1 = content_range_rep(s1, e1, t1);
    let w2 = content_range_rep(s2, e2, t2);
    let x1 = w1.subrange("bytes "@.len() as int, w1.len() as int);
    let x2 = w2.subrange("bytes "@.len() as int, w2.len() as int);
    assert(x1 =~= dec_rep(s1) + ("-"@ + dec_rep(e1) + "/"@ + dec_rep(t1)));
    assert(x2 =~= dec_rep(s2) + ("-"@ + dec_rep(e2) + "/"@ + dec_rep(t2)));
    assert(x1 == x2);
    let rs1 = "-"@ + dec_rep(e1) + "/"@ + dec_rep(t1);
    let rs2 = "-"@ + dec_rep(e2) + "/"@ + dec_rep(t2);
    assert(rs1[0] == '-' && rs2[0] == '-');
    lemma_digit_prefix_unique(x1, dec_rep(s1), rs1, dec_rep(s2), rs2);
    crate::numeric::lemma_dec_rep_injective(s1, s2);
    let y1 = rs1.subrange(1, rs1.len() as int);
    let y2 = rs2.subrange(1, rs2.len() as int);
    assert(y1 =~= dec_rep(e1) + ("/"@ + dec_rep(t1)));
    assert(y2 =~= dec_rep(e2) + ("/"@ + dec_rep(t2)));
    assert(y1 == y2);
    let q1 = "/"@ + dec_rep(t1);
    let q2 = "/"@ + dec_rep(t2);
    assert(q1[0] == '/' && q2[0] == '/');
    lemma_digit_prefix_unique(y1, dec_rep(e1), q1, dec_rep(e2), q2);
    crate::numeric::lemma_dec_rep_injective(e1, e2);
    assert(dec_rep(t1) =~= q1.subrange(1, q1.len() as int));
    assert(dec_rep(t2) =~= q2.subrange(1, q2.len() as int));
    crate::numeric::lemma_dec_rep_injective(t1, t2);
}

/// Every served body is bounded: no plan reads more than `MAX_CHUNK` bytes,
/// never more than the request asked for, and the window stays inside the
/// file; the window is the very span the `Content-Range` value names.
pub proof fn lemma_chunk_cap(fs: nat, start: nat, end: Option<nat>)
    requires
        start < fs,
    ensures
        1 <= clamped_len(fs, start, end) <= MAX_CHUNK,
        clamped_len(fs, start, end) <= requested_len(fs, start, end),
        start + clamped_len(fs, start, end) <= fs,
{
}

/// The fixed route prefix under which files are streamed.
pub open spec fn video_route() -> Seq<char> {
    "/video?path="@
}

/// Match the one supported route. Returns the URL-encoded file path that
/// follows the prefix, or nothing when the URL is for any other path (the
/// server then answers 404).
pub fn parse_route(url: &str) -> (r: Option<String>)
    ensures
        match r {
            Some(rest) => url@.len() >= video_route().len() && url@.subrange(
                0,
                video_route().len() as int,
            ) == video_route() && rest@ == url@.subrange(video_route().len() as int, url@.len() as int),
            None => !(url@.len() >= video_route().len() && url@.subrange(
                0,
                video_route().len() as int,
            ) == video_route()),
        },
{
    proof {
        reveal_strlit("/video?path=");
    }
    if has_prefix(url, "/video?path=") {
        let n = url.unicode_len();
        Some(String::from_str(url.substring_char(12, n)))
    } else {
        None
    }
}

/// What percent-decoding yields on a given text, when the decoded bytes form
/// valid text at all; a function of the input alone.
pub uninterp spec fn percent_decoded(s: Seq<char>) -> Option<Seq<char>>;

/// Relies on `urlencoding::decode`: percent-decoding is a function of its
/// input alone, and fails exactly when the decoded bytes are not valid
/// UTF-8, which likewise depends on the input alone; its source returns the
/// input unchanged when no `%` occurs in it.
#[verifier::external_body]
fn percent_decode(s: &str) -> (r: Option<String>)
    ensures
        r is Some <==> percent_decoded(s@) is Some,
        (r matches Some(d) ==> percent_decoded(s@) == Some(d@)),
        r is Some || (exists|i: int| 0 <= i < s@.len() && s@[i] == '%'),
        (r matches Some(d) ==> ((forall|i: int| 0 <= i < s@.len() ==> s@[i] != '%') ==> d@ == s@)),
{
    match urlencoding::decode(s) {
        Ok(c) => Some(c.into_owned()),
        Err(_) => None,
    }
}

/// The file path a request names: the percent-decoded text, or the raw text
/// itself when it does not decode.
pub open spec fn requested_path(s: Seq<char>) -> Seq<char> {
    match percent_decoded(s) {
        Some(d) => d,
        None => s,
    }
}

/// Decode the URL-encoded path carried by the route; text that does not
/// decode is kept as it came.
pub fn resolve_request_path(encoded: &str) -> (r: String)
    ensures
        r@ == requested_path(encoded@),
{
    match percent_decode(encoded) {
        Some(d) => d,
        None => String::from_str(encoded),
    }
}

} // verus!


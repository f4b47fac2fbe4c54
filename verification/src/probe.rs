//! The shape of the prober's JSON answer, and the exact frame-rate text it
//! reports: a rational `numerator/denominator`. Turning the answer's bytes
//! into these values is the caller's (it is plain deserialization); reading
//! the values is done here.

use vstd::prelude::*;
use crate::numeric::{dec_val, parse_u64};
use crate::range::valid_u64_text;
use crate::text::{find_from, find_char_from, lemma_find_from_props};

verus! {

/// The container-level part of a probe answer.
pub struct FfprobeFormat {
    pub duration: Option<String>,
}

/// One probed stream; the frame rate comes as rational text.
pub struct FfprobeStream {
    pub r_frame_rate: String,
}

/// A whole probe answer: the container format and its streams.
pub struct FfprobeOutput {
    pub format: FfprobeFormat,
    pub streams: Vec<FfprobeStream>,
}

/// The rational a frame-rate text names: exactly `num/den` with both parts
/// plain decimal, one slash, and a non-zero denominator.
pub open spec fn frame_rate_spec(s: Seq<char>) -> Option<(nat, nat)> {
    match find_from(s, 0, '/') {
        Some(p) => {
            let num_txt = s.subrange(0, p);
            let den_txt = s.subrange(p + 1, s.len() as int);
            if find_from(s, p + 1, '/') is None && valid_u64_text(num_txt) && valid_u64_text(
                den_txt,
            ) && dec_val(den_txt) > 0 {
                Some((dec_val(num_txt), dec_val(den_txt)))
            } else {
                None
            }
        },
        None => None,
    }
}

/// Read a frame rate like `30000/1001`. Anything else — no slash, two
/// slashes, an empty or malformed part, a zero denominator — yields nothing,
/// and the caller falls back to its default rate.
pub fn parse_frame_rate(s: &str) -> (r: Option<(u64, u64)>)
    ensures
        match r {
            Some(q) => frame_rate_spec(s@) == Some((q.0 as nat, q.1 as nat)),
            None => frame_rate_spec(s@) is None,
        },
{
    let n = s.unicode_len();
    match find_char_from(s, 0, '/') {
        None => None,
        Some(p) => {
            proof {
                lemma_find_from_props(s@, 0, '/');
            }
            match find_char_from(s, p + 1, '/') {
                Some(_) => None,
                None => {
                    let num_txt = s.substring_char(0, p);
                    let den_txt = s.substring_char(p + 1, n);
                    match (parse_u64(num_txt), parse_u64(den_txt)) {
                        (Some(num), Some(den)) => {
                            if den > 0 {
                                Some((num, den))
                            } else {
                                None
                            }
                        },
                        _ => None,
                    }
                },
            }
        },
    }
}

/// The frame rate a probe answer reports: that of its first stream, when the
/// text is a well-formed rational, else the fixed default of 30 frames per
/// second.
pub fn video_frame_rate(out: &FfprobeOutput) -> (r: (u64, u64))
    ensures
        out.streams@.len() > 0 ==> (match frame_rate_spec(out.streams@[0].r_frame_rate@) {
            Some(q) => r == ((q.0 as u64, q.1 as u64)),
            None => r == ((30u64, 1u64)),
        }),
        out.streams@.len() == 0 ==> r == ((30u64, 1u64)),
{
    if out.streams.len() > 0 {
        match parse_frame_rate(out.streams[0].r_frame_rate.as_str()) {
            Some(q) => q,
            None => (30, 1),
        }
    } else {
        (30, 1)
    }
}

} // verus!

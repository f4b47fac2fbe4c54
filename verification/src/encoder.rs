//! The external encoder's fixed command lines: probing a file, extracting a
//! single frame, and encoding one trimmed segment. Each builder pins the
//! argument list exactly; running the subprocess and collecting its output
//! is plain I/O and stays with the caller, for whom a non-zero exit is a
//! hard failure of that operation.

use vstd::prelude::*;
use crate::export::EncodePlan;
use crate::numeric::{dec_rep, u64_to_dec};

verus! {

/// Milliseconds rendered as seconds with three decimals, the form the
/// encoder's seek and duration arguments take.
pub open spec fn seconds_text(ms: int) -> Seq<char> {
    dec_rep((ms / 1000) as nat) + "."@ + pad3((ms % 1000) as nat)
}

/// A millisecond remainder as exactly three digits.
pub open spec fn pad3(f: nat) -> Seq<char> {
    if f < 10 {
        "00"@ + dec_rep(f)
    } else if f < 100 {
        "0"@ + dec_rep(f)
    } else {
        dec_rep(f)
    }
}

/// Render a non-negative millisecond count as decimal seconds.
pub fn ms_to_seconds_text(ms: i64) -> (r: String)
    requires
        0 <= ms,
    ensures
        r@ == seconds_text(ms as int),
{
    let whole = ms / 1000;
    let frac = ms % 1000;
    let mut s = u64_to_dec(whole as u64);
    s.append(".");
    if frac < 10 {
        s.append("00");
    } else if frac < 100 {
        s.append("0");
    }
    s.append(u64_to_dec(frac as u64).as_str());
    proof {
        assert(s@ =~= seconds_text(ms as int));
    }
    s
}

/// The views of a list of argument strings.
pub open spec fn arg_views(args: Seq<String>) -> Seq<Seq<char>> {
    args.map_values(|a: String| a@)
}

/// The fixed probe command line: quiet errors, first video stream only,
/// frame rate and container duration, as JSON, for the given file.
pub fn probe_args(path: &str) -> (r: Vec<String>)
    ensures
        arg_views(r@) =~= seq![
            "-v"@,
            "error"@,
            "-select_streams"@,
            "v:0"@,
            "-show_entries"@,
            "stream=r_frame_rate:format=duration"@,
            "-of"@,
            "json"@,
            path@,
        ],
{
    let mut r: Vec<String> = Vec::new();
    r.push(String::from_str("-v"));
    r.push(String::from_str("error"));
    r.push(String::from_str("-select_streams"));
    r.push(String::from_str("v:0"));
    r.push(String::from_str("-show_entries"));
    r.push(String::from_str("stream=r_frame_rate:format=duration"));
    r.push(String::from_str("-of"));
    r.push(String::from_str("json"));
    r.push(String::from_str(path));
    r
}

/// The fixed frame-extraction command line: seek to the given time, take one
/// frame, and pipe it out as JPEG.
pub fn extract_frame_args(path: &str, time_ms: i64) -> (r: Vec<String>)
    requires
        0 <= time_ms,
    ensures
        arg_views(r@) =~= seq![
            "-ss"@,
            seconds_text(time_ms as int),
            "-i"@,
            path@,
            "-frames:v"@,
            "1"@,
            "-q:v"@,
            "2"@,
            "-f"@,
            "image2pipe"@,
            "-vcodec"@,
            "mjpeg"@,
            "-"@,
        ],
{
    let mut r: Vec<String> = Vec::new();
    r.push(String::from_str("-ss"));
    r.push(ms_to_seconds_text(time_ms));
    r.push(String::from_str("-i"));
    r.push(String::from_str(path));
    r.push(String::from_str("-frames:v"));
    r.push(String::from_str("1"));
    r.push(String::from_str("-q:v"));
    r.push(String::from_str("2"));
    r.push(String::from_str("-f"));
    r.push(String::from_str("image2pipe"));
    r.push(String::from_str("-vcodec"));
    r.push(String::from_str("mjpeg"));
    r.push(String::from_str("-"));
    r
}

/// The fixed encode command line for one segment: overwrite the target,
/// coarse pre-seek, exact seek from there, encode for the exact duration
/// with the fixed quality and bitrate parameters.
pub fn encode_args(input: &str, output: &str, plan: &EncodePlan) -> (r: Vec<String>)
    requires
        0 <= plan.preseek_ms,
        0 <= plan.seek_offset_ms,
        0 <= plan.duration_ms,
    ensures
        arg_views(r@) =~= seq![
            "-y"@,
            "-ss"@,
            seconds_text(plan.preseek_ms as int),
            "-i"@,
            input@,
            "-ss"@,
            seconds_text(plan.seek_offset_ms as int),
            "-t"@,
            seconds_text(plan.duration_ms as int),
            "-c:v"@,
            "libx264"@,
            "-preset"@,
            "fast"@,
            "-crf"@,
            "18"@,
            "-c:a"@,
            "aac"@,
            "-b:a"@,
            "192k"@,
            output@,
        ],
{
    let mut r: Vec<String> = Vec::new();
    r.push(String::from_str("-y"));
    r.push(String::from_str("-ss"));
    r.push(ms_to_seconds_text(plan.preseek_ms));
    r.push(String::from_str("-i"));
    r.push(String::from_str(input));
    r.push(String::from_str("-ss"));
    r.push(ms_to_seconds_text(plan.seek_offset_ms));
    r.push(String::from_str("-t"));
    r.push(ms_to_seconds_text(plan.duration_ms));
    r.push(String::from_str("-c:v"));
    r.push(String::from_str("libx264"));
    r.push(String::from_str("-preset"));
    r.push(String::from_str("fast"));
    r.push(String::from_str("-crf"));
    r.push(String::from_str("18"));
    r.push(String::from_str("-c:a"));
    r.push(String::from_str("aac"));
    r.push(String::from_str("-b:a"));
    r.push(String::from_str("192k"));
    r.push(String::from_str(output));
    r
}

} // verus!

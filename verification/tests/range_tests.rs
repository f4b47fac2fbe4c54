use cliptrim::range::{parse_range_header, parse_route, plan_response, plan_stream, resolve_request_path, RangeRequest};

#[test]
fn route_match_extracts_encoded_path() {
    let r = parse_route("/video?path=%2Ftmp%2Fa.mp4");
    assert_eq!(r.as_deref(), Some("%2Ftmp%2Fa.mp4"));
}

#[test]
fn route_mismatch_is_rejected() {
    assert!(parse_route("/other").is_none());
    assert!(parse_route("/video").is_none());
    assert!(parse_route("").is_none());
}

#[test]
fn decoding_percent_escapes() {
    assert_eq!(resolve_request_path("%2Ftmp%2Fmy%20clip.mp4"), "/tmp/my clip.mp4");
}

#[test]
fn decoding_plain_text_is_identity() {
    assert_eq!(resolve_request_path("/tmp/a.mp4"), "/tmp/a.mp4");
}

#[test]
fn open_range_on_ten_megabyte_file_gets_one_chunk() {
    let rq = parse_range_header("bytes=0-");
    assert_eq!(rq.start, 0);
    assert_eq!(rq.end, None);
    let p = plan_stream(10_000_000, Some(&rq));
    assert_eq!(p.status, 206);
    assert_eq!(p.start, 0);
    assert_eq!(p.length, 5_242_880);
    assert_eq!(p.content_range.as_deref(), Some("bytes 0-5242879/10000000"));
}

#[test]
fn no_range_header_still_capped_to_first_chunk() {
    let p = plan_stream(10_000_000, None);
    assert_eq!(p.status, 200);
    assert_eq!(p.start, 0);
    assert_eq!(p.length, 5_242_880);
    assert!(p.content_range.is_none());
}

#[test]
fn start_at_file_size_gives_416_empty() {
    let rq = RangeRequest { start: 100, end: None };
    let p = plan_stream(100, Some(&rq));
    assert_eq!(p.status, 416);
    assert_eq!(p.length, 0);
    assert!(p.content_range.is_none());
}

#[test]
fn start_past_file_size_gives_416_empty() {
    let rq = parse_range_header("bytes=500-7");
    assert_eq!(rq.start, 500);
    let p = plan_stream(100, Some(&rq));
    assert_eq!(p.status, 416);
    assert_eq!(p.length, 0);
}

#[test]
fn empty_file_gives_416_even_without_range() {
    let p = plan_stream(0, None);
    assert_eq!(p.status, 416);
    assert_eq!(p.length, 0);
}

#[test]
fn unopenable_path_gives_404_empty() {
    let rq = RangeRequest { start: 0, end: Some(10) };
    let p = plan_response(None, Some(&rq));
    assert_eq!(p.status, 404);
    assert_eq!(p.length, 0);
    assert!(p.content_range.is_none());
    let p2 = plan_response(None, None);
    assert_eq!(p2.status, 404);
}

#[test]
fn bounded_range_served_exactly() {
    let rq = parse_range_header("bytes=10-19");
    assert_eq!(rq.start, 10);
    assert_eq!(rq.end, Some(19));
    let p = plan_stream(100, Some(&rq));
    assert_eq!(p.status, 206);
    assert_eq!(p.start, 10);
    assert_eq!(p.length, 10);
    assert_eq!(p.content_range.as_deref(), Some("bytes 10-19/100"));
}

#[test]
fn end_beyond_file_is_clamped() {
    let rq = parse_range_header("bytes=90-1000");
    let p = plan_stream(100, Some(&rq));
    assert_eq!(p.status, 206);
    assert_eq!(p.start, 90);
    assert_eq!(p.length, 10);
    assert_eq!(p.content_range.as_deref(), Some("bytes 90-99/100"));
}

#[test]
fn inverted_range_falls_back_to_end_of_file() {
    let rq = parse_range_header("bytes=50-10");
    let p = plan_stream(100, Some(&rq));
    assert_eq!(p.status, 206);
    assert_eq!(p.start, 50);
    assert_eq!(p.length, 50);
}

#[test]
fn malformed_start_falls_back_to_zero() {
    let rq = parse_range_header("bytes=abc-9");
    assert_eq!(rq.start, 0);
    assert_eq!(rq.end, Some(9));
    let rq2 = parse_range_header("bytes=-500");
    assert_eq!(rq2.start, 0);
    assert_eq!(rq2.end, Some(500));
    let rq3 = parse_range_header("nonsense");
    assert_eq!(rq3.start, 0);
    assert_eq!(rq3.end, None);
}

#[test]
fn requested_length_is_never_exceeded() {
    let rq = parse_range_header("bytes=0-99");
    let p = plan_stream(10_000_000, Some(&rq));
    assert_eq!(p.length, 100);
    assert!(p.length <= 5 * 1024 * 1024);
}

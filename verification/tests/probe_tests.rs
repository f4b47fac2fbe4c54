use cliptrim::media::frame_data_url;
use cliptrim::probe::{parse_frame_rate, video_frame_rate, FfprobeFormat, FfprobeOutput, FfprobeStream};

#[test]
fn ntsc_frame_rate_parses_as_rational() {
    assert_eq!(parse_frame_rate("30000/1001"), Some((30000, 1001)));
    assert_eq!(parse_frame_rate("25/1"), Some((25, 1)));
}

#[test]
fn malformed_frame_rates_are_rejected() {
    assert_eq!(parse_frame_rate("30"), None);
    assert_eq!(parse_frame_rate("a/b"), None);
    assert_eq!(parse_frame_rate("30/0"), None);
    assert_eq!(parse_frame_rate("1/2/3"), None);
    assert_eq!(parse_frame_rate("/2"), None);
    assert_eq!(parse_frame_rate("2/"), None);
}

#[test]
fn probe_answer_yields_first_stream_rate_or_default() {
    let out = FfprobeOutput {
        format: FfprobeFormat { duration: Some(String::from("12.5")) },
        streams: vec![
            FfprobeStream { r_frame_rate: String::from("24000/1001") },
            FfprobeStream { r_frame_rate: String::from("60/1") },
        ],
    };
    assert_eq!(video_frame_rate(&out), (24000, 1001));
    let empty = FfprobeOutput { format: FfprobeFormat { duration: None }, streams: vec![] };
    assert_eq!(video_frame_rate(&empty), (30, 1));
    let bad = FfprobeOutput {
        format: FfprobeFormat { duration: None },
        streams: vec![FfprobeStream { r_frame_rate: String::from("whatever") }],
    };
    assert_eq!(video_frame_rate(&bad), (30, 1));
}

#[test]
fn frame_bytes_become_a_jpeg_data_url() {
    let bytes = vec![0xFFu8, 0xEC, 0x20, 0x55, 0x00];
    assert_eq!(frame_data_url(&bytes), "data:image/jpeg;base64,/+wgVQA=");
    let empty: Vec<u8> = vec![];
    assert_eq!(frame_data_url(&empty), "data:image/jpeg;base64,");
}

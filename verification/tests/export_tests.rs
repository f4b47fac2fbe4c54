use cliptrim::clips::{Clip, ClipStatus};
use cliptrim::encoder::{encode_args, extract_frame_args, ms_to_seconds_text, probe_args};
use cliptrim::export::{
    encode_plan, segment_output_base, start_export, ExportEvent, JobRun,
};
use cliptrim::segments::SegmentTable;

fn test_clip() -> Clip {
    Clip {
        id: String::from("clip-1"),
        original_name: String::from("holiday.mp4"),
        backup_path: String::from("/root/BACKUP/holiday.mp4"),
        status: ClipStatus::InProgress,
        created_at: 0,
    }
}

#[test]
fn export_with_no_segments_fails_synchronously_without_events() {
    let clip = test_clip();
    let segments = Vec::new();
    match start_export(&clip, &segments) {
        Err(msg) => assert_eq!(msg, "No segments to export. Add segments before exporting."),
        Ok(_) => panic!("an empty segment list must be rejected before any event"),
    }
}

#[test]
fn accepted_export_starts_with_the_started_event() {
    let clip = test_clip();
    let mut table = SegmentTable::new(clip.id.clone());
    table.add_segment(0, 1000);
    table.add_segment(1000, 2000);
    let (job, started) = start_export(&clip, table.get_segments()).expect("accepted");
    assert_eq!(job.total, 2);
    assert_eq!(job.clip_id, "clip-1");
    assert_eq!(job.clip_name, "holiday.mp4");
    assert_eq!(job.job_id.len(), 36);
    match started {
        ExportEvent::Started { ref job_id, ref clip_id, ref clip_name, total } => {
            assert_eq!(*job_id, job.job_id);
            assert_eq!(clip_id, "clip-1");
            assert_eq!(clip_name, "holiday.mp4");
            assert_eq!(total, 2);
        },
        _ => panic!("the first event must be the started event"),
    }
}

#[test]
fn failing_second_segment_of_three_stops_the_run() {
    let clip = test_clip();
    let mut table = SegmentTable::new(clip.id.clone());
    table.add_segment(0, 1000);
    table.add_segment(1000, 2000);
    table.add_segment(2000, 3000);
    let (job, started) = start_export(&clip, table.get_segments()).expect("accepted");
    let job_id = job.job_id.clone();
    let mut events = vec![started];
    let mut run = JobRun::start(job, events[0].clone_event());
    // Segment 1 encodes; segment 2 fails; segment 3 is never attempted.
    events.push(run.record_segment_done());
    events.push(run.record_failure(String::from("encoder exited with status 1")));
    assert_eq!(events.len(), 3);
    match events[0] {
        ExportEvent::Started { total, .. } => assert_eq!(total, 3),
        _ => panic!("expected started"),
    }
    match events[1] {
        ExportEvent::Progress { current, total, .. } => {
            assert_eq!(current, 1);
            assert_eq!(total, 3);
        },
        _ => panic!("expected progress for segment 1"),
    }
    match events[2] {
        ExportEvent::Failed { job_id: ref jid, ref error } => {
            assert_eq!(*jid, job_id);
            assert_eq!(error, "encoder exited with status 1");
        },
        _ => panic!("expected the failed event"),
    }
    assert!(!events.iter().any(|e| matches!(e, ExportEvent::Completed { .. })));
    assert!(!events.iter().any(
        |e| matches!(e, ExportEvent::Progress { current: 3, .. }),
    ));
}

#[test]
fn full_run_emits_progress_per_segment_then_completed() {
    let clip = test_clip();
    let mut table = SegmentTable::new(clip.id.clone());
    table.add_segment(0, 1000);
    table.add_segment(1000, 2000);
    let (job, started) = start_export(&clip, table.get_segments()).expect("accepted");
    let job_id = job.job_id.clone();
    let mut run = JobRun::start(job, started);
    let p1 = run.record_segment_done();
    let p2 = run.record_segment_done();
    let done = run.record_completion();
    assert!(matches!(p1, ExportEvent::Progress { current: 1, total: 2, .. }));
    assert!(matches!(p2, ExportEvent::Progress { current: 2, total: 2, .. }));
    match done {
        ExportEvent::Completed { job_id: ref jid } => assert_eq!(*jid, job_id),
        _ => panic!("expected the completed event"),
    }
}

#[test]
fn encode_plan_preseeks_ten_seconds_before_the_cut() {
    let p = encode_plan(25_000, 30_000);
    assert_eq!(p.preseek_ms, 15_000);
    assert_eq!(p.seek_offset_ms, 10_000);
    assert_eq!(p.duration_ms, 5_000);
}

#[test]
fn encode_plan_clamps_preseek_at_the_file_start() {
    let p = encode_plan(5_000, 6_500);
    assert_eq!(p.preseek_ms, 0);
    assert_eq!(p.seek_offset_ms, 5_000);
    assert_eq!(p.duration_ms, 1_500);
}

#[test]
fn output_base_carries_two_digit_ordinal_and_label() {
    assert_eq!(segment_output_base("clip", 1, None), "clip__trim01");
    assert_eq!(segment_output_base("clip", 12, None), "clip__trim12");
    let label = String::from("intro");
    assert_eq!(segment_output_base("clip", 2, Some(&label)), "clip__trim02__intro");
    let blank = String::from("   ");
    assert_eq!(segment_output_base("clip", 3, Some(&blank)), "clip__trim03");
}

#[test]
fn milliseconds_render_as_three_decimal_seconds() {
    assert_eq!(ms_to_seconds_text(0), "0.000");
    assert_eq!(ms_to_seconds_text(5_500), "5.500");
    assert_eq!(ms_to_seconds_text(10_050), "10.050");
    assert_eq!(ms_to_seconds_text(999), "0.999");
    assert_eq!(ms_to_seconds_text(1_001), "1.001");
}

#[test]
fn encoder_command_lines_are_fixed() {
    let plan = encode_plan(25_000, 30_000);
    let args = encode_args("/b/in.mp4", "/o/out.mp4", &plan);
    assert_eq!(
        args,
        vec![
            "-y", "-ss", "15.000", "-i", "/b/in.mp4", "-ss", "10.000", "-t", "5.000", "-c:v",
            "libx264", "-preset", "fast", "-crf", "18", "-c:a", "aac", "-b:a", "192k",
            "/o/out.mp4",
        ]
    );
    let probe = probe_args("/b/in.mp4");
    assert_eq!(probe[0], "-v");
    assert_eq!(probe[8], "/b/in.mp4");
    assert_eq!(probe.len(), 9);
    let frame = extract_frame_args("/b/in.mp4", 1_500);
    assert_eq!(frame[1], "1.500");
    assert_eq!(frame.len(), 13);
}

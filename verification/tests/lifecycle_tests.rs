use cliptrim::clips::{
    apply_backup_move, is_supported_media_name, open_clip_plan, plan_scan, Clip, ClipStatus,
    OpenAction,
};
use cliptrim::workdir::WorkingDirectory;

fn clip(id: &str, name: &str, path: &str, status: ClipStatus) -> Clip {
    Clip {
        id: String::from(id),
        original_name: String::from(name),
        backup_path: String::from(path),
        status,
        created_at: 1_700_000_000,
    }
}

#[test]
fn media_extension_matched_case_insensitively() {
    assert!(is_supported_media_name("a.mp4"));
    assert!(is_supported_media_name("A.MP4"));
    assert!(is_supported_media_name("b.Mp4"));
    assert!(!is_supported_media_name("a.txt"));
    assert!(!is_supported_media_name("mp4"));
    assert!(!is_supported_media_name(".mp4"));
    assert!(!is_supported_media_name("a.mp41"));
}

#[test]
fn scan_creates_new_clips_for_unknown_supported_files() {
    let found = vec![
        String::from("a.mp4"),
        String::from("notes.txt"),
        String::from("a.mp4"),
        String::from("c.MP4"),
        String::from("known.mp4"),
    ];
    let known = vec![clip("k1", "known.mp4", "/root/IN/known.mp4", ClipStatus::New)];
    let added = plan_scan(&found, &known, "/root/IN", 42);
    assert_eq!(added.len(), 2);
    assert_eq!(added[0].original_name, "a.mp4");
    assert_eq!(added[0].backup_path, "/root/IN/a.mp4");
    assert!(matches!(added[0].status, ClipStatus::New));
    assert_eq!(added[0].created_at, 42);
    assert_eq!(added[0].id.len(), 36);
    assert_eq!(added[1].original_name, "c.MP4");
    assert_ne!(added[0].id, added[1].id);
}

#[test]
fn scan_of_nothing_new_adds_nothing() {
    let found = vec![String::from("known.mp4"), String::from("x.wav")];
    let known = vec![clip("k1", "known.mp4", "/root/IN/known.mp4", ClipStatus::Done)];
    let added = plan_scan(&found, &known, "/root/IN", 42);
    assert!(added.is_empty());
}

#[test]
fn open_moves_only_new_clips() {
    let c = clip("c1", "a.mp4", "/root/IN/a.mp4", ClipStatus::New);
    match open_clip_plan(&c) {
        OpenAction::Move { source } => assert_eq!(source, "/root/IN/a.mp4"),
        OpenAction::Keep => panic!("a new clip owes the backup move"),
    }
}

#[test]
fn open_performs_backup_move_exactly_once() {
    let c = clip("c1", "a.mp4", "/root/IN/a.mp4", ClipStatus::New);
    let moved = match open_clip_plan(&c) {
        OpenAction::Move { source } => {
            assert_eq!(source, "/root/IN/a.mp4");
            apply_backup_move(c, String::from("/root/BACKUP/a.mp4"))
        },
        OpenAction::Keep => panic!("first open must move"),
    };
    assert!(matches!(moved.status, ClipStatus::InProgress));
    assert_eq!(moved.backup_path, "/root/BACKUP/a.mp4");
    assert_eq!(moved.original_name, "a.mp4");
    // The second open is a no-op: the clip keeps its state untouched.
    match open_clip_plan(&moved) {
        OpenAction::Keep => {},
        OpenAction::Move { .. } => panic!("second open must not move again"),
    }
    assert!(matches!(moved.status, ClipStatus::InProgress));
    assert_eq!(moved.backup_path, "/root/BACKUP/a.mp4");
}

#[test]
fn done_clips_are_not_reopened() {
    let c = clip("c1", "a.mp4", "/root/BACKUP/a.mp4", ClipStatus::Done);
    assert!(matches!(open_clip_plan(&c), OpenAction::Keep));
}

#[test]
fn status_text_round_trips() {
    assert_eq!(ClipStatus::New.as_text(), "new");
    assert_eq!(ClipStatus::InProgress.as_text(), "in_progress");
    assert_eq!(ClipStatus::Done.as_text(), "done");
    assert!(matches!(ClipStatus::from_text("new"), Some(ClipStatus::New)));
    assert!(matches!(ClipStatus::from_text("in_progress"), Some(ClipStatus::InProgress)));
    assert!(matches!(ClipStatus::from_text("done"), Some(ClipStatus::Done)));
    assert!(ClipStatus::from_text("finished").is_none());
}

#[test]
fn working_directory_layout_is_fixed() {
    let wd = WorkingDirectory::new("/home/op/work");
    assert_eq!(wd.root, "/home/op/work");
    assert_eq!(wd.in_dir, "/home/op/work/IN");
    assert_eq!(wd.out_dir, "/home/op/work/OUT");
    assert_eq!(wd.backup_dir, "/home/op/work/BACKUP");
    assert_eq!(wd.db_path, "/home/op/work/.cliptrim/cliptrim.db");
}

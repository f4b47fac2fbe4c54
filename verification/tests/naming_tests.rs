use cliptrim::naming::{resolve_backup_name, resolve_export_name, resolve_name};

#[test]
fn free_name_is_taken_as_is() {
    let existing: Vec<String> = vec![];
    assert_eq!(resolve_name("clip", "_v", "mp4", &existing), "clip.mp4");
}

#[test]
fn collision_appends_version_two_first() {
    let existing = vec![String::from("clip.mp4")];
    assert_eq!(resolve_name("clip", "_v", "mp4", &existing), "clip_v2.mp4");
}

#[test]
fn version_counter_keeps_rising() {
    let existing = vec![
        String::from("clip.mp4"),
        String::from("clip_v2.mp4"),
        String::from("clip_v3.mp4"),
    ];
    assert_eq!(resolve_name("clip", "_v", "mp4", &existing), "clip_v4.mp4");
}

#[test]
fn gaps_in_versions_are_reused() {
    let existing = vec![String::from("clip.mp4"), String::from("clip_v3.mp4")];
    assert_eq!(resolve_name("clip", "_v", "mp4", &existing), "clip_v2.mp4");
}

#[test]
fn backup_naming_uses_orig_infix() {
    let existing = vec![String::from("movie.mp4")];
    assert_eq!(resolve_name("movie", "_orig_v", "mp4", &existing), "movie_orig_v2.mp4");
}

#[test]
fn second_export_with_same_label_gets_distinct_file() {
    let mut existing: Vec<String> = vec![];
    let first = resolve_export_name("clip__trim01__intro", &existing);
    assert_eq!(first, "clip__trim01__intro.mp4");
    existing.push(first.clone());
    let second = resolve_export_name("clip__trim01__intro", &existing);
    assert_ne!(second, first);
    assert_eq!(second, "clip__trim01__intro_v2.mp4");
    assert!(existing.contains(&first));
}

#[test]
fn backup_name_matches_the_file_until_taken() {
    let existing = vec![String::from("other.mp4")];
    assert_eq!(resolve_backup_name("movie", "mp4", &existing), "movie.mp4");
    let taken = vec![String::from("movie.mp4"), String::from("movie_orig_v2.mp4")];
    assert_eq!(resolve_backup_name("movie", "mp4", &taken), "movie_orig_v3.mp4");
}

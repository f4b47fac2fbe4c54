use cliptrim::segments::SegmentTable;

#[test]
fn indices_are_assigned_in_call_order() {
    let mut t = SegmentTable::new(String::from("clip-1"));
    assert_eq!(t.add_segment(0, 1000), 0);
    assert_eq!(t.add_segment(1000, 2500), 1);
    assert_eq!(t.add_segment(2500, 9000), 2);
    let idxs: Vec<u64> = t.get_segments().iter().map(|s| s.idx).collect();
    assert_eq!(idxs, vec![0, 1, 2]);
}

#[test]
fn deleted_index_is_never_reused() {
    let mut t = SegmentTable::new(String::from("clip-1"));
    t.add_segment(0, 1000);
    t.add_segment(1000, 2000);
    let doomed = t.get_segments()[0].id.clone();
    t.delete_segment(&doomed);
    let idxs: Vec<u64> = t.get_segments().iter().map(|s| s.idx).collect();
    assert_eq!(idxs, vec![1]);
    // The freed index 0 is not handed out again: the next addition gets 2.
    assert_eq!(t.add_segment(5, 10), 2);
    let idxs: Vec<u64> = t.get_segments().iter().map(|s| s.idx).collect();
    assert_eq!(idxs, vec![1, 2]);
}

#[test]
fn segments_keep_their_fields() {
    let mut t = SegmentTable::new(String::from("clip-9"));
    t.add_segment(250, 4750);
    let s = &t.get_segments()[0];
    assert_eq!(s.clip_id, "clip-9");
    assert_eq!(s.start_ms, 250);
    assert_eq!(s.end_ms, 4750);
    assert!(s.label.is_none());
    assert_eq!(s.id.len(), 36);
}

#[test]
fn bounds_update_touches_only_the_named_segment() {
    let mut t = SegmentTable::new(String::from("c"));
    t.add_segment(0, 100);
    t.add_segment(100, 200);
    let target = t.get_segments()[1].id.clone();
    t.update_bounds(&target, 150, 300);
    assert_eq!(t.get_segments()[0].start_ms, 0);
    assert_eq!(t.get_segments()[0].end_ms, 100);
    assert_eq!(t.get_segments()[1].start_ms, 150);
    assert_eq!(t.get_segments()[1].end_ms, 300);
}

#[test]
fn label_update_touches_only_the_named_segment() {
    let mut t = SegmentTable::new(String::from("c"));
    t.add_segment(0, 100);
    t.add_segment(100, 200);
    let target = t.get_segments()[0].id.clone();
    t.update_label(&target, String::from("intro"));
    assert_eq!(t.get_segments()[0].label.as_deref(), Some("intro"));
    assert!(t.get_segments()[1].label.is_none());
}

#[test]
fn deleting_unknown_id_changes_nothing() {
    let mut t = SegmentTable::new(String::from("c"));
    t.add_segment(0, 100);
    t.delete_segment("no-such-id");
    assert_eq!(t.get_segments().len(), 1);
}

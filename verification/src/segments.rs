//! Trim segments of a clip, and the per-clip segment table. Indices are
//! assigned from a counter that only ever rises: the n-th segment added gets
//! index n-1, and deleting a segment leaves a gap — an index, once assigned,
//! is never reused.

use vstd::prelude::*;
use crate::ids::fresh_id;
use crate::text::str_eq;

verus! {

/// One labeled trim interval of a clip, exported independently.
pub struct Segment {
    pub id: String,
    pub clip_id: String,
    pub idx: u64,
    pub start_ms: i64,
    pub end_ms: i64,
    pub label: Option<String>,
}

impl Segment {
    /// A segment covers a non-empty span at a non-negative offset.
    pub open spec fn wf(self) -> bool {
        0 <= self.start_ms < self.end_ms
    }

    /// A field-for-field copy.
    pub fn clone_segment(&self) -> (r: Segment)
        ensures
            r == *self,
    {
        Segment {
            id: self.id.clone(),
            clip_id: self.clip_id.clone(),
            idx: self.idx,
            start_ms: self.start_ms,
            end_ms: self.end_ms,
            label: match &self.label {
                Some(l) => Some(l.clone()),
                None => None,
            },
        }
    }
}

/// The segments that survive deleting an identity, in their old order.
pub open spec fn remove_id(s: Seq<Segment>, id: Seq<char>) -> Seq<Segment>
    decreases s.len(),
{
    if s.len() == 0 {
        s
    } else {
        let rest = remove_id(s.drop_last(), id);
        if s.last().id@ != id {
            rest.push(s.last())
        } else {
            rest
        }
    }
}

/// Every survivor of a deletion is one of the old segments, and survivors
/// that came in rising index order stay in rising index order.
pub proof fn lemma_remove_id_props(s: Seq<Segment>, id: Seq<char>)
    ensures
        forall|k: int|
            0 <= k < remove_id(s, id).len() ==> exists|j: int|
                0 <= j < s.len() && #[trigger] remove_id(s, id)[k] == s[j],
        (forall|i: int, j: int|
            0 <= i < j < s.len() ==> (#[trigger] s[i]).idx < (#[trigger] s[j]).idx) ==> (forall|
            a: int,
            b: int,
        |
            0 <= a < b < remove_id(s, id).len() ==> (#[trigger] remove_id(s, id)[a]).idx < (
            #[trigger] remove_id(s, id)[b]).idx),
    decreases s.len(),
{
    if s.len() > 0 {
        let rest = s.drop_last();
        lemma_remove_id_props(rest, id);
        let out = remove_id(s, id);
        assert(forall|j: int| 0 <= j < rest.len() ==> rest[j] == s[j]);
        assert forall|k: int| 0 <= k < out.len() implies exists|j: int|
            0 <= j < s.len() && #[trigger] out[k] == s[j] by {
            if k < remove_id(rest, id).len() {
                let j = choose|j: int| 0 <= j < rest.len() && remove_id(rest, id)[k] == rest[j];
                assert(out[k] == s[j]);
            } else {
                assert(out[k] == s[s.len() - 1]);
            }
        }
        if forall|i: int, j: int| 0 <= i < j < s.len() ==> (#[trigger] s[i]).idx < (#[trigger] s[j]).idx {
            assert forall|a: int, b: int| 0 <= a < b < out.len() implies (#[trigger] out[a]).idx
                < (#[trigger] out[b]).idx by {
                if b < remove_id(rest, id).len() {
                } else {
                    assert(out[b] == s.last());
                    let j = choose|j: int| 0 <= j < rest.len() && remove_id(rest, id)[a] == rest[j];
                    assert(out[a] == s[j]);
                    assert(s[j].idx < s[s.len() - 1].idx);
                }
            }
        }
    }
}

/// The segments of one clip, in insertion order, with the index counter the
/// next addition will take.
pub struct SegmentTable {
    pub clip_id: String,
    pub segments: Vec<Segment>,
    pub next_idx: u64,
}

impl SegmentTable {
    /// Every segment is well formed, belongs to this clip, and the indices
    /// rise strictly in insertion order, all below the counter.
    pub open spec fn wf(self) -> bool {
        &&& forall|i: int|
            0 <= i < self.segments@.len() ==> {
                &&& (#[trigger] self.segments@[i]).wf()
                &&& self.segments@[i].clip_id@ == self.clip_id@
                &&& self.segments@[i].idx < self.next_idx
            }
        &&& forall|i: int, j: int|
            0 <= i < j < self.segments@.len() ==> (#[trigger] self.segments@[i]).idx < (
            #[trigger] self.segments@[j]).idx
    }

    /// An empty table for a clip; the first segment added will take index 0.
    pub fn new(clip_id: String) -> (r: SegmentTable)
        ensures
            r.wf(),
            r.clip_id == clip_id,
            r.segments@.len() == 0,
            r.next_idx == 0,
    {
        SegmentTable { clip_id, segments: Vec::new(), next_idx: 0 }
    }

    /// Append a segment covering `[start_ms, end_ms)`. It gets a fresh
    /// identity, no label yet, and exactly the next index in call order —
    /// one the table has never assigned before, whatever was deleted.
    pub fn add_segment(&mut self, start_ms: i64, end_ms: i64) -> (idx: u64)
        requires
            old(self).wf(),
            0 <= start_ms < end_ms,
            old(self).next_idx < u64::MAX,
        ensures
            final(self).wf(),
            idx == old(self).next_idx,
            final(self).next_idx == old(self).next_idx + 1,
            final(self).clip_id == old(self).clip_id,
            final(self).segments@.len() == old(self).segments@.len() + 1,
            final(self).segments@.drop_last() == old(self).segments@,
            final(self).segments@.last().idx == old(self).next_idx,
            final(self).segments@.last().start_ms == start_ms,
            final(self).segments@.last().end_ms == end_ms,
            final(self).segments@.last().label is None,
            final(self).segments@.last().clip_id@ == old(self).clip_id@,
            final(self).segments@.last().id@.len() == 36,
    {
        let idx = self.next_idx;
        let seg = Segment {
            id: fresh_id(),
            clip_id: self.clip_id.clone(),
            idx,
            start_ms,
            end_ms,
            label: None,
        };
        self.segments.push(seg);
        self.next_idx = self.next_idx + 1;
        proof {
            assert(final(self).segments@.drop_last() =~= old(self).segments@);
        }
        idx
    }

    /// Remove every segment carrying this identity. The others keep their
    /// order and their indices, and the counter does not move, so the freed
    /// index will never be handed out again.
    pub fn delete_segment(&mut self, id: &str)
        requires
            old(self).wf(),
        ensures
            final(self).wf(),
            final(self).clip_id == old(self).clip_id,
            final(self).next_idx == old(self).next_idx,
            final(self).segments@ == remove_id(old(self).segments@, id@),
    {
        let ghost src = self.segments@;
        let n = self.segments.len();
        let mut kept: Vec<Segment> = Vec::new();
        let mut i: usize = 0;
        proof {
            assert(src.subrange(0, 0) =~= Seq::<Segment>::empty());
            assert(kept@ =~= remove_id(src.subrange(0, 0), id@));
        }
        while i < n
            invariant
                i <= n,
                n == self.segments@.len(),
                src == self.segments@,
                self == old(self),
                kept@ == remove_id(src.subrange(0, i as int), id@),
            decreases n - i,
        {
            let keep = !str_eq(self.segments[i].id.as_str(), id);
            proof {
                assert(src.subrange(0, i as int + 1).drop_last() =~= src.subrange(0, i as int));
                assert(src.subrange(0, i as int + 1).last() == src[i as int]);
            }
            if keep {
                kept.push(self.segments[i].clone_segment());
            }
            i = i + 1;
        }
        proof {
            assert(src.subrange(0, n as int) =~= src);
        }
        self.segments = kept;
        proof {
            lemma_remove_id_props(src, id@);
        }
    }

    /// Give every segment carrying this identity new bounds.
    pub fn update_bounds(&mut self, id: &str, start_ms: i64, end_ms: i64)
        requires
            old(self).wf(),
            0 <= start_ms < end_ms,
        ensures
            final(self).wf(),
            final(self).clip_id == old(self).clip_id,
            final(self).next_idx == old(self).next_idx,
            final(self).segments@.len() == old(self).segments@.len(),
            forall|i: int|
                0 <= i < old(self).segments@.len() ==> {
                    let s = #[trigger] old(self).segments@[i];
                    if s.id@ == id@ {
                        final(self).segments@[i] == (Segment { start_ms, end_ms, ..s })
                    } else {
                        final(self).segments@[i] == s
                    }
                },
    {
        let n = self.segments.len();
        let mut i: usize = 0;
        while i < n
            invariant
                i <= n,
                n == self.segments@.len(),
                old(self).wf(),
                0 <= start_ms < end_ms,
                self.clip_id == old(self).clip_id,
                self.next_idx == old(self).next_idx,
                forall|j: int|
                    0 <= j < i ==> {
                        let s = #[trigger] old(self).segments@[j];
                        if s.id@ == id@ {
                            self.segments@[j] == (Segment { start_ms, end_ms, ..s })
                        } else {
                            self.segments@[j] == s
                        }
                    },
                forall|j: int| i <= j < n ==> self.segments@[j] == old(self).segments@[j],
            decreases n - i,
        {
            if str_eq(self.segments[i].id.as_str(), id) {
                let seg = &mut self.segments[i];
                seg.start_ms = start_ms;
                seg.end_ms = end_ms;
            }
            i = i + 1;
        }
        proof {
            assert forall|a: int| 0 <= a < self.segments@.len() implies {
                &&& (#[trigger] self.segments@[a]).wf()
                &&& self.segments@[a].clip_id@ == self.clip_id@
                &&& self.segments@[a].idx < self.next_idx
            } by {
                assert(old(self).segments@[a].wf());
                assert(self.segments@[a].idx == old(self).segments@[a].idx);
            }
            assert forall|a: int, b: int| 0 <= a < b < self.segments@.len() implies (
            #[trigger] self.segments@[a]).idx < (#[trigger] self.segments@[b]).idx by {
                assert(old(self).segments@[a].idx < old(self).segments@[b].idx);
            }
        }
    }

    /// Give every segment carrying this identity a new label.
    pub fn update_label(&mut self, id: &str, label: String)
        requires
            old(self).wf(),
        ensures
            final(self).wf(),
            final(self).clip_id == old(self).clip_id,
            final(self).next_idx == old(self).next_idx,
            final(self).segments@.len() == old(self).segments@.len(),
            forall|i: int|
                0 <= i < old(self).segments@.len() ==> {
                    let s = #[trigger] old(self).segments@[i];
                    if s.id@ == id@ {
                        final(self).segments@[i] == (Segment { label: Some(label), ..s })
                    } else {
                        final(self).segments@[i] == s
                    }
                },
    {
        let n = self.segments.len();
        let mut i: usize = 0;
        while i < n
            invariant
                i <= n,
                n == self.segments@.len(),
                old(self).wf(),
                self.clip_id == old(self).clip_id,
                self.next_idx == old(self).next_idx,
                self.segments@.len() == old(self).segments@.len(),
                forall|j: int|
                    0 <= j < i ==> {
                        let s = #[trigger] old(self).segments@[j];
                        if s.id@ == id@ {
                            self.segments@[j] == (Segment { label: Some(label), ..s })
                        } else {
                            self.segments@[j] == s
                        }
                    },
                forall|j: int| i <= j < n ==> self.segments@[j] == old(self).segments@[j],
            decreases n - i,
        {
            if str_eq(self.segments[i].id.as_str(), id) {
                let seg = &mut self.segments[i];
                seg.label = Some(label.clone());
            }
            i = i + 1;
        }
        proof {
            assert forall|a: int| 0 <= a < self.segments@.len() implies {
                &&& (#[trigger] self.segments@[a]).wf()
                &&& self.segments@[a].clip_id@ == self.clip_id@
                &&& self.segments@[a].idx < self.next_idx
            } by {
                assert(old(self).segments@[a].wf());
                assert(self.segments@[a].idx == old(self).segments@[a].idx);
            }
            assert forall|a: int, b: int| 0 <= a < b < self.segments@.len() implies (
            #[trigger] self.segments@[a]).idx < (#[trigger] self.segments@[b]).idx by {
                assert(old(self).segments@[a].idx < old(self).segments@[b].idx);
            }
        }
    }

    /// The segments as they stand, in insertion order.
    pub fn get_segments(&self) -> (r: &Vec<Segment>)
        ensures
            r == self.segments,
    {
        &self.segments
    }
}

/// An index once assigned is never assigned again: everything present sits
/// strictly below the counter, and each addition takes the counter itself
/// before raising it.
pub proof fn lemma_index_never_reused(t: SegmentTable)
    requires
        t.wf(),
    ensures
        forall|i: int| 0 <= i < t.segments@.len() ==> (#[trigger] t.segments@[i]).idx < t.next_idx,
{
}

} // verus!

//! The export pipeline: accepting an export request, naming each segment's
//! output, fixing the encoder's seek arithmetic, and the event protocol of a
//! running job — one started event, a progress event per finished segment,
//! and exactly one terminal event, completed or failed, never both.

use vstd::prelude::*;
use crate::clips::Clip;
use crate::ids::fresh_id;
use crate::numeric::dec_rep;
use crate::segments::Segment;
use crate::text::spec_is_blank;

verus! {

/// One event of an export job's stream, as the front end sees it.
pub enum ExportEvent {
    Started { job_id: String, clip_id: String, clip_name: String, total: usize },
    Progress { job_id: String, current: usize, total: usize },
    Failed { job_id: String, error: String },
    Completed { job_id: String },
}

impl ExportEvent {
    /// A field-for-field copy.
    pub fn clone_event(&self) -> (r: ExportEvent)
        ensures
            r == *self,
    {
        match self {
            ExportEvent::Started { job_id, clip_id, clip_name, total } => ExportEvent::Started {
                job_id: job_id.clone(),
                clip_id: clip_id.clone(),
                clip_name: clip_name.clone(),
                total: *total,
            },
            ExportEvent::Progress { job_id, current, total } => ExportEvent::Progress {
                job_id: job_id.clone(),
                current: *current,
                total: *total,
            },
            ExportEvent::Failed { job_id, error } => ExportEvent::Failed {
                job_id: job_id.clone(),
                error: error.clone(),
            },
            ExportEvent::Completed { job_id } => ExportEvent::Completed {
                job_id: job_id.clone(),
            },
        }
    }
}

/// A terminal event ends the job's stream.
pub open spec fn is_terminal(e: ExportEvent) -> bool {
    e is Failed || e is Completed
}

/// How many terminal events a stream holds.
pub open spec fn count_terminals(h: Seq<ExportEvent>) -> nat
    decreases h.len(),
{
    if h.len() == 0 {
        0
    } else {
        count_terminals(h.drop_last()) + if is_terminal(h.last()) {
            1nat
        } else {
            0nat
        }
    }
}

/// One ephemeral export run of a clip.
pub struct ExportJob {
    pub job_id: String,
    pub clip_id: String,
    pub clip_name: String,
    pub total: usize,
}

/// The started event a job emits before anything else.
pub open spec fn started_event(job: ExportJob) -> ExportEvent {
    ExportEvent::Started {
        job_id: job.job_id,
        clip_id: job.clip_id,
        clip_name: job.clip_name,
        total: job.total,
    }
}

/// The progress events for the first `k` finished segments, in order.
pub open spec fn progress_events(job: ExportJob, k: int) -> Seq<ExportEvent> {
    Seq::new(
        k as nat,
        |i: int| ExportEvent::Progress {
            job_id: job.job_id,
            current: (i + 1) as usize,
            total: job.total,
        },
    )
}

/// The stream after the started event and `k` finished segments.
pub open spec fn run_prefix(job: ExportJob, k: int) -> Seq<ExportEvent> {
    seq![started_event(job)] + progress_events(job, k)
}

/// Accept or reject an export request. A clip with no segments is rejected
/// synchronously, before any job exists and before any event is emitted;
/// otherwise a fresh job and its started event are handed back, and the
/// started event must be emitted before control returns to the caller.
pub fn start_export(clip: &Clip, segments: &Vec<Segment>) -> (r: Result<
    (ExportJob, ExportEvent),
    String,
>)
    ensures
        r is Err <==> segments@.len() == 0,
        r matches Err(m) ==> m@ == "No segments to export. Add segments before exporting."@,
        r matches Ok(p) ==> {
            &&& p.0.total == segments@.len()
            &&& p.0.clip_id@ == clip.id@
            &&& p.0.clip_name@ == clip.original_name@
            &&& p.0.job_id@.len() == 36
            &&& p.1 == started_event(p.0)
        },
{
    if segments.len() == 0 {
        return Err(String::from_str("No segments to export. Add segments before exporting."));
    }
    let job = ExportJob {
        job_id: fresh_id(),
        clip_id: clip.id.clone(),
        clip_name: clip.original_name.clone(),
        total: segments.len(),
    };
    let started = ExportEvent::Started {
        job_id: job.job_id.clone(),
        clip_id: job.clip_id.clone(),
        clip_name: job.clip_name.clone(),
        total: job.total,
    };
    Ok((job, started))
}

/// Where a running job stands.
pub enum RunState {
    Running,
    Failed,
    Completed,
}

/// The live state of one detached export run: how many segments are done,
/// whether the run still goes on, and — as ghost history — every event the
/// run has emitted, in order.
pub struct JobRun {
    pub job: ExportJob,
    pub done: usize,
    pub state: RunState,
    pub history: Ghost<Seq<ExportEvent>>,
}

impl JobRun {
    /// The history always reads: started, then one progress event per
    /// finished segment, then at most one terminal event — a failed run
    /// keeps the progress it had, a completed one finished every segment.
    pub open spec fn wf(self) -> bool {
        &&& self.done <= self.job.total
        &&& match self.state {
            RunState::Running => self.history@ == run_prefix(self.job, self.done as int),
            RunState::Failed => exists|err: String|
                self.history@ == #[trigger] run_prefix(self.job, self.done as int).push(
                    (ExportEvent::Failed { job_id: self.job.job_id, error: err }),
                ),
            RunState::Completed => self.done == self.job.total && self.history@ == run_prefix(
                self.job,
                self.done as int,
            ).push(ExportEvent::Completed { job_id: self.job.job_id }),
        }
    }

    /// Begin a run for an accepted job whose started event `started` was
    /// just emitted.
    pub fn start(job: ExportJob, started: ExportEvent) -> (r: JobRun)
        requires
            started == started_event(job),
        ensures
            r.wf(),
            r.state is Running,
            r.done == 0,
            r.job == job,
            r.history@ == seq![started],
    {
        let ghost h = seq![started];
        let r = JobRun { job, done: 0, state: RunState::Running, history: Ghost(h) };
        proof {
            assert(progress_events(r.job, 0) =~= Seq::<ExportEvent>::empty());
            assert(r.history@ =~= run_prefix(r.job, 0));
        }
        r
    }

    /// One more segment encoded: emit its progress event, whose ordinal is
    /// the count of segments finished so far.
    pub fn record_segment_done(&mut self) -> (e: ExportEvent)
        requires
            old(self).wf(),
            old(self).state is Running,
            old(self).done < old(self).job.total,
        ensures
            final(self).wf(),
            final(self).state is Running,
            final(self).job == old(self).job,
            final(self).done == old(self).done + 1,
            e == (ExportEvent::Progress {
                job_id: old(self).job.job_id,
                current: (old(self).done + 1) as usize,
                total: old(self).job.total,
            }),
            final(self).history@ == old(self).history@.push(e),
    {
        self.done = self.done + 1;
        let e = ExportEvent::Progress {
            job_id: self.job.job_id.clone(),
            current: self.done,
            total: self.job.total,
        };
        proof {
            self.history@ = self.history@.push(
                ExportEvent::Progress {
                    job_id: self.job.job_id,
                    current: self.done,
                    total: self.job.total,
                },
            );
            assert(progress_events(self.job, self.done as int) =~= progress_events(
                self.job,
                self.done as int - 1,
            ).push(
                ExportEvent::Progress {
                    job_id: self.job.job_id,
                    current: self.done,
                    total: self.job.total,
                },
            ));
            assert(self.history@ =~= run_prefix(self.job, self.done as int));
        }
        e
    }

    /// A segment's encode failed: emit the failed event and end the run.
    /// The segments already produced stay on disk; nothing further may be
    /// emitted for this job.
    pub fn record_failure(&mut self, error: String) -> (e: ExportEvent)
        requires
            old(self).wf(),
            old(self).state is Running,
        ensures
            final(self).wf(),
            final(self).state is Failed,
            final(self).job == old(self).job,
            final(self).done == old(self).done,
            e == (ExportEvent::Failed { job_id: old(self).job.job_id, error }),
            final(self).history@ == old(self).history@.push(e),
    {
        self.state = RunState::Failed;
        let e = ExportEvent::Failed { job_id: self.job.job_id.clone(), error };
        proof {
            self.history@ = self.history@.push(e);
            assert(self.history@ == run_prefix(self.job, self.done as int).push(
                ExportEvent::Failed { job_id: self.job.job_id, error },
            ));
        }
        e
    }

    /// Every segment succeeded and the clip's status was persisted: emit the
    /// completed event and end the run. Completed and failed are mutually
    /// exclusive ends.
    pub fn record_completion(&mut self) -> (e: ExportEvent)
        requires
            old(self).wf(),
            old(self).state is Running,
            old(self).done == old(self).job.total,
        ensures
            final(self).wf(),
            final(self).state is Completed,
            final(self).job == old(self).job,
            final(self).done == old(self).done,
            e == (ExportEvent::Completed { job_id: old(self).job.job_id }),
            final(self).history@ == old(self).history@.push(e),
    {
        self.state = RunState::Completed;
        let e = ExportEvent::Completed { job_id: self.job.job_id.clone() };
        proof {
            self.history@ = self.history@.push(ExportEvent::Completed { job_id: self.job.job_id });
        }
        e
    }
}

/// The prefix of a run — started plus progress — holds no terminal event.
proof fn lemma_prefix_no_terminal(job: ExportJob, k: int)
    requires
        0 <= k,
    ensures
        count_terminals(run_prefix(job, k)) == 0,
    decreases k,
{
    if k == 0 {
        let h = run_prefix(job, 0);
        assert(h =~= seq![started_event(job)]);
        assert(h.len() == 1);
        assert(h.last() == started_event(job));
        assert(!is_terminal(h.last()));
        assert(h.drop_last() =~= Seq::<ExportEvent>::empty());
        assert(count_terminals(h.drop_last()) == 0);
        assert(count_terminals(h) == 0);
        assert(count_terminals(run_prefix(job, k)) == 0);
    } else {
        lemma_prefix_no_terminal(job, k - 1);
        let h = run_prefix(job, k);
        assert(h.len() == k + 1);
        assert(h.drop_last() =~= run_prefix(job, k - 1));
        assert(count_terminals(h.drop_last()) == 0);
        assert(h.last() == progress_events(job, k)[k - 1]);
        assert(!is_terminal(h.last()));
        assert(count_terminals(h) == 0);
        assert(count_terminals(run_prefix(job, k)) == 0);
    }
}

/// A job's stream carries at most one terminal event, exactly one once the
/// run has ended, and none while it still runs: failed and completed are
/// mutually exclusive, and neither is ever emitted twice.
pub proof fn lemma_one_terminal_event(r: JobRun)
    requires
        r.wf(),
    ensures
        count_terminals(r.history@) <= 1,
        r.state is Running ==> count_terminals(r.history@) == 0,
        !(r.state is Running) ==> count_terminals(r.history@) == 1 && is_terminal(
            r.history@.last(),
        ),
        r.history@.len() > 0 && r.history@[0] == started_event(r.job),
{
    lemma_prefix_no_terminal(r.job, r.done as int);
    match r.state {
        RunState::Running => {
            assert(r.history@[0] == run_prefix(r.job, r.done as int)[0]);
        },
        RunState::Failed => {
            let err = choose|err: String|
                r.history@ == run_prefix(r.job, r.done as int).push(
                    ExportEvent::Failed { job_id: r.job.job_id, error: err },
                );
            let h = run_prefix(r.job, r.done as int);
            assert(r.history@.drop_last() =~= h);
            assert(r.history@[0] == h[0]);
        },
        RunState::Completed => {
            let h = run_prefix(r.job, r.done as int);
            assert(r.history@.drop_last() =~= h);
            assert(r.history@[0] == h[0]);
        },
    }
}

/// The encoder's seek arithmetic for one segment: a coarse pre-seek to ten
/// seconds before the cut (clamped to the start of the file), the exact
/// offset from there, and the cut's duration.
pub struct EncodePlan {
    pub preseek_ms: i64,
    pub seek_offset_ms: i64,
    pub duration_ms: i64,
}

/// Fix the seek points for encoding `[start_ms, end_ms)` of a source file.
pub fn encode_plan(start_ms: i64, end_ms: i64) -> (r: EncodePlan)
    requires
        0 <= start_ms < end_ms,
    ensures
        r.preseek_ms == if start_ms > 10000 {
            start_ms - 10000
        } else {
            0
        },
        r.preseek_ms + r.seek_offset_ms == start_ms,
        r.duration_ms == end_ms - start_ms,
        0 <= r.preseek_ms,
        0 <= r.seek_offset_ms <= 10000,
        0 < r.duration_ms,
{
    let preseek_ms = if start_ms > 10000 {
        start_ms - 10000
    } else {
        0
    };
    EncodePlan { preseek_ms, seek_offset_ms: start_ms - preseek_ms, duration_ms: end_ms - start_ms }
}

/// A segment ordinal rendered with at least two digits, as the output names
/// carry it.
pub open spec fn pad2(n: nat) -> Seq<char> {
    if n < 10 {
        seq!['0'] + dec_rep(n)
    } else {
        dec_rep(n)
    }
}

/// The desired output name (before collision handling and extension) for one
/// segment: the clip's stem, a two-digit 1-based ordinal, and the segment's
/// label when it is not blank.
pub open spec fn output_base(stem: Seq<char>, seg_num: nat, label: Option<Seq<char>>) -> Seq<
    char,
> {
    let base = stem + "__trim"@ + pad2(seg_num);
    match label {
        Some(l) => if !spec_is_blank(l) {
            base + "__"@ + l
        } else {
            base
        },
        None => base,
    }
}

/// Build the output base name for the segment numbered `seg_num` (1-based).
pub fn segment_output_base(stem: &str, seg_num: usize, label: Option<&String>) -> (r: String)
    requires
        seg_num < usize::MAX,
    ensures
        r@ == output_base(
            stem@,
            seg_num as nat,
            match label {
                Some(l) => Some(l@),
                None => None,
            },
        ),
{
    let mut s = String::from_str(stem);
    s.append("__trim");
    if seg_num < 10 {
        s.append("0");
    }
    s.append(crate::numeric::u64_to_dec(seg_num as u64).as_str());
    proof {
        reveal_strlit("0");
        assert("0"@ =~= seq!['0']);
        assert(s@ =~= stem@ + "__trim"@ + pad2(seg_num as nat));
    }
    match label {
        Some(l) => {
            if !crate::text::is_blank(l.as_str()) {
                s.append("__");
                s.append(l.as_str());
                proof {
                    assert(s@ =~= output_base(stem@, seg_num as nat, Some(l@)));
                }
            } else {
                proof {
                    assert(s@ =~= output_base(stem@, seg_num as nat, Some(l@)));
                }
            }
        },
        None => {
            proof {
                assert(s@ =~= output_base(stem@, seg_num as nat, None));
            }
        },
    }
    s
}

} // verus!

//! Clips and their lifecycle: discovery of new source files in the import
//! folder, the one-time migration of a claimed file into the backup folder,
//! and the forward-only status state machine new → in progress → done.

use vstd::prelude::*;
use crate::ids::fresh_id;
use crate::text::{spec_extension, split_name, str_eq};
use crate::workdir::{join_path, spec_join};

verus! {

#[derive(Clone, Copy, PartialEq, Eq, Structural, Debug)]
pub enum ClipStatus {
    New,
    InProgress,
    Done,
}

impl ClipStatus {
    /// How far along the lifecycle a status lies; transitions never lower it.
    pub open spec fn rank(self) -> nat {
        match self {
            ClipStatus::New => 0,
            ClipStatus::InProgress => 1,
            ClipStatus::Done => 2,
        }
    }

    /// The text the record store keeps for each status.
    pub open spec fn spec_text(self) -> Seq<char> {
        match self {
            ClipStatus::New => "new"@,
            ClipStatus::InProgress => "in_progress"@,
            ClipStatus::Done => "done"@,
        }
    }

    /// The status as the text the record store keeps.
    pub fn as_text(self) -> (r: &'static str)
        ensures
            r@ == self.spec_text(),
    {
        match self {
            ClipStatus::New => "new",
            ClipStatus::InProgress => "in_progress",
            ClipStatus::Done => "done",
        }
    }

    /// Read a status back from the record store's text: exactly the three
    /// stored spellings are accepted.
    pub fn from_text(s: &str) -> (r: Option<ClipStatus>)
        ensures
            r matches Some(st) ==> s@ == st.spec_text(),
            r is None ==> forall|st: ClipStatus| s@ != #[trigger] st.spec_text(),
    {
        proof {
            reveal_strlit("new");
            reveal_strlit("in_progress");
            reveal_strlit("done");
            assert("new"@.len() == 3 && "in_progress"@.len() == 11 && "done"@.len() == 4);
            assert("new"@ != "in_progress"@ && "new"@ != "done"@ && "in_progress"@ != "done"@);
        }
        if str_eq(s, "new") {
            Some(ClipStatus::New)
        } else if str_eq(s, "in_progress") {
            Some(ClipStatus::InProgress)
        } else if str_eq(s, "done") {
            Some(ClipStatus::Done)
        } else {
            None
        }
    }
}

/// One imported video file tracked through its lifecycle. While the status
/// is still `New`, `backup_path` temporarily holds the import-folder path of
/// the not-yet-claimed file; from `InProgress` on it holds the file's place
/// in the backup folder.
pub struct Clip {
    pub id: String,
    pub original_name: String,
    pub backup_path: String,
    pub status: ClipStatus,
    pub created_at: i64,
}

/// Does a file name carry the supported container extension, compared
/// without regard to ASCII case?
pub open spec fn is_supported_media(name: Seq<char>) -> bool {
    match spec_extension(name) {
        Some(e) => e.len() == 3 && (e[0] == 'm' || e[0] == 'M') && (e[1] == 'p' || e[1] == 'P')
            && e[2] == '4',
        None => false,
    }
}

/// Decide whether a file name is supported source material.
pub fn is_supported_media_name(name: &str) -> (r: bool)
    ensures
        r == is_supported_media(name@),
{
    let (_stem, ext) = split_name(name);
    match ext {
        Some(e) => {
            let n = e.unicode_len();
            if n != 3 {
                return false;
            }
            let c0 = e.as_str().get_char(0);
            let c1 = e.as_str().get_char(1);
            let c2 = e.as_str().get_char(2);
            (c0 == 'm' || c0 == 'M') && (c1 == 'p' || c1 == 'P') && c2 == '4'
        },
        None => false,
    }
}

/// The original names of a batch of clips.
pub open spec fn clip_names(clips: Seq<Clip>) -> Seq<Seq<char>> {
    clips.map_values(|c: Clip| c.original_name@)
}

/// Which of the names found in the import folder become new clips, given the
/// names already known: the supported ones not yet known, first occurrence
/// only, in the order found.
pub open spec fn scan_additions(found: Seq<Seq<char>>, known: Set<Seq<char>>) -> Seq<Seq<char>>
    decreases found.len(),
{
    if found.len() == 0 {
        Seq::empty()
    } else {
        let first = found[0];
        if is_supported_media(first) && !known.contains(first) {
            seq![first] + scan_additions(found.skip(1), known.insert(first))
        } else {
            scan_additions(found.skip(1), known)
        }
    }
}

/// Does some clip in the batch carry this original name?
pub fn batch_has_name(clips: &Vec<Clip>, name: &str) -> (r: bool)
    ensures
        r == clip_names(clips@).to_set().contains(name@),
{
    let n = clips.len();
    let mut i: usize = 0;
    let ghost mapped = clip_names(clips@);
    while i < n
        invariant
            i <= n,
            n == clips@.len(),
            mapped == clip_names(clips@),
            forall|j: int| 0 <= j < i ==> clips@[j].original_name@ != name@,
        decreases n - i,
    {
        if str_eq(clips[i].original_name.as_str(), name) {
            proof {
                assert(mapped[i as int] == name@);
                assert(mapped.contains(name@));
            }
            return true;
        }
        i = i + 1;
    }
    proof {
        assert forall|j: int| 0 <= j < mapped.len() implies mapped[j] != name@ by {
            assert(mapped[j] == clips@[j].original_name@);
        }
        assert(!mapped.contains(name@));
    }
    false
}

/// Build the clips a scan of the import folder adds: one clip, with status
/// `New` and a fresh identity, for each supported file name not already
/// known, stamped `now` and pointing, for the time being, at the file's
/// place in the import folder.
pub fn plan_scan(found: &Vec<String>, known: &Vec<Clip>, in_dir: &str, now: i64) -> (r: Vec<Clip>)
    ensures
        clip_names(r@) == scan_additions(
            found@.map_values(|s: String| s@),
            clip_names(known@).to_set(),
        ),
        forall|j: int|
            0 <= j < r@.len() ==> {
                &&& (#[trigger] r@[j]).status is New
                &&& r@[j].created_at == now
                &&& r@[j].backup_path@ == spec_join(in_dir@, r@[j].original_name@)
                &&& r@[j].id@.len() == 36
                &&& is_supported_media(r@[j].original_name@)
                &&& !clip_names(known@).to_set().contains(r@[j].original_name@)
            },
{
    let ghost fv = found@.map_values(|s: String| s@);
    let ghost known0 = clip_names(known@).to_set();
    let n = found.len();
    let mut r: Vec<Clip> = Vec::new();
    let mut i: usize = 0;
    proof {
        assert(fv.skip(0) =~= fv);
        assert(clip_names(r@) =~= Seq::<Seq<char>>::empty());
        assert(known0.union(clip_names(r@).to_set()) =~= known0);
        assert(clip_names(r@) + scan_additions(fv, known0) =~= scan_additions(fv, known0));
    }
    while i < n
        invariant
            i <= n,
            n == found@.len(),
            fv == found@.map_values(|s: String| s@),
            known0 == clip_names(known@).to_set(),
            scan_additions(fv, known0) == clip_names(r@) + scan_additions(
                fv.skip(i as int),
                known0.union(clip_names(r@).to_set()),
            ),
            forall|j: int|
                0 <= j < r@.len() ==> {
                    &&& (#[trigger] r@[j]).status is New
                    &&& r@[j].created_at == now
                    &&& r@[j].backup_path@ == spec_join(in_dir@, r@[j].original_name@)
                    &&& r@[j].id@.len() == 36
                    &&& is_supported_media(r@[j].original_name@)
                    &&& !known0.contains(r@[j].original_name@)
                },
        decreases n - i,
    {
        let name = &found[i];
        let ghost old_r = r@;
        let ghost kset = known0.union(clip_names(old_r).to_set());
        proof {
            assert(fv.skip(i as int)[0] == fv[i as int]);
            assert(fv.skip(i as int).skip(1) =~= fv.skip(i as int + 1));
        }
        let supported = is_supported_media_name(name.as_str());
        if supported && !batch_has_name(known, name.as_str()) && !batch_has_name(&r, name.as_str()) {
            let clip = Clip {
                id: fresh_id(),
                original_name: name.clone(),
                backup_path: join_path(in_dir, name.as_str()),
                status: ClipStatus::New,
                created_at: now,
            };
            r.push(clip);
            proof {
                assert(clip_names(r@) =~= clip_names(old_r).push(name@));
                assert(clip_names(r@) =~= clip_names(old_r) + seq![name@]);
                assert(!kset.contains(name@));
                assert(scan_additions(fv.skip(i as int), kset) == seq![name@] + scan_additions(
                    fv.skip(i as int + 1),
                    kset.insert(name@),
                ));
                assert(kset.insert(name@) =~= known0.union(clip_names(r@).to_set())) by {
                    clip_names(old_r).lemma_push_to_set_commute(name@);
                    assert(clip_names(r@) =~= clip_names(old_r).push(name@));
                    assert(clip_names(r@).to_set() =~= clip_names(old_r).to_set().insert(name@));
                }
                assert(clip_names(old_r) + (seq![name@] + scan_additions(
                    fv.skip(i as int + 1),
                    kset.insert(name@),
                )) =~= clip_names(r@) + scan_additions(fv.skip(i as int + 1), kset.insert(name@)));
            }
        } else {
            proof {
                if supported {
                    assert(kset.contains(name@));
                }
                assert(scan_additions(fv.skip(i as int), kset) == scan_additions(
                    fv.skip(i as int + 1),
                    kset,
                ));
            }
        }
        i = i + 1;
    }
    proof {
        assert(fv.skip(n as int) =~= Seq::<Seq<char>>::empty());
        assert(scan_additions(fv.skip(n as int), known0.union(clip_names(r@).to_set()))
            =~= Seq::<Seq<char>>::empty());
        assert(clip_names(r@) + Seq::<Seq<char>>::empty() =~= clip_names(r@));
    }
    r
}

/// Scan the import folder's file names against the clips already known:
/// every supported, not-yet-known name becomes a new clip, stamped with the
/// present moment. All clips of one scan share that stamp; everything else
/// about them is as [`plan_scan`] states.
pub fn scan_imports(found: &Vec<String>, known: &Vec<Clip>, in_dir: &str) -> (r: Vec<Clip>)
    ensures
        clip_names(r@) == scan_additions(
            found@.map_values(|s: String| s@),
            clip_names(known@).to_set(),
        ),
        forall|j: int|
            0 <= j < r@.len() ==> {
                &&& (#[trigger] r@[j]).status is New
                &&& r@[j].backup_path@ == spec_join(in_dir@, r@[j].original_name@)
                &&& r@[j].id@.len() == 36
                &&& is_supported_media(r@[j].original_name@)
                &&& !clip_names(known@).to_set().contains(r@[j].original_name@)
            },
        forall|i: int, j: int|
            0 <= i < r@.len() && 0 <= j < r@.len() ==> (#[trigger] r@[i]).created_at == (
            #[trigger] r@[j]).created_at,
{
    let now = crate::clock::now_timestamp();
    plan_scan(found, known, in_dir, now)
}

/// Whether opening a clip still owes the one-time backup migration.
pub open spec fn needs_migration(c: Clip) -> bool {
    c.status is New
}

/// What opening a clip requires of the caller: move the file now sitting at
/// `source` into the backup folder, or nothing at all.
pub enum OpenAction {
    Move { source: String },
    Keep,
}

/// Decide what opening this clip takes. The move is owed exactly while the
/// clip is still `New`; any later open is a no-op, so opening is idempotent.
pub fn open_clip_plan(clip: &Clip) -> (r: OpenAction)
    ensures
        needs_migration(*clip) ==> (r matches OpenAction::Move { source } && source@
            == clip.backup_path@),
        !needs_migration(*clip) ==> r is Keep,
{
    match clip.status {
        ClipStatus::New => OpenAction::Move { source: clip.backup_path.clone() },
        _ => OpenAction::Keep,
    }
}

/// The clip as it stands once its backup move to `new_path` is recorded.
pub open spec fn spec_backup_moved(c: Clip, new_path: String) -> Clip {
    Clip {
        id: c.id,
        original_name: c.original_name,
        backup_path: new_path,
        status: ClipStatus::InProgress,
        created_at: c.created_at,
    }
}

/// Record a finished backup move: the clip now points at its new place and
/// is `InProgress`. Nothing else about it changes, and its status rank only
/// rises. The record store is updated only after the move succeeded, so a
/// failed move leaves the clip untouched.
pub fn apply_backup_move(clip: Clip, new_path: String) -> (r: Clip)
    requires
        needs_migration(clip),
    ensures
        r == spec_backup_moved(clip, new_path),
        r.status.rank() >= clip.status.rank(),
        !needs_migration(r),
{
    Clip {
        id: clip.id,
        original_name: clip.original_name,
        backup_path: new_path,
        status: ClipStatus::InProgress,
        created_at: clip.created_at,
    }
}

/// Mark a clip done after a full export. Forward-only: `Done` is the top of
/// the lifecycle, so the rank never falls.
pub fn mark_done(clip: Clip) -> (r: Clip)
    ensures
        r.status is Done,
        r.id == clip.id && r.original_name == clip.original_name && r.backup_path
            == clip.backup_path && r.created_at == clip.created_at,
        r.status.rank() >= clip.status.rank(),
{
    Clip {
        id: clip.id,
        original_name: clip.original_name,
        backup_path: clip.backup_path,
        status: ClipStatus::Done,
        created_at: clip.created_at,
    }
}

/// Opening performs the backup move at most once: whatever clip the move was
/// applied to, the result no longer needs migration, so every later open
/// plans `Keep` and returns the clip unchanged.
pub proof fn lemma_open_idempotent(c: Clip, new_path: String)
    ensures
        !needs_migration(spec_backup_moved(c, new_path)),
{
}

} // verus!

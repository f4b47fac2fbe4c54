//! The operator-selected working directory and its four fixed locations:
//! the import folder scanned for new material, the export folder that
//! receives trimmed output, the backup folder that keeps originals, and the
//! hidden metadata folder holding the record store. The paths are derived
//! once from the chosen root and never change for the session.

use vstd::prelude::*;

verus! {

/// Join a directory path and an entry name with a slash.
pub open spec fn spec_join(dir: Seq<char>, name: Seq<char>) -> Seq<char> {
    dir + "/"@ + name
}

/// Append `name` to the directory path `dir`.
pub fn join_path(dir: &str, name: &str) -> (r: String)
    ensures
        r@ == spec_join(dir@, name@),
{
    let mut s = String::from_str(dir);
    s.append("/");
    s.append(name);
    s
}

#[derive(Clone)]
pub struct WorkingDirectory {
    pub root: String,
    pub in_dir: String,
    pub out_dir: String,
    pub backup_dir: String,
    pub db_path: String,
}

impl WorkingDirectory {
    /// The four derived locations hang directly off the root; the record
    /// store sits inside the hidden metadata directory.
    pub open spec fn wf(self) -> bool {
        &&& self.in_dir@ == spec_join(self.root@, "IN"@)
        &&& self.out_dir@ == spec_join(self.root@, "OUT"@)
        &&& self.backup_dir@ == spec_join(self.root@, "BACKUP"@)
        &&& self.db_path@ == spec_join(spec_join(self.root@, ".cliptrim"@), "cliptrim.db"@)
    }

    /// Derive the session's fixed locations from the chosen root. Creating
    /// the directories on disk is the caller's, since it is plain I/O; this
    /// constructor fixes where they stand.
    pub fn new(root: &str) -> (r: WorkingDirectory)
        ensures
            r.wf(),
            r.root@ == root@,
    {
        let meta_dir = join_path(root, ".cliptrim");
        WorkingDirectory {
            root: String::from_str(root),
            in_dir: join_path(root, "IN"),
            out_dir: join_path(root, "OUT"),
            backup_dir: join_path(root, "BACKUP"),
            db_path: join_path(meta_dir.as_str(), "cliptrim.db"),
        }
    }
}

} // verus!

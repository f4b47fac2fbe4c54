//! Collision-avoidance naming, shared by the backup move and the export
//! writer: the first candidate is the desired name itself; on collision a
//! version suffix counts up from 2 until a free name is found. The scheme
//! assumes a single writer per destination directory.

use vstd::prelude::*;
use crate::numeric::{dec_rep, lemma_dec_rep_val, lemma_dec_rep_injective, u64_to_dec};
use crate::text::str_eq;

verus! {

broadcast use vstd::set::group_set_axioms;

/// The `k`-th candidate name for a desired `stem` and `ext`: the plain name
/// for `k == 0`, then `stem`, the infix (`_v` for exports, `_orig_v` for
/// backups), a version counter starting at 2, a dot and the extension.
pub open spec fn candidate(stem: Seq<char>, infix: Seq<char>, ext: Seq<char>, k: nat) -> Seq<char> {
    if k == 0 {
        stem + "."@ + ext
    } else {
        stem + infix + dec_rep(k + 1) + "."@ + ext
    }
}

/// The names already taken, as a set of character sequences.
pub open spec fn name_set(existing: Seq<String>) -> Set<Seq<char>> {
    existing.map_values(|s: String| s@).to_set()
}

/// Distinct candidate numbers give distinct names.
pub proof fn lemma_candidate_injective(
    stem: Seq<char>,
    infix: Seq<char>,
    ext: Seq<char>,
    k1: nat,
    k2: nat,
)
    requires
        infix.len() > 0,
        candidate(stem, infix, ext, k1) == candidate(stem, infix, ext, k2),
    ensures
        k1 == k2,
{
    reveal_strlit(".");
    lemma_dec_rep_val(k1 + 1);
    lemma_dec_rep_val(k2 + 1);
    if k1 == 0 && k2 != 0 {
        assert(candidate(stem, infix, ext, k1) == stem + "."@ + ext);
        assert(candidate(stem, infix, ext, k2) == stem + infix + dec_rep(k2 + 1) + "."@ + ext);
        assert((stem + "."@ + ext).len() == stem.len() + 1 + ext.len());
        assert((stem + infix + dec_rep(k2 + 1) + "."@ + ext).len() == stem.len() + infix.len()
            + dec_rep(k2 + 1).len() + 1 + ext.len());
        assert(candidate(stem, infix, ext, k1).len() < candidate(stem, infix, ext, k2).len());
    } else if k1 != 0 && k2 == 0 {
        assert(candidate(stem, infix, ext, k1) == stem + infix + dec_rep(k1 + 1) + "."@ + ext);
        assert(candidate(stem, infix, ext, k2) == stem + "."@ + ext);
        assert((stem + "."@ + ext).len() == stem.len() + 1 + ext.len());
        assert((stem + infix + dec_rep(k1 + 1) + "."@ + ext).len() == stem.len() + infix.len()
            + dec_rep(k1 + 1).len() + 1 + ext.len());
        assert(candidate(stem, infix, ext, k2).len() < candidate(stem, infix, ext, k1).len());
    } else if k1 != 0 && k2 != 0 {
        let d1 = dec_rep(k1 + 1);
        let d2 = dec_rep(k2 + 1);
        let c1 = candidate(stem, infix, ext, k1);
        let c2 = candidate(stem, infix, ext, k2);
        assert(c1.len() == stem.len() + infix.len() + d1.len() + 1 + ext.len());
        assert(c2.len() == stem.len() + infix.len() + d2.len() + 1 + ext.len());
        assert(d1.len() == d2.len());
        let a = stem.len() + infix.len();
        assert(d1 =~= c1.subrange(a as int, (a + d1.len()) as int));
        assert(d2 =~= c2.subrange(a as int, (a + d2.len()) as int));
        lemma_dec_rep_injective(k1 + 1, k2 + 1);
    }
}

/// At most `e.len()` pairwise-distinct values can all lie in a finite set `e`.
proof fn lemma_distinct_members_bound(f: spec_fn(nat) -> Seq<char>, k: nat, e: Set<Seq<char>>)
    requires
        e.finite(),
        forall|i: nat, j: nat| i < j < k ==> #[trigger] f(i) != #[trigger] f(j),
        forall|i: nat| i < k ==> e.contains(#[trigger] f(i)),
    ensures
        k <= e.len(),
    decreases k,
{
    if k > 0 {
        let last = f((k - 1) as nat);
        let e2 = e.remove(last);
        assert(forall|i: nat| i < k - 1 ==> f(i) != last && e2.contains(#[trigger] f(i)));
        lemma_distinct_members_bound(f, (k - 1) as nat, e2);
    }
}

/// Is `name` one of the names already present?
fn contains_name(existing: &Vec<String>, name: &str) -> (r: bool)
    ensures
        r == name_set(existing@).contains(name@),
{
    let n = existing.len();
    let mut i: usize = 0;
    let ghost mapped = existing@.map_values(|s: String| s@);
    while i < n
        invariant
            i <= n,
            n == existing@.len(),
            mapped == existing@.map_values(|s: String| s@),
            forall|j: int| 0 <= j < i ==> existing@[j]@ != name@,
        decreases n - i,
    {
        if str_eq(existing[i].as_str(), name) {
            proof {
                assert(mapped[i as int] == name@);
                assert(mapped.contains(name@));
            }
            return true;
        }
        i = i + 1;
    }
    proof {
        assert forall|j: int| 0 <= j < mapped.len() implies mapped[j] != name@ by {
            assert(mapped[j] == existing@[j]@);
        }
        assert(!mapped.contains(name@));
    }
    false
}

/// The `k`-th candidate name, as text.
fn build_candidate(stem: &str, infix: &str, ext: &str, k: usize) -> (r: String)
    requires
        k < usize::MAX,
    ensures
        r@ == candidate(stem@, infix@, ext@, k as nat),
{
    let mut s = String::from_str(stem);
    if k > 0 {
        s.append(infix);
        s.append(u64_to_dec(k as u64 + 1).as_str());
    }
    s.append(".");
    s.append(ext);
    s
}

/// The first candidate name not already taken. The result is pinned exactly:
/// it is a candidate, it is free, and every earlier candidate is taken.
pub fn resolve_name(stem: &str, infix: &str, ext: &str, existing: &Vec<String>) -> (r: String)
    requires
        infix@.len() > 0,
        existing@.len() < usize::MAX,
    ensures
        !name_set(existing@).contains(r@),
        exists|k: nat|
            r@ == candidate(stem@, infix@, ext@, k) && (forall|j: nat|
                j < k ==> name_set(existing@).contains(#[trigger] candidate(stem@, infix@, ext@, j))),
{
    let ghost eset = name_set(existing@);
    proof {
        existing@.map_values(|s: String| s@).lemma_cardinality_of_set();
        vstd::seq_lib::seq_to_set_is_finite::<Seq<char>>(existing@.map_values(|s: String| s@));
    }
    let mut k: usize = 0;
    loop
        invariant
            infix@.len() > 0,
            existing@.len() < usize::MAX,
            eset == name_set(existing@),
            eset.finite(),
            eset.len() <= existing@.len(),
            k <= eset.len(),
            forall|j: nat| j < k ==> eset.contains(#[trigger] candidate(stem@, infix@, ext@, j)),
        decreases existing@.len() - k,
    {
        let cand = build_candidate(stem, infix, ext, k);
        if !contains_name(existing, cand.as_str()) {
            return cand;
        }
        proof {
            let cand_fn = |i: nat| candidate(stem@, infix@, ext@, i);
            assert(forall|i: nat| #[trigger] cand_fn(i) == candidate(stem@, infix@, ext@, i));
            assert forall|i: nat, j: nat| i < j < k + 1 implies #[trigger] cand_fn(i)
                != #[trigger] cand_fn(j) by {
                if cand_fn(i) == cand_fn(j) {
                    lemma_candidate_injective(stem@, infix@, ext@, i, j);
                }
            }
            assert(forall|i: nat| i < k + 1 ==> eset.contains(#[trigger] cand_fn(i)));
            lemma_distinct_members_bound(cand_fn, (k + 1) as nat, eset);
        }
        k = k + 1;
    }
}

/// The collision-safe output name for an export: `{base}.mp4`, or
/// `{base}_v{counter}.mp4` from 2 up once taken.
pub fn resolve_export_name(base: &str, existing: &Vec<String>) -> (r: String)
    requires
        existing@.len() < usize::MAX,
    ensures
        !name_set(existing@).contains(r@),
        exists|k: nat|
            r@ == candidate(base@, "_v"@, "mp4"@, k) && (forall|j: nat|
                j < k ==> name_set(existing@).contains(#[trigger] candidate(base@, "_v"@, "mp4"@, j))),
{
    proof {
        reveal_strlit("_v");
    }
    resolve_name(base, "_v", "mp4", existing)
}

/// The collision-safe backup name for a claimed file: its own name, or
/// `{stem}_orig_v{counter}.{ext}` from 2 up once taken.
pub fn resolve_backup_name(stem: &str, ext: &str, existing: &Vec<String>) -> (r: String)
    requires
        existing@.len() < usize::MAX,
    ensures
        !name_set(existing@).contains(r@),
        exists|k: nat|
            r@ == candidate(stem@, "_orig_v"@, ext@, k) && (forall|j: nat|
                j < k ==> name_set(existing@).contains(
                    #[trigger] candidate(stem@, "_orig_v"@, ext@, j),
                )),
{
    proof {
        reveal_strlit("_orig_v");
    }
    resolve_name(stem, "_orig_v", ext, existing)
}

/// Whatever names are taken, two resolutions in a row never collide: once
/// the first resolved name is taken (the file was written), resolving the
/// same desired name again yields a different one, so the first file is
/// never overwritten.
pub proof fn lemma_reresolve_differs(taken: Set<Seq<char>>, first: Seq<char>, second: Seq<char>)
    requires
        !taken.contains(first),
        !taken.insert(first).contains(second),
    ensures
        second != first,
        !taken.contains(second),
{
}

} // verus!

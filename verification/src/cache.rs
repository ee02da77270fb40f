//! The solution cache: for every reachable lit-pattern, a press-pattern of
//! least weight that produces it.  The cache is built by exhaustive
//! enumeration of press-patterns (in shards, merged by keeping the better
//! candidate per key), can be narrowed to one sorted entry per canonical
//! lit-pattern, and is queried either directly or through the canonical
//! table by a binary search, carrying the answer back into the caller's
//! orientation.

use vstd::prelude::*;

use crate::symmetry::canonicalize;
use crate::symmetry::apply_transform_inverse;
use crate::symmetry::spec_apply;
use crate::symmetry::spec_apply_inverse;
use crate::symmetry::spec_canonical;
use crate::symmetry::lemma_transform_apply;
use crate::symmetry::lemma_transform_apply_inverse;
use crate::symmetry::lemma_weight_apply;
use crate::symmetry::lemma_apply_inverse_bound;
use crate::transform::PATTERN_LIMIT;
use crate::transform::forward_transform;
use crate::transform::generate_map;
use crate::transform::press_weight;
use crate::transform::spec_weight;

verus! {

/// A press-pattern that produces the lit-pattern `lit`.
pub open spec fn is_solution(press: u32, lit: u32) -> bool {
    press < PATTERN_LIMIT && forward_transform(press) == lit
}

/// The build's preference between two solutions of one lit-pattern: fewer
/// presses first, and the smaller press-pattern value on equal weight, so
/// that an ascending enumeration keeps its first-seen minimum.
pub open spec fn prefers(p: u32, q: u32) -> bool {
    spec_weight(p) < spec_weight(q) || (spec_weight(p) == spec_weight(q) && p <= q)
}

/// The press-patterns of the half-open range `[lo, hi)`.
pub open spec fn press_range(lo: u32, hi: u32) -> Set<u32> {
    Set::new(|p: u32| lo <= p < hi)
}

/// Marks a cache slot that holds no entry; real weights never exceed 25.
pub const NO_ENTRY: u8 = 0xFF;

/// The dense solution table: one slot per possible lit-pattern, holding
/// the preferred press-pattern seen so far and its weight (`NO_ENTRY` while
/// no press-pattern for that lit-pattern has been enumerated).  The ghost
/// `considered` set records which press-patterns the entries are minimal
/// over; a full build considers all of `[0, 2^25)`.
pub struct SolveCache {
    pub press: Vec<u32>,
    pub weight: Vec<u8>,
    pub considered: Ghost<Set<u32>>,
}

impl SolveCache {
    /// What one slot promises: an empty slot has seen no solution, a
    /// filled one holds the preferred solution among those considered.
    pub open spec fn entry_ok(self, k: int) -> bool {
        &&& (self.weight@[k] == NO_ENTRY ==> forall|q: u32|
            self.considered@.contains(q) ==> !is_solution(q, k as u32))
        &&& (self.weight@[k] != NO_ENTRY ==> {
            &&& self.considered@.contains(self.press@[k])
            &&& is_solution(self.press@[k], k as u32)
            &&& self.weight@[k] as int == spec_weight(self.press@[k])
            &&& forall|q: u32|
                self.considered@.contains(q) && is_solution(q, k as u32) ==> prefers(
                    self.press@[k],
                    q,
                )
        })
    }

    /// A well-formed cache: one slot per lit-pattern, each keeping its
    /// promise.
    pub open spec fn wf(self) -> bool {
        &&& self.press@.len() == 0x2000000
        &&& self.weight@.len() == 0x2000000
        &&& forall|k: int| 0 <= k < 0x2000000 ==> self.entry_ok(k)
    }

    /// An empty cache: every slot unfilled, no press-pattern considered.
    pub fn new() -> (c: SolveCache)
        ensures
            c.wf(),
            c.considered@ =~= Set::<u32>::empty(),
    {
        let mut press: Vec<u32> = Vec::new();
        let mut weight: Vec<u8> = Vec::new();
        let mut i: usize = 0;
        while i < 0x2000000
            invariant
                i <= 0x2000000,
                press@.len() == i,
                weight@.len() == i,
                forall|k: int| 0 <= k < i ==> weight@[k] == NO_ENTRY,
            decreases 0x2000000 - i,
        {
            press.push(0);
            weight.push(NO_ENTRY);
            i = i + 1;
        }
        SolveCache { press, weight, considered: Ghost(Set::empty()) }
    }

    /// One shard of the exhaustive build: folds every press-pattern of
    /// `[lo, hi)` into the accumulator, keeping per lit-pattern the entry
    /// of least weight (first-seen, that is smallest press-pattern, on
    /// ties).  Shards may be added in any order with the same result.
    pub fn add_range(&mut self, lo: u32, hi: u32)
        requires
            old(self).wf(),
            lo <= hi,
            hi <= PATTERN_LIMIT,
        ensures
            final(self).wf(),
            final(self).considered@ =~= old(self).considered@.union(press_range(lo, hi)),
    {
        let mut i = lo;
        while i < hi
            invariant
                self.wf(),
                lo <= i <= hi,
                hi <= PATTERN_LIMIT,
                self.considered@ =~= old(self).considered@.union(press_range(lo, i)),
            decreases hi - i,
        {
            let ghost prev = *self;
            let lit = generate_map(i);
            let w = press_weight(i);
            let li = lit as usize;
            let cur = self.weight[li];
            if cur == NO_ENTRY || w < cur as u32 || (w == cur as u32 && i < self.press[li]) {
                self.press.set(li, i);
                self.weight.set(li, w as u8);
            }
            self.considered = Ghost(self.considered@.insert(i));
            proof {
                assert(self.considered@ =~= old(self).considered@.union(
                    press_range(lo, (i + 1) as u32),
                ));
                assert forall|k: int| 0 <= k < 0x2000000 implies self.entry_ok(k) by {
                    assert(prev.entry_ok(k));
                    if k == lit as int {
                        assert(is_solution(i, lit));
                    } else {
                        assert(self.press@[k] == prev.press@[k]);
                        assert(self.weight@[k] == prev.weight@[k]);
                        assert(forward_transform(i) != k as u32);
                    }
                }
            }
            i = i + 1;
        }
    }

    /// Merges another shard's accumulator into this one, keeping per slot
    /// the preferred entry: the reduction step of a parallel build.
    pub fn merge(&mut self, other: &SolveCache)
        requires
            old(self).wf(),
            other.wf(),
        ensures
            final(self).wf(),
            final(self).considered@ =~= old(self).considered@.union(other.considered@),
    {
        self.considered = Ghost(self.considered@.union(other.considered@));
        let mut k: usize = 0;
        while k < 0x2000000
            invariant
                old(self).wf(),
                self.press@.len() == 0x2000000,
                self.weight@.len() == 0x2000000,
                other.wf(),
                k <= 0x2000000,
                self.considered@ =~= old(self).considered@.union(other.considered@),
                forall|j: int| k <= j < 0x2000000 ==> self.press@[j] == old(self).press@[j],
                forall|j: int| k <= j < 0x2000000 ==> self.weight@[j] == old(self).weight@[j],
                forall|j: int| 0 <= j < k ==> self.merged_entry_ok(*old(self), *other, j),
            decreases 0x2000000 - k,
        {
            let ghost prev = *self;
            let ow = other.weight[k];
            let sw = self.weight[k];
            if ow != NO_ENTRY {
                let op = other.press[k];
                if sw == NO_ENTRY || (ow as u32) < sw as u32 || (ow == sw && op < self.press[k]) {
                    self.press.set(k, op);
                    self.weight.set(k, ow);
                }
            }
            proof {
                assert(old(self).entry_ok(k as int));
                assert(other.entry_ok(k as int));
                assert forall|j: int| 0 <= j < k + 1 implies self.merged_entry_ok(
                    *old(self),
                    *other,
                    j,
                ) by {
                    if j < k {
                        assert(prev.merged_entry_ok(*old(self), *other, j));
                        assert(self.press@[j] == prev.press@[j]);
                        assert(self.weight@[j] == prev.weight@[j]);
                    }
                }
            }
            k = k + 1;
        }
        proof {
            assert forall|k2: int| 0 <= k2 < 0x2000000 implies self.entry_ok(k2) by {
                assert(self.merged_entry_ok(*old(self), *other, k2));
            }
        }
    }

    /// What a merged slot promises, given the two sources.
    pub open spec fn merged_entry_ok(self, a: SolveCache, b: SolveCache, k: int) -> bool {
        &&& (self.weight@[k] == NO_ENTRY ==> forall|q: u32|
            self.considered@.contains(q) ==> !is_solution(q, k as u32))
        &&& (self.weight@[k] != NO_ENTRY ==> {
            &&& self.considered@.contains(self.press@[k])
            &&& is_solution(self.press@[k], k as u32)
            &&& self.weight@[k] as int == spec_weight(self.press@[k])
            &&& forall|q: u32|
                self.considered@.contains(q) && is_solution(q, k as u32) ==> prefers(
                    self.press@[k],
                    q,
                )
        })
    }

    /// Direct dense lookup: the preferred press-pattern for `lit` among
    /// the considered ones, or nothing if no considered press produces it.
    pub fn get(&self, lit: u32) -> (r: Option<u32>)
        requires
            self.wf(),
            lit < PATTERN_LIMIT,
        ensures
            r is Some ==> {
                &&& self.considered@.contains(r->0)
                &&& is_solution(r->0, lit)
                &&& forall|q: u32|
                    self.considered@.contains(q) && is_solution(q, lit) ==> prefers(r->0, q)
            },
            r is None ==> forall|q: u32| self.considered@.contains(q) ==> !is_solution(q, lit),
    {
        proof {
            assert(self.entry_ok(lit as int));
        }
        let li = lit as usize;
        if self.weight[li] == NO_ENTRY {
            None
        } else {
            Some(self.press[li])
        }
    }

    /// The sparse canonical table for the keys of `[lo, hi)`: one
    /// `(lit-pattern, press-pattern)` entry per filled slot whose
    /// lit-pattern is its own canonical form, in ascending key order.
    #[verifier::rlimit(100)]
    pub fn canonical_pairs(&self, lo: u32, hi: u32) -> (out: Vec<(u32, u32)>)
        requires
            self.wf(),
            lo <= hi,
            hi <= PATTERN_LIMIT,
        ensures
            pairs_sorted(out@),
            forall|j: int|
                0 <= j < out@.len() ==> {
                    &&& lo <= #[trigger] out@[j].0 < hi
                    &&& spec_canonical(out@[j].0) == out@[j].0
                    &&& self.considered@.contains(out@[j].1)
                    &&& is_solution(out@[j].1, out@[j].0)
                    &&& forall|q: u32|
                        self.considered@.contains(q) && is_solution(q, out@[j].0) ==> prefers(
                            out@[j].1,
                            q,
                        )
                },
            forall|k2: u32, q: u32|
                lo <= k2 < hi && spec_canonical(k2) == k2 && self.considered@.contains(q)
                    && is_solution(q, k2) ==> exists|j: int|
                    0 <= j < out@.len() && (#[trigger] out@[j]).0 == k2,
    {
        let mut out: Vec<(u32, u32)> = Vec::new();
        let mut k = lo;
        while k < hi
            invariant
                self.wf(),
                lo <= k <= hi,
                hi <= PATTERN_LIMIT,
                pairs_sorted(out@),
                forall|j: int| 0 <= j < out@.len() ==> lo <= (#[trigger] out@[j]).0 < k,
                forall|j: int|
                    0 <= j < out@.len() ==> {
                        &&& spec_canonical(out@[j].0) == #[trigger] out@[j].0
                        &&& self.considered@.contains(out@[j].1)
                        &&& is_solution(out@[j].1, out@[j].0)
                        &&& forall|q: u32|
                            self.considered@.contains(q) && is_solution(q, out@[j].0) ==> prefers(
                                out@[j].1,
                                q,
                            )
                    },
                forall|k2: u32, q: u32|
                    lo <= k2 < k && spec_canonical(k2) == k2 && self.considered@.contains(q)
                        && is_solution(q, k2) ==> exists|j: int|
                        0 <= j < out@.len() && (#[trigger] out@[j]).0 == k2,
            decreases hi - k,
        {
            let ghost prev_out = out@;
            let can = canonicalize(k);
            if self.weight[k as usize] != NO_ENTRY && can.0 == k {
                let entry = (k, self.press[k as usize]);
                out.push(entry);
            }
            proof {
                assert(self.entry_ok(k as int));
                assert forall|k2: u32, q: u32|
                    lo <= k2 < k + 1 && spec_canonical(k2) == k2 && self.considered@.contains(q)
                        && is_solution(q, k2) implies exists|j: int|
                    0 <= j < out@.len() && (#[trigger] out@[j]).0 == k2 by {
                    if k2 == k {
                        assert(self.weight@[k as int] != NO_ENTRY);
                        assert(out@[out@.len() - 1].0 == k2);
                    } else {
                        let j = choose|j: int| 0 <= j < prev_out.len() && (#[trigger] prev_out[j]).0 == k2;
                        assert(out@[j].0 == k2);
                    }
                }
            }
            k = k + 1;
        }
        out
    }
}

/// Keys strictly ascending: what the binary search relies on.
pub open spec fn pairs_sorted(ps: Seq<(u32, u32)>) -> bool {
    forall|i: int, j: int| 0 <= i < j < ps.len() ==> (#[trigger] ps[i]).0 < (#[trigger] ps[j]).0
}

/// Every entry of the table pairs a lit-pattern with a press-pattern that
/// produces it.
pub open spec fn pairs_solutions(ps: Seq<(u32, u32)>) -> bool {
    forall|j: int| 0 <= j < ps.len() ==> is_solution((#[trigger] ps[j]).1, ps[j].0)
}

/// Every entry's press-pattern has least weight among all solutions of its
/// lit-pattern: what a complete build guarantees.
pub open spec fn pairs_minimal(ps: Seq<(u32, u32)>) -> bool {
    forall|j: int, q: u32|
        0 <= j < ps.len() && #[trigger] is_solution(q, (#[trigger] ps[j]).0) ==> spec_weight(
            ps[j].1,
        ) <= spec_weight(q)
}

/// Binary search over a sorted table: the value stored under the key `x`,
/// if any.
pub fn get_entry(pairs: &Vec<(u32, u32)>, x: u32) -> (r: Option<u32>)
    requires
        pairs_sorted(pairs@),
    ensures
        r is Some ==> exists|j: int|
            0 <= j < pairs@.len() && (#[trigger] pairs@[j]).0 == x && pairs@[j].1 == r->0,
        r is None ==> forall|j: int| 0 <= j < pairs@.len() ==> (#[trigger] pairs@[j]).0 != x,
{
    let mut lo: usize = 0;
    let mut hi: usize = pairs.len();
    while lo < hi
        invariant
            pairs_sorted(pairs@),
            lo <= hi <= pairs@.len(),
            forall|j: int| 0 <= j < lo ==> (#[trigger] pairs@[j]).0 < x,
            forall|j: int| hi <= j < pairs@.len() ==> (#[trigger] pairs@[j]).0 > x,
        decreases hi - lo,
    {
        let mid = lo + (hi - lo) / 2;
        let key = pairs[mid].0;
        if key < x {
            lo = mid + 1;
        } else if key > x {
            hi = mid;
        } else {
            let v = pairs[mid].1;
            return Some(v);
        }
    }
    None
}

/// Why a cache query can fail.
#[derive(Clone, Copy, Debug, PartialEq, Eq, Structural)]
pub enum SolveError {
    /// The canonical form of the target is missing from the table, which a
    /// completely built table never allows for a reachable target: it
    /// signals a corrupt or truncated table, not an unsolvable target.
    CacheMiss,
}

/// Answers a query from the canonical table: canonicalizes the target,
/// looks its canonical form up by binary search, and carries the stored
/// press-pattern back into the target's own orientation.  The answer
/// produces the target exactly, and is of least weight whenever the table
/// entries are (`pairs_minimal`).
#[verifier::rlimit(100)]
pub fn solve(pairs: &Vec<(u32, u32)>, target: u32) -> (r: Result<u32, SolveError>)
    requires
        pairs_sorted(pairs@),
        pairs_solutions(pairs@),
        target < PATTERN_LIMIT,
    ensures
        (r is Ok) <==> exists|j: int|
            0 <= j < pairs@.len() && (#[trigger] pairs@[j]).0 == spec_canonical(target),
        r is Ok ==> is_solution(r->Ok_0, target),
        r is Ok && pairs_minimal(pairs@) ==> forall|q: u32|
            is_solution(q, target) ==> spec_weight(r->Ok_0) <= spec_weight(q),
{
    let (canon, rot, refl) = canonicalize(target);
    match get_entry(pairs, canon) {
        Some(v) => {
            proof {
                let j = choose|j: int|
                    0 <= j < pairs@.len() && (#[trigger] pairs@[j]).0 == canon && pairs@[j].1 == v;
                assert(is_solution(v, canon));
                lemma_transform_apply_inverse(v, rot as nat, refl);
                lemma_apply_inverse_bound(v, rot as nat, refl);
                lemma_weight_apply(v, rot as nat, refl);
                assert forall|q: u32|
                    pairs_minimal(pairs@) && is_solution(q, target) implies spec_weight(
                    spec_apply_inverse(v, rot as nat, refl),
                ) <= spec_weight(q) by {
                    let q2 = spec_apply(q, rot as nat, refl);
                    lemma_transform_apply(q, rot as nat, refl);
                    crate::symmetry::lemma_image_bounds(q);
                    crate::symmetry::lemma_rotate_n_bound(
                        if refl {
                            crate::symmetry::spec_reflect(q)
                        } else {
                            q
                        },
                        rot as nat,
                    );
                    assert(is_solution(q2, canon));
                    assert(spec_weight(pairs@[j].1) <= spec_weight(q2));
                    lemma_weight_apply(q, rot as nat, refl);
                }
            }
            Ok(apply_transform_inverse(v, rot, refl))
        },
        None => Err(SolveError::CacheMiss),
    }
}

} // verus!

//! The 8-element dihedral symmetry group of the square grid, acting on
//! 25-bit patterns by permuting cells: four rotations and their reflected
//! counterparts.  Canonicalization picks the smallest of the 8 images of a
//! pattern, which is what lets the solution cache store one entry per
//! equivalence class; the lemmas here show that the group action commutes
//! with the forward transform, so a cached answer can be carried back into
//! the caller's frame.

use vstd::prelude::*;

use crate::transform::PATTERN_LIMIT;
use crate::transform::forward_transform;
use crate::transform::spec_weight;

verus! {

/// The lowest 5 bits of `x` in reverse order (bit `j` moves to bit `4 - j`);
/// higher bits are dropped.
pub open spec fn spec_rev5(x: u32) -> u32 {
    ((x & 0x1) << 4) | ((x & 0x2) << 2) | (x & 0x4) | ((x >> 2) & 0x2) | ((x >> 4) & 0x1)
}

/// Distributes the lowest 5 bits of `x` over the first column: bit `j`
/// moves to bit `5 * j`.
pub open spec fn spec_spread(x: u32) -> u32 {
    ((x & 0x10) << 16) | ((x & 0x8) << 12) | ((x & 0x4) << 8) | ((x & 0x2) << 4) | (x & 0x1)
}

/// A quarter-turn of the grid: row `r` of the input, reversed, becomes
/// column `r` of the result (cell `(r, c)` moves to cell `(4 - c, r)`).
pub open spec fn spec_rotate(code: u32) -> u32 {
    spec_spread(spec_rev5(code)) | (spec_spread(spec_rev5(code >> 5)) << 1) | (spec_spread(
        spec_rev5(code >> 10),
    ) << 2) | (spec_spread(spec_rev5(code >> 15)) << 3) | (spec_spread(spec_rev5(code >> 20))
        << 4)
}

/// The mirror image of the grid: each row stays in place with its columns
/// reversed (cell `(r, c)` moves to cell `(r, 4 - c)`).
pub open spec fn spec_reflect(code: u32) -> u32 {
    spec_rev5(code) | (spec_rev5(code >> 5) << 5) | (spec_rev5(code >> 10) << 10) | (spec_rev5(
        code >> 15,
    ) << 15) | (spec_rev5(code >> 20) << 20)
}

/// `n` quarter-turns applied to `x`.
pub open spec fn rotate_n(x: u32, n: nat) -> u32
    decreases n,
{
    if n == 0 {
        x
    } else {
        spec_rotate(rotate_n(x, (n - 1) as nat))
    }
}

/// One of the 8 symmetries: reflect first if `refl` is set, then rotate
/// `rot` quarter-turns.
pub open spec fn spec_apply(x: u32, rot: nat, refl: bool) -> u32 {
    rotate_n(if refl {
        spec_reflect(x)
    } else {
        x
    }, rot)
}

/// The inverse symmetry of `spec_apply(_, rot, refl)`: the remaining
/// quarter-turns to a full turn first, then the reflection, since the two
/// generators do not commute and an inverse must undo the steps in reverse
/// order.
pub open spec fn spec_apply_inverse(x: u32, rot: nat, refl: bool) -> u32
    recommends
        rot <= 4,
{
    let y = rotate_n(x, ((4 - rot as int) % 4) as nat);
    if refl {
        spec_reflect(y)
    } else {
        y
    }
}

/// The position of a symmetry in the enumeration order of `canonicalize`:
/// the four plain rotations first, then the four reflected ones.
pub open spec fn transform_order(rot: nat, refl: bool) -> nat {
    (if refl {
        4nat
    } else {
        0nat
    }) + rot
}

/// Both generators keep patterns inside the 25 grid bits.
pub proof fn lemma_image_bounds(x: u32)
    ensures
        spec_rotate(x) < PATTERN_LIMIT,
        spec_reflect(x) < PATTERN_LIMIT,
{
    assert(spec_rotate(x) < 0x2000000 && spec_reflect(x) < 0x2000000) by (bit_vector);
}

/// Reflecting twice gives the pattern back.
pub proof fn lemma_reflect_involution(x: u32)
    requires
        x < PATTERN_LIMIT,
    ensures
        spec_reflect(spec_reflect(x)) == x,
{
    let m = spec_reflect(x);
    assert(spec_reflect(m) == x) by (bit_vector)
        requires
            x < 0x2000000,
            m == spec_reflect(x),
    ;
}

/// Four quarter-turns give the pattern back.
pub proof fn lemma_rotate_four(x: u32)
    requires
        x < PATTERN_LIMIT,
    ensures
        rotate_n(x, 4) == x,
{
    let y1 = spec_rotate(x);
    let y2 = spec_rotate(y1);
    let y3 = spec_rotate(y2);
    let y4 = spec_rotate(y3);
    assert(y4 == x) by (bit_vector)
        requires
            x < 0x2000000,
            y1 == spec_rotate(x),
            y2 == spec_rotate(y1),
            y3 == spec_rotate(y2),
            y4 == spec_rotate(y3),
    ;
    reveal_with_fuel(rotate_n, 6);
    assert(rotate_n(x, 1) == y1);
    assert(rotate_n(x, 2) == y2);
    assert(rotate_n(x, 3) == y3);
    assert(rotate_n(x, 4) == y4);
}

/// The dihedral relations between the two generators: conjugating a
/// rotation by the reflection inverts it.
pub proof fn lemma_dihedral(x: u32)
    requires
        x < PATTERN_LIMIT,
    ensures
        spec_rotate(x) == spec_reflect(spec_rotate(spec_rotate(spec_rotate(spec_reflect(x))))),
        spec_rotate(spec_rotate(x)) == spec_reflect(spec_rotate(spec_rotate(spec_reflect(x)))),
        spec_rotate(spec_rotate(spec_rotate(x))) == spec_reflect(spec_rotate(spec_reflect(x))),
{
    let r1 = spec_rotate(x);
    let r2 = spec_rotate(r1);
    let r3 = spec_rotate(r2);
    let m = spec_reflect(x);
    let m1 = spec_rotate(m);
    let m2 = spec_rotate(m1);
    let m3 = spec_rotate(m2);
    assert(r1 == spec_reflect(m3) && r2 == spec_reflect(m2) && r3 == spec_reflect(m1))
        by (bit_vector)
        requires
            x < 0x2000000,
            r1 == spec_rotate(x),
            r2 == spec_rotate(r1),
            r3 == spec_rotate(r2),
            m == spec_reflect(x),
            m1 == spec_rotate(m),
            m2 == spec_rotate(m1),
            m3 == spec_rotate(m2),
    ;
}

/// Splitting a run of quarter-turns.
pub proof fn lemma_rotate_n_add(x: u32, a: nat, b: nat)
    ensures
        rotate_n(x, a + b) == rotate_n(rotate_n(x, a), b),
    decreases b,
{
    if b > 0 {
        lemma_rotate_n_add(x, a, (b - 1) as nat);
    }
}

/// Quarter-turns keep patterns inside the 25 grid bits.
pub proof fn lemma_rotate_n_bound(x: u32, n: nat)
    requires
        x < PATTERN_LIMIT,
    ensures
        rotate_n(x, n) < PATTERN_LIMIT,
    decreases n,
{
    if n > 0 {
        lemma_rotate_n_bound(x, (n - 1) as nat);
        lemma_image_bounds(rotate_n(x, (n - 1) as nat));
    }
}

/// Each of the 8 symmetries is undone exactly by its inverse, in either
/// composition order.
pub proof fn lemma_transform_inverse(x: u32, rot: nat, refl: bool)
    requires
        x < PATTERN_LIMIT,
        rot <= 4,
    ensures
        spec_apply_inverse(spec_apply(x, rot, refl), rot, refl) == x,
        spec_apply(spec_apply_inverse(x, rot, refl), rot, refl) == x,
{
    let k = ((4 - rot as int) % 4) as nat;
    let y = if refl {
        spec_reflect(x)
    } else {
        x
    };
    lemma_image_bounds(x);
    lemma_rotate_n_bound(y, rot);
    lemma_rotate_n_add(y, rot, k);
    if rot + k == 4 {
        lemma_rotate_four(y);
    }
    if refl {
        lemma_reflect_involution(x);
    }
    lemma_rotate_n_bound(x, k);
    lemma_rotate_n_add(x, k, rot);
    if k + rot == 4 {
        lemma_rotate_four(x);
    }
    if refl {
        lemma_reflect_involution(rotate_n(x, k));
    }
}

/// Rotating the press-pattern rotates the lit-pattern it produces: the
/// forward transform commutes with a quarter-turn.
pub proof fn lemma_transform_rotate(p: u32)
    ensures
        forward_transform(spec_rotate(p)) == spec_rotate(forward_transform(p)),
{
    let t = forward_transform(p);
    let rp = spec_rotate(p);
    let trp = forward_transform(rp);
    let rt = spec_rotate(t);
    assert(trp == rt) by (bit_vector)
        requires
            t == forward_transform(p),
            rp == spec_rotate(p),
            trp == forward_transform(rp),
            rt == spec_rotate(t),
    ;
}

/// Reflecting the press-pattern reflects the lit-pattern it produces.
pub proof fn lemma_transform_reflect(p: u32)
    ensures
        forward_transform(spec_reflect(p)) == spec_reflect(forward_transform(p)),
{
    let t = forward_transform(p);
    let mp = spec_reflect(p);
    let tmp = forward_transform(mp);
    let mt = spec_reflect(t);
    assert(tmp == mt) by (bit_vector)
        requires
            t == forward_transform(p),
            mp == spec_reflect(p),
            tmp == forward_transform(mp),
            mt == spec_reflect(t),
    ;
}

/// The forward transform commutes with every symmetry of the grid: applying
/// a symmetry to a press-pattern applies the same symmetry to the
/// lit-pattern it produces.  This is what allows the solution cache to
/// store only canonical lit-patterns and still answer queries in any
/// orientation.
pub proof fn lemma_transform_apply(p: u32, rot: nat, refl: bool)
    ensures
        forward_transform(spec_apply(p, rot, refl)) == spec_apply(forward_transform(p), rot, refl),
    decreases rot,
{
    if rot == 0 {
        if refl {
            lemma_transform_reflect(p);
        }
    } else {
        lemma_transform_apply(p, (rot - 1) as nat, refl);
        lemma_transform_rotate(spec_apply(p, (rot - 1) as nat, refl));
    }
}


/// The smaller of two pattern values.
pub open spec fn min_u32(a: u32, b: u32) -> u32 {
    if a <= b {
        a
    } else {
        b
    }
}

/// The canonical form of a pattern: the smallest of its 8 symmetric images.
pub open spec fn spec_canonical(x: u32) -> u32 {
    min_u32(
        min_u32(
            min_u32(spec_apply(x, 0, false), spec_apply(x, 1, false)),
            min_u32(spec_apply(x, 2, false), spec_apply(x, 3, false)),
        ),
        min_u32(
            min_u32(spec_apply(x, 0, true), spec_apply(x, 1, true)),
            min_u32(spec_apply(x, 2, true), spec_apply(x, 3, true)),
        ),
    )
}

/// Neither generator changes how many cells are set: each only permutes
/// the 25 grid bits.
#[verifier::rlimit(60)]
pub proof fn lemma_weight_generators(x: u32)
    ensures
        spec_weight(spec_rotate(x)) == spec_weight(x & 0x1FFFFFF),
        spec_weight(spec_reflect(x)) == spec_weight(x & 0x1FFFFFF),
        spec_weight(x & 0x1FFFFFF) == spec_weight(x),
{
    let r = spec_rotate(x);
    let m = spec_reflect(x);
    assert(spec_weight(r) == spec_weight(x & 0x1FFFFFF)) by (bit_vector)
        requires
            r == spec_rotate(x),
    ;
    assert(spec_weight(m) == spec_weight(x & 0x1FFFFFF)) by (bit_vector)
        requires
            m == spec_reflect(x),
    ;
    assert(spec_weight(x & 0x1FFFFFF) == spec_weight(x)) by (bit_vector);
}

/// A run of quarter-turns keeps the number of set cells.
pub proof fn lemma_weight_rotate_n(x: u32, n: nat)
    ensures
        spec_weight(rotate_n(x, n)) == spec_weight(x),
    decreases n,
{
    if n > 0 {
        lemma_weight_rotate_n(x, (n - 1) as nat);
        lemma_weight_generators(rotate_n(x, (n - 1) as nat));
    }
}

/// No symmetry changes the number of set cells, and neither does an
/// inverse symmetry.
pub proof fn lemma_weight_apply(x: u32, rot: nat, refl: bool)
    ensures
        spec_weight(spec_apply(x, rot, refl)) == spec_weight(x),
        spec_weight(spec_apply_inverse(x, rot, refl)) == spec_weight(x),
{
    let y = if refl {
        spec_reflect(x)
    } else {
        x
    };
    lemma_weight_rotate_n(y, rot);
    if refl {
        lemma_weight_generators(x);
    }
    let k = ((4 - rot as int) % 4) as nat;
    lemma_weight_rotate_n(x, k);
    if refl {
        lemma_weight_generators(rotate_n(x, k));
    }
}

/// The forward transform commutes with the inverse symmetries too.
pub proof fn lemma_transform_apply_inverse(p: u32, rot: nat, refl: bool)
    ensures
        forward_transform(spec_apply_inverse(p, rot, refl)) == spec_apply_inverse(
            forward_transform(p),
            rot,
            refl,
        ),
{
    let k = ((4 - rot as int) % 4) as nat;
    lemma_transform_apply(p, k, false);
    if refl {
        lemma_transform_reflect(rotate_n(p, k));
    }
}

/// The inverse symmetries keep patterns inside the 25 grid bits.
pub proof fn lemma_apply_inverse_bound(x: u32, rot: nat, refl: bool)
    requires
        x < PATTERN_LIMIT,
    ensures
        spec_apply_inverse(x, rot, refl) < PATTERN_LIMIT,
{
    let k = ((4 - rot as int) % 4) as nat;
    lemma_rotate_n_bound(x, k);
    lemma_image_bounds(rotate_n(x, k));
}

/// The lowest 5 bits of `x` in reverse order.
pub fn rev5(x: u32) -> (r: u32)
    ensures
        r == spec_rev5(x),
{
    ((x & 0x1) << 4) | ((x & 0x2) << 2) | (x & 0x4) | ((x >> 2) & 0x2) | ((x >> 4) & 0x1)
}

/// Distributes the lowest 5 bits of `x` over the first column.
pub fn spread(x: u32) -> (r: u32)
    ensures
        r == spec_spread(x),
{
    ((x & 0x10) << 16) | ((x & 0x8) << 12) | ((x & 0x4) << 8) | ((x & 0x2) << 4) | (x & 0x1)
}

/// A quarter-turn of the grid.
pub fn rotate(code: u32) -> (r: u32)
    ensures
        r == spec_rotate(code),
        r < PATTERN_LIMIT,
{
    proof {
        lemma_image_bounds(code);
    }
    spread(rev5(code)) | (spread(rev5(code >> 5)) << 1) | (spread(rev5(code >> 10)) << 2) | (
    spread(rev5(code >> 15)) << 3) | (spread(rev5(code >> 20)) << 4)
}

/// The mirror image of the grid, each row's columns reversed in place.
pub fn reflect(code: u32) -> (r: u32)
    ensures
        r == spec_reflect(code),
        r < PATTERN_LIMIT,
{
    proof {
        lemma_image_bounds(code);
    }
    rev5(code) | (rev5(code >> 5) << 5) | (rev5(code >> 10) << 10) | (rev5(code >> 15) << 15) | (
    rev5(code >> 20) << 20)
}

/// Reflect first if asked, then rotate the given number of quarter-turns:
/// reproduces the image of `x` under one of the 8 symmetries.
pub fn apply_transform(x: u32, rotations: u8, should_reflect: bool) -> (r: u32)
    ensures
        r == spec_apply(x, rotations as nat, should_reflect),
{
    let base: u32 = if should_reflect {
        reflect(x)
    } else {
        x
    };
    let mut v: u32 = base;
    let mut i: u8 = 0;
    while i < rotations
        invariant
            i <= rotations,
            v == rotate_n(
                if should_reflect {
                    spec_reflect(x)
                } else {
                    x
                },
                i as nat,
            ),
        decreases rotations - i,
    {
        v = rotate(v);
        i = i + 1;
    }
    v
}

/// Undoes `apply_transform` with the same arguments: rotates the remaining
/// quarter-turns to a full turn, then reflects if asked.
pub fn apply_transform_inverse(x: u32, rotations: u8, should_reflect: bool) -> (r: u32)
    requires
        rotations <= 4,
    ensures
        r == spec_apply_inverse(x, rotations as nat, should_reflect),
{
    let n: u8 = (4 - rotations) % 4;
    let mut v: u32 = x;
    let mut i: u8 = 0;
    while i < n
        invariant
            i <= n,
            v == rotate_n(x, i as nat),
        decreases n - i,
    {
        v = rotate(v);
        i = i + 1;
    }
    if should_reflect {
        v = reflect(v);
    }
    v
}

/// The smallest of the 8 symmetric images of `x`, together with the
/// symmetry that reaches it.  Ties between equal images are broken by the
/// enumeration order (the four plain rotations first, then the four
/// reflected ones), so the reported symmetry is the earliest one that
/// attains the minimum.
#[verifier::rlimit(100)]
pub fn canonicalize(x: u32) -> (r: (u32, u8, bool))
    requires
        x < PATTERN_LIMIT,
    ensures
        r.1 < 4,
        r.0 == spec_apply(x, r.1 as nat, r.2),
        forall|rot: nat, refl: bool| rot < 4 ==> r.0 <= spec_apply(x, rot, refl),
        forall|rot: nat, refl: bool|
            rot < 4 && transform_order(rot, refl) < transform_order(r.1 as nat, r.2)
                ==> spec_apply(x, rot, refl) > r.0,
        r.0 <= x,
        r.0 < PATTERN_LIMIT,
        r.0 == spec_canonical(x),
        spec_apply_inverse(r.0, r.1 as nat, r.2) == x,
{
    let mut best: u32 = x;
    let mut best_rot: u8 = 0;
    let mut best_refl: bool = false;
    let mut pass: u8 = 0;
    while pass < 2
        invariant
            x < PATTERN_LIMIT,
            pass <= 2,
            best_rot < 4,
            best == spec_apply(x, best_rot as nat, best_refl),
            transform_order(best_rot as nat, best_refl) < if pass == 0 {
                1int
            } else {
                4 * pass
            },
            forall|rot: nat, refl: bool|
                rot < 4 && transform_order(rot, refl) < 4 * pass ==> best <= spec_apply(
                    x,
                    rot,
                    refl,
                ),
            forall|rot: nat, refl: bool|
                rot < 4 && transform_order(rot, refl) < transform_order(best_rot as nat, best_refl)
                    ==> spec_apply(x, rot, refl) > best,
        decreases 2 - pass,
    {
        let refl = pass == 1;
        let mut map: u32 = if refl {
            reflect(x)
        } else {
            x
        };
        let mut i: u8 = 0;
        while i < 4
            invariant
                x < PATTERN_LIMIT,
                pass < 2,
                refl == (pass == 1),
                i <= 4,
                best_rot < 4,
                map == spec_apply(x, i as nat, refl),
                best == spec_apply(x, best_rot as nat, best_refl),
                transform_order(best_rot as nat, best_refl) < if pass == 0 && i == 0 {
                    1int
                } else {
                    4 * pass + i
                },
                forall|rot: nat, r2: bool|
                    rot < 4 && transform_order(rot, r2) < 4 * pass + i ==> best <= spec_apply(
                        x,
                        rot,
                        r2,
                    ),
                forall|rot: nat, r2: bool|
                    rot < 4 && transform_order(rot, r2) < transform_order(
                        best_rot as nat,
                        best_refl,
                    ) ==> spec_apply(x, rot, r2) > best,
            decreases 4 - i,
        {
            if map < best {
                best = map;
                best_rot = i;
                best_refl = refl;
            }
            map = rotate(map);
            i = i + 1;
        }
        pass = pass + 1;
    }
    proof {
        assert(spec_apply(x, 0, false) == x);
        assert forall|rot: nat, refl: bool| rot < 4 implies best <= spec_apply(x, rot, refl) by {
            assert(transform_order(rot, refl) < 8);
        }
        lemma_transform_inverse(x, best_rot as nat, best_refl);
        assert(best == spec_canonical(x)) by {
            assert(best <= spec_apply(x, 0, false) && best <= spec_apply(x, 1, false) && best
                <= spec_apply(x, 2, false) && best <= spec_apply(x, 3, false) && best
                <= spec_apply(x, 0, true) && best <= spec_apply(x, 1, true) && best
                <= spec_apply(x, 2, true) && best <= spec_apply(x, 3, true));
            assert(best_rot == 0 || best_rot == 1 || best_rot == 2 || best_rot == 3);
        }
        lemma_image_bounds(x);
        lemma_rotate_n_bound(
            if best_refl {
                spec_reflect(x)
            } else {
                x
            },
            best_rot as nat,
        );
    }
    (best, best_rot, best_refl)
}

} // verus!

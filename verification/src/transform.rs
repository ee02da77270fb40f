//! The forward transform of the puzzle: from a press-pattern (which cells
//! were pressed) to the resulting lit-pattern, starting from an all-off
//! board.  The transform is linear over xor, which is what lets minimal
//! solutions be found by a table keyed on the lit-pattern alone.

use vstd::prelude::*;

verus! {

/// All patterns are 25-bit values; this is the exclusive upper bound.
pub const PATTERN_LIMIT: u32 = 0x2000000;

/// The mask of cells toggled by pressing `pos`: the cell itself and its
/// orthogonal neighbours, with the missing neighbours of edge cells left out.
pub open spec fn press_mask(pos: u32) -> u32 {
    (if pos >= 5 {
        1u32 << ((pos - 5) as u32)
    } else {
        0u32
    }) ^ (if pos % 5 != 0 {
        1u32 << ((pos - 1) as u32)
    } else {
        0u32
    }) ^ (1u32 << pos) ^ (if pos % 5 != 4 {
        1u32 << ((pos + 1) as u32)
    } else {
        0u32
    }) ^ (if pos < 20 {
        1u32 << ((pos + 5) as u32)
    } else {
        0u32
    })
}

/// The lit-pattern produced by pressing every set cell of `code` on an
/// all-off board: the xor of the press masks of all set positions.  Bits of
/// `code` above the 25 grid cells are ignored.
pub open spec fn forward_transform(code: u32) -> u32 {
    (if code & (1u32 << 0) != 0 {
        press_mask(0)
    } else {
        0u32
    }) ^ (if code & (1u32 << 1) != 0 {
        press_mask(1)
    } else {
        0u32
    }) ^ (if code & (1u32 << 2) != 0 {
        press_mask(2)
    } else {
        0u32
    }) ^ (if code & (1u32 << 3) != 0 {
        press_mask(3)
    } else {
        0u32
    }) ^ (if code & (1u32 << 4) != 0 {
        press_mask(4)
    } else {
        0u32
    }) ^ (if code & (1u32 << 5) != 0 {
        press_mask(5)
    } else {
        0u32
    }) ^ (if code & (1u32 << 6) != 0 {
        press_mask(6)
    } else {
        0u32
    }) ^ (if code & (1u32 << 7) != 0 {
        press_mask(7)
    } else {
        0u32
    }) ^ (if code & (1u32 << 8) != 0 {
        press_mask(8)
    } else {
        0u32
    }) ^ (if code & (1u32 << 9) != 0 {
        press_mask(9)
    } else {
        0u32
    }) ^ (if code & (1u32 << 10) != 0 {
        press_mask(10)
    } else {
        0u32
    }) ^ (if code & (1u32 << 11) != 0 {
        press_mask(11)
    } else {
        0u32
    }) ^ (if code & (1u32 << 12) != 0 {
        press_mask(12)
    } else {
        0u32
    }) ^ (if code & (1u32 << 13) != 0 {
        press_mask(13)
    } else {
        0u32
    }) ^ (if code & (1u32 << 14) != 0 {
        press_mask(14)
    } else {
        0u32
    }) ^ (if code & (1u32 << 15) != 0 {
        press_mask(15)
    } else {
        0u32
    }) ^ (if code & (1u32 << 16) != 0 {
        press_mask(16)
    } else {
        0u32
    }) ^ (if code & (1u32 << 17) != 0 {
        press_mask(17)
    } else {
        0u32
    }) ^ (if code & (1u32 << 18) != 0 {
        press_mask(18)
    } else {
        0u32
    }) ^ (if code & (1u32 << 19) != 0 {
        press_mask(19)
    } else {
        0u32
    }) ^ (if code & (1u32 << 20) != 0 {
        press_mask(20)
    } else {
        0u32
    }) ^ (if code & (1u32 << 21) != 0 {
        press_mask(21)
    } else {
        0u32
    }) ^ (if code & (1u32 << 22) != 0 {
        press_mask(22)
    } else {
        0u32
    }) ^ (if code & (1u32 << 23) != 0 {
        press_mask(23)
    } else {
        0u32
    }) ^ (if code & (1u32 << 24) != 0 {
        press_mask(24)
    } else {
        0u32
    })
}

/// The mask of the `n` lowest bits, for `n <= 25`.
pub open spec fn low_bits(n: u32) -> u32
    recommends
        n <= 25,
{
    ((1u32 << n) - 1) as u32
}

/// Pressing one cell: toggles the cell at `pos` and its orthogonal
/// neighbours in the lit-pattern `map`.
pub fn blit(map: u32, pos: u32) -> (r: u32)
    requires
        pos < 25,
    ensures
        r == map ^ press_mask(pos),
{
    let up: u32 = if pos >= 5 {
        1u32 << (pos - 5)
    } else {
        0u32
    };
    let left: u32 = if pos % 5 != 0 {
        1u32 << (pos - 1)
    } else {
        0u32
    };
    let right: u32 = if pos % 5 != 4 {
        1u32 << (pos + 1)
    } else {
        0u32
    };
    let down: u32 = if pos < 20 {
        1u32 << (pos + 5)
    } else {
        0u32
    };
    map ^ (up ^ left ^ (1u32 << pos) ^ right ^ down)
}

/// Folds `blit` over every set bit of the press-pattern `code`, starting
/// from the all-off board: the forward transform of the puzzle.
pub fn generate_map(code: u32) -> (map: u32)
    ensures
        map == forward_transform(code),
        map < PATTERN_LIMIT,
{
    proof {
        assert(code & low_bits(0) == 0 && forward_transform(0) == 0 && forward_transform(code)
            < 0x2000000 && forward_transform(code & low_bits(25)) == forward_transform(code))
            by (bit_vector);
    }
    let mut map: u32 = 0;
    let mut i: u32 = 0;
    while i < 25
        invariant
            i <= 25,
            map == forward_transform(code & low_bits(i)),
        decreases 25 - i,
    {
        proof {
            assert(forward_transform(code & low_bits((i + 1) as u32)) == (if code & (1u32 << i)
                != 0 {
                forward_transform(code & low_bits(i)) ^ press_mask(i)
            } else {
                forward_transform(code & low_bits(i))
            })) by (bit_vector)
                requires
                    i < 25,
            ;
        }
        if code & (1u32 << i) != 0 {
            map = blit(map, i);
        }
        i = i + 1;
    }
    map
}

/// Applies the presses of `presses` to the lit-pattern `map`: each press
/// toggles its cross of cells, so the result is `map` xor the forward
/// transform of `presses`.
pub fn apply_presses(map: u32, presses: u32) -> (r: u32)
    ensures
        r == map ^ forward_transform(presses),
{
    let t = generate_map(presses);
    map ^ t
}


/// The number of pressed cells in a press-pattern: the sum of its 25 grid
/// bits.
pub open spec fn spec_weight(x: u32) -> int {
    ((x >> 0) & 1) + ((x >> 1) & 1) + ((x >> 2) & 1) + ((x >> 3) & 1) + ((x >> 4) & 1) + ((x >> 5) & 1) + ((x >> 6) & 1) + ((x >> 7) & 1) + ((x >> 8) & 1) + ((x >> 9) & 1) + ((x >> 10) & 1) + ((x >> 11) & 1) + ((x >> 12) & 1) + ((x >> 13) & 1) + ((x >> 14) & 1) + ((x >> 15) & 1) + ((x >> 16) & 1) + ((x >> 17) & 1) + ((x >> 18) & 1) + ((x >> 19) & 1) + ((x >> 20) & 1) + ((x >> 21) & 1) + ((x >> 22) & 1) + ((x >> 23) & 1) + ((x >> 24) & 1)
}

/// Counts the pressed cells of `x` (bits above the 25 grid cells are
/// ignored, as everywhere else).
pub fn press_weight(x: u32) -> (w: u32)
    ensures
        w == spec_weight(x),
        w <= 25,
{
    proof {
        assert(((x >> 0) & 1) <= 1 && ((x >> 1) & 1) <= 1 && ((x >> 2) & 1) <= 1 && ((x >> 3) & 1) <= 1 && ((x >> 4) & 1) <= 1 && ((x >> 5) & 1) <= 1 && ((x >> 6) & 1) <= 1 && ((x >> 7) & 1) <= 1 && ((x >> 8) & 1) <= 1 && ((x >> 9) & 1) <= 1 && ((x >> 10) & 1) <= 1 && ((x >> 11) & 1) <= 1 && ((x >> 12) & 1) <= 1 && ((x >> 13) & 1) <= 1 && ((x >> 14) & 1) <= 1 && ((x >> 15) & 1) <= 1 && ((x >> 16) & 1) <= 1 && ((x >> 17) & 1) <= 1 && ((x >> 18) & 1) <= 1 && ((x >> 19) & 1) <= 1 && ((x >> 20) & 1) <= 1 && ((x >> 21) & 1) <= 1 && ((x >> 22) & 1) <= 1 && ((x >> 23) & 1) <= 1 && ((x >> 24) & 1) <= 1) by (bit_vector);
    }
    ((x >> 0) & 1) + ((x >> 1) & 1) + ((x >> 2) & 1) + ((x >> 3) & 1) + ((x >> 4) & 1) + ((x >> 5) & 1) + ((x >> 6) & 1) + ((x >> 7) & 1) + ((x >> 8) & 1) + ((x >> 9) & 1) + ((x >> 10) & 1) + ((x >> 11) & 1) + ((x >> 12) & 1) + ((x >> 13) & 1) + ((x >> 14) & 1) + ((x >> 15) & 1) + ((x >> 16) & 1) + ((x >> 17) & 1) + ((x >> 18) & 1) + ((x >> 19) & 1) + ((x >> 20) & 1) + ((x >> 21) & 1) + ((x >> 22) & 1) + ((x >> 23) & 1) + ((x >> 24) & 1)
}

/// The forward transform is linear over xor: pressing the symmetric
/// difference of two press-patterns lights the symmetric difference of what
/// each lights alone, and pressing nothing lights nothing.
pub proof fn lemma_transform_linear(a: u32, b: u32)
    ensures
        forward_transform(a ^ b) == forward_transform(a) ^ forward_transform(b),
        forward_transform(0) == 0,
{
    let c = a ^ b;
    assert(forward_transform(c) == forward_transform(a) ^ forward_transform(b)
        && forward_transform(0) == 0) by (bit_vector)
        requires
            c == a ^ b,
    ;
}

} // verus!

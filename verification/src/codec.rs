//! The textual board format: five rows of five cells, `#` for a lit cell
//! and `-` for an unlit one, rows separated by `|` (29 characters in all).
//! `parse` turns such text into a 25-bit pattern and `output` prints one;
//! the two are exact inverses on their respective domains.

use vstd::prelude::*;
use vstd::string::StrSliceExecFns;
use vstd::string::StringExecFns;

use crate::transform::PATTERN_LIMIT;

verus! {

/// Why a piece of board text was rejected, one variant per malformed shape.
#[derive(Clone, Copy, Debug, PartialEq, Eq, Structural)]
pub enum ParseError {
    /// The text is not exactly 29 characters long.
    WrongLength,
    /// A `|` separator is missing or misplaced, so some row chunk does not
    /// have exactly 5 characters.
    WrongChunkLength,
    /// A row chunk holds a character other than `#` or `-`.
    InvalidChunk,
}

/// The numeric value of one cell character: `#` is a lit cell.
pub open spec fn cell_bit(c: char) -> u32 {
    if c == '#' {
        1u32
    } else {
        0u32
    }
}

/// The 5-bit value of the row whose text starts at character `6 * r`:
/// leftmost cell in the lowest bit.
pub open spec fn row_chunk(s: Seq<char>, r: int) -> u32 {
    cell_bit(s[6 * r]) | (cell_bit(s[6 * r + 1]) << 1) | (cell_bit(s[6 * r + 2]) << 2) | (
    cell_bit(s[6 * r + 3]) << 3) | (cell_bit(s[6 * r + 4]) << 4)
}

/// The 25-bit pattern encoded by a well-formed board text: row `r` in bits
/// `5 * r .. 5 * r + 5`.
pub open spec fn spec_pattern(s: Seq<char>) -> u32 {
    row_chunk(s, 0) | (row_chunk(s, 1) << 5) | (row_chunk(s, 2) << 10) | (row_chunk(s, 3) << 15)
        | (row_chunk(s, 4) << 20)
}

/// Whether every separator position holds a `|`.
pub open spec fn separators_ok(s: Seq<char>) -> bool {
    s[5] == '|' && s[11] == '|' && s[17] == '|' && s[23] == '|'
}

/// Whether every cell position holds `#` or `-`.
pub open spec fn cells_ok(s: Seq<char>) -> bool {
    forall|i: int| 0 <= i < 29 && i % 6 != 5 ==> (#[trigger] s[i]) == '#' || s[i] == '-'
}

/// A well-formed board text: 29 characters, `|` at every sixth position,
/// `#` or `-` everywhere else.
pub open spec fn well_formed(s: Seq<char>) -> bool {
    s.len() == 29 && separators_ok(s) && cells_ok(s)
}

/// The character printed at position `i` of the text of pattern `x`.
pub open spec fn print_char(x: u32, i: int) -> char {
    if i % 6 == 5 {
        '|'
    } else if (x >> (((i / 6) * 5 + i % 6) as u32)) & 1 == 1 {
        '#'
    } else {
        '-'
    }
}

/// The board text of pattern `x`.
pub open spec fn spec_print(x: u32) -> Seq<char> {
    Seq::new(29, |i: int| print_char(x, i))
}

/// The 5-bit value of a row chunk given as its own 5 characters.
pub open spec fn row_chunk5(c: Seq<char>) -> u32 {
    cell_bit(c[0]) | (cell_bit(c[1]) << 1) | (cell_bit(c[2]) << 2) | (cell_bit(c[3]) << 3) | (
    cell_bit(c[4]) << 4)
}

/// Reads one 5-character row chunk: `#` is 1, `-` is 0, leftmost character
/// in the lowest bit; any other character rejects the chunk.
fn parse_chunk(x: &str) -> (r: Option<u32>)
    requires
        x@.len() == 5,
    ensures
        r is Some <==> (forall|i: int| 0 <= i < 5 ==> (#[trigger] x@[i]) == '#' || x@[i] == '-'),
        r is Some ==> r->0 == row_chunk5(x@),
{
    let c0 = x.get_char(0);
    let b0: u32 = if c0 == '#' {
        1u32
    } else if c0 == '-' {
        0u32
    } else {
        return None;
    };
    let c1 = x.get_char(1);
    let b1: u32 = if c1 == '#' {
        1u32
    } else if c1 == '-' {
        0u32
    } else {
        return None;
    };
    let c2 = x.get_char(2);
    let b2: u32 = if c2 == '#' {
        1u32
    } else if c2 == '-' {
        0u32
    } else {
        return None;
    };
    let c3 = x.get_char(3);
    let b3: u32 = if c3 == '#' {
        1u32
    } else if c3 == '-' {
        0u32
    } else {
        return None;
    };
    let c4 = x.get_char(4);
    let b4: u32 = if c4 == '#' {
        1u32
    } else if c4 == '-' {
        0u32
    } else {
        return None;
    };
    let v = b0 | (b1 << 1) | (b2 << 2) | (b3 << 3) | (b4 << 4);
    Some(v)
}

/// Parses a board text into its 25-bit pattern.  Returns the pattern
/// exactly for well-formed text; otherwise the error names the first kind
/// of defect found, checking the length first, then the separators, then
/// the cell characters.
pub fn parse(x: &str) -> (r: Result<u32, ParseError>)
    ensures
        r is Ok <==> well_formed(x@),
        r is Ok ==> r->Ok_0 == spec_pattern(x@) && r->Ok_0 < PATTERN_LIMIT,
        x@.len() != 29 ==> r == Result::<u32, ParseError>::Err(ParseError::WrongLength),
        x@.len() == 29 && !separators_ok(x@) ==> r == Result::<u32, ParseError>::Err(
            ParseError::WrongChunkLength,
        ),
        x@.len() == 29 && separators_ok(x@) && !cells_ok(x@) ==> r == Result::<
            u32,
            ParseError,
        >::Err(ParseError::InvalidChunk),
{
    if x.unicode_len() != 29 {
        return Err(ParseError::WrongLength);
    }
    if x.get_char(5) != '|' || x.get_char(11) != '|' || x.get_char(17) != '|' || x.get_char(23)
        != '|' {
        return Err(ParseError::WrongChunkLength);
    }
    let s0 = x.substring_char(0, 5);
    let c0 = match parse_chunk(s0) {
        Some(v) => v,
        None => {
            proof {
                assert(!cells_ok(x@)) by {
                    let j = choose|i: int| 0 <= i < 5 && !(s0@[i] == '#' || s0@[i] == '-');
                    assert(x@[0 + j] == s0@[j]);
                    assert((0 + j) % 6 != 5);
                }
            }
            return Err(ParseError::InvalidChunk);
        },
    };
    proof {
        assert(c0 == row_chunk(x@, 0)) by {
            assert(s0@[0] == x@[0] && s0@[1] == x@[1] && s0@[2] == x@[2]
                && s0@[3] == x@[3] && s0@[4] == x@[4]);
        }
    }
    let s1 = x.substring_char(6, 11);
    let c1 = match parse_chunk(s1) {
        Some(v) => v,
        None => {
            proof {
                assert(!cells_ok(x@)) by {
                    let j = choose|i: int| 0 <= i < 5 && !(s1@[i] == '#' || s1@[i] == '-');
                    assert(x@[6 + j] == s1@[j]);
                    assert((6 + j) % 6 != 5);
                }
            }
            return Err(ParseError::InvalidChunk);
        },
    };
    proof {
        assert(c1 == row_chunk(x@, 1)) by {
            assert(s1@[0] == x@[6] && s1@[1] == x@[7] && s1@[2] == x@[8]
                && s1@[3] == x@[9] && s1@[4] == x@[10]);
        }
    }
    let s2 = x.substring_char(12, 17);
    let c2 = match parse_chunk(s2) {
        Some(v) => v,
        None => {
            proof {
                assert(!cells_ok(x@)) by {
                    let j = choose|i: int| 0 <= i < 5 && !(s2@[i] == '#' || s2@[i] == '-');
                    assert(x@[12 + j] == s2@[j]);
                    assert((12 + j) % 6 != 5);
                }
            }
            return Err(ParseError::InvalidChunk);
        },
    };
    proof {
        assert(c2 == row_chunk(x@, 2)) by {
            assert(s2@[0] == x@[12] && s2@[1] == x@[13] && s2@[2] == x@[14]
                && s2@[3] == x@[15] && s2@[4] == x@[16]);
        }
    }
    let s3 = x.substring_char(18, 23);
    let c3 = match parse_chunk(s3) {
        Some(v) => v,
        None => {
            proof {
                assert(!cells_ok(x@)) by {
                    let j = choose|i: int| 0 <= i < 5 && !(s3@[i] == '#' || s3@[i] == '-');
                    assert(x@[18 + j] == s3@[j]);
                    assert((18 + j) % 6 != 5);
                }
            }
            return Err(ParseError::InvalidChunk);
        },
    };
    proof {
        assert(c3 == row_chunk(x@, 3)) by {
            assert(s3@[0] == x@[18] && s3@[1] == x@[19] && s3@[2] == x@[20]
                && s3@[3] == x@[21] && s3@[4] == x@[22]);
        }
    }
    let s4 = x.substring_char(24, 29);
    let c4 = match parse_chunk(s4) {
        Some(v) => v,
        None => {
            proof {
                assert(!cells_ok(x@)) by {
                    let j = choose|i: int| 0 <= i < 5 && !(s4@[i] == '#' || s4@[i] == '-');
                    assert(x@[24 + j] == s4@[j]);
                    assert((24 + j) % 6 != 5);
                }
            }
            return Err(ParseError::InvalidChunk);
        },
    };
    proof {
        assert(c4 == row_chunk(x@, 4)) by {
            assert(s4@[0] == x@[24] && s4@[1] == x@[25] && s4@[2] == x@[26]
                && s4@[3] == x@[27] && s4@[4] == x@[28]);
        }
    }
    let v = c0 | (c1 << 5) | (c2 << 10) | (c3 << 15) | (c4 << 20);
    proof {
        assert(cells_ok(x@)) by {
            assert forall|i: int| 0 <= i < 29 && i % 6 != 5 implies (#[trigger] x@[i]) == '#'
                || x@[i] == '-' by {
                let r = i / 6;
                let j = i % 6;
                assert(i == 6 * r + j);
                if r == 0 {
                    assert(x@[6 * 0 + j] == s0@[j]);
                }
                if r == 1 {
                    assert(x@[6 * 1 + j] == s1@[j]);
                }
                if r == 2 {
                    assert(x@[6 * 2 + j] == s2@[j]);
                }
                if r == 3 {
                    assert(x@[6 * 3 + j] == s3@[j]);
                }
                if r == 4 {
                    assert(x@[6 * 4 + j] == s4@[j]);
                }
            }
        }
        assert(v == spec_pattern(x@));
        lemma_pattern_bound(x@);
    }
    Ok(v)
}

/// Every parsed pattern stays inside the 25 grid bits.
pub proof fn lemma_pattern_bound(s: Seq<char>)
    ensures
        spec_pattern(s) < PATTERN_LIMIT,
{
    let b0 = cell_bit(s[0]);
    let b1 = cell_bit(s[1]);
    let b2 = cell_bit(s[2]);
    let b3 = cell_bit(s[3]);
    let b4 = cell_bit(s[4]);
    let b5 = cell_bit(s[6]);
    let b6 = cell_bit(s[7]);
    let b7 = cell_bit(s[8]);
    let b8 = cell_bit(s[9]);
    let b9 = cell_bit(s[10]);
    let b10 = cell_bit(s[12]);
    let b11 = cell_bit(s[13]);
    let b12 = cell_bit(s[14]);
    let b13 = cell_bit(s[15]);
    let b14 = cell_bit(s[16]);
    let b15 = cell_bit(s[18]);
    let b16 = cell_bit(s[19]);
    let b17 = cell_bit(s[20]);
    let b18 = cell_bit(s[21]);
    let b19 = cell_bit(s[22]);
    let b20 = cell_bit(s[24]);
    let b21 = cell_bit(s[25]);
    let b22 = cell_bit(s[26]);
    let b23 = cell_bit(s[27]);
    let b24 = cell_bit(s[28]);
    let p = spec_pattern(s);
    assert(p < 0x2000000) by (bit_vector)
        requires
            b0 <= 1,
            b1 <= 1,
            b2 <= 1,
            b3 <= 1,
            b4 <= 1,
            b5 <= 1,
            b6 <= 1,
            b7 <= 1,
            b8 <= 1,
            b9 <= 1,
            b10 <= 1,
            b11 <= 1,
            b12 <= 1,
            b13 <= 1,
            b14 <= 1,
            b15 <= 1,
            b16 <= 1,
            b17 <= 1,
            b18 <= 1,
            b19 <= 1,
            b20 <= 1,
            b21 <= 1,
            b22 <= 1,
            b23 <= 1,
            b24 <= 1,
            p == (b0 | (b1 << 1) | (b2 << 2) | (b3 << 3) | (b4 << 4)) | ((b5 | (b6 << 1) | (b7 << 2) | (b8 << 3) | (b9 << 4)) << 5) | ((b10 | (b11 << 1) | (b12 << 2) | (b13 << 3) | (b14 << 4)) << 10) | ((b15 | (b16 << 1) | (b17 << 2) | (b18 << 3) | (b19 << 4)) << 15) | ((b20 | (b21 << 1) | (b22 << 2) | (b23 << 3) | (b24 << 4)) << 20),
    ;
}

/// Prints a pattern as board text: 29 characters, five rows of `#`/`-`
/// separated by `|`.  Bits of `x` above the 25 grid cells are ignored.
pub fn output(x: u32) -> (r: String)
    ensures
        r@ == spec_print(x),
        r@.len() == 29,
{
    let mut out = String::new();
    let mut i: usize = 0;
    while i < 29
        invariant
            i <= 29,
            out@.len() == i,
            forall|j: int| 0 <= j < i ==> out@[j] == print_char(x, j),
        decreases 29 - i,
    {
        proof {
            reveal_strlit("|");
            reveal_strlit("#");
            reveal_strlit("-");
        }
        if i % 6 == 5 {
            out.append("|");
        } else {
            let k: u32 = ((i / 6) * 5 + i % 6) as u32;
            if (x >> k) & 1 == 1 {
                out.append("#");
            } else {
                out.append("-");
            }
        }
        i = i + 1;
    }
    proof {
        assert(out@ =~= spec_print(x));
    }
    out
}

/// Printing a pattern and parsing the text gives the pattern back.
pub proof fn lemma_print_parse(x: u32)
    requires
        x < PATTERN_LIMIT,
    ensures
        well_formed(spec_print(x)),
        spec_pattern(spec_print(x)) == x,
{
    let s = spec_print(x);
    let b0 = cell_bit(s[0]);
    let b1 = cell_bit(s[1]);
    let b2 = cell_bit(s[2]);
    let b3 = cell_bit(s[3]);
    let b4 = cell_bit(s[4]);
    let b5 = cell_bit(s[6]);
    let b6 = cell_bit(s[7]);
    let b7 = cell_bit(s[8]);
    let b8 = cell_bit(s[9]);
    let b9 = cell_bit(s[10]);
    let b10 = cell_bit(s[12]);
    let b11 = cell_bit(s[13]);
    let b12 = cell_bit(s[14]);
    let b13 = cell_bit(s[15]);
    let b14 = cell_bit(s[16]);
    let b15 = cell_bit(s[18]);
    let b16 = cell_bit(s[19]);
    let b17 = cell_bit(s[20]);
    let b18 = cell_bit(s[21]);
    let b19 = cell_bit(s[22]);
    let b20 = cell_bit(s[24]);
    let b21 = cell_bit(s[25]);
    let b22 = cell_bit(s[26]);
    let b23 = cell_bit(s[27]);
    let b24 = cell_bit(s[28]);
    let p = spec_pattern(s);
    assert(p == x) by (bit_vector)
        requires
            x < 0x2000000,
            b0 == (if (x >> 0) & 1 == 1 { 1u32 } else { 0u32 }),
            b1 == (if (x >> 1) & 1 == 1 { 1u32 } else { 0u32 }),
            b2 == (if (x >> 2) & 1 == 1 { 1u32 } else { 0u32 }),
            b3 == (if (x >> 3) & 1 == 1 { 1u32 } else { 0u32 }),
            b4 == (if (x >> 4) & 1 == 1 { 1u32 } else { 0u32 }),
            b5 == (if (x >> 5) & 1 == 1 { 1u32 } else { 0u32 }),
            b6 == (if (x >> 6) & 1 == 1 { 1u32 } else { 0u32 }),
            b7 == (if (x >> 7) & 1 == 1 { 1u32 } else { 0u32 }),
            b8 == (if (x >> 8) & 1 == 1 { 1u32 } else { 0u32 }),
            b9 == (if (x >> 9) & 1 == 1 { 1u32 } else { 0u32 }),
            b10 == (if (x >> 10) & 1 == 1 { 1u32 } else { 0u32 }),
            b11 == (if (x >> 11) & 1 == 1 { 1u32 } else { 0u32 }),
            b12 == (if (x >> 12) & 1 == 1 { 1u32 } else { 0u32 }),
            b13 == (if (x >> 13) & 1 == 1 { 1u32 } else { 0u32 }),
            b14 == (if (x >> 14) & 1 == 1 { 1u32 } else { 0u32 }),
            b15 == (if (x >> 15) & 1 == 1 { 1u32 } else { 0u32 }),
            b16 == (if (x >> 16) & 1 == 1 { 1u32 } else { 0u32 }),
            b17 == (if (x >> 17) & 1 == 1 { 1u32 } else { 0u32 }),
            b18 == (if (x >> 18) & 1 == 1 { 1u32 } else { 0u32 }),
            b19 == (if (x >> 19) & 1 == 1 { 1u32 } else { 0u32 }),
            b20 == (if (x >> 20) & 1 == 1 { 1u32 } else { 0u32 }),
            b21 == (if (x >> 21) & 1 == 1 { 1u32 } else { 0u32 }),
            b22 == (if (x >> 22) & 1 == 1 { 1u32 } else { 0u32 }),
            b23 == (if (x >> 23) & 1 == 1 { 1u32 } else { 0u32 }),
            b24 == (if (x >> 24) & 1 == 1 { 1u32 } else { 0u32 }),
            p == (b0 | (b1 << 1) | (b2 << 2) | (b3 << 3) | (b4 << 4)) | ((b5 | (b6 << 1) | (b7 << 2) | (b8 << 3) | (b9 << 4)) << 5) | ((b10 | (b11 << 1) | (b12 << 2) | (b13 << 3) | (b14 << 4)) << 10) | ((b15 | (b16 << 1) | (b17 << 2) | (b18 << 3) | (b19 << 4)) << 15) | ((b20 | (b21 << 1) | (b22 << 2) | (b23 << 3) | (b24 << 4)) << 20),
    ;
}

/// Parsing a well-formed board text and printing the pattern gives the
/// text back.
pub proof fn lemma_parse_print(s: Seq<char>)
    requires
        well_formed(s),
    ensures
        spec_print(spec_pattern(s)) =~= s,
{
    let b0 = cell_bit(s[0]);
    let b1 = cell_bit(s[1]);
    let b2 = cell_bit(s[2]);
    let b3 = cell_bit(s[3]);
    let b4 = cell_bit(s[4]);
    let b5 = cell_bit(s[6]);
    let b6 = cell_bit(s[7]);
    let b7 = cell_bit(s[8]);
    let b8 = cell_bit(s[9]);
    let b9 = cell_bit(s[10]);
    let b10 = cell_bit(s[12]);
    let b11 = cell_bit(s[13]);
    let b12 = cell_bit(s[14]);
    let b13 = cell_bit(s[15]);
    let b14 = cell_bit(s[16]);
    let b15 = cell_bit(s[18]);
    let b16 = cell_bit(s[19]);
    let b17 = cell_bit(s[20]);
    let b18 = cell_bit(s[21]);
    let b19 = cell_bit(s[22]);
    let b20 = cell_bit(s[24]);
    let b21 = cell_bit(s[25]);
    let b22 = cell_bit(s[26]);
    let b23 = cell_bit(s[27]);
    let b24 = cell_bit(s[28]);
    let p = spec_pattern(s);
    assert((p >> 0) & 1 == b0 && (p >> 1) & 1 == b1 && (p >> 2) & 1 == b2 && (p >> 3) & 1 == b3 && (p >> 4) & 1 == b4 && (p >> 5) & 1 == b5 && (p >> 6) & 1 == b6 && (p >> 7) & 1 == b7 && (p >> 8) & 1 == b8 && (p >> 9) & 1 == b9 && (p >> 10) & 1 == b10 && (p >> 11) & 1 == b11 && (p >> 12) & 1 == b12 && (p >> 13) & 1 == b13 && (p >> 14) & 1 == b14 && (p >> 15) & 1 == b15 && (p >> 16) & 1 == b16 && (p >> 17) & 1 == b17 && (p >> 18) & 1 == b18 && (p >> 19) & 1 == b19 && (p >> 20) & 1 == b20 && (p >> 21) & 1 == b21 && (p >> 22) & 1 == b22 && (p >> 23) & 1 == b23 && (p >> 24) & 1 == b24) by (bit_vector)
        requires
            b0 <= 1,
            b1 <= 1,
            b2 <= 1,
            b3 <= 1,
            b4 <= 1,
            b5 <= 1,
            b6 <= 1,
            b7 <= 1,
            b8 <= 1,
            b9 <= 1,
            b10 <= 1,
            b11 <= 1,
            b12 <= 1,
            b13 <= 1,
            b14 <= 1,
            b15 <= 1,
            b16 <= 1,
            b17 <= 1,
            b18 <= 1,
            b19 <= 1,
            b20 <= 1,
            b21 <= 1,
            b22 <= 1,
            b23 <= 1,
            b24 <= 1,
            p == (b0 | (b1 << 1) | (b2 << 2) | (b3 << 3) | (b4 << 4)) | ((b5 | (b6 << 1) | (b7 << 2) | (b8 << 3) | (b9 << 4)) << 5) | ((b10 | (b11 << 1) | (b12 << 2) | (b13 << 3) | (b14 << 4)) << 10) | ((b15 | (b16 << 1) | (b17 << 2) | (b18 << 3) | (b19 << 4)) << 15) | ((b20 | (b21 << 1) | (b22 << 2) | (b23 << 3) | (b24 << 4)) << 20),
    ;

    assert forall|i: int| 0 <= i < 29 implies spec_print(p)[i] == s[i] by {
        if i % 6 == 5 {
        } else {
            if i == 0 {
                assert(print_char(p, 0) == s[0]);
            }
            if i == 1 {
                assert(print_char(p, 1) == s[1]);
            }
            if i == 2 {
                assert(print_char(p, 2) == s[2]);
            }
            if i == 3 {
                assert(print_char(p, 3) == s[3]);
            }
            if i == 4 {
                assert(print_char(p, 4) == s[4]);
            }
            if i == 6 {
                assert(print_char(p, 6) == s[6]);
            }
            if i == 7 {
                assert(print_char(p, 7) == s[7]);
            }
            if i == 8 {
                assert(print_char(p, 8) == s[8]);
            }
            if i == 9 {
                assert(print_char(p, 9) == s[9]);
            }
            if i == 10 {
                assert(print_char(p, 10) == s[10]);
            }
            if i == 12 {
                assert(print_char(p, 12) == s[12]);
            }
            if i == 13 {
                assert(print_char(p, 13) == s[13]);
            }
            if i == 14 {
                assert(print_char(p, 14) == s[14]);
            }
            if i == 15 {
                assert(print_char(p, 15) == s[15]);
            }
            if i == 16 {
                assert(print_char(p, 16) == s[16]);
            }
            if i == 18 {
                assert(print_char(p, 18) == s[18]);
            }
            if i == 19 {
                assert(print_char(p, 19) == s[19]);
            }
            if i == 20 {
                assert(print_char(p, 20) == s[20]);
            }
            if i == 21 {
                assert(print_char(p, 21) == s[21]);
            }
            if i == 22 {
                assert(print_char(p, 22) == s[22]);
            }
            if i == 24 {
                assert(print_char(p, 24) == s[24]);
            }
            if i == 25 {
                assert(print_char(p, 25) == s[25]);
            }
            if i == 26 {
                assert(print_char(p, 26) == s[26]);
            }
            if i == 27 {
                assert(print_char(p, 27) == s[27]);
            }
            if i == 28 {
                assert(print_char(p, 28) == s[28]);
            }
        }
    }
}

} // verus!

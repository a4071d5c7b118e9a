//! The digit tables and guard patterns shared by the EAN family.
//!
//! Three parity-indexed tables map each digit 0-9 to a fixed 7-bit pattern:
//! side 0 is the left-odd table, side 1 the left-even table, side 2 the right
//! table. The right pattern of every digit is the bitwise complement of its
//! left-odd pattern. The guard constants mark the structural boundaries of an
//! assembled barcode.

use vstd::prelude::*;

verus! {

/// The left-odd 7-bit pattern of digit `d`.
pub open spec fn left_odd_pattern(d: int) -> Seq<u8> {
    if d == 0 {
        seq![0u8, 0, 0, 1, 1, 0, 1]
    } else if d == 1 {
        seq![0u8, 0, 1, 1, 0, 0, 1]
    } else if d == 2 {
        seq![0u8, 0, 1, 0, 0, 1, 1]
    } else if d == 3 {
        seq![0u8, 1, 1, 1, 1, 0, 1]
    } else if d == 4 {
        seq![0u8, 1, 0, 0, 0, 1, 1]
    } else if d == 5 {
        seq![0u8, 1, 1, 0, 0, 0, 1]
    } else if d == 6 {
        seq![0u8, 1, 0, 1, 1, 1, 1]
    } else if d == 7 {
        seq![0u8, 1, 1, 1, 0, 1, 1]
    } else if d == 8 {
        seq![0u8, 1, 1, 0, 1, 1, 1]
    } else {
        seq![0u8, 0, 0, 1, 0, 1, 1]
    }
}

/// The left-even 7-bit pattern of digit `d`.
pub open spec fn left_even_pattern(d: int) -> Seq<u8> {
    if d == 0 {
        seq![0u8, 1, 0, 0, 1, 1, 1]
    } else if d == 1 {
        seq![0u8, 1, 1, 0, 0, 1, 1]
    } else if d == 2 {
        seq![0u8, 0, 1, 1, 0, 1, 1]
    } else if d == 3 {
        seq![0u8, 1, 0, 0, 0, 0, 1]
    } else if d == 4 {
        seq![0u8, 0, 1, 1, 1, 0, 1]
    } else if d == 5 {
        seq![0u8, 1, 1, 1, 0, 0, 1]
    } else if d == 6 {
        seq![0u8, 0, 0, 0, 1, 0, 1]
    } else if d == 7 {
        seq![0u8, 0, 1, 0, 0, 0, 1]
    } else if d == 8 {
        seq![0u8, 0, 0, 1, 0, 0, 1]
    } else {
        seq![0u8, 0, 1, 0, 1, 1, 1]
    }
}

/// The right 7-bit pattern of digit `d`.
pub open spec fn right_pattern(d: int) -> Seq<u8> {
    if d == 0 {
        seq![1u8, 1, 1, 0, 0, 1, 0]
    } else if d == 1 {
        seq![1u8, 1, 0, 0, 1, 1, 0]
    } else if d == 2 {
        seq![1u8, 1, 0, 1, 1, 0, 0]
    } else if d == 3 {
        seq![1u8, 0, 0, 0, 0, 1, 0]
    } else if d == 4 {
        seq![1u8, 0, 1, 1, 1, 0, 0]
    } else if d == 5 {
        seq![1u8, 0, 0, 1, 1, 1, 0]
    } else if d == 6 {
        seq![1u8, 0, 1, 0, 0, 0, 0]
    } else if d == 7 {
        seq![1u8, 0, 0, 0, 1, 0, 0]
    } else if d == 8 {
        seq![1u8, 0, 0, 1, 0, 0, 0]
    } else {
        seq![1u8, 1, 1, 0, 1, 0, 0]
    }
}

/// The pattern of digit `d` on side `side`: 0 = left-odd, 1 = left-even,
/// 2 = right.
pub open spec fn encoding(side: int, d: int) -> Seq<u8> {
    if side == 0 {
        left_odd_pattern(d)
    } else if side == 1 {
        left_even_pattern(d)
    } else {
        right_pattern(d)
    }
}

/// Every table entry is exactly 7 bits, each 0 or 1.
pub proof fn lemma_encoding_shape(side: int, d: int)
    requires
        0 <= side < 3,
        0 <= d < 10,
    ensures
        encoding(side, d).len() == 7,
        forall|j: int| 0 <= j < 7 ==> encoding(side, d)[j] <= 1,
{
}

/// The right table is the bitwise complement of the left-odd table, one of
/// the standard structural properties of the shared tables.
pub proof fn lemma_right_complements_left_odd(d: int)
    requires
        0 <= d < 10,
    ensures
        right_pattern(d).len() == 7,
        forall|j: int| 0 <= j < 7 ==> right_pattern(d)[j] + left_odd_pattern(d)[j] == 1,
{
}

/// The start/end guard: `1,0,1`.
pub open spec fn left_guard_spec() -> Seq<u8> {
    seq![1u8, 0, 1]
}

/// The middle guard: `0,1,0,1,0`.
pub open spec fn middle_guard_spec() -> Seq<u8> {
    seq![0u8, 1, 0, 1, 0]
}

/// The end guard, equal to the start guard.
pub open spec fn right_guard_spec() -> Seq<u8> {
    seq![1u8, 0, 1]
}

/// Builds the start guard bits.
pub fn left_guard() -> (r: Vec<u8>)
    ensures
        r@ == left_guard_spec(),
{
    let mut v: Vec<u8> = Vec::new();
    v.push(1);
    v.push(0);
    v.push(1);
    proof {
        assert(v@ =~= left_guard_spec());
    }
    v
}

/// Builds the middle guard bits.
pub fn middle_guard() -> (r: Vec<u8>)
    ensures
        r@ == middle_guard_spec(),
{
    let mut v: Vec<u8> = Vec::new();
    v.push(0);
    v.push(1);
    v.push(0);
    v.push(1);
    v.push(0);
    proof {
        assert(v@ =~= middle_guard_spec());
    }
    v
}

/// Builds the end guard bits.
pub fn right_guard() -> (r: Vec<u8>)
    ensures
        r@ == right_guard_spec(),
{
    let mut v: Vec<u8> = Vec::new();
    v.push(1);
    v.push(0);
    v.push(1);
    proof {
        assert(v@ =~= right_guard_spec());
    }
    v
}

/// Builds a 7-bit pattern from its bits, in order.
fn bits7(b0: u8, b1: u8, b2: u8, b3: u8, b4: u8, b5: u8, b6: u8) -> (r: Vec<u8>)
    ensures
        r@ == seq![b0, b1, b2, b3, b4, b5, b6],
{
    let mut v: Vec<u8> = Vec::new();
    v.push(b0);
    v.push(b1);
    v.push(b2);
    v.push(b3);
    v.push(b4);
    v.push(b5);
    v.push(b6);
    proof {
        assert(v@ =~= seq![b0, b1, b2, b3, b4, b5, b6]);
    }
    v
}

/// Looks digit `d` up in the table of side `side` and returns its 7 bits.
pub fn char_encoding(side: usize, d: u8) -> (r: Vec<u8>)
    requires
        side < 3,
        d < 10,
    ensures
        r@ == encoding(side as int, d as int),
        r@.len() == 7,
{
    if side == 0 {
        if d == 0 {
            bits7(0, 0, 0, 1, 1, 0, 1)
        } else if d == 1 {
            bits7(0, 0, 1, 1, 0, 0, 1)
        } else if d == 2 {
            bits7(0, 0, 1, 0, 0, 1, 1)
        } else if d == 3 {
            bits7(0, 1, 1, 1, 1, 0, 1)
        } else if d == 4 {
            bits7(0, 1, 0, 0, 0, 1, 1)
        } else if d == 5 {
            bits7(0, 1, 1, 0, 0, 0, 1)
        } else if d == 6 {
            bits7(0, 1, 0, 1, 1, 1, 1)
        } else if d == 7 {
            bits7(0, 1, 1, 1, 0, 1, 1)
        } else if d == 8 {
            bits7(0, 1, 1, 0, 1, 1, 1)
        } else {
            bits7(0, 0, 0, 1, 0, 1, 1)
        }
    } else if side == 1 {
        if d == 0 {
            bits7(0, 1, 0, 0, 1, 1, 1)
        } else if d == 1 {
            bits7(0, 1, 1, 0, 0, 1, 1)
        } else if d == 2 {
            bits7(0, 0, 1, 1, 0, 1, 1)
        } else if d == 3 {
            bits7(0, 1, 0, 0, 0, 0, 1)
        } else if d == 4 {
            bits7(0, 0, 1, 1, 1, 0, 1)
        } else if d == 5 {
            bits7(0, 1, 1, 1, 0, 0, 1)
        } else if d == 6 {
            bits7(0, 0, 0, 0, 1, 0, 1)
        } else if d == 7 {
            bits7(0, 0, 1, 0, 0, 0, 1)
        } else if d == 8 {
            bits7(0, 0, 0, 1, 0, 0, 1)
        } else {
            bits7(0, 0, 1, 0, 1, 1, 1)
        }
    } else {
        if d == 0 {
            bits7(1, 1, 1, 0, 0, 1, 0)
        } else if d == 1 {
            bits7(1, 1, 0, 0, 1, 1, 0)
        } else if d == 2 {
            bits7(1, 1, 0, 1, 1, 0, 0)
        } else if d == 3 {
            bits7(1, 0, 0, 0, 0, 1, 0)
        } else if d == 4 {
            bits7(1, 0, 1, 1, 1, 0, 0)
        } else if d == 5 {
            bits7(1, 0, 0, 1, 1, 1, 0)
        } else if d == 6 {
            bits7(1, 0, 1, 0, 0, 0, 0)
        } else if d == 7 {
            bits7(1, 0, 0, 0, 1, 0, 0)
        } else if d == 8 {
            bits7(1, 0, 0, 1, 0, 0, 0)
        } else {
            bits7(1, 1, 1, 0, 1, 0, 0)
        }
    }
}

} // verus!

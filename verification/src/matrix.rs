//! Building the threshold matrix of a level.

use crate::array::{
    array_rows, beside, cell, joined, row_count, scaled, scaled_rows, shifted, shifted_rows,
    square, IntArray2,
};
use crate::bayer::{
    bayer_cells, bayer_rows, bayer_side, bayer_value, in_matrix, lemma_bayer_base,
    lemma_bayer_value_range, lemma_level_step, lemma_side_bound, lemma_split_index,
};
use crate::error::DitherError;
use vstd::arithmetic::div_mod::lemma_mod_bound;
use vstd::arithmetic::power2::lemma2_to64;
use vstd::prelude::*;

verus! {

/// The highest level whose entries fit the matrix's `i32` cells.
pub const MAX_LEVEL: u8 = 15;

/// The four quadrants of the matrix of `level`, put together from the matrix
/// of the level below, are the matrix of `level`.
proof fn lemma_quadrants_assemble(level: nat, lower: Seq<Seq<i32>>, out: Seq<Seq<i32>>)
    requires
        1 < level <= 15,
        lower == bayer_rows((level - 1) as nat),
        out == beside(scaled_rows(4, lower), shifted_rows(scaled_rows(4, lower), 2)) + beside(
            shifted_rows(scaled_rows(4, lower), 3),
            shifted_rows(scaled_rows(4, lower), 1),
        ),
    ensures
        out == bayer_rows(level),
{
    let below = (level - 1) as nat;
    let half = bayer_side(below) as int;
    lemma_side_bound(below);
    lemma_side_bound(level);
    lemma_level_step(level);
    let want = bayer_rows(level);
    assert(out.len() == want.len());
    assert forall|r: int| 0 <= r < out.len() implies out[r] =~= want[r] by {
        lemma_split_index(r, half);
        assert(out[r].len() == 2 * half);
        assert forall|c: int| 0 <= c < 2 * half implies out[r][c] == want[r][c] by {
            lemma_split_index(c, half);
            lemma_bayer_value_range(below, r % half, c % half);
            lemma_bayer_value_range(level, r, c);
        }
    }
    assert(out =~= want);
}

/// The threshold matrix of a level as an array of integers: the entries
/// `0 2` over `3 1` at level 1, and above that four quadrants, each four
/// times the matrix of the level below, plus 0, 2, 3 and 1.
pub(crate) fn generate_bayer(level: u8) -> (m: IntArray2)
    requires
        1 <= level <= MAX_LEVEL,
    ensures
        array_rows(m) == bayer_rows(level as nat),
    decreases level,
{
    if level == 1 {
        let m = square(0, 2, 3, 1);
        proof {
            lemma2_to64();
            assert forall|r: int, c: int| in_matrix(1, r, c) implies bayer_value(1, r, c)
                == #[trigger] array_rows(m)[r][c] by {
                lemma_bayer_base(r, c);
            }
            assert(array_rows(m) =~~= bayer_rows(1));
        }
        m
    } else {
        let lower = generate_bayer(level - 1);
        proof {
            let below = (level - 1) as nat;
            lemma_side_bound(level as nat);
            lemma_level_step(level as nat);
            assert forall|r: int, c: int| in_matrix(below, r, c) implies 0 <= #[trigger] array_rows(
                lower,
            )[r][c] < 0x1000_0000 by {
                lemma_bayer_value_range(below, r, c);
            }
        }
        let quad = scaled(4, &lower);
        let plus_one = shifted(&quad, 1);
        let plus_two = shifted(&quad, 2);
        let plus_three = shifted(&quad, 3);
        proof {
            let half = bayer_side((level - 1) as nat);
            assert(half * (half + half) <= isize::MAX) by (nonlinear_arith)
                requires
                    0 < half <= 0x4000,
            ;
            assert((half + half) * (half + half) <= isize::MAX) by (nonlinear_arith)
                requires
                    0 < half <= 0x4000,
            ;
        }
        let top = joined(1, &quad, &plus_two);
        let bottom = joined(1, &plus_three, &plus_one);
        let m = joined(0, &top, &bottom);
        proof {
            lemma_quadrants_assemble(level as nat, array_rows(lower), array_rows(m));
        }
        m
    }
}

/// The entry that the matrix of a level, repeated over the whole plane,
/// holds at the pixel `(x, y)`: the entry in row `y mod side` and column
/// `x mod side`.
pub open spec fn tile_value(level: nat, x: int, y: int) -> int {
    bayer_value(level, y % (bayer_side(level) as int), x % (bayer_side(level) as int))
}

/// The threshold matrix of a level from 1 to `MAX_LEVEL`. Its view is the
/// level; its entries are those of `bayer_value` at that level, and the
/// threshold at a place is its entry divided by the number of entries.
pub struct BayerMatrix {
    level: u8,
    cells: IntArray2,
}

impl View for BayerMatrix {
    type V = nat;

    closed spec fn view(&self) -> nat {
        self.level as nat
    }
}

impl BayerMatrix {
    #[verifier::type_invariant]
    spec fn inv(&self) -> bool {
        &&& 1 <= self.level <= MAX_LEVEL
        &&& array_rows(self.cells) == bayer_rows(self.level as nat)
    }

    /// The matrix of `level`. Level 0 and levels above `MAX_LEVEL` have none.
    pub fn generate(level: u8) -> (made: Result<BayerMatrix, DitherError>)
        ensures
            level == 0 ==> made == Err::<BayerMatrix, DitherError>(DitherError::ZeroLevel),
            level > MAX_LEVEL ==> made == Err::<BayerMatrix, DitherError>(
                DitherError::LevelTooLarge,
            ),
            1 <= level <= MAX_LEVEL ==> (made matches Ok(m) && m@ == level),
    {
        if level == 0 {
            Err(DitherError::ZeroLevel)
        } else if level > MAX_LEVEL {
            Err(DitherError::LevelTooLarge)
        } else {
            Ok(BayerMatrix { level, cells: generate_bayer(level) })
        }
    }

    /// The level of the matrix, from 1 to `MAX_LEVEL`.
    pub fn level(&self) -> (level: u8)
        ensures
            level == self@,
            1 <= level <= MAX_LEVEL,
    {
        proof {
            use_type_invariant(self);
        }
        self.level
    }

    /// The side length: two to the power of the level.
    pub fn side(&self) -> (side: u32)
        ensures
            side == bayer_side(self@),
            0 < side <= 0x8000,
    {
        proof {
            use_type_invariant(self);
            lemma_side_bound(self.level as nat);
        }
        row_count(&self.cells) as u32
    }

    /// The number of entries, by which an entry is divided to give its
    /// threshold: the square of the side.
    pub fn entries(&self) -> (count: u32)
        ensures
            count == bayer_cells(self@),
            0 < count <= 0x4000_0000,
    {
        let side = self.side();
        proof {
            use_type_invariant(self);
            lemma_side_bound(self@);
        }
        side * side
    }

    /// The entry in row `row` and column `col`, or `None` outside the matrix.
    pub fn get(&self, row: u32, col: u32) -> (entry: Option<u32>)
        ensures
            in_matrix(self@, row as int, col as int) ==> entry == Some(
                bayer_value(self@, row as int, col as int) as u32,
            ),
            !in_matrix(self@, row as int, col as int) ==> entry is None,
            entry matches Some(v) ==> v < bayer_cells(self@),
    {
        let side = self.side();
        if row < side && col < side {
            proof {
                use_type_invariant(self);
                lemma_side_bound(self@);
                lemma_bayer_value_range(self@, row as int, col as int);
            }
            Some(cell(&self.cells, row as usize, col as usize) as u32)
        } else {
            None
        }
    }

    /// The entry that the matrix, repeated over the whole plane, holds at
    /// the pixel `(x, y)`.
    pub fn tile_entry(&self, x: u32, y: u32) -> (entry: u32)
        ensures
            entry == tile_value(self@, x as int, y as int),
            entry < bayer_cells(self@),
    {
        let side = self.side();
        let row = y % side;
        let col = x % side;
        proof {
            use_type_invariant(self);
            lemma_side_bound(self@);
            lemma_mod_bound(y as int, side as int);
            lemma_mod_bound(x as int, side as int);
            lemma_bayer_value_range(self@, row as int, col as int);
        }
        cell(&self.cells, row as usize, col as usize) as u32
    }
}

} // verus!

//! The Bayer ordering: which integer stands at each place of the threshold
//! matrix of a given level, and the laws of that ordering.

use vstd::arithmetic::div_mod::{lemma_basic_div, lemma_fundamental_div_mod_converse, lemma_small_mod};
use vstd::arithmetic::power2::{
    lemma2_to64, lemma_pow2_pos, lemma_pow2_strictly_increases, lemma_pow2_unfold, pow2,
};
use vstd::prelude::*;

verus! {

/// The entry of the two-by-two matrix
///
/// ```text
/// 0 2
/// 3 1
/// ```
///
/// in row `row` and column `col`.
pub open spec fn base_value(row: int, col: int) -> int {
    if row == 0 {
        if col == 0 {
            0
        } else {
            2
        }
    } else {
        if col == 0 {
            3
        } else {
            1
        }
    }
}

/// The row of the two-by-two matrix in which `v` stands.
pub open spec fn base_row(v: int) -> int {
    if v == 0 || v == 2 {
        0
    } else {
        1
    }
}

/// The column of the two-by-two matrix in which `v` stands.
pub open spec fn base_col(v: int) -> int {
    if v == 0 || v == 3 {
        0
    } else {
        1
    }
}

/// Side length of the matrix of a level: two to the power `level`.
pub open spec fn bayer_side(level: nat) -> nat {
    pow2(level)
}

/// Number of entries of the matrix of a level: the square of its side.
pub open spec fn bayer_cells(level: nat) -> nat {
    pow2(level) * pow2(level)
}

/// The entry in row `row` and column `col` of the matrix of a level.
///
/// The matrix of level 0 is the single entry 0. The matrix of a higher level
/// is made of four blocks, each four times the matrix one level below, plus
/// the entry of the two-by-two matrix at the block's place.
pub open spec fn bayer_value(level: nat, row: int, col: int) -> int
    decreases level,
{
    if level == 0 {
        0
    } else {
        let half = pow2((level - 1) as nat) as int;
        4 * bayer_value((level - 1) as nat, row % half, col % half) + base_value(
            row / half,
            col / half,
        )
    }
}

/// The row in which the matrix of a level holds `v`.
pub open spec fn bayer_row_of(level: nat, v: int) -> int
    decreases level,
{
    if level == 0 {
        0
    } else {
        pow2((level - 1) as nat) * base_row(v % 4) + bayer_row_of((level - 1) as nat, v / 4)
    }
}

/// The column in which the matrix of a level holds `v`.
pub open spec fn bayer_col_of(level: nat, v: int) -> int
    decreases level,
{
    if level == 0 {
        0
    } else {
        pow2((level - 1) as nat) * base_col(v % 4) + bayer_col_of((level - 1) as nat, v / 4)
    }
}

/// The matrix of a level, row by row.
pub open spec fn bayer_rows(level: nat) -> Seq<Seq<i32>> {
    Seq::new(
        bayer_side(level),
        |r: int| Seq::new(bayer_side(level), |c: int| bayer_value(level, r, c) as i32),
    )
}

/// `(row, col)` is a place of the matrix of a level.
pub open spec fn in_matrix(level: nat, row: int, col: int) -> bool {
    0 <= row < bayer_side(level) && 0 <= col < bayer_side(level)
}

/// An index below twice `half` splits into a block index, 0 or 1, and an
/// index inside the block.
pub proof fn lemma_split_index(x: int, half: int)
    requires
        0 < half,
        0 <= x < 2 * half,
    ensures
        0 <= x % half < half,
        x < half ==> x / half == 0 && x % half == x,
        x >= half ==> x / half == 1 && x % half == x - half,
{
    if x < half {
        lemma_basic_div(x, half);
        lemma_small_mod(x as nat, half as nat);
    } else {
        lemma_fundamental_div_mod_converse(x, half, 1, x - half);
    }
}

/// The matrix of a level has four times the entries of the level below,
/// and twice its side.
pub proof fn lemma_level_step(level: nat)
    requires
        level > 0,
    ensures
        bayer_side(level) == 2 * bayer_side((level - 1) as nat),
        bayer_cells(level) == 4 * bayer_cells((level - 1) as nat),
        bayer_side((level - 1) as nat) > 0,
{
    lemma_pow2_unfold(level);
    lemma_pow2_pos((level - 1) as nat);
    let h = pow2((level - 1) as nat);
    let s = pow2(level);
    assert(s * s == 4 * (h * h)) by (nonlinear_arith)
        requires
            s == 2 * h,
    ;
}

/// Side and number of entries for each level that fits `i32` entries.
pub proof fn lemma_side_bound(level: nat)
    requires
        level <= 15,
    ensures
        0 < bayer_side(level) <= 0x8000,
        0 < bayer_cells(level) <= 0x4000_0000,
        bayer_side(level) * bayer_side(level) == bayer_cells(level),
{
    lemma2_to64();
    lemma_pow2_pos(level);
    if level < 15 {
        lemma_pow2_strictly_increases(level, 15);
    }
    let s = bayer_side(level);
    assert(0 < s * s <= 0x4000_0000) by (nonlinear_arith)
        requires
            0 < s <= 0x8000,
    ;
}

/// Every entry of the matrix of a level is at least 0 and below the number
/// of entries.
pub proof fn lemma_bayer_value_range(level: nat, row: int, col: int)
    requires
        in_matrix(level, row, col),
    ensures
        0 <= bayer_value(level, row, col) < bayer_cells(level),
    decreases level,
{
    if level == 0 {
        lemma2_to64();
    } else {
        let half = pow2((level - 1) as nat) as int;
        lemma_level_step(level);
        lemma_split_index(row, half);
        lemma_split_index(col, half);
        lemma_bayer_value_range((level - 1) as nat, row % half, col % half);
    }
}

/// No entry stands at two places of the matrix.
pub proof fn lemma_bayer_value_injective(level: nat, row1: int, col1: int, row2: int, col2: int)
    requires
        in_matrix(level, row1, col1),
        in_matrix(level, row2, col2),
        bayer_value(level, row1, col1) == bayer_value(level, row2, col2),
    ensures
        row1 == row2,
        col1 == col2,
    decreases level,
{
    if level == 0 {
        lemma2_to64();
    } else {
        let half = pow2((level - 1) as nat) as int;
        lemma_level_step(level);
        lemma_split_index(row1, half);
        lemma_split_index(col1, half);
        lemma_split_index(row2, half);
        lemma_split_index(col2, half);
        lemma_bayer_value_injective(
            (level - 1) as nat,
            row1 % half,
            col1 % half,
            row2 % half,
            col2 % half,
        );
    }
}

/// Every integer from 0 up to the number of entries stands in the matrix, at
/// the place that `bayer_row_of` and `bayer_col_of` give.
pub proof fn lemma_bayer_value_at_place(level: nat, v: int)
    requires
        0 <= v < bayer_cells(level),
    ensures
        in_matrix(level, bayer_row_of(level, v), bayer_col_of(level, v)),
        bayer_value(level, bayer_row_of(level, v), bayer_col_of(level, v)) == v,
    decreases level,
{
    if level == 0 {
        lemma2_to64();
    } else {
        let lower = (level - 1) as nat;
        let half = pow2(lower) as int;
        lemma_level_step(level);
        lemma_bayer_value_at_place(lower, v / 4);
        let row = bayer_row_of(level, v);
        let col = bayer_col_of(level, v);
        assert(half * base_row(v % 4) == if base_row(v % 4) == 0 {
            0
        } else {
            half
        }) by (nonlinear_arith)
            requires
                base_row(v % 4) == 0 || base_row(v % 4) == 1,
        ;
        assert(half * base_col(v % 4) == if base_col(v % 4) == 0 {
            0
        } else {
            half
        }) by (nonlinear_arith)
            requires
                base_col(v % 4) == 0 || base_col(v % 4) == 1,
        ;
        lemma_split_index(row, half);
        lemma_split_index(col, half);
    }
}

/// The matrix of a level holds each integer from 0 up to the number of its
/// entries exactly once: every entry lies in that range, no two places hold
/// the same entry, and every integer of the range stands at the place that
/// `bayer_row_of` and `bayer_col_of` name. The matrix is square, two to the
/// power `level` on each side, and up to level 15 its rows hold these entries
/// as `i32`.
pub proof fn lemma_bayer_is_permutation(level: nat)
    ensures
        forall|r: int, c: int|
            in_matrix(level, r, c) ==> 0 <= #[trigger] bayer_value(level, r, c) < bayer_cells(
                level,
            ),
        forall|r1: int, c1: int, r2: int, c2: int|
            in_matrix(level, r1, c1) && in_matrix(level, r2, c2) && #[trigger] bayer_value(
                level,
                r1,
                c1,
            ) == #[trigger] bayer_value(level, r2, c2) ==> r1 == r2 && c1 == c2,
        forall|v: int|
            0 <= v < bayer_cells(level) ==> in_matrix(
                level,
                #[trigger] bayer_row_of(level, v),
                bayer_col_of(level, v),
            ) && bayer_value(level, bayer_row_of(level, v), bayer_col_of(level, v)) == v,
        bayer_rows(level).len() == bayer_side(level),
        forall|r: int|
            0 <= r < bayer_side(level) ==> (#[trigger] bayer_rows(level)[r]).len() == bayer_side(
                level,
            ),
        level <= 15 ==> forall|r: int, c: int|
            in_matrix(level, r, c) ==> #[trigger] bayer_rows(level)[r][c] == bayer_value(
                level,
                r,
                c,
            ),
{
    if level <= 15 {
        lemma_side_bound(level);
    }
    assert forall|r: int, c: int| in_matrix(level, r, c) implies 0 <= #[trigger] bayer_value(
        level,
        r,
        c,
    ) < bayer_cells(level) by {
        lemma_bayer_value_range(level, r, c);
    }
    assert forall|r1: int, c1: int, r2: int, c2: int|
        in_matrix(level, r1, c1) && in_matrix(level, r2, c2) && #[trigger] bayer_value(
            level,
            r1,
            c1,
        ) == #[trigger] bayer_value(level, r2, c2) implies r1 == r2 && c1 == c2 by {
        lemma_bayer_value_injective(level, r1, c1, r2, c2);
    }
    assert forall|v: int| 0 <= v < bayer_cells(level) implies in_matrix(
        level,
        #[trigger] bayer_row_of(level, v),
        bayer_col_of(level, v),
    ) && bayer_value(level, bayer_row_of(level, v), bayer_col_of(level, v)) == v by {
        lemma_bayer_value_at_place(level, v);
    }
}

/// The matrix of level 1 is the two-by-two matrix itself.
pub proof fn lemma_bayer_base(row: int, col: int)
    requires
        in_matrix(1, row, col),
    ensures
        bayer_value(1, row, col) == base_value(row, col),
{
    lemma2_to64();
    assert(pow2((1 - 1) as nat) == 1);
    assert(bayer_value(0, row % 1, col % 1) == 0);
}

/// Above level 1 the matrix is made of four quadrants, each four times the
/// matrix of the level below: plus 0 at the top left, plus 2 at the top
/// right, plus 3 at the bottom left and plus 1 at the bottom right.
pub proof fn lemma_bayer_quadrants(level: nat, row: int, col: int)
    requires
        level > 1,
        in_matrix((level - 1) as nat, row, col),
    ensures
        bayer_value(level, row, col) == 4 * bayer_value((level - 1) as nat, row, col),
        bayer_value(level, row, col + bayer_side((level - 1) as nat)) == 4 * bayer_value(
            (level - 1) as nat,
            row,
            col,
        ) + 2,
        bayer_value(level, row + bayer_side((level - 1) as nat), col) == 4 * bayer_value(
            (level - 1) as nat,
            row,
            col,
        ) + 3,
        bayer_value(
            level,
            row + bayer_side((level - 1) as nat),
            col + bayer_side((level - 1) as nat),
        ) == 4 * bayer_value((level - 1) as nat, row, col) + 1,
{
    let half = pow2((level - 1) as nat) as int;
    lemma_split_index(row, half);
    lemma_split_index(col, half);
    lemma_split_index(row + half, half);
    lemma_split_index(col + half, half);
}

} // verus!

//! Counting the cells of a board two ways: over the flat storage and over
//! rectangles of the grid, and what the counts say about the area.

use vstd::prelude::*;

use crate::board::{
    cell_at, count_rect, count_row, holds, ind, seq_count, CellPred, BOARD_LEN,
};
use crate::rtns::BlockInfo;

verus! {

/// Number of cells with property `p` in column `x`, rows `y0..=y1`.
pub open spec fn count_col(s: Seq<BlockInfo>, p: CellPred, x: int, y0: int, y1: int) -> nat
    decreases y1 - y0 + 1,
{
    if y1 < y0 {
        0
    } else {
        count_col(s, p, x, y0, y1 - 1) + ind(p, cell_at(s, x, y1))
    }
}

/// Number of cells with property `p` in columns `0..=x1`, rows `0..=y1`,
/// summed column by column.
pub open spec fn count_cols(s: Seq<BlockInfo>, p: CellPred, x1: int, y1: int) -> nat
    decreases x1 + 1,
{
    if x1 < 0 {
        0
    } else {
        count_cols(s, p, x1 - 1, y1) + count_col(s, p, x1, 0, y1)
    }
}

/// A count over a concatenation is the sum of the counts.
pub proof fn lemma_seq_count_concat(a: Seq<BlockInfo>, b: Seq<BlockInfo>, p: CellPred)
    ensures
        seq_count(a + b, p) == seq_count(a, p) + seq_count(b, p),
    decreases b.len(),
{
    if b.len() > 0 {
        lemma_seq_count_concat(a, b.drop_last(), p);
        assert((a + b).drop_last() =~= a + b.drop_last());
    } else {
        assert(a + b =~= a);
    }
}

/// The first `m` cells of column `x` in the flat storage count as the
/// column's first `m` rows.
proof fn lemma_column_block(s: Seq<BlockInfo>, p: CellPred, x: int, m: int)
    requires
        s.len() == BOARD_LEN,
        0 <= x < 30,
        0 <= m <= 25,
    ensures
        seq_count(s.subrange(25 * x, 25 * x + m), p) == count_col(s, p, x, 0, m - 1),
    decreases m,
{
    if m > 0 {
        lemma_column_block(s, p, x, m - 1);
        let t = s.subrange(25 * x, 25 * x + m);
        assert(t.drop_last() =~= s.subrange(25 * x, 25 * x + m - 1));
        assert(t.last() == cell_at(s, x, m - 1));
    } else {
        assert(s.subrange(25 * x, 25 * x) =~= Seq::<BlockInfo>::empty());
    }
}

/// The first `k` columns of the flat storage count as the columns
/// `0..k`.
proof fn lemma_columns_prefix(s: Seq<BlockInfo>, p: CellPred, k: int)
    requires
        s.len() == BOARD_LEN,
        0 <= k <= 30,
    ensures
        seq_count(s.subrange(0, 25 * k), p) == count_cols(s, p, k - 1, 24),
    decreases k,
{
    if k > 0 {
        lemma_columns_prefix(s, p, k - 1);
        lemma_column_block(s, p, k - 1, 25);
        assert(s.subrange(0, 25 * k) =~= s.subrange(0, 25 * (k - 1)) + s.subrange(
            25 * (k - 1),
            25 * (k - 1) + 25,
        ));
        lemma_seq_count_concat(s.subrange(0, 25 * (k - 1)), s.subrange(25 * (k - 1), 25 * (k - 1) + 25), p);
    } else {
        assert(s.subrange(0, 0) =~= Seq::<BlockInfo>::empty());
    }
}

/// Summing by rows or by columns gives the same count.
proof fn lemma_rows_cols(s: Seq<BlockInfo>, p: CellPred, x1: int, y1: int)
    requires
        x1 >= -1,
        y1 >= -1,
    ensures
        count_rect(s, p, 0, x1, 0, y1) == count_cols(s, p, x1, y1),
    decreases x1 + 1, y1 + 1,
{
    if x1 < 0 {
        lemma_rect_no_cols(s, p, x1, y1);
    } else if y1 < 0 {
        lemma_cols_no_rows(s, p, x1, y1);
    } else {
        // count_rect(0..x1, 0..y1) = count_rect(0..x1, 0..y1-1) + row(y1, 0..x1)
        lemma_rows_cols(s, p, x1, y1 - 1);
        lemma_rows_cols(s, p, x1 - 1, y1);
        lemma_rows_cols(s, p, x1 - 1, y1 - 1);
        lemma_cols_step(s, p, x1, y1);
    }
}

/// A rectangle with no column counts zero.
proof fn lemma_rect_no_cols(s: Seq<BlockInfo>, p: CellPred, x1: int, y1: int)
    requires
        x1 < 0,
    ensures
        count_rect(s, p, 0, x1, 0, y1) == 0,
        count_cols(s, p, x1, y1) == 0,
    decreases y1 + 1,
{
    if y1 >= 0 {
        lemma_rect_no_cols(s, p, x1, y1 - 1);
    }
}

/// Columns with no row count zero.
proof fn lemma_cols_no_rows(s: Seq<BlockInfo>, p: CellPred, x1: int, y1: int)
    requires
        y1 < 0,
    ensures
        count_cols(s, p, x1, y1) == 0,
        count_rect(s, p, 0, x1, 0, y1) == 0,
    decreases x1 + 1,
{
    if x1 >= 0 {
        lemma_cols_no_rows(s, p, x1 - 1, y1);
    }
}

/// One step of the exchange of rows and columns.
proof fn lemma_cols_step(s: Seq<BlockInfo>, p: CellPred, x1: int, y1: int)
    requires
        x1 >= 0,
        y1 >= 0,
        count_rect(s, p, 0, x1, 0, y1 - 1) == count_cols(s, p, x1, y1 - 1),
        count_rect(s, p, 0, x1 - 1, 0, y1) == count_cols(s, p, x1 - 1, y1),
        count_rect(s, p, 0, x1 - 1, 0, y1 - 1) == count_cols(s, p, x1 - 1, y1 - 1),
    ensures
        count_rect(s, p, 0, x1, 0, y1) == count_cols(s, p, x1, y1),
{
    lemma_rect_split_last_col(s, p, x1, y1);
}

/// Splitting the last column off a rectangle.
proof fn lemma_rect_split_last_col(s: Seq<BlockInfo>, p: CellPred, x1: int, y1: int)
    requires
        x1 >= 0,
    ensures
        count_rect(s, p, 0, x1, 0, y1) == count_rect(s, p, 0, x1 - 1, 0, y1) + count_col(s, p, x1, 0, y1),
    decreases y1 + 1,
{
    if y1 >= 0 {
        lemma_rect_split_last_col(s, p, x1, y1 - 1);
    }
}

/// The whole storage counts as the whole grid.
pub proof fn lemma_flat_is_grid(s: Seq<BlockInfo>, p: CellPred)
    requires
        s.len() == BOARD_LEN,
    ensures
        seq_count(s, p) == count_rect(s, p, 0, 29, 0, 24),
{
    lemma_columns_prefix(s, p, 30);
    assert(s.subrange(0, 750) =~= s);
    lemma_rows_cols(s, p, 29, 24);
}

/// A row counts the same over a wider range when the extra cells lack the
/// property.
proof fn lemma_row_shrink(s: Seq<BlockInfo>, p: CellPred, y: int, lx: int, x1: int)
    requires
        0 <= lx <= x1,
        forall|x: int| lx < x <= x1 ==> !holds(p, #[trigger] cell_at(s, x, y)),
    ensures
        count_row(s, p, y, 0, x1) == count_row(s, p, y, 0, lx),
    decreases x1 - lx,
{
    if x1 > lx {
        lemma_row_shrink(s, p, y, lx, x1 - 1);
    }
}

/// The rows `0..=y1` over columns `0..=x1` count as the same rows over
/// `0..=lx` when the cells past `lx` lack the property.
proof fn lemma_rect_shrink_cols(s: Seq<BlockInfo>, p: CellPred, lx: int, x1: int, y1: int)
    requires
        0 <= lx <= x1,
        forall|x: int, y: int| lx < x <= x1 && 0 <= y <= y1 ==> !holds(p, #[trigger] cell_at(s, x, y)),
    ensures
        count_rect(s, p, 0, x1, 0, y1) == count_rect(s, p, 0, lx, 0, y1),
    decreases y1 + 1,
{
    if y1 >= 0 {
        lemma_rect_shrink_cols(s, p, lx, x1, y1 - 1);
        assert forall|x: int| lx < x <= x1 implies !holds(p, #[trigger] cell_at(s, x, y1)) by {}
        lemma_row_shrink(s, p, y1, lx, x1);
    }
}

/// A rectangle counts the same without rows past `ly` whose cells lack the
/// property.
proof fn lemma_rect_shrink_rows(s: Seq<BlockInfo>, p: CellPred, x1: int, ly: int, y1: int)
    requires
        0 <= ly <= y1,
        forall|x: int, y: int| 0 <= x <= x1 && ly < y <= y1 ==> !holds(p, #[trigger] cell_at(s, x, y)),
    ensures
        count_rect(s, p, 0, x1, 0, y1) == count_rect(s, p, 0, x1, 0, ly),
    decreases y1 - ly,
{
    if y1 > ly {
        lemma_rect_shrink_rows(s, p, x1, ly, y1 - 1);
        assert forall|x: int| 0 <= x <= x1 implies !holds(p, #[trigger] cell_at(s, x, y1)) by {}
        crate::board::lemma_count_row_none(s, p, y1, 0, x1);
    }
}

/// The whole storage counts as the area `0..=lx` by `0..=ly` when no cell
/// outside the area has the property.
pub proof fn lemma_flat_is_area(s: Seq<BlockInfo>, p: CellPred, lx: int, ly: int)
    requires
        s.len() == BOARD_LEN,
        0 <= lx < 30,
        0 <= ly < 25,
        forall|x: int, y: int|
            0 <= x < 30 && 0 <= y < 25 && !(x <= lx && y <= ly) ==> !holds(p, #[trigger] cell_at(s, x, y)),
    ensures
        seq_count(s, p) == count_rect(s, p, 0, lx, 0, ly),
{
    lemma_flat_is_grid(s, p);
    assert forall|x: int, y: int| 0 <= x <= 29 && ly < y <= 24 implies !holds(p, #[trigger] cell_at(s, x, y)) by {}
    lemma_rect_shrink_rows(s, p, 29, ly, 24);
    assert forall|x: int, y: int| lx < x <= 29 && 0 <= y <= ly implies !holds(p, #[trigger] cell_at(s, x, y)) by {}
    lemma_rect_shrink_cols(s, p, lx, 29, ly);
}

/// In a row where no cell is both revealed and a bomb, the revealed cells
/// and the bombs together number at most the row's cells, exactly as many
/// when every cell is one or the other.
proof fn lemma_row_cover(s: Seq<BlockInfo>, y: int, x0: int, x1: int)
    requires
        x0 <= x1 + 1,
        forall|x: int| x0 <= x <= x1 ==> !(#[trigger] cell_at(s, x, y).visited && cell_at(s, x, y).bomb),
    ensures
        count_row(s, CellPred::Visited, y, x0, x1) + count_row(s, CellPred::Bomb, y, x0, x1) <= x1 - x0 + 1,
        count_row(s, CellPred::Visited, y, x0, x1) + count_row(s, CellPred::Bomb, y, x0, x1) == x1 - x0 + 1
            <==> forall|x: int| x0 <= x <= x1 ==> #[trigger] cell_at(s, x, y).visited || cell_at(s, x, y).bomb,
    decreases x1 - x0 + 1,
{
    if x1 >= x0 {
        lemma_row_cover(s, y, x0, x1 - 1);
        if forall|x: int| x0 <= x <= x1 - 1 ==> #[trigger] cell_at(s, x, y).visited || cell_at(s, x, y).bomb {
        } else {
            let w = choose|x: int| x0 <= x <= x1 - 1 && !(#[trigger] cell_at(s, x, y).visited || cell_at(s, x, y).bomb);
            assert(!(cell_at(s, w, y).visited || cell_at(s, w, y).bomb));
        }
    }
}

/// The same over a rectangle.
pub proof fn lemma_rect_cover(s: Seq<BlockInfo>, x1: int, y1: int)
    requires
        x1 >= 0,
        y1 >= -1,
        forall|x: int, y: int|
            0 <= x <= x1 && 0 <= y <= y1 ==> !(#[trigger] cell_at(s, x, y).visited && cell_at(s, x, y).bomb),
    ensures
        count_rect(s, CellPred::Visited, 0, x1, 0, y1) + count_rect(s, CellPred::Bomb, 0, x1, 0, y1) <= (x1 + 1) * (y1 + 1),
        count_rect(s, CellPred::Visited, 0, x1, 0, y1) + count_rect(s, CellPred::Bomb, 0, x1, 0, y1) == (x1 + 1) * (y1 + 1)
            <==> forall|x: int, y: int| 0 <= x <= x1 && 0 <= y <= y1 ==> #[trigger] cell_at(s, x, y).visited || cell_at(s, x, y).bomb,
    decreases y1 + 1,
{
    if y1 >= 0 {
        lemma_rect_cover(s, x1, y1 - 1);
        assert forall|x: int| 0 <= x <= x1 implies !(#[trigger] cell_at(s, x, y1).visited && cell_at(s, x, y1).bomb) by {}
        lemma_row_cover(s, y1, 0, x1);
        assert((x1 + 1) * (y1 - 1 + 1) + (x1 + 1) == (x1 + 1) * (y1 + 1)) by (nonlinear_arith);
        let all_rows = forall|x: int, y: int| 0 <= x <= x1 && 0 <= y <= y1 - 1 ==> #[trigger] cell_at(s, x, y).visited || cell_at(s, x, y).bomb;
        let last_row = forall|x: int| 0 <= x <= x1 ==> #[trigger] cell_at(s, x, y1).visited || cell_at(s, x, y1).bomb;
        if !all_rows {
            let (wx, wy) = choose|x: int, y: int| 0 <= x <= x1 && 0 <= y <= y1 - 1 && !(#[trigger] cell_at(s, x, y).visited || cell_at(s, x, y).bomb);
            assert(!(cell_at(s, wx, wy).visited || cell_at(s, wx, wy).bomb));
        }
        if !last_row {
            let wx = choose|x: int| 0 <= x <= x1 && !(#[trigger] cell_at(s, x, y1).visited || cell_at(s, x, y1).bomb);
            assert(!(cell_at(s, wx, y1).visited || cell_at(s, wx, y1).bomb));
        }
        if all_rows && last_row {
            assert forall|x: int, y: int| 0 <= x <= x1 && 0 <= y <= y1 implies #[trigger] cell_at(s, x, y).visited || cell_at(s, x, y).bomb by {
                if y < y1 {
                } else {
                }
            }
        }
    } else {
        assert((x1 + 1) * (y1 + 1) == 0) by (nonlinear_arith)
            requires
                y1 == -1,
        ;
    }
}

} // verus!

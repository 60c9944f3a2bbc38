//! Where the bombs of a new game go: the draws from the generator and the
//! scan for a free cell they fall back on.

use vstd::prelude::*;

use crate::board::{cell_at, cell_index};
use crate::rtns::BlockInfo;
use crate::util::{lcg_next, lcg_output};

verus! {

/// Whether (`x2`, `y2`) comes before (`x`, `y`) row by row.
pub open spec fn scan_before(x2: int, y2: int, x: int, y: int) -> bool {
    y2 < y || (y2 == y && x2 < x)
}

/// Whether (`x`, `y`) is the first cell of the area `0..=lx` by `0..=ly`
/// without a bomb, row by row.
pub open spec fn is_first_free(s: Seq<BlockInfo>, lx: int, ly: int, x: int, y: int) -> bool {
    &&& 0 <= x <= lx
    &&& 0 <= y <= ly
    &&& !cell_at(s, x, y).bomb
    &&& forall|x2: int, y2: int|
        #![trigger cell_at(s, x2, y2)]
        0 <= x2 <= lx && 0 <= y2 <= ly && scan_before(x2, y2, x, y) ==> cell_at(s, x2, y2).bomb
}

/// The first cell of the area without a bomb, row by row.
pub open spec fn first_free_cell(s: Seq<BlockInfo>, lx: int, ly: int) -> (int, int) {
    choose|p: (int, int)| is_first_free(s, lx, ly, p.0, p.1)
}

/// `s` with a bomb added to the cell (`x`, `y`).
pub open spec fn with_bomb(s: Seq<BlockInfo>, x: int, y: int) -> Seq<BlockInfo> {
    s.update(cell_index(x, y), BlockInfo { bomb: true, ..cell_at(s, x, y) })
}

/// `s` with the bomb of the cell (`x`, `y`) taken away.
pub open spec fn without_bomb(s: Seq<BlockInfo>, x: int, y: int) -> Seq<BlockInfo> {
    s.update(cell_index(x, y), BlockInfo { bomb: false, ..cell_at(s, x, y) })
}

/// Number of draws after which the generator has gone through all its
/// states.
pub const DRAW_LIMIT: u64 = 0x1_0000_0000;

/// Where one bomb goes on the cells `s` of an area `0..=lx` by `0..=ly`,
/// drawing from the generator state `g` with `tries` draws already made, and
/// the generator state after it: a column is drawn (`rnd` of the width),
/// then a row (`rnd` of the height), until a cell without a bomb comes up;
/// after `DRAW_LIMIT` draws the first free cell is taken.
pub open spec fn place_from(s: Seq<BlockInfo>, lx: int, ly: int, g: u32, tries: nat) -> (Seq<BlockInfo>, u32)
    decreases DRAW_LIMIT - tries,
{
    if tries >= DRAW_LIMIT {
        let p = first_free_cell(s, lx, ly);
        (with_bomb(s, p.0, p.1), g)
    } else {
        let x = lcg_output(lcg_next(g)) % ((lx + 1) as u32);
        let y = lcg_output(lcg_next(lcg_next(g))) % ((ly + 1) as u32);
        let g2 = lcg_next(lcg_next(g));
        if !cell_at(s, x as int, y as int).bomb {
            (with_bomb(s, x as int, y as int), g2)
        } else {
            place_from(s, lx, ly, g2, tries + 1)
        }
    }
}

/// The cells and the generator state after placing `k` bombs one after the
/// other (see `place_from`).
pub open spec fn lay_from(s: Seq<BlockInfo>, lx: int, ly: int, g: u32, k: nat) -> (Seq<BlockInfo>, u32)
    decreases k,
{
    if k == 0 {
        (s, g)
    } else {
        let (s1, g1) = place_from(s, lx, ly, g, 0);
        lay_from(s1, lx, ly, g1, (k - 1) as nat)
    }
}

/// The first free cell is the only cell with its defining property.
pub proof fn lemma_first_free_unique(s: Seq<BlockInfo>, lx: int, ly: int, x: int, y: int)
    requires
        is_first_free(s, lx, ly, x, y),
    ensures
        first_free_cell(s, lx, ly) == (x, y),
{
    let p = (x, y);
    assert(is_first_free(s, lx, ly, p.0, p.1));
    let c = first_free_cell(s, lx, ly);
    assert(is_first_free(s, lx, ly, c.0, c.1));
    if c != p {
        if scan_before(c.0, c.1, x, y) {
            assert(cell_at(s, c.0, c.1).bomb);
        } else {
            assert(scan_before(x, y, c.0, c.1));
            assert(cell_at(s, x, y).bomb);
        }
    }
}

} // verus!

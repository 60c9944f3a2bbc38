//! The mine field: cell storage, neighbour counting and the flood fill that
//! reveals empty regions.

use vstd::prelude::*;

use crate::rtns::{BlockCell, BlockInfo, Effect};
use crate::util::{rnd, Rng};
use crate::placement::{
    first_free_cell, is_first_free, lemma_first_free_unique, place_from, with_bomb, without_bomb, DRAW_LIMIT,
};

verus! {

/// Number of cells in the fixed-size board storage (30 columns of 25 rows).
pub const BOARD_LEN: usize = 750;
/// Capacity of the flood-fill work queue.
pub const I_STEP_MAX: usize = 100;

/// A property of a single cell, used by the counting specifications.
#[derive(Clone, Copy, PartialEq, Eq, Debug, Structural)]
pub enum CellPred {
    /// The cell holds a bomb.
    Bomb,
    /// The cell shows a flag.
    Flagged,
    /// The cell has been revealed.
    Visited,
}

/// A hidden, raised cell without a bomb.
pub open spec fn blank_up() -> BlockInfo {
    BlockInfo { bomb: false, visited: false, block_type: BlockCell::BlankUp }
}

/// Whether the cell `b` has the property `p`.
pub open spec fn holds(p: CellPred, b: BlockInfo) -> bool {
    match p {
        CellPred::Bomb => b.bomb,
        CellPred::Flagged => b.block_type == BlockCell::Flagged,
        CellPred::Visited => b.visited,
    }
}

/// 1 when the cell `b` has the property `p`, else 0.
pub open spec fn ind(p: CellPred, b: BlockInfo) -> nat {
    if holds(p, b) {
        1
    } else {
        0
    }
}

/// Number of cells of `s` that have the property `p`.
pub open spec fn seq_count(s: Seq<BlockInfo>, p: CellPred) -> nat
    decreases s.len(),
{
    if s.len() == 0 {
        0
    } else {
        seq_count(s.drop_last(), p) + ind(p, s.last())
    }
}

/// Position of the cell (`x`, `y`) in the flat storage.
pub open spec fn cell_index(x: int, y: int) -> int {
    x * 25 + y
}

/// The cell (`x`, `y`) of the flat storage `s`.
pub open spec fn cell_at(s: Seq<BlockInfo>, x: int, y: int) -> BlockInfo {
    s[cell_index(x, y)]
}

/// Whether (`x`, `y`) addresses the fixed-size storage.
pub open spec fn in_board(x: int, y: int) -> bool {
    0 <= x < 30 && 0 <= y < 25
}

/// First row or column of the 3x3 neighbourhood of `c`.
pub open spec fn nbr_lo(c: int) -> int {
    if c == 0 {
        0
    } else {
        c - 1
    }
}

/// Last row or column of the 3x3 neighbourhood of `c`, clipped to `max`.
pub open spec fn nbr_hi(c: int, max: int) -> int {
    if c + 1 <= max {
        c + 1
    } else {
        max
    }
}

/// Number of cells with property `p` in row `y`, columns `x0..=x1`.
pub open spec fn count_row(s: Seq<BlockInfo>, p: CellPred, y: int, x0: int, x1: int) -> nat
    decreases x1 - x0 + 1,
{
    if x1 < x0 {
        0
    } else {
        count_row(s, p, y, x0, x1 - 1) + ind(p, cell_at(s, x1, y))
    }
}

/// Number of cells with property `p` in columns `x0..=x1` and rows `y0..=y1`.
pub open spec fn count_rect(
    s: Seq<BlockInfo>,
    p: CellPred,
    x0: int,
    x1: int,
    y0: int,
    y1: int,
) -> nat
    decreases y1 - y0 + 1,
{
    if y1 < y0 {
        0
    } else {
        count_rect(s, p, x0, x1, y0, y1 - 1) + count_row(s, p, y1, x0, x1)
    }
}

/// Number of cells with property `p` in the 3x3 neighbourhood of (`x`, `y`)
/// (the cell itself included), clipped to the area `0..=lx` by `0..=ly`.
pub open spec fn adj_count(s: Seq<BlockInfo>, p: CellPred, lx: int, ly: int, x: int, y: int) -> nat {
    count_rect(s, p, nbr_lo(x), nbr_hi(x, lx), nbr_lo(y), nbr_hi(y, ly))
}

/// Whether (`x`, `y`) lies in the 3x3 neighbourhood of (`cx`, `cy`) clipped to
/// the area `0..=lx` by `0..=ly`.
pub open spec fn in_window(lx: int, ly: int, cx: int, cy: int, x: int, y: int) -> bool {
    nbr_lo(cx) <= x <= nbr_hi(cx, lx) && nbr_lo(cy) <= y <= nbr_hi(cy, ly)
}

/// A revealed cell showing `n` adjacent bombs.
pub open spec fn revealed_cell(n: nat) -> BlockInfo {
    BlockInfo { bomb: false, visited: true, block_type: BlockCell::spec_from_u8(n as u8) }
}

/// `new` is `old` with some cells of the area revealed: every cell that
/// changed was hidden, unflagged and without a bomb, and now shows the number
/// of bombs around it.
pub open spec fn reveal_step(old: Seq<BlockInfo>, new: Seq<BlockInfo>, lx: int, ly: int) -> bool {
    &&& new.len() == old.len()
    &&& forall|x: int, y: int|
        #![trigger cell_at(new, x, y)]
        in_board(x, y) ==> {
            ||| cell_at(new, x, y) == cell_at(old, x, y)
            ||| {
                &&& 0 <= x <= lx
                &&& 0 <= y <= ly
                &&& !cell_at(old, x, y).visited
                &&& cell_at(old, x, y).block_type != BlockCell::Flagged
                &&& !cell_at(old, x, y).bomb
                &&& cell_at(new, x, y) == revealed_cell(adj_count(old, CellPred::Bomb, lx, ly, x, y))
            }
        }
}

/// `e` draws a revealed cell of `b` as it currently shows.
pub open spec fn draws_revealed(e: Effect, b: Board) -> bool {
    match e {
        Effect::DrawBlock { x, y, cell } => {
            &&& b.in_area(x as int, y as int)
            &&& b.cell_spec(x as int, y as int).visited
            &&& b.cell_spec(x as int, y as int).block_type == cell
        },
        _ => false,
    }
}

/// The slot after `t` in the circular work queue.
pub open spec fn next_slot(t: int) -> int {
    if t + 1 == 100 {
        0
    } else {
        t + 1
    }
}

/// The mine field. Cells live in a fixed 30 x 25 storage; the active area is
/// columns `0..=last_x` and rows `0..=last_y`.
pub struct Board {
    /// Cell storage, cell (x, y) at index `x * 25 + y`.
    pub cells: Vec<BlockInfo>,
    /// Last column of the active area (the zero-indexed board width).
    pub last_x: usize,
    /// Last row of the active area (the zero-indexed board height).
    pub last_y: usize,
    /// Number of revealed cells.
    pub visits: u16,
}

impl Board {
    /// The cell (`x`, `y`).
    pub open spec fn cell_spec(&self, x: int, y: int) -> BlockInfo {
        cell_at(self.cells@, x, y)
    }

    /// Whether (`x`, `y`) lies in the active area.
    pub open spec fn in_area(&self, x: int, y: int) -> bool {
        0 <= x <= self.last_x && 0 <= y <= self.last_y
    }

    /// Number of bombs around (`x`, `y`), the cell itself included.
    pub open spec fn adj_bombs(&self, x: int, y: int) -> nat {
        adj_count(self.cells@, CellPred::Bomb, self.last_x as int, self.last_y as int, x, y)
    }

    /// Number of cells with property `p` on the whole board.
    pub open spec fn total(&self, p: CellPred) -> nat {
        seq_count(self.cells@, p)
    }

    /// Well-formedness: the storage has its fixed size, the area fits in it,
    /// cells outside the area hold no bomb and are hidden, every revealed cell
    /// holds no bomb and shows the number of bombs around it, and `visits`
    /// counts the revealed cells.
    pub open spec fn wf(&self) -> bool {
        &&& self.cells@.len() == BOARD_LEN
        &&& self.last_x < 30
        &&& self.last_y < 25
        &&& forall|x: int, y: int|
            #![trigger cell_at(self.cells@, x, y)]
            in_board(x, y) && !self.in_area(x, y) ==> !cell_at(self.cells@, x, y).bomb
                && !cell_at(self.cells@, x, y).visited
        &&& forall|x: int, y: int|
            #![trigger cell_at(self.cells@, x, y)]
            in_board(x, y) && cell_at(self.cells@, x, y).visited ==> !cell_at(self.cells@, x, y).bomb
                && cell_at(self.cells@, x, y).block_type == BlockCell::spec_from_u8(
                self.adj_bombs(x, y) as u8,
            )
        &&& self.visits as nat == seq_count(self.cells@, CellPred::Visited)
    }
}

// ------------------------------------------------------------------------
// Counting lemmas
// ------------------------------------------------------------------------

/// Changing one element changes a count by the difference of the indicators.
pub proof fn lemma_seq_count_update(s: Seq<BlockInfo>, p: CellPred, i: int, v: BlockInfo)
    requires
        0 <= i < s.len(),
    ensures
        seq_count(s.update(i, v), p) + ind(p, s[i]) == seq_count(s, p) + ind(p, v),
    decreases s.len(),
{
    let t = s.update(i, v);
    if i == s.len() - 1 {
        assert(t.drop_last() =~= s.drop_last());
    } else {
        assert(t.drop_last() =~= s.drop_last().update(i, v));
        lemma_seq_count_update(s.drop_last(), p, i, v);
    }
}

/// A count never exceeds the length.
pub proof fn lemma_seq_count_le(s: Seq<BlockInfo>, p: CellPred)
    ensures
        seq_count(s, p) <= s.len(),
    decreases s.len(),
{
    if s.len() > 0 {
        lemma_seq_count_le(s.drop_last(), p);
    }
}

/// A zero count means that no element has the property.
pub proof fn lemma_seq_count_zero(s: Seq<BlockInfo>, p: CellPred, i: int)
    requires
        seq_count(s, p) == 0,
        0 <= i < s.len(),
    ensures
        !holds(p, s[i]),
    decreases s.len(),
{
    if i < s.len() - 1 {
        lemma_seq_count_zero(s.drop_last(), p, i);
    }
}

/// A sequence in which no element has the property counts zero.
pub proof fn lemma_seq_count_none(s: Seq<BlockInfo>, p: CellPred)
    requires
        forall|i: int| 0 <= i < s.len() ==> !holds(p, #[trigger] s[i]),
    ensures
        seq_count(s, p) == 0,
    decreases s.len(),
{
    if s.len() > 0 {
        lemma_seq_count_none(s.drop_last(), p);
    }
}

/// Two boards that agree on the property in a row count the same there.
pub proof fn lemma_count_row_same(
    s1: Seq<BlockInfo>,
    s2: Seq<BlockInfo>,
    p: CellPred,
    y: int,
    x0: int,
    x1: int,
)
    requires
        forall|x: int|
            x0 <= x <= x1 ==> holds(p, #[trigger] cell_at(s1, x, y)) == holds(p, cell_at(s2, x, y)),
    ensures
        count_row(s1, p, y, x0, x1) == count_row(s2, p, y, x0, x1),
    decreases x1 - x0 + 1,
{
    if x1 >= x0 {
        lemma_count_row_same(s1, s2, p, y, x0, x1 - 1);
    }
}

/// Two boards that agree on the property in a rectangle count the same there.
pub proof fn lemma_count_rect_same(
    s1: Seq<BlockInfo>,
    s2: Seq<BlockInfo>,
    p: CellPred,
    x0: int,
    x1: int,
    y0: int,
    y1: int,
)
    requires
        forall|x: int, y: int|
            x0 <= x <= x1 && y0 <= y <= y1 ==> holds(p, #[trigger] cell_at(s1, x, y)) == holds(
                p,
                cell_at(s2, x, y),
            ),
    ensures
        count_rect(s1, p, x0, x1, y0, y1) == count_rect(s2, p, x0, x1, y0, y1),
    decreases y1 - y0 + 1,
{
    if y1 >= y0 {
        lemma_count_rect_same(s1, s2, p, x0, x1, y0, y1 - 1);
        lemma_count_row_same(s1, s2, p, y1, x0, x1);
    }
}

/// A zero row count means that no cell of the row has the property.
pub proof fn lemma_count_row_zero(s: Seq<BlockInfo>, p: CellPred, y: int, x0: int, x1: int, x: int)
    requires
        count_row(s, p, y, x0, x1) == 0,
        x0 <= x <= x1,
    ensures
        !holds(p, cell_at(s, x, y)),
    decreases x1 - x0 + 1,
{
    if x < x1 {
        lemma_count_row_zero(s, p, y, x0, x1 - 1, x);
    }
}

/// A zero rectangle count means that no cell of the rectangle has the property.
pub proof fn lemma_count_rect_zero(
    s: Seq<BlockInfo>,
    p: CellPred,
    x0: int,
    x1: int,
    y0: int,
    y1: int,
    x: int,
    y: int,
)
    requires
        count_rect(s, p, x0, x1, y0, y1) == 0,
        x0 <= x <= x1,
        y0 <= y <= y1,
    ensures
        !holds(p, cell_at(s, x, y)),
    decreases y1 - y0 + 1,
{
    if y < y1 {
        lemma_count_rect_zero(s, p, x0, x1, y0, y1 - 1, x, y);
    } else {
        lemma_count_row_zero(s, p, y, x0, x1, x);
    }
}

/// Storing a cell at `cell_index(x, y)` changes that cell and no other.
pub proof fn lemma_cell_update(s: Seq<BlockInfo>, x: int, y: int, v: BlockInfo)
    requires
        s.len() == BOARD_LEN,
        in_board(x, y),
    ensures
        forall|x2: int, y2: int|
            #![trigger cell_at(s.update(cell_index(x, y), v), x2, y2)]
            in_board(x2, y2) ==> cell_at(s.update(cell_index(x, y), v), x2, y2) == if x2 == x
                && y2 == y {
                v
            } else {
                cell_at(s, x2, y2)
            },
{
}

/// Boards that agree on every bomb have the same neighbour bomb counts.
pub proof fn lemma_adj_same_bombs(s1: Seq<BlockInfo>, s2: Seq<BlockInfo>, lx: int, ly: int)
    requires
        0 <= lx < 30,
        0 <= ly < 25,
        forall|x: int, y: int|
            #![trigger cell_at(s1, x, y)]
            in_board(x, y) ==> cell_at(s1, x, y).bomb == cell_at(s2, x, y).bomb,
    ensures
        forall|x: int, y: int|
            0 <= x <= lx && 0 <= y <= ly ==> #[trigger] adj_count(s1, CellPred::Bomb, lx, ly, x, y)
                == adj_count(s2, CellPred::Bomb, lx, ly, x, y),
{
    assert forall|x: int, y: int| 0 <= x <= lx && 0 <= y <= ly implies #[trigger] adj_count(
        s1,
        CellPred::Bomb,
        lx,
        ly,
        x,
        y,
    ) == adj_count(s2, CellPred::Bomb, lx, ly, x, y) by {
        assert forall|x2: int, y2: int|
            nbr_lo(x) <= x2 <= nbr_hi(x, lx) && nbr_lo(y) <= y2 <= nbr_hi(y, ly) implies holds(
            CellPred::Bomb,
            #[trigger] cell_at(s1, x2, y2),
        ) == holds(CellPred::Bomb, cell_at(s2, x2, y2)) by {
            assert(in_board(x2, y2));
        }
        lemma_count_rect_same(
            s1,
            s2,
            CellPred::Bomb,
            nbr_lo(x),
            nbr_hi(x, lx),
            nbr_lo(y),
            nbr_hi(y, ly),
        );
    }
}

/// The next slot of the circular queue follows the total number of pushes.
pub proof fn lemma_next_slot(n: nat)
    ensures
        ((n + 1) % 100) as int == next_slot((n % 100) as int),
{
    assert(((n + 1) % 100) as int == next_slot((n % 100) as int)) by (nonlinear_arith);
}

/// Test of a cell property.
pub fn holds_exec(p: CellPred, b: BlockInfo) -> (r: bool)
    ensures
        r == holds(p, b),
{
    match p {
        CellPred::Bomb => b.bomb,
        CellPred::Flagged => b.block_type == BlockCell::Flagged,
        CellPred::Visited => b.visited,
    }
}

impl Board {
    /// A board of hidden raised cells without bombs, with a 1 x 1 area.
    pub fn new() -> (r: Board)
        ensures
            r.wf(),
            r.last_x == 0,
            r.last_y == 0,
            r.visits == 0,
            forall|i: int|
                0 <= i < BOARD_LEN ==> #[trigger] r.cells@[i] == blank_up(),
    {
        let mut cells: Vec<BlockInfo> = Vec::new();
        let mut i: usize = 0;
        while i < BOARD_LEN
            invariant
                i <= BOARD_LEN,
                cells@.len() == i,
                forall|j: int|
                    0 <= j < i ==> #[trigger] cells@[j] == blank_up(),
            decreases BOARD_LEN - i,
        {
            cells.push(BlockInfo { bomb: false, visited: false, block_type: BlockCell::BlankUp });
            i += 1;
        }
        proof {
            lemma_seq_count_none(cells@, CellPred::Visited);
        }
        Board { cells, last_x: 0, last_y: 0, visits: 0 }
    }

    /// Whether (`x`, `y`) lies in the active area.
    pub fn in_range(&self, x: usize, y: usize) -> (r: bool)
        ensures
            r == self.in_area(x as int, y as int),
    {
        x <= self.last_x && y <= self.last_y
    }

    /// The cell (`x`, `y`).
    pub fn cell(&self, x: usize, y: usize) -> (r: BlockInfo)
        requires
            self.cells@.len() == BOARD_LEN,
            in_board(x as int, y as int),
        ensures
            r == self.cell_spec(x as int, y as int),
    {
        self.cells[x * 25 + y]
    }

    /// Number of cells with property `p` in the 3x3 neighbourhood of
    /// (`x_center`, `y_center`), clipped to the active area.
    #[verifier::rlimit(30)]
    pub fn count_adjacent(&self, x_center: usize, y_center: usize, p: CellPred) -> (r: u8)
        requires
            self.cells@.len() == BOARD_LEN,
            self.last_x < 30,
            self.last_y < 25,
            self.in_area(x_center as int, y_center as int),
        ensures
            r as nat == adj_count(
                self.cells@,
                p,
                self.last_x as int,
                self.last_y as int,
                x_center as int,
                y_center as int,
            ),
            r <= 9,
    {
        let x0: usize = if x_center == 0 {
            0
        } else {
            x_center - 1
        };
        let x1: usize = if x_center + 1 <= self.last_x {
            x_center + 1
        } else {
            self.last_x
        };
        let y0: usize = if y_center == 0 {
            0
        } else {
            y_center - 1
        };
        let y1: usize = if y_center + 1 <= self.last_y {
            y_center + 1
        } else {
            self.last_y
        };
        let mut count: u8 = 0;
        let mut y: usize = y0;
        while y <= y1
            invariant
                self.cells@.len() == BOARD_LEN,
                x0 <= x1 < 30,
                x1 - x0 <= 2,
                y0 <= y1 < 25,
                y1 - y0 <= 2,
                y0 <= y <= y1 + 1,
                count as nat == count_rect(self.cells@, p, x0 as int, x1 as int, y0 as int, y - 1),
                count <= 3 * (y - y0),
            decreases y1 + 1 - y,
        {
            let mut x: usize = x0;
            while x <= x1
                invariant
                    self.cells@.len() == BOARD_LEN,
                    x0 <= x1 < 30,
                    x1 - x0 <= 2,
                    y0 <= y <= y1,
                    y1 < 25,
                    y1 - y0 <= 2,
                    x0 <= x <= x1 + 1,
                    count as nat == count_rect(
                        self.cells@,
                        p,
                        x0 as int,
                        x1 as int,
                        y0 as int,
                        y - 1,
                    ) + count_row(self.cells@, p, y as int, x0 as int, x - 1),
                    count <= 3 * (y - y0) + (x - x0),
                decreases x1 + 1 - x,
            {
                if holds_exec(p, self.cells[x * 25 + y]) {
                    count += 1;
                }
                x += 1;
            }
            y += 1;
        }
        count
    }

    /// Reveal the cell (`x`, `y`) unless it is already revealed or flagged, and
    /// push it on the work queue when no bomb surrounds it.
    fn step_xy(
        &mut self,
        effects: &mut Vec<Effect>,
        queue: &mut Vec<(usize, usize)>,
        tail: &mut usize,
        x: usize,
        y: usize,
    )
        requires
            old(self).wf(),
            old(self).in_area(x as int, y as int),
            old(queue)@.len() == I_STEP_MAX,
            *old(tail) < I_STEP_MAX,
            ({
                let c = old(self).cell_spec(x as int, y as int);
                c.visited || c.block_type == BlockCell::Flagged || !c.bomb
            }),
        ensures
            final(self).wf(),
            final(self).last_x == old(self).last_x,
            final(self).last_y == old(self).last_y,
            final(queue)@.len() == I_STEP_MAX,
            *final(tail) < I_STEP_MAX,
            ({
                let c = old(self).cell_spec(x as int, y as int);
                c.visited || c.block_type == BlockCell::Flagged
            }) ==> {
                &&& final(self).cells@ == old(self).cells@
                &&& final(self).visits == old(self).visits
                &&& final(effects)@ == old(effects)@
                &&& final(queue)@ == old(queue)@
                &&& *final(tail) == *old(tail)
            },
            !({
                let c = old(self).cell_spec(x as int, y as int);
                c.visited || c.block_type == BlockCell::Flagged
            }) ==> {
                let n = old(self).adj_bombs(x as int, y as int);
                &&& final(self).cells@ == old(self).cells@.update(
                    cell_index(x as int, y as int),
                    revealed_cell(n),
                )
                &&& final(self).visits == old(self).visits + 1
                &&& final(effects)@ == old(effects)@.push(
                    Effect::DrawBlock { x, y, cell: BlockCell::spec_from_u8(n as u8) },
                )
                &&& n == 0 ==> final(queue)@ == old(queue)@.update(*old(tail) as int, (x, y))
                    && *final(tail) as int == next_slot(*old(tail) as int)
                &&& n != 0 ==> final(queue)@ == old(queue)@ && *final(tail) == *old(tail)
            },
    {
        let blk = self.cells[x * 25 + y];
        if blk.visited || blk.block_type == BlockCell::Flagged {
            return;
        }
        let bombs = self.count_adjacent(x, y, CellPred::Bomb);
        let ghost old_cells = self.cells@;
        let ghost n = self.adj_bombs(x as int, y as int);
        let ghost i = cell_index(x as int, y as int);
        let newb = BlockInfo { bomb: false, visited: true, block_type: BlockCell::from_u8(bombs) };
        proof {
            lemma_seq_count_update(old_cells, CellPred::Visited, i, newb);
            lemma_seq_count_le(old_cells.update(i, newb), CellPred::Visited);
            lemma_cell_update(old_cells, x as int, y as int, newb);
        }
        self.cells.set(x * 25 + y, newb);
        self.visits = self.visits + 1;
        proof {
            let s = self.cells@;
            assert(s == old_cells.update(i, newb));
            lemma_adj_same_bombs(old_cells, s, self.last_x as int, self.last_y as int);
            assert forall|x2: int, y2: int|
                #![trigger cell_at(s, x2, y2)]
                in_board(x2, y2) && !self.in_area(x2, y2) implies !cell_at(s, x2, y2).bomb
                && !cell_at(s, x2, y2).visited by {
                assert(cell_at(s, x2, y2) == cell_at(old_cells, x2, y2));
            }
            assert forall|x2: int, y2: int|
                #![trigger cell_at(s, x2, y2)]
                in_board(x2, y2) && cell_at(s, x2, y2).visited implies !cell_at(s, x2, y2).bomb
                && cell_at(s, x2, y2).block_type == BlockCell::spec_from_u8(
                self.adj_bombs(x2, y2) as u8,
            ) by {
                if x2 == x && y2 == y {
                } else {
                    assert(cell_at(s, x2, y2) == cell_at(old_cells, x2, y2));
                    assert(cell_at(old_cells, x2, y2).visited);
                    assert(in_board(x2, y2) && cell_at(old_cells, x2, y2).visited);
                }
            }
        }
        effects.push(Effect::DrawBlock { x, y, cell: BlockCell::from_u8(bombs) });
        if bombs == 0 {
            queue.set(*tail, (x, y));
            *tail = *tail + 1;
            if *tail == I_STEP_MAX {
                *tail = 0;
            }
        }
    }
}


/// Slot contents of the work queue: a revealed cell of the area without any
/// bomb around it in the board `orig`.
pub open spec fn slot_ok(q: (usize, usize), orig: Seq<BlockInfo>, lx: int, ly: int) -> bool {
    &&& q.0 <= lx
    &&& q.1 <= ly
    &&& adj_count(orig, CellPred::Bomb, lx, ly, q.0 as int, q.1 as int) == 0
}

/// A board reached from `orig` by revealing cells keeps every bomb of
/// `orig`, and revealing one more hidden, unflagged cell of the area extends
/// the reveal relation.
pub proof fn lemma_reveal_one(orig: Seq<BlockInfo>, s: Seq<BlockInfo>, lx: int, ly: int, x: int, y: int)
    requires
        orig.len() == BOARD_LEN,
        0 <= lx < 30,
        0 <= ly < 25,
        reveal_step(orig, s, lx, ly),
        0 <= x <= lx,
        0 <= y <= ly,
        !cell_at(s, x, y).visited,
        cell_at(s, x, y).block_type != BlockCell::Flagged,
        !cell_at(orig, x, y).bomb,
    ensures
        forall|x2: int, y2: int|
            #![trigger cell_at(s, x2, y2)]
            in_board(x2, y2) ==> cell_at(s, x2, y2).bomb == cell_at(orig, x2, y2).bomb,
        adj_count(s, CellPred::Bomb, lx, ly, x, y) == adj_count(orig, CellPred::Bomb, lx, ly, x, y),
        cell_at(s, x, y) == cell_at(orig, x, y),
        reveal_step(
            orig,
            s.update(cell_index(x, y), revealed_cell(adj_count(s, CellPred::Bomb, lx, ly, x, y))),
            lx,
            ly,
        ),
{
    assert forall|x2: int, y2: int|
        #![trigger cell_at(s, x2, y2)]
        in_board(x2, y2) implies cell_at(s, x2, y2).bomb == cell_at(orig, x2, y2).bomb by {
        assert(in_board(x2, y2) ==> cell_at(s, x2, y2) == cell_at(orig, x2, y2) || !cell_at(
            orig,
            x2,
            y2,
        ).bomb && cell_at(s, x2, y2) == revealed_cell(
            adj_count(orig, CellPred::Bomb, lx, ly, x2, y2),
        ));
    }
    lemma_adj_same_bombs(s, orig, lx, ly);
    assert(in_board(x, y));
    let n = adj_count(s, CellPred::Bomb, lx, ly, x, y);
    let t = s.update(cell_index(x, y), revealed_cell(n));
    lemma_cell_update(s, x, y, revealed_cell(n));
    assert forall|x2: int, y2: int|
        #![trigger cell_at(t, x2, y2)]
        in_board(x2, y2) implies {
        ||| cell_at(t, x2, y2) == cell_at(orig, x2, y2)
        ||| {
            &&& 0 <= x2 <= lx
            &&& 0 <= y2 <= ly
            &&& !cell_at(orig, x2, y2).visited
            &&& cell_at(orig, x2, y2).block_type != BlockCell::Flagged
            &&& !cell_at(orig, x2, y2).bomb
            &&& cell_at(t, x2, y2) == revealed_cell(adj_count(orig, CellPred::Bomb, lx, ly, x2, y2))
        }
    } by {
        if x2 == x && y2 == y {
        } else {
            assert(cell_at(t, x2, y2) == cell_at(s, x2, y2));
        }
    }
}

/// The flood-fill state: `b` is reached from `orig` by reveals, the live
/// slots of the queue hold revealed cells with no bomb around, and the effects
/// added since `fx0` draw revealed cells as they show.
#[verifier::opaque]
pub open spec fn fill_inv(
    b: Board,
    orig: Seq<BlockInfo>,
    lx: int,
    ly: int,
    q: Seq<(usize, usize)>,
    tail: usize,
    e: nat,
    fx0: Seq<Effect>,
    fx: Seq<Effect>,
) -> bool {
    &&& b.wf()
    &&& b.last_x as int == lx
    &&& b.last_y as int == ly
    &&& orig.len() == BOARD_LEN
    &&& 0 <= lx < 30
    &&& 0 <= ly < 25
    &&& reveal_step(orig, b.cells@, lx, ly)
    &&& q.len() == I_STEP_MAX
    &&& tail < I_STEP_MAX
    &&& tail as int == e % 100
    &&& forall|k: int| 0 <= k < 100 && k < e ==> slot_ok(#[trigger] q[k], orig, lx, ly)
    &&& slots_live(q, e, orig, b.cells@)
    &&& b.visits <= 750
    &&& fx.len() >= fx0.len()
    &&& fx.subrange(0, fx0.len() as int) == fx0
    &&& forall|k: int| fx0.len() <= k < fx.len() ==> draws_revealed(#[trigger] fx[k], b)
    &&& changes_drawn(orig, b.cells@, fx0, fx)
}

/// What the flood-fill state says of the board and the queue bounds.
proof fn lemma_fill_facts(
    b: Board,
    orig: Seq<BlockInfo>,
    lx: int,
    ly: int,
    q: Seq<(usize, usize)>,
    tail: usize,
    e: nat,
    fx0: Seq<Effect>,
    fx: Seq<Effect>,
)
    requires
        fill_inv(b, orig, lx, ly, q, tail, e, fx0, fx),
    ensures
        b.wf(),
        b.last_x as int == lx,
        b.last_y as int == ly,
        0 <= lx < 30,
        0 <= ly < 25,
        q.len() == I_STEP_MAX,
        tail < I_STEP_MAX,
        tail as int == e % 100,
        b.visits <= 750,
{
    reveal(fill_inv);
}

/// A live slot of the queue holds a cell of the area with no bomb around.
proof fn lemma_fill_slot(
    b: Board,
    orig: Seq<BlockInfo>,
    lx: int,
    ly: int,
    q: Seq<(usize, usize)>,
    tail: usize,
    e: nat,
    fx0: Seq<Effect>,
    fx: Seq<Effect>,
    k: int,
)
    requires
        fill_inv(b, orig, lx, ly, q, tail, e, fx0, fx),
        0 <= k < 100,
        k < e,
    ensures
        slot_ok(q[k], orig, lx, ly),
        !cell_at(orig, q[k].0 as int, q[k].1 as int).visited,
        cell_at(b.cells@, q[k].0 as int, q[k].1 as int).visited,
        b.wf(),
        b.last_x as int == lx,
        b.last_y as int == ly,
        0 <= lx < 30,
        0 <= ly < 25,
        q.len() == I_STEP_MAX,
        tail < I_STEP_MAX,
        tail as int == e % 100,
        b.visits <= 750,
{
    reveal(fill_inv);
}

/// A neighbour of a queued cell lies in the area and holds no bomb.
proof fn lemma_fill_pre(
    b: Board,
    orig: Seq<BlockInfo>,
    lx: int,
    ly: int,
    q: Seq<(usize, usize)>,
    tail: usize,
    e: nat,
    fx0: Seq<Effect>,
    fx: Seq<Effect>,
    sx: int,
    sy: int,
    tx: int,
    ty: int,
)
    requires
        fill_inv(b, orig, lx, ly, q, tail, e, fx0, fx),
        0 <= sx <= lx,
        0 <= sy <= ly,
        adj_count(orig, CellPred::Bomb, lx, ly, sx, sy) == 0,
        in_window(lx, ly, sx, sy, tx, ty),
    ensures
        b.in_area(tx, ty),
        !cell_at(b.cells@, tx, ty).bomb,
{
    reveal(fill_inv);
    lemma_count_rect_zero(
        orig,
        CellPred::Bomb,
        nbr_lo(sx),
        nbr_hi(sx, lx),
        nbr_lo(sy),
        nbr_hi(sy, ly),
        tx,
        ty,
    );
    assert(in_board(tx, ty));
    assert(cell_at(b.cells@, tx, ty) == cell_at(orig, tx, ty) || !cell_at(
        b.cells@,
        tx,
        ty,
    ).bomb);
}

/// The effects added since `fx0` draw revealed cells of `b`.
pub open spec fn fx_ok(fx0: Seq<Effect>, fx: Seq<Effect>, b: Board) -> bool {
    &&& fx.len() >= fx0.len()
    &&& fx.subrange(0, fx0.len() as int) == fx0
    &&& forall|k: int| fx0.len() <= k < fx.len() ==> draws_revealed(#[trigger] fx[k], b)
}

/// Every cell that changed from `orig` to `s` is drawn, as it shows in
/// `s`, by one of the effects added from `fx0` to `fx`.
pub open spec fn changes_drawn(orig: Seq<BlockInfo>, s: Seq<BlockInfo>, fx0: Seq<Effect>, fx: Seq<Effect>) -> bool {
    forall|x: int, y: int|
        #![trigger cell_at(s, x, y)]
        in_board(x, y) && cell_at(s, x, y) != cell_at(orig, x, y) ==> exists|k: int|
            fx0.len() <= k < fx.len() && #[trigger] fx[k] == Effect::DrawBlock {
                x: x as usize,
                y: y as usize,
                cell: cell_at(s, x, y).block_type,
            }
}

/// Revealing one more hidden cell and drawing it keeps every changed cell
/// drawn.
proof fn lemma_drawn_extend(
    orig: Seq<BlockInfo>,
    fx0: Seq<Effect>,
    f0: Seq<Effect>,
    f1: Seq<Effect>,
    s0: Seq<BlockInfo>,
    s1: Seq<BlockInfo>,
    lx: int,
    ly: int,
    tx: usize,
    ty: usize,
    rc: BlockInfo,
)
    requires
        changes_drawn(orig, s0, fx0, f0),
        reveal_step(orig, s0, lx, ly),
        s0.len() == BOARD_LEN,
        in_board(tx as int, ty as int),
        !cell_at(s0, tx as int, ty as int).visited,
        s1 == s0.update(cell_index(tx as int, ty as int), rc),
        f1 == f0.push(Effect::DrawBlock { x: tx, y: ty, cell: rc.block_type }),
        fx0.len() <= f0.len(),
    ensures
        changes_drawn(orig, s1, fx0, f1),
{
    lemma_cell_update(s0, tx as int, ty as int, rc);
    assert forall|x: int, y: int| in_board(x, y) && #[trigger] cell_at(s1, x, y) != cell_at(orig, x, y) implies exists|k: int|
        fx0.len() <= k < f1.len() && #[trigger] f1[k] == Effect::DrawBlock {
            x: x as usize,
            y: y as usize,
            cell: cell_at(s1, x, y).block_type,
        } by {
        if x == tx as int && y == ty as int {
            assert(f1[f0.len() as int] == Effect::DrawBlock { x: tx, y: ty, cell: rc.block_type });
        } else {
            assert(cell_at(s1, x, y) == cell_at(s0, x, y));
            let k = choose|k: int|
                fx0.len() <= k < f0.len() && #[trigger] f0[k] == Effect::DrawBlock {
                    x: x as usize,
                    y: y as usize,
                    cell: cell_at(s0, x, y).block_type,
                };
            assert(f1[k] == f0[k]);
        }
    }
}

/// The live slots of the queue hold cells with no bomb around.
pub open spec fn slots_ok(q: Seq<(usize, usize)>, e: nat, orig: Seq<BlockInfo>, lx: int, ly: int) -> bool {
    forall|k: int| 0 <= k < 100 && k < e ==> slot_ok(#[trigger] q[k], orig, lx, ly)
}

/// The live slots of the queue hold cells hidden in `orig` and revealed in
/// `s`.
pub open spec fn slots_live(q: Seq<(usize, usize)>, e: nat, orig: Seq<BlockInfo>, s: Seq<BlockInfo>) -> bool {
    forall|k: int|
        #![trigger q[k]]
        0 <= k < 100 && k < e ==> !cell_at(orig, q[k].0 as int, q[k].1 as int).visited && cell_at(
            s,
            q[k].0 as int,
            q[k].1 as int,
        ).visited
}

/// The flood-fill state, spelled out.
proof fn lemma_fill_open(
    b: Board,
    orig: Seq<BlockInfo>,
    lx: int,
    ly: int,
    q: Seq<(usize, usize)>,
    tail: usize,
    e: nat,
    fx0: Seq<Effect>,
    fx: Seq<Effect>,
)
    requires
        fill_inv(b, orig, lx, ly, q, tail, e, fx0, fx),
    ensures
        b.wf(),
        b.last_x as int == lx,
        b.last_y as int == ly,
        orig.len() == BOARD_LEN,
        0 <= lx < 30,
        0 <= ly < 25,
        reveal_step(orig, b.cells@, lx, ly),
        q.len() == I_STEP_MAX,
        tail < I_STEP_MAX,
        tail as int == e % 100,
        slots_ok(q, e, orig, lx, ly),
        slots_live(q, e, orig, b.cells@),
        b.visits <= 750,
        fx_ok(fx0, fx, b),
        changes_drawn(orig, b.cells@, fx0, fx),
{
    reveal(fill_inv);
}

/// The flood-fill state from its parts.
proof fn lemma_fill_close(
    b: Board,
    orig: Seq<BlockInfo>,
    lx: int,
    ly: int,
    q: Seq<(usize, usize)>,
    tail: usize,
    e: nat,
    fx0: Seq<Effect>,
    fx: Seq<Effect>,
)
    requires
        b.wf(),
        b.last_x as int == lx,
        b.last_y as int == ly,
        orig.len() == BOARD_LEN,
        0 <= lx < 30,
        0 <= ly < 25,
        reveal_step(orig, b.cells@, lx, ly),
        q.len() == I_STEP_MAX,
        tail < I_STEP_MAX,
        tail as int == e % 100,
        slots_ok(q, e, orig, lx, ly),
        slots_live(q, e, orig, b.cells@),
        b.visits <= 750,
        fx_ok(fx0, fx, b),
        changes_drawn(orig, b.cells@, fx0, fx),
    ensures
        fill_inv(b, orig, lx, ly, q, tail, e, fx0, fx),
{
    reveal(fill_inv);
}

/// Drawing a newly revealed cell keeps the drawn effects faithful.
proof fn lemma_fx_extend(fx0: Seq<Effect>, f0: Seq<Effect>, f1: Seq<Effect>, b0: Board, b1: Board, tx: usize, ty: usize, rc: BlockInfo)
    requires
        fx_ok(fx0, f0, b0),
        b0.cells@.len() == BOARD_LEN,
        b0.in_area(tx as int, ty as int),
        b0.last_x < 30,
        b0.last_y < 25,
        !b0.cell_spec(tx as int, ty as int).visited,
        rc.visited,
        b1.cells@ == b0.cells@.update(cell_index(tx as int, ty as int), rc),
        b1.last_x == b0.last_x,
        b1.last_y == b0.last_y,
        f1 == f0.push(Effect::DrawBlock { x: tx, y: ty, cell: rc.block_type }),
    ensures
        fx_ok(fx0, f1, b1),
{
    lemma_cell_update(b0.cells@, tx as int, ty as int, rc);
    assert forall|k: int| fx0.len() <= k < f1.len() implies draws_revealed(#[trigger] f1[k], b1) by {
        if k < f0.len() {
            assert(f1[k] == f0[k]);
            assert(draws_revealed(f0[k], b0));
            match f0[k] {
                Effect::DrawBlock { x, y, cell } => {
                    assert(in_board(x as int, y as int));
                    assert(cell_at(b1.cells@, x as int, y as int) == cell_at(b0.cells@, x as int, y as int));
                },
                _ => {},
            }
        } else {
            assert(f1[k] == Effect::DrawBlock { x: tx, y: ty, cell: rc.block_type });
            assert(in_board(tx as int, ty as int));
            assert(cell_at(b1.cells@, tx as int, ty as int) == rc);
        }
    }
    assert(f1.subrange(0, fx0.len() as int) =~= f0.subrange(0, fx0.len() as int));
}

/// Queueing a cell with no bomb around keeps the live slots valid.
proof fn lemma_slots_extend(
    q0: Seq<(usize, usize)>,
    q1: Seq<(usize, usize)>,
    t0: usize,
    e: nat,
    orig: Seq<BlockInfo>,
    lx: int,
    ly: int,
    tx: usize,
    ty: usize,
)
    requires
        slots_ok(q0, e, orig, lx, ly),
        q0.len() == I_STEP_MAX,
        t0 as int == e % 100,
        t0 < I_STEP_MAX,
        q1 == q0.update(t0 as int, (tx, ty)),
        slot_ok((tx, ty), orig, lx, ly),
    ensures
        slots_ok(q1, e + 1, orig, lx, ly),
{
    assert forall|k: int| 0 <= k < 100 && k < e + 1 implies slot_ok(#[trigger] q1[k], orig, lx, ly) by {
        if k == t0 as int {
        } else {
            assert(q1[k] == q0[k]);
            if k >= e {
                assert(k == e);
                assert(e < 100);
                assert(e % 100 == e) by (nonlinear_arith)
                    requires
                        e < 100,
                ;
            }
        }
    }
}

/// Revealing one more hidden cell keeps the live slots live, and the cell
/// it queues is live.
proof fn lemma_live_step(
    q0: Seq<(usize, usize)>,
    q1: Seq<(usize, usize)>,
    e0: nat,
    e1: nat,
    t0: usize,
    orig: Seq<BlockInfo>,
    s0: Seq<BlockInfo>,
    s1: Seq<BlockInfo>,
    lx: int,
    ly: int,
    tx: usize,
    ty: usize,
    c: BlockInfo,
)
    requires
        s0.len() == BOARD_LEN,
        0 <= lx < 30,
        0 <= ly < 25,
        slots_ok(q0, e0, orig, lx, ly),
        slots_live(q0, e0, orig, s0),
        reveal_step(orig, s0, lx, ly),
        in_board(tx as int, ty as int),
        !cell_at(s0, tx as int, ty as int).visited,
        c.visited,
        s1 == s0.update(cell_index(tx as int, ty as int), c),
        q0.len() == I_STEP_MAX,
        (e1 == e0 && q1 == q0) || (e1 == e0 + 1 && t0 as int == e0 % 100 && q1 == q0.update(
            t0 as int,
            (tx, ty),
        )),
    ensures
        slots_live(q1, e1, orig, s1),
{
    lemma_cell_update(s0, tx as int, ty as int, c);
    assert(!cell_at(orig, tx as int, ty as int).visited);
    assert forall|k: int| 0 <= k < 100 && k < e1 implies !cell_at(
        orig,
        #[trigger] q1[k].0 as int,
        q1[k].1 as int,
    ).visited && cell_at(s1, q1[k].0 as int, q1[k].1 as int).visited by {
        if e1 == e0 + 1 && k == t0 as int {
            assert(q1[k] == (tx, ty));
        } else {
            assert(q1[k] == q0[k]);
            if k >= e0 {
                assert(e0 < 100);
                assert(e0 % 100 == e0) by (nonlinear_arith)
                    requires
                        e0 < 100,
                ;
            }
            assert(slot_ok(q0[k], orig, lx, ly));
            assert(in_board(q0[k].0 as int, q0[k].1 as int));
        }
    }
}

/// (`x`, `y`) is a cell of the area, hidden in `orig` with no bomb around
/// it, that `s` shows revealed.
pub open spec fn fresh_zero(orig: Seq<BlockInfo>, s: Seq<BlockInfo>, lx: int, ly: int, x: int, y: int) -> bool {
    &&& 0 <= x <= lx
    &&& 0 <= y <= ly
    &&& !cell_at(orig, x, y).visited
    &&& cell_at(s, x, y).visited
    &&& adj_count(orig, CellPred::Bomb, lx, ly, x, y) == 0
}

/// Every neighbour of (`x`, `y`) in the area, the cell itself aside, is
/// revealed in `s` or was flagged in `orig`.
pub open spec fn settled(orig: Seq<BlockInfo>, s: Seq<BlockInfo>, lx: int, ly: int, x: int, y: int) -> bool {
    forall|x2: int, y2: int|
        #![trigger cell_at(s, x2, y2)]
        in_board(x2, y2) && in_window(lx, ly, x, y, x2, y2) && !(x2 == x && y2 == y) ==> cell_at(
            s,
            x2,
            y2,
        ).visited || cell_at(orig, x2, y2).block_type == BlockCell::Flagged
}

/// Every cell that changed from `orig` to `s`, (`x`, `y`) aside, is a
/// neighbour of a cell of lower rank in `rank` that `s` newly reveals with no
/// bomb around it.
pub open spec fn ranked(
    orig: Seq<BlockInfo>,
    s: Seq<BlockInfo>,
    lx: int,
    ly: int,
    x: int,
    y: int,
    rank: spec_fn(int, int) -> int,
) -> bool {
    forall|x2: int, y2: int|
        #![trigger cell_at(s, x2, y2)]
        in_board(x2, y2) && cell_at(s, x2, y2) != cell_at(orig, x2, y2) && !(x2 == x && y2 == y)
            ==> exists|a: int, b: int|
            #[trigger] fresh_zero(orig, s, lx, ly, a, b) && in_window(lx, ly, a, b, x2, y2) && rank(a, b)
                < rank(x2, y2)
}

/// Every cell that changed from `orig` to `s` is reached from (`x`, `y`):
/// following neighbours that `s` newly reveals with no bomb around them,
/// each step to a lower rank, leads back to (`x`, `y`), the only changed cell
/// that needs no such neighbour.
pub open spec fn reached(orig: Seq<BlockInfo>, s: Seq<BlockInfo>, lx: int, ly: int, x: int, y: int) -> bool {
    exists|rank: spec_fn(int, int) -> int| #[trigger] ranked(orig, s, lx, ly, x, y, rank)
}

/// Every cell that `s` newly reveals with no bomb around it has all its
/// neighbours revealed (or flagged).
pub open spec fn zero_region_closed(orig: Seq<BlockInfo>, s: Seq<BlockInfo>, lx: int, ly: int) -> bool {
    forall|x: int, y: int| #[trigger] fresh_zero(orig, s, lx, ly, x, y) ==> settled(orig, s, lx, ly, x, y)
}

/// `s` is `orig` after a flood fill from (`x`, `y`) that revealed
/// `revealed` cells: every other cell it changed borders a newly revealed
/// cell without a bomb around, and when no more than 100 cells were revealed,
/// every such cell has all its neighbours revealed or flagged.
pub open spec fn flood_from(orig: Seq<BlockInfo>, s: Seq<BlockInfo>, lx: int, ly: int, revealed: int, x: int, y: int) -> bool {
    &&& reached(orig, s, lx, ly, x, y)
    &&& revealed <= 100 ==> zero_region_closed(orig, s, lx, ly)
}

/// `new` is `old` after the flood fill from (`x`, `y`) (see `flood_from`).
pub open spec fn flood_filled(old: Board, new: Board, x: int, y: int) -> bool {
    flood_from(old.cells@, new.cells@, old.last_x as int, old.last_y as int, new.visits - old.visits, x, y)
}

/// While at most 100 cells were queued, every cell that `s` newly reveals
/// with no bomb around it sits in one of the first `e` slots of the queue.
pub open spec fn queued_all(
    orig: Seq<BlockInfo>,
    s: Seq<BlockInfo>,
    lx: int,
    ly: int,
    q: Seq<(usize, usize)>,
    e: nat,
) -> bool {
    e <= 100 ==> forall|x: int, y: int|
        #[trigger] fresh_zero(orig, s, lx, ly, x, y) ==> exists|k: int|
            0 <= k < e && #[trigger] q[k] == (x as usize, y as usize)
}

/// Revealing one hidden cell, and queueing it when it has no bomb around,
/// keeps every newly revealed empty cell queued and the earlier slots as they
/// were.
proof fn lemma_queued_step(
    q0: Seq<(usize, usize)>,
    q1: Seq<(usize, usize)>,
    e0: nat,
    e1: nat,
    t0: usize,
    orig: Seq<BlockInfo>,
    s0: Seq<BlockInfo>,
    s1: Seq<BlockInfo>,
    lx: int,
    ly: int,
    tx: usize,
    ty: usize,
    n: nat,
)
    requires
        s0.len() == BOARD_LEN,
        0 <= lx < 30,
        0 <= ly < 25,
        in_board(tx as int, ty as int),
        queued_all(orig, s0, lx, ly, q0, e0),
        n == adj_count(orig, CellPred::Bomb, lx, ly, tx as int, ty as int),
        s1 == s0.update(cell_index(tx as int, ty as int), revealed_cell(n)),
        q0.len() == I_STEP_MAX,
        n != 0 ==> e1 == e0 && q1 == q0,
        n == 0 ==> e1 == e0 + 1 && t0 as int == e0 % 100 && q1 == q0.update(t0 as int, (tx, ty)),
    ensures
        queued_all(orig, s1, lx, ly, q1, e1),
        e1 <= 100 ==> forall|k: int| 0 <= k < e0 ==> q1[k] == q0[k],
{
    lemma_cell_update(s0, tx as int, ty as int, revealed_cell(n));
    if e1 <= 100 {
        if n == 0 {
            assert(e0 % 100 == e0) by (nonlinear_arith)
                requires
                    e0 < 100,
            ;
        }
        assert forall|x: int, y: int| #[trigger] fresh_zero(orig, s1, lx, ly, x, y) implies exists|k: int|
            0 <= k < e1 && #[trigger] q1[k] == (x as usize, y as usize) by {
            assert(in_board(x, y));
            if x == tx as int && y == ty as int {
                assert(n == 0);
                assert(q1[e0 as int] == (tx, ty));
            } else {
                assert(cell_at(s1, x, y) == cell_at(s0, x, y));
                assert(fresh_zero(orig, s0, lx, ly, x, y));
                let k = choose|k: int| 0 <= k < e0 && #[trigger] q0[k] == (x as usize, y as usize);
                assert(q1[k] == q0[k]);
            }
        }
    }
}

/// Cells only revealed further keep a settled cell settled.
proof fn lemma_settled_mono(orig: Seq<BlockInfo>, s1: Seq<BlockInfo>, s2: Seq<BlockInfo>, lx: int, ly: int, x: int, y: int)
    requires
        0 <= lx < 30,
        0 <= ly < 25,
        settled(orig, s1, lx, ly, x, y),
        forall|x2: int, y2: int|
            #![trigger cell_at(s1, x2, y2)]
            in_board(x2, y2) && cell_at(s1, x2, y2).visited ==> cell_at(s2, x2, y2) == cell_at(s1, x2, y2),
    ensures
        settled(orig, s2, lx, ly, x, y),
{
    assert forall|x2: int, y2: int|
        in_board(x2, y2) && in_window(lx, ly, x, y, x2, y2) && !(x2 == x && y2 == y) implies #[trigger] cell_at(
        s2,
        x2,
        y2,
    ).visited || cell_at(orig, x2, y2).block_type == BlockCell::Flagged by {
        assert(cell_at(s1, x2, y2).visited || cell_at(orig, x2, y2).block_type == BlockCell::Flagged);
    }
}

/// One round of the flood fill, which settles the queued cell (`sx`, `sy`)
/// and changes only its neighbours, keeps the processed cells settled and
/// every changed cell reached.
proof fn lemma_fill_round(
    orig: Seq<BlockInfo>,
    s1: Seq<BlockInfo>,
    s2: Seq<BlockInfo>,
    q1: Seq<(usize, usize)>,
    q2: Seq<(usize, usize)>,
    lx: int,
    ly: int,
    x: int,
    y: int,
    d: nat,
    e1: nat,
    e2: nat,
    sx: usize,
    sy: usize,
    rank: spec_fn(int, int) -> int,
) -> (rank2: spec_fn(int, int) -> int)
    requires
        0 <= lx < 30,
        0 <= ly < 25,
        d < e1 <= e2,
        e1 <= 100 ==> forall|k: int| 0 <= k < d ==> settled(orig, s1, lx, ly, #[trigger] q1[k].0 as int, q1[k].1 as int),
        ranked(orig, s1, lx, ly, x, y, rank),
        forall|x2: int, y2: int|
            #![trigger cell_at(s1, x2, y2)]
            in_board(x2, y2) && cell_at(s1, x2, y2) != cell_at(orig, x2, y2) ==> rank(x2, y2) <= d,
        (sx, sy) == q1[(d % 100) as int],
        sx <= lx,
        sy <= ly,
        adj_count(orig, CellPred::Bomb, lx, ly, sx as int, sy as int) == 0,
        !cell_at(orig, sx as int, sy as int).visited,
        cell_at(s1, sx as int, sy as int).visited,
        e2 <= 100 ==> forall|k: int| 0 <= k < e1 ==> q2[k] == q1[k],
        settled(orig, s2, lx, ly, sx as int, sy as int),
        forall|x2: int, y2: int|
            #![trigger cell_at(s2, x2, y2)]
            in_board(x2, y2) && cell_at(s2, x2, y2) != cell_at(s1, x2, y2) ==> in_window(lx, ly, sx as int, sy as int, x2, y2),
        forall|x2: int, y2: int|
            #![trigger cell_at(s1, x2, y2)]
            in_board(x2, y2) && cell_at(s1, x2, y2).visited ==> cell_at(s2, x2, y2) == cell_at(s1, x2, y2),
    ensures
        e2 <= 100 ==> forall|k: int| 0 <= k < d + 1 ==> settled(orig, s2, lx, ly, #[trigger] q2[k].0 as int, q2[k].1 as int),
        ranked(orig, s2, lx, ly, x, y, rank2),
        forall|x2: int, y2: int|
            #![trigger cell_at(s2, x2, y2)]
            in_board(x2, y2) && cell_at(s2, x2, y2) != cell_at(orig, x2, y2) ==> rank2(x2, y2) <= d + 1,
{
    let rank2 = |a: int, b: int|
        if in_board(a, b) && cell_at(s2, a, b) != cell_at(s1, a, b) {
            d + 1int
        } else {
            rank(a, b)
        };
    if e2 <= 100 {
        assert(d % 100 == d) by (nonlinear_arith)
            requires
                d < 100,
        ;
        assert forall|k: int| 0 <= k < d + 1 implies settled(orig, s2, lx, ly, #[trigger] q2[k].0 as int, q2[k].1 as int) by {
            assert(q2[k] == q1[k]);
            if k < d {
                assert(settled(orig, s1, lx, ly, q1[k].0 as int, q1[k].1 as int));
                lemma_settled_mono(orig, s1, s2, lx, ly, q1[k].0 as int, q1[k].1 as int);
            }
        }
    }
    assert(in_board(sx as int, sy as int));
    assert(fresh_zero(orig, s2, lx, ly, sx as int, sy as int));
    assert(cell_at(s2, sx as int, sy as int) == cell_at(s1, sx as int, sy as int));
    assert(rank2(sx as int, sy as int) == rank(sx as int, sy as int));
    assert(cell_at(s1, sx as int, sy as int) != cell_at(orig, sx as int, sy as int));
    assert(rank(sx as int, sy as int) <= d);
    assert forall|x2: int, y2: int|
        in_board(x2, y2) && #[trigger] cell_at(s2, x2, y2) != cell_at(orig, x2, y2) && !(x2 == x && y2 == y)
            implies exists|a: int, b: int|
            #[trigger] fresh_zero(orig, s2, lx, ly, a, b) && in_window(lx, ly, a, b, x2, y2) && rank2(a, b)
                < rank2(x2, y2) by {
        if cell_at(s2, x2, y2) != cell_at(s1, x2, y2) {
            assert(in_window(lx, ly, sx as int, sy as int, x2, y2));
            assert(rank2(x2, y2) == d + 1);
        } else {
            assert(cell_at(s1, x2, y2) != cell_at(orig, x2, y2));
            let (a, b) = choose|a: int, b: int|
                #[trigger] fresh_zero(orig, s1, lx, ly, a, b) && in_window(lx, ly, a, b, x2, y2) && rank(a, b)
                    < rank(x2, y2);
            assert(in_board(a, b));
            assert(cell_at(s2, a, b) == cell_at(s1, a, b));
            assert(fresh_zero(orig, s2, lx, ly, a, b));
            assert(rank2(a, b) == rank(a, b));
            assert(rank2(x2, y2) == rank(x2, y2));
        }
    }
    assert forall|x2: int, y2: int|
        in_board(x2, y2) && #[trigger] cell_at(s2, x2, y2) != cell_at(orig, x2, y2) implies rank2(x2, y2) <= d + 1 by {
        if cell_at(s2, x2, y2) == cell_at(s1, x2, y2) {
            assert(cell_at(s1, x2, y2) != cell_at(orig, x2, y2));
        }
    }
    rank2
}

/// Revealing the clicked cell, and queueing it when no bomb surrounds it,
/// leaves every newly revealed empty cell queued.
proof fn lemma_first_queued(
    orig: Seq<BlockInfo>,
    s1: Seq<BlockInfo>,
    q1: Seq<(usize, usize)>,
    lx: int,
    ly: int,
    x: usize,
    y: usize,
    n: nat,
    e: nat,
)
    requires
        orig.len() == BOARD_LEN,
        0 <= lx < 30,
        0 <= ly < 25,
        in_board(x as int, y as int),
        s1 == orig.update(cell_index(x as int, y as int), revealed_cell(n)),
        n == adj_count(orig, CellPred::Bomb, lx, ly, x as int, y as int),
        n == 0 ==> e == 1 && q1[0] == (x, y),
        n != 0 ==> e == 0,
    ensures
        queued_all(orig, s1, lx, ly, q1, e),
{
    lemma_cell_update(orig, x as int, y as int, revealed_cell(n));
    assert forall|a: int, b: int| #[trigger] fresh_zero(orig, s1, lx, ly, a, b) implies exists|k: int|
        0 <= k < e && #[trigger] q1[k] == (a as usize, b as usize) by {
        assert(in_board(a, b));
        assert(a == x && b == y);
        assert(q1[0] == (x, y));
    }
}

/// The flood-fill state after the clicked cell went through `step_xy` on
/// an empty queue: the count of queued cells is returned.
#[verifier::rlimit(60)]
#[verifier::spinoff_prover]
proof fn lemma_fill_begin(
    b0: Board,
    b1: Board,
    q0: Seq<(usize, usize)>,
    q1: Seq<(usize, usize)>,
    t1: usize,
    fx0: Seq<Effect>,
    f1: Seq<Effect>,
    x: usize,
    y: usize,
) -> (e: nat)
    requires
        b0.wf(),
        b0.in_area(x as int, y as int),
        ({
            let c = b0.cell_spec(x as int, y as int);
            c.visited || c.block_type == BlockCell::Flagged || !c.bomb
        }),
        b1.wf(),
        b1.last_x == b0.last_x,
        b1.last_y == b0.last_y,
        q0.len() == I_STEP_MAX,
        q1.len() == I_STEP_MAX,
        t1 < I_STEP_MAX,
        ({
            let c = b0.cell_spec(x as int, y as int);
            c.visited || c.block_type == BlockCell::Flagged
        }) ==> {
            &&& b1.cells@ == b0.cells@
            &&& b1.visits == b0.visits
            &&& f1 == fx0
            &&& q1 == q0
            &&& t1 == 0
        },
        !({
            let c = b0.cell_spec(x as int, y as int);
            c.visited || c.block_type == BlockCell::Flagged
        }) ==> {
            let n = b0.adj_bombs(x as int, y as int);
            &&& b1.cells@ == b0.cells@.update(cell_index(x as int, y as int), revealed_cell(n))
            &&& b1.visits == b0.visits + 1
            &&& f1 == fx0.push(Effect::DrawBlock { x, y, cell: BlockCell::spec_from_u8(n as u8) })
            &&& n == 0 ==> q1 == q0.update(0, (x, y)) && t1 as int == next_slot(0)
            &&& n != 0 ==> q1 == q0 && t1 == 0
        },
    ensures
        fill_inv(b1, b0.cells@, b0.last_x as int, b0.last_y as int, q1, t1, e, fx0, f1),
        queued_all(b0.cells@, b1.cells@, b0.last_x as int, b0.last_y as int, q1, e),
        ranked(
            b0.cells@,
            b1.cells@,
            b0.last_x as int,
            b0.last_y as int,
            x as int,
            y as int,
            (|a: int, b: int| 0int),
        ),
        b0.visits <= b1.visits,
        e <= b1.visits - b0.visits,
        e <= 1,
        !({
            let c = b0.cell_spec(x as int, y as int);
            c.visited || c.block_type == BlockCell::Flagged
        }) ==> b1.cell_spec(x as int, y as int).visited,
        ({
            let c = b0.cell_spec(x as int, y as int);
            c.visited || c.block_type == BlockCell::Flagged
        }) ==> e == 0 && b1.cells@ == b0.cells@ && f1 == fx0 && b1.visits == b0.visits,
{
    let orig = b0.cells@;
    let lx = b0.last_x as int;
    let ly = b0.last_y as int;
    let c0 = b0.cell_spec(x as int, y as int);
    let eligible = !(c0.visited || c0.block_type == BlockCell::Flagged);
    lemma_seq_count_le(b1.cells@, CellPred::Visited);
    assert(reveal_step(orig, orig, lx, ly));
    assert(fx0.subrange(0, fx0.len() as int) =~= fx0);
    assert(fx_ok(fx0, fx0, b0));
    let mut e: nat = 0;
    if eligible {
        let n = adj_count(orig, CellPred::Bomb, lx, ly, x as int, y as int);
        lemma_reveal_one(orig, orig, lx, ly, x as int, y as int);
        lemma_cell_update(orig, x as int, y as int, revealed_cell(n));
        lemma_fx_extend(fx0, fx0, f1, b0, b1, x, y, revealed_cell(n));
        lemma_drawn_extend(orig, fx0, fx0, f1, orig, b1.cells@, lx, ly, x, y, revealed_cell(n));
        if n == 0 {
            e = 1;
            assert(q1[0] == (x, y));
            assert(slots_ok(q1, e, orig, lx, ly));
        }
        assert(slots_live(q1, e, orig, b1.cells@));
        lemma_first_queued(orig, b1.cells@, q1, lx, ly, x, y, n, e);
    }
    lemma_fill_close(b1, orig, lx, ly, q1, t1, e, fx0, f1);
    e
}

/// When the queue runs empty, the flood-fill state gives what `step_box`
/// promises: the cells were revealed step by step, the effects draw revealed
/// cells and, when no more than 100 cells were revealed, every queued cell
/// was settled, so the empty region is closed.
proof fn lemma_fill_end(
    b: Board,
    orig: Seq<BlockInfo>,
    lx: int,
    ly: int,
    q: Seq<(usize, usize)>,
    tail: usize,
    e: nat,
    d: nat,
    fx0: Seq<Effect>,
    fx: Seq<Effect>,
    v_start: u16,
)
    requires
        fill_inv(b, orig, lx, ly, q, tail, e, fx0, fx),
        tail as int == d % 100,
        d <= e,
        d == 0 ==> e <= 1,
        v_start <= b.visits,
        e <= b.visits - v_start,
        queued_all(orig, b.cells@, lx, ly, q, e),
        e <= 100 ==> forall|k: int|
            0 <= k < d ==> settled(orig, b.cells@, lx, ly, #[trigger] q[k].0 as int, q[k].1 as int),
    ensures
        b.wf(),
        b.last_x as int == lx,
        b.last_y as int == ly,
        reveal_step(orig, b.cells@, lx, ly),
        fx.len() >= fx0.len(),
        fx.subrange(0, fx0.len() as int) == fx0,
        forall|k: int| fx0.len() <= k < fx.len() ==> draws_revealed(#[trigger] fx[k], b),
        changes_drawn(orig, b.cells@, fx0, fx),
        b.visits - v_start <= 100 ==> zero_region_closed(orig, b.cells@, lx, ly),
{
    reveal(fill_inv);
    if b.visits - v_start <= 100 {
        assert(d == e) by (nonlinear_arith)
            requires
                d <= e,
                e <= 100,
                d % 100 == e % 100,
                d == 0 ==> e <= 1,
        ;
        assert forall|a: int, c: int| #[trigger] fresh_zero(orig, b.cells@, lx, ly, a, c) implies settled(
            orig,
            b.cells@,
            lx,
            ly,
            a,
            c,
        ) by {
            let k = choose|k: int| 0 <= k < e && #[trigger] q[k] == (a as usize, c as usize);
            assert(settled(orig, b.cells@, lx, ly, q[k].0 as int, q[k].1 as int));
        }
    }
}

/// One call of `step_xy` on a neighbour keeps the flood-fill state.
proof fn lemma_fill_step(
    b0: Board,
    b1: Board,
    orig: Seq<BlockInfo>,
    lx: int,
    ly: int,
    q0: Seq<(usize, usize)>,
    q1: Seq<(usize, usize)>,
    t0: usize,
    t1: usize,
    e: nat,
    fx0: Seq<Effect>,
    f0: Seq<Effect>,
    f1: Seq<Effect>,
    tx: usize,
    ty: usize,
) -> (e2: nat)
    requires
        fill_inv(b0, orig, lx, ly, q0, t0, e, fx0, f0),
        queued_all(orig, b0.cells@, lx, ly, q0, e),
        b0.in_area(tx as int, ty as int),
        !cell_at(b0.cells@, tx as int, ty as int).bomb,
        b1.wf(),
        b1.last_x == b0.last_x,
        b1.last_y == b0.last_y,
        q1.len() == I_STEP_MAX,
        t1 < I_STEP_MAX,
        ({
            let c = b0.cell_spec(tx as int, ty as int);
            c.visited || c.block_type == BlockCell::Flagged
        }) ==> {
            &&& b1.cells@ == b0.cells@
            &&& b1.visits == b0.visits
            &&& f1 == f0
            &&& q1 == q0
            &&& t1 == t0
        },
        !({
            let c = b0.cell_spec(tx as int, ty as int);
            c.visited || c.block_type == BlockCell::Flagged
        }) ==> {
            let n = b0.adj_bombs(tx as int, ty as int);
            &&& b1.cells@ == b0.cells@.update(cell_index(tx as int, ty as int), revealed_cell(n))
            &&& b1.visits == b0.visits + 1
            &&& f1 == f0.push(Effect::DrawBlock { x: tx, y: ty, cell: BlockCell::spec_from_u8(n as u8) })
            &&& n == 0 ==> q1 == q0.update(t0 as int, (tx, ty)) && t1 as int == next_slot(t0 as int)
            &&& n != 0 ==> q1 == q0 && t1 == t0
        },
    ensures
        fill_inv(b1, orig, lx, ly, q1, t1, e2, fx0, f1),
        queued_all(orig, b1.cells@, lx, ly, q1, e2),
        e2 <= 100 ==> forall|k: int| 0 <= k < e ==> q1[k] == q0[k],
        e <= e2,
        e2 - e <= b1.visits - b0.visits,
        b0.visits <= b1.visits,
        forall|x2: int, y2: int|
            #![trigger cell_at(b0.cells@, x2, y2)]
            in_board(x2, y2) && cell_at(b0.cells@, x2, y2).visited ==> cell_at(b1.cells@, x2, y2)
                == cell_at(b0.cells@, x2, y2),
{
    lemma_fill_open(b0, orig, lx, ly, q0, t0, e, fx0, f0);
    let s = b0.cells@;
    let cb = cell_at(s, tx as int, ty as int);
    let elig = !(cb.visited || cb.block_type == BlockCell::Flagged);
    lemma_seq_count_le(b1.cells@, CellPred::Visited);
    if elig {
        assert(in_board(tx as int, ty as int));
        lemma_reveal_one(orig, s, lx, ly, tx as int, ty as int);
        let n = adj_count(s, CellPred::Bomb, lx, ly, tx as int, ty as int);
        lemma_cell_update(s, tx as int, ty as int, revealed_cell(n));
        lemma_fx_extend(fx0, f0, f1, b0, b1, tx, ty, revealed_cell(n));
        lemma_drawn_extend(orig, fx0, f0, f1, s, b1.cells@, lx, ly, tx, ty, revealed_cell(n));
        if n == 0 {
            lemma_next_slot(e);
            lemma_slots_extend(q0, q1, t0, e, orig, lx, ly, tx, ty);
            lemma_live_step(q0, q1, e, e + 1, t0, orig, s, b1.cells@, lx, ly, tx, ty, revealed_cell(n));
            lemma_queued_step(q0, q1, e, e + 1, t0, orig, s, b1.cells@, lx, ly, tx, ty, n);
            lemma_fill_close(b1, orig, lx, ly, q1, t1, e + 1, fx0, f1);
            e + 1
        } else {
            lemma_live_step(q0, q1, e, e, t0, orig, s, b1.cells@, lx, ly, tx, ty, revealed_cell(n));
            lemma_queued_step(q0, q1, e, e, t0, orig, s, b1.cells@, lx, ly, tx, ty, n);
            lemma_fill_close(b1, orig, lx, ly, q1, t1, e, fx0, f1);
            e
        }
    } else {
        lemma_fill_close(b1, orig, lx, ly, q1, t1, e, fx0, f1);
        e
    }
}

impl Board {
    /// One neighbour of a queued cell during the flood fill: reveal it (and
    /// queue it when empty) unless it is revealed or flagged.
    fn fill_neighbor(
        &mut self,
        effects: &mut Vec<Effect>,
        queue: &mut Vec<(usize, usize)>,
        tail: &mut usize,
        Ghost(orig): Ghost<Seq<BlockInfo>>,
        Ghost(fx0): Ghost<Seq<Effect>>,
        Ghost(e): Ghost<nat>,
        sx: usize,
        sy: usize,
        tx: usize,
        ty: usize,
    ) -> (e2: Ghost<nat>)
        requires
            fill_inv(
                *old(self),
                orig,
                old(self).last_x as int,
                old(self).last_y as int,
                old(queue)@,
                *old(tail),
                e,
                fx0,
                old(effects)@,
            ),
            sx <= old(self).last_x,
            sy <= old(self).last_y,
            adj_count(
                orig,
                CellPred::Bomb,
                old(self).last_x as int,
                old(self).last_y as int,
                sx as int,
                sy as int,
            ) == 0,
            in_window(
                old(self).last_x as int,
                old(self).last_y as int,
                sx as int,
                sy as int,
                tx as int,
                ty as int,
            ),
            queued_all(orig, old(self).cells@, old(self).last_x as int, old(self).last_y as int, old(queue)@, e),
        ensures
            queued_all(
                orig,
                final(self).cells@,
                old(self).last_x as int,
                old(self).last_y as int,
                final(queue)@,
                e2@,
            ),
            e2@ <= 100 ==> forall|k: int| 0 <= k < e ==> final(queue)@[k] == old(queue)@[k],
            cell_at(final(self).cells@, tx as int, ty as int).visited || cell_at(orig, tx as int, ty as int).block_type
                == BlockCell::Flagged,
            forall|x2: int, y2: int|
                #![trigger cell_at(final(self).cells@, x2, y2)]
                in_board(x2, y2) && cell_at(final(self).cells@, x2, y2) != cell_at(old(self).cells@, x2, y2)
                    ==> x2 == tx && y2 == ty,
            fill_inv(
                *final(self),
                orig,
                old(self).last_x as int,
                old(self).last_y as int,
                final(queue)@,
                *final(tail),
                e2@,
                fx0,
                final(effects)@,
            ),
            final(self).last_x == old(self).last_x,
            final(self).last_y == old(self).last_y,
            e <= e2@,
            e2@ - e <= final(self).visits - old(self).visits,
            old(self).visits <= final(self).visits,
            forall|x2: int, y2: int|
                #![trigger cell_at(old(self).cells@, x2, y2)]
                in_board(x2, y2) && cell_at(old(self).cells@, x2, y2).visited ==> cell_at(
                    final(self).cells@,
                    x2,
                    y2,
                ) == cell_at(old(self).cells@, x2, y2),
    {
        let ghost lx = self.last_x as int;
        let ghost ly = self.last_y as int;
        let ghost b0 = *self;
        let ghost q0 = queue@;
        let ghost t0 = *tail;
        let ghost f0 = effects@;
        proof {
            lemma_fill_pre(
                *self,
                orig,
                lx,
                ly,
                queue@,
                *tail,
                e,
                fx0,
                effects@,
                sx as int,
                sy as int,
                tx as int,
                ty as int,
            );
            lemma_fill_open(*self, orig, lx, ly, queue@, *tail, e, fx0, effects@);
        }
        self.step_xy(effects, queue, tail, tx, ty);
        proof {
            assert(in_board(tx as int, ty as int));
            let c = cell_at(b0.cells@, tx as int, ty as int);
            if !(c.visited || c.block_type == BlockCell::Flagged) {
                lemma_cell_update(
                    b0.cells@,
                    tx as int,
                    ty as int,
                    revealed_cell(b0.adj_bombs(tx as int, ty as int)),
                );
            }
        }
        let ghost e2 = lemma_fill_step(
            b0,
            *self,
            orig,
            lx,
            ly,
            q0,
            queue@,
            t0,
            *tail,
            e,
            fx0,
            f0,
            effects@,
            tx,
            ty,
        );
        Ghost(e2)
    }

    /// Reveal the neighbours of the queued cell (`sx`, `sy`), which has no
    /// bomb around, row by row (see `fill_neighbor`).
    fn fill_around(
        &mut self,
        effects: &mut Vec<Effect>,
        queue: &mut Vec<(usize, usize)>,
        tail: &mut usize,
        Ghost(orig): Ghost<Seq<BlockInfo>>,
        Ghost(fx0): Ghost<Seq<Effect>>,
        Ghost(e_in): Ghost<nat>,
        sx: usize,
        sy: usize,
    ) -> (e2: Ghost<nat>)
        requires
            fill_inv(
                *old(self),
                orig,
                old(self).last_x as int,
                old(self).last_y as int,
                old(queue)@,
                *old(tail),
                e_in,
                fx0,
                old(effects)@,
            ),
            sx <= old(self).last_x,
            sy <= old(self).last_y,
            adj_count(
                orig,
                CellPred::Bomb,
                old(self).last_x as int,
                old(self).last_y as int,
                sx as int,
                sy as int,
            ) == 0,
            queued_all(orig, old(self).cells@, old(self).last_x as int, old(self).last_y as int, old(queue)@, e_in),
        ensures
            queued_all(
                orig,
                final(self).cells@,
                old(self).last_x as int,
                old(self).last_y as int,
                final(queue)@,
                e2@,
            ),
            e2@ <= 100 ==> forall|k: int| 0 <= k < e_in ==> final(queue)@[k] == old(queue)@[k],
            settled(orig, final(self).cells@, old(self).last_x as int, old(self).last_y as int, sx as int, sy as int),
            forall|x2: int, y2: int|
                #![trigger cell_at(final(self).cells@, x2, y2)]
                in_board(x2, y2) && cell_at(final(self).cells@, x2, y2) != cell_at(old(self).cells@, x2, y2)
                    ==> in_window(old(self).last_x as int, old(self).last_y as int, sx as int, sy as int, x2, y2),
            fill_inv(
                *final(self),
                orig,
                old(self).last_x as int,
                old(self).last_y as int,
                final(queue)@,
                *final(tail),
                e2@,
                fx0,
                final(effects)@,
            ),
            final(self).last_x == old(self).last_x,
            final(self).last_y == old(self).last_y,
            e_in <= e2@,
            e2@ - e_in <= final(self).visits - old(self).visits,
            old(self).visits <= final(self).visits,
            forall|x2: int, y2: int|
                #![trigger cell_at(old(self).cells@, x2, y2)]
                in_board(x2, y2) && cell_at(old(self).cells@, x2, y2).visited ==> cell_at(
                    final(self).cells@,
                    x2,
                    y2,
                ) == cell_at(old(self).cells@, x2, y2),
    {
        let ghost lx = self.last_x as int;
        let ghost ly = self.last_y as int;
        let ghost b0 = *self;
        let ghost v0 = self.visits;
        let ghost q_start = queue@;
        let ghost mut e: nat = e_in;
        proof {
            lemma_fill_facts(*self, orig, lx, ly, queue@, *tail, e, fx0, effects@);
        }
        let ty0: usize = if sy == 0 {
            0
        } else {
            sy - 1
        };
        let ty1: usize = if sy + 1 <= self.last_y {
            sy + 1
        } else {
            self.last_y
        };
        let tx0: usize = if sx == 0 {
            0
        } else {
            sx - 1
        };
        let tx1: usize = if sx + 1 <= self.last_x {
            sx + 1
        } else {
            self.last_x
        };
        let mut ty: usize = ty0;
        while ty <= ty1
            invariant
                fill_inv(*self, orig, lx, ly, queue@, *tail, e, fx0, effects@),
                e_in <= e,
                e - e_in <= self.visits - v0,
                v0 <= self.visits,
                self.last_x as int == lx,
                self.last_y as int == ly,
                sx as int <= lx,
                sy as int <= ly,
                adj_count(orig, CellPred::Bomb, lx, ly, sx as int, sy as int) == 0,
                tx0 as int == nbr_lo(sx as int),
                tx1 as int == nbr_hi(sx as int, lx),
                ty0 as int == nbr_lo(sy as int),
                ty1 as int == nbr_hi(sy as int, ly),
                ty0 <= ty <= ty1 + 1,
                ty1 < 25,
                0 <= lx < 30,
                0 <= ly < 25,
                queued_all(orig, self.cells@, lx, ly, queue@, e),
                e <= 100 ==> forall|k: int| 0 <= k < e_in ==> queue@[k] == q_start[k],
                forall|x2: int, y2: int|
                    #![trigger cell_at(self.cells@, x2, y2)]
                    in_board(x2, y2) && cell_at(self.cells@, x2, y2) != cell_at(b0.cells@, x2, y2) ==> in_window(
                        lx,
                        ly,
                        sx as int,
                        sy as int,
                        x2,
                        y2,
                    ),
                forall|x2: int, y2: int|
                    #![trigger cell_at(self.cells@, x2, y2)]
                    tx0 <= x2 <= tx1 && ty0 <= y2 < ty && !(x2 == sx && y2 == sy) ==> cell_at(self.cells@, x2, y2).visited
                        || cell_at(orig, x2, y2).block_type == BlockCell::Flagged,
                forall|x2: int, y2: int|
                    #![trigger cell_at(b0.cells@, x2, y2)]
                    in_board(x2, y2) && cell_at(b0.cells@, x2, y2).visited ==> cell_at(
                        self.cells@,
                        x2,
                        y2,
                    ) == cell_at(b0.cells@, x2, y2),
            decreases ty1 + 1 - ty,
        {
            let mut tx: usize = tx0;
            while tx <= tx1
                invariant
                    fill_inv(*self, orig, lx, ly, queue@, *tail, e, fx0, effects@),
                    e_in <= e,
                    e - e_in <= self.visits - v0,
                    v0 <= self.visits,
                    self.last_x as int == lx,
                    self.last_y as int == ly,
                    sx as int <= lx,
                    sy as int <= ly,
                    adj_count(orig, CellPred::Bomb, lx, ly, sx as int, sy as int) == 0,
                    tx0 as int == nbr_lo(sx as int),
                    tx1 as int == nbr_hi(sx as int, lx),
                    ty0 as int == nbr_lo(sy as int),
                    ty1 as int == nbr_hi(sy as int, ly),
                    ty0 <= ty <= ty1,
                    tx0 <= tx <= tx1 + 1,
                    tx1 < 30,
                    ty1 < 25,
                    0 <= lx < 30,
                    0 <= ly < 25,
                queued_all(orig, self.cells@, lx, ly, queue@, e),
                    e <= 100 ==> forall|k: int| 0 <= k < e_in ==> queue@[k] == q_start[k],
                    forall|x2: int, y2: int|
                        #![trigger cell_at(self.cells@, x2, y2)]
                        in_board(x2, y2) && cell_at(self.cells@, x2, y2) != cell_at(b0.cells@, x2, y2) ==> in_window(
                            lx,
                            ly,
                            sx as int,
                            sy as int,
                            x2,
                            y2,
                        ),
                    forall|x2: int, y2: int|
                        #![trigger cell_at(self.cells@, x2, y2)]
                        tx0 <= x2 <= tx1 && (ty0 <= y2 < ty || (y2 == ty && x2 < tx)) && !(x2 == sx && y2 == sy)
                            ==> cell_at(self.cells@, x2, y2).visited || cell_at(orig, x2, y2).block_type
                            == BlockCell::Flagged,
                    forall|x2: int, y2: int|
                        #![trigger cell_at(b0.cells@, x2, y2)]
                        in_board(x2, y2) && cell_at(b0.cells@, x2, y2).visited ==> cell_at(
                            self.cells@,
                            x2,
                            y2,
                        ) == cell_at(b0.cells@, x2, y2),
                decreases tx1 + 1 - tx,
            {
                if !(tx == sx && ty == sy) {
                    let ghost ex = e;
                    let ghost mid = self.cells@;
                    let ge = self.fill_neighbor(effects, queue, tail, Ghost(orig), Ghost(fx0), Ghost(ex), sx, sy, tx, ty);
                    proof {
                        e = ge@;
                        assert forall|x2: int, y2: int|
                            in_board(x2, y2) && #[trigger] cell_at(b0.cells@, x2, y2).visited implies cell_at(
                                self.cells@,
                                x2,
                                y2,
                            ) == cell_at(b0.cells@, x2, y2) by {
                            assert(cell_at(mid, x2, y2) == cell_at(b0.cells@, x2, y2));
                        }
                        assert forall|x2: int, y2: int|
                            in_board(x2, y2) && #[trigger] cell_at(self.cells@, x2, y2) != cell_at(b0.cells@, x2, y2)
                                implies in_window(lx, ly, sx as int, sy as int, x2, y2) by {
                            if cell_at(mid, x2, y2) == cell_at(b0.cells@, x2, y2) {
                                assert(x2 == tx && y2 == ty);
                            }
                        }
                        assert forall|x2: int, y2: int|
                            tx0 <= x2 <= tx1 && (ty0 <= y2 < ty || (y2 == ty && x2 <= tx)) && !(x2 == sx && y2 == sy)
                                implies #[trigger] cell_at(self.cells@, x2, y2).visited || cell_at(orig, x2, y2).block_type
                            == BlockCell::Flagged by {
                            assert(in_board(x2, y2));
                            if !(x2 == tx && y2 == ty) {
                                assert(cell_at(mid, x2, y2).visited || cell_at(orig, x2, y2).block_type
                                    == BlockCell::Flagged);
                            }
                        }
                        assert forall|k: int| 0 <= k < e_in && e <= 100 implies queue@[k] == q_start[k] by {
                        }
                    }
                }
                tx += 1;
            }
            ty += 1;
        }
        Ghost(e)
    }

    /// Flood-fill the empty region around (`x`, `y`): reveal the cell, and
    /// while revealed cells without adjacent bombs wait in a circular queue of
    /// 100 slots, reveal their neighbours. When more than 100 cells wait, the
    /// newest overwrite the oldest, exactly as the queue of the game does; when
    /// no more than 100 cells are revealed, the whole empty region is (see
    /// `flood_filled`).
    #[verifier::rlimit(60)]
    pub fn step_box(&mut self, effects: &mut Vec<Effect>, x: usize, y: usize)
        requires
            old(self).wf(),
            old(self).in_area(x as int, y as int),
            ({
                let c = old(self).cell_spec(x as int, y as int);
                c.visited || c.block_type == BlockCell::Flagged || !c.bomb
            }),
        ensures
            final(self).wf(),
            final(self).last_x == old(self).last_x,
            final(self).last_y == old(self).last_y,
            reveal_step(
                old(self).cells@,
                final(self).cells@,
                old(self).last_x as int,
                old(self).last_y as int,
            ),
            ({
                let c = old(self).cell_spec(x as int, y as int);
                c.visited || c.block_type == BlockCell::Flagged
            }) ==> final(self).cells@ == old(self).cells@ && final(self).visits == old(self).visits
                && final(effects)@ == old(effects)@,
            !({
                let c = old(self).cell_spec(x as int, y as int);
                c.visited || c.block_type == BlockCell::Flagged
            }) ==> final(self).cell_spec(x as int, y as int).visited,
            final(effects)@.len() >= old(effects)@.len(),
            final(effects)@.subrange(0, old(effects)@.len() as int) == old(effects)@,
            forall|k: int|
                old(effects)@.len() <= k < final(effects)@.len() ==> draws_revealed(
                    #[trigger] final(effects)@[k],
                    *final(self),
                ),
            flood_filled(*old(self), *final(self), x as int, y as int),
            changes_drawn(old(self).cells@, final(self).cells@, old(effects)@, final(effects)@),
    {
        let ghost orig = self.cells@;
        let ghost fx0 = effects@;
        let ghost v_start = self.visits;
        let ghost lx = self.last_x as int;
        let ghost ly = self.last_y as int;
        let ghost c0 = self.cell_spec(x as int, y as int);
        let ghost eligible = !(c0.visited || c0.block_type == BlockCell::Flagged);
        let mut queue: Vec<(usize, usize)> = Vec::new();
        let mut i: usize = 0;
        while i < I_STEP_MAX
            invariant
                queue@.len() == i,
                i <= I_STEP_MAX,
            decreases I_STEP_MAX - i,
        {
            queue.push((0, 0));
            i += 1;
        }
        let mut head: usize = 0;
        let mut tail: usize = 0;
        let ghost mut e: nat = 0;
        let ghost mut d: nat = 0;
        let ghost b0 = *self;
        let ghost q0 = queue@;
        self.step_xy(effects, &mut queue, &mut tail, x, y);
        let ghost mut rank: spec_fn(int, int) -> int = |a: int, b: int| 0int;
        proof {
            e = lemma_fill_begin(b0, *self, q0, queue@, tail, fx0, effects@, x, y);
        }
        while head != tail
            invariant
                fill_inv(*self, orig, lx, ly, queue@, tail, e, fx0, effects@),
                head < I_STEP_MAX,
                d <= e,
                head as int == d % 100,
                eligible ==> self.cell_spec(x as int, y as int).visited,
                !eligible ==> e == 0 && self.cells@ == orig && effects@ == fx0 && self.visits
                    == v_start,
                x as int <= lx,
                y as int <= ly,
                queued_all(orig, self.cells@, lx, ly, queue@, e),
                e <= 100 ==> forall|k: int|
                    0 <= k < d ==> settled(orig, self.cells@, lx, ly, #[trigger] queue@[k].0 as int, queue@[k].1 as int),
                ranked(orig, self.cells@, lx, ly, x as int, y as int, rank),
                forall|x2: int, y2: int|
                    #![trigger cell_at(self.cells@, x2, y2)]
                    in_board(x2, y2) && cell_at(self.cells@, x2, y2) != cell_at(orig, x2, y2) ==> rank(x2, y2) <= d,
                v_start <= self.visits,
                e <= self.visits - v_start,
                d == 0 ==> e <= 1,
            decreases 101 * (750 - self.visits) + (e - d),
        {
            proof {
                lemma_fill_facts(*self, orig, lx, ly, queue@, tail, e, fx0, effects@);
                if d == e {
                    assert(false);
                }
                if e < 100 {
                    assert(d % 100 == d) by (nonlinear_arith)
                        requires
                            d < 100,
                    ;
                }
                lemma_fill_slot(*self, orig, lx, ly, queue@, tail, e, fx0, effects@, head as int);
            }
            let (sx, sy) = queue[head];
            let ghost ex = e;
            let ghost s1 = self.cells@;
            let ghost q1 = queue@;
            let ge = self.fill_around(effects, &mut queue, &mut tail, Ghost(orig), Ghost(fx0), Ghost(ex), sx, sy);
            proof {
                e = ge@;
                rank = lemma_fill_round(orig, s1, self.cells@, q1, queue@, lx, ly, x as int, y as int, d, ex, e, sx, sy, rank);
                if eligible {
                    assert(in_board(x as int, y as int));
                }
            }
            head += 1;
            if head == I_STEP_MAX {
                head = 0;
            }
            proof {
                lemma_next_slot(d);
                d = d + 1;
                lemma_fill_facts(*self, orig, lx, ly, queue@, tail, e, fx0, effects@);
            }
        }
        proof {
            lemma_fill_end(*self, orig, lx, ly, queue@, tail, e, d, fx0, effects@, v_start);
            assert(ranked(orig, self.cells@, lx, ly, x as int, y as int, rank));
        }
    }
}


/// The pressed/raised counterpart of a hidden cell's sprite: a raised blank
/// or guess mark goes down, a pressed one comes back up; other sprites stay.
pub open spec fn invert_cell(b: BlockCell) -> BlockCell {
    match b {
        BlockCell::GuessUp => BlockCell::GuessDown,
        BlockCell::BlankUp => BlockCell::Blank,
        BlockCell::GuessDown => BlockCell::GuessUp,
        BlockCell::Blank => BlockCell::BlankUp,
        _ => b,
    }
}

/// The draws of inverting the hidden cells of row `y` of `s`, columns
/// `x0` up to but not including `xe`, left to right: each shows the cell's
/// inverted sprite.
pub open spec fn row_draws(s: Seq<BlockInfo>, y: int, x0: int, xe: int) -> Seq<Effect>
    decreases xe - x0,
{
    if xe <= x0 {
        Seq::empty()
    } else {
        row_draws(s, y, x0, xe - 1) + if !cell_at(s, xe - 1, y).visited {
            seq![Effect::DrawBlock { x: (xe - 1) as usize, y: y as usize, cell: invert_cell(cell_at(s, xe - 1, y).block_type) }]
        } else {
            Seq::empty()
        }
    }
}

/// The draws of inverting the hidden cells of columns `x0..=x1`, rows `y0`
/// up to but not including `ye`, of `s`, row by row (see `row_draws`).
pub open spec fn window_draws(s: Seq<BlockInfo>, x0: int, x1: int, y0: int, ye: int) -> Seq<Effect>
    decreases ye - y0,
{
    if ye <= y0 {
        Seq::empty()
    } else {
        window_draws(s, x0, x1, y0, ye - 1) + row_draws(s, ye - 1, x0, x1 + 1)
    }
}

/// The draws of inverting the hidden cells of the neighbourhood of
/// (`cx`, `cy`) in the area `0..=lx` by `0..=ly` of `s`.
pub open spec fn nbr_draws(s: Seq<BlockInfo>, lx: int, ly: int, cx: int, cy: int) -> Seq<Effect> {
    window_draws(s, nbr_lo(cx), nbr_hi(cx, lx), nbr_lo(cy), nbr_hi(cy, ly) + 1)
}

/// `s` with the hidden cells of the neighbourhood of (`cx`, `cy`) inverted
/// when `on` holds.
pub open spec fn flipped_cells(s: Seq<BlockInfo>, lx: int, ly: int, cx: int, cy: int, on: bool) -> Seq<BlockInfo> {
    Seq::new(s.len(), |i: int| flip_if(s[i], on && in_window(lx, ly, cx, cy, i / 25, i % 25)))
}

/// Drawing the next hidden cell of a row extends the row's draws.
proof fn lemma_draw_step(pre: Seq<Effect>, f0: Seq<Effect>, f1: Seq<Effect>, s0: Seq<BlockInfo>, y: int, x0: int, x: int)
    requires
        x0 <= x,
        f0 == pre + row_draws(s0, y, x0, x),
        !cell_at(s0, x, y).visited,
        f1 == f0.push(Effect::DrawBlock { x: x as usize, y: y as usize, cell: invert_cell(cell_at(s0, x, y).block_type) }),
    ensures
        f1 == pre + row_draws(s0, y, x0, x + 1),
{
    assert(f1 =~= pre + row_draws(s0, y, x0, x + 1));
}

/// `c` with its sprite inverted when `flip` holds and `c` is hidden.
pub open spec fn flip_if(c: BlockInfo, flip: bool) -> BlockInfo {
    if flip && !c.visited {
        BlockInfo { block_type: invert_cell(c.block_type), ..c }
    } else {
        c
    }
}

/// What the end of a game shows in a hidden cell: a bomb that is not flagged
/// becomes a flag on a win and a revealed bomb on a loss, a flag without a
/// bomb becomes a wrong flag; revealed cells and the detonated bomb stay.
pub open spec fn shown_cell(c: BlockInfo, win: bool) -> BlockInfo {
    if !c.visited && c.block_type != BlockCell::Explode {
        if c.bomb {
            if c.block_type != BlockCell::Flagged {
                BlockInfo {
                    block_type: if win {
                        BlockCell::Flagged
                    } else {
                        BlockCell::BombDown
                    },
                    ..c
                }
            } else {
                c
            }
        } else if c.block_type == BlockCell::Flagged {
            BlockInfo { block_type: BlockCell::Wrong, ..c }
        } else {
            c
        }
    } else {
        c
    }
}

/// Inverting twice restores a sprite.
pub proof fn lemma_invert_twice(b: BlockCell)
    ensures
        invert_cell(invert_cell(b)) == b,
{
}

/// Every index of the storage addresses one cell of the board.
pub proof fn lemma_index_cell(i: int)
    requires
        0 <= i < BOARD_LEN,
    ensures
        in_board(i / 25, i % 25),
        cell_index(i / 25, i % 25) == i,
{
    assert(0 <= i / 25 < 30 && 0 <= i % 25 < 25 && (i / 25) * 25 + i % 25 == i) by (nonlinear_arith)
        requires
            0 <= i < 750,
    ;
}

/// Boards that agree on the property in every cell count the same.
pub proof fn lemma_seq_count_same(s1: Seq<BlockInfo>, s2: Seq<BlockInfo>, p: CellPred)
    requires
        s1.len() == BOARD_LEN,
        s2.len() == BOARD_LEN,
        forall|x: int, y: int|
            #![trigger cell_at(s1, x, y)]
            in_board(x, y) ==> holds(p, cell_at(s1, x, y)) == holds(p, cell_at(s2, x, y)),
    ensures
        seq_count(s1, p) == seq_count(s2, p),
{
    assert forall|i: int| 0 <= i < s1.len() implies holds(p, #[trigger] s1[i]) == holds(p, s2[i]) by {
        lemma_index_cell(i);
        assert(cell_at(s1, i / 25, i % 25) == s1[i]);
    }
    lemma_seq_count_same_idx(s1, s2, p);
}

/// Sequences that agree on the property at every index count the same.
pub proof fn lemma_seq_count_same_idx(s1: Seq<BlockInfo>, s2: Seq<BlockInfo>, p: CellPred)
    requires
        s1.len() == s2.len(),
        forall|i: int| 0 <= i < s1.len() ==> holds(p, #[trigger] s1[i]) == holds(p, s2[i]),
    ensures
        seq_count(s1, p) == seq_count(s2, p),
    decreases s1.len(),
{
    if s1.len() > 0 {
        lemma_seq_count_same_idx(s1.drop_last(), s2.drop_last(), p);
    }
}

impl Board {
    /// Invert the sprite of the hidden cell (`x`, `y`): push a raised cell
    /// down or bring a pressed one back up.
    pub fn invert_box(&mut self, x: usize, y: usize)
        requires
            old(self).wf(),
            old(self).in_area(x as int, y as int),
            !old(self).cell_spec(x as int, y as int).visited,
        ensures
            final(self).wf(),
            final(self).last_x == old(self).last_x,
            final(self).last_y == old(self).last_y,
            final(self).visits == old(self).visits,
            final(self).cells@ == old(self).cells@.update(
                cell_index(x as int, y as int),
                flip_if(old(self).cell_spec(x as int, y as int), true),
            ),
            final(self).total(CellPred::Flagged) == old(self).total(CellPred::Flagged),
            final(self).total(CellPred::Bomb) == old(self).total(CellPred::Bomb),
    {
        let blk = self.cells[x * 25 + y];
        let nb = match blk.block_type {
            BlockCell::GuessUp => BlockCell::GuessDown,
            BlockCell::BlankUp => BlockCell::Blank,
            BlockCell::GuessDown => BlockCell::GuessUp,
            BlockCell::Blank => BlockCell::BlankUp,
            _ => blk.block_type,
        };
        let newb = BlockInfo { bomb: blk.bomb, visited: blk.visited, block_type: nb };
        let ghost s0 = self.cells@;
        let ghost i = cell_index(x as int, y as int);
        proof {
            lemma_cell_update(s0, x as int, y as int, newb);
            lemma_seq_count_update(s0, CellPred::Visited, i, newb);
            lemma_seq_count_update(s0, CellPred::Flagged, i, newb);
            lemma_seq_count_update(s0, CellPred::Bomb, i, newb);
        }
        self.cells.set(x * 25 + y, newb);
        proof {
            lemma_adj_same_bombs(s0, self.cells@, self.last_x as int, self.last_y as int);
            assert forall|x2: int, y2: int|
                #![trigger cell_at(self.cells@, x2, y2)]
                in_board(x2, y2) && cell_at(self.cells@, x2, y2).visited implies !cell_at(
                self.cells@,
                x2,
                y2,
            ).bomb && cell_at(self.cells@, x2, y2).block_type == BlockCell::spec_from_u8(
                self.adj_bombs(x2, y2) as u8,
            ) by {
                assert(cell_at(self.cells@, x2, y2) == cell_at(s0, x2, y2));
            }
        }
    }

    /// Invert every hidden cell in the 3x3 neighbourhood of (`cx`, `cy`),
    /// row by row, drawing each one.
    #[verifier::rlimit(60)]
    pub fn invert_window(&mut self, effects: &mut Vec<Effect>, cx: usize, cy: usize)
        requires
            old(self).wf(),
            old(self).in_area(cx as int, cy as int),
        ensures
            final(self).wf(),
            final(self).last_x == old(self).last_x,
            final(self).last_y == old(self).last_y,
            final(self).visits == old(self).visits,
            forall|x: int, y: int|
                #![trigger cell_at(final(self).cells@, x, y)]
                in_board(x, y) ==> cell_at(final(self).cells@, x, y) == flip_if(
                    cell_at(old(self).cells@, x, y),
                    in_window(old(self).last_x as int, old(self).last_y as int, cx as int, cy as int, x, y),
                ),
            final(self).total(CellPred::Flagged) == old(self).total(CellPred::Flagged),
            final(self).total(CellPred::Bomb) == old(self).total(CellPred::Bomb),
            final(effects)@.len() >= old(effects)@.len(),
            final(effects)@.subrange(0, old(effects)@.len() as int) == old(effects)@,
            final(effects)@ == old(effects)@ + nbr_draws(
                old(self).cells@,
                old(self).last_x as int,
                old(self).last_y as int,
                cx as int,
                cy as int,
            ),
    {
        let ghost s0 = self.cells@;
        let ghost fx0 = effects@;
        let ghost lx = self.last_x as int;
        let ghost ly = self.last_y as int;
        let x0: usize = if cx == 0 {
            0
        } else {
            cx - 1
        };
        let x1: usize = if cx + 1 <= self.last_x {
            cx + 1
        } else {
            self.last_x
        };
        let y0: usize = if cy == 0 {
            0
        } else {
            cy - 1
        };
        let y1: usize = if cy + 1 <= self.last_y {
            cy + 1
        } else {
            self.last_y
        };
        assert(effects@ =~= fx0 + window_draws(s0, x0 as int, x1 as int, y0 as int, y0 as int));
        let mut y: usize = y0;
        while y <= y1
            invariant
                self.wf(),
                self.last_x as int == lx,
                self.last_y as int == ly,
                self.visits == old(self).visits,
                s0.len() == BOARD_LEN,
                x0 as int == nbr_lo(cx as int),
                x1 as int == nbr_hi(cx as int, lx),
                y0 as int == nbr_lo(cy as int),
                y1 as int == nbr_hi(cy as int, ly),
                x0 <= x1 < 30,
                y0 <= y1 < 25,
                y0 <= y <= y1 + 1,
                forall|x2: int, y2: int|
                    #![trigger cell_at(self.cells@, x2, y2)]
                    in_board(x2, y2) ==> cell_at(self.cells@, x2, y2) == flip_if(
                        cell_at(s0, x2, y2),
                        in_window(lx, ly, cx as int, cy as int, x2, y2) && y2 < y,
                    ),
                seq_count(self.cells@, CellPred::Flagged) == seq_count(s0, CellPred::Flagged),
                seq_count(self.cells@, CellPred::Bomb) == seq_count(s0, CellPred::Bomb),
                effects@.len() >= fx0.len(),
                effects@.subrange(0, fx0.len() as int) == fx0,
                effects@ == fx0 + window_draws(s0, x0 as int, x1 as int, y0 as int, y as int),
            decreases y1 + 1 - y,
        {
            let mut x: usize = x0;
            assert(effects@ =~= fx0 + window_draws(s0, x0 as int, x1 as int, y0 as int, y as int) + row_draws(s0, y as int, x0 as int, x0 as int));
            while x <= x1
                invariant
                    self.wf(),
                    self.last_x as int == lx,
                    self.last_y as int == ly,
                    self.visits == old(self).visits,
                    s0.len() == BOARD_LEN,
                    x0 as int == nbr_lo(cx as int),
                    x1 as int == nbr_hi(cx as int, lx),
                    y0 as int == nbr_lo(cy as int),
                    y1 as int == nbr_hi(cy as int, ly),
                    x0 <= x1 < 30,
                    y0 <= y <= y1,
                    y1 < 25,
                    x0 <= x <= x1 + 1,
                    forall|x2: int, y2: int|
                        #![trigger cell_at(self.cells@, x2, y2)]
                        in_board(x2, y2) ==> cell_at(self.cells@, x2, y2) == flip_if(
                            cell_at(s0, x2, y2),
                            in_window(lx, ly, cx as int, cy as int, x2, y2) && (y2 < y || (y2
                                == y && x2 < x)),
                        ),
                    seq_count(self.cells@, CellPred::Flagged) == seq_count(s0, CellPred::Flagged),
                    seq_count(self.cells@, CellPred::Bomb) == seq_count(s0, CellPred::Bomb),
                    effects@.len() >= fx0.len(),
                    effects@.subrange(0, fx0.len() as int) == fx0,
                    effects@ == fx0 + window_draws(s0, x0 as int, x1 as int, y0 as int, y as int) + row_draws(
                        s0,
                        y as int,
                        x0 as int,
                        x as int,
                    ),
                decreases x1 + 1 - x,
            {
                let c = self.cells[x * 25 + y];
                if !c.visited {
                    let ghost s1 = self.cells@;
                    proof {
                        assert(in_board(x as int, y as int));
                        assert(cell_at(s1, x as int, y as int) == cell_at(s0, x as int, y as int));
                    }
                    self.invert_box(x, y);
                    proof {
                        lemma_cell_update(s1, x as int, y as int, flip_if(cell_at(s1, x as int, y as int), true));
                    }
                    let nc = self.cells[x * 25 + y];
                    let ghost fx1 = effects@;
                    effects.push(Effect::DrawBlock { x, y, cell: nc.block_type });
                    assert(effects@.subrange(0, fx0.len() as int) =~= fx1.subrange(0, fx0.len() as int));
                    proof {
                        assert(nc.block_type == invert_cell(cell_at(s0, x as int, y as int).block_type));
                        lemma_draw_step(fx0 + window_draws(s0, x0 as int, x1 as int, y0 as int, y as int), fx1, effects@, s0, y as int, x0 as int, x as int);
                    }
                } else {
                    proof {
                        assert(in_board(x as int, y as int));
                        assert(cell_at(self.cells@, x as int, y as int) == cell_at(s0, x as int, y as int));
                        assert(row_draws(s0, y as int, x0 as int, x + 1) =~= row_draws(s0, y as int, x0 as int, x as int));
                        assert(effects@ =~= fx0 + window_draws(s0, x0 as int, x1 as int, y0 as int, y as int) + row_draws(s0, y as int, x0 as int, x + 1));
                    }
                }
                x += 1;
            }
            proof {
                assert(window_draws(s0, x0 as int, x1 as int, y0 as int, y + 1) == window_draws(
                    s0,
                    x0 as int,
                    x1 as int,
                    y0 as int,
                    y as int,
                ) + row_draws(s0, y as int, x0 as int, x1 + 1));
                assert(effects@ =~= fx0 + window_draws(s0, x0 as int, x1 as int, y0 as int, y + 1));
            }
            y += 1;
        }
    }

    /// Show the bombs at the end of a game (see `shown_cell`).
    #[verifier::rlimit(30)]
    pub fn show_bombs(&mut self, win: bool)
        requires
            old(self).wf(),
        ensures
            final(self).wf(),
            final(self).last_x == old(self).last_x,
            final(self).last_y == old(self).last_y,
            final(self).visits == old(self).visits,
            forall|x: int, y: int|
                #![trigger cell_at(final(self).cells@, x, y)]
                in_board(x, y) ==> cell_at(final(self).cells@, x, y) == if old(self).in_area(x, y) {
                    shown_cell(cell_at(old(self).cells@, x, y), win)
                } else {
                    cell_at(old(self).cells@, x, y)
                },
            final(self).total(CellPred::Bomb) == old(self).total(CellPred::Bomb),
    {
        let ghost s0 = self.cells@;
        let ghost lx = self.last_x as int;
        let ghost ly = self.last_y as int;
        let mut y: usize = 0;
        while y <= self.last_y
            invariant
                self.wf(),
                self.last_x as int == lx,
                self.last_y as int == ly,
                self.visits == old(self).visits,
                s0.len() == BOARD_LEN,
                0 <= y <= ly + 1,
                forall|x2: int, y2: int|
                    #![trigger cell_at(self.cells@, x2, y2)]
                    in_board(x2, y2) ==> cell_at(self.cells@, x2, y2) == if 0 <= x2 <= lx && 0
                        <= y2 < y {
                        shown_cell(cell_at(s0, x2, y2), win)
                    } else {
                        cell_at(s0, x2, y2)
                    },
                seq_count(self.cells@, CellPred::Bomb) == seq_count(s0, CellPred::Bomb),
            decreases ly + 1 - y,
        {
            let mut x: usize = 0;
            while x <= self.last_x
                invariant
                    self.wf(),
                    self.last_x as int == lx,
                    self.last_y as int == ly,
                    self.visits == old(self).visits,
                    s0.len() == BOARD_LEN,
                    0 <= y <= ly,
                    0 <= x <= lx + 1,
                    forall|x2: int, y2: int|
                        #![trigger cell_at(self.cells@, x2, y2)]
                        in_board(x2, y2) ==> cell_at(self.cells@, x2, y2) == if 0 <= x2 <= lx && (0
                            <= y2 < y || (y2 == y && 0 <= x2 < x)) {
                            shown_cell(cell_at(s0, x2, y2), win)
                        } else {
                            cell_at(s0, x2, y2)
                        },
                    seq_count(self.cells@, CellPred::Bomb) == seq_count(s0, CellPred::Bomb),
                decreases lx + 1 - x,
            {
                let c = self.cells[x * 25 + y];
                proof {
                    assert(in_board(x as int, y as int));
                }
                if !c.visited && c.block_type != BlockCell::Explode {
                    let mut nt = c.block_type;
                    if c.bomb {
                        if c.block_type != BlockCell::Flagged {
                            nt = if win {
                                BlockCell::Flagged
                            } else {
                                BlockCell::BombDown
                            };
                        }
                    } else if c.block_type == BlockCell::Flagged {
                        nt = BlockCell::Wrong;
                    }
                    let newb = BlockInfo { bomb: c.bomb, visited: c.visited, block_type: nt };
                    let ghost s1 = self.cells@;
                    let ghost i = cell_index(x as int, y as int);
                    proof {
                        lemma_cell_update(s1, x as int, y as int, newb);
                        lemma_seq_count_update(s1, CellPred::Visited, i, newb);
                        lemma_seq_count_update(s1, CellPred::Bomb, i, newb);
                    }
                    self.cells.set(x * 25 + y, newb);
                    proof {
                        lemma_adj_same_bombs(s1, self.cells@, lx, ly);
                        assert forall|x2: int, y2: int|
                            #![trigger cell_at(self.cells@, x2, y2)]
                            in_board(x2, y2) && cell_at(self.cells@, x2, y2).visited implies !cell_at(
                            self.cells@,
                            x2,
                            y2,
                        ).bomb && cell_at(self.cells@, x2, y2).block_type == BlockCell::spec_from_u8(
                            self.adj_bombs(x2, y2) as u8,
                        ) by {
                            assert(cell_at(self.cells@, x2, y2) == cell_at(s1, x2, y2));
                        }
                    }
                }
                x += 1;
            }
            y += 1;
        }
    }

    /// Reset every cell of the storage to a hidden raised cell without a bomb.
    pub fn clear_field(&mut self)
        requires
            old(self).cells@.len() == BOARD_LEN,
        ensures
            final(self).cells@.len() == BOARD_LEN,
            forall|i: int| 0 <= i < BOARD_LEN ==> #[trigger] final(self).cells@[i] == blank_up(),
            final(self).last_x == old(self).last_x,
            final(self).last_y == old(self).last_y,
            final(self).visits == old(self).visits,
    {
        let mut i: usize = 0;
        while i < BOARD_LEN
            invariant
                self.cells@.len() == BOARD_LEN,
                self.last_x == old(self).last_x,
                self.last_y == old(self).last_y,
                self.visits == old(self).visits,
                0 <= i <= BOARD_LEN,
                forall|j: int| 0 <= j < i ==> #[trigger] self.cells@[j] == blank_up(),
            decreases BOARD_LEN - i,
        {
            self.cells.set(i, BlockInfo::from(BlockCell::BlankUp));
            i += 1;
        }
    }
}


/// Number of bombs in the active area of `b`.
pub open spec fn area_bombs(b: Board) -> nat {
    count_rect(b.cells@, CellPred::Bomb, 0, b.last_x as int, 0, b.last_y as int)
}

/// Number of cells of the active area of `b`.
pub open spec fn area_size(b: Board) -> nat {
    ((b.last_x + 1) * (b.last_y + 1)) as nat
}

/// Changing one cell changes a row count by the difference of the
/// indicators when the cell lies in the counted range.
pub proof fn lemma_count_row_update(
    s: Seq<BlockInfo>,
    p: CellPred,
    y: int,
    x0: int,
    x1: int,
    x: int,
    yy: int,
    v: BlockInfo,
)
    requires
        s.len() == BOARD_LEN,
        in_board(x, yy),
        0 <= x0,
        x1 < 30,
        0 <= y < 25,
    ensures
        count_row(s.update(cell_index(x, yy), v), p, y, x0, x1) + (if y == yy && x0 <= x <= x1 {
            ind(p, cell_at(s, x, yy))
        } else {
            0
        }) == count_row(s, p, y, x0, x1) + (if y == yy && x0 <= x <= x1 {
            ind(p, v)
        } else {
            0
        }),
    decreases x1 - x0 + 1,
{
    lemma_cell_update(s, x, yy, v);
    if x1 >= x0 {
        lemma_count_row_update(s, p, y, x0, x1 - 1, x, yy, v);
        assert(in_board(x1, y));
    }
}

/// Changing one cell changes a rectangle count by the difference of the
/// indicators when the cell lies in the rectangle.
pub proof fn lemma_count_rect_update(
    s: Seq<BlockInfo>,
    p: CellPred,
    x0: int,
    x1: int,
    y0: int,
    y1: int,
    x: int,
    yy: int,
    v: BlockInfo,
)
    requires
        s.len() == BOARD_LEN,
        in_board(x, yy),
        0 <= x0,
        x1 < 30,
        0 <= y0,
        y1 < 25,
    ensures
        count_rect(s.update(cell_index(x, yy), v), p, x0, x1, y0, y1) + (if y0 <= yy <= y1 && x0
            <= x <= x1 {
            ind(p, cell_at(s, x, yy))
        } else {
            0
        }) == count_rect(s, p, x0, x1, y0, y1) + (if y0 <= yy <= y1 && x0 <= x <= x1 {
            ind(p, v)
        } else {
            0
        }),
    decreases y1 - y0 + 1,
{
    if y1 >= y0 {
        lemma_count_rect_update(s, p, x0, x1, y0, y1 - 1, x, yy, v);
        lemma_count_row_update(s, p, y1, x0, x1, x, yy, v);
    }
}

/// A row of at most three cells counts at most three.
pub proof fn lemma_count_row_le(s: Seq<BlockInfo>, p: CellPred, y: int, x0: int, x1: int)
    ensures
        count_row(s, p, y, x0, x1) <= if x1 >= x0 {
            x1 - x0 + 1
        } else {
            0
        },
    decreases x1 - x0 + 1,
{
    if x1 >= x0 {
        lemma_count_row_le(s, p, y, x0, x1 - 1);
    }
}

/// A neighbourhood counts at most 9 cells.
pub proof fn lemma_count_rect_le(s: Seq<BlockInfo>, p: CellPred, x0: int, x1: int, y0: int, y1: int)
    requires
        x1 - x0 <= 2,
    ensures
        count_rect(s, p, x0, x1, y0, y1) <= 3 * (if y1 >= y0 {
            y1 - y0 + 1
        } else {
            0
        }),
    decreases y1 - y0 + 1,
{
    if y1 >= y0 {
        lemma_count_rect_le(s, p, x0, x1, y0, y1 - 1);
        lemma_count_row_le(s, p, y1, x0, x1);
    }
}

/// The neighbour count of a cell is at most 9, so a revealed cell never
/// shows a flag.
pub proof fn lemma_adj_le_9(s: Seq<BlockInfo>, p: CellPred, lx: int, ly: int, x: int, y: int)
    requires
        0 <= x <= lx,
        0 <= y <= ly,
    ensures
        adj_count(s, p, lx, ly, x, y) <= 9,
        revealed_cell(adj_count(s, p, lx, ly, x, y)).block_type != BlockCell::Flagged,
{
    lemma_count_rect_le(s, p, nbr_lo(x), nbr_hi(x, lx), nbr_lo(y), nbr_hi(y, ly));
}

/// Revealing cells keeps the number of flags and of bombs in any rectangle.
pub proof fn lemma_reveal_keeps(old: Seq<BlockInfo>, new: Seq<BlockInfo>, lx: int, ly: int)
    requires
        old.len() == BOARD_LEN,
        0 <= lx < 30,
        0 <= ly < 25,
        reveal_step(old, new, lx, ly),
    ensures
        seq_count(new, CellPred::Flagged) == seq_count(old, CellPred::Flagged),
        seq_count(new, CellPred::Bomb) == seq_count(old, CellPred::Bomb),
        count_rect(new, CellPred::Bomb, 0, lx, 0, ly) == count_rect(old, CellPred::Bomb, 0, lx, 0, ly),
        forall|x: int, y: int|
            #![trigger cell_at(new, x, y)]
            in_board(x, y) ==> cell_at(new, x, y).bomb == cell_at(old, x, y).bomb && (cell_at(
                new,
                x,
                y,
            ).block_type == BlockCell::Flagged) == (cell_at(old, x, y).block_type
                == BlockCell::Flagged) && (cell_at(old, x, y).visited ==> cell_at(new, x, y)
                == cell_at(old, x, y)),
{
    assert forall|x: int, y: int|
        #![trigger cell_at(new, x, y)]
        in_board(x, y) implies cell_at(new, x, y).bomb == cell_at(old, x, y).bomb && (cell_at(
        new,
        x,
        y,
    ).block_type == BlockCell::Flagged) == (cell_at(old, x, y).block_type == BlockCell::Flagged)
        && (cell_at(old, x, y).visited ==> cell_at(new, x, y) == cell_at(old, x, y)) by {
        if cell_at(new, x, y) != cell_at(old, x, y) {
            lemma_adj_le_9(old, CellPred::Bomb, lx, ly, x, y);
        }
    }
    lemma_seq_count_same(old, new, CellPred::Flagged);
    lemma_seq_count_same(old, new, CellPred::Bomb);
    lemma_count_rect_same(old, new, CellPred::Bomb, 0, lx, 0, ly);
}

impl Board {
    /// Change the sprite of the hidden, unflagged cell (`x`, `y`) to
    /// `cell`, which is not a flag.
    pub fn set_hidden_sprite(&mut self, x: usize, y: usize, cell: BlockCell)
        requires
            old(self).wf(),
            old(self).in_area(x as int, y as int),
            !old(self).cell_spec(x as int, y as int).visited,
        ensures
            final(self).wf(),
            final(self).last_x == old(self).last_x,
            final(self).last_y == old(self).last_y,
            final(self).visits == old(self).visits,
            final(self).cells@ == old(self).cells@.update(
                cell_index(x as int, y as int),
                BlockInfo { block_type: cell, ..old(self).cell_spec(x as int, y as int) },
            ),
            final(self).total(CellPred::Flagged) + ind(
                CellPred::Flagged,
                old(self).cell_spec(x as int, y as int),
            ) == old(self).total(CellPred::Flagged) + (if cell == BlockCell::Flagged {
                1int
            } else {
                0
            }),
            area_bombs(*final(self)) == area_bombs(*old(self)),
    {
        let blk = self.cells[x * 25 + y];
        let newb = BlockInfo { bomb: blk.bomb, visited: blk.visited, block_type: cell };
        let ghost s0 = self.cells@;
        let ghost i = cell_index(x as int, y as int);
        proof {
            lemma_cell_update(s0, x as int, y as int, newb);
            lemma_seq_count_update(s0, CellPred::Visited, i, newb);
            lemma_seq_count_update(s0, CellPred::Flagged, i, newb);
            lemma_count_rect_update(
                s0,
                CellPred::Bomb,
                0,
                self.last_x as int,
                0,
                self.last_y as int,
                x as int,
                y as int,
                newb,
            );
        }
        self.cells.set(x * 25 + y, newb);
        proof {
            lemma_adj_same_bombs(s0, self.cells@, self.last_x as int, self.last_y as int);
            assert forall|x2: int, y2: int|
                #![trigger cell_at(self.cells@, x2, y2)]
                in_board(x2, y2) && cell_at(self.cells@, x2, y2).visited implies !cell_at(
                self.cells@,
                x2,
                y2,
            ).bomb && cell_at(self.cells@, x2, y2).block_type == BlockCell::spec_from_u8(
                self.adj_bombs(x2, y2) as u8,
            ) by {
                assert(cell_at(self.cells@, x2, y2) == cell_at(s0, x2, y2));
            }
        }
    }

    /// Set or clear the bomb of a cell of the area while no cell is revealed.
    pub fn set_bomb(&mut self, x: usize, y: usize, bomb: bool)
        requires
            old(self).wf(),
            old(self).visits == 0,
            old(self).in_area(x as int, y as int),
        ensures
            final(self).wf(),
            final(self).last_x == old(self).last_x,
            final(self).last_y == old(self).last_y,
            final(self).visits == 0,
            final(self).cells@ == old(self).cells@.update(
                cell_index(x as int, y as int),
                BlockInfo { bomb, ..old(self).cell_spec(x as int, y as int) },
            ),
            final(self).total(CellPred::Flagged) == old(self).total(CellPred::Flagged),
            area_bombs(*final(self)) + ind(CellPred::Bomb, old(self).cell_spec(x as int, y as int))
                == area_bombs(*old(self)) + (if bomb {
                1int
            } else {
                0
            }),
    {
        let blk = self.cells[x * 25 + y];
        let newb = BlockInfo { bomb, visited: blk.visited, block_type: blk.block_type };
        let ghost s0 = self.cells@;
        let ghost i = cell_index(x as int, y as int);
        proof {
            assert(in_board(x as int, y as int));
            lemma_seq_count_zero(s0, CellPred::Visited, i);
            lemma_cell_update(s0, x as int, y as int, newb);
            lemma_seq_count_update(s0, CellPred::Visited, i, newb);
            lemma_seq_count_update(s0, CellPred::Flagged, i, newb);
            lemma_count_rect_update(
                s0,
                CellPred::Bomb,
                0,
                self.last_x as int,
                0,
                self.last_y as int,
                x as int,
                y as int,
                newb,
            );
        }
        self.cells.set(x * 25 + y, newb);
        proof {
            assert forall|x2: int, y2: int|
                #![trigger cell_at(self.cells@, x2, y2)]
                in_board(x2, y2) implies !cell_at(self.cells@, x2, y2).visited by {
                lemma_seq_count_zero(s0, CellPred::Visited, cell_index(x2, y2));
            }
        }
    }
}


impl Board {
    /// Move the bomb under (`x`, `y`) to the first cell of the area without a
    /// bomb, scanning row by row. Returns whether such a cell exists; when
    /// none does, nothing changes.
    pub fn move_bomb_away(&mut self, x: usize, y: usize) -> (found: bool)
        requires
            old(self).wf(),
            old(self).visits == 0,
            old(self).in_area(x as int, y as int),
            old(self).cell_spec(x as int, y as int).bomb,
        ensures
            final(self).wf(),
            final(self).last_x == old(self).last_x,
            final(self).last_y == old(self).last_y,
            final(self).visits == 0,
            found == (exists|x2: int, y2: int|
                #![trigger cell_at(old(self).cells@, x2, y2)]
                old(self).in_area(x2, y2) && !cell_at(old(self).cells@, x2, y2).bomb),
            found ==> final(self).cell_spec(x as int, y as int) == (BlockInfo {
                bomb: false,
                ..old(self).cell_spec(x as int, y as int)
            }) && area_bombs(*final(self)) == area_bombs(*old(self)) && final(self).total(
                CellPred::Flagged,
            ) == old(self).total(CellPred::Flagged),
            found ==> ({
                let p = first_free_cell(old(self).cells@, old(self).last_x as int, old(self).last_y as int);
                final(self).cells@ == with_bomb(without_bomb(old(self).cells@, x as int, y as int), p.0, p.1)
            }),
            !found ==> *final(self) == *old(self),
    {
        let ghost lx = self.last_x as int;
        let ghost ly = self.last_y as int;
        let ghost b0 = *self;
        let mut y_t: usize = 0;
        while y_t <= self.last_y
            invariant
                *self == b0,
                *old(self) == b0,
                b0.wf(),
                b0.visits == 0,
                b0.in_area(x as int, y as int),
                b0.cell_spec(x as int, y as int).bomb,
                b0.last_x as int == lx,
                b0.last_y as int == ly,
                0 <= y_t <= ly + 1,
                forall|x2: int, y2: int|
                    #![trigger cell_at(b0.cells@, x2, y2)]
                    0 <= x2 <= lx && 0 <= y2 < y_t ==> cell_at(b0.cells@, x2, y2).bomb,
            decreases ly + 1 - y_t,
        {
            let mut x_t: usize = 0;
            while x_t <= self.last_x
                invariant
                    *self == b0,
                    *old(self) == b0,
                    b0.wf(),
                    b0.visits == 0,
                    b0.in_area(x as int, y as int),
                    b0.cell_spec(x as int, y as int).bomb,
                    b0.last_x as int == lx,
                    b0.last_y as int == ly,
                    0 <= y_t <= ly,
                    0 <= x_t <= lx + 1,
                    forall|x2: int, y2: int|
                        #![trigger cell_at(b0.cells@, x2, y2)]
                        0 <= x2 <= lx && (0 <= y2 < y_t || (y2 == y_t && x2 < x_t)) ==> cell_at(
                            b0.cells@,
                            x2,
                            y2,
                        ).bomb,
                decreases lx + 1 - x_t,
            {
                if !self.cell(x_t, y_t).bomb {
                    assert(b0.in_area(x_t as int, y_t as int) && !cell_at(
                        b0.cells@,
                        x_t as int,
                        y_t as int,
                    ).bomb);
                    proof {
                        assert(is_first_free(b0.cells@, lx, ly, x_t as int, y_t as int));
                        lemma_first_free_unique(b0.cells@, lx, ly, x_t as int, y_t as int);
                    }
                    self.relocate_bomb(x, y, x_t, y_t);
                    return true;
                }
                x_t += 1;
            }
            y_t += 1;
        }
        false
    }
}


impl Board {
    /// Move the bomb of (`x`, `y`) to the bomb-free cell (`x_t`, `y_t`)
    /// while no cell is revealed.
    fn relocate_bomb(&mut self, x: usize, y: usize, x_t: usize, y_t: usize)
        requires
            old(self).wf(),
            old(self).visits == 0,
            old(self).in_area(x as int, y as int),
            old(self).in_area(x_t as int, y_t as int),
            old(self).cell_spec(x as int, y as int).bomb,
            !old(self).cell_spec(x_t as int, y_t as int).bomb,
        ensures
            final(self).wf(),
            final(self).last_x == old(self).last_x,
            final(self).last_y == old(self).last_y,
            final(self).visits == 0,
            final(self).cell_spec(x as int, y as int) == (BlockInfo {
                bomb: false,
                ..old(self).cell_spec(x as int, y as int)
            }),
            final(self).cells@ == with_bomb(
                without_bomb(old(self).cells@, x as int, y as int),
                x_t as int,
                y_t as int,
            ),
            area_bombs(*final(self)) == area_bombs(*old(self)),
            final(self).total(CellPred::Flagged) == old(self).total(CellPred::Flagged),
    {
        let ghost b0 = *self;
        let c = self.cell(x, y);
        self.set_bomb(x, y, false);
        let ghost b1 = *self;
        self.set_bomb(x_t, y_t, true);
        proof {
            assert(in_board(x as int, y as int));
            assert(in_board(x_t as int, y_t as int));
            lemma_cell_update(b0.cells@, x as int, y as int, BlockInfo { bomb: false, ..c });
            lemma_cell_update(
                b1.cells@,
                x_t as int,
                y_t as int,
                BlockInfo { bomb: true, ..cell_at(b1.cells@, x_t as int, y_t as int) },
            );
        }
    }
}


/// Two reveals in a row are a reveal.
pub proof fn lemma_reveal_trans(a: Seq<BlockInfo>, b: Seq<BlockInfo>, c: Seq<BlockInfo>, lx: int, ly: int)
    requires
        a.len() == BOARD_LEN,
        0 <= lx < 30,
        0 <= ly < 25,
        reveal_step(a, b, lx, ly),
        reveal_step(b, c, lx, ly),
    ensures
        reveal_step(a, c, lx, ly),
{
    lemma_reveal_keeps(a, b, lx, ly);
    lemma_adj_same_bombs(a, b, lx, ly);
    assert forall|x: int, y: int|
        #![trigger cell_at(c, x, y)]
        in_board(x, y) implies {
        ||| cell_at(c, x, y) == cell_at(a, x, y)
        ||| {
            &&& 0 <= x <= lx
            &&& 0 <= y <= ly
            &&& !cell_at(a, x, y).visited
            &&& cell_at(a, x, y).block_type != BlockCell::Flagged
            &&& !cell_at(a, x, y).bomb
            &&& cell_at(c, x, y) == revealed_cell(adj_count(a, CellPred::Bomb, lx, ly, x, y))
        }
    } by {
        assert(cell_at(b, x, y) == cell_at(a, x, y) || cell_at(b, x, y).visited);
    }
}

/// Whether (`x`, `y`) was handled by the chord loop that reached row `yi`,
/// column `xi` of the neighbourhood of (`cx`, `cy`).
pub open spec fn chord_done(lx: int, ly: int, cx: int, cy: int, yi: int, xi: int, x: int, y: int) -> bool {
    in_window(lx, ly, cx, cy, x, y) && (y < yi || (y == yi && x < xi))
}

/// A cell of the neighbourhood of (`cx`, `cy`) holds a bomb that no flag
/// covers.
pub open spec fn chord_hits_bomb(s: Seq<BlockInfo>, lx: int, ly: int, cx: int, cy: int) -> bool {
    exists|x: int, y: int|
        #![trigger cell_at(s, x, y)]
        in_window(lx, ly, cx, cy, x, y) && cell_at(s, x, y).bomb && cell_at(s, x, y).block_type
            != BlockCell::Flagged
}

/// Every revealed cell of `s1` is unchanged in `s2`.
pub open spec fn visited_kept(s1: Seq<BlockInfo>, s2: Seq<BlockInfo>) -> bool {
    forall|x: int, y: int|
        #![trigger cell_at(s1, x, y)]
        in_board(x, y) && cell_at(s1, x, y).visited ==> cell_at(s2, x, y) == cell_at(s1, x, y)
}

/// Revealing cells leaves the revealed ones as they were.
proof fn lemma_reveal_keeps_visited(s1: Seq<BlockInfo>, s2: Seq<BlockInfo>, lx: int, ly: int)
    requires
        reveal_step(s1, s2, lx, ly),
    ensures
        visited_kept(s1, s2),
{
    assert forall|x: int, y: int| in_board(x, y) && #[trigger] cell_at(s1, x, y).visited implies cell_at(s2, x, y)
        == cell_at(s1, x, y) by {
        assert(cell_at(s2, x, y) == cell_at(s1, x, y) || !cell_at(s1, x, y).visited);
    }
}

/// Changing a hidden cell leaves the revealed ones as they were.
proof fn lemma_hidden_update_keeps(s: Seq<BlockInfo>, x: int, y: int, v: BlockInfo)
    requires
        s.len() == BOARD_LEN,
        in_board(x, y),
        !cell_at(s, x, y).visited,
    ensures
        visited_kept(s, s.update(cell_index(x, y), v)),
        visited_kept(s, s),
{
    lemma_cell_update(s, x, y, v);
}

/// Cells drawn as they changed stay drawn while revealed cells stay, and
/// more changes drawn may follow.
proof fn lemma_drawn_chain(
    orig: Seq<BlockInfo>,
    s1: Seq<BlockInfo>,
    s2: Seq<BlockInfo>,
    fx0: Seq<Effect>,
    f1: Seq<Effect>,
    f2: Seq<Effect>,
    lx: int,
    ly: int,
)
    requires
        changes_drawn(orig, s1, fx0, f1),
        changes_drawn(s1, s2, f1, f2),
        visited_kept(s1, s2),
        reveal_step(orig, s1, lx, ly),
        fx0.len() <= f1.len(),
        extends_fx(f1, f2),
    ensures
        changes_drawn(orig, s2, fx0, f2),
{
    assert forall|x: int, y: int| in_board(x, y) && #[trigger] cell_at(s2, x, y) != cell_at(orig, x, y) implies exists|k: int|
        fx0.len() <= k < f2.len() && #[trigger] f2[k] == Effect::DrawBlock {
            x: x as usize,
            y: y as usize,
            cell: cell_at(s2, x, y).block_type,
        } by {
        if cell_at(s2, x, y) != cell_at(s1, x, y) {
            let k = choose|k: int|
                f1.len() <= k < f2.len() && #[trigger] f2[k] == Effect::DrawBlock {
                    x: x as usize,
                    y: y as usize,
                    cell: cell_at(s2, x, y).block_type,
                };
        } else {
            assert(cell_at(s1, x, y) != cell_at(orig, x, y));
            assert(cell_at(s1, x, y).visited);
            let k = choose|k: int|
                fx0.len() <= k < f1.len() && #[trigger] f1[k] == Effect::DrawBlock {
                    x: x as usize,
                    y: y as usize,
                    cell: cell_at(s1, x, y).block_type,
                };
            assert(f2[k] == f2.subrange(0, f1.len() as int)[k]);
        }
    }
}

/// Effects that draw revealed cells keep doing so while revealed cells stay,
/// and more such effects may follow.
proof fn lemma_fx_chain(fx0: Seq<Effect>, f1: Seq<Effect>, f2: Seq<Effect>, b1: Board, b2: Board)
    requires
        fx_ok(fx0, f1, b1),
        fx_ok(f1, f2, b2),
        visited_kept(b1.cells@, b2.cells@),
        b1.last_x == b2.last_x,
        b1.last_y == b2.last_y,
        b1.last_x < 30,
        b1.last_y < 25,
    ensures
        fx_ok(fx0, f2, b2),
{
    assert forall|k: int| fx0.len() <= k < f2.len() implies draws_revealed(#[trigger] f2[k], b2) by {
        if k < f1.len() {
            assert(f2[k] == f2.subrange(0, f1.len() as int)[k]);
            assert(f2[k] == f1[k]);
            assert(draws_revealed(f1[k], b1));
            match f1[k] {
                Effect::DrawBlock { x, y, cell } => {
                    assert(in_board(x as int, y as int));
                    assert(cell_at(b1.cells@, x as int, y as int).visited);
                    assert(cell_at(b2.cells@, x as int, y as int) == cell_at(b1.cells@, x as int, y as int));
                },
                _ => {},
            }
        }
    }
    assert(f2.subrange(0, fx0.len() as int) =~= f1.subrange(0, fx0.len() as int)) by {
        assert forall|k: int| 0 <= k < fx0.len() implies f2[k] == f1[k] by {
            assert(f2[k] == f2.subrange(0, f1.len() as int)[k]);
        }
    }
}

/// The chord loop invariant.
#[verifier::opaque]
pub open spec fn chord_inv(
    orig: Seq<BlockInfo>,
    b: Board,
    lx: int,
    ly: int,
    cx: int,
    cy: int,
    yi: int,
    xi: int,
    lose: bool,
) -> bool {
    &&& b.wf()
    &&& b.last_x as int == lx
    &&& b.last_y as int == ly
    &&& 0 <= cx <= lx
    &&& 0 <= cy <= ly
    &&& orig.len() == BOARD_LEN
    &&& forall|x: int, y: int|
        #![trigger cell_at(b.cells@, x, y)]
        in_board(x, y) ==> cell_at(b.cells@, x, y).bomb == cell_at(orig, x, y).bomb && (cell_at(
            b.cells@,
            x,
            y,
        ).block_type == BlockCell::Flagged) == (cell_at(orig, x, y).block_type
            == BlockCell::Flagged)
    &&& seq_count(b.cells@, CellPred::Flagged) == seq_count(orig, CellPred::Flagged)
    &&& count_rect(b.cells@, CellPred::Bomb, 0, lx, 0, ly) == count_rect(orig, CellPred::Bomb, 0, lx, 0, ly)
    &&& !lose ==> reveal_step(orig, b.cells@, lx, ly)
    &&& lose == exists|x: int, y: int|
        #![trigger cell_at(orig, x, y)]
        chord_done(lx, ly, cx, cy, yi, xi, x, y) && cell_at(orig, x, y).bomb && cell_at(
            orig,
            x,
            y,
        ).block_type != BlockCell::Flagged
    &&& forall|x: int, y: int|
        #![trigger cell_at(b.cells@, x, y)]
        chord_done(lx, ly, cx, cy, yi, xi, x, y) && !cell_at(orig, x, y).bomb && cell_at(
            orig,
            x,
            y,
        ).block_type != BlockCell::Flagged ==> cell_at(b.cells@, x, y).visited
    &&& forall|x: int, y: int|
        #![trigger cell_at(b.cells@, x, y)]
        chord_done(lx, ly, cx, cy, yi, xi, x, y) && cell_at(orig, x, y).bomb && cell_at(
            orig,
            x,
            y,
        ).block_type != BlockCell::Flagged ==> cell_at(b.cells@, x, y).block_type == BlockCell::Explode
}

/// `new` is `orig` after a chord on (`cx`, `cy`): `lose` tells whether an
/// unflagged bomb lay around it; every unflagged cell around it without a bomb
/// is revealed, every unflagged bomb around it exploded; bombs and flags stay
/// where they were, and without a loss every change is a reveal.
pub open spec fn chord_result(orig: Seq<BlockInfo>, new: Seq<BlockInfo>, lx: int, ly: int, cx: int, cy: int, lose: bool) -> bool {
    &&& lose == chord_hits_bomb(orig, lx, ly, cx, cy)
    &&& !lose ==> reveal_step(orig, new, lx, ly)
    &&& forall|x: int, y: int|
        #![trigger cell_at(new, x, y)]
        in_board(x, y) ==> cell_at(new, x, y).bomb == cell_at(orig, x, y).bomb && (cell_at(new, x, y).block_type
            == BlockCell::Flagged) == (cell_at(orig, x, y).block_type == BlockCell::Flagged)
    &&& seq_count(new, CellPred::Flagged) == seq_count(orig, CellPred::Flagged)
    &&& forall|x: int, y: int|
        #![trigger cell_at(new, x, y)]
        in_window(lx, ly, cx, cy, x, y) && !cell_at(orig, x, y).bomb && cell_at(orig, x, y).block_type
            != BlockCell::Flagged ==> cell_at(new, x, y).visited
    &&& forall|x: int, y: int|
        #![trigger cell_at(new, x, y)]
        in_window(lx, ly, cx, cy, x, y) && cell_at(orig, x, y).bomb && cell_at(orig, x, y).block_type
            != BlockCell::Flagged ==> cell_at(new, x, y).block_type == BlockCell::Explode
}

impl Board {
    /// One cell of a chord: an unflagged bomb explodes, another unflagged
    /// cell is revealed with the empty region around it.
    fn chord_cell(
        &mut self,
        effects: &mut Vec<Effect>,
        Ghost(orig): Ghost<Seq<BlockInfo>>,
        cx: usize,
        cy: usize,
        yi: usize,
        xi: usize,
        lose: bool,
    ) -> (r: bool)
        requires
            chord_inv(orig, *old(self), old(self).last_x as int, old(self).last_y as int, cx as int, cy as int, yi as int, xi as int, lose),
            in_window(old(self).last_x as int, old(self).last_y as int, cx as int, cy as int, xi as int, yi as int),
        ensures
            chord_inv(orig, *final(self), old(self).last_x as int, old(self).last_y as int, cx as int, cy as int, yi as int, xi + 1, r),
            extends_fx(old(effects)@, final(effects)@),
            visited_kept(old(self).cells@, final(self).cells@),
            fx_ok(old(effects)@, final(effects)@, *final(self)),
            !r ==> changes_drawn(old(self).cells@, final(self).cells@, old(effects)@, final(effects)@),
            lose ==> r,
    {
        proof {
            lemma_chord_facts(orig, *self, self.last_x as int, self.last_y as int, cx as int, cy as int, yi as int, xi as int, lose);
            lemma_extends_fx_refl(effects@);
            assert(in_board(xi as int, yi as int));
            assert(effects@.subrange(0, effects@.len() as int) =~= effects@);
        }
        let c = self.cell(xi, yi);
        if c.block_type == BlockCell::Flagged {
            proof {
                lemma_chord_skip(orig, *self, self.last_x as int, self.last_y as int, cx as int, cy as int, yi as int, xi as int, lose);
                assert(visited_kept(self.cells@, self.cells@));
                assert(changes_drawn(self.cells@, self.cells@, effects@, effects@));
            }
            lose
        } else if c.bomb {
            self.chord_explode(Ghost(orig), cx, cy, yi, xi, lose);
            true
        } else {
            self.chord_step(effects, Ghost(orig), cx, cy, yi, xi, lose);
            lose
        }
    }

    /// A chord hit an unflagged bomb: it explodes.
    #[verifier::rlimit(40)]
    fn chord_explode(
        &mut self,
        Ghost(orig): Ghost<Seq<BlockInfo>>,
        cx: usize,
        cy: usize,
        yi: usize,
        xi: usize,
        lose: bool,
    )
        requires
            chord_inv(orig, *old(self), old(self).last_x as int, old(self).last_y as int, cx as int, cy as int, yi as int, xi as int, lose),
            in_window(old(self).last_x as int, old(self).last_y as int, cx as int, cy as int, xi as int, yi as int),
            old(self).cell_spec(xi as int, yi as int).bomb,
            old(self).cell_spec(xi as int, yi as int).block_type != BlockCell::Flagged,
        ensures
            chord_inv(orig, *final(self), old(self).last_x as int, old(self).last_y as int, cx as int, cy as int, yi as int, xi + 1, true),
            visited_kept(old(self).cells@, final(self).cells@),
    {
        let ghost lx = self.last_x as int;
        let ghost ly = self.last_y as int;
        let ghost b0 = *self;
        proof {
            reveal(chord_inv);
            assert(in_board(xi as int, yi as int));
        }
        let c = self.cell(xi, yi);
        self.set_hidden_sprite(xi, yi, BlockCell::Explode);
        proof {
            reveal(chord_inv);
            lemma_cell_update(
                b0.cells@,
                xi as int,
                yi as int,
                BlockInfo { block_type: BlockCell::Explode, ..c },
            );
            assert(chord_done(lx, ly, cx as int, cy as int, yi as int, xi + 1, xi as int, yi as int));
            assert(cell_at(orig, xi as int, yi as int).bomb && cell_at(orig, xi as int, yi as int).block_type != BlockCell::Flagged);
            assert forall|x: int, y: int|
                #![trigger cell_at(self.cells@, x, y)]
                chord_done(lx, ly, cx as int, cy as int, yi as int, xi + 1, x, y) && !cell_at(orig, x, y).bomb
                    && cell_at(orig, x, y).block_type != BlockCell::Flagged implies cell_at(
                self.cells@,
                x,
                y,
            ).visited by {
                assert(chord_done(lx, ly, cx as int, cy as int, yi as int, xi as int, x, y));
            }
            assert forall|x: int, y: int|
                #![trigger cell_at(self.cells@, x, y)]
                chord_done(lx, ly, cx as int, cy as int, yi as int, xi + 1, x, y) && cell_at(orig, x, y).bomb
                    && cell_at(orig, x, y).block_type != BlockCell::Flagged implies cell_at(
                self.cells@,
                x,
                y,
            ).block_type == BlockCell::Explode by {
                if !(x == xi && y == yi) {
                    assert(chord_done(lx, ly, cx as int, cy as int, yi as int, xi as int, x, y));
                }
            }
            lemma_hidden_update_keeps(b0.cells@, xi as int, yi as int, BlockInfo { block_type: BlockCell::Explode, ..c });
        }
    }

    /// A chord reached an unflagged cell without a bomb: reveal it.
    #[verifier::rlimit(40)]
    fn chord_step(
        &mut self,
        effects: &mut Vec<Effect>,
        Ghost(orig): Ghost<Seq<BlockInfo>>,
        cx: usize,
        cy: usize,
        yi: usize,
        xi: usize,
        lose: bool,
    )
        requires
            chord_inv(orig, *old(self), old(self).last_x as int, old(self).last_y as int, cx as int, cy as int, yi as int, xi as int, lose),
            in_window(old(self).last_x as int, old(self).last_y as int, cx as int, cy as int, xi as int, yi as int),
            !old(self).cell_spec(xi as int, yi as int).bomb,
            old(self).cell_spec(xi as int, yi as int).block_type != BlockCell::Flagged,
        ensures
            chord_inv(orig, *final(self), old(self).last_x as int, old(self).last_y as int, cx as int, cy as int, yi as int, xi + 1, lose),
            extends_fx(old(effects)@, final(effects)@),
            visited_kept(old(self).cells@, final(self).cells@),
            fx_ok(old(effects)@, final(effects)@, *final(self)),
            changes_drawn(old(self).cells@, final(self).cells@, old(effects)@, final(effects)@),
    {
        let ghost lx = self.last_x as int;
        let ghost ly = self.last_y as int;
        let ghost b0 = *self;
        proof {
            reveal(chord_inv);
        }
        let ghost fe = effects@;
        self.step_box(effects, xi, yi);
        proof {
            reveal(chord_inv);
            lemma_reveal_keeps_visited(b0.cells@, self.cells@, lx, ly);
            lemma_reveal_keeps(b0.cells@, self.cells@, lx, ly);
            if !lose {
                lemma_reveal_trans(orig, b0.cells@, self.cells@, lx, ly);
            }
            assert forall|x: int, y: int|
                chord_done(lx, ly, cx as int, cy as int, yi as int, xi + 1, x, y) && cell_at(orig, x, y).bomb
                    && cell_at(orig, x, y).block_type != BlockCell::Flagged implies #[trigger] chord_done(lx, ly, cx as int, cy as int, yi as int, xi as int, x, y) by {
                if x == xi && y == yi {
                    assert(in_board(x, y));
                }
            }
            assert forall|x: int, y: int|
                #![trigger cell_at(self.cells@, x, y)]
                chord_done(lx, ly, cx as int, cy as int, yi as int, xi + 1, x, y) && !cell_at(orig, x, y).bomb
                    && cell_at(orig, x, y).block_type != BlockCell::Flagged implies cell_at(
                self.cells@,
                x,
                y,
            ).visited by {
                if x == xi && y == yi {
                    assert(in_board(x, y));
                } else {
                    assert(chord_done(lx, ly, cx as int, cy as int, yi as int, xi as int, x, y));
                    assert(in_board(x, y));
                    assert(cell_at(b0.cells@, x, y).visited);
                }
            }
            assert forall|x: int, y: int|
                #![trigger cell_at(self.cells@, x, y)]
                chord_done(lx, ly, cx as int, cy as int, yi as int, xi + 1, x, y) && cell_at(orig, x, y).bomb
                    && cell_at(orig, x, y).block_type != BlockCell::Flagged implies cell_at(
                self.cells@,
                x,
                y,
            ).block_type == BlockCell::Explode by {
                assert(in_board(x, y));
                assert(cell_at(b0.cells@, x, y).bomb);
                if x == xi && y == yi {
                } else {
                    assert(chord_done(lx, ly, cx as int, cy as int, yi as int, xi as int, x, y));
                    assert(cell_at(b0.cells@, x, y).block_type == BlockCell::Explode);
                }
            }
        }
    }

    /// Reveal the unflagged cells around (`cx`, `cy`) row by row: a bomb
    /// explodes, any other cell is revealed with its empty region. Returns
    /// whether a bomb exploded.
    #[verifier::rlimit(60)]
    pub fn chord_reveal(&mut self, effects: &mut Vec<Effect>, cx: usize, cy: usize) -> (lose: bool)
        requires
            old(self).wf(),
            old(self).in_area(cx as int, cy as int),
        ensures
            final(self).wf(),
            final(self).last_x == old(self).last_x,
            final(self).last_y == old(self).last_y,
            count_rect(final(self).cells@, CellPred::Bomb, 0, old(self).last_x as int, 0, old(self).last_y as int)
                == count_rect(old(self).cells@, CellPred::Bomb, 0, old(self).last_x as int, 0, old(self).last_y as int),
            chord_result(
                old(self).cells@,
                final(self).cells@,
                old(self).last_x as int,
                old(self).last_y as int,
                cx as int,
                cy as int,
                lose,
            ),
            extends_fx(old(effects)@, final(effects)@),
            fx_ok(old(effects)@, final(effects)@, *final(self)),
            !lose ==> changes_drawn(old(self).cells@, final(self).cells@, old(effects)@, final(effects)@),
    {
        let ghost orig = self.cells@;
        let ghost lx = self.last_x as int;
        let ghost ly = self.last_y as int;
        let ghost fx0 = effects@;
        proof {
            assert(fx0.subrange(0, fx0.len() as int) =~= fx0);
        }
        let x0: usize = if cx == 0 {
            0
        } else {
            cx - 1
        };
        let x1: usize = if cx + 1 <= self.last_x {
            cx + 1
        } else {
            self.last_x
        };
        let y0: usize = if cy == 0 {
            0
        } else {
            cy - 1
        };
        let y1: usize = if cy + 1 <= self.last_y {
            cy + 1
        } else {
            self.last_y
        };
        let mut lose = false;
        proof {
            lemma_extends_fx_refl(effects@);
            lemma_chord_start(orig, *self, cx as int, cy as int, y0 as int);
        }
        let mut y: usize = y0;
        while y <= y1
            invariant
                chord_inv(orig, *self, lx, ly, cx as int, cy as int, y as int, 0, lose),
                extends_fx(fx0, effects@),
                fx_ok(fx0, effects@, *self),
                !lose ==> changes_drawn(orig, self.cells@, fx0, effects@),
                x0 as int == nbr_lo(cx as int),
                x1 as int == nbr_hi(cx as int, lx),
                y0 as int == nbr_lo(cy as int),
                y1 as int == nbr_hi(cy as int, ly),
                x0 <= x1 < 30,
                y0 <= y1 < 25,
                y0 <= y <= y1 + 1,
            decreases y1 + 1 - y,
        {
            let mut x: usize = x0;
            proof {
                assert forall|a: int, b: int| chord_done(lx, ly, cx as int, cy as int, y as int, 0, a, b)
                    == chord_done(lx, ly, cx as int, cy as int, y as int, x0 as int, a, b) by {}
                lemma_chord_row(orig, *self, lx, ly, cx as int, cy as int, y as int, 0, y as int, x0 as int, lose);
            }
            while x <= x1
                invariant
                    chord_inv(orig, *self, lx, ly, cx as int, cy as int, y as int, x as int, lose),
                    extends_fx(fx0, effects@),
                    fx_ok(fx0, effects@, *self),
                    !lose ==> changes_drawn(orig, self.cells@, fx0, effects@),
                    x0 as int == nbr_lo(cx as int),
                    x1 as int == nbr_hi(cx as int, lx),
                    y0 as int == nbr_lo(cy as int),
                    y1 as int == nbr_hi(cy as int, ly),
                    x0 <= x1 < 30,
                    y0 <= y <= y1,
                    y1 < 25,
                    x0 <= x <= x1 + 1,
                decreases x1 + 1 - x,
            {
                let ghost f1 = effects@;
                let ghost bb = *self;
                let ghost lose0 = lose;
                proof {
                    lemma_chord_facts(orig, *self, lx, ly, cx as int, cy as int, y as int, x as int, lose);
                    if !lose {
                        reveal(chord_inv);
                        assert(reveal_step(orig, self.cells@, lx, ly));
                    }
                }
                lose = self.chord_cell(effects, Ghost(orig), cx, cy, y, x, lose);
                proof {
                    if !lose {
                        assert(!lose0);
                        lemma_drawn_chain(orig, bb.cells@, self.cells@, fx0, f1, effects@, lx, ly);
                    }
                    lemma_extends_fx_trans(fx0, f1, effects@);
                    lemma_chord_facts(orig, *self, lx, ly, cx as int, cy as int, y as int, x + 1, lose);
                    lemma_fx_chain(fx0, f1, effects@, bb, *self);
                }
                x += 1;
            }
            proof {
                assert forall|a: int, b: int| chord_done(lx, ly, cx as int, cy as int, y as int, x as int, a, b)
                    == chord_done(lx, ly, cx as int, cy as int, y + 1, 0, a, b) by {}
                lemma_chord_row(orig, *self, lx, ly, cx as int, cy as int, y as int, x as int, y + 1, 0, lose);
            }
            y += 1;
        }
        proof {
            reveal(chord_inv);
            assert forall|a: int, b: int| chord_done(lx, ly, cx as int, cy as int, y as int, 0, a, b)
                == in_window(lx, ly, cx as int, cy as int, a, b) by {}
            if lose {
                let (a, b) = choose|a: int, b: int|
                    #![trigger cell_at(orig, a, b)]
                    chord_done(lx, ly, cx as int, cy as int, y as int, 0, a, b) && cell_at(orig, a, b).bomb
                        && cell_at(orig, a, b).block_type != BlockCell::Flagged;
                assert(in_window(lx, ly, cx as int, cy as int, a, b));
            }
            if chord_hits_bomb(orig, lx, ly, cx as int, cy as int) {
                let (a, b) = choose|a: int, b: int|
                    #![trigger cell_at(orig, a, b)]
                    in_window(lx, ly, cx as int, cy as int, a, b) && cell_at(orig, a, b).bomb
                        && cell_at(orig, a, b).block_type != BlockCell::Flagged;
                assert(chord_done(lx, ly, cx as int, cy as int, y as int, 0, a, b));
            }
            assert forall|a: int, b: int|
                #![trigger cell_at(self.cells@, a, b)]
                in_window(lx, ly, cx as int, cy as int, a, b) && !cell_at(orig, a, b).bomb && cell_at(orig, a, b).block_type
                    != BlockCell::Flagged implies cell_at(self.cells@, a, b).visited by {
                assert(chord_done(lx, ly, cx as int, cy as int, y as int, 0, a, b));
            }
            assert forall|a: int, b: int|
                #![trigger cell_at(self.cells@, a, b)]
                in_window(lx, ly, cx as int, cy as int, a, b) && cell_at(orig, a, b).bomb && cell_at(orig, a, b).block_type
                    != BlockCell::Flagged implies cell_at(self.cells@, a, b).block_type == BlockCell::Explode by {
                assert(chord_done(lx, ly, cx as int, cy as int, y as int, 0, a, b));
            }
        }
        lose
    }
}

/// `new` extends `old`.
pub open spec fn extends_fx(old: Seq<Effect>, new: Seq<Effect>) -> bool {
    new.len() >= old.len() && new.subrange(0, old.len() as int) == old
}

/// A sequence extends itself.
pub proof fn lemma_extends_fx_refl(a: Seq<Effect>)
    ensures
        extends_fx(a, a),
{
    assert(a.subrange(0, a.len() as int) =~= a);
}

/// Extension is transitive.
pub proof fn lemma_extends_fx_trans(a: Seq<Effect>, b: Seq<Effect>, c: Seq<Effect>)
    requires
        extends_fx(a, b),
        extends_fx(b, c),
    ensures
        extends_fx(a, c),
{
    assert(c.subrange(0, a.len() as int) =~= c.subrange(0, b.len() as int).subrange(0, a.len() as int));
}


/// What the chord invariant says of the board.
pub proof fn lemma_chord_facts(orig: Seq<BlockInfo>, b: Board, lx: int, ly: int, cx: int, cy: int, yi: int, xi: int, lose: bool)
    requires
        chord_inv(orig, b, lx, ly, cx, cy, yi, xi, lose),
    ensures
        b.wf(),
        b.last_x as int == lx,
        b.last_y as int == ly,
        0 <= cx <= lx,
        0 <= cy <= ly,
        orig.len() == BOARD_LEN,
        forall|x: int, y: int|
            #![trigger cell_at(b.cells@, x, y)]
            in_board(x, y) ==> cell_at(b.cells@, x, y).bomb == cell_at(orig, x, y).bomb && (cell_at(
                b.cells@,
                x,
                y,
            ).block_type == BlockCell::Flagged) == (cell_at(orig, x, y).block_type
                == BlockCell::Flagged),
        seq_count(b.cells@, CellPred::Flagged) == seq_count(orig, CellPred::Flagged),
        count_rect(b.cells@, CellPred::Bomb, 0, lx, 0, ly) == count_rect(orig, CellPred::Bomb, 0, lx, 0, ly),
        !lose ==> reveal_step(orig, b.cells@, lx, ly),
{
    reveal(chord_inv);
}

/// A flagged cell is skipped by the chord.
#[verifier::rlimit(60)]
pub proof fn lemma_chord_skip(orig: Seq<BlockInfo>, b: Board, lx: int, ly: int, cx: int, cy: int, yi: int, xi: int, lose: bool)
    requires
        chord_inv(orig, b, lx, ly, cx, cy, yi, xi, lose),
        in_window(lx, ly, cx, cy, xi, yi),
        b.cell_spec(xi, yi).block_type == BlockCell::Flagged,
    ensures
        chord_inv(orig, b, lx, ly, cx, cy, yi, xi + 1, lose),
{
    reveal(chord_inv);
    assert(in_board(xi, yi));
    assert forall|x: int, y: int|
        #![trigger cell_at(b.cells@, x, y)]
        chord_done(lx, ly, cx, cy, yi, xi + 1, x, y) && !cell_at(orig, x, y).bomb && cell_at(orig, x, y).block_type
            != BlockCell::Flagged implies cell_at(b.cells@, x, y).visited by {
        assert(chord_done(lx, ly, cx, cy, yi, xi, x, y));
    }
    assert forall|x: int, y: int|
        #![trigger cell_at(b.cells@, x, y)]
        chord_done(lx, ly, cx, cy, yi, xi + 1, x, y) && cell_at(orig, x, y).bomb && cell_at(orig, x, y).block_type
            != BlockCell::Flagged implies cell_at(b.cells@, x, y).block_type == BlockCell::Explode by {
        assert(chord_done(lx, ly, cx, cy, yi, xi, x, y));
    }
    assert forall|x: int, y: int|
        chord_done(lx, ly, cx, cy, yi, xi + 1, x, y) && cell_at(orig, x, y).bomb && cell_at(orig, x, y).block_type
            != BlockCell::Flagged implies #[trigger] chord_done(lx, ly, cx, cy, yi, xi, x, y) by {
        if x == xi && y == yi {
            assert(in_board(x, y));
        }
    }
}

/// The chord invariant before any cell is handled.
pub proof fn lemma_chord_start(orig: Seq<BlockInfo>, b: Board, cx: int, cy: int, yi: int)
    requires
        b.wf(),
        b.cells@ == orig,
        b.in_area(cx, cy),
        yi == nbr_lo(cy),
    ensures
        chord_inv(orig, b, b.last_x as int, b.last_y as int, cx, cy, yi, 0, false),
{
    reveal(chord_inv);
    assert(reveal_step(orig, orig, b.last_x as int, b.last_y as int));
}

/// Moving to the next row of the chord (or from column 0 to the first
/// column of the window) keeps the invariant.
pub proof fn lemma_chord_row(orig: Seq<BlockInfo>, b: Board, lx: int, ly: int, cx: int, cy: int, yi: int, xi: int, yj: int, xj: int, lose: bool)
    requires
        chord_inv(orig, b, lx, ly, cx, cy, yi, xi, lose),
        forall|x: int, y: int| chord_done(lx, ly, cx, cy, yi, xi, x, y) == chord_done(lx, ly, cx, cy, yj, xj, x, y),
    ensures
        chord_inv(orig, b, lx, ly, cx, cy, yj, xj, lose),
{
    reveal(chord_inv);
    assert forall|x: int, y: int|
        chord_done(lx, ly, cx, cy, yj, xj, x, y) && cell_at(orig, x, y).bomb && cell_at(orig, x, y).block_type
            != BlockCell::Flagged implies #[trigger] chord_done(lx, ly, cx, cy, yi, xi, x, y) by {}
    if lose {
        let (x, y) = choose|x: int, y: int|
            #![trigger cell_at(orig, x, y)]
            chord_done(lx, ly, cx, cy, yi, xi, x, y) && cell_at(orig, x, y).bomb && cell_at(orig, x, y).block_type
                != BlockCell::Flagged;
        assert(chord_done(lx, ly, cx, cy, yj, xj, x, y));
    }
}


/// A rectangle where no cell has the property counts zero.
pub proof fn lemma_count_rect_none(s: Seq<BlockInfo>, p: CellPred, x0: int, x1: int, y0: int, y1: int)
    requires
        forall|x: int, y: int| x0 <= x <= x1 && y0 <= y <= y1 ==> !holds(p, #[trigger] cell_at(s, x, y)),
    ensures
        count_rect(s, p, x0, x1, y0, y1) == 0,
    decreases y1 - y0 + 1,
{
    if y1 >= y0 {
        lemma_count_rect_none(s, p, x0, x1, y0, y1 - 1);
        lemma_count_row_none(s, p, y1, x0, x1);
    }
}

/// A row where no cell has the property counts zero.
pub proof fn lemma_count_row_none(s: Seq<BlockInfo>, p: CellPred, y: int, x0: int, x1: int)
    requires
        forall|x: int| x0 <= x <= x1 ==> !holds(p, #[trigger] cell_at(s, x, y)),
    ensures
        count_row(s, p, y, x0, x1) == 0,
    decreases x1 - x0 + 1,
{
    if x1 >= x0 {
        lemma_count_row_none(s, p, y, x0, x1 - 1);
    }
}

/// A row where every cell has the property counts all its cells.
pub proof fn lemma_count_row_full(s: Seq<BlockInfo>, p: CellPred, y: int, x0: int, x1: int)
    requires
        x0 <= x1 + 1,
        forall|x: int| x0 <= x <= x1 ==> holds(p, #[trigger] cell_at(s, x, y)),
    ensures
        count_row(s, p, y, x0, x1) == x1 - x0 + 1,
    decreases x1 - x0 + 1,
{
    if x1 >= x0 {
        lemma_count_row_full(s, p, y, x0, x1 - 1);
    }
}

/// A rectangle where every cell has the property counts all its cells.
pub proof fn lemma_count_rect_full(s: Seq<BlockInfo>, p: CellPred, x0: int, x1: int, y0: int, y1: int)
    requires
        x0 <= x1 + 1,
        y0 <= y1 + 1,
        forall|x: int, y: int| x0 <= x <= x1 && y0 <= y <= y1 ==> holds(p, #[trigger] cell_at(s, x, y)),
    ensures
        count_rect(s, p, x0, x1, y0, y1) == (x1 - x0 + 1) * (y1 - y0 + 1),
    decreases y1 - y0 + 1,
{
    if y1 >= y0 {
        lemma_count_rect_full(s, p, x0, x1, y0, y1 - 1);
        lemma_count_row_full(s, p, y1, x0, x1);
        assert((x1 - x0 + 1) * (y1 - 1 - y0 + 1) + (x1 - x0 + 1) == (x1 - x0 + 1) * (y1 - y0 + 1)) by (nonlinear_arith);
    } else {
        assert((x1 - x0 + 1) * (y1 - y0 + 1) == 0) by (nonlinear_arith)
            requires
                y1 - y0 + 1 == 0,
        ;
    }
}

impl Board {
    /// Make the area `lx + 1` by `ly + 1` cells, all hidden, raised and
    /// without bombs, with no cell revealed.
    pub fn reset(&mut self, lx: usize, ly: usize)
        requires
            old(self).cells@.len() == BOARD_LEN,
            lx < 30,
            ly < 25,
        ensures
            final(self).wf(),
            final(self).last_x == lx,
            final(self).last_y == ly,
            final(self).visits == 0,
            forall|i: int| 0 <= i < BOARD_LEN ==> #[trigger] final(self).cells@[i] == blank_up(),
            area_bombs(*final(self)) == 0,
            final(self).total(CellPred::Flagged) == 0,
    {
        self.clear_field();
        self.last_x = lx;
        self.last_y = ly;
        self.visits = 0;
        proof {
            assert forall|x: int, y: int| in_board(x, y) implies #[trigger] cell_at(self.cells@, x, y) == blank_up() by {
                lemma_index_cell(cell_index(x, y));
            }
            lemma_seq_count_none(self.cells@, CellPred::Visited);
            lemma_seq_count_none(self.cells@, CellPred::Flagged);
            assert forall|x: int, y: int| 0 <= x <= lx && 0 <= y <= ly implies !holds(
                CellPred::Bomb,
                #[trigger] cell_at(self.cells@, x, y),
            ) by {
                assert(in_board(x, y));
            }
            lemma_count_rect_none(self.cells@, CellPred::Bomb, 0, lx as int, 0, ly as int);
        }
    }

    /// The first cell of the area without a bomb, row by row.
    pub fn first_free(&self) -> (r: Option<(usize, usize)>)
        requires
            self.wf(),
        ensures
            r matches Some((x, y)) ==> self.in_area(x as int, y as int) && !self.cell_spec(x as int, y as int).bomb
                && first_free_cell(self.cells@, self.last_x as int, self.last_y as int) == (x as int, y as int),
            r is None ==> forall|x: int, y: int|
                self.in_area(x, y) ==> #[trigger] cell_at(self.cells@, x, y).bomb,
    {
        let mut y: usize = 0;
        while y <= self.last_y
            invariant
                self.wf(),
                0 <= y <= self.last_y + 1,
                forall|x2: int, y2: int|
                    #![trigger cell_at(self.cells@, x2, y2)]
                    0 <= x2 <= self.last_x && 0 <= y2 < y ==> cell_at(self.cells@, x2, y2).bomb,
            decreases self.last_y + 1 - y,
        {
            let mut x: usize = 0;
            while x <= self.last_x
                invariant
                    self.wf(),
                    0 <= y <= self.last_y,
                    0 <= x <= self.last_x + 1,
                    forall|x2: int, y2: int|
                        #![trigger cell_at(self.cells@, x2, y2)]
                        0 <= x2 <= self.last_x && (0 <= y2 < y || (y2 == y && x2 < x)) ==> cell_at(
                            self.cells@,
                            x2,
                            y2,
                        ).bomb,
                decreases self.last_x + 1 - x,
            {
                if !self.cell(x, y).bomb {
                    proof {
                        lemma_first_free_unique(self.cells@, self.last_x as int, self.last_y as int, x as int, y as int);
                    }
                    return Some((x, y));
                }
                x += 1;
            }
            y += 1;
        }
        None
    }

    /// Place one more bomb on a cell of the area without one, while no cell
    /// is revealed: cells are drawn at random (column, then row, each as
    /// `rnd` of the width and the height) until one without a bomb comes up.
    /// The generator's state has 2^32 values, so after 2^32 draws without a
    /// free cell it would repeat itself forever; the first free cell, row by
    /// row, is taken then.
    pub fn place_random_bomb(&mut self, rng: &mut Rng)
        requires
            old(self).wf(),
            old(self).visits == 0,
            area_bombs(*old(self)) < area_size(*old(self)),
        ensures
            final(self).wf(),
            final(self).last_x == old(self).last_x,
            final(self).last_y == old(self).last_y,
            final(self).visits == 0,
            (final(self).cells@, final(rng).state) == place_from(
                old(self).cells@,
                old(self).last_x as int,
                old(self).last_y as int,
                old(rng).state,
                0,
            ),
            exists|x: int, y: int|
                #![trigger cell_at(old(self).cells@, x, y)]
                old(self).in_area(x, y) && !cell_at(old(self).cells@, x, y).bomb && final(self).cells@
                    == old(self).cells@.update(
                    cell_index(x, y),
                    BlockInfo { bomb: true, ..cell_at(old(self).cells@, x, y) },
                ),
            area_bombs(*final(self)) == area_bombs(*old(self)) + 1,
            final(self).total(CellPred::Flagged) == old(self).total(CellPred::Flagged),
    {
        let ghost c0 = self.cells@;
        let ghost g0 = rng.state;
        let ghost lx = self.last_x as int;
        let ghost ly = self.last_y as int;
        let width: u32 = (self.last_x + 1) as u32;
        let height: u32 = (self.last_y + 1) as u32;
        let mut tries: u64 = 0;
        let mut spot: Option<(usize, usize)> = None;
        while tries < DRAW_LIMIT && spot.is_none()
            invariant
                self.wf(),
                *self == *old(self),
                c0 == self.cells@,
                lx == self.last_x,
                ly == self.last_y,
                width as int == self.last_x + 1,
                height as int == self.last_y + 1,
                self.last_x < 30,
                self.last_y < 25,
                tries <= DRAW_LIMIT,
                spot is None ==> place_from(c0, lx, ly, g0, 0) == place_from(c0, lx, ly, rng.state, tries as nat),
                spot matches Some((x, y)) ==> self.in_area(x as int, y as int) && !self.cell_spec(
                    x as int,
                    y as int,
                ).bomb && place_from(c0, lx, ly, g0, 0) == (with_bomb(c0, x as int, y as int), rng.state),
            decreases DRAW_LIMIT - tries,
        {
            let ghost g = rng.state;
            let x = rnd(rng, width) as usize;
            let y = rnd(rng, height) as usize;
            proof {
                assert(place_from(c0, lx, ly, g, tries as nat) == if !cell_at(c0, x as int, y as int).bomb {
                    (with_bomb(c0, x as int, y as int), rng.state)
                } else {
                    place_from(c0, lx, ly, rng.state, (tries + 1) as nat)
                });
            }
            if !self.cell(x, y).bomb {
                spot = Some((x, y));
            }
            tries += 1;
        }
        if spot.is_none() {
            proof {
                assert(place_from(c0, lx, ly, rng.state, tries as nat) == (
                    with_bomb(c0, first_free_cell(c0, lx, ly).0, first_free_cell(c0, lx, ly).1),
                    rng.state,
                ));
            }
            spot = self.first_free();
        }
        match spot {
            Some((x, y)) => {
                self.set_bomb(x, y, true);
                proof {
                    assert(cell_at(old(self).cells@, x as int, y as int) == old(self).cell_spec(x as int, y as int));
                    assert(self.cells@ == with_bomb(c0, x as int, y as int));
                }
            },
            None => {
                proof {
                    lemma_count_rect_full(self.cells@, CellPred::Bomb, 0, self.last_x as int, 0, self.last_y as int);
                }
            },
        }
    }
}

/// Two boards with the same area and the same bombs cell by cell have as
/// many bombs in the area.
pub proof fn lemma_same_bombs_area(a: Board, b: Board)
    requires
        a.last_x == b.last_x,
        a.last_y == b.last_y,
        a.last_x < 30,
        a.last_y < 25,
        forall|x: int, y: int|
            #![trigger cell_at(b.cells@, x, y)]
            in_board(x, y) ==> cell_at(b.cells@, x, y).bomb == cell_at(a.cells@, x, y).bomb,
    ensures
        area_bombs(a) == area_bombs(b),
{
    assert forall|x: int, y: int| 0 <= x <= a.last_x && 0 <= y <= a.last_y implies holds(
        CellPred::Bomb,
        #[trigger] cell_at(a.cells@, x, y),
    ) == holds(CellPred::Bomb, cell_at(b.cells@, x, y)) by {
        assert(in_board(x, y));
    }
    lemma_count_rect_same(a.cells@, b.cells@, CellPred::Bomb, 0, a.last_x as int, 0, a.last_y as int);
}

} // verus!

//! The rules of the game: the cells, the status flags, the timer and the
//! state machine that reacts to mouse, keyboard and timer events.

use vstd::prelude::*;

use crate::board::{
    changes_drawn, flipped_cells, invert_cell, nbr_draws, draws_revealed, flood_filled, flood_from, adj_count, area_bombs, area_size, blank_up, cell_index, cell_at, chord_hits_bomb, flip_if, in_board,
    in_window, lemma_reveal_keeps, lemma_seq_count_le, reveal_step, shown_cell, Board,
    CellPred, BOARD_LEN,
};
use crate::geometry::{pt_in_rect, spec_pt_in_rect, Point};
use crate::grafix::{layout_ok, spec_button_rect, trunc_div, ButtonSprite, GrafixState, COORD_MAX};
use crate::pref::{best_time_of, GameType, Pref};
use crate::sound::Sound;
use crate::util::{seed_rng, Rng};
use crate::placement::{first_free_cell, lay_from, with_bomb, without_bomb};

verus! {

/// Maximum number of horizontal board cells.
pub const MAX_X_BLKS: usize = 30;
/// Maximum number of vertical board cells.
pub const MAX_Y_BLKS: usize = 25;
/// Timer identifier used for the per-second gameplay timer.
pub const ID_TIMER: usize = 1;

/// Visual state of a board cell; the sprite index is `value()`.
#[derive(Clone, Copy, PartialEq, Eq, Debug, Structural)]
pub enum BlockCell {
    /// A blank cell with no adjacent bombs (also the pressed blank).
    Blank,
    /// A cell with 1 adjacent bomb.
    One,
    /// A cell with 2 adjacent bombs.
    Two,
    /// A cell with 3 adjacent bombs.
    Three,
    /// A cell with 4 adjacent bombs.
    Four,
    /// A cell with 5 adjacent bombs.
    Five,
    /// A cell with 6 adjacent bombs.
    Six,
    /// A cell with 7 adjacent bombs.
    Seven,
    /// A cell with 8 adjacent bombs.
    Eight,
    /// The pressed version of the guess (?) mark.
    GuessDown,
    /// A revealed bomb.
    BombDown,
    /// A flag placed on a cell without a bomb.
    Wrong,
    /// The detonated bomb.
    Explode,
    /// The raised guess (?) mark.
    GuessUp,
    /// A flagged cell.
    Flagged,
    /// A raised, unrevealed cell.
    BlankUp,
}

impl BlockCell {
    /// The sprite index of the cell.
    pub open spec fn spec_value(self) -> u8 {
        match self {
            BlockCell::Blank => 0,
            BlockCell::One => 1,
            BlockCell::Two => 2,
            BlockCell::Three => 3,
            BlockCell::Four => 4,
            BlockCell::Five => 5,
            BlockCell::Six => 6,
            BlockCell::Seven => 7,
            BlockCell::Eight => 8,
            BlockCell::GuessDown => 9,
            BlockCell::BombDown => 10,
            BlockCell::Wrong => 11,
            BlockCell::Explode => 12,
            BlockCell::GuessUp => 13,
            BlockCell::Flagged => 14,
            BlockCell::BlankUp => 15,
        }
    }

    /// The cell whose sprite index is `v`; values above 15 give `Blank`.
    pub open spec fn spec_from_u8(v: u8) -> BlockCell {
        if v == 0 {
            BlockCell::Blank
        } else if v == 1 {
            BlockCell::One
        } else if v == 2 {
            BlockCell::Two
        } else if v == 3 {
            BlockCell::Three
        } else if v == 4 {
            BlockCell::Four
        } else if v == 5 {
            BlockCell::Five
        } else if v == 6 {
            BlockCell::Six
        } else if v == 7 {
            BlockCell::Seven
        } else if v == 8 {
            BlockCell::Eight
        } else if v == 9 {
            BlockCell::GuessDown
        } else if v == 10 {
            BlockCell::BombDown
        } else if v == 11 {
            BlockCell::Wrong
        } else if v == 12 {
            BlockCell::Explode
        } else if v == 13 {
            BlockCell::GuessUp
        } else if v == 14 {
            BlockCell::Flagged
        } else if v == 15 {
            BlockCell::BlankUp
        } else {
            BlockCell::Blank
        }
    }

    /// The sprite index of the cell.
    pub fn value(self) -> (r: u8)
        ensures
            r == self.spec_value(),
            r < 16,
    {
        match self {
            BlockCell::Blank => 0,
            BlockCell::One => 1,
            BlockCell::Two => 2,
            BlockCell::Three => 3,
            BlockCell::Four => 4,
            BlockCell::Five => 5,
            BlockCell::Six => 6,
            BlockCell::Seven => 7,
            BlockCell::Eight => 8,
            BlockCell::GuessDown => 9,
            BlockCell::BombDown => 10,
            BlockCell::Wrong => 11,
            BlockCell::Explode => 12,
            BlockCell::GuessUp => 13,
            BlockCell::Flagged => 14,
            BlockCell::BlankUp => 15,
        }
    }

    /// The cell whose sprite index is `v`; values above 15 give `Blank`.
    pub fn from_u8(v: u8) -> (r: BlockCell)
        ensures
            r == Self::spec_from_u8(v),
    {
        if v == 0 {
            BlockCell::Blank
        } else if v == 1 {
            BlockCell::One
        } else if v == 2 {
            BlockCell::Two
        } else if v == 3 {
            BlockCell::Three
        } else if v == 4 {
            BlockCell::Four
        } else if v == 5 {
            BlockCell::Five
        } else if v == 6 {
            BlockCell::Six
        } else if v == 7 {
            BlockCell::Seven
        } else if v == 8 {
            BlockCell::Eight
        } else if v == 9 {
            BlockCell::GuessDown
        } else if v == 10 {
            BlockCell::BombDown
        } else if v == 11 {
            BlockCell::Wrong
        } else if v == 12 {
            BlockCell::Explode
        } else if v == 13 {
            BlockCell::GuessUp
        } else if v == 14 {
            BlockCell::Flagged
        } else if v == 15 {
            BlockCell::BlankUp
        } else {
            BlockCell::Blank
        }
    }
}

impl From<u8> for BlockCell {
    /// Convert a sprite index to a cell; values above 15 give `Blank`.
    fn from(value: u8) -> (r: Self) {
        BlockCell::from_u8(value)
    }
}

impl vstd::std_specs::convert::FromSpecImpl<u8> for BlockCell {
    open spec fn obeys_from_spec() -> bool {
        true
    }

    open spec fn from_spec(v: u8) -> Self {
        BlockCell::spec_from_u8(v)
    }
}

/// Information about a single block on the board.
#[derive(Clone, Copy, PartialEq, Eq, Debug, Structural)]
pub struct BlockInfo {
    /// Whether the block contains a bomb.
    pub bomb: bool,
    /// Whether the block has been revealed.
    pub visited: bool,
    /// The visual representation of the block.
    pub block_type: BlockCell,
}

impl From<BlockCell> for BlockInfo {
    /// A block without bomb, not revealed, showing `cell`.
    fn from(cell: BlockCell) -> (r: Self) {
        BlockInfo { bomb: false, visited: false, block_type: cell }
    }
}

impl vstd::std_specs::convert::FromSpecImpl<BlockCell> for BlockInfo {
    open spec fn obeys_from_spec() -> bool {
        true
    }

    open spec fn from_spec(v: BlockCell) -> Self {
        BlockInfo { bomb: false, visited: false, block_type: v }
    }
}

/// An action that the window has to carry out after the state changed, in
/// the order in which the state machine produced it.
#[derive(Clone, Copy, PartialEq, Eq, Debug, Structural)]
pub enum Effect {
    /// Draw the cell at (`x`, `y`) with the sprite `cell`.
    DrawBlock { x: usize, y: usize, cell: BlockCell },
    /// Draw every cell of the active board area as it currently stands.
    DrawGrid,
    /// Draw the face button with the given sprite.
    DrawButton(ButtonSprite),
    /// Draw the bomb counter showing the given value.
    DrawBombCount(i16),
    /// Draw the timer showing the given number of seconds.
    DrawTimer(u16),
    /// Play a tune.
    PlaySound(Sound),
    /// Stop every sound that is playing.
    StopSounds,
    /// Start the one-second window timer.
    StartTimer,
    /// A new best time was recorded: ask for the player's name.
    NewRecord,
    /// Paint the top-left screen pixel black (a bomb) or white (no bomb).
    XyzzyPixel { bomb: bool },
}


/// Flags defining the current game status.
#[derive(Clone, Copy, PartialEq, Eq, Debug, Structural)]
pub struct StatusFlag {
    /// A game is being played.
    pub play: bool,
    /// The game is paused.
    pub pause: bool,
    /// The window is minimized.
    pub minimized: bool,
    /// The game is over (win or loss).
    pub game_over: bool,
}

/// Adjustments needed for the main window.
#[derive(Clone, Copy, PartialEq, Eq, Debug, Structural)]
pub struct AdjustFlag {
    /// The window has to be resized.
    pub resize: bool,
    /// The window has to be redrawn.
    pub redraw: bool,
}

/// The state of the in-game timer.
#[derive(Clone, Copy, PartialEq, Eq, Debug, Structural)]
pub enum TimerState {
    /// The timer is not running.
    Stopped,
    /// The timer runs and counts seconds.
    Running,
    /// The timer is paused until resumed.
    Paused,
}

/// The in-game timer: its state and the elapsed seconds (at most 999).
#[derive(Clone, Copy, PartialEq, Eq, Debug, Structural)]
pub struct Timer {
    /// Whether the timer runs, is paused or stopped.
    pub state: TimerState,
    /// Elapsed seconds.
    pub elapsed: u16,
}

impl Timer {
    /// A stopped timer at zero.
    pub fn new() -> (r: Timer)
        ensures
            r.state == TimerState::Stopped,
            r.elapsed == 0,
    {
        Timer { state: TimerState::Stopped, elapsed: 0 }
    }

    /// Start the timer.
    pub fn start(&mut self)
        ensures
            final(self).state == TimerState::Running,
            final(self).elapsed == old(self).elapsed,
    {
        self.state = TimerState::Running;
    }

    /// Pause the timer if it runs.
    pub fn pause(&mut self)
        ensures
            final(self).state == if old(self).state == TimerState::Running {
                TimerState::Paused
            } else {
                old(self).state
            },
            final(self).elapsed == old(self).elapsed,
    {
        if self.state == TimerState::Running {
            self.state = TimerState::Paused;
        }
    }

    /// Resume the timer if it is paused.
    pub fn resume(&mut self)
        ensures
            final(self).state == if old(self).state == TimerState::Paused {
                TimerState::Running
            } else {
                old(self).state
            },
            final(self).elapsed == old(self).elapsed,
    {
        if self.state == TimerState::Paused {
            self.state = TimerState::Running;
        }
    }

    /// Stop the timer.
    pub fn stop(&mut self)
        ensures
            final(self).state == TimerState::Stopped,
            final(self).elapsed == old(self).elapsed,
    {
        self.state = TimerState::Stopped;
    }

    /// Count one second if the timer runs and has not reached 999; returns
    /// whether it counted.
    pub fn tick(&mut self) -> (r: bool)
        ensures
            r == (old(self).state == TimerState::Running && old(self).elapsed < 999),
            final(self).elapsed == if r {
                old(self).elapsed + 1
            } else {
                old(self).elapsed as int
            },
            final(self).state == old(self).state,
    {
        if self.state == TimerState::Running && self.elapsed < 999 {
            self.elapsed += 1;
            true
        } else {
            false
        }
    }

    /// Stop the timer and reset it to zero.
    pub fn reset(&mut self)
        ensures
            final(self).state == TimerState::Stopped,
            final(self).elapsed == 0,
    {
        self.stop();
        self.elapsed = 0;
    }
}

/// Bits of the mouse-key state that come with a mouse message.
pub const MK_LBUTTON: u16 = 0x0001;
/// Right button down.
pub const MK_RBUTTON: u16 = 0x0002;
/// Shift key down.
pub const MK_SHIFT: u16 = 0x0004;
/// Control key down.
pub const MK_CONTROL: u16 = 0x0008;
/// Middle button down.
pub const MK_MBUTTON: u16 = 0x0010;

/// A column or row index computed from a pixel offset: the truncated
/// quotient, converted to `usize` as Rust's `as` does (a negative quotient
/// wraps around to the top of the range).
pub open spec fn spec_box_coord(v: int, off: int, cell: int) -> usize {
    let q = trunc_div(v - off, cell);
    if q >= 0 {
        q as usize
    } else {
        (usize::MAX as int + 1 + q) as usize
    }
}

/// The board cell under a point.
pub open spec fn spec_box_from_point(g: GrafixState, pos: Point) -> (usize, usize) {
    (
        spec_box_coord(pos.x as int, g.dims.left_space as int, g.dims.block.cx as int),
        spec_box_coord(pos.y as int, g.dims.grid_offset as int, g.dims.block.cx as int),
    )
}

/// A point whose coordinates keep the layout arithmetic in range.
pub open spec fn point_ok(p: Point) -> bool {
    -COORD_MAX <= p.x <= COORD_MAX && -COORD_MAX <= p.y <= COORD_MAX
}

/// Represents the current state of the game.
pub struct GameState {
    /// Window geometry used for hit testing and drawing.
    pub grafix: GrafixState,
    /// Current user preferences.
    pub prefs: Pref,
    /// Current game status.
    pub game_status: StatusFlag,
    /// The mine field.
    pub board: Board,
    /// Current face button sprite.
    pub btn_face_state: ButtonSprite,
    /// Whether the face button is being pressed.
    pub btn_face_pressed: bool,
    /// Bombs left to mark (negative when more cells are flagged than there
    /// are bombs).
    pub bombs_left: i16,
    /// Current cursor column in board coordinates.
    pub cursor_x: usize,
    /// Current cursor row in board coordinates.
    pub cursor_y: usize,
    /// The next click is ignored (after the window was activated by it).
    pub ignore_next_click: bool,
    /// A chord operation is active (both buttons, the middle button, or
    /// Shift with the left button).
    pub chord_active: bool,
    /// A drag with a button held over the board is active.
    pub drag_active: bool,
    /// Number of bombs placed at the start of the game.
    pub total_bombs: i16,
    /// Number of revealed cells needed to win.
    pub boxes_to_win: u16,
    /// The in-game timer.
    pub timer: Timer,
    /// Random number generator used for bomb placement.
    pub rng: Rng,
    /// Progress through the XYZZY key sequence.
    pub xyzzy_progress: usize,
    /// Actions for the window, in order.
    pub effects: Vec<Effect>,
}

impl GameState {
    /// Well-formedness: the board is well formed, the timer shows at most
    /// 999, the XYZZY progress is a reachable value, the bomb total fits the
    /// storage, and during play the bomb counter is the number of bombs minus
    /// the number of flags and the cells to reveal to win are the cells of
    /// the area without a bomb.
    pub open spec fn wf(&self) -> bool {
        &&& self.board.wf()
        &&& self.timer.elapsed <= 999
        &&& (self.xyzzy_progress <= 5 || self.xyzzy_progress == 17)
        &&& 0 <= self.total_bombs <= 750
        &&& self.game_status.play ==> self.bombs_left as int + self.board.total(CellPred::Flagged)
            == self.total_bombs as int
        &&& self.game_status.play ==> self.boxes_to_win as int == area_size(self.board) - area_bombs(
            self.board,
        )
    }

    /// A new game state: an empty 1 x 1 board of raised cells, the window
    /// minimized and no game in progress, the generator seeded with `seed`.
    pub fn new(seed: u16) -> (r: GameState)
        ensures
            r.wf(),
            r.game_status == (StatusFlag { play: false, pause: false, minimized: true, game_over: true }),
            r.board.last_x == 0,
            r.board.last_y == 0,
            r.board.visits == 0,
            forall|i: int| 0 <= i < BOARD_LEN ==> #[trigger] r.board.cells@[i] == blank_up(),
            r.btn_face_state == ButtonSprite::Happy,
            !r.btn_face_pressed,
            r.bombs_left == 0,
            r.cursor_x == 0 && r.cursor_y == 0,
            !r.ignore_next_click && !r.chord_active && !r.drag_active,
            r.total_bombs == 0,
            r.boxes_to_win == 0,
            r.timer == (Timer { state: TimerState::Stopped, elapsed: 0 }),
            r.rng.state == seed as u32,
            r.xyzzy_progress == 0,
            r.effects@.len() == 0,
            r.grafix.wnd_pos == (Point { x: 0, y: 0 }),
            crate::pref::default_pref(r.prefs),
    {
        GameState {
            grafix: GrafixState::new(),
            prefs: Pref::new(),
            game_status: StatusFlag { play: false, pause: false, minimized: true, game_over: true },
            board: Board::new(),
            btn_face_state: ButtonSprite::Happy,
            btn_face_pressed: false,
            bombs_left: 0,
            cursor_x: 0,
            cursor_y: 0,
            ignore_next_click: false,
            chord_active: false,
            drag_active: false,
            total_bombs: 0,
            boxes_to_win: 0,
            timer: Timer::new(),
            rng: seed_rng(seed),
            xyzzy_progress: 0,
            effects: Vec::new(),
        }
    }

    /// Whether (`x`, `y`) lies on the board.
    pub fn in_range(&self, x: usize, y: usize) -> (r: bool)
        ensures
            r == self.board.in_area(x as int, y as int),
    {
        self.board.in_range(x, y)
    }

    /// The board cell under a point (see `spec_box_coord`).
    pub fn box_from_point(&self, pos: Point) -> (r: (usize, usize))
        requires
            layout_ok(self.grafix),
            point_ok(pos),
        ensures
            r == spec_box_from_point(self.grafix, pos),
    {
        let cell = self.grafix.dims.block.cx;
        (
            box_coord(pos.x - self.grafix.dims.left_space, cell),
            box_coord(pos.y - self.grafix.dims.grid_offset, cell),
        )
    }

    /// Whether every cell needed to win has been revealed.
    pub fn check_win(&self) -> (r: bool)
        ensures
            r == (self.board.visits == self.boxes_to_win),
    {
        self.board.visits == self.boxes_to_win
    }

    /// Number of flagged cells adjacent to (`x_center`, `y_center`), the cell
    /// itself left out.
    pub fn count_marks(&self, x_center: usize, y_center: usize) -> (r: u8)
        requires
            self.board.wf(),
            self.board.in_area(x_center as int, y_center as int),
        ensures
            r as int == crate::board::adj_count(
                self.board.cells@,
                CellPred::Flagged,
                self.board.last_x as int,
                self.board.last_y as int,
                x_center as int,
                y_center as int,
            ) - crate::board::ind(CellPred::Flagged, self.board.cell_spec(x_center as int, y_center as int)),
            r <= 8,
    {
        let n = self.board.count_adjacent(x_center, y_center, CellPred::Flagged);
        let c = self.board.cell(x_center, y_center);
        proof {
            let s = self.board.cells@;
            let lx = self.board.last_x as int;
            let ly = self.board.last_y as int;
            let x = x_center as int;
            let y = y_center as int;
            let v = BlockInfo { block_type: BlockCell::Flagged, ..c };
            assert(in_board(x, y));
            crate::board::lemma_count_rect_update(
                s,
                CellPred::Flagged,
                crate::board::nbr_lo(x),
                crate::board::nbr_hi(x, lx),
                crate::board::nbr_lo(y),
                crate::board::nbr_hi(y, ly),
                x,
                y,
                v,
            );
            crate::board::lemma_adj_le_9(s.update(cell_index(x, y), v), CellPred::Flagged, lx, ly, x, y);
            crate::board::lemma_count_rect_update(
                s,
                CellPred::Flagged,
                crate::board::nbr_lo(x),
                crate::board::nbr_hi(x, lx),
                crate::board::nbr_lo(y),
                crate::board::nbr_hi(y, ly),
                x,
                y,
                BlockInfo { block_type: BlockCell::BlankUp, ..c },
            );
        }
        if c.block_type == BlockCell::Flagged {
            n - 1
        } else {
            n
        }
    }
}

/// A column or row index from a pixel offset (see `spec_box_coord`).
fn box_coord(d: i32, cell: i32) -> (r: usize)
    requires
        cell > 0,
    ensures
        r == spec_box_coord(d as int, 0, cell as int),
{
    let q: i32 = if d >= 0 {
        d / cell
    } else {
        -((-(d as i64)) / cell as i64) as i32
    };
    if q >= 0 {
        q as usize
    } else {
        usize::MAX - ((-(q as i64) - 1) as usize)
    }
}


/// Whether the cell (`x`, `y`) is inverted when the pointer leaves the old
/// cursor position (first component) and when it enters (`x_new`, `y_new`)
/// (second component). During a chord the whole 3x3 neighbourhoods take part,
/// otherwise only the single cells.
pub open spec fn spec_track_flips(s: GameState, x_new: usize, y_new: usize, x: int, y: int) -> (
    bool,
    bool,
) {
    let lx = s.board.last_x as int;
    let ly = s.board.last_y as int;
    let valid_old = s.board.in_area(s.cursor_x as int, s.cursor_y as int);
    let valid_new = s.board.in_area(x_new as int, y_new as int);
    if s.chord_active && s.game_status.play {
        (
            valid_old && in_window(lx, ly, s.cursor_x as int, s.cursor_y as int, x, y),
            valid_new && in_window(lx, ly, x_new as int, y_new as int, x, y),
        )
    } else {
        (
            valid_old && x == s.cursor_x && y == s.cursor_y,
            valid_new && x == x_new && y == y_new,
        )
    }
}

/// The draws of the cells the pointer leaves and enters when it moves to
/// (`x_new`, `y_new`), in the order they change: during a chord the hidden
/// cells of the old neighbourhood, then those of the new one (see
/// `nbr_draws`); otherwise the old cell when hidden, then the new one when it
/// is hidden and unflagged. Each shows its inverted sprite.
#[verifier::opaque]
pub open spec fn spec_track_draws(s: GameState, x_new: usize, y_new: usize) -> Seq<Effect> {
    let lx = s.board.last_x as int;
    let ly = s.board.last_y as int;
    let cx = s.cursor_x as int;
    let cy = s.cursor_y as int;
    let valid_old = s.board.in_area(cx, cy);
    let valid_new = s.board.in_area(x_new as int, y_new as int);
    if s.chord_active && s.game_status.play {
        (if valid_old {
            nbr_draws(s.board.cells@, lx, ly, cx, cy)
        } else {
            Seq::empty()
        }) + (if valid_new {
            nbr_draws(flipped_cells(s.board.cells@, lx, ly, cx, cy, valid_old), lx, ly, x_new as int, y_new as int)
        } else {
            Seq::empty()
        })
    } else {
        let c0 = s.board.cell_spec(cx, cy);
        let c1 = flip_if(s.board.cell_spec(x_new as int, y_new as int), valid_old && x_new == s.cursor_x && y_new == s.cursor_y);
        (if valid_old && !c0.visited {
            seq![Effect::DrawBlock { x: s.cursor_x, y: s.cursor_y, cell: invert_cell(c0.block_type) }]
        } else {
            Seq::empty()
        }) + (if valid_new && !c1.visited && c1.block_type != BlockCell::Flagged {
            seq![Effect::DrawBlock { x: x_new, y: y_new, cell: invert_cell(c1.block_type) }]
        } else {
            Seq::empty()
        })
    }
}

/// The board of `new` is the board of `old` after the pointer moved to
/// (`x_new`, `y_new`): the cells it leaves come back up, the cells it enters
/// go down, hidden cells only; each changed cell is drawn (see
/// `spec_track_draws`) and nothing else.
pub open spec fn mouse_tracked(old: GameState, new: GameState, x_new: usize, y_new: usize) -> bool {
    &&& new.effects@ == old.effects@ + spec_track_draws(old, x_new, y_new)
    &&& new.board.last_x == old.board.last_x
    &&& new.board.last_y == old.board.last_y
    &&& new.board.visits == old.board.visits
    &&& new.board.cells@.len() == old.board.cells@.len()
    &&& forall|x: int, y: int|
        #![trigger cell_at(new.board.cells@, x, y)]
        in_board(x, y) ==> cell_at(new.board.cells@, x, y) == flip_if(
            flip_if(cell_at(old.board.cells@, x, y), spec_track_flips(old, x_new, y_new, x, y).0),
            spec_track_flips(old, x_new, y_new, x, y).1,
        )
}

/// Every field but the board, the cursor and the effects is the same.
pub open spec fn same_but_board_cursor(a: GameState, b: GameState) -> bool {
    &&& a.grafix == b.grafix
    &&& a.prefs == b.prefs
    &&& a.game_status == b.game_status
    &&& a.btn_face_state == b.btn_face_state
    &&& a.btn_face_pressed == b.btn_face_pressed
    &&& a.bombs_left == b.bombs_left
    &&& a.ignore_next_click == b.ignore_next_click
    &&& a.chord_active == b.chord_active
    &&& a.drag_active == b.drag_active
    &&& a.total_bombs == b.total_bombs
    &&& a.boxes_to_win == b.boxes_to_win
    &&& a.timer == b.timer
    &&& a.rng == b.rng
    &&& a.xyzzy_progress == b.xyzzy_progress
}

/// `new` extends `old`.
pub open spec fn extends(old: Seq<Effect>, new: Seq<Effect>) -> bool {
    new.len() >= old.len() && new.subrange(0, old.len() as int) == old
}

/// Extension is transitive.
pub proof fn lemma_extends_trans(a: Seq<Effect>, b: Seq<Effect>, c: Seq<Effect>)
    requires
        extends(a, b),
        extends(b, c),
    ensures
        extends(a, c),
{
    assert(c.subrange(0, a.len() as int) =~= c.subrange(0, b.len() as int).subrange(0, a.len() as int));
}

/// A sequence extends itself.
pub proof fn lemma_extends_refl(a: Seq<Effect>)
    ensures
        extends(a, a),
{
    assert(a.subrange(0, a.len() as int) =~= a);
}

/// `new` is `old` after the pointer held down moved to (`x_new`, `y_new`):
/// nothing changes when it stays on the same cell; otherwise the cells it
/// leaves are lifted and the cells it enters pressed (see `mouse_tracked`)
/// and the cursor follows.
pub open spec fn moved_to(old: GameState, new: GameState, x_new: usize, y_new: usize) -> bool {
    &&& same_but_board_cursor(old, new)
    &&& (x_new == old.cursor_x && y_new == old.cursor_y) ==> new.board == old.board && new.effects@
        == old.effects@ && new.cursor_x == old.cursor_x && new.cursor_y == old.cursor_y
    &&& !(x_new == old.cursor_x && y_new == old.cursor_y) ==> mouse_tracked(old, new, x_new, y_new)
        && new.cursor_x == x_new && new.cursor_y == y_new
}

/// `new` is `old` after a move of the pointer while the face button is
/// pressed: the button is drawn down over it, else with the current face.
pub open spec fn face_moved(old: GameState, new: GameState, point: Point) -> bool {
    &&& new.effects@ == old.effects@.push(
        Effect::DrawButton(
            if spec_pt_in_rect(spec_button_rect(old.grafix), point) {
                ButtonSprite::Down
            } else {
                old.btn_face_state
            },
        ),
    )
    &&& new == (GameState { effects: new.effects, ..old })
}

/// Whether the XYZZY cheat shows cells: typed and Control held, or toggled
/// on with Shift.
pub open spec fn xyzzy_on(s: GameState, key: u16) -> bool {
    (s.xyzzy_progress == XYZZY_LENGTH && (key & MK_CONTROL) != 0) || s.xyzzy_progress > XYZZY_LENGTH
}

/// `new` is `old` after a move of the pointer with no button held: when the
/// cheat is on the cursor follows the pointer and, over the board, the screen
/// pixel tells whether the cell under it holds a bomb.
pub open spec fn xyzzy_moved(old: GameState, new: GameState, key: u16, point: Point) -> bool {
    let on = xyzzy_on(old, key);
    let (bx, by) = spec_box_from_point(old.grafix, point);
    &&& !on ==> new == old
    &&& on ==> new.cursor_x == bx && new.cursor_y == by
    &&& on && old.board.in_area(bx as int, by as int) ==> new.effects@ == old.effects@.push(
        Effect::XyzzyPixel { bomb: old.board.cell_spec(bx as int, by as int).bomb },
    )
    &&& on && !old.board.in_area(bx as int, by as int) ==> new.effects@ == old.effects@
    &&& on ==> new == (GameState {
        cursor_x: new.cursor_x,
        cursor_y: new.cursor_y,
        effects: new.effects,
        ..old
    })
}

/// `new` is `old` after a drag began: the cursor leaves the board and the
/// face turns to caution.
pub open spec fn drag_begun(old: GameState, new: GameState) -> bool {
    &&& new == (GameState {
        drag_active: true,
        cursor_x: (usize::MAX - 1) as usize,
        cursor_y: (usize::MAX - 1) as usize,
        effects: new.effects,
        ..old
    })
    &&& new.effects@ == old.effects@.push(Effect::DrawButton(ButtonSprite::Caution))
}

/// The expected XYZZY key at each position of the sequence.
pub open spec fn xyzzy_key(i: int) -> u16 {
    if i == 0 {
        0x58
    } else if i == 1 {
        0x59
    } else if i == 2 {
        0x5A
    } else if i == 3 {
        0x5A
    } else {
        0x59
    }
}

/// Length of the XYZZY key sequence.
pub const XYZZY_LENGTH: usize = 5;
/// Virtual key of F4 (toggles the sound).
pub const VK_F4: u16 = 0x73;
/// Virtual key of Shift (toggles the XYZZY cheat).
pub const VK_SHIFT: u16 = 0x10;

/// The draws of a move of the pointer outside a chord (see
/// `spec_track_draws`), from those of its two steps.
proof fn lemma_single_draws(s0: GameState, s1: GameState, e: Seq<Effect>, x_new: usize, y_new: usize)
    requires
        !(s0.chord_active && s0.game_status.play),
        s1.effects@ == s0.effects@ + if s0.board.in_area(s0.cursor_x as int, s0.cursor_y as int)
            && !s0.board.cell_spec(s0.cursor_x as int, s0.cursor_y as int).visited {
            seq![Effect::DrawBlock { x: s0.cursor_x, y: s0.cursor_y, cell: invert_cell(s0.board.cell_spec(s0.cursor_x as int, s0.cursor_y as int).block_type) }]
        } else {
            Seq::empty()
        },
        s1.board.last_x == s0.board.last_x,
        s1.board.last_y == s0.board.last_y,
        s0.board.in_area(x_new as int, y_new as int) ==> s1.board.cell_spec(x_new as int, y_new as int) == flip_if(
            s0.board.cell_spec(x_new as int, y_new as int),
            s0.board.in_area(s0.cursor_x as int, s0.cursor_y as int) && x_new == s0.cursor_x && y_new == s0.cursor_y,
        ),
        e == s1.effects@ + if s1.board.in_area(x_new as int, y_new as int) && !s1.board.cell_spec(x_new as int, y_new as int).visited
            && s1.board.cell_spec(x_new as int, y_new as int).block_type != BlockCell::Flagged {
            seq![Effect::DrawBlock { x: x_new, y: y_new, cell: invert_cell(s1.board.cell_spec(x_new as int, y_new as int).block_type) }]
        } else {
            Seq::empty()
        },
    ensures
        e == s0.effects@ + spec_track_draws(s0, x_new, y_new),
{
    reveal(spec_track_draws);
    assert(e =~= s0.effects@ + spec_track_draws(s0, x_new, y_new));
}

/// The draws of a move of the pointer during a chord (see
/// `spec_track_draws`), from those of its two steps.
proof fn lemma_chord_draws(s0: GameState, mid: Seq<BlockInfo>, f1: Seq<Effect>, e: Seq<Effect>, x_new: usize, y_new: usize)
    requires
        s0.chord_active && s0.game_status.play,
        f1 == s0.effects@ + if s0.board.in_area(s0.cursor_x as int, s0.cursor_y as int) {
            nbr_draws(s0.board.cells@, s0.board.last_x as int, s0.board.last_y as int, s0.cursor_x as int, s0.cursor_y as int)
        } else {
            Seq::empty()
        },
        mid == flipped_cells(
            s0.board.cells@,
            s0.board.last_x as int,
            s0.board.last_y as int,
            s0.cursor_x as int,
            s0.cursor_y as int,
            s0.board.in_area(s0.cursor_x as int, s0.cursor_y as int),
        ),
        e == f1 + if s0.board.in_area(x_new as int, y_new as int) {
            nbr_draws(mid, s0.board.last_x as int, s0.board.last_y as int, x_new as int, y_new as int)
        } else {
            Seq::empty()
        },
    ensures
        e == s0.effects@ + spec_track_draws(s0, x_new, y_new),
{
    reveal(spec_track_draws);
    assert(e =~= s0.effects@ + spec_track_draws(s0, x_new, y_new));
}

impl GameState {
    /// Invert the cell (`x`, `y`) if it lies on the board and is hidden, and
    /// draw it.
    #[verifier::rlimit(30)]
    fn flip_one(&mut self, x: usize, y: usize)
        requires
            old(self).wf(),
        ensures
            final(self).wf(),
            same_but_board_cursor(*old(self), *final(self)),
            final(self).cursor_x == old(self).cursor_x,
            final(self).cursor_y == old(self).cursor_y,
            final(self).board.last_x == old(self).board.last_x,
            final(self).board.last_y == old(self).board.last_y,
            final(self).board.visits == old(self).board.visits,
            final(self).board.cells@.len() == old(self).board.cells@.len(),
            forall|x2: int, y2: int|
                #![trigger cell_at(final(self).board.cells@, x2, y2)]
                in_board(x2, y2) ==> cell_at(final(self).board.cells@, x2, y2) == flip_if(
                    cell_at(old(self).board.cells@, x2, y2),
                    old(self).board.in_area(x as int, y as int) && x2 == x && y2 == y,
                ),
            final(self).board.total(CellPred::Flagged) == old(self).board.total(CellPred::Flagged),
            extends(old(self).effects@, final(self).effects@),
            final(self).effects@ == old(self).effects@ + if old(self).board.in_area(x as int, y as int)
                && !old(self).board.cell_spec(x as int, y as int).visited {
                seq![Effect::DrawBlock { x, y, cell: invert_cell(old(self).board.cell_spec(x as int, y as int).block_type) }]
            } else {
                Seq::empty()
            },
    {
        let ghost s0 = self.board.cells@;
        if self.board.in_range(x, y) && !self.board.cell(x, y).visited {
            self.board.invert_box(x, y);
            proof {
                crate::board::lemma_cell_update(
                    s0,
                    x as int,
                    y as int,
                    flip_if(cell_at(s0, x as int, y as int), true),
                );
            }
            let c = self.board.cell(x, y);
            let ghost fx = self.effects@;
            self.effects.push(Effect::DrawBlock { x, y, cell: c.block_type });
            assert(self.effects@.subrange(0, fx.len() as int) =~= fx);
            assert(self.effects@ =~= fx + seq![Effect::DrawBlock { x, y, cell: c.block_type }]);
            proof {
                crate::board::lemma_same_bombs_area(old(self).board, self.board);
            }
        } else {
            assert(self.effects@.subrange(0, self.effects@.len() as int) =~= self.effects@);
            assert(self.effects@ =~= self.effects@ + Seq::<Effect>::empty());
        }
    }

    /// The cell changes of `track_mouse` during a chord.
    #[verifier::rlimit(30)]
    fn track_chord(&mut self, x_new: usize, y_new: usize)
        requires
            old(self).wf(),
            old(self).chord_active && old(self).game_status.play,
        ensures
            final(self).wf(),
            same_but_board_cursor(*old(self), *final(self)),
            final(self).cursor_x == old(self).cursor_x,
            final(self).cursor_y == old(self).cursor_y,
            mouse_tracked(*old(self), *final(self), x_new, y_new),
            extends(old(self).effects@, final(self).effects@),
    {
        let ghost s0 = *self;
        let valid_new = self.in_range(x_new, y_new);
        let valid_old = self.in_range(self.cursor_x, self.cursor_y);
        proof {
            lemma_extends_refl(self.effects@);
        }
        if valid_old {
            let cx = self.cursor_x;
            let cy = self.cursor_y;
            self.board.invert_window(&mut self.effects, cx, cy);
        }
        let ghost b1 = self.board;
        let ghost f1 = self.effects@;
        proof {
            lemma_extends_refl(self.effects@);
            let lx = s0.board.last_x as int;
            let ly = s0.board.last_y as int;
            assert forall|i: int| 0 <= i < b1.cells@.len() implies b1.cells@[i] == flipped_cells(
                s0.board.cells@,
                lx,
                ly,
                s0.cursor_x as int,
                s0.cursor_y as int,
                valid_old,
            )[i] by {
                crate::board::lemma_index_cell(i);
                assert(cell_at(b1.cells@, i / 25, i % 25) == b1.cells@[i]);
            }
            assert(b1.cells@ =~= flipped_cells(s0.board.cells@, lx, ly, s0.cursor_x as int, s0.cursor_y as int, valid_old));
            if !valid_old {
                assert(f1 =~= s0.effects@ + Seq::<Effect>::empty());
            }
        }
        let ghost mid = b1.cells@;
        if valid_new {
            self.board.invert_window(&mut self.effects, x_new, y_new);
        }
        proof {
            if !valid_new {
                assert(self.effects@ =~= f1 + Seq::<Effect>::empty());
            }
            lemma_chord_draws(s0, mid, f1, self.effects@, x_new, y_new);
            lemma_extends_trans(s0.effects@, f1, self.effects@);
            crate::board::lemma_same_bombs_area(s0.board, self.board);
            assert forall|x: int, y: int|
                #![trigger cell_at(self.board.cells@, x, y)]
                in_board(x, y) implies cell_at(self.board.cells@, x, y) == flip_if(
                flip_if(cell_at(s0.board.cells@, x, y), spec_track_flips(s0, x_new, y_new, x, y).0),
                spec_track_flips(s0, x_new, y_new, x, y).1,
            ) by {
                assert(cell_at(b1.cells@, x, y) == flip_if(
                    cell_at(s0.board.cells@, x, y),
                    spec_track_flips(s0, x_new, y_new, x, y).0,
                ));
            }
        }
    }

    /// The cell changes of `track_mouse` outside a chord.
    fn track_single(&mut self, x_new: usize, y_new: usize)
        requires
            old(self).wf(),
            !(old(self).chord_active && old(self).game_status.play),
        ensures
            final(self).wf(),
            same_but_board_cursor(*old(self), *final(self)),
            final(self).cursor_x == old(self).cursor_x,
            final(self).cursor_y == old(self).cursor_y,
            mouse_tracked(*old(self), *final(self), x_new, y_new),
            extends(old(self).effects@, final(self).effects@),
    {
        let ghost s0 = *self;
        let cx = self.cursor_x;
        let cy = self.cursor_y;
        self.flip_one(cx, cy);
        let ghost s1 = *self;
        proof {
            lemma_extends_refl(self.effects@);
        }
        let inr = self.in_range(x_new, y_new);
        let mut second = false;
        if inr {
            let c = self.board.cell(x_new, y_new);
            if !c.visited && c.block_type != BlockCell::Flagged {
                self.flip_one(x_new, y_new);
                second = true;
            }
        }
        proof {
            if !second {
                assert(self.effects@ =~= s1.effects@ + Seq::<Effect>::empty());
            }
            if s0.board.in_area(x_new as int, y_new as int) {
                assert(in_board(x_new as int, y_new as int));
            }
            lemma_single_draws(s0, s1, self.effects@, x_new, y_new);
            assert forall|x: int, y: int|
                #![trigger cell_at(self.board.cells@, x, y)]
                in_board(x, y) implies cell_at(self.board.cells@, x, y) == flip_if(
                flip_if(cell_at(s0.board.cells@, x, y), spec_track_flips(s0, x_new, y_new, x, y).0),
                spec_track_flips(s0, x_new, y_new, x, y).1,
            ) by {
                assert(cell_at(s1.board.cells@, x, y) == flip_if(
                    cell_at(s0.board.cells@, x, y),
                    spec_track_flips(s0, x_new, y_new, x, y).0,
                ));
            }
            lemma_extends_refl(self.effects@);
            lemma_extends_trans(s0.effects@, s1.effects@, self.effects@);
        }
    }

    /// Visual feedback while a button is held over the board: the cells the
    /// pointer leaves come back up, the cells it enters go down (see
    /// `spec_track_flips`), and the cursor moves to (`x_new`, `y_new`).
    pub fn track_mouse(&mut self, x_new: usize, y_new: usize)
        requires
            old(self).wf(),
        ensures
            final(self).wf(),
            extends(old(self).effects@, final(self).effects@),
            moved_to(*old(self), *final(self), x_new, y_new),
    {
        if x_new == self.cursor_x && y_new == self.cursor_y {
            proof {
                lemma_extends_refl(self.effects@);
            }
            return;
        }
        if self.chord_active && self.game_status.play {
            self.track_chord(x_new, y_new);
        } else {
            self.track_single(x_new, y_new);
        }
        self.cursor_x = x_new;
        self.cursor_y = y_new;
    }

    /// Begin a drag with a button held over the board: the cursor leaves the
    /// board and the face turns to caution.
    pub fn begin_primary_button_drag(&mut self)
        ensures
            drag_begun(*old(self), *final(self)),
    {
        self.drag_active = true;
        self.cursor_x = usize::MAX - 1;
        self.cursor_y = usize::MAX - 1;
        self.effects.push(Effect::DrawButton(ButtonSprite::Caution));
    }
}


/// Only the game-over flag is set.
pub open spec fn over_status() -> StatusFlag {
    StatusFlag { play: false, pause: false, minimized: false, game_over: true }
}

/// Only the play flag is set.
pub open spec fn play_status() -> StatusFlag {
    StatusFlag { play: true, pause: false, minimized: false, game_over: false }
}

/// Whether a win with `elapsed` seconds beats the best time of the current
/// preset difficulty.
pub open spec fn is_new_record(p: Pref, elapsed: u16) -> bool {
    match best_time_of(p, p.game_type) {
        Some(t) => elapsed < t,
        None => false,
    }
}

/// `p` with the best time of its difficulty set to `elapsed`.
pub open spec fn with_record(p: Pref, elapsed: u16) -> Pref {
    match p.game_type {
        GameType::Begin => Pref { beginner_time: elapsed, ..p },
        GameType::Inter => Pref { inter_time: elapsed, ..p },
        GameType::Expert => Pref { expert_time: elapsed, ..p },
        GameType::Other => p,
    }
}

/// The effects that end a game.
pub open spec fn game_over_effects(s: GameState, win: bool) -> Seq<Effect> {
    let face = if win {
        ButtonSprite::Win
    } else {
        ButtonSprite::Lose
    };
    let tune = if win {
        Sound::WinGame
    } else {
        Sound::LoseGame
    };
    let a = seq![Effect::DrawButton(face), Effect::DrawGrid];
    let b = if s.prefs.sound_enabled {
        a.push(Effect::PlaySound(tune))
    } else {
        a
    };
    if win && is_new_record(s.prefs, s.timer.elapsed) {
        b.push(Effect::NewRecord)
    } else {
        b
    }
}

/// `new` is `old` after the game ended (won when `win`): the timer stopped,
/// the face shows the result, the bombs are shown (see `shown_cell`), only
/// the game-over flag is set, a win zeroes the bomb counter and records a
/// best time it beats.
pub open spec fn ended(old: GameState, new: GameState, win: bool) -> bool {
    &&& new.timer == (Timer { state: TimerState::Stopped, ..old.timer })
    &&& new.btn_face_state == if win {
        ButtonSprite::Win
    } else {
        ButtonSprite::Lose
    }
    &&& new.game_status == over_status()
    &&& new.board.last_x == old.board.last_x
    &&& new.board.last_y == old.board.last_y
    &&& new.board.visits == old.board.visits
    &&& new.board.cells@.len() == old.board.cells@.len()
    &&& forall|x: int, y: int|
        #![trigger cell_at(new.board.cells@, x, y)]
        in_board(x, y) ==> cell_at(new.board.cells@, x, y) == if old.board.in_area(x, y) {
            shown_cell(cell_at(old.board.cells@, x, y), win)
        } else {
            cell_at(old.board.cells@, x, y)
        }
    &&& new.bombs_left == if win {
        0
    } else {
        old.bombs_left
    }
    &&& new.prefs == if win && is_new_record(old.prefs, old.timer.elapsed) {
        with_record(old.prefs, old.timer.elapsed)
    } else {
        old.prefs
    }
    &&& new.effects@ == old.effects@ + game_over_effects(old, win)
    &&& new.grafix == old.grafix
    &&& new.btn_face_pressed == old.btn_face_pressed
    &&& new.cursor_x == old.cursor_x
    &&& new.cursor_y == old.cursor_y
    &&& new.ignore_next_click == old.ignore_next_click
    &&& new.chord_active == old.chord_active
    &&& new.drag_active == old.drag_active
    &&& new.total_bombs == old.total_bombs
    &&& new.boxes_to_win == old.boxes_to_win
    &&& new.rng == old.rng
    &&& new.xyzzy_progress == old.xyzzy_progress
}

/// `new` is `old` after a pause: the sounds stop, the timer of a game in
/// play that was not paused pauses, and the pause flag is set.
pub open spec fn paused(old: GameState, new: GameState) -> bool {
    &&& new.game_status == (StatusFlag { pause: true, ..old.game_status })
    &&& new.timer == if !old.game_status.pause && old.game_status.play {
        Timer {
            state: if old.timer.state == TimerState::Running {
                TimerState::Paused
            } else {
                old.timer.state
            },
            ..old.timer
        }
    } else {
        old.timer
    }
    &&& new.effects@ == old.effects@.push(Effect::StopSounds)
    &&& new == (GameState { timer: new.timer, game_status: new.game_status, effects: new.effects, ..old })
}

/// `new` is `old` after a resume: the timer of a game in play resumes and
/// the pause flag clears.
pub open spec fn resumed(old: GameState, new: GameState) -> bool {
    &&& new.game_status == (StatusFlag { pause: false, ..old.game_status })
    &&& new.timer == if old.game_status.play {
        Timer {
            state: if old.timer.state == TimerState::Paused {
                TimerState::Running
            } else {
                old.timer.state
            },
            ..old.timer
        }
    } else {
        old.timer
    }
    &&& new == (GameState { timer: new.timer, game_status: new.game_status, ..old })
}

/// The cheat progress after Shift: once the whole sequence was typed it
/// toggles between on (17) and off (5); before that it stays.
pub open spec fn xyzzy_after_shift(p: usize) -> usize {
    if p >= XYZZY_LENGTH {
        if p == 5 {
            17
        } else {
            5
        }
    } else {
        p
    }
}

/// `new` is `old` after Shift (see `xyzzy_after_shift`).
pub open spec fn xyzzy_toggled(old: GameState, new: GameState) -> bool {
    &&& new.xyzzy_progress == xyzzy_after_shift(old.xyzzy_progress)
    &&& new == (GameState { xyzzy_progress: new.xyzzy_progress, ..old })
}

impl GameState {
    /// One second of the game timer: count it if the timer runs, then draw
    /// the timer and tick if sound is on.
    pub fn do_timer(&mut self)
        requires
            old(self).wf(),
        ensures
            final(self).wf(),
            final(self).timer.state == old(self).timer.state,
            ({
                let ticked = old(self).timer.state == TimerState::Running && old(self).timer.elapsed < 999;
                &&& final(self).timer.elapsed == if ticked {
                    old(self).timer.elapsed + 1
                } else {
                    old(self).timer.elapsed as int
                }
                &&& final(self).effects@ == if !ticked {
                    old(self).effects@
                } else if old(self).prefs.sound_enabled {
                    old(self).effects@.push(Effect::DrawTimer(final(self).timer.elapsed)).push(
                        Effect::PlaySound(Sound::Tick),
                    )
                } else {
                    old(self).effects@.push(Effect::DrawTimer(final(self).timer.elapsed))
                }
            }),
            *final(self) == (GameState { timer: final(self).timer, effects: final(self).effects, ..*old(self) }),
    {
        if self.timer.tick() {
            self.effects.push(Effect::DrawTimer(self.timer.elapsed));
            if self.prefs.sound_enabled {
                self.effects.push(Effect::PlaySound(Sound::Tick));
            }
        }
    }

    /// Pause: stop the sounds, pause the timer of a game in play that was not
    /// paused, set the pause flag.
    pub fn pause_game(&mut self)
        requires
            old(self).wf(),
        ensures
            final(self).wf(),
            paused(*old(self), *final(self)),
    {
        self.effects.push(Effect::StopSounds);
        if !self.game_status.pause && self.game_status.play {
            self.timer.pause();
        }
        self.game_status.pause = true;
    }

    /// Resume: resume the timer of a game in play, clear the pause flag.
    pub fn resume_game(&mut self)
        requires
            old(self).wf(),
        ensures
            final(self).wf(),
            resumed(*old(self), *final(self)),
    {
        if self.game_status.play {
            self.timer.resume();
        }
        self.game_status.pause = false;
    }

    /// A press on the face button: press it and draw it down. Returns
    /// whether the point was on the button.
    pub fn btn_click_handler(&mut self, point: Point) -> (r: bool)
        requires
            layout_ok(old(self).grafix),
        ensures
            r == spec_pt_in_rect(spec_button_rect(old(self).grafix), point),
            r ==> *final(self) == (GameState {
                btn_face_pressed: true,
                effects: final(self).effects,
                ..*old(self)
            }) && final(self).effects@ == old(self).effects@.push(
                Effect::DrawButton(ButtonSprite::Down),
            ),
            !r ==> *final(self) == *old(self),
    {
        let rc = self.grafix.button_rect();
        if !pt_in_rect(rc, point) {
            return false;
        }
        self.btn_face_pressed = true;
        self.effects.push(Effect::DrawButton(ButtonSprite::Down));
        true
    }

    /// Pointer moves while the face button is pressed: draw it down when the
    /// pointer is over it, else with the current face.
    pub fn handle_face_button_mouse_move(&mut self, point: Point)
        requires
            layout_ok(old(self).grafix),
        ensures
            face_moved(*old(self), *final(self), point),
    {
        let rc = self.grafix.button_rect();
        if pt_in_rect(rc, point) {
            self.effects.push(Effect::DrawButton(ButtonSprite::Down));
        } else {
            let face = self.btn_face_state;
            self.effects.push(Effect::DrawButton(face));
        }
    }

    /// Shift toggles the cheat once the whole key sequence was typed.
    pub fn toggle_xyzzy(&mut self)
        requires
            old(self).wf(),
        ensures
            final(self).wf(),
            xyzzy_toggled(*old(self), *final(self)),
    {
        if self.xyzzy_progress >= XYZZY_LENGTH {
            let p = self.xyzzy_progress;
            assert(p == 5 || p == 17);
            assert(5usize ^ 20usize == 17usize) by (bit_vector);
            assert(17usize ^ 20usize == 5usize) by (bit_vector);
            self.xyzzy_progress = p ^ 20;
        }
    }

    /// A key press during the XYZZY sequence: the expected key advances it,
    /// any other key restarts it; once complete the sequence ignores keys.
    pub fn handle_xyzzys_input(&mut self, key: u16)
        requires
            old(self).wf(),
        ensures
            final(self).wf(),
            final(self).xyzzy_progress == if old(self).xyzzy_progress < XYZZY_LENGTH {
                if key == xyzzy_key(old(self).xyzzy_progress as int) {
                    (old(self).xyzzy_progress + 1) as usize
                } else {
                    0usize
                }
            } else {
                old(self).xyzzy_progress
            },
            *final(self) == (GameState { xyzzy_progress: final(self).xyzzy_progress, ..*old(self) }),
    {
        if self.xyzzy_progress < XYZZY_LENGTH {
            let expected: u16 = match self.xyzzy_progress {
                0 => 0x58,
                1 => 0x59,
                2 => 0x5A,
                3 => 0x5A,
                _ => 0x59,
            };
            if expected == key {
                self.xyzzy_progress += 1;
            } else {
                self.xyzzy_progress = 0;
            }
        }
    }

    /// Pointer moves with no button held: when the cheat is on (complete and
    /// Control held, or toggled on with Shift), the cursor follows the
    /// pointer and, over the board, the top-left screen pixel tells whether
    /// the cell under it holds a bomb.
    pub fn handle_xyzzys_mouse(&mut self, key: u16, point: Point)
        requires
            old(self).wf(),
            layout_ok(old(self).grafix),
            point_ok(point),
        ensures
            final(self).wf(),
            xyzzy_moved(*old(self), *final(self), key, point),
    {
        let control_down = (key & MK_CONTROL) != 0;
        let state = self.xyzzy_progress;
        if (state == XYZZY_LENGTH && control_down) || state > XYZZY_LENGTH {
            let (x_pos, y_pos) = self.box_from_point(point);
            self.cursor_x = x_pos;
            self.cursor_y = y_pos;
            if self.in_range(x_pos, y_pos) {
                let is_bomb = self.board.cell(x_pos, y_pos).bomb;
                self.effects.push(Effect::XyzzyPixel { bomb: is_bomb });
            }
        }
    }

    /// Record a win's time as the best time when it beats it.
    fn record_win(&mut self)
        ensures
            final(self).prefs == if is_new_record(old(self).prefs, old(self).timer.elapsed) {
                with_record(old(self).prefs, old(self).timer.elapsed)
            } else {
                old(self).prefs
            },
            final(self).effects@ == if is_new_record(old(self).prefs, old(self).timer.elapsed) {
                old(self).effects@.push(Effect::NewRecord)
            } else {
                old(self).effects@
            },
            *final(self) == (GameState {
                prefs: final(self).prefs,
                effects: final(self).effects,
                ..*old(self)
            }),
    {
        let elapsed = self.timer.elapsed;
        let record = match self.prefs.game_type {
            GameType::Begin => elapsed < self.prefs.beginner_time,
            GameType::Inter => elapsed < self.prefs.inter_time,
            GameType::Expert => elapsed < self.prefs.expert_time,
            GameType::Other => false,
        };
        if record {
            match self.prefs.game_type {
                GameType::Begin => self.prefs.beginner_time = elapsed,
                GameType::Inter => self.prefs.inter_time = elapsed,
                GameType::Expert => self.prefs.expert_time = elapsed,
                GameType::Other => {},
            }
            self.effects.push(Effect::NewRecord);
        }
    }

    /// End the game (won when `win`), see `ended`.
    pub fn game_over(&mut self, win: bool)
        requires
            old(self).wf(),
        ensures
            final(self).wf(),
            ended(*old(self), *final(self), win),
    {
        let ghost s0 = *self;
        self.timer.stop();
        let face = if win {
            ButtonSprite::Win
        } else {
            ButtonSprite::Lose
        };
        self.btn_face_state = face;
        self.effects.push(Effect::DrawButton(face));
        self.board.show_bombs(win);
        self.effects.push(Effect::DrawGrid);
        let ghost f2 = self.effects@;
        if self.prefs.sound_enabled {
            if win {
                self.effects.push(Effect::PlaySound(Sound::WinGame));
            } else {
                self.effects.push(Effect::PlaySound(Sound::LoseGame));
            }
        }
        let ghost f3 = self.effects@;
        self.game_status = StatusFlag { play: false, pause: false, minimized: false, game_over: true };
        if win {
            self.bombs_left = 0;
            self.record_win();
        }
        proof {
            assert(f2 =~= s0.effects@ + seq![
                Effect::DrawButton(face),
                Effect::DrawGrid,
            ]);
            assert(self.effects@ =~= s0.effects@ + game_over_effects(s0, win));
        }
    }
}


/// The game ended with a win.
pub open spec fn won(s: GameState) -> bool {
    s.game_status == over_status() && s.btn_face_state == ButtonSprite::Win
}

/// The game ended with a loss.
pub open spec fn lost(s: GameState) -> bool {
    s.game_status == over_status() && s.btn_face_state == ButtonSprite::Lose
}

/// The sprite a right click gives a hidden cell: a flag becomes a guess mark
/// (or a raised blank when marks are off), a guess mark becomes a raised
/// blank, anything else becomes a flag.
pub open spec fn guess_next(c: BlockCell, mark_enabled: bool) -> BlockCell {
    if c == BlockCell::Flagged {
        if mark_enabled {
            BlockCell::GuessUp
        } else {
            BlockCell::BlankUp
        }
    } else if c == BlockCell::GuessUp {
        BlockCell::BlankUp
    } else {
        BlockCell::Flagged
    }
}

/// The change of the bomb counter for a right click on a cell showing `c`.
pub open spec fn guess_delta(c: BlockCell) -> int {
    if c == BlockCell::Flagged {
        1
    } else if c == BlockCell::GuessUp {
        0
    } else {
        -1
    }
}

/// The fields that a click on the board leaves alone: the geometry, the
/// face button press, the cursor, the click, chord and drag flags, the
/// generator and the cheat progress.
pub open spec fn same_controls(a: GameState, b: GameState) -> bool {
    &&& a.grafix == b.grafix
    &&& a.btn_face_pressed == b.btn_face_pressed
    &&& a.cursor_x == b.cursor_x
    &&& a.cursor_y == b.cursor_y
    &&& a.ignore_next_click == b.ignore_next_click
    &&& a.chord_active == b.chord_active
    &&& a.drag_active == b.drag_active
    &&& a.rng == b.rng
    &&& a.xyzzy_progress == b.xyzzy_progress
}

/// The timer of `new` is that of `old`, or that of `old` stopped (when the
/// game ended).
pub open spec fn timer_kept_or_stopped(old: GameState, new: GameState) -> bool {
    new.timer == old.timer || new.timer == (Timer { state: TimerState::Stopped, ..old.timer })
}

/// `new` is `old` with only its board and its effects changed: the timer,
/// the face, the counters, the status and the preferences stay.
pub open spec fn only_board_changed(old: GameState, new: GameState) -> bool {
    new == (GameState { board: new.board, effects: new.effects, ..old })
}

/// The effects added from `old` to `new` draw revealed cells of `b` as they
/// show, and every cell that changed from `from` to `b` is drawn by one of
/// them.
pub open spec fn draws_added(old: Seq<Effect>, new: Seq<Effect>, from: Seq<BlockInfo>, b: Board) -> bool {
    &&& extends(old, new)
    &&& forall|k: int| old.len() <= k < new.len() ==> draws_revealed(#[trigger] new[k], b)
    &&& changes_drawn(from, b.cells@, old, new)
}

/// The cells of `old` after the bomb of (`x`, `y`) moved to the first cell
/// without a bomb, row by row.
pub open spec fn moved_cells(old: Board, x: int, y: int) -> Seq<BlockInfo> {
    let p = first_free_cell(old.cells@, old.last_x as int, old.last_y as int);
    with_bomb(without_bomb(old.cells@, x, y), p.0, p.1)
}

/// `new` is `old` after a first click on the bomb of (`x`, `y`): the bomb
/// moved to the first cell without a bomb, row by row, and the flood fill
/// went from (`x`, `y`) on that board.
pub open spec fn first_click_filled(old: Board, new: Board, x: int, y: int) -> bool {
    let lx = old.last_x as int;
    let ly = old.last_y as int;
    let moved = moved_cells(old, x, y);
    &&& reveal_step(moved, new.cells@, lx, ly)
    &&& flood_from(moved, new.cells@, lx, ly, new.visits - old.visits, x, y)
}

/// `new` is `old` after the hidden unflagged cell (`x`, `y`) was clicked. A
/// bomb under the very first click moves to the first cell without a bomb
/// (row by row) and the cell is revealed; a bomb under a later click explodes
/// and the game is lost; otherwise the cell is revealed with the empty region
/// around it and the game is won once every cell without a bomb is revealed.
/// While the game goes on only the board changes and the revealed cells are
/// drawn; the timer is kept, or stopped when the game ends.
pub open spec fn square_stepped(old: GameState, new: GameState, x: usize, y: usize) -> bool {
    let c = old.board.cell_spec(x as int, y as int);
    let free = exists|x2: int, y2: int|
        #![trigger cell_at(old.board.cells@, x2, y2)]
        old.board.in_area(x2, y2) && !cell_at(old.board.cells@, x2, y2).bomb;
    let n = new.board.cell_spec(x as int, y as int);
    &&& same_controls(old, new)
    &&& timer_kept_or_stopped(old, new)
    &&& new.board.last_x == old.board.last_x
    &&& new.board.last_y == old.board.last_y
    &&& new.boxes_to_win == old.boxes_to_win
    &&& new.total_bombs == old.total_bombs
    &&& extends(old.effects@, new.effects@)
    &&& c.bomb && old.board.visits == 0 && free ==> n.visited && !n.bomb && area_bombs(new.board)
        == area_bombs(old.board) && new.game_status == old.game_status && first_click_filled(
        old.board,
        new.board,
        x as int,
        y as int,
    ) && only_board_changed(old, new) && draws_added(
        old.effects@,
        new.effects@,
        moved_cells(old.board, x as int, y as int),
        new.board,
    )
    &&& c.bomb && old.board.visits == 0 && !free ==> new == old
    &&& c.bomb && old.board.visits != 0 ==> lost(new) && n.block_type == BlockCell::Explode
    &&& !c.bomb ==> n.visited && area_bombs(new.board) == area_bombs(old.board) && (won(new)
        <==> new.board.visits == new.boxes_to_win) && (!won(new) ==> new.game_status
        == old.game_status && reveal_step(
        old.board.cells@,
        new.board.cells@,
        old.board.last_x as int,
        old.board.last_y as int,
    ) && flood_filled(old.board, new.board, x as int, y as int) && only_board_changed(old, new)
        && draws_added(old.effects@, new.effects@, old.board.cells@, new.board))
}

/// `new` is `old` after a chord was released on (`x`, `y`): when the chord is
/// allowed (see `chord_allowed`) the cells around are revealed (see
/// `chord_outcome`); otherwise the pressed cells are lifted and the cursor
/// moves off the board.
pub open spec fn block_stepped(old: GameState, new: GameState, x: usize, y: usize) -> bool {
    &&& new.board.last_x == old.board.last_x
    &&& new.board.last_y == old.board.last_y
    &&& new.boxes_to_win == old.boxes_to_win
    &&& new.total_bombs == old.total_bombs
    &&& extends(old.effects@, new.effects@)
    &&& !chord_allowed(old, x as int, y as int) ==> moved_to(old, new, (usize::MAX - 2) as usize, (usize::MAX - 2) as usize)
    &&& chord_allowed(old, x as int, y as int) ==> chord_outcome(old, new, x as int, y as int) && same_controls(old, new)
}

impl GameState {
    /// The very first click hit a bomb: move it away and reveal the cell.
    fn step_square_first(&mut self, x: usize, y: usize)
        requires
            old(self).wf(),
            old(self).board.in_area(x as int, y as int),
            old(self).board.visits == 0,
            old(self).board.cell_spec(x as int, y as int).bomb,
            old(self).board.cell_spec(x as int, y as int).block_type != BlockCell::Flagged,
        ensures
            same_controls(*old(self), *final(self)),
            final(self).wf(),
            final(self).board.last_x == old(self).board.last_x,
            final(self).board.last_y == old(self).board.last_y,
            final(self).boxes_to_win == old(self).boxes_to_win,
            final(self).total_bombs == old(self).total_bombs,
            final(self).game_status == old(self).game_status,
            extends(old(self).effects@, final(self).effects@),
            only_board_changed(*old(self), *final(self)),
            ({
                let free = exists|x2: int, y2: int|
                    #![trigger cell_at(old(self).board.cells@, x2, y2)]
                    old(self).board.in_area(x2, y2) && !cell_at(old(self).board.cells@, x2, y2).bomb;
                let n = final(self).board.cell_spec(x as int, y as int);
                &&& free ==> n.visited && !n.bomb && area_bombs(final(self).board) == area_bombs(
                    old(self).board,
                ) && first_click_filled(old(self).board, final(self).board, x as int, y as int)
                    && draws_added(
                        old(self).effects@,
                        final(self).effects@,
                        moved_cells(old(self).board, x as int, y as int),
                        final(self).board,
                    )
                &&& !free ==> *final(self) == *old(self)
            }),
    {
        let ghost lx = self.board.last_x as int;
        let ghost ly = self.board.last_y as int;
        let ghost f0 = self.effects@;
        if self.board.move_bomb_away(x, y) {
            let ghost b1 = self.board;
            self.board.step_box(&mut self.effects, x, y);
            proof {
                lemma_reveal_keeps(b1.cells@, self.board.cells@, lx, ly);
            }
        } else {
            proof {
                lemma_extends_refl(f0);
            }
        }
    }

    /// A later click hit a bomb: it explodes and the game is lost.
    #[verifier::rlimit(30)]
    fn step_square_explode(&mut self, x: usize, y: usize)
        requires
            old(self).wf(),
            old(self).board.in_area(x as int, y as int),
            !old(self).board.cell_spec(x as int, y as int).visited,
            old(self).board.cell_spec(x as int, y as int).block_type != BlockCell::Flagged,
        ensures
            timer_kept_or_stopped(*old(self), *final(self)),
            same_controls(*old(self), *final(self)),
            final(self).wf(),
            final(self).board.last_x == old(self).board.last_x,
            final(self).board.last_y == old(self).board.last_y,
            final(self).boxes_to_win == old(self).boxes_to_win,
            final(self).total_bombs == old(self).total_bombs,
            extends(old(self).effects@, final(self).effects@),
            lost(*final(self)),
            final(self).board.cell_spec(x as int, y as int).block_type == BlockCell::Explode,
    {
        let ghost s0 = *self;
        let c = self.board.cell(x, y);
        self.board.set_hidden_sprite(x, y, BlockCell::Explode);
        proof {
            crate::board::lemma_cell_update(
                s0.board.cells@,
                x as int,
                y as int,
                BlockInfo { block_type: BlockCell::Explode, ..c },
            );
        }
        let ghost f1 = self.effects@;
        self.game_over(false);
        proof {
            assert(self.effects@.subrange(0, f1.len() as int) =~= f1);
            assert(in_board(x as int, y as int));
        }
    }

    /// A cell without a bomb was clicked: reveal it, and end the game won
    /// once every cell without a bomb is revealed.
    #[verifier::rlimit(30)]
    fn step_square_reveal(&mut self, x: usize, y: usize)
        requires
            old(self).wf(),
            old(self).game_status.play,
            old(self).board.in_area(x as int, y as int),
            !old(self).board.cell_spec(x as int, y as int).bomb,
        ensures
            timer_kept_or_stopped(*old(self), *final(self)),
            same_controls(*old(self), *final(self)),
            final(self).wf(),
            final(self).board.last_x == old(self).board.last_x,
            final(self).board.last_y == old(self).board.last_y,
            final(self).boxes_to_win == old(self).boxes_to_win,
            final(self).total_bombs == old(self).total_bombs,
            extends(old(self).effects@, final(self).effects@),
            old(self).board.cell_spec(x as int, y as int).block_type != BlockCell::Flagged
                ==> final(self).board.cell_spec(x as int, y as int).visited,
            area_bombs(final(self).board) == area_bombs(old(self).board),
            won(*final(self)) <==> final(self).board.visits == final(self).boxes_to_win,
            !won(*final(self)) ==> final(self).game_status == old(self).game_status && reveal_step(
                old(self).board.cells@,
                final(self).board.cells@,
                old(self).board.last_x as int,
                old(self).board.last_y as int,
            ) && flood_filled(old(self).board, final(self).board, x as int, y as int) && only_board_changed(
                *old(self),
                *final(self),
            ) && draws_added(old(self).effects@, final(self).effects@, old(self).board.cells@, final(self).board),
    {
        let ghost s0 = *self;
        let ghost lx = self.board.last_x as int;
        let ghost ly = self.board.last_y as int;
        self.board.step_box(&mut self.effects, x, y);
        proof {
            lemma_reveal_keeps(s0.board.cells@, self.board.cells@, lx, ly);
        }
        let ghost f1 = self.effects@;
        if self.check_win() {
            self.game_over(true);
            proof {
                assert(self.effects@.subrange(0, f1.len() as int) =~= f1);
                lemma_extends_trans(s0.effects@, f1, self.effects@);
                assert(in_board(x as int, y as int));
                crate::board::lemma_count_rect_same(
                    self.board.cells@,
                    s0.board.cells@,
                    CellPred::Bomb,
                    0,
                    lx,
                    0,
                    ly,
                );
            }
        }
    }

    /// The hidden unflagged cell (`x`, `y`) was clicked. A bomb under the very
    /// first click moves to the first cell without a bomb (row by row) and the
    /// cell is revealed; a bomb under a later click explodes and the game is
    /// lost; otherwise the cell is revealed with the empty region around it
    /// and the game is won once every cell without a bomb is revealed.
    pub fn step_square(&mut self, x: usize, y: usize)
        requires
            old(self).wf(),
            old(self).game_status.play,
            old(self).board.in_area(x as int, y as int),
            !old(self).board.cell_spec(x as int, y as int).visited,
            old(self).board.cell_spec(x as int, y as int).block_type != BlockCell::Flagged,
        ensures
            final(self).wf(),
            square_stepped(*old(self), *final(self), x, y),
    {
        let c = self.board.cell(x, y);
        if c.bomb {
            if self.board.visits == 0 {
                self.step_square_first(x, y);
            } else {
                self.step_square_explode(x, y);
            }
        } else {
            self.step_square_reveal(x, y);
        }
    }
}


/// Whether a chord on (`x`, `y`) goes ahead: the cell is revealed and shows
/// as many adjacent bombs as there are flags around it.
pub open spec fn chord_allowed(s: GameState, x: int, y: int) -> bool {
    let c = s.board.cell_spec(x, y);
    c.visited && c.block_type.spec_value() as nat == adj_count(
        s.board.cells@,
        CellPred::Flagged,
        s.board.last_x as int,
        s.board.last_y as int,
        x,
        y,
    )
}

/// `new` is `old` after a chord on (`x`, `y`) went ahead: around it every
/// unflagged cell without a bomb is revealed and every unflagged bomb has
/// exploded, which loses the game; otherwise the game is won exactly when
/// every cell to win is revealed, and else it goes on with only reveals done
/// and drawn, the timer, face, counters and preferences unchanged.
pub open spec fn chord_outcome(old: GameState, new: GameState, x: int, y: int) -> bool {
    let lx = old.board.last_x as int;
    let ly = old.board.last_y as int;
    let hit = chord_hits_bomb(old.board.cells@, lx, ly, x, y);
    &&& timer_kept_or_stopped(old, new)
    &&& forall|a: int, b: int|
        #![trigger cell_at(new.board.cells@, a, b)]
        in_window(lx, ly, x, y, a, b) && !cell_at(old.board.cells@, a, b).bomb && cell_at(
            old.board.cells@,
            a,
            b,
        ).block_type != BlockCell::Flagged ==> cell_at(new.board.cells@, a, b).visited
    &&& forall|a: int, b: int|
        #![trigger cell_at(new.board.cells@, a, b)]
        in_window(lx, ly, x, y, a, b) && cell_at(old.board.cells@, a, b).bomb && cell_at(
            old.board.cells@,
            a,
            b,
        ).block_type != BlockCell::Flagged ==> cell_at(new.board.cells@, a, b).block_type
            == BlockCell::Explode
    &&& hit ==> lost(new)
    &&& !hit ==> (won(new) <==> new.board.visits == new.boxes_to_win)
    &&& !hit && !won(new) ==> new.game_status == old.game_status && reveal_step(
        old.board.cells@,
        new.board.cells@,
        lx,
        ly,
    ) && only_board_changed(old, new) && draws_added(old.effects@, new.effects@, old.board.cells@, new.board)
}

impl GameState {
    /// A chord released on (`x_center`, `y_center`): when the chord is
    /// allowed (see `chord_allowed`) reveal the cells around it (see
    /// `chord_outcome`); otherwise only lift the pressed cells, moving the
    /// cursor off the board.
    pub fn step_block(&mut self, x_center: usize, y_center: usize)
        requires
            old(self).wf(),
            old(self).game_status.play,
            old(self).board.in_area(x_center as int, y_center as int),
        ensures
            final(self).wf(),
            block_stepped(*old(self), *final(self), x_center, y_center),
    {
        let c = self.board.cell(x_center, y_center);
        let marks = self.count_marks(x_center, y_center);
        if !c.visited || c.block_type.value() != marks {
            self.track_mouse(usize::MAX - 2, usize::MAX - 2);
            return;
        }
        self.chord_then_end(x_center, y_center);
    }

    /// The chord itself, once allowed, and the end of the game it may bring.
    #[verifier::rlimit(100)]
    fn chord_then_end(&mut self, x_center: usize, y_center: usize)
        requires
            old(self).wf(),
            old(self).game_status.play,
            old(self).board.in_area(x_center as int, y_center as int),
        ensures
            same_controls(*old(self), *final(self)),
            final(self).wf(),
            final(self).board.last_x == old(self).board.last_x,
            final(self).board.last_y == old(self).board.last_y,
            final(self).boxes_to_win == old(self).boxes_to_win,
            final(self).total_bombs == old(self).total_bombs,
            extends(old(self).effects@, final(self).effects@),
            chord_outcome(*old(self), *final(self), x_center as int, y_center as int),
    {
        let ghost s0 = *self;
        let ghost lx = self.board.last_x as int;
        let ghost ly = self.board.last_y as int;
        let lose = self.board.chord_reveal(&mut self.effects, x_center, y_center);
        let ghost s1 = *self;
        proof {
            assert(extends(s0.effects@, s1.effects@));
        }
        if lose {
            self.game_over(false);
        } else if self.check_win() {
            self.game_over(true);
        }
        proof {
            if lose || s1.board.visits == s1.boxes_to_win {
                assert(self.effects@.subrange(0, s1.effects@.len() as int) =~= s1.effects@);
                lemma_extends_trans(s0.effects@, s1.effects@, self.effects@);
                assert forall|a: int, b: int|
                    #![trigger cell_at(self.board.cells@, a, b)]
                    in_window(lx, ly, x_center as int, y_center as int, a, b) implies cell_at(self.board.cells@, a, b)
                        == shown_cell(cell_at(s1.board.cells@, a, b), !lose) by {
                    assert(in_board(a, b));
                    assert(s1.board.in_area(a, b));
                }
            }
        }
    }
}


/// Every cell of the storage is hidden and raised.
pub open spec fn fresh_cells(b: Board) -> bool {
    forall|x: int, y: int|
        #![trigger cell_at(b.cells@, x, y)]
        in_board(x, y) ==> !cell_at(b.cells@, x, y).visited && cell_at(b.cells@, x, y).block_type
            == BlockCell::BlankUp
}

/// Place `mines` bombs at random on a fresh board (see
/// `Board::place_random_bomb`).
fn lay_bombs(board: &mut Board, rng: &mut Rng, mines: i16)
    requires
        old(board).wf(),
        old(board).visits == 0,
        fresh_cells(*old(board)),
        area_bombs(*old(board)) == 0,
        old(board).total(CellPred::Flagged) == 0,
        0 <= mines,
        mines as int <= area_size(*old(board)),
    ensures
        final(board).wf(),
        final(board).visits == 0,
        final(board).last_x == old(board).last_x,
        final(board).last_y == old(board).last_y,
        fresh_cells(*final(board)),
        area_bombs(*final(board)) == mines as int,
        final(board).total(CellPred::Flagged) == 0,
        (final(board).cells@, final(rng).state) == lay_from(
            old(board).cells@,
            old(board).last_x as int,
            old(board).last_y as int,
            old(rng).state,
            mines as nat,
        ),
{
    let mut bombs: i16 = mines;
    while bombs > 0
        invariant
            lay_from(old(board).cells@, old(board).last_x as int, old(board).last_y as int, old(rng).state, mines as nat)
                == lay_from(board.cells@, board.last_x as int, board.last_y as int, rng.state, bombs as nat),
            board.wf(),
            board.visits == 0,
            board.last_x == old(board).last_x,
            board.last_y == old(board).last_y,
            0 <= bombs <= mines,
            mines as int <= area_size(*board),
            area_bombs(*board) == mines - bombs,
            board.total(CellPred::Flagged) == 0,
            fresh_cells(*board),
        decreases bombs,
    {
        let ghost b0 = *board;
        board.place_random_bomb(rng);
        proof {
            let (x, y) = choose|x: int, y: int|
                #![trigger cell_at(b0.cells@, x, y)]
                b0.in_area(x, y) && !cell_at(b0.cells@, x, y).bomb && board.cells@ == b0.cells@.update(
                    cell_index(x, y),
                    BlockInfo { bomb: true, ..cell_at(b0.cells@, x, y) },
                );
            assert(in_board(x, y));
            crate::board::lemma_cell_update(b0.cells@, x, y, BlockInfo { bomb: true, ..cell_at(b0.cells@, x, y) });
            assert forall|x2: int, y2: int| in_board(x2, y2) implies !#[trigger] cell_at(board.cells@, x2, y2).visited
                && cell_at(board.cells@, x2, y2).block_type == BlockCell::BlankUp by {
                if !(x2 == x && y2 == y) {
                    assert(cell_at(board.cells@, x2, y2) == cell_at(b0.cells@, x2, y2));
                }
            }
        }
        bombs -= 1;
    }
}

/// A fresh field of `width` by `height` cells with `mines` bombs placed at
/// random (see `Board::place_random_bomb`).
#[verifier::rlimit(30)]
fn lay_field(board: &mut Board, rng: &mut Rng, width: usize, height: usize, mines: i16)
    requires
        old(board).cells@.len() == BOARD_LEN,
        1 <= width <= MAX_X_BLKS,
        1 <= height <= MAX_Y_BLKS,
        0 <= mines,
        mines as int <= width * height,
    ensures
        final(board).wf(),
        final(board).last_x == width - 1,
        final(board).last_y == height - 1,
        final(board).visits == 0,
        fresh_cells(*final(board)),
        area_bombs(*final(board)) == mines as int,
        final(board).total(CellPred::Flagged) == 0,
        (final(board).cells@, final(rng).state) == lay_from(
            Seq::new(BOARD_LEN as nat, |i: int| blank_up()),
            width - 1,
            height - 1,
            old(rng).state,
            mines as nat,
        ),
{
    board.reset(width - 1, height - 1);
    proof {
        assert(area_size(*board) == width * height);
        assert(board.cells@ =~= Seq::new(BOARD_LEN as nat, |i: int| blank_up()));
        assert forall|x: int, y: int| in_board(x, y) implies !#[trigger] cell_at(board.cells@, x, y).visited
            && cell_at(board.cells@, x, y).block_type == BlockCell::BlankUp by {
            crate::board::lemma_index_cell(cell_index(x, y));
        }
    }
    lay_bombs(board, rng, mines);
}

impl GameState {
    /// Start a new game with the board size and mine count of the
    /// preferences: a fresh board with exactly `mines` bombs placed at random
    /// in the area (see `Board::place_random_bomb`), a happy face, the timer
    /// reset, the counter at `mines`, play started. Returns how the window
    /// must be adjusted: resized when the board size changed, and redrawn.
    #[verifier::rlimit(50)]
    pub fn start_game(&mut self) -> (adj: AdjustFlag)
        requires
            old(self).wf(),
            1 <= old(self).prefs.width <= MAX_X_BLKS,
            1 <= old(self).prefs.height <= MAX_Y_BLKS,
            0 <= old(self).prefs.mines,
            old(self).prefs.mines as int <= old(self).prefs.width * old(self).prefs.height,
        ensures
            final(self).wf(),
            adj == (AdjustFlag {
                resize: old(self).prefs.width != old(self).board.last_x + 1 || old(self).prefs.height
                    != old(self).board.last_y + 1,
                redraw: true,
            }),
            final(self).board.last_x == old(self).prefs.width - 1,
            final(self).board.last_y == old(self).prefs.height - 1,
            final(self).board.visits == 0,
            fresh_cells(final(self).board),
            area_bombs(final(self).board) == old(self).prefs.mines as int,
            (final(self).board.cells@, final(self).rng.state) == lay_from(
                Seq::new(BOARD_LEN as nat, |i: int| blank_up()),
                old(self).prefs.width - 1,
                old(self).prefs.height - 1,
                old(self).rng.state,
                old(self).prefs.mines as nat,
            ),
            final(self).btn_face_state == ButtonSprite::Happy,
            final(self).timer == (Timer { state: TimerState::Stopped, elapsed: 0 }),
            final(self).total_bombs == old(self).prefs.mines,
            final(self).bombs_left == old(self).prefs.mines,
            final(self).boxes_to_win == old(self).prefs.width * old(self).prefs.height - old(self).prefs.mines,
            final(self).game_status == play_status(),
            final(self).effects@ == old(self).effects@.push(Effect::DrawBombCount(old(self).prefs.mines)),
            final(self).grafix == old(self).grafix,
            final(self).prefs == old(self).prefs,
            final(self).btn_face_pressed == old(self).btn_face_pressed,
            final(self).cursor_x == old(self).cursor_x,
            final(self).cursor_y == old(self).cursor_y,
            final(self).ignore_next_click == old(self).ignore_next_click,
            final(self).chord_active == old(self).chord_active,
            final(self).drag_active == old(self).drag_active,
            final(self).xyzzy_progress == old(self).xyzzy_progress,
    {
        let resize = self.prefs.width != self.board.last_x + 1 || self.prefs.height != self.board.last_y + 1;
        let width = self.prefs.width;
        let height = self.prefs.height;
        let mines = self.prefs.mines;
        lay_field(&mut self.board, &mut self.rng, width, height, mines);
        proof {
            assert(width * height <= 750) by (nonlinear_arith)
                requires
                    1 <= width <= 30,
                    1 <= height <= 25,
            ;
        }
        self.btn_face_state = ButtonSprite::Happy;
        self.timer.reset();
        self.total_bombs = mines;
        self.bombs_left = mines;
        self.boxes_to_win = (width * height) as u16 - mines as u16;
        self.game_status = StatusFlag { play: true, pause: false, minimized: false, game_over: false };
        self.effects.push(Effect::DrawBombCount(mines));
        AdjustFlag { resize, redraw: true }
    }
}


/// `new` is `old` after the timer started with the first release on the
/// board: it runs and has counted its first second, which is drawn (with a
/// tick when sound is on), and the window timer is started.
pub open spec fn timer_started(old: GameState, new: GameState) -> bool {
    &&& new.timer == (Timer { state: TimerState::Running, elapsed: 1 })
    &&& new.effects@ == old.effects@ + if old.prefs.sound_enabled {
        seq![Effect::DrawTimer(1), Effect::PlaySound(Sound::Tick), Effect::StartTimer]
    } else {
        seq![Effect::DrawTimer(1), Effect::StartTimer]
    }
    &&& new == (GameState { timer: new.timer, effects: new.effects, ..old })
}

/// The timer starts when nothing has been revealed and no second counted
/// yet; otherwise nothing happens.
pub open spec fn start_or_keep(old: GameState, t: GameState) -> bool {
    if old.board.visits == 0 && old.timer.elapsed == 0 {
        timer_started(old, t)
    } else {
        t == old
    }
}

/// What a release does at the cursor: a chord, or a click on a hidden
/// unflagged cell; nothing on any other cell.
pub open spec fn step_at_cursor(t: GameState, m: GameState) -> bool {
    let c = t.board.cell_spec(t.cursor_x as int, t.cursor_y as int);
    if t.chord_active {
        block_stepped(t, m, t.cursor_x, t.cursor_y)
    } else if !c.visited && c.block_type != BlockCell::Flagged {
        square_stepped(t, m, t.cursor_x, t.cursor_y)
    } else {
        m == t
    }
}

/// `new` is `old` after the button held over the board was released: the
/// drag and the chord end. Outside play the pressed cells are lifted (the
/// cursor moves off the board). In play, on a cell of the board the timer
/// starts if the game had not begun (see `start_or_keep`) and the release
/// acts at the cursor (see `step_at_cursor`); the face is then redrawn.
pub open spec fn released(old: GameState, new: GameState) -> bool {
    let d = GameState { drag_active: false, ..old };
    &&& !new.chord_active && !new.drag_active
    &&& !old.game_status.play ==> exists|m: GameState|
        #![trigger moved_to(d, m, (usize::MAX - 2) as usize, (usize::MAX - 2) as usize)]
        moved_to(d, m, (usize::MAX - 2) as usize, (usize::MAX - 2) as usize) && new == (GameState {
            chord_active: false,
            ..m
        })
    &&& old.game_status.play && !old.board.in_area(old.cursor_x as int, old.cursor_y as int) ==> new
        == (GameState { chord_active: false, effects: new.effects, ..d }) && new.effects@
        == old.effects@.push(Effect::DrawButton(old.btn_face_state))
    &&& old.game_status.play && old.board.in_area(old.cursor_x as int, old.cursor_y as int) ==> exists|
        t: GameState,
        m: GameState,
    |
        #![trigger start_or_keep(d, t), step_at_cursor(t, m)]
        start_or_keep(d, t) && step_at_cursor(t, m) && new == (GameState {
            chord_active: false,
            effects: new.effects,
            ..m
        }) && new.effects@ == m.effects@.push(Effect::DrawButton(m.btn_face_state))
}

impl GameState {
    /// Start the timer with the first second counted (see `timer_started`).
    fn start_timer(&mut self)
        requires
            old(self).wf(),
            old(self).timer.elapsed == 0,
        ensures
            final(self).wf(),
            timer_started(*old(self), *final(self)),
    {
        let ghost f0 = self.effects@;
        self.timer.start();
        self.do_timer();
        self.effects.push(Effect::StartTimer);
        proof {
            if self.prefs.sound_enabled {
                assert(self.effects@ =~= f0 + seq![Effect::DrawTimer(1), Effect::PlaySound(Sound::Tick), Effect::StartTimer]);
            } else {
                assert(self.effects@ =~= f0 + seq![Effect::DrawTimer(1), Effect::StartTimer]);
            }
        }
    }

    /// A release in play on a cell of the board: see `released`.
    #[verifier::rlimit(40)]
    fn release_on_board(&mut self)
        requires
            old(self).wf(),
            old(self).game_status.play,
            old(self).board.in_area(old(self).cursor_x as int, old(self).cursor_y as int),
        ensures
            final(self).wf(),
            final(self).drag_active == old(self).drag_active,
            exists|t: GameState, m: GameState|
                #![trigger start_or_keep(*old(self), t), step_at_cursor(t, m)]
                start_or_keep(*old(self), t) && step_at_cursor(t, m) && *final(self) == (GameState {
                    chord_active: false,
                    effects: final(self).effects,
                    ..m
                }) && final(self).effects@ == m.effects@.push(Effect::DrawButton(m.btn_face_state)),
    {
        let ghost d = *self;
        let cx = self.cursor_x;
        let cy = self.cursor_y;
        if self.board.visits == 0 && self.timer.elapsed == 0 {
            self.start_timer();
        }
        let ghost t = *self;
        if self.chord_active {
            self.step_block(cx, cy);
        } else {
            let c = self.board.cell(cx, cy);
            if !c.visited && c.block_type != BlockCell::Flagged {
                self.step_square(cx, cy);
            }
        }
        let ghost m = *self;
        let face = self.btn_face_state;
        self.effects.push(Effect::DrawButton(face));
        self.chord_active = false;
        proof {
            assert(start_or_keep(d, t));
            assert(step_at_cursor(t, m));
        }
    }

    /// The button held over the board was released (see `released`).
    #[verifier::rlimit(40)]
    pub fn finish_primary_button_drag(&mut self)
        requires
            old(self).wf(),
        ensures
            final(self).wf(),
            released(*old(self), *final(self)),
    {
        self.drag_active = false;
        let ghost d = *self;
        proof {
            assert(d == GameState { drag_active: false, ..*old(self) });
        }
        if self.game_status.play {
            let cx = self.cursor_x;
            let cy = self.cursor_y;
            if self.in_range(cx, cy) {
                self.release_on_board();
            } else {
                let face = self.btn_face_state;
                self.effects.push(Effect::DrawButton(face));
                self.chord_active = false;
            }
        } else {
            self.track_mouse(usize::MAX - 2, usize::MAX - 2);
            let ghost m = *self;
            self.chord_active = false;
            proof {
                assert(moved_to(d, m, (usize::MAX - 2) as usize, (usize::MAX - 2) as usize));
            }
        }
    }
}


/// `new` is `old` after the pointer moved to `point` with the buttons `key`:
/// while the face button is pressed it follows the pointer; during a drag in
/// play the cells under the pointer are pressed, outside play the drag ends;
/// otherwise, in play once the timer counts, the cheat may show the cell.
pub open spec fn mouse_moved(old: GameState, new: GameState, key: u16, point: Point) -> bool {
    let (bx, by) = spec_box_from_point(old.grafix, point);
    &&& old.btn_face_pressed ==> face_moved(old, new, point)
    &&& !old.btn_face_pressed && old.drag_active && old.game_status.play ==> moved_to(old, new, bx, by)
    &&& !old.btn_face_pressed && old.drag_active && !old.game_status.play ==> released(old, new)
    &&& !old.btn_face_pressed && !old.drag_active && old.game_status.play && old.timer.elapsed > 0
        ==> xyzzy_moved(old, new, key, point)
    &&& !old.btn_face_pressed && !old.drag_active && !(old.game_status.play && old.timer.elapsed > 0)
        ==> new == old
}

/// `new` is `old` after a right click on the cell (`x`, `y`): a hidden cell
/// of the board cycles its mark (see `guess_next`), the counter changes by
/// `guess_delta` and is redrawn when it changes, the cell is redrawn, and a
/// flag placed when every cell to win is revealed wins the game. Any other
/// cell is left alone.
pub open spec fn guessed(old: GameState, new: GameState, x: usize, y: usize) -> bool {
    let c = old.board.cell_spec(x as int, y as int);
    let nb = guess_next(c.block_type, old.prefs.mark_enabled);
    let count = (old.bombs_left + guess_delta(c.block_type)) as i16;
    let fx = if guess_delta(c.block_type) != 0 {
        old.effects@.push(Effect::DrawBombCount(count))
    } else {
        old.effects@
    };
    &&& !(old.board.in_area(x as int, y as int) && !c.visited) ==> new == old
    &&& old.board.in_area(x as int, y as int) && !c.visited ==> exists|m: GameState|
        #![trigger guess_marked(old, m, x, y)]
        guess_marked(old, m, x, y) && m.bombs_left == count && m.effects@ == fx.push(
            Effect::DrawBlock { x, y, cell: nb },
        ) && if nb == BlockCell::Flagged && old.board.visits == old.boxes_to_win {
            ended(m, new, true)
        } else {
            new == m
        }
}

/// `m` is `old` with the mark of the cell (`x`, `y`) cycled (see
/// `guess_next`), its counter and effects aside.
pub open spec fn guess_marked(old: GameState, m: GameState, x: usize, y: usize) -> bool {
    let c = old.board.cell_spec(x as int, y as int);
    &&& m.board.last_x == old.board.last_x
    &&& m.board.last_y == old.board.last_y
    &&& m.board.visits == old.board.visits
    &&& m.board.cells@ == old.board.cells@.update(
        cell_index(x as int, y as int),
        BlockInfo { block_type: guess_next(c.block_type, old.prefs.mark_enabled), ..c },
    )
    &&& m == (GameState { board: m.board, bombs_left: m.bombs_left, effects: m.effects, ..old })
}

impl GameState {
    /// The pointer moved (see `mouse_moved`).
    #[verifier::rlimit(30)]
    pub fn handle_mouse_move(&mut self, key: u16, point: Point)
        requires
            old(self).wf(),
            layout_ok(old(self).grafix),
            point_ok(point),
        ensures
            final(self).wf(),
            mouse_moved(*old(self), *final(self), key, point),
    {
        if self.btn_face_pressed {
            self.handle_face_button_mouse_move(point);
        } else if self.drag_active {
            if self.game_status.play {
                let (x_new, y_new) = self.box_from_point(point);
                self.track_mouse(x_new, y_new);
            } else {
                self.finish_primary_button_drag();
            }
        } else if self.game_status.play && self.timer.elapsed > 0 {
            self.handle_xyzzys_mouse(key, point);
        }
    }

    /// Cycle the mark of the hidden cell (`x`, `y`) (see `guess_next`), move
    /// the bomb counter with it and draw both; the new sprite is returned.
    fn cycle_mark(&mut self, x: usize, y: usize) -> (block: BlockCell)
        requires
            old(self).wf(),
            old(self).game_status.play,
            old(self).board.in_area(x as int, y as int),
            !old(self).board.cell_spec(x as int, y as int).visited,
        ensures
            final(self).wf(),
            guess_marked(*old(self), *final(self), x, y),
            ({
                let c = old(self).board.cell_spec(x as int, y as int);
                let count = (old(self).bombs_left + guess_delta(c.block_type)) as i16;
                let fx = if guess_delta(c.block_type) != 0 {
                    old(self).effects@.push(Effect::DrawBombCount(count))
                } else {
                    old(self).effects@
                };
                &&& block == guess_next(c.block_type, old(self).prefs.mark_enabled)
                &&& final(self).bombs_left == count
                &&& final(self).effects@ == fx.push(Effect::DrawBlock { x, y, cell: block })
            }),
    {
        let c = self.board.cell(x, y);
        proof {
            crate::board::lemma_seq_count_le(self.board.cells@, CellPred::Flagged);
            assert(in_board(x as int, y as int));
            crate::board::lemma_seq_count_update(
                self.board.cells@,
                CellPred::Flagged,
                cell_index(x as int, y as int),
                BlockInfo { block_type: guess_next(c.block_type, self.prefs.mark_enabled), ..c },
            );
        }
        let block = if c.block_type == BlockCell::Flagged {
            self.bombs_left += 1;
            let n = self.bombs_left;
            self.effects.push(Effect::DrawBombCount(n));
            if self.prefs.mark_enabled {
                BlockCell::GuessUp
            } else {
                BlockCell::BlankUp
            }
        } else if c.block_type == BlockCell::GuessUp {
            BlockCell::BlankUp
        } else {
            self.bombs_left -= 1;
            let n = self.bombs_left;
            self.effects.push(Effect::DrawBombCount(n));
            BlockCell::Flagged
        };
        self.board.set_hidden_sprite(x, y, block);
        self.effects.push(Effect::DrawBlock { x, y, cell: block });
        block
    }

    /// A right click on the cell (`x`, `y`) in play (see `guessed`).
    pub fn make_guess(&mut self, x: usize, y: usize)
        requires
            old(self).wf(),
            old(self).game_status.play,
        ensures
            final(self).wf(),
            guessed(*old(self), *final(self), x, y),
    {
        if !self.in_range(x, y) {
            return;
        }
        let c = self.board.cell(x, y);
        if c.visited {
            return;
        }
        let block = self.cycle_mark(x, y);
        let ghost m = *self;
        if block == BlockCell::Flagged && self.check_win() {
            self.game_over(true);
        }
        proof {
            assert(guess_marked(*old(self), m, x, y));
        }
    }
}


/// Left and right buttons down, middle button up.
pub open spec fn chord_buttons(btn: u16) -> bool {
    btn & (MK_LBUTTON | MK_RBUTTON | MK_MBUTTON) == MK_LBUTTON | MK_RBUTTON
}

/// `new` is `old` after a right button press at `point` with the buttons
/// `btn`. A click that activated the window is swallowed, and so is any click
/// outside play. With the left button also down a chord begins: the pressed
/// cells are lifted, a drag begins and the pointer is tracked. Otherwise the
/// cell under the pointer cycles its mark (see `guessed`).
pub open spec fn rbutton_pressed(old: GameState, new: GameState, btn: u16, point: Point) -> bool {
    let c = GameState { ignore_next_click: false, ..old };
    let (bx, by) = spec_box_from_point(old.grafix, point);
    &&& (old.ignore_next_click || !old.game_status.play) ==> new == c
    &&& !old.ignore_next_click && old.game_status.play && chord_buttons(btn) ==> exists|
        a: GameState,
        b: GameState,
    |
        #![trigger moved_to(GameState { chord_active: true, ..c }, a, (usize::MAX - 3) as usize, (usize::MAX - 3) as usize), drag_begun(a, b)]
        moved_to(
            GameState { chord_active: true, ..c },
            a,
            (usize::MAX - 3) as usize,
            (usize::MAX - 3) as usize,
        ) && drag_begun(a, b) && mouse_moved(b, new, btn, point)
    &&& !old.ignore_next_click && old.game_status.play && !chord_buttons(btn) ==> guessed(c, new, bx, by)
}

/// `new` is `c` after a press of a button over the board: in play a drag
/// begins and the pointer is tracked; outside play nothing more happens.
pub open spec fn drag_from(c: GameState, new: GameState, key: u16, point: Point) -> bool {
    &&& c.game_status.play ==> exists|b: GameState|
        #![trigger drag_begun(c, b)]
        drag_begun(c, b) && mouse_moved(b, new, key, point)
    &&& !c.game_status.play ==> new == c
}

/// `new` is `old` after a left button press at `point` with the keys `vkey`.
/// A click that activated the window is swallowed. A press on the face
/// button presses it. Otherwise the right button or Shift held makes it a
/// chord, and in play a drag begins (see `drag_from`).
pub open spec fn lbutton_pressed(old: GameState, new: GameState, vkey: u16, point: Point) -> bool {
    let c = GameState { ignore_next_click: false, ..old };
    let on_face = spec_pt_in_rect(spec_button_rect(old.grafix), point);
    let chord = (vkey & MK_RBUTTON) != 0 || (vkey & MK_SHIFT) != 0;
    &&& old.ignore_next_click ==> new == c
    &&& !old.ignore_next_click && on_face ==> new == (GameState {
        btn_face_pressed: true,
        effects: new.effects,
        ..c
    }) && new.effects@ == old.effects@.push(Effect::DrawButton(ButtonSprite::Down))
    &&& !old.ignore_next_click && !on_face ==> drag_from(
        GameState { chord_active: old.chord_active || chord, ..c },
        new,
        vkey,
        point,
    )
}

/// `new` is `old` after a middle button press at `point` with the keys
/// `vkey`. A click that activated the window is swallowed. Otherwise the
/// middle button held toggles the chord, and in play a drag begins (see
/// `drag_from`).
pub open spec fn mbutton_pressed(old: GameState, new: GameState, vkey: u16, point: Point) -> bool {
    let c = GameState { ignore_next_click: false, ..old };
    let chord = if (vkey & MK_MBUTTON) != 0 {
        !old.chord_active
    } else {
        old.chord_active
    };
    &&& old.ignore_next_click ==> new == c
    &&& !old.ignore_next_click ==> drag_from(GameState { chord_active: chord, ..c }, new, vkey, point)
}

impl GameState {
    /// A press over the board: in play a drag begins and the pointer is
    /// tracked (see `drag_from`).
    fn drag_here(&mut self, key: u16, point: Point)
        requires
            old(self).wf(),
            layout_ok(old(self).grafix),
            point_ok(point),
        ensures
            final(self).wf(),
            drag_from(*old(self), *final(self), key, point),
    {
        if self.game_status.play {
            self.begin_primary_button_drag();
            let ghost b = *self;
            self.handle_mouse_move(key, point);
            proof {
                assert(drag_begun(*old(self), b));
            }
        }
    }

    /// A right button press (see `rbutton_pressed`).
    #[verifier::rlimit(40)]
    pub fn handle_rbutton_down(&mut self, btn: u16, point: Point)
        requires
            old(self).wf(),
            layout_ok(old(self).grafix),
            point_ok(point),
        ensures
            final(self).wf(),
            rbutton_pressed(*old(self), *final(self), btn, point),
    {
        let ignore = self.ignore_next_click;
        self.ignore_next_click = false;
        if !ignore && self.game_status.play {
            if btn & (MK_LBUTTON | MK_RBUTTON | MK_MBUTTON) == MK_LBUTTON | MK_RBUTTON {
                self.chord_active = true;
                let ghost c1 = *self;
                self.track_mouse(usize::MAX - 3, usize::MAX - 3);
                let ghost a = *self;
                self.begin_primary_button_drag();
                let ghost b = *self;
                self.handle_mouse_move(btn, point);
                proof {
                    assert(moved_to(c1, a, (usize::MAX - 3) as usize, (usize::MAX - 3) as usize));
                    assert(drag_begun(a, b));
                }
            } else {
                let (x, y) = self.box_from_point(point);
                self.make_guess(x, y);
            }
        }
    }

    /// A left button press (see `lbutton_pressed`).
    pub fn handle_lbutton_down(&mut self, vkey: u16, point: Point)
        requires
            old(self).wf(),
            layout_ok(old(self).grafix),
            point_ok(point),
        ensures
            final(self).wf(),
            lbutton_pressed(*old(self), *final(self), vkey, point),
    {
        let ignore = self.ignore_next_click;
        self.ignore_next_click = false;
        if !ignore && !self.btn_click_handler(point) {
            if (vkey & MK_RBUTTON) != 0 || (vkey & MK_SHIFT) != 0 {
                self.chord_active = true;
            }
            self.drag_here(vkey, point);
        }
    }

    /// A middle button press (see `mbutton_pressed`).
    pub fn handle_mbutton_down(&mut self, vkey: u16, point: Point)
        requires
            old(self).wf(),
            layout_ok(old(self).grafix),
            point_ok(point),
        ensures
            final(self).wf(),
            mbutton_pressed(*old(self), *final(self), vkey, point),
    {
        let ignore = self.ignore_next_click;
        self.ignore_next_click = false;
        if !ignore {
            if (vkey & MK_MBUTTON) != 0 {
                self.chord_active = !self.chord_active;
            }
            self.drag_here(vkey, point);
        }
    }
}

} // verus!

//! Properties of the game that span several operations or hold of every
//! input, stated over the operations' contracts and proved.

use vstd::prelude::*;

use crate::bmp::{
    decode_error, entry_bytes, le16, le32, le32_signed, lemma_decode_alike, lemma_stride_covers, palette_color, palette_entries,
    pixel_index, pixel_mask, reserved_byte, lemma_masked_index, row_bytes, row_stride, sprite_bytes, sprite_row_start, stored_byte,
};
use crate::board::{cell_at, cell_index, holds, in_board, invert_cell, lemma_invert_twice, CellPred};
use crate::census::{lemma_flat_is_area, lemma_rect_cover};
use crate::geometry::Point;
use crate::pref::{
    spec_game_type_index, spec_preset, GameType, mine_limit, prefs_read, read_back, registry_stored, Pref, PrefKey, RawPrefs, RegValue, MAXHEIGHT, MAXWIDTH,
    MINHEIGHT, MINMINES, MINWIDTH,
};
use crate::grafix::{
    dims_scaled, layout_ok, spec_bomb_digits, spec_time_digits, GrafixState, LEDSprite,
    WindowDimensions,
};
use crate::rtns::{
    game_over_effects, chord_buttons, rbutton_pressed, block_stepped, chord_allowed, chord_outcome, released, square_stepped, start_or_keep, step_at_cursor, ended, guess_marked, guessed, BlockInfo, Effect, guess_delta, guess_next, moved_to, paused, resumed, spec_box_from_point, xyzzy_toggled, BlockCell,
    GameState, TimerState,
};

verus! {

/// Pausing a game that was not paused, whose timer was not paused either,
/// and then resuming it gives back its status, its timer and its board; the
/// only trace is the request to stop the sounds.
pub proof fn law_pause_then_resume(s: GameState, p: GameState, r: GameState)
    requires
        !s.game_status.pause,
        s.timer.state != TimerState::Paused,
        paused(s, p),
        resumed(p, r),
    ensures
        r.game_status == s.game_status,
        r.timer == s.timer,
        r.board == s.board,
        r.prefs == s.prefs,
        r.effects@ == s.effects@.push(crate::rtns::Effect::StopSounds),
{
}

/// Shift pressed twice leaves the cheat as it was.
pub proof fn law_shift_twice(s: GameState, t: GameState, u: GameState)
    requires
        s.xyzzy_progress <= 5 || s.xyzzy_progress == 17,
        xyzzy_toggled(s, t),
        xyzzy_toggled(t, u),
    ensures
        u.xyzzy_progress == s.xyzzy_progress,
        u == (GameState { effects: u.effects, ..s }),
{
}

/// Pressing a cell and lifting it gives the cell back.
pub proof fn law_press_lift(b: BlockCell)
    ensures
        invert_cell(invert_cell(b)) == b,
{
    lemma_invert_twice(b);
}

/// With question marks on, three right clicks on a hidden cell bring its
/// mark back (blank, flag, question mark, blank) and the bomb counter with
/// it; with question marks off, two clicks do (blank, flag, blank).
pub proof fn law_guess_cycle(c: BlockCell)
    requires
        c == BlockCell::BlankUp || c == BlockCell::Flagged || c == BlockCell::GuessUp,
    ensures
        guess_next(guess_next(guess_next(c, true), true), true) == c,
        guess_delta(c) + guess_delta(guess_next(c, true)) + guess_delta(
            guess_next(guess_next(c, true), true),
        ) == 0,
        c != BlockCell::GuessUp ==> guess_next(guess_next(c, false), false) == c,
        c != BlockCell::GuessUp ==> guess_delta(c) + guess_delta(guess_next(c, false)) == 0,
{
}

/// The three LED digits of the timer spell the time, for every time the
/// timer can show.
pub proof fn law_time_digits(t: u16)
    requires
        t <= 999,
    ensures
        ({
            let (a, b, c) = spec_time_digits(t);
            &&& a.spec_index() < 10 && b.spec_index() < 10 && c.spec_index() < 10
            &&& 100 * a.spec_index() + 10 * b.spec_index() + c.spec_index() == t
        }),
{
}

/// The three LED digits of the bomb counter spell the count: its digits
/// when it is not negative, a minus sign and the two digits of its
/// magnitude when it is negative.
pub proof fn law_bomb_digits(n: i16)
    requires
        -99 <= n <= 999,
    ensures
        ({
            let (a, b, c) = spec_bomb_digits(n);
            &&& b.spec_index() < 10 && c.spec_index() < 10
            &&& n >= 0 ==> a.spec_index() < 10 && 100 * a.spec_index() + 10 * b.spec_index()
                + c.spec_index() == n
            &&& n < 0 ==> a == LEDSprite::Negative && 10 * b.spec_index() + c.spec_index() == -n
        }),
{
}

/// At the base DPI every dimension is its base value.
pub proof fn law_base_dpi_identity(d: WindowDimensions)
    requires
        dims_scaled(d, 96),
    ensures
        d.block.cx == 16 && d.block.cy == 16,
        d.led.cx == 13 && d.led.cy == 23,
        d.button.cx == 24 && d.button.cy == 24,
        d.left_space == 12 && d.right_space == 12 && d.top_space == 12 && d.bottom_space == 12,
        d.top_led == 16 && d.grid_offset == 55 && d.left_bomb == 17 && d.right_timer == 17,
{
}

/// The cell under the top-left pixel of a cell (see
/// `GrafixState::block_origin`) is that cell (see `GameState::box_from_point`),
/// for square cells.
pub proof fn law_cell_under_origin(g: GrafixState, x: usize, y: usize)
    requires
        layout_ok(g),
        g.dims.block.cy == g.dims.block.cx,
        x < 30,
        y < 25,
    ensures
        spec_box_from_point(
            g,
            Point {
                x: (x * g.dims.block.cx + g.dims.left_space) as i32,
                y: (y * g.dims.block.cy + g.dims.grid_offset) as i32,
            },
        ) == (x, y),
{
    let c = g.dims.block.cx as int;
    assert((x * c) / c == x) by (nonlinear_arith)
        requires
            c > 0,
    ;
    assert(0 <= x * c <= 29 * 0x10000) by (nonlinear_arith)
        requires
            0 < c <= 0x10000,
            x < 30,
    ;
    assert((y * c) / c == y) by (nonlinear_arith)
        requires
            c > 0,
    ;
    assert(0 <= y * c <= 24 * 0x10000) by (nonlinear_arith)
        requires
            0 < c <= 0x10000,
            y < 25,
    ;
    assert(0 <= y * g.dims.block.cy <= 24 * 0x10000) by (nonlinear_arith)
        requires
            0 <= g.dims.block.cy <= 0x10000,
            y < 25,
    ;
}

/// A decoded row of `n` pixels holds 4 bytes per pixel.
pub proof fn law_row_len(b: Seq<u8>, width: int, height: int, i: int, y: int, n: int)
    requires
        n >= 0,
    ensures
        row_bytes(b, width, height, i, y, n).len() == 4 * n,
    decreases n,
{
    if n > 0 {
        law_row_len(b, width, height, i, y, n - 1);
    }
}

/// A decoded sprite of `rows` rows of `width` pixels holds 4 bytes per
/// pixel.
pub proof fn law_sprite_len(b: Seq<u8>, width: int, height: int, i: int, rows: int)
    requires
        rows >= 0,
        width >= 0,
    ensures
        sprite_bytes(b, width, height, i, rows).len() == 4 * width * rows,
    decreases rows,
{
    if rows > 0 {
        law_sprite_len(b, width, height, i, rows - 1);
        law_row_len(b, width, height, i, rows - 1, width);
        assert(4 * width * (rows - 1) + 4 * width == 4 * width * rows) by (nonlinear_arith);
    } else {
        assert(4 * width * rows == 0) by (nonlinear_arith)
            requires
                rows == 0,
        ;
    }
}

/// During play the game is won (its count of revealed cells reaches the
/// count to win) exactly when every cell of the board without a bomb has
/// been revealed.
pub proof fn law_win_iff_all_safe_cells_revealed(s: GameState)
    requires
        s.wf(),
        s.game_status.play,
    ensures
        (s.board.visits == s.boxes_to_win) <==> forall|x: int, y: int|
            s.board.in_area(x, y) && !#[trigger] s.board.cell_spec(x, y).bomb ==> s.board.cell_spec(
                x,
                y,
            ).visited,
{
    let b = s.board;
    let lx = b.last_x as int;
    let ly = b.last_y as int;
    assert forall|x: int, y: int|
        0 <= x < 30 && 0 <= y < 25 && !(x <= lx && y <= ly) implies !holds(
        CellPred::Visited,
        #[trigger] cell_at(b.cells@, x, y),
    ) by {
        assert(in_board(x, y));
    }
    lemma_flat_is_area(b.cells@, CellPred::Visited, lx, ly);
    assert forall|x: int, y: int| 0 <= x <= lx && 0 <= y <= ly implies !(#[trigger] cell_at(
        b.cells@,
        x,
        y,
    ).visited && cell_at(b.cells@, x, y).bomb) by {
        assert(in_board(x, y));
    }
    lemma_rect_cover(b.cells@, lx, ly);
    if s.board.visits == s.boxes_to_win {
        assert forall|x: int, y: int|
            s.board.in_area(x, y) && !#[trigger] s.board.cell_spec(x, y).bomb implies s.board.cell_spec(
            x,
            y,
        ).visited by {
            assert(cell_at(b.cells@, x, y).visited || cell_at(b.cells@, x, y).bomb);
        }
    }
    if forall|x: int, y: int|
        s.board.in_area(x, y) && !#[trigger] s.board.cell_spec(x, y).bomb ==> s.board.cell_spec(
            x,
            y,
        ).visited {
        assert forall|x: int, y: int| 0 <= x <= lx && 0 <= y <= ly implies #[trigger] cell_at(
            b.cells@,
            x,
            y,
        ).visited || cell_at(b.cells@, x, y).bomb by {
            assert(s.board.in_area(x, y));
            assert(cell_at(b.cells@, x, y) == s.board.cell_spec(x, y));
        }
    }
}

/// Holding a button down and moving the pointer to a cell and back gives the
/// board back as it was: every cell pressed on the way is lifted again.
pub proof fn law_move_and_back(s: GameState, t: GameState, u: GameState, x: usize, y: usize)
    requires
        s.wf(),
        moved_to(s, t, x, y),
        moved_to(t, u, s.cursor_x, s.cursor_y),
    ensures
        u.board.cells@ == s.board.cells@,
        u.board.visits == s.board.visits,
        u.cursor_x == s.cursor_x,
        u.cursor_y == s.cursor_y,
{
    if !(x == s.cursor_x && y == s.cursor_y) {
        assert forall|i: int| 0 <= i < u.board.cells@.len() implies u.board.cells@[i] == s.board.cells@[i] by {
            crate::board::lemma_index_cell(i);
            let cx = i / 25;
            let cy = i % 25;
            assert(in_board(cx, cy) && i == cell_index(cx, cy));
            let c = cell_at(s.board.cells@, cx, cy);
            lemma_invert_twice(c.block_type);
            lemma_invert_twice(invert_cell(c.block_type));
            assert(cell_at(u.board.cells@, cx, cy) == cell_at(s.board.cells@, cx, cy));
        }
        assert(u.board.cells@ =~= s.board.cells@);
    }
}

/// One right click on a hidden cell (see `guessed`) before the last cell to
/// win is revealed: the cell's sprite steps on (see `guess_next`), the
/// counter moves by `guess_delta` (in `i16`), and the rest of the board, the
/// counts and the status stay.
proof fn lemma_one_click(s: GameState, t: GameState, x: usize, y: usize)
    requires
        s.board.in_area(x as int, y as int),
        !s.board.cell_spec(x as int, y as int).visited,
        s.board.visits != s.boxes_to_win,
        guessed(s, t, x, y),
    ensures
        ({
            let c = s.board.cell_spec(x as int, y as int);
            &&& t.board.cells@ == s.board.cells@.update(
                cell_index(x as int, y as int),
                BlockInfo { block_type: guess_next(c.block_type, s.prefs.mark_enabled), ..c },
            )
            &&& t.bombs_left == (s.bombs_left + guess_delta(c.block_type)) as i16
        }),
        t.board.visits == s.board.visits,
        t.board.last_x == s.board.last_x,
        t.board.last_y == s.board.last_y,
        t.boxes_to_win == s.boxes_to_win,
        t.prefs == s.prefs,
        t.game_status == s.game_status,
        t.grafix == s.grafix,
        t.ignore_next_click == s.ignore_next_click,
{
    let m = choose|m: GameState| #[trigger] guess_marked(s, m, x, y) && m.bombs_left == (s.bombs_left + guess_delta(
        s.board.cell_spec(x as int, y as int).block_type,
    )) as i16 && m.effects@ == (if guess_delta(s.board.cell_spec(x as int, y as int).block_type) != 0 {
        s.effects@.push(Effect::DrawBombCount((s.bombs_left + guess_delta(s.board.cell_spec(x as int, y as int).block_type)) as i16))
    } else {
        s.effects@
    }).push(Effect::DrawBlock { x, y, cell: guess_next(s.board.cell_spec(x as int, y as int).block_type, s.prefs.mark_enabled) })
        && if guess_next(s.board.cell_spec(x as int, y as int).block_type, s.prefs.mark_enabled) == BlockCell::Flagged
        && s.board.visits == s.boxes_to_win {
        ended(m, t, true)
    } else {
        t == m
    };
    assert(t == m);
}

/// With question marks on, three right clicks on a hidden raised blank cell,
/// before the last cell to win is revealed, give the board and the bomb
/// counter back: blank, flag, question mark, blank.
pub proof fn law_right_clicks_cycle_with_marks(s0: GameState, s1: GameState, s2: GameState, s3: GameState, x: usize, y: usize)
    requires
        s0.wf(),
        s0.board.in_area(x as int, y as int),
        !s0.board.cell_spec(x as int, y as int).visited,
        s0.board.cell_spec(x as int, y as int).block_type == BlockCell::BlankUp,
        s0.board.visits != s0.boxes_to_win,
        s0.prefs.mark_enabled,
        guessed(s0, s1, x, y),
        guessed(s1, s2, x, y),
        guessed(s2, s3, x, y),
    ensures
        s3.board.cells@ == s0.board.cells@,
        s3.bombs_left == s0.bombs_left,
        s3.game_status == s0.game_status,
{
    let i = cell_index(x as int, y as int);
    assert(in_board(x as int, y as int));
    lemma_one_click(s0, s1, x, y);
    assert(s1.board.cell_spec(x as int, y as int).block_type == BlockCell::Flagged);
    lemma_one_click(s1, s2, x, y);
    assert(s2.board.cell_spec(x as int, y as int).block_type == BlockCell::GuessUp);
    lemma_one_click(s2, s3, x, y);
    assert(s3.board.cells@ =~= s0.board.cells@);
    let b0 = s0.bombs_left;
    assert(((((b0 - 1) as i16) + 1) as i16) == b0) by (bit_vector);
}

/// With question marks off, two right clicks on a hidden raised blank cell,
/// before the last cell to win is revealed, give the board and the bomb
/// counter back: blank, flag, blank.
pub proof fn law_right_clicks_cycle_without_marks(s0: GameState, s1: GameState, s2: GameState, x: usize, y: usize)
    requires
        s0.wf(),
        s0.board.in_area(x as int, y as int),
        !s0.board.cell_spec(x as int, y as int).visited,
        s0.board.cell_spec(x as int, y as int).block_type == BlockCell::BlankUp,
        s0.board.visits != s0.boxes_to_win,
        !s0.prefs.mark_enabled,
        guessed(s0, s1, x, y),
        guessed(s1, s2, x, y),
    ensures
        s2.board.cells@ == s0.board.cells@,
        s2.bombs_left == s0.bombs_left,
        s2.game_status == s0.game_status,
{
    assert(in_board(x as int, y as int));
    lemma_one_click(s0, s1, x, y);
    assert(s1.board.cell_spec(x as int, y as int).block_type == BlockCell::Flagged);
    lemma_one_click(s1, s2, x, y);
    assert(s2.board.cells@ =~= s0.board.cells@);
    let b0 = s0.bombs_left;
    assert(((((b0 - 1) as i16) + 1) as i16) == b0) by (bit_vector);
}

/// Preferences within their ranges, stored in the registry (see
/// `Pref::registry_values`) and read back (see `Pref::read_preferences`)
/// with a working audio reset, come back unchanged.
pub proof fn law_preferences_round_trip(
    p: Pref,
    r: Seq<(PrefKey, RegValue)>,
    raw: RawPrefs,
    default_color: u32,
    q: Pref,
)
    requires
        MINHEIGHT <= p.height <= MAXHEIGHT,
        MINWIDTH <= p.width <= MAXWIDTH,
        MINMINES <= p.mines <= mine_limit(p.height as u32, p.width as u32),
        p.beginner_time <= 999,
        p.inter_time <= 999,
        p.expert_time <= 999,
        registry_stored(p, r),
        read_back(r, raw),
        prefs_read(raw, default_color, true, q),
    ensures
        q.game_type == p.game_type,
        q.height == p.height,
        q.width == p.width,
        q.mines == p.mines,
        q.wnd_pos == p.wnd_pos,
        q.sound_enabled == p.sound_enabled,
        q.mark_enabled == p.mark_enabled,
        q.color == p.color,
        q.beginner_time == p.beginner_time,
        q.inter_time == p.inter_time,
        q.expert_time == p.expert_time,
        q.beginner_name@ == p.beginner_name@,
        q.inter_name@ == p.inter_name@,
        q.expert_name@ == p.expert_name@,
{
    let x = p.wnd_pos.x;
    let y = p.wnd_pos.y;
    assert((x as u32) as i32 == x) by (bit_vector);
    assert((y as u32) as i32 == y) by (bit_vector);
    assert(mine_limit(p.height as u32, p.width as u32) <= 999);
}

/// Decoding reads only the headers, the blue, green and red bytes of the
/// palette entries and the bits of each pixel: files that differ only in the
/// reserved byte of palette entries or in bits that belong to no pixel (row
/// padding, unused low bits of a row's last byte) decode alike.
pub proof fn law_decode_ignores_unused_bits(b1: Seq<u8>, b2: Seq<u8>, sprites: int, n: int, width: int, height: int)
    requires
        b1.len() == b2.len(),
        b1.len() >= 54,
        forall|j: int| 0 <= j < 54 ==> #[trigger] b1[j] == b2[j],
        forall|k: int|
            0 <= k < palette_entries(le32(b1, 46), le16(b1, 28)) ==> #[trigger] entry_bytes(b1, k) == entry_bytes(b2, k),
        forall|i: int, y: int, x: int|
            0 <= i < sprites && 0 <= y < height && 0 <= x < width ==> #[trigger] pixel_index(
                b1,
                sprite_row_start(b1, width, height, i, y),
                x,
            ) == pixel_index(b2, sprite_row_start(b2, width, height, i, y), x),
    ensures
        decode_error(sprites, n, width, height, b1) == decode_error(sprites, n, width, height, b2),
        forall|i: int|
            0 <= i < sprites ==> #[trigger] sprite_bytes(b1, width, height, i, height) == sprite_bytes(
                b2,
                width,
                height,
                i,
                height,
            ),
{
    assert(le32(b1, 14) == le32(b2, 14) && le32(b1, 46) == le32(b2, 46) && le16(b1, 28) == le16(b2, 28));
    assert(le32(b1, 22) == le32(b2, 22));
    assert forall|k: int| 0 <= k < 16 implies #[trigger] palette_color(b1, k) == palette_color(b2, k) by {
        if 0 <= k < palette_entries(le32(b1, 46), le16(b1, 28)) {
            assert(entry_bytes(b1, k) == entry_bytes(b2, k));
        }
    }
    lemma_decode_alike(b1, b2, sprites, n, width, height);
}

/// Sprites stored top row first (a negative stored height) and the same
/// sprites stored bottom row first decode alike, when the palette lies before
/// the pixels: `b2` holds the rows of each sprite of `b1` in reverse order
/// and the negated height, and agrees with it everywhere before the pixels.
pub proof fn law_decode_storage_order(b1: Seq<u8>, b2: Seq<u8>, sprites: int, n: int, width: int, height: int)
    requires
        b1.len() == b2.len(),
        b1.len() >= 54,
        le32_signed(b1, 22) > 0,
        le32_signed(b2, 22) == -le32_signed(b1, 22),
        forall|j: int| 0 <= j < le32(b1, 10) && !(22 <= j < 26) ==> #[trigger] b1[j] == b2[j],
        14 + le32(b1, 14) + 4 * palette_entries(le32(b1, 46), le16(b1, 28)) <= le32(b1, 10),
        forall|i: int, y: int, k: int|
            0 <= i < sprites && 0 <= y < height && 0 <= k < row_stride(width, le16(b1, 28)) ==> #[trigger] stored_byte(
                b2,
                width,
                height,
                i,
                y,
                k,
            ) == stored_byte(b1, width, height, i, height - 1 - y, k),
    ensures
        decode_error(sprites, n, width, height, b1) == decode_error(sprites, n, width, height, b2),
        decode_error(sprites, n, width, height, b1) is None ==> forall|i: int|
            0 <= i < sprites ==> #[trigger] sprite_bytes(b1, width, height, i, height) == sprite_bytes(
                b2,
                width,
                height,
                i,
                height,
            ),
{
    assert(b1[10] == b2[10] && b1[11] == b2[11] && b1[12] == b2[12] && b1[13] == b2[13]);
    if le32(b1, 10) >= 54 {
        assert(le32(b1, 2) == le32(b2, 2) && le32(b1, 14) == le32(b2, 14) && le16(b1, 28) == le16(b2, 28));
        assert(le32(b1, 46) == le32(b2, 46) && le32(b1, 18) == le32(b2, 18));
        assert(b1[0] == b2[0] && b1[1] == b2[1]);
    }
    if decode_error(sprites, n, width, height, b1) is None {
        let bc = le16(b1, 28);
        let stride = row_stride(width, bc);
        assert(le32(b1, 10) >= 54);
        assert forall|k: int| 0 <= k < 16 implies #[trigger] palette_color(b1, k) == palette_color(b2, k) by {
            if 0 <= k < palette_entries(le32(b1, 46), le16(b1, 28)) {
                let at = 14 + le32(b1, 14) + 4 * k;
                assert(b1[at] == b2[at] && b1[at + 1] == b2[at + 1] && b1[at + 2] == b2[at + 2]);
            }
        }
        assert forall|i: int, y: int, x: int|
            0 <= i < sprites && 0 <= y < height && 0 <= x < width implies #[trigger] pixel_index(
            b1,
            sprite_row_start(b1, width, height, i, y),
            x,
        ) == pixel_index(b2, sprite_row_start(b2, width, height, i, y), x) by {
            lemma_stride_covers(width, bc, x);
            let kk = if bc == 1 {
                x / 8
            } else {
                x / 2
            };
            assert(stored_byte(b2, width, height, i, y, kk) == stored_byte(b1, width, height, i, height - 1 - y, kk));
        }
        lemma_decode_alike(b1, b2, sprites, n, width, height);
    }
}

/// Releasing the button on a cell of the board in play, before anything is
/// revealed and before the timer counted, starts the timer: whatever the
/// release does to the board, the timer shows one second.
pub proof fn law_first_release_starts_timer(old: GameState, new: GameState)
    requires
        old.game_status.play,
        old.board.in_area(old.cursor_x as int, old.cursor_y as int),
        old.board.visits == 0,
        old.timer.elapsed == 0,
        released(old, new),
    ensures
        new.timer.elapsed == 1,
{
    let d = GameState { drag_active: false, ..old };
    let (t, m) = choose|t: GameState, m: GameState|
        #![trigger start_or_keep(d, t), step_at_cursor(t, m)]
        start_or_keep(d, t) && step_at_cursor(t, m) && new == (GameState {
            chord_active: false,
            effects: new.effects,
            ..m
        }) && new.effects@ == m.effects@.push(Effect::DrawButton(m.btn_face_state));
    assert(t.timer.elapsed == 1);
    let c = t.board.cell_spec(t.cursor_x as int, t.cursor_y as int);
    if t.chord_active {
        assert(block_stepped(t, m, t.cursor_x, t.cursor_y));
        if chord_allowed(t, t.cursor_x as int, t.cursor_y as int) {
            assert(chord_outcome(t, m, t.cursor_x as int, t.cursor_y as int));
        }
    } else if !c.visited && c.block_type != BlockCell::Flagged {
        assert(square_stepped(t, m, t.cursor_x, t.cursor_y));
    }
    assert(m.timer.elapsed == 1);
}

/// With question marks on, three presses of the right button alone over the
/// same hidden raised blank cell in play (see `GameState::handle_rbutton_down`),
/// before the last cell to win is revealed, give the board and the bomb
/// counter back.
pub proof fn law_right_button_cycle_with_marks(
    s0: GameState,
    s1: GameState,
    s2: GameState,
    s3: GameState,
    btn: u16,
    point: Point,
)
    requires
        s0.wf(),
        s0.game_status.play,
        !s0.ignore_next_click,
        !chord_buttons(btn),
        s0.prefs.mark_enabled,
        s0.board.visits != s0.boxes_to_win,
        ({
            let (bx, by) = spec_box_from_point(s0.grafix, point);
            &&& s0.board.in_area(bx as int, by as int)
            &&& !s0.board.cell_spec(bx as int, by as int).visited
            &&& s0.board.cell_spec(bx as int, by as int).block_type == BlockCell::BlankUp
        }),
        rbutton_pressed(s0, s1, btn, point),
        rbutton_pressed(s1, s2, btn, point),
        rbutton_pressed(s2, s3, btn, point),
    ensures
        s3.board.cells@ == s0.board.cells@,
        s3.bombs_left == s0.bombs_left,
        s3.game_status == s0.game_status,
{
    let (bx, by) = spec_box_from_point(s0.grafix, point);
    assert(GameState { ignore_next_click: false, ..s0 } == s0);
    assert(guessed(s0, s1, bx, by));
    lemma_one_click(s0, s1, bx, by);
    assert(in_board(bx as int, by as int));
    assert(GameState { ignore_next_click: false, ..s1 } == s1);
    assert(s1.board.cell_spec(bx as int, by as int).block_type == BlockCell::Flagged);
    lemma_one_click(s1, s2, bx, by);
    assert(GameState { ignore_next_click: false, ..s2 } == s2);
    assert(s2.board.cell_spec(bx as int, by as int).block_type == BlockCell::GuessUp);
    lemma_one_click(s2, s3, bx, by);
    law_right_clicks_cycle_with_marks(s0, s1, s2, s3, bx, by);
}

/// Files that differ only in the reserved fourth byte of palette entries,
/// in the bits of pixel rows that belong to no pixel (row padding, unused low
/// bits of a row's last byte) and past the pixels decode alike, when the
/// header is complete and the palette lies before the pixels.
pub proof fn law_decode_ignores_reserved_and_padding(
    b1: Seq<u8>,
    b2: Seq<u8>,
    sprites: int,
    n: int,
    width: int,
    height: int,
)
    requires
        b1.len() == b2.len(),
        b1.len() >= 54,
        le32(b1, 14) >= 40,
        14 + le32(b1, 14) + 4 * palette_entries(le32(b1, 46), le16(b1, 28)) <= le32(b1, 10),
        forall|j: int| 0 <= j < le32(b1, 10) && !reserved_byte(b1, j) ==> #[trigger] b1[j] == b2[j],
        forall|i: int, y: int, k: int|
            0 <= i < sprites && 0 <= y < height && 0 <= k < row_stride(width, le16(b1, 28)) ==> #[trigger] stored_byte(
                b2,
                width,
                height,
                i,
                y,
                k,
            ) & pixel_mask(width, le16(b1, 28), k) == stored_byte(b1, width, height, i, y, k) & pixel_mask(
                width,
                le16(b1, 28),
                k,
            ),
    ensures
        decode_error(sprites, n, width, height, b1) == decode_error(sprites, n, width, height, b2),
        decode_error(sprites, n, width, height, b1) is None ==> forall|i: int|
            0 <= i < sprites ==> #[trigger] sprite_bytes(b1, width, height, i, height) == sprite_bytes(
                b2,
                width,
                height,
                i,
                height,
            ),
{
    assert forall|j: int| 0 <= j < 54 implies #[trigger] b1[j] == b2[j] by {
        assert(!reserved_byte(b1, j));
        assert(b1[j] == b2[j]);
    }
    assert(le32(b1, 2) == le32(b2, 2) && le32(b1, 10) == le32(b2, 10) && le32(b1, 14) == le32(b2, 14));
    assert(le16(b1, 28) == le16(b2, 28) && le32(b1, 46) == le32(b2, 46) && le32(b1, 18) == le32(b2, 18));
    assert(le32(b1, 22) == le32(b2, 22));
    assert(b1[0] == b2[0] && b1[1] == b2[1]);
    if decode_error(sprites, n, width, height, b1) is None {
        let bc = le16(b1, 28);
        let first = 14 + le32(b1, 14);
        assert forall|k: int| 0 <= k < palette_entries(le32(b1, 46), le16(b1, 28)) implies #[trigger] entry_bytes(b1, k)
            == entry_bytes(b2, k) by {
            let at = first + 4 * k;
            assert((at - first) % 4 == 0 && (at + 1 - first) % 4 == 1 && (at + 2 - first) % 4 == 2);
            assert(!reserved_byte(b1, at) && !reserved_byte(b1, at + 1) && !reserved_byte(b1, at + 2));
            assert(b1[at] == b2[at] && b1[at + 1] == b2[at + 1] && b1[at + 2] == b2[at + 2]);
        }
        assert forall|i: int, y: int, x: int|
            0 <= i < sprites && 0 <= y < height && 0 <= x < width implies #[trigger] pixel_index(
            b1,
            sprite_row_start(b1, width, height, i, y),
            x,
        ) == pixel_index(b2, sprite_row_start(b2, width, height, i, y), x) by {
            lemma_stride_covers(width, bc, x);
            let kk = if bc == 1 {
                x / 8
            } else {
                x / 2
            };
            let src_y = if le32_signed(b1, 22) < 0 {
                y
            } else {
                height - 1 - y
            };
            assert(0 <= src_y < height);
            let a1 = stored_byte(b1, width, height, i, src_y, kk);
            let a2 = stored_byte(b2, width, height, i, src_y, kk);
            assert(a2 & pixel_mask(width, bc, kk) == a1 & pixel_mask(width, bc, kk));
            lemma_masked_index(a1, a2, width, bc, x);
        }
        law_decode_ignores_unused_bits(b1, b2, sprites, n, width, height);
    }
}

/// The end of a game records the best time of its difficulty only: a won
/// Beginner, Intermediate or Expert game sets that difficulty's best time to
/// the elapsed time when it is lower, and leaves the best times of the other
/// difficulties, the board settings and the names alone; a lost game or a
/// Custom game changes no best time. The record dialogs are asked for (the
/// last effect is `NewRecord`) exactly when a best time went down.
pub proof fn law_game_end_records_best_time(s: GameState, t: GameState, win: bool)
    requires
        ended(s, t, win),
    ensures
        t.prefs.beginner_time == (if win && s.prefs.game_type == GameType::Begin && s.timer.elapsed
            < s.prefs.beginner_time {
            s.timer.elapsed
        } else {
            s.prefs.beginner_time
        }),
        t.prefs.inter_time == (if win && s.prefs.game_type == GameType::Inter && s.timer.elapsed
            < s.prefs.inter_time {
            s.timer.elapsed
        } else {
            s.prefs.inter_time
        }),
        t.prefs.expert_time == (if win && s.prefs.game_type == GameType::Expert && s.timer.elapsed
            < s.prefs.expert_time {
            s.timer.elapsed
        } else {
            s.prefs.expert_time
        }),
        t.prefs.game_type == s.prefs.game_type,
        t.prefs.mines == s.prefs.mines,
        t.prefs.height == s.prefs.height,
        t.prefs.width == s.prefs.width,
        t.prefs.beginner_name@ == s.prefs.beginner_name@,
        t.prefs.inter_name@ == s.prefs.inter_name@,
        t.prefs.expert_name@ == s.prefs.expert_name@,
        (t.effects@.last() == Effect::NewRecord) <==> (t.prefs.beginner_time < s.prefs.beginner_time
            || t.prefs.inter_time < s.prefs.inter_time || t.prefs.expert_time < s.prefs.expert_time),
{
    let e = game_over_effects(s, win);
    assert(t.effects@.last() == e.last());
}

/// Preferences read from an empty registry select the Beginner difficulty,
/// and their board (9 x 9 cells, 10 mines) is the one that choosing Beginner
/// from the menu gives (see `Pref::apply_difficulty`).
pub proof fn law_default_board_is_beginner(raw: RawPrefs, default_color: u32, reset_ok: bool, p: Pref)
    requires
        raw.difficulty is None,
        raw.mines is None,
        raw.height is None,
        raw.width is None,
        prefs_read(raw, default_color, reset_ok, p),
    ensures
        p.game_type == GameType::Begin,
        spec_preset(p.game_type) == Some((p.mines, p.height as u32, p.width as u32)),
{
    assert(mine_limit(9, 9) == 64);
}

/// The preset difficulties grow: a harder one has more mines on a board with
/// more cells, packed more densely, and every preset is a board that the Custom dialog accepts
/// (height `MINHEIGHT..=24`, width `MINWIDTH..=30`, mines
/// `MINMINES..=mine_limit(height, width)`).
pub proof fn law_presets_grow(g1: GameType, g2: GameType)
    requires
        g1 != GameType::Other,
        g2 != GameType::Other,
        spec_game_type_index(g1) < spec_game_type_index(g2),
    ensures
        ({
            let (m1, h1, w1) = spec_preset(g1).unwrap();
            let (m2, h2, w2) = spec_preset(g2).unwrap();
            &&& m1 < m2
            &&& h1 * w1 < h2 * w2
            &&& m1 * (h2 * w2) < m2 * (h1 * w1)
            &&& MINHEIGHT <= h1 <= 24 && MINWIDTH <= w1 <= 30 && MINMINES <= m1 <= mine_limit(h1, w1)
            &&& MINHEIGHT <= h2 <= 24 && MINWIDTH <= w2 <= 30 && MINMINES <= m2 <= mine_limit(h2, w2)
        }),
{
    assert(mine_limit(9, 9) == 64);
    assert(mine_limit(16, 16) == 225);
    assert(mine_limit(16, 30) == 435);
}

} // verus!

use winmine::board::Board;
use winmine::geometry::Point;
use winmine::rtns::{BlockCell, Effect, GameState, TimerState, MK_CONTROL, MK_LBUTTON, MK_MBUTTON, MK_RBUTTON};
use winmine::grafix::ButtonSprite;
use winmine::sound::Sound;

/// A game of `w` by `h` cells in play with bombs exactly at `bombs`.
fn game_with_bombs(w: usize, h: usize, bombs: &[(usize, usize)]) -> GameState {
    let mut g = GameState::new(1);
    g.grafix.dims.update_dpi(96);
    g.prefs.width = w;
    g.prefs.height = h;
    g.prefs.mines = 0;
    g.start_game();
    for &(x, y) in bombs {
        g.board.set_bomb(x, y, true);
    }
    let n = bombs.len() as i16;
    g.total_bombs = n;
    g.bombs_left = n;
    g.boxes_to_win = (w * h) as u16 - n as u16;
    g.update_window_extent();
    g.effects.clear();
    g
}

fn count_bombs(b: &Board) -> usize {
    let mut n = 0;
    for x in 0..=b.last_x {
        for y in 0..=b.last_y {
            if b.cell(x, y).bomb {
                n += 1;
            }
        }
    }
    n
}

#[test]
fn start_game_places_exactly_the_mines() {
    let mut g = GameState::new(7);
    g.grafix.dims.update_dpi(96);
    g.prefs.width = 30;
    g.prefs.height = 16;
    g.prefs.mines = 99;
    let adj = g.start_game();
    assert!(adj.resize);
    assert!(adj.redraw);
    assert_eq!(g.board.last_x, 29);
    assert_eq!(g.board.last_y, 15);
    assert_eq!(count_bombs(&g.board), 99);
    assert_eq!(g.bombs_left, 99);
    assert_eq!(g.total_bombs, 99);
    assert_eq!(g.boxes_to_win, 30 * 16 - 99);
    assert!(g.game_status.play);
    assert!(!g.game_status.pause && !g.game_status.minimized && !g.game_status.game_over);
    assert_eq!(g.btn_face_state, ButtonSprite::Happy);
    assert_eq!(g.timer.elapsed, 0);
    assert_eq!(g.timer.state, TimerState::Stopped);
    assert_eq!(g.effects, vec![Effect::DrawBombCount(99)]);
    // The same size again: only a redraw.
    let adj = g.start_game();
    assert!(!adj.resize);
    assert!(adj.redraw);
}

#[test]
fn start_game_full_board_of_mines() {
    let mut g = GameState::new(3);
    g.grafix.dims.update_dpi(96);
    g.prefs.width = 3;
    g.prefs.height = 2;
    g.prefs.mines = 6;
    g.start_game();
    assert_eq!(count_bombs(&g.board), 6);
    assert_eq!(g.boxes_to_win, 0);
}

#[test]
fn same_seed_same_board() {
    let mut a = GameState::new(42);
    let mut b = GameState::new(42);
    for g in [&mut a, &mut b] {
        g.grafix.dims.update_dpi(96);
        g.prefs.width = 9;
        g.prefs.height = 9;
        g.prefs.mines = 10;
        g.start_game();
    }
    for x in 0..9 {
        for y in 0..9 {
            assert_eq!(a.board.cell(x, y).bomb, b.board.cell(x, y).bomb);
        }
    }
}

#[test]
fn first_click_on_a_bomb_is_safe() {
    let mut g = game_with_bombs(3, 3, &[(0, 0)]);
    g.step_square(0, 0);
    let c = g.board.cell(0, 0);
    assert!(c.visited);
    assert!(!c.bomb);
    // The bomb moved to the first free cell, row by row.
    assert!(g.board.cell(1, 0).bomb);
    assert_eq!(count_bombs(&g.board), 1);
    assert!(g.game_status.play);
    assert_eq!(c.block_type, BlockCell::One);
}

#[test]
fn later_click_on_a_bomb_loses() {
    let mut g = game_with_bombs(3, 3, &[(0, 0), (2, 2)]);
    g.step_square(2, 0);
    assert!(g.board.cell(2, 0).visited);
    g.step_square(0, 0);
    assert_eq!(g.board.cell(0, 0).block_type, BlockCell::Explode);
    assert_eq!(g.board.cell(2, 2).block_type, BlockCell::BombDown);
    assert!(g.game_status.game_over && !g.game_status.play);
    assert_eq!(g.btn_face_state, ButtonSprite::Lose);
}

#[test]
fn flood_fill_reveals_the_empty_region_and_wins() {
    let mut g = game_with_bombs(4, 4, &[(3, 3)]);
    g.step_square(0, 0);
    for x in 0..4 {
        for y in 0..4 {
            if (x, y) != (3, 3) {
                assert!(g.board.cell(x, y).visited, "cell {x},{y}");
            }
        }
    }
    assert_eq!(g.board.visits, 15);
    assert_eq!(g.board.cell(0, 0).block_type, BlockCell::Blank);
    assert_eq!(g.board.cell(2, 2).block_type, BlockCell::One);
    // Every safe cell is revealed: the game is won and the bomb flagged.
    assert!(g.game_status.game_over);
    assert_eq!(g.btn_face_state, ButtonSprite::Win);
    assert_eq!(g.board.cell(3, 3).block_type, BlockCell::Flagged);
    assert_eq!(g.bombs_left, 0);
}

#[test]
fn flood_fill_stops_at_numbers() {
    let mut g = game_with_bombs(5, 1, &[(4, 0)]);
    g.step_square(0, 0);
    assert!(g.board.cell(3, 0).visited);
    assert_eq!(g.board.cell(3, 0).block_type, BlockCell::One);
    assert!(!g.board.cell(4, 0).visited);
}

#[test]
fn flood_fill_on_a_large_empty_board() {
    let mut g = game_with_bombs(30, 24, &[(29, 23)]);
    g.step_square(0, 0);
    assert_eq!(g.board.visits, 30 * 24 - 1);
    assert_eq!(g.btn_face_state, ButtonSprite::Win);
}

#[test]
fn flood_fill_stays_on_its_side_and_keeps_flags() {
    let wall = [(2, 0), (2, 1), (2, 2), (2, 3), (2, 4)];
    let mut g = game_with_bombs(5, 5, &wall);
    g.make_guess(0, 4);
    assert_eq!(g.board.cell(0, 4).block_type, BlockCell::Flagged);
    g.step_square(0, 0);
    for y in 0..5 {
        assert!(g.board.cell(1, y).visited, "cell 1,{y}");
        assert!(!g.board.cell(3, y).visited, "cell 3,{y}");
        assert!(!g.board.cell(4, y).visited, "cell 4,{y}");
    }
    for y in 0..4 {
        assert!(g.board.cell(0, y).visited, "cell 0,{y}");
        assert_eq!(g.board.cell(0, y).block_type, BlockCell::Blank);
    }
    assert!(!g.board.cell(0, 4).visited);
    assert_eq!(g.board.cell(0, 4).block_type, BlockCell::Flagged);
    assert_eq!(g.board.cell(1, 0).block_type, BlockCell::Two);
    assert_eq!(g.board.cell(1, 2).block_type, BlockCell::Three);
    assert_eq!(g.board.visits, 9);
    assert!(g.game_status.play);
}

#[test]
fn count_marks_leaves_the_centre_out() {
    let mut g = game_with_bombs(3, 3, &[(0, 0)]);
    for x in 0..3 {
        for y in 0..3 {
            g.make_guess(x, y);
        }
    }
    assert_eq!(g.count_marks(1, 1), 8);
    assert_eq!(g.count_marks(0, 0), 3);
}

#[test]
fn cheat_does_not_track_after_the_game() {
    let mut g = game_with_bombs(3, 3, &[(0, 0)]);
    g.xyzzy_progress = 5;
    g.timer.elapsed = 5;
    g.game_over(false);
    let before = g.effects.len();
    g.handle_mouse_move(MK_CONTROL, Point { x: 45, y: 88 });
    assert_eq!(g.effects.len(), before);
}

#[test]
fn right_click_cycles_marks_and_counter() {
    let mut g = game_with_bombs(3, 3, &[(2, 2)]);
    g.prefs.mark_enabled = true;
    g.make_guess(1, 1);
    assert_eq!(g.board.cell(1, 1).block_type, BlockCell::Flagged);
    assert_eq!(g.bombs_left, 0);
    g.make_guess(1, 1);
    assert_eq!(g.board.cell(1, 1).block_type, BlockCell::GuessUp);
    assert_eq!(g.bombs_left, 1);
    g.make_guess(1, 1);
    assert_eq!(g.board.cell(1, 1).block_type, BlockCell::BlankUp);
    assert_eq!(g.bombs_left, 1);
    assert_eq!(
        g.effects,
        vec![
            Effect::DrawBombCount(0),
            Effect::DrawBlock { x: 1, y: 1, cell: BlockCell::Flagged },
            Effect::DrawBombCount(1),
            Effect::DrawBlock { x: 1, y: 1, cell: BlockCell::GuessUp },
            Effect::DrawBlock { x: 1, y: 1, cell: BlockCell::BlankUp },
        ]
    );
}

#[test]
fn right_click_without_marks_toggles_flag() {
    let mut g = game_with_bombs(3, 3, &[(2, 2)]);
    g.prefs.mark_enabled = false;
    g.make_guess(0, 0);
    g.make_guess(0, 0);
    assert_eq!(g.board.cell(0, 0).block_type, BlockCell::BlankUp);
    assert_eq!(g.bombs_left, 1);
    // Counter can go negative.
    g.make_guess(0, 0);
    g.make_guess(0, 1);
    assert_eq!(g.bombs_left, -1);
}

#[test]
fn right_click_on_revealed_or_outside_does_nothing() {
    let mut g = game_with_bombs(3, 3, &[(2, 2)]);
    g.step_square(0, 0);
    let before = g.effects.len();
    g.make_guess(0, 0);
    g.make_guess(5, 5);
    assert_eq!(g.effects.len(), before);
}

#[test]
fn chord_reveals_around_a_satisfied_number() {
    // Bomb at (0,0); the number at (1,1) shows 1.
    let mut g = game_with_bombs(4, 4, &[(0, 0), (3, 3)]);
    g.step_square(1, 1);
    assert_eq!(g.board.cell(1, 1).block_type, BlockCell::One);
    g.make_guess(0, 0);
    g.step_block(1, 1);
    for (x, y) in [(1, 0), (2, 0), (0, 1), (2, 1), (0, 2), (1, 2), (2, 2)] {
        assert!(g.board.cell(x, y).visited, "cell {x},{y}");
    }
    // The empty region behind the chord reaches every safe cell: a win.
    assert_eq!(g.board.visits, 14);
    assert_eq!(g.btn_face_state, ButtonSprite::Win);
}

#[test]
fn chord_with_a_wrong_flag_loses() {
    let mut g = game_with_bombs(4, 4, &[(0, 0), (3, 3)]);
    g.step_square(1, 1);
    g.make_guess(2, 0);
    g.step_block(1, 1);
    assert_eq!(g.board.cell(0, 0).block_type, BlockCell::Explode);
    assert_eq!(g.board.cell(2, 0).block_type, BlockCell::Wrong);
    assert_eq!(g.btn_face_state, ButtonSprite::Lose);
}

#[test]
fn chord_not_allowed_only_lifts_the_cells() {
    let mut g = game_with_bombs(4, 4, &[(0, 0), (3, 3)]);
    g.step_square(1, 1);
    g.step_block(1, 1);
    assert!(!g.board.cell(0, 1).visited);
    assert_eq!(g.cursor_x, usize::MAX - 2);
    assert_eq!(g.cursor_y, usize::MAX - 2);
}

#[test]
fn release_starts_the_timer() {
    let mut g = game_with_bombs(3, 3, &[(2, 2), (0, 2)]);
    g.prefs.sound_enabled = true;
    g.begin_primary_button_drag();
    g.track_mouse(0, 0);
    g.finish_primary_button_drag();
    assert_eq!(g.timer.state, TimerState::Running);
    assert_eq!(g.timer.elapsed, 1);
    assert!(!g.drag_active);
    assert!(g.effects.contains(&Effect::DrawTimer(1)));
    assert!(g.effects.contains(&Effect::PlaySound(Sound::Tick)));
    assert!(g.effects.contains(&Effect::StartTimer));
    assert!(g.board.cell(0, 0).visited);
    assert!(!g.board.cell(1, 2).visited);
    assert!(g.game_status.play);
}

#[test]
fn timer_stops_at_999() {
    let mut g = game_with_bombs(3, 3, &[(2, 2)]);
    g.timer.state = TimerState::Running;
    for _ in 0..1005 {
        g.do_timer();
    }
    assert_eq!(g.timer.elapsed, 999);
}

#[test]
fn pause_then_resume_restores_the_timer() {
    let mut g = game_with_bombs(3, 3, &[(2, 2)]);
    g.timer.state = TimerState::Running;
    g.pause_game();
    assert_eq!(g.timer.state, TimerState::Paused);
    assert!(g.game_status.pause);
    g.do_timer();
    assert_eq!(g.timer.elapsed, 0);
    g.resume_game();
    assert_eq!(g.timer.state, TimerState::Running);
    assert!(!g.game_status.pause);
    assert_eq!(g.effects, vec![Effect::StopSounds]);
}

#[test]
fn press_and_lift_restores_the_board() {
    let mut g = game_with_bombs(3, 3, &[(2, 2)]);
    g.cursor_x = usize::MAX - 1;
    g.cursor_y = usize::MAX - 1;
    g.track_mouse(1, 1);
    assert_eq!(g.board.cell(1, 1).block_type, BlockCell::Blank);
    g.track_mouse(usize::MAX - 1, usize::MAX - 1);
    assert_eq!(g.board.cell(1, 1).block_type, BlockCell::BlankUp);
    g.chord_active = true;
    g.track_mouse(1, 1);
    for x in 0..3 {
        for y in 0..3 {
            assert_eq!(g.board.cell(x, y).block_type, BlockCell::Blank);
        }
    }
    g.track_mouse(usize::MAX - 1, usize::MAX - 1);
    for x in 0..3 {
        for y in 0..3 {
            assert_eq!(g.board.cell(x, y).block_type, BlockCell::BlankUp);
        }
    }
}

#[test]
fn xyzzy_sequence_and_shift() {
    let mut g = game_with_bombs(3, 3, &[(2, 2)]);
    for k in [0x58u16, 0x59, 0x5A, 0x5A, 0x59] {
        g.handle_xyzzys_input(k);
    }
    assert_eq!(g.xyzzy_progress, 5);
    g.toggle_xyzzy();
    assert_eq!(g.xyzzy_progress, 17);
    g.toggle_xyzzy();
    assert_eq!(g.xyzzy_progress, 5);
    let mut h = game_with_bombs(3, 3, &[(2, 2)]);
    h.handle_xyzzys_input(0x58);
    h.handle_xyzzys_input(0x41);
    assert_eq!(h.xyzzy_progress, 0);
}

#[test]
fn xyzzy_pixel_shows_the_bomb() {
    let mut g = game_with_bombs(3, 3, &[(2, 2)]);
    g.xyzzy_progress = 5;
    // Cell (2, 2) at 96 DPI: x from 12 + 32, y from 55 + 32.
    g.handle_xyzzys_mouse(MK_CONTROL, Point { x: 45, y: 88 });
    assert_eq!(g.effects, vec![Effect::XyzzyPixel { bomb: true }]);
    g.handle_xyzzys_mouse(0, Point { x: 13, y: 56 });
    assert_eq!(g.effects.len(), 1);
}

#[test]
fn both_buttons_start_a_chord() {
    let mut g = game_with_bombs(3, 3, &[(2, 2)]);
    g.handle_rbutton_down(MK_LBUTTON | MK_RBUTTON, Point { x: 13, y: 56 });
    assert!(g.chord_active);
    assert!(g.drag_active);
    assert_eq!(g.cursor_x, 0);
    assert_eq!(g.cursor_y, 0);
}

#[test]
fn right_button_alone_flags_the_cell() {
    let mut g = game_with_bombs(3, 3, &[(2, 2)]);
    g.handle_rbutton_down(MK_RBUTTON, Point { x: 13, y: 56 });
    assert_eq!(g.board.cell(0, 0).block_type, BlockCell::Flagged);
}

#[test]
fn middle_button_toggles_the_chord() {
    let mut g = game_with_bombs(3, 3, &[(2, 2)]);
    g.handle_mbutton_down(MK_MBUTTON, Point { x: 13, y: 56 });
    assert!(g.chord_active);
    assert!(g.drag_active);
}

#[test]
fn activation_click_is_ignored() {
    let mut g = game_with_bombs(3, 3, &[(2, 2)]);
    g.handle_activate(true);
    g.handle_rbutton_down(MK_RBUTTON, Point { x: 13, y: 56 });
    assert_eq!(g.board.cell(0, 0).block_type, BlockCell::BlankUp);
    assert!(!g.ignore_next_click);
}

#[test]
fn face_button_press_and_release_restarts() {
    let mut g = game_with_bombs(9, 9, &[(2, 2)]);
    // At 96 DPI the 9 x 9 window is 168 wide: the button spans 72..96.
    let on_face = Point { x: 80, y: 20 };
    g.handle_lbutton_down(0, on_face);
    assert!(g.btn_face_pressed);
    assert_eq!(g.effects, vec![Effect::DrawButton(ButtonSprite::Down)]);
    let restart = g.handle_lbutton_up(on_face);
    assert!(restart);
    assert!(!g.btn_face_pressed);
    assert_eq!(g.btn_face_state, ButtonSprite::Happy);
}

#[test]
fn face_button_release_elsewhere_does_not_restart() {
    let mut g = game_with_bombs(9, 9, &[(2, 2)]);
    g.handle_lbutton_down(0, Point { x: 80, y: 20 });
    assert!(g.btn_face_pressed);
    assert!(!g.handle_lbutton_up(Point { x: 5, y: 5 }));
}

#[test]
fn window_minimize_and_restore() {
    let mut g = game_with_bombs(3, 3, &[(2, 2)]);
    g.timer.state = TimerState::Running;
    g.window_pos_changed(true, Point { x: 0, y: 0 });
    assert!(g.game_status.minimized && g.game_status.pause);
    assert_eq!(g.timer.state, TimerState::Paused);
    g.window_pos_changed(false, Point { x: 0, y: 0 });
    assert!(!g.game_status.minimized && !g.game_status.pause);
    assert_eq!(g.timer.state, TimerState::Running);
    g.window_pos_changed(false, Point { x: 33, y: 44 });
    assert_eq!(g.prefs.wnd_pos, Point { x: 33, y: 44 });
}

#[test]
fn key_f4_asks_to_toggle_sound() {
    let mut g = game_with_bombs(3, 3, &[(2, 2)]);
    assert!(g.handle_key_down(0x73));
    g.prefs.sound_enabled = false;
    g.toggle_sound(true);
    assert!(g.prefs.sound_enabled);
    g.toggle_sound(true);
    assert!(!g.prefs.sound_enabled);
    g.toggle_sound(false);
    assert!(!g.prefs.sound_enabled);
}

#[test]
fn new_record_is_kept() {
    let mut g = game_with_bombs(3, 3, &[(2, 2)]);
    g.prefs.game_type = winmine::pref::GameType::Begin;
    g.prefs.beginner_time = 999;
    g.timer.elapsed = 42;
    g.game_over(true);
    assert_eq!(g.prefs.beginner_time, 42);
    assert!(g.effects.contains(&Effect::NewRecord));
}

#[test]
fn held_button_draws_each_changed_cell() {
    let mut g = game_with_bombs(3, 3, &[(2, 2)]);
    g.begin_primary_button_drag();
    g.effects.clear();
    g.track_mouse(0, 0);
    assert_eq!(g.effects, vec![Effect::DrawBlock { x: 0, y: 0, cell: BlockCell::Blank }]);
    g.effects.clear();
    g.track_mouse(1, 0);
    assert_eq!(
        g.effects,
        vec![
            Effect::DrawBlock { x: 0, y: 0, cell: BlockCell::BlankUp },
            Effect::DrawBlock { x: 1, y: 0, cell: BlockCell::Blank },
        ]
    );
}

#[test]
fn chord_drag_draws_the_neighbourhood_row_by_row() {
    let mut g = game_with_bombs(3, 3, &[(2, 2)]);
    g.begin_primary_button_drag();
    g.chord_active = true;
    g.effects.clear();
    g.track_mouse(1, 1);
    assert_eq!(g.effects.len(), 9);
    assert_eq!(g.effects[0], Effect::DrawBlock { x: 0, y: 0, cell: BlockCell::Blank });
    assert_eq!(g.effects[1], Effect::DrawBlock { x: 1, y: 0, cell: BlockCell::Blank });
    assert_eq!(g.effects[3], Effect::DrawBlock { x: 0, y: 1, cell: BlockCell::Blank });
    g.effects.clear();
    g.track_mouse(2, 2);
    // The old neighbourhood comes back up, then the new one goes down.
    assert_eq!(g.effects.len(), 9 + 4);
    assert_eq!(g.effects[8], Effect::DrawBlock { x: 2, y: 2, cell: BlockCell::BlankUp });
    assert_eq!(g.effects[9], Effect::DrawBlock { x: 1, y: 1, cell: BlockCell::Blank });
}

#[test]
fn every_revealed_cell_is_drawn() {
    let wall = [(2, 0), (2, 1), (2, 2), (2, 3), (2, 4)];
    let mut g = game_with_bombs(5, 5, &wall);
    g.step_square(0, 0);
    for x in 0..5 {
        for y in 0..5 {
            let c = g.board.cell(x, y);
            if c.visited {
                assert!(g.effects.contains(&Effect::DrawBlock { x, y, cell: c.block_type }), "cell {x},{y}");
            }
        }
    }
    assert_eq!(g.effects.len(), g.board.visits as usize);
}

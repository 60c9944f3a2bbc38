use winmine::geometry::{pt_in_rect, Point, Rect, Size};
use winmine::grafix::{
    bitmap_bytes, bomb_count_digits, border_strokes, gray_pen_color, make_int_resource, white_pen_color, needs_resample, rgb, time_digits, Border,
    BorderPen, BorderStyle, GrafixState, LEDSprite, Stroke, WindowDimensions,
};
use winmine::rtns::{AdjustFlag, GameState};
use winmine::window::{axis_fits_exec, effective_dpi, screen_extent};

fn grafix_96(w: i32, h: i32) -> GrafixState {
    let mut g = GrafixState::new();
    g.dims.update_dpi(96);
    g.wnd_pos = Point { x: w, y: h };
    g
}

#[test]
fn scale_at_base_dpi_is_identity() {
    let mut d = WindowDimensions::new();
    d.update_dpi(96);
    assert_eq!(d.block, Size { cx: 16, cy: 16 });
    assert_eq!(d.led, Size { cx: 13, cy: 23 });
    assert_eq!(d.button, Size { cx: 24, cy: 24 });
    assert_eq!(d.left_space, 12);
    assert_eq!(d.grid_offset, 55);
    assert_eq!(d.top_led, 16);
    assert_eq!(d.left_bomb, 17);
    assert_eq!(d.right_timer, 17);
}

#[test]
fn scale_rounds_to_nearest() {
    let mut d = WindowDimensions::new();
    d.update_dpi(120);
    assert_eq!(d.block.cx, 20);
    assert_eq!(d.led.cx, 16);
    assert_eq!(d.led.cy, 29);
    assert_eq!(d.scale_dpi(3), 4);
    d.update_dpi(144);
    assert_eq!(d.block.cx, 24);
    assert_eq!(d.grid_offset, 83);
}

#[test]
fn led_sprites_from_numbers() {
    assert_eq!(LEDSprite::from_u16(7), LEDSprite::Seven);
    assert_eq!(LEDSprite::from_u16(10), LEDSprite::Blank);
    assert_eq!(LEDSprite::from_u16(11), LEDSprite::Negative);
    assert_eq!(LEDSprite::from_u16(200), LEDSprite::Blank);
    assert_eq!(LEDSprite::from_i16(-3), LEDSprite::Three);
    assert_eq!(LEDSprite::from(5u16), LEDSprite::Five);
    assert_eq!(LEDSprite::Negative.index(), 11);
}

#[test]
fn timer_digits() {
    assert_eq!(time_digits(123), (LEDSprite::One, LEDSprite::Two, LEDSprite::Three));
    assert_eq!(time_digits(7), (LEDSprite::Zero, LEDSprite::Zero, LEDSprite::Seven));
    assert_eq!(time_digits(999), (LEDSprite::Nine, LEDSprite::Nine, LEDSprite::Nine));
}

#[test]
fn bomb_counter_digits() {
    assert_eq!(bomb_count_digits(10), (LEDSprite::Zero, LEDSprite::One, LEDSprite::Zero));
    assert_eq!(bomb_count_digits(-5), (LEDSprite::Negative, LEDSprite::Zero, LEDSprite::Five));
    assert_eq!(bomb_count_digits(-42), (LEDSprite::Negative, LEDSprite::Four, LEDSprite::Two));
    assert_eq!(bomb_count_digits(999), (LEDSprite::Nine, LEDSprite::Nine, LEDSprite::Nine));
    // Hundreds past 9 show the blank or the minus sprite, as the sheet index.
    assert_eq!(bomb_count_digits(1000).0, LEDSprite::Blank);
}

#[test]
fn rgb_packs_red_low() {
    assert_eq!(rgb(1, 2, 3), 0x030201);
    assert_eq!(rgb(128, 128, 128), 0x808080);
    assert_eq!(make_int_resource(432), 432usize);
}

#[test]
fn raised_border_of_width_one() {
    let s = border_strokes(Point { x: 0, y: 0 }, Point { x: 10, y: 10 }, 1, BorderStyle::Raised);
    assert_eq!(
        s,
        vec![
            Stroke::Pen(BorderPen::Gray),
            Stroke::MoveTo(Point { x: 0, y: 9 }),
            Stroke::LineTo(Point { x: 0, y: 0 }),
            Stroke::LineTo(Point { x: 10, y: 0 }),
            Stroke::Pen(BorderPen::White),
            Stroke::MoveTo(Point { x: 1, y: 10 }),
            Stroke::LineTo(Point { x: 10, y: 10 }),
            Stroke::LineTo(Point { x: 10, y: 0 }),
        ]
    );
}

#[test]
fn sunken_and_flat_borders() {
    let s = border_strokes(Point { x: 0, y: 0 }, Point { x: 10, y: 10 }, 2, BorderStyle::Sunken);
    assert_eq!(s.len(), 1 + 6 + 1 + 6);
    assert_eq!(s[0], Stroke::Pen(BorderPen::White));
    assert_eq!(s[4], Stroke::MoveTo(Point { x: 1, y: 8 }));
    assert_eq!(s[7], Stroke::Pen(BorderPen::Gray));
    assert_eq!(s[8], Stroke::MoveTo(Point { x: 2, y: 9 }));
    let f = border_strokes(Point { x: 0, y: 0 }, Point { x: 10, y: 10 }, 1, BorderStyle::Flat);
    assert_eq!(f.len(), 7);
    assert!(!f[1..].iter().any(|s| matches!(s, Stroke::Pen(_))));
}

#[test]
fn background_frames_at_base_dpi() {
    let g = grafix_96(152, 195);
    let b = g.background_borders();
    assert_eq!(b.len(), 6);
    assert_eq!(
        b[0],
        Border { p1: Point { x: 0, y: 0 }, p2: Point { x: 151, y: 194 }, width: 3, style: BorderStyle::Sunken }
    );
    assert_eq!(
        b[1],
        Border { p1: Point { x: 9, y: 52 }, p2: Point { x: 142, y: 185 }, width: 3, style: BorderStyle::Raised }
    );
    assert_eq!(b[2].width, 2);
    assert_eq!(b[2].p2, Point { x: 142, y: 45 });
    assert_eq!(
        b[3],
        Border { p1: Point { x: 16, y: 15 }, p2: Point { x: 56, y: 39 }, width: 1, style: BorderStyle::Raised }
    );
    assert_eq!(b[4].p1, Point { x: 95, y: 15 });
    assert_eq!(b[4].p2, Point { x: 135, y: 39 });
    assert_eq!(
        b[5],
        Border { p1: Point { x: 63, y: 15 }, p2: Point { x: 88, y: 40 }, width: 1, style: BorderStyle::Flat }
    );
}

#[test]
fn led_and_button_positions() {
    let g = grafix_96(152, 195);
    assert_eq!(g.bomb_led_xs(), (17, 30, 43));
    assert_eq!(g.timer_led_xs(), (96, 109, 122));
    assert_eq!(g.button_origin(), Point { x: 64, y: 16 });
    assert_eq!(g.button_rect(), Rect { left: 64, right: 88, top: 16, bottom: 40 });
    assert_eq!(g.block_origin(2, 3), Point { x: 44, y: 103 });
}

#[test]
fn hit_test_excludes_right_and_bottom() {
    let rc = Rect { left: 0, top: 0, right: 10, bottom: 10 };
    assert!(pt_in_rect(rc, Point { x: 0, y: 0 }));
    assert!(pt_in_rect(rc, Point { x: 9, y: 9 }));
    assert!(!pt_in_rect(rc, Point { x: 10, y: 5 }));
    assert!(!pt_in_rect(rc, Point { x: 5, y: 10 }));
}

#[test]
fn cell_under_its_origin() {
    let mut s = GameState::new(1);
    s.grafix.dims.update_dpi(120);
    for x in 0..30 {
        for y in 0..25 {
            let p = s.grafix.block_origin(x, y);
            assert_eq!(s.box_from_point(p), (x, y));
        }
    }
}

#[test]
fn point_left_of_the_board_wraps_around() {
    let mut s = GameState::new(1);
    s.grafix.dims.update_dpi(96);
    // 12 - 30 = -18; truncated toward zero gives -1, which wraps.
    assert_eq!(s.box_from_point(Point { x: -18, y: 55 }), (usize::MAX, 0));
    // 0 - 12 = -12, truncated toward zero: column 0.
    assert_eq!(s.box_from_point(Point { x: 0, y: 60 }), (0, 0));
}

#[test]
fn resample_only_when_scaled() {
    assert!(!needs_resample(Size { cx: 16, cy: 16 }, 16, 16));
    assert!(needs_resample(Size { cx: 20, cy: 20 }, 16, 16));
}

#[test]
fn window_extent_and_placement() {
    let mut s = GameState::new(1);
    s.grafix.dims.update_dpi(96);
    s.prefs.width = 9;
    s.prefs.height = 9;
    s.prefs.mines = 10;
    s.start_game();
    let client = s.update_window_extent();
    // Every one of the 9 columns and rows is in the client area.
    assert_eq!(client, Size { cx: 16 * 9 + 24, cy: 16 * 9 + 55 + 12 });
    assert_eq!(s.grafix.wnd_pos, Point { x: 168, y: 211 });
    s.prefs.wnd_pos = Point { x: 1900, y: 1000 };
    let p = s.place_window(
        AdjustFlag { resize: false, redraw: true },
        client,
        Size { cx: 168, cy: 254 },
        Size { cx: 1920, cy: 1080 },
    );
    assert!(p.adjust.resize);
    assert!(p.adjust.redraw);
    assert_eq!(p.pos, Point { x: 1920 - 168, y: 1080 - 254 });
    assert_eq!(p.size, Size { cx: 168, cy: 254 });
    assert_eq!(s.prefs.wnd_pos, p.pos);
    let q = s.place_window(AdjustFlag { resize: false, redraw: false }, client, Size { cx: 168, cy: 254 }, Size { cx: 1920, cy: 1080 });
    assert!(!q.adjust.resize);
    assert_eq!(q.pos, p.pos);
}

#[test]
fn dpi_defaults_and_screen_fallback() {
    assert_eq!(effective_dpi(0), 96);
    assert_eq!(effective_dpi(144), 144);
    assert_eq!(screen_extent(0, 1024), 1024);
    assert_eq!(screen_extent(3840, 1024), 3840);
}

#[test]
fn dpi_change_rescales_and_moves() {
    let mut s = GameState::new(1);
    let r = s.dpi_changed(0x0090_0090, Some(Rect { left: 10, top: 20, right: 5, bottom: 120 }));
    assert_eq!(s.grafix.dims.dpi, 144);
    assert_eq!(s.grafix.dims.block.cx, 24);
    assert_eq!(r, Some((Point { x: 10, y: 20 }, Size { cx: 0, cy: 100 })));
    assert_eq!(s.prefs.wnd_pos, Point { x: 10, y: 20 });
    assert_eq!(s.dpi_changed(0x10000, None), None);
    assert_eq!(s.grafix.dims.dpi, 96);
}

#[test]
fn placement_fits_in_i32() {
    assert!(axis_fits_exec(80, 168, 190, 1920));
    assert!(axis_fits_exec(-2_000_000_000, 168, 190, 1920));
    assert!(!axis_fits_exec(i32::MAX - 100, 168, 190, 1920));
}

#[test]
fn border_pen_colors() {
    assert_eq!(gray_pen_color(true), (128, 128, 128));
    assert_eq!(gray_pen_color(false), (0, 0, 0));
    assert_eq!(white_pen_color(), (255, 255, 255));
}

#[test]
fn bitmap_byte_counts() {
    assert_eq!(bitmap_bytes(16, 16), Some(1024));
    assert_eq!(bitmap_bytes(0x8000, 0x8000), None);
    assert_eq!(bitmap_bytes(i32::MAX / 4, 1), Some((i32::MAX / 4) as usize * 4));
}

//! Decisions of the main window: what its messages do to the game state, and
//! where the window goes on the screen.

use vstd::prelude::*;

use crate::geometry::{spec_pt_in_rect, Point, Rect, Size};
use crate::grafix::{layout_ok, spec_button_rect, BASE_DPI};
use crate::pref::GameType;
use crate::rtns::{
    released, AdjustFlag, Effect, GameState, StatusFlag, Timer, TimerState, VK_F4, VK_SHIFT,
};
use crate::grafix::ButtonSprite;
use crate::sound::Sound;

verus! {

/// The DPI to use for a value reported by the system: zero means unknown
/// and gives the base DPI.
pub fn effective_dpi(raw: u32) -> (r: u32)
    ensures
        r == if raw == 0 {
            BASE_DPI
        } else {
            raw
        },
{
    if raw == 0 {
        BASE_DPI
    } else {
        raw
    }
}

/// The screen extent to fit the window in: the virtual screen, or the
/// primary screen when the virtual one is reported as zero.
pub fn screen_extent(virtual_extent: i32, primary_extent: i32) -> (r: i32)
    ensures
        r == if virtual_extent == 0 {
            primary_extent
        } else {
            virtual_extent
        },
{
    if virtual_extent == 0 {
        primary_extent
    } else {
        virtual_extent
    }
}

/// Where and how the window is to be moved.
#[derive(Clone, Copy, PartialEq, Eq, Debug, Structural)]
pub struct WindowPlacement {
    /// The adjustments to make.
    pub adjust: AdjustFlag,
    /// Top-left corner of the window on the screen.
    pub pos: Point,
    /// Outer size of the window, frame included.
    pub size: Size,
    /// Size of the client area to redraw.
    pub client: Size,
}

/// `a` when it is positive, else zero.
pub open spec fn pos_part(a: int) -> int {
    if a > 0 {
        a
    } else {
        0
    }
}

/// The client width and height the board needs at the current scale: every
/// column and row of cells, with the margins around them.
pub open spec fn client_extent(s: GameState) -> (int, int) {
    (
        s.grafix.dims.block.cx * (s.board.last_x + 1) + s.grafix.dims.left_space
            + s.grafix.dims.right_space,
        s.grafix.dims.block.cy * (s.board.last_y + 1) + s.grafix.dims.grid_offset
            + s.grafix.dims.bottom_space,
    )
}

/// The placement of the window whose client extent is (`dx`, `dy`), framed to
/// an outer size of (`cx_total`, `cy_total`), starting at `pos`, on a screen of
/// (`cx_screen`, `cy_screen`): a window that would stick out past the right or
/// bottom edge is moved back inside, which also asks for a resize.
pub open spec fn spec_placement(
    adjust: AdjustFlag,
    pos: Point,
    dx: int,
    dy: int,
    cx_total: int,
    cy_total: int,
    cx_screen: int,
    cy_screen: int,
) -> WindowPlacement {
    let frame_x = pos_part(cx_total - dx);
    let frame_y = pos_part(cy_total - dy);
    let excess_x = pos.x + dx + frame_x - cx_screen;
    let excess_y = pos.y + dy + frame_y - cy_screen;
    WindowPlacement {
        adjust: AdjustFlag { resize: adjust.resize || excess_x > 0 || excess_y > 0, redraw: adjust.redraw },
        pos: Point {
            x: if excess_x > 0 {
                (pos.x - excess_x) as i32
            } else {
                pos.x
            },
            y: if excess_y > 0 {
                (pos.y - excess_y) as i32
            } else {
                pos.y
            },
        },
        size: Size { cx: (dx + frame_x) as i32, cy: (dy + frame_y) as i32 },
        client: Size { cx: dx as i32, cy: dy as i32 },
    }
}

/// Whether `v` is an `i32`.
pub open spec fn fits_i32(v: int) -> bool {
    i32::MIN <= v <= i32::MAX
}

/// Whether placing along one axis, from position `p` with client extent `d`,
/// outer extent `t` and screen extent `sc`, computes every intermediate value
/// (see `spec_placement`) in `i32`.
pub open spec fn axis_fits(p: int, d: int, t: int, sc: int) -> bool {
    let fe = pos_part(t - d);
    &&& fits_i32(t - d)
    &&& fits_i32(p + d)
    &&& fits_i32(p + d + fe)
    &&& fits_i32(p + d + fe - sc)
    &&& fits_i32(d + fe)
    &&& (p + d + fe - sc > 0 ==> fits_i32(p - (p + d + fe - sc)))
}

fn i32_range(v: i64) -> (r: bool)
    ensures
        r == fits_i32(v as int),
{
    -2147483648i64 <= v && v <= 2147483647i64
}

/// Whether placing along one axis stays in `i32` (see `axis_fits`).
pub fn axis_fits_exec(p: i32, d: i32, t: i32, sc: i32) -> (r: bool)
    ensures
        r == axis_fits(p as int, d as int, t as int, sc as int),
{
    let p = p as i64;
    let d = d as i64;
    let t = t as i64;
    let sc = sc as i64;
    let fe: i64 = if t - d > 0 {
        t - d
    } else {
        0
    };
    let excess: i64 = p + d + fe - sc;
    i32_range(t - d) && i32_range(p + d) && i32_range(p + d + fe) && i32_range(excess) && i32_range(d + fe)
        && (excess <= 0 || i32_range(p - excess))
}

/// A bound on the client extent the board needs.
pub const PLACE_MAX: i32 = 0x1000_0000;

impl GameState {
    /// The client extent the board needs (see `client_extent`); it becomes
    /// the window extent used for drawing.
    pub fn update_window_extent(&mut self) -> (r: Size)
        requires
            layout_ok(old(self).grafix),
            old(self).board.wf(),
        ensures
            r.cx == client_extent(*old(self)).0,
            r.cy == client_extent(*old(self)).1,
            final(self).grafix.wnd_pos == (Point { x: r.cx, y: r.cy }),
            *final(self) == (GameState { grafix: final(self).grafix, ..*old(self) }),
            final(self).grafix.dims == old(self).grafix.dims,
            0 <= r.cx <= PLACE_MAX,
            0 <= r.cy <= PLACE_MAX,
    {
        let d = self.grafix.dims;
        proof {
            assert(d.block.cx * (self.board.last_x + 1) <= 0x10000 * 30) by (nonlinear_arith)
                requires
                    0 <= d.block.cx <= 0x10000,
                    0 <= self.board.last_x < 30,
            ;
            assert(d.block.cy * (self.board.last_y + 1) <= 0x10000 * 25) by (nonlinear_arith)
                requires
                    0 <= d.block.cy <= 0x10000,
                    0 <= self.board.last_y < 25,
            ;
            assert(0 <= d.block.cx * (self.board.last_x + 1)) by (nonlinear_arith)
                requires
                    0 <= d.block.cx,
                    0 <= self.board.last_x,
            ;
            assert(0 <= d.block.cy * (self.board.last_y + 1)) by (nonlinear_arith)
                requires
                    0 <= d.block.cy,
                    0 <= self.board.last_y,
            ;
        }
        let dx = d.block.cx * ((self.board.last_x + 1) as i32) + d.left_space + d.right_space;
        let dy = d.block.cy * ((self.board.last_y + 1) as i32) + d.grid_offset + d.bottom_space;
        self.grafix.wnd_pos = Point { x: dx, y: dy };
        Size { cx: dx, cy: dy }
    }

    /// Place the window (see `spec_placement`) from the stored position, the
    /// client extent `client`, the outer size `total` that the frame gives it
    /// and the screen extent; the position is stored back.
    pub fn place_window(&mut self, adjust: AdjustFlag, client: Size, total: Size, screen: Size) -> (r:
        WindowPlacement)
        requires
            axis_fits(old(self).prefs.wnd_pos.x as int, client.cx as int, total.cx as int, screen.cx as int),
            axis_fits(old(self).prefs.wnd_pos.y as int, client.cy as int, total.cy as int, screen.cy as int),
        ensures
            r == spec_placement(
                adjust,
                old(self).prefs.wnd_pos,
                client.cx as int,
                client.cy as int,
                total.cx as int,
                total.cy as int,
                screen.cx as int,
                screen.cy as int,
            ),
            final(self).prefs.wnd_pos == r.pos,
            final(self).prefs.game_type == old(self).prefs.game_type,
            final(self).prefs.mines == old(self).prefs.mines,
            final(self).prefs.width == old(self).prefs.width,
            final(self).prefs.height == old(self).prefs.height,
            final(self).prefs.sound_enabled == old(self).prefs.sound_enabled,
            final(self).prefs.mark_enabled == old(self).prefs.mark_enabled,
            final(self).prefs.color == old(self).prefs.color,
            final(self).board == old(self).board,
            final(self).grafix == old(self).grafix,
            final(self).game_status == old(self).game_status,
            final(self).timer == old(self).timer,
            final(self).effects@ == old(self).effects@,
    {
        let dx = client.cx;
        let dy = client.cy;
        let mut pos = self.prefs.wnd_pos;
        let frame_extra: i32 = if total.cx - dx > 0 {
            total.cx - dx
        } else {
            0
        };
        let dyp_adjust: i32 = if total.cy - dy > 0 {
            total.cy - dy
        } else {
            0
        };
        let mut resize = adjust.resize;
        let excess_x = pos.x + dx + frame_extra - screen.cx;
        if excess_x > 0 {
            resize = true;
            pos.x = pos.x - excess_x;
        }
        let excess_y = pos.y + dy + dyp_adjust - screen.cy;
        if excess_y > 0 {
            resize = true;
            pos.y = pos.y - excess_y;
        }
        self.prefs.wnd_pos = pos;
        WindowPlacement {
            adjust: AdjustFlag { resize, redraw: adjust.redraw },
            pos,
            size: Size { cx: dx + frame_extra, cy: dy + dyp_adjust },
            client: Size { cx: dx, cy: dy },
        }
    }

    /// The left button was released at `point`. When the face button was
    /// pressed it is released: over the button the face turns happy and a new
    /// game is asked for (the result is `true`), elsewhere the face is
    /// redrawn. Otherwise the drag over the board ends (see `released`).
    pub fn handle_lbutton_up(&mut self, point: Point) -> (restart: bool)
        requires
            old(self).wf(),
            layout_ok(old(self).grafix),
        ensures
            final(self).wf(),
            restart == (old(self).btn_face_pressed && spec_pt_in_rect(
                spec_button_rect(old(self).grafix),
                point,
            )),
            old(self).btn_face_pressed && restart ==> *final(self) == (GameState {
                btn_face_pressed: false,
                btn_face_state: ButtonSprite::Happy,
                effects: final(self).effects,
                ..*old(self)
            }) && final(self).effects@ == old(self).effects@.push(Effect::DrawButton(ButtonSprite::Happy)),
            old(self).btn_face_pressed && !restart ==> *final(self) == (GameState {
                btn_face_pressed: false,
                effects: final(self).effects,
                ..*old(self)
            }) && final(self).effects@ == old(self).effects@.push(
                Effect::DrawButton(old(self).btn_face_state),
            ),
            !old(self).btn_face_pressed ==> released(*old(self), *final(self)),
    {
        if self.btn_face_pressed {
            self.btn_face_pressed = false;
            let rc = self.grafix.button_rect();
            if crate::geometry::pt_in_rect(rc, point) {
                self.btn_face_state = ButtonSprite::Happy;
                self.effects.push(Effect::DrawButton(ButtonSprite::Happy));
                true
            } else {
                let face = self.btn_face_state;
                self.effects.push(Effect::DrawButton(face));
                false
            }
        } else {
            self.finish_primary_button_drag();
            false
        }
    }

    /// The right button was released with the buttons `btn`: with the left
    /// button still down the drag ends (see `released`).
    pub fn handle_rbutton_up(&mut self, btn: u16)
        requires
            old(self).wf(),
        ensures
            final(self).wf(),
            (btn & crate::rtns::MK_LBUTTON) != 0 ==> released(*old(self), *final(self)),
            (btn & crate::rtns::MK_LBUTTON) == 0 ==> *final(self) == *old(self),
    {
        if (btn & crate::rtns::MK_LBUTTON) != 0 {
            self.finish_primary_button_drag();
        }
    }

    /// The window was activated; a click that activated it is ignored.
    pub fn handle_activate(&mut self, by_click: bool)
        ensures
            *final(self) == (GameState {
                ignore_next_click: old(self).ignore_next_click || by_click,
                ..*old(self)
            }),
    {
        if by_click {
            self.ignore_next_click = true;
        }
    }

    /// The window moved or changed state (`iconic` tells whether it is now
    /// minimized). Restored from minimized: the game resumes and the minimized
    /// and pause flags clear. Just minimized: the game pauses and both flags
    /// are set. Moved while not minimized: the position is remembered.
    pub fn window_pos_changed(&mut self, iconic: bool, pos: Point)
        requires
            old(self).wf(),
        ensures
            final(self).wf(),
            old(self).game_status.minimized && !iconic ==> {
                &&& final(self).game_status == (StatusFlag {
                    pause: false,
                    minimized: false,
                    ..old(self).game_status
                })
                &&& final(self).timer == if old(self).game_status.play {
                    Timer {
                        state: if old(self).timer.state == TimerState::Paused {
                            TimerState::Running
                        } else {
                            old(self).timer.state
                        },
                        ..old(self).timer
                    }
                } else {
                    old(self).timer
                }
                &&& *final(self) == (GameState {
                    game_status: final(self).game_status,
                    timer: final(self).timer,
                    ..*old(self)
                })
            },
            !old(self).game_status.minimized && iconic ==> {
                &&& final(self).game_status == (StatusFlag {
                    pause: true,
                    minimized: true,
                    ..old(self).game_status
                })
                &&& final(self).timer == if !old(self).game_status.pause
                    && old(self).game_status.play {
                    Timer {
                        state: if old(self).timer.state == TimerState::Running {
                            TimerState::Paused
                        } else {
                            old(self).timer.state
                        },
                        ..old(self).timer
                    }
                } else {
                    old(self).timer
                }
                &&& final(self).effects@ == old(self).effects@.push(Effect::StopSounds)
                &&& *final(self) == (GameState {
                    game_status: final(self).game_status,
                    timer: final(self).timer,
                    effects: final(self).effects,
                    ..*old(self)
                })
            },
            !old(self).game_status.minimized && !iconic ==> final(self).prefs.wnd_pos == pos
                && final(self).prefs.game_type == old(self).prefs.game_type
                && final(self).prefs.mines == old(self).prefs.mines
                && final(self).prefs.width == old(self).prefs.width
                && final(self).prefs.height == old(self).prefs.height
                && *final(self) == (GameState { prefs: final(self).prefs, ..*old(self) }),
            old(self).game_status.minimized && iconic ==> *final(self) == *old(self),
    {
        if self.game_status.minimized && !iconic {
            self.game_status.pause = false;
            self.game_status.minimized = false;
            self.resume_game();
        } else if !self.game_status.minimized && iconic {
            self.pause_game();
            self.game_status.pause = true;
            self.game_status.minimized = true;
        } else if !self.game_status.minimized {
            self.prefs.wnd_pos = pos;
        }
    }

    /// A key was pressed. F4 asks for the sound to be toggled (the result is
    /// `true`; see `toggle_sound`); Shift toggles the cheat; any other key
    /// goes to the cheat's key sequence.
    pub fn handle_key_down(&mut self, vkey: u16) -> (toggle_sound: bool)
        requires
            old(self).wf(),
        ensures
            final(self).wf(),
            toggle_sound == (vkey == VK_F4),
            vkey == VK_F4 ==> *final(self) == *old(self),
            vkey != VK_F4 ==> *final(self) == (GameState {
                xyzzy_progress: final(self).xyzzy_progress,
                ..*old(self)
            }),
            vkey == VK_SHIFT ==> final(self).xyzzy_progress == if old(self).xyzzy_progress
                >= crate::rtns::XYZZY_LENGTH {
                if old(self).xyzzy_progress == 5 {
                    17usize
                } else {
                    5usize
                }
            } else {
                old(self).xyzzy_progress
            },
            vkey != VK_F4 && vkey != VK_SHIFT ==> final(self).xyzzy_progress == if old(
                self,
            ).xyzzy_progress < crate::rtns::XYZZY_LENGTH {
                if vkey == crate::rtns::xyzzy_key(old(self).xyzzy_progress as int) {
                    (old(self).xyzzy_progress + 1) as usize
                } else {
                    0usize
                }
            } else {
                old(self).xyzzy_progress
            },
    {
        if vkey == VK_F4 {
            true
        } else if vkey == VK_SHIFT {
            self.toggle_xyzzy();
            false
        } else {
            self.handle_xyzzys_input(vkey);
            false
        }
    }

    /// Toggle the sound preference (see `Sound::toggle`); the playback queue
    /// was stopped just before, successfully when `reset_ok`.
    pub fn toggle_sound(&mut self, reset_ok: bool)
        ensures
            final(self).prefs.sound_enabled == (!old(self).prefs.sound_enabled && reset_ok),
            final(self).prefs.game_type == old(self).prefs.game_type,
            final(self).prefs.mines == old(self).prefs.mines,
            final(self).prefs.width == old(self).prefs.width,
            final(self).prefs.height == old(self).prefs.height,
            final(self).prefs.wnd_pos == old(self).prefs.wnd_pos,
            final(self).prefs.mark_enabled == old(self).prefs.mark_enabled,
            final(self).prefs.color == old(self).prefs.color,
            *final(self) == (GameState { prefs: final(self).prefs, ..*old(self) }),
    {
        let on = Sound::toggle(self.prefs.sound_enabled, reset_ok);
        self.prefs.sound_enabled = on;
    }

    /// Toggle the question marks of the right click.
    pub fn toggle_marks(&mut self)
        ensures
            final(self).prefs.mark_enabled == !old(self).prefs.mark_enabled,
            final(self).prefs.sound_enabled == old(self).prefs.sound_enabled,
            final(self).prefs.color == old(self).prefs.color,
            final(self).prefs.game_type == old(self).prefs.game_type,
            final(self).prefs.wnd_pos == old(self).prefs.wnd_pos,
            *final(self) == (GameState { prefs: final(self).prefs, ..*old(self) }),
    {
        self.prefs.mark_enabled = !self.prefs.mark_enabled;
    }

    /// Toggle between the color and the monochrome bitmaps; returns the new
    /// setting.
    pub fn toggle_color(&mut self) -> (color: bool)
        ensures
            color == !old(self).prefs.color,
            final(self).prefs.color == color,
            final(self).prefs.mark_enabled == old(self).prefs.mark_enabled,
            final(self).prefs.sound_enabled == old(self).prefs.sound_enabled,
            final(self).prefs.game_type == old(self).prefs.game_type,
            final(self).prefs.wnd_pos == old(self).prefs.wnd_pos,
            *final(self) == (GameState { prefs: final(self).prefs, ..*old(self) }),
    {
        let c = !self.prefs.color;
        self.prefs.color = c;
        c
    }

    /// The DPI changed to the low word of `wparam` (zero means the base DPI):
    /// every dimension is rescaled, and a suggested rectangle becomes the
    /// stored position, its size clamped at zero, where the window moves.
    pub fn dpi_changed(&mut self, wparam: usize, suggested: Option<Rect>) -> (r: Option<(Point, Size)>)
        ensures
            crate::grafix::dims_scaled(
                final(self).grafix.dims,
                if wparam % 0x10000 == 0 {
                    BASE_DPI
                } else {
                    (wparam % 0x10000) as u32
                },
            ),
            final(self).grafix.wnd_pos == old(self).grafix.wnd_pos,
            suggested is None ==> r is None && final(self).prefs.wnd_pos == old(self).prefs.wnd_pos,
            suggested matches Some(rc) ==> r == Some(
                (
                    Point { x: rc.left, y: rc.top },
                    Size {
                        cx: pos_part(rc.right as int - rc.left as int) as i32,
                        cy: pos_part(rc.bottom as int - rc.top as int) as i32,
                    },
                ),
            ) && final(self).prefs.wnd_pos == (Point { x: rc.left, y: rc.top }),
            final(self).prefs.game_type == old(self).prefs.game_type,
            final(self).prefs.width == old(self).prefs.width,
            final(self).prefs.height == old(self).prefs.height,
            final(self).prefs.mines == old(self).prefs.mines,
            final(self).prefs.color == old(self).prefs.color,
            *final(self) == (GameState { prefs: final(self).prefs, grafix: final(self).grafix, ..*old(self) }),
    {
        let low = (wparam & 0xFFFF) as u32;
        assert(wparam & 0xFFFF == wparam % 0x10000) by (bit_vector);
        let dpi = effective_dpi(low);
        self.grafix.dims.update_dpi(dpi);
        match suggested {
            Some(rc) => {
                self.prefs.wnd_pos = Point { x: rc.left, y: rc.top };
                let w: i64 = rc.right as i64 - rc.left as i64;
                let h: i64 = rc.bottom as i64 - rc.top as i64;
                let w: i64 = if w > 0 { w } else { 0 };
                let h: i64 = if h > 0 { h } else { 0 };
                Some((Point { x: rc.left, y: rc.top }, Size { cx: w as i32, cy: h as i32 }))
            },
            None => None,
        }
    }

    /// A difficulty was chosen from the menu (see `Pref::apply_difficulty`).
    pub fn select_difficulty(&mut self, game: GameType)
        ensures
            *final(self) == (GameState { prefs: final(self).prefs, ..*old(self) }),
            match crate::pref::spec_preset(game) {
                Some((m, h, w)) => {
                    &&& final(self).prefs.game_type == game
                    &&& final(self).prefs.mines == m
                    &&& final(self).prefs.height == h as usize
                    &&& final(self).prefs.width == w as usize
                },
                None => {
                    &&& final(self).prefs.game_type == old(self).prefs.game_type
                    &&& final(self).prefs.mines == old(self).prefs.mines
                    &&& final(self).prefs.height == old(self).prefs.height
                    &&& final(self).prefs.width == old(self).prefs.width
                },
            },
            final(self).prefs.wnd_pos == old(self).prefs.wnd_pos,
            final(self).prefs.sound_enabled == old(self).prefs.sound_enabled,
            final(self).prefs.mark_enabled == old(self).prefs.mark_enabled,
            final(self).prefs.color == old(self).prefs.color,
    {
        self.prefs.apply_difficulty(game);
    }
}

} // verus!

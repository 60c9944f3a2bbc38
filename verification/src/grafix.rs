//! Layout of the game window and the decisions behind its drawing.

use vstd::prelude::*;

use crate::geometry::{Point, Rect, Size};

verus! {

/// Face button sprites available in the bitmap sheet, in sheet order.
#[derive(Clone, Copy, PartialEq, Eq, Debug, Structural)]
pub enum ButtonSprite {
    /// Smiling face.
    Happy,
    /// Surprised face shown while a mouse button is held on the board.
    Caution,
    /// Face shown after a loss.
    Lose,
    /// Face shown after a win.
    Win,
    /// Pressed button.
    Down,
}


/// Base DPI at which the sprite sizes below are given.
pub const BASE_DPI: u32 = 96;
/// Width of a board cell sprite at 96 DPI.
pub const DX_BLK_96: i32 = 16;
/// Height of a board cell sprite at 96 DPI.
pub const DY_BLK_96: i32 = 16;
/// Width of an LED digit at 96 DPI.
pub const DX_LED_96: i32 = 13;
/// Height of an LED digit at 96 DPI.
pub const DY_LED_96: i32 = 23;
/// Width of the face button at 96 DPI.
pub const DX_BUTTON_96: i32 = 24;
/// Height of the face button at 96 DPI.
pub const DY_BUTTON_96: i32 = 24;
/// Left margin between the window frame and the board at 96 DPI.
pub const DX_LEFT_SPACE_96: i32 = 12;
/// Right margin between the window frame and the board at 96 DPI.
pub const DX_RIGHT_SPACE_96: i32 = 12;
/// Top margin above the LED row at 96 DPI.
pub const DY_TOP_SPACE_96: i32 = 12;
/// Bottom margin below the grid at 96 DPI.
pub const DY_BOTTOM_SPACE_96: i32 = 12;
/// Vertical offset to the LED row at 96 DPI.
pub const DY_TOP_LED_96: i32 = 16;
/// Vertical offset to the top of the grid at 96 DPI.
pub const DY_GRID_OFF_96: i32 = 55;
/// Left edge of the bomb counter at 96 DPI.
pub const DX_LEFT_BOMB_96: i32 = 17;
/// Offset from the right edge for the timer at 96 DPI.
pub const DX_RIGHT_TIME_96: i32 = 17;
/// Number of cell sprites in the block sheet.
pub const I_BLK_MAX: usize = 16;
/// Number of digits in the LED sheet.
pub const I_LED_MAX: usize = 12;
/// Number of face button sprites.
pub const BUTTON_SPRITE_COUNT: usize = 5;

/// A 96-DPI measurement scaled to `dpi`, rounded to nearest: what `MulDiv`
/// computes for non-negative operands.
pub open spec fn spec_scale(dpi: u32, val: i32) -> i32 {
    (((val as u64) as int * dpi as int + 48) / 96) as i32
}

/// Current UI dimensions and offsets, scaled from the base 96-DPI values.
#[derive(Clone, Copy, PartialEq, Eq, Debug, Structural)]
pub struct WindowDimensions {
    /// Current UI DPI.
    pub dpi: u32,
    /// Size of a board cell sprite.
    pub block: Size,
    /// Size of an LED digit.
    pub led: Size,
    /// Size of the face button.
    pub button: Size,
    /// Left margin between the window frame and the board.
    pub left_space: i32,
    /// Right margin between the window frame and the board.
    pub right_space: i32,
    /// Top margin above the LED row.
    pub top_space: i32,
    /// Bottom margin below the grid.
    pub bottom_space: i32,
    /// Vertical offset to the LED row.
    pub top_led: i32,
    /// Vertical offset to the top of the grid.
    pub grid_offset: i32,
    /// Left edge of the bomb counter.
    pub left_bomb: i32,
    /// Offset from the right edge for the timer.
    pub right_timer: i32,
}

/// Upper bound on a scaled dimension for which the layout arithmetic cannot
/// overflow.
pub const DIM_MAX: i32 = 0x10000;
/// Upper bound on a window coordinate for which the layout arithmetic cannot
/// overflow.
pub const COORD_MAX: i32 = 0x100_0000;

/// Dimensions that are not negative and not huge, with a positive cell size.
pub open spec fn dims_ok(d: WindowDimensions) -> bool {
    &&& 0 < d.block.cx <= DIM_MAX
    &&& 0 <= d.block.cy <= DIM_MAX
    &&& 0 <= d.led.cx <= DIM_MAX
    &&& 0 <= d.led.cy <= DIM_MAX
    &&& 0 <= d.button.cx <= DIM_MAX
    &&& 0 <= d.button.cy <= DIM_MAX
    &&& 0 <= d.left_space <= DIM_MAX
    &&& 0 <= d.right_space <= DIM_MAX
    &&& 0 <= d.top_space <= DIM_MAX
    &&& 0 <= d.bottom_space <= DIM_MAX
    &&& 0 <= d.top_led <= DIM_MAX
    &&& 0 <= d.grid_offset <= DIM_MAX
    &&& 0 <= d.left_bomb <= DIM_MAX
    &&& 0 <= d.right_timer <= DIM_MAX
    &&& d.dpi <= 0x10000
}

/// Every dimension is its 96-DPI value scaled to `dpi`.
pub open spec fn dims_scaled(d: WindowDimensions, dpi: u32) -> bool {
    &&& d.dpi == dpi
    &&& d.block.cx == spec_scale(dpi, DX_BLK_96)
    &&& d.block.cy == spec_scale(dpi, DY_BLK_96)
    &&& d.led.cx == spec_scale(dpi, DX_LED_96)
    &&& d.led.cy == spec_scale(dpi, DY_LED_96)
    &&& d.button.cx == spec_scale(dpi, DX_BUTTON_96)
    &&& d.button.cy == spec_scale(dpi, DY_BUTTON_96)
    &&& d.left_space == spec_scale(dpi, DX_LEFT_SPACE_96)
    &&& d.right_space == spec_scale(dpi, DX_RIGHT_SPACE_96)
    &&& d.top_space == spec_scale(dpi, DY_TOP_SPACE_96)
    &&& d.bottom_space == spec_scale(dpi, DY_BOTTOM_SPACE_96)
    &&& d.top_led == spec_scale(dpi, DY_TOP_LED_96)
    &&& d.grid_offset == spec_scale(dpi, DY_GRID_OFF_96)
    &&& d.left_bomb == spec_scale(dpi, DX_LEFT_BOMB_96)
    &&& d.right_timer == spec_scale(dpi, DX_RIGHT_TIME_96)
}

/// A non-negative 96-DPI value below 100 scaled to a DPI in `3..=65536` is
/// its exact rounded quotient, positive when the value is.
pub proof fn lemma_scale_small(dpi: u32, val: i32)
    requires
        3 <= dpi <= 0x10000,
        0 <= val <= 100,
    ensures
        spec_scale(dpi, val) as int == (val as int * dpi as int + 48) / 96,
        0 <= spec_scale(dpi, val) <= 0x10000 * 100 / 96 + 1,
        val as int * dpi as int >= 48 ==> spec_scale(dpi, val) > 0,
{
    assert((val as u64) as int == val as int);
    assert(0 <= (val as int * dpi as int + 48) / 96 <= 0x10000 * 100 / 96 + 1) by (nonlinear_arith)
        requires
            3 <= dpi <= 0x10000,
            0 <= val <= 100,
    ;
    assert(val as int * dpi as int >= 48 ==> (val as int * dpi as int + 48) / 96 > 0) by (nonlinear_arith)
        requires
            3 <= dpi <= 0x10000,
            0 <= val <= 100,
    ;
}

impl WindowDimensions {
    /// All dimensions zero at DPI zero.
    pub fn new() -> (r: WindowDimensions)
        ensures
            r.dpi == 0,
            r.block == (Size { cx: 0, cy: 0 }),
            r.led == (Size { cx: 0, cy: 0 }),
            r.button == (Size { cx: 0, cy: 0 }),
            r.left_space == 0 && r.right_space == 0 && r.top_space == 0 && r.bottom_space == 0,
            r.top_led == 0 && r.grid_offset == 0 && r.left_bomb == 0 && r.right_timer == 0,
    {
        WindowDimensions {
            dpi: 0,
            block: Size { cx: 0, cy: 0 },
            led: Size { cx: 0, cy: 0 },
            button: Size { cx: 0, cy: 0 },
            left_space: 0,
            right_space: 0,
            top_space: 0,
            bottom_space: 0,
            top_led: 0,
            grid_offset: 0,
            left_bomb: 0,
            right_timer: 0,
        }
    }

    /// Scale a 96-DPI measurement to the current DPI, rounding to nearest.
    pub fn scale_dpi(&self, val: i32) -> (r: i32)
        requires
            (val as u64) as int * self.dpi as int + 48 <= u64::MAX,
        ensures
            r == spec_scale(self.dpi, val),
    {
        let v = val as u64;
        let product = v * self.dpi as u64;
        assert(product as int == (val as u64) as int * self.dpi as int);
        let q = (product + (BASE_DPI as u64 / 2)) / BASE_DPI as u64;
        assert(q as int == ((val as u64) as int * self.dpi as int + 48) / 96);
        q as i32
    }

    /// Store a new DPI and rescale every dimension.
    pub fn update_dpi(&mut self, dpi: u32)
        ensures
            dims_scaled(*final(self), dpi),
            3 <= dpi <= 0x10000 ==> dims_ok(*final(self)),
    {
        self.dpi = dpi;
        assert(100 * dpi as int + 48 <= u64::MAX);
        self.block.cx = self.scale_dpi(DX_BLK_96);
        self.block.cy = self.scale_dpi(DY_BLK_96);
        self.led.cx = self.scale_dpi(DX_LED_96);
        self.led.cy = self.scale_dpi(DY_LED_96);
        self.button.cx = self.scale_dpi(DX_BUTTON_96);
        self.button.cy = self.scale_dpi(DY_BUTTON_96);
        self.left_space = self.scale_dpi(DX_LEFT_SPACE_96);
        self.right_space = self.scale_dpi(DX_RIGHT_SPACE_96);
        self.top_space = self.scale_dpi(DY_TOP_SPACE_96);
        self.bottom_space = self.scale_dpi(DY_BOTTOM_SPACE_96);
        self.top_led = self.scale_dpi(DY_TOP_LED_96);
        self.grid_offset = self.scale_dpi(DY_GRID_OFF_96);
        self.left_bomb = self.scale_dpi(DX_LEFT_BOMB_96);
        self.right_timer = self.scale_dpi(DX_RIGHT_TIME_96);
        proof {
            if 3 <= dpi <= 0x10000 {
                lemma_scale_small(dpi, DX_BLK_96);
                lemma_scale_small(dpi, DY_BLK_96);
                lemma_scale_small(dpi, DX_LED_96);
                lemma_scale_small(dpi, DY_LED_96);
                lemma_scale_small(dpi, DX_BUTTON_96);
                lemma_scale_small(dpi, DY_BUTTON_96);
                lemma_scale_small(dpi, DX_LEFT_SPACE_96);
                lemma_scale_small(dpi, DY_TOP_LED_96);
                lemma_scale_small(dpi, DY_GRID_OFF_96);
                lemma_scale_small(dpi, DX_LEFT_BOMB_96);
            }
        }
    }
}

/// Window geometry: the client extent and the scaled dimensions.
pub struct GrafixState {
    /// Current client extent of the window (width in `x`, height in `y`).
    pub wnd_pos: Point,
    /// Current UI dimensions and offsets.
    pub dims: WindowDimensions,
}

/// Geometry whose arithmetic cannot overflow.
pub open spec fn layout_ok(g: GrafixState) -> bool {
    &&& dims_ok(g.dims)
    &&& -COORD_MAX <= g.wnd_pos.x <= COORD_MAX
    &&& -COORD_MAX <= g.wnd_pos.y <= COORD_MAX
}

/// `a / b` rounded toward zero, as Rust's `/` on signed integers.
pub open spec fn trunc_div(a: int, b: int) -> int {
    if a >= 0 {
        a / b
    } else {
        -((-a) / b)
    }
}

/// The face button rectangle.
pub open spec fn spec_button_rect(g: GrafixState) -> Rect {
    Rect {
        left: trunc_div(g.wnd_pos.x - g.dims.button.cx, 2) as i32,
        right: trunc_div(g.wnd_pos.x + g.dims.button.cx, 2) as i32,
        top: g.dims.top_led,
        bottom: (g.dims.top_led + g.dims.button.cy) as i32,
    }
}

/// Signed halving rounded toward zero.
pub fn half(v: i32) -> (r: i32)
    ensures
        r == trunc_div(v as int, 2),
{
    if v >= 0 {
        v / 2
    } else {
        -((-(v as i64)) / 2) as i32
    }
}

impl GrafixState {
    /// A zero extent and zero dimensions.
    pub fn new() -> (r: GrafixState)
        ensures
            r.wnd_pos == (Point { x: 0, y: 0 }),
            r.dims.dpi == 0,
    {
        GrafixState { wnd_pos: Point { x: 0, y: 0 }, dims: WindowDimensions::new() }
    }

    /// Whether the geometry keeps the layout arithmetic in range (see
    /// `layout_ok`); the mouse can be mapped to cells only then.
    pub fn layout_ready(&self) -> (r: bool)
        ensures
            r == layout_ok(*self),
    {
        let d = &self.dims;
        0 < d.block.cx && d.block.cx <= DIM_MAX && 0 <= d.block.cy && d.block.cy <= DIM_MAX
            && 0 <= d.led.cx && d.led.cx <= DIM_MAX && 0 <= d.led.cy && d.led.cy <= DIM_MAX
            && 0 <= d.button.cx && d.button.cx <= DIM_MAX && 0 <= d.button.cy && d.button.cy
            <= DIM_MAX && 0 <= d.left_space && d.left_space <= DIM_MAX && 0 <= d.right_space
            && d.right_space <= DIM_MAX && 0 <= d.top_space && d.top_space <= DIM_MAX && 0
            <= d.bottom_space && d.bottom_space <= DIM_MAX && 0 <= d.top_led && d.top_led
            <= DIM_MAX && 0 <= d.grid_offset && d.grid_offset <= DIM_MAX && 0 <= d.left_bomb
            && d.left_bomb <= DIM_MAX && 0 <= d.right_timer && d.right_timer <= DIM_MAX && d.dpi
            <= 0x10000 && -COORD_MAX <= self.wnd_pos.x && self.wnd_pos.x <= COORD_MAX
            && -COORD_MAX <= self.wnd_pos.y && self.wnd_pos.y <= COORD_MAX
    }

    /// The rectangle of the face button.
    pub fn button_rect(&self) -> (r: Rect)
        requires
            layout_ok(*self),
        ensures
            r == spec_button_rect(*self),
    {
        Rect {
            left: half(self.wnd_pos.x - self.dims.button.cx),
            right: half(self.wnd_pos.x + self.dims.button.cx),
            top: self.dims.top_led,
            bottom: self.dims.top_led + self.dims.button.cy,
        }
    }
}


/// LED digit sprites of the bomb counter and the timer, in sheet order.
#[derive(Clone, Copy, PartialEq, Eq, Debug, Structural)]
pub enum LEDSprite {
    /// Digit 0.
    Zero,
    /// Digit 1.
    One,
    /// Digit 2.
    Two,
    /// Digit 3.
    Three,
    /// Digit 4.
    Four,
    /// Digit 5.
    Five,
    /// Digit 6.
    Six,
    /// Digit 7.
    Seven,
    /// Digit 8.
    Eight,
    /// Digit 9.
    Nine,
    /// No digit.
    Blank,
    /// Minus sign.
    Negative,
}

impl LEDSprite {
    /// The sprite index in the LED sheet.
    pub open spec fn spec_index(self) -> u16 {
        match self {
            LEDSprite::Zero => 0,
            LEDSprite::One => 1,
            LEDSprite::Two => 2,
            LEDSprite::Three => 3,
            LEDSprite::Four => 4,
            LEDSprite::Five => 5,
            LEDSprite::Six => 6,
            LEDSprite::Seven => 7,
            LEDSprite::Eight => 8,
            LEDSprite::Nine => 9,
            LEDSprite::Blank => 10,
            LEDSprite::Negative => 11,
        }
    }

    /// The sprite of index `v`: 0 to 9 are the digits, 10 the blank, 11 the
    /// minus sign; larger values give the blank.
    pub open spec fn spec_from_u16(v: u16) -> LEDSprite {
        if v == 0 {
            LEDSprite::Zero
        } else if v == 1 {
            LEDSprite::One
        } else if v == 2 {
            LEDSprite::Two
        } else if v == 3 {
            LEDSprite::Three
        } else if v == 4 {
            LEDSprite::Four
        } else if v == 5 {
            LEDSprite::Five
        } else if v == 6 {
            LEDSprite::Six
        } else if v == 7 {
            LEDSprite::Seven
        } else if v == 8 {
            LEDSprite::Eight
        } else if v == 9 {
            LEDSprite::Nine
        } else if v == 11 {
            LEDSprite::Negative
        } else {
            LEDSprite::Blank
        }
    }

    /// The sprite index in the LED sheet.
    pub fn index(self) -> (r: u16)
        ensures
            r == self.spec_index(),
            r < 12,
    {
        match self {
            LEDSprite::Zero => 0,
            LEDSprite::One => 1,
            LEDSprite::Two => 2,
            LEDSprite::Three => 3,
            LEDSprite::Four => 4,
            LEDSprite::Five => 5,
            LEDSprite::Six => 6,
            LEDSprite::Seven => 7,
            LEDSprite::Eight => 8,
            LEDSprite::Nine => 9,
            LEDSprite::Blank => 10,
            LEDSprite::Negative => 11,
        }
    }

    /// The sprite of index `value` (see `spec_from_u16`).
    pub fn from_u16(value: u16) -> (r: LEDSprite)
        ensures
            r == Self::spec_from_u16(value),
    {
        if value == 0 {
            LEDSprite::Zero
        } else if value == 1 {
            LEDSprite::One
        } else if value == 2 {
            LEDSprite::Two
        } else if value == 3 {
            LEDSprite::Three
        } else if value == 4 {
            LEDSprite::Four
        } else if value == 5 {
            LEDSprite::Five
        } else if value == 6 {
            LEDSprite::Six
        } else if value == 7 {
            LEDSprite::Seven
        } else if value == 8 {
            LEDSprite::Eight
        } else if value == 9 {
            LEDSprite::Nine
        } else if value == 11 {
            LEDSprite::Negative
        } else {
            LEDSprite::Blank
        }
    }

    /// The sprite of the magnitude of `value`.
    pub fn from_i16(value: i16) -> (r: LEDSprite)
        ensures
            r == Self::spec_from_u16(abs16(value)),
    {
        LEDSprite::from_u16(unsigned_abs16(value))
    }
}

impl From<u16> for LEDSprite {
    /// The sprite of index `value` (see `LEDSprite::from_u16`).
    fn from(value: u16) -> (r: Self) {
        LEDSprite::from_u16(value)
    }
}

impl vstd::std_specs::convert::FromSpecImpl<u16> for LEDSprite {
    open spec fn obeys_from_spec() -> bool {
        true
    }

    open spec fn from_spec(v: u16) -> Self {
        LEDSprite::spec_from_u16(v)
    }
}

impl From<i16> for LEDSprite {
    /// The sprite of the magnitude of `value`.
    fn from(value: i16) -> (r: Self) {
        LEDSprite::from_i16(value)
    }
}

impl vstd::std_specs::convert::FromSpecImpl<i16> for LEDSprite {
    open spec fn obeys_from_spec() -> bool {
        true
    }

    open spec fn from_spec(v: i16) -> Self {
        LEDSprite::spec_from_u16(abs16(v))
    }
}

/// The magnitude of `v` as an unsigned number.
pub open spec fn abs16(v: i16) -> u16 {
    if v < 0 {
        (-(v as int)) as u16
    } else {
        v as u16
    }
}

/// The magnitude of `v`, as `i16::unsigned_abs` computes it.
pub fn unsigned_abs16(v: i16) -> (r: u16)
    ensures
        r == abs16(v),
{
    if v < 0 {
        (-(v as i32)) as u16
    } else {
        v as u16
    }
}

/// The three LED sprites of the bomb counter: the hundreds (a minus sign
/// when negative), the tens and the units of the magnitude.
pub open spec fn spec_bomb_digits(bombs: i16) -> (LEDSprite, LEDSprite, LEDSprite) {
    let m = abs16(bombs);
    (
        if bombs < 0 {
            LEDSprite::Negative
        } else {
            LEDSprite::spec_from_u16((bombs / 100) as u16)
        },
        LEDSprite::spec_from_u16(((m % 100) / 10) as u16),
        LEDSprite::spec_from_u16((m % 10) as u16),
    )
}

/// The three LED sprites of the timer: hundreds, tens and units.
pub open spec fn spec_time_digits(time: u16) -> (LEDSprite, LEDSprite, LEDSprite) {
    (
        LEDSprite::spec_from_u16((time / 100) as u16),
        LEDSprite::spec_from_u16(((time % 100) / 10) as u16),
        LEDSprite::spec_from_u16((time % 10) as u16),
    )
}

/// The three LED sprites of the bomb counter (see `spec_bomb_digits`).
pub fn bomb_count_digits(bombs: i16) -> (r: (LEDSprite, LEDSprite, LEDSprite))
    ensures
        r == spec_bomb_digits(bombs),
{
    let hundreds = if bombs < 0 {
        LEDSprite::Negative
    } else {
        LEDSprite::from_u16((bombs / 100) as u16)
    };
    let m = unsigned_abs16(bombs);
    (hundreds, LEDSprite::from_u16((m % 100) / 10), LEDSprite::from_u16(m % 10))
}

/// The three LED sprites of the timer (see `spec_time_digits`).
pub fn time_digits(time: u16) -> (r: (LEDSprite, LEDSprite, LEDSprite))
    ensures
        r == spec_time_digits(time),
{
    (
        LEDSprite::from_u16(time / 100),
        LEDSprite::from_u16((time % 100) / 10),
        LEDSprite::from_u16(time % 10),
    )
}

/// The red, green and blue of the pen that draws the gray lines of the
/// borders: gray in color, black in monochrome.
pub fn gray_pen_color(color: bool) -> (c: (u8, u8, u8))
    ensures
        c == (if color {
            (128u8, 128u8, 128u8)
        } else {
            (0u8, 0u8, 0u8)
        }),
{
    if color {
        (128, 128, 128)
    } else {
        (0, 0, 0)
    }
}

/// The red, green and blue of the pen that draws the white lines of the
/// borders.
pub fn white_pen_color() -> (c: (u8, u8, u8))
    ensures
        c == (255u8, 255u8, 255u8),
{
    (255, 255, 255)
}

/// Bytes of a 32-bit bitmap of `w` by `h` pixels, when that count fits in
/// an `i32`.
pub fn bitmap_bytes(w: i32, h: i32) -> (r: Option<usize>)
    requires
        w > 0,
        h > 0,
    ensures
        r is Some <==> w * h * 4 <= i32::MAX,
        r matches Some(n) ==> n == w * h * 4,
{
    proof {
        assert(w as int * h as int <= 0x7fff_ffff * 0x7fff_ffff) by (nonlinear_arith)
            requires
                0 < w <= 0x7fff_ffff,
                0 < h <= 0x7fff_ffff,
        ;
    }
    let n: i64 = w as i64 * h as i64;
    proof {
        assert(n <= 0x7fff_ffff * 0x7fff_ffff) by (nonlinear_arith)
            requires
                n == w as int * h as int,
                0 < w <= 0x7fff_ffff,
                0 < h <= 0x7fff_ffff,
        ;
        assert(n > 0) by (nonlinear_arith)
            requires
                n == w as int * h as int,
                0 < w,
                0 < h,
        ;
    }
    if n > 0x7fff_ffff / 4 {
        None
    } else {
        Some((n * 4) as usize)
    }
}

/// A color as GDI stores it: red in the low byte, then green, then blue.
pub fn rgb(r: u8, g: u8, b: u8) -> (c: u32)
    ensures
        c == r as int + g as int * 0x100 + b as int * 0x10000,
{
    let c = r as u32 | ((g as u32) << 8) | ((b as u32) << 16);
    assert(c == r as int + g as int * 0x100 + b as int * 0x10000) by (bit_vector)
        requires
            c == r as u32 | ((g as u32) << 8) | ((b as u32) << 16),
    ;
    c
}

/// The pointer-sized value that names an integer resource.
pub fn make_int_resource(id: u16) -> (r: usize)
    ensures
        r == id as usize,
{
    id as usize
}

/// Border styles of the beveled frames.
#[derive(Clone, Copy, PartialEq, Eq, Debug, Structural)]
pub enum BorderStyle {
    /// Gray top and left edges, white bottom and right edges.
    Raised,
    /// White top and left edges, gray bottom and right edges.
    Sunken,
    /// One color all around.
    Flat,
}

/// The two pens of the frames.
#[derive(Clone, Copy, PartialEq, Eq, Debug, Structural)]
pub enum BorderPen {
    /// The shadow pen (gray, or black in monochrome).
    Gray,
    /// The light pen (white).
    White,
}

/// One drawing step of a frame.
#[derive(Clone, Copy, PartialEq, Eq, Debug, Structural)]
pub enum Stroke {
    /// Select a pen.
    Pen(BorderPen),
    /// Move the current position.
    MoveTo(Point),
    /// Draw a line from the current position.
    LineTo(Point),
}

/// The pen that draws the top and left edges of a frame of `style`: white
/// for a sunken frame, gray otherwise.
pub open spec fn spec_border_pen(style: BorderStyle) -> BorderPen {
    if style == BorderStyle::Sunken {
        BorderPen::White
    } else {
        BorderPen::Gray
    }
}

/// The pen of the top and left edges of a frame of `style`.
pub fn border_pen(style: BorderStyle) -> (r: BorderPen)
    ensures
        r == spec_border_pen(style),
{
    if style == BorderStyle::Sunken {
        BorderPen::White
    } else {
        BorderPen::Gray
    }
}

/// The `i`-th top-left line of a frame from `p1` to `p2`: up the left side,
/// then along the top.
pub open spec fn top_left_line(p1: Point, p2: Point, i: int) -> Seq<Stroke> {
    seq![
        Stroke::MoveTo(Point { x: (p1.x + i) as i32, y: (p2.y - i - 1) as i32 }),
        Stroke::LineTo(Point { x: (p1.x + i) as i32, y: (p1.y + i) as i32 }),
        Stroke::LineTo(Point { x: (p2.x - i) as i32, y: (p1.y + i) as i32 }),
    ]
}

/// The bottom-right line at depth `j` of a frame from `p1` to `p2`: along
/// the bottom, then up the right side.
pub open spec fn bottom_right_line(p1: Point, p2: Point, j: int) -> Seq<Stroke> {
    seq![
        Stroke::MoveTo(Point { x: (p1.x + j + 1) as i32, y: (p2.y - j) as i32 }),
        Stroke::LineTo(Point { x: (p2.x - j) as i32, y: (p2.y - j) as i32 }),
        Stroke::LineTo(Point { x: (p2.x - j) as i32, y: (p1.y + j) as i32 }),
    ]
}

/// The first `n` top-left lines, outermost first.
pub open spec fn top_left_lines(p1: Point, p2: Point, n: int) -> Seq<Stroke>
    decreases n,
{
    if n <= 0 {
        Seq::empty()
    } else {
        top_left_lines(p1, p2, n - 1) + top_left_line(p1, p2, n - 1)
    }
}

/// The first `n` bottom-right lines of a frame `w` lines wide, innermost
/// first.
pub open spec fn bottom_right_lines(p1: Point, p2: Point, w: int, n: int) -> Seq<Stroke>
    decreases n,
{
    if n <= 0 {
        Seq::empty()
    } else {
        bottom_right_lines(p1, p2, w, n - 1) + bottom_right_line(p1, p2, w - n)
    }
}

/// The strokes of a beveled frame `width` lines wide from `p1` to `p2`: the
/// top-left pen and the top and left edges, outermost first; for a beveled
/// style the other pen; then the bottom and right edges, innermost first.
pub open spec fn spec_border_strokes(p1: Point, p2: Point, width: int, style: BorderStyle) -> Seq<Stroke> {
    let first = seq![Stroke::Pen(spec_border_pen(style))] + top_left_lines(p1, p2, width);
    let second = if style == BorderStyle::Flat {
        first
    } else {
        first.push(
            Stroke::Pen(
                if style == BorderStyle::Sunken {
                    spec_border_pen(BorderStyle::Raised)
                } else {
                    spec_border_pen(BorderStyle::Sunken)
                },
            ),
        )
    };
    second + bottom_right_lines(p1, p2, width, width)
}

/// A bound on frame coordinates and widths that keeps the arithmetic in
/// range.
pub const BORDER_MAX: i32 = 0x100_0000;

/// The strokes of a beveled frame (see `spec_border_strokes`).
pub fn border_strokes(point1: Point, point2: Point, width: i32, style: BorderStyle) -> (r: Vec<Stroke>)
    requires
        0 <= width <= BORDER_MAX,
        -BORDER_MAX <= point1.x <= BORDER_MAX,
        -BORDER_MAX <= point1.y <= BORDER_MAX,
        -BORDER_MAX <= point2.x <= BORDER_MAX,
        -BORDER_MAX <= point2.y <= BORDER_MAX,
    ensures
        r@ == spec_border_strokes(point1, point2, width as int, style),
{
    let mut out: Vec<Stroke> = Vec::new();
    out.push(Stroke::Pen(border_pen(style)));
    let mut i: i32 = 0;
    while i < width
        invariant
            0 <= i <= width <= BORDER_MAX,
            -BORDER_MAX <= point1.x <= BORDER_MAX,
            -BORDER_MAX <= point1.y <= BORDER_MAX,
            -BORDER_MAX <= point2.x <= BORDER_MAX,
            -BORDER_MAX <= point2.y <= BORDER_MAX,
            out@ == seq![Stroke::Pen(spec_border_pen(style))] + top_left_lines(point1, point2, i as int),
        decreases width - i,
    {
        out.push(Stroke::MoveTo(Point { x: point1.x + i, y: point2.y - i - 1 }));
        out.push(Stroke::LineTo(Point { x: point1.x + i, y: point1.y + i }));
        out.push(Stroke::LineTo(Point { x: point2.x - i, y: point1.y + i }));
        proof {
            assert(top_left_lines(point1, point2, i + 1) == top_left_lines(point1, point2, i as int)
                + top_left_line(point1, point2, i as int));
            assert(out@ =~= seq![Stroke::Pen(spec_border_pen(style))] + top_left_lines(point1, point2, i + 1));
        }
        i += 1;
    }
    if style != BorderStyle::Flat {
        let second = if style == BorderStyle::Sunken {
            border_pen(BorderStyle::Raised)
        } else {
            border_pen(BorderStyle::Sunken)
        };
        out.push(Stroke::Pen(second));
    }
    let ghost head = out@;
    let mut k: i32 = 0;
    while k < width
        invariant
            0 <= k <= width <= BORDER_MAX,
            -BORDER_MAX <= point1.x <= BORDER_MAX,
            -BORDER_MAX <= point1.y <= BORDER_MAX,
            -BORDER_MAX <= point2.x <= BORDER_MAX,
            -BORDER_MAX <= point2.y <= BORDER_MAX,
            out@ == head + bottom_right_lines(point1, point2, width as int, k as int),
        decreases width - k,
    {
        let j = width - 1 - k;
        out.push(Stroke::MoveTo(Point { x: point1.x + j + 1, y: point2.y - j }));
        out.push(Stroke::LineTo(Point { x: point2.x - j, y: point2.y - j }));
        out.push(Stroke::LineTo(Point { x: point2.x - j, y: point1.y + j }));
        proof {
            assert(bottom_right_lines(point1, point2, width as int, k + 1) == bottom_right_lines(
                point1,
                point2,
                width as int,
                k as int,
            ) + bottom_right_line(point1, point2, j as int));
            assert(out@ =~= head + bottom_right_lines(point1, point2, width as int, k + 1));
        }
        k += 1;
    }
    proof {
        if style == BorderStyle::Flat {
            assert(head == seq![Stroke::Pen(spec_border_pen(style))] + top_left_lines(point1, point2, width as int));
        }
    }
    out
}


/// A beveled frame to draw.
#[derive(Clone, Copy, PartialEq, Eq, Debug, Structural)]
pub struct Border {
    /// Top-left corner.
    pub p1: Point,
    /// Bottom-right corner.
    pub p2: Point,
    /// Number of lines.
    pub width: i32,
    /// Bevel style.
    pub style: BorderStyle,
}

/// The frames of the window background, in drawing order: the outer sunken
/// frame, the raised frame around the grid, the raised frame of the LED
/// area, the frames of the bomb counter and of the timer, and the flat frame
/// of the face button.
pub open spec fn spec_background(g: GrafixState) -> Seq<Border> {
    let d = g.dims;
    let dx = g.wnd_pos.x as int;
    let dy = g.wnd_pos.y as int;
    let b3 = spec_scale(d.dpi, 3) as int;
    let b2 = spec_scale(d.dpi, 2) as int;
    let b1 = spec_scale(d.dpi, 1) as int;
    let x = dx - 1 - (d.right_space - b3);
    let y = dy - 1 - (d.bottom_space - b3);
    let led_y = d.top_led + d.led.cy;
    let timer_x = dx - (d.right_timer + 3 * d.led.cx + b1);
    let button_x = trunc_div(dx - d.button.cx, 2) - b1;
    seq![
        Border {
            p1: Point { x: 0, y: 0 },
            p2: Point { x: (dx - 1) as i32, y: (dy - 1) as i32 },
            width: b3 as i32,
            style: BorderStyle::Sunken,
        },
        Border {
            p1: Point { x: (d.left_space - b3) as i32, y: (d.grid_offset - b3) as i32 },
            p2: Point { x: x as i32, y: y as i32 },
            width: b3 as i32,
            style: BorderStyle::Raised,
        },
        Border {
            p1: Point { x: (d.left_space - b3) as i32, y: (d.top_space - b3) as i32 },
            p2: Point {
                x: x as i32,
                y: (d.top_led + d.led.cy + (d.bottom_space - spec_scale(d.dpi, 6))) as i32,
            },
            width: b2 as i32,
            style: BorderStyle::Raised,
        },
        Border {
            p1: Point { x: (d.left_bomb - b1) as i32, y: (d.top_led - b1) as i32 },
            p2: Point { x: (d.left_bomb + d.led.cx * 3) as i32, y: led_y as i32 },
            width: b1 as i32,
            style: BorderStyle::Raised,
        },
        Border {
            p1: Point { x: timer_x as i32, y: (d.top_led - b1) as i32 },
            p2: Point { x: (timer_x + (d.led.cx * 3 + b1)) as i32, y: led_y as i32 },
            width: b1 as i32,
            style: BorderStyle::Raised,
        },
        Border {
            p1: Point { x: button_x as i32, y: (d.top_led - b1) as i32 },
            p2: Point { x: (button_x + d.button.cx + b1) as i32, y: (d.top_led + d.button.cy) as i32 },
            width: b1 as i32,
            style: BorderStyle::Flat,
        },
    ]
}

impl GrafixState {
    /// The frames of the window background (see `spec_background`).
    pub fn background_borders(&self) -> (r: Vec<Border>)
        requires
            layout_ok(*self),
        ensures
            r@ == spec_background(*self),
    {
        let d = self.dims;
        let dx = self.wnd_pos.x;
        let dy = self.wnd_pos.y;
        assert(6 * d.dpi as int + 48 <= u64::MAX);
        let b3 = d.scale_dpi(3);
        let b2 = d.scale_dpi(2);
        let b1 = d.scale_dpi(1);
        let b6 = d.scale_dpi(6);
        proof {
            assert(0 <= (3 * d.dpi as int + 48) / 96 <= 0x10000) by (nonlinear_arith)
                requires
                    d.dpi <= 0x10000,
            ;
            assert(0 <= (2 * d.dpi as int + 48) / 96 <= 0x10000) by (nonlinear_arith)
                requires
                    d.dpi <= 0x10000,
            ;
            assert(0 <= (1 * d.dpi as int + 48) / 96 <= 0x10000) by (nonlinear_arith)
                requires
                    d.dpi <= 0x10000,
            ;
            assert(0 <= (6 * d.dpi as int + 48) / 96 <= 0x10000) by (nonlinear_arith)
                requires
                    d.dpi <= 0x10000,
            ;
        }
        let mut out: Vec<Border> = Vec::new();
        out.push(Border { p1: Point { x: 0, y: 0 }, p2: Point { x: dx - 1, y: dy - 1 }, width: b3, style: BorderStyle::Sunken });
        let x = dx - 1 - (d.right_space - b3);
        let y = dy - 1 - (d.bottom_space - b3);
        out.push(Border {
            p1: Point { x: d.left_space - b3, y: d.grid_offset - b3 },
            p2: Point { x, y },
            width: b3,
            style: BorderStyle::Raised,
        });
        out.push(Border {
            p1: Point { x: d.left_space - b3, y: d.top_space - b3 },
            p2: Point { x, y: d.top_led + d.led.cy + (d.bottom_space - b6) },
            width: b2,
            style: BorderStyle::Raised,
        });
        let led_y = d.top_led + d.led.cy;
        out.push(Border {
            p1: Point { x: d.left_bomb - b1, y: d.top_led - b1 },
            p2: Point { x: d.left_bomb + d.led.cx * 3, y: led_y },
            width: b1,
            style: BorderStyle::Raised,
        });
        let timer_x = dx - (d.right_timer + 3 * d.led.cx + b1);
        out.push(Border {
            p1: Point { x: timer_x, y: d.top_led - b1 },
            p2: Point { x: timer_x + (d.led.cx * 3 + b1), y: led_y },
            width: b1,
            style: BorderStyle::Raised,
        });
        let button_x = half(dx - d.button.cx) - b1;
        out.push(Border {
            p1: Point { x: button_x, y: d.top_led - b1 },
            p2: Point { x: button_x + d.button.cx + b1, y: d.top_led + d.button.cy },
            width: b1,
            style: BorderStyle::Flat,
        });
        assert(out@ =~= spec_background(*self));
        out
    }

    /// The top-left pixel of the cell (`x`, `y`).
    pub fn block_origin(&self, x: usize, y: usize) -> (r: Point)
        requires
            layout_ok(*self),
            x < 30,
            y < 25,
        ensures
            r == (Point {
                x: (x * self.dims.block.cx + self.dims.left_space) as i32,
                y: (y * self.dims.block.cy + self.dims.grid_offset) as i32,
            }),
    {
        proof {
            assert(x * self.dims.block.cx <= 29 * 0x10000) by (nonlinear_arith)
                requires
                    x < 30,
                    0 <= self.dims.block.cx <= 0x10000,
            ;
            assert(y * self.dims.block.cy <= 24 * 0x10000) by (nonlinear_arith)
                requires
                    y < 25,
                    0 <= self.dims.block.cy <= 0x10000,
            ;
            assert(0 <= x * self.dims.block.cx) by (nonlinear_arith)
                requires
                    0 <= self.dims.block.cx,
            ;
            assert(0 <= y * self.dims.block.cy) by (nonlinear_arith)
                requires
                    0 <= self.dims.block.cy,
            ;
        }
        Point {
            x: (x as i32) * self.dims.block.cx + self.dims.left_space,
            y: (y as i32) * self.dims.block.cy + self.dims.grid_offset,
        }
    }

    /// The left edges of the three digits of the bomb counter.
    pub fn bomb_led_xs(&self) -> (r: (i32, i32, i32))
        requires
            layout_ok(*self),
        ensures
            r == ((self.dims.left_bomb) as i32, (self.dims.left_bomb + self.dims.led.cx) as i32, (
            self.dims.left_bomb + self.dims.led.cx * 2) as i32),
    {
        let x0 = self.dims.left_bomb;
        let dx = self.dims.led.cx;
        (x0, x0 + dx, x0 + dx * 2)
    }

    /// The left edges of the three digits of the timer, counted from the
    /// right edge of the window.
    pub fn timer_led_xs(&self) -> (r: (i32, i32, i32))
        requires
            layout_ok(*self),
        ensures
            r == ((self.wnd_pos.x - (self.dims.right_timer + 3 * self.dims.led.cx)) as i32, (
            self.wnd_pos.x - (self.dims.right_timer + 2 * self.dims.led.cx)) as i32, (self.wnd_pos.x
                - (self.dims.right_timer + self.dims.led.cx)) as i32),
    {
        let w = self.wnd_pos.x;
        let dx = self.dims.led.cx;
        let r = self.dims.right_timer;
        (w - (r + 3 * dx), w - (r + 2 * dx), w - (r + dx))
    }

    /// The top-left pixel of the face button: centered, at the LED row.
    pub fn button_origin(&self) -> (r: Point)
        requires
            layout_ok(*self),
        ensures
            r == (Point {
                x: trunc_div(self.wnd_pos.x - self.dims.button.cx, 2) as i32,
                y: self.dims.top_led,
            }),
    {
        Point { x: half(self.wnd_pos.x - self.dims.button.cx), y: self.dims.top_led }
    }
}

/// Whether a sprite of `base` pixels must be resampled to be drawn at
/// `target` pixels.
pub fn needs_resample(target: Size, base_w: i32, base_h: i32) -> (r: bool)
    ensures
        r == (target.cx != base_w || target.cy != base_h),
{
    target.cx != base_w || target.cy != base_h
}

} // verus!

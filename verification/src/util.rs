//! Resource identifiers, the pseudo-random generator and the parsing of
//! integers typed into dialogs.

use vstd::prelude::*;
use vstd::string::StringSliceAdditionalSpecFns;

verus! {

/// Identifiers of the resources used by the game: dialogs, controls, menu
/// items, bitmaps, sounds and help contexts.
#[derive(Clone, Copy, PartialEq, Eq, Debug, Structural)]
pub enum ResourceId {
    /// No resource.
    NoResource,
    /// Main application icon.
    Icon,
    /// Colored blocks bitmap.
    BlocksBmp,
    /// Black-and-white blocks bitmap.
    BWBlocksBmp,
    /// Colored LED bitmap.
    LedBmp,
    /// Black-and-white LED bitmap.
    BWLedBmp,
    /// Colored buttons bitmap.
    ButtonBmp,
    /// Black-and-white buttons bitmap.
    BWButtonBmp,
    /// Tick sound.
    TuneTick,
    /// Winning sound.
    TuneWon,
    /// Losing sound.
    TuneLost,
    /// Preferences dialog.
    PrefDlg,
    /// OK button of the preferences dialog.
    OkBtn,
    /// Cancel button of the preferences dialog.
    CancelBtn,
    /// Mines label.
    MinesText,
    /// Height label.
    HeightText,
    /// Width label.
    WidthText,
    /// Height edit control.
    HeightEdit,
    /// Width edit control.
    WidthEdit,
    /// Mines edit control.
    MinesEdit,
    /// Custom settings label.
    CustomText,
    /// Enter-name dialog.
    EnterDlg,
    /// Best-times label of the enter-name dialog.
    BestText,
    /// Player name edit control.
    NameEdit,
    /// Best-times dialog.
    BestDlg,
    /// Beginner time.
    BeginTime,
    /// Beginner name.
    BeginName,
    /// Intermediate time.
    InterTime,
    /// Intermediate name.
    InterName,
    /// Expert time.
    ExpertTime,
    /// Expert name.
    ExpertName,
    /// Reset best times button.
    ResetBtn,
    /// Static text 1.
    SText1,
    /// Static text 2.
    SText2,
    /// Static text 3.
    SText3,
    /// Main menu.
    Menu,
    /// Accelerator table.
    MenuAccel,
    /// New game menu item.
    NewGame,
    /// Exit menu item.
    Exit,
    /// Skill level submenu.
    SkillSubmenu,
    /// Beginner menu item.
    Begin,
    /// Intermediate menu item.
    Inter,
    /// Expert menu item.
    Expert,
    /// Custom menu item.
    Custom,
    /// Sound menu item.
    Sound,
    /// Marks menu item.
    Mark,
    /// Best times menu item.
    Best,
    /// Color menu item.
    Color,
    /// Help submenu.
    HelpSubmenu,
    /// "How to play" menu item.
    HowToPlay,
    /// "Help on Help" menu item.
    HelpOnHelp,
    /// About menu item.
    About,
    /// Help context of the height edit control.
    PrefEditHeight,
    /// Help context of the width edit control.
    PrefEditWidth,
    /// Help context of the mines edit control.
    PrefEditMines,
    /// Help context of the reset button.
    BestBtnReset,
    /// Help context of the static texts.
    SText,
}

impl ResourceId {
    /// The numeric identifier of the resource.
    pub open spec fn spec_id(self) -> u16 {
        match self {
            ResourceId::NoResource => 0,
            ResourceId::Icon => 100,
            ResourceId::BlocksBmp => 410,
            ResourceId::BWBlocksBmp => 411,
            ResourceId::LedBmp => 420,
            ResourceId::BWLedBmp => 421,
            ResourceId::ButtonBmp => 430,
            ResourceId::BWButtonBmp => 431,
            ResourceId::TuneTick => 432,
            ResourceId::TuneWon => 433,
            ResourceId::TuneLost => 434,
            ResourceId::PrefDlg => 80,
            ResourceId::OkBtn => 101,
            ResourceId::CancelBtn => 109,
            ResourceId::MinesText => 111,
            ResourceId::HeightText => 112,
            ResourceId::WidthText => 113,
            ResourceId::HeightEdit => 141,
            ResourceId::WidthEdit => 142,
            ResourceId::MinesEdit => 143,
            ResourceId::CustomText => 151,
            ResourceId::EnterDlg => 600,
            ResourceId::BestText => 601,
            ResourceId::NameEdit => 602,
            ResourceId::BestDlg => 700,
            ResourceId::BeginTime => 701,
            ResourceId::BeginName => 702,
            ResourceId::InterTime => 703,
            ResourceId::InterName => 704,
            ResourceId::ExpertTime => 705,
            ResourceId::ExpertName => 706,
            ResourceId::ResetBtn => 707,
            ResourceId::SText1 => 708,
            ResourceId::SText2 => 709,
            ResourceId::SText3 => 710,
            ResourceId::Menu => 500,
            ResourceId::MenuAccel => 501,
            ResourceId::NewGame => 510,
            ResourceId::Exit => 512,
            ResourceId::SkillSubmenu => 520,
            ResourceId::Begin => 521,
            ResourceId::Inter => 522,
            ResourceId::Expert => 523,
            ResourceId::Custom => 524,
            ResourceId::Sound => 526,
            ResourceId::Mark => 527,
            ResourceId::Best => 528,
            ResourceId::Color => 529,
            ResourceId::HelpSubmenu => 590,
            ResourceId::HowToPlay => 591,
            ResourceId::HelpOnHelp => 592,
            ResourceId::About => 593,
            ResourceId::PrefEditHeight => 1000,
            ResourceId::PrefEditWidth => 1001,
            ResourceId::PrefEditMines => 1002,
            ResourceId::BestBtnReset => 1003,
            ResourceId::SText => 1004,
        }
    }

    /// The numeric identifier of the resource.
    pub fn id(self) -> (r: u16)
        ensures
            r == self.spec_id(),
    {
        match self {
            ResourceId::NoResource => 0,
            ResourceId::Icon => 100,
            ResourceId::BlocksBmp => 410,
            ResourceId::BWBlocksBmp => 411,
            ResourceId::LedBmp => 420,
            ResourceId::BWLedBmp => 421,
            ResourceId::ButtonBmp => 430,
            ResourceId::BWButtonBmp => 431,
            ResourceId::TuneTick => 432,
            ResourceId::TuneWon => 433,
            ResourceId::TuneLost => 434,
            ResourceId::PrefDlg => 80,
            ResourceId::OkBtn => 101,
            ResourceId::CancelBtn => 109,
            ResourceId::MinesText => 111,
            ResourceId::HeightText => 112,
            ResourceId::WidthText => 113,
            ResourceId::HeightEdit => 141,
            ResourceId::WidthEdit => 142,
            ResourceId::MinesEdit => 143,
            ResourceId::CustomText => 151,
            ResourceId::EnterDlg => 600,
            ResourceId::BestText => 601,
            ResourceId::NameEdit => 602,
            ResourceId::BestDlg => 700,
            ResourceId::BeginTime => 701,
            ResourceId::BeginName => 702,
            ResourceId::InterTime => 703,
            ResourceId::InterName => 704,
            ResourceId::ExpertTime => 705,
            ResourceId::ExpertName => 706,
            ResourceId::ResetBtn => 707,
            ResourceId::SText1 => 708,
            ResourceId::SText2 => 709,
            ResourceId::SText3 => 710,
            ResourceId::Menu => 500,
            ResourceId::MenuAccel => 501,
            ResourceId::NewGame => 510,
            ResourceId::Exit => 512,
            ResourceId::SkillSubmenu => 520,
            ResourceId::Begin => 521,
            ResourceId::Inter => 522,
            ResourceId::Expert => 523,
            ResourceId::Custom => 524,
            ResourceId::Sound => 526,
            ResourceId::Mark => 527,
            ResourceId::Best => 528,
            ResourceId::Color => 529,
            ResourceId::HelpSubmenu => 590,
            ResourceId::HowToPlay => 591,
            ResourceId::HelpOnHelp => 592,
            ResourceId::About => 593,
            ResourceId::PrefEditHeight => 1000,
            ResourceId::PrefEditWidth => 1001,
            ResourceId::PrefEditMines => 1002,
            ResourceId::BestBtnReset => 1003,
            ResourceId::SText => 1004,
        }
    }
}

impl From<ResourceId> for u16 {
    /// The numeric identifier of the resource.
    fn from(res_id: ResourceId) -> (r: Self) {
        res_id.id()
    }
}

impl vstd::std_specs::convert::FromSpecImpl<ResourceId> for u16 {
    open spec fn obeys_from_spec() -> bool {
        true
    }

    open spec fn from_spec(v: ResourceId) -> u16 {
        v.spec_id()
    }
}

/// Multiplier of the linear congruential generator.
pub const RNG_MULTIPLIER: u32 = 214_013;
/// Increment of the linear congruential generator.
pub const RNG_INCREMENT: u32 = 2_531_011;

/// The generator state that follows `s`: `(s * 214013 + 2531011) mod 2^32`.
pub open spec fn lcg_next(s: u32) -> u32 {
    ((s as int * RNG_MULTIPLIER as int + RNG_INCREMENT as int) % 0x1_0000_0000) as u32
}

/// The value drawn from the state `next`: bits 16 to 30 of it.
pub open spec fn lcg_output(next: u32) -> u32 {
    ((next as int / 0x10000) % 0x8000) as u32
}

/// State of the linear congruential generator used to place the bombs. It
/// is the generator of the C library's `rand()`.
#[derive(Clone, Copy, PartialEq, Eq, Debug, Structural)]
pub struct Rng {
    /// The current state.
    pub state: u32,
}

/// A generator seeded with `seed`, as `srand(seed)` does.
pub fn seed_rng(seed: u16) -> (r: Rng)
    ensures
        r.state == seed as u32,
{
    Rng { state: seed as u32 }
}

/// Advance the generator and return the next pseudo-random number in
/// `0..32768`, as `rand()` does.
pub fn rand(rng: &mut Rng) -> (r: u32)
    ensures
        final(rng).state == lcg_next(old(rng).state),
        r == lcg_output(lcg_next(old(rng).state)),
        r < 0x8000,
{
    let current = rng.state;
    let next = current.wrapping_mul(RNG_MULTIPLIER).wrapping_add(RNG_INCREMENT);
    proof {
        let m = current as int * RNG_MULTIPLIER as int;
        assert(next == lcg_next(current)) by (nonlinear_arith)
            requires
                next == vstd::wrapping::u32_specs::wrapping_add(
                    vstd::wrapping::u32_specs::wrapping_mul(current, RNG_MULTIPLIER),
                    RNG_INCREMENT,
                ),
        ;
    }
    rng.state = next;
    let r = (next >> 16) & 0x7FFF;
    assert(r == lcg_output(next)) by (bit_vector)
        requires
            r == (next >> 16) & 0x7FFF,
    ;
    r
}

/// A pseudo-random number in `0..rnd_max`: the next `rand()` modulo
/// `rnd_max`.
pub fn rnd(rng: &mut Rng, rnd_max: u32) -> (r: u32)
    requires
        rnd_max > 0,
    ensures
        final(rng).state == lcg_next(old(rng).state),
        r == lcg_output(lcg_next(old(rng).state)) % rnd_max,
        r < rnd_max,
{
    rand(rng) % rnd_max
}

/// Whether `b` is an ASCII decimal digit.
pub open spec fn is_digit(b: u8) -> bool {
    48 <= b <= 57
}

/// The decimal value of the digit string `d`.
pub open spec fn digits_value(d: Seq<u8>) -> nat
    decreases d.len(),
{
    if d.len() == 0 {
        0
    } else {
        digits_value(d.drop_last()) * 10 + (d.last() - 48) as nat
    }
}

/// The digits of `b` once an optional leading `+` is removed (a lone `+`
/// is kept, and is then no digit).
pub open spec fn unsigned_digits(b: Seq<u8>) -> Seq<u8> {
    if b.len() > 1 && b[0] == 43 {
        b.subrange(1, b.len() as int)
    } else {
        b
    }
}

/// What `u32::from_str` accepts: an optional `+`, then one or more ASCII
/// digits whose value fits in a `u32`.
pub open spec fn spec_parse_u32(b: Seq<u8>) -> Option<u32> {
    let d = unsigned_digits(b);
    if d.len() > 0 && (forall|i: int| 0 <= i < d.len() ==> is_digit(#[trigger] d[i]))
        && digits_value(d) <= u32::MAX {
        Some(digits_value(d) as u32)
    } else {
        None
    }
}

/// A longer digit string never has a smaller value.
proof fn lemma_digits_mono(d: Seq<u8>, j: int)
    requires
        0 <= j <= d.len(),
        forall|i: int| 0 <= i < d.len() ==> is_digit(#[trigger] d[i]),
    ensures
        digits_value(d.subrange(0, j)) <= digits_value(d),
    decreases d.len() - j,
{
    if j < d.len() {
        let t = d.subrange(0, j + 1);
        assert(t.drop_last() =~= d.subrange(0, j));
        lemma_digits_mono(d, j + 1);
    } else {
        assert(d.subrange(0, j) =~= d);
    }
}

/// Parse a decimal `u32` the way `str::parse::<u32>` does.
pub fn parse_u32(s: &str) -> (r: Option<u32>)
    ensures
        r == spec_parse_u32(s.spec_bytes()),
{
    let b = s.as_bytes();
    let ghost bs = b@;
    let start: usize = if b.len() > 1 && b[0] == 43 {
        1
    } else {
        0
    };
    let ghost d = unsigned_digits(bs);
    assert(d =~= bs.subrange(start as int, bs.len() as int));
    if b.len() == start {
        return None;
    }
    let mut acc: u64 = 0;
    let mut i: usize = start;
    while i < b.len()
        invariant
            b@ == bs,
            bs == s.spec_bytes(),
            d == unsigned_digits(bs),
            d =~= bs.subrange(start as int, bs.len() as int),
            start <= i <= bs.len(),
            forall|k: int| 0 <= k < i - start ==> is_digit(#[trigger] d[k]),
            acc as nat == digits_value(d.subrange(0, i - start)),
            acc <= u32::MAX,
        decreases bs.len() - i,
    {
        let c = b[i];
        if c < 48 || c > 57 {
            assert(d[i - start] == c);
            assert(!is_digit(d[i - start]));
            return None;
        }
        let ghost pre = d.subrange(0, i - start);
        assert(d.subrange(0, i - start + 1).drop_last() =~= pre);
        acc = acc * 10 + (c - 48) as u64;
        if acc > 0xFFFF_FFFF {
            proof {
                assert(d[i - start] == c);
                if forall|k: int| 0 <= k < d.len() ==> is_digit(#[trigger] d[k]) {
                    lemma_digits_mono(d, i - start + 1);
                }
            }
            return None;
        }
        i += 1;
    }
    assert(d.subrange(0, d.len() as int) =~= d);
    Some(acc as u32)
}

/// The value typed into a dialog field, clamped to `num_lo..=num_hi`; `None`
/// when the text is not a decimal `u32`.
pub fn get_dlg_int(text: &str, num_lo: u32, num_hi: u32) -> (r: Option<u32>)
    requires
        num_lo <= num_hi,
    ensures
        match spec_parse_u32(text.spec_bytes()) {
            Some(v) => r == Some(
                if v < num_lo {
                    num_lo
                } else if v > num_hi {
                    num_hi
                } else {
                    v
                },
            ),
            None => r is None,
        },
{
    match parse_u32(text) {
        Some(v) => Some(
            if v < num_lo {
                num_lo
            } else if v > num_hi {
                num_hi
            } else {
                v
            },
        ),
        None => None,
    }
}

} // verus!

//! User preferences: the registry value names, the clamping of what the
//! registry holds, what is written back, difficulty presets and best times.

use vstd::prelude::*;
use vstd::string::StringSliceAdditionalSpecFns;

use crate::geometry::Point;
use crate::util::{get_dlg_int, spec_parse_u32, ResourceId};

verus! {

/// Maximum length (UTF-16 code units) of player names stored in the registry.
pub const CCH_NAME_MAX: usize = 32;
/// Minimum board height allowed by the game.
pub const MINHEIGHT: u32 = 9;
/// Maximum board height allowed by the game.
pub const MAXHEIGHT: u32 = 24;
/// Minimum board width allowed by the game.
pub const MINWIDTH: u32 = 9;
/// Maximum board width allowed by the game.
pub const MAXWIDTH: u32 = 30;
/// Minimum number of mines allowed on the board.
pub const MINMINES: u32 = 10;
/// Maximum number of mines allowed on the board.
pub const MAXMINES: u32 = 999;

/// Preference keys used to read and write settings in the registry.
#[derive(Clone, Copy, PartialEq, Eq, Debug, Structural)]
pub enum PrefKey {
    /// Game difficulty.
    Difficulty,
    /// Number of mines on the board.
    Mines,
    /// Board height in cells.
    Height,
    /// Board width in cells.
    Width,
    /// X position of the main window.
    Xpos,
    /// Y position of the main window.
    Ypos,
    /// Whether sound effects are enabled.
    Sound,
    /// Whether right-click marking is enabled.
    Mark,
    /// Whether to use color assets.
    Color,
    /// Best time for Beginner level.
    Time1,
    /// Player name for Beginner level.
    Name1,
    /// Best time for Intermediate level.
    Time2,
    /// Player name for Intermediate level.
    Name2,
    /// Best time for Expert level.
    Time3,
    /// Player name for Expert level.
    Name3,
    /// Whether the user has played the game before.
    AlreadyPlayed,
}

/// The registry value name of a preference key.
pub open spec fn key_name(k: PrefKey) -> Seq<char> {
    match k {
        PrefKey::Difficulty => "Difficulty"@,
        PrefKey::Mines => "Mines"@,
        PrefKey::Height => "Height"@,
        PrefKey::Width => "Width"@,
        PrefKey::Xpos => "Xpos"@,
        PrefKey::Ypos => "Ypos"@,
        PrefKey::Sound => "Sound"@,
        PrefKey::Mark => "Mark"@,
        PrefKey::Color => "Color"@,
        PrefKey::Time1 => "Time1"@,
        PrefKey::Name1 => "Name1"@,
        PrefKey::Time2 => "Time2"@,
        PrefKey::Name2 => "Name2"@,
        PrefKey::Time3 => "Time3"@,
        PrefKey::Name3 => "Name3"@,
        PrefKey::AlreadyPlayed => "AlreadyPlayed"@,
    }
}

impl PrefKey {
    /// The registry value name of the key; always `Some`, the form in which
    /// the registry calls take it.
    pub fn string(self) -> (r: Option<&'static str>)
        ensures
            r is Some,
            r.unwrap()@ == key_name(self),
    {
        Some(
            match self {
                PrefKey::Difficulty => "Difficulty",
                PrefKey::Mines => "Mines",
                PrefKey::Height => "Height",
                PrefKey::Width => "Width",
                PrefKey::Xpos => "Xpos",
                PrefKey::Ypos => "Ypos",
                PrefKey::Sound => "Sound",
                PrefKey::Mark => "Mark",
                PrefKey::Color => "Color",
                PrefKey::Time1 => "Time1",
                PrefKey::Name1 => "Name1",
                PrefKey::Time2 => "Time2",
                PrefKey::Name2 => "Name2",
                PrefKey::Time3 => "Time3",
                PrefKey::Name3 => "Name3",
                PrefKey::AlreadyPlayed => "AlreadyPlayed",
            },
        )
    }
}

/// Difficulty presets.
#[derive(Clone, Copy, PartialEq, Eq, Debug, Structural)]
pub enum GameType {
    /// Beginner level.
    Begin,
    /// Intermediate level.
    Inter,
    /// Expert level.
    Expert,
    /// Custom level.
    Other,
}

/// The message asking for the player's name after a best time.
pub open spec fn fastest_msg(g: GameType) -> Seq<char> {
    match g {
        GameType::Begin => "You have the fastest time\rfor beginner level.\rPlease enter your name."@,
        GameType::Inter => "You have the fastest time\rfor intermediate level.\rPlease enter your name."@,
        GameType::Expert => "You have the fastest time\rfor expert level.\rPlease enter your name."@,
        GameType::Other => ""@,
    }
}

/// The difficulty stored under a registry number; unknown numbers are Custom.
pub open spec fn spec_game_type_from(val: u32) -> GameType {
    if val == 0 {
        GameType::Begin
    } else if val == 1 {
        GameType::Inter
    } else if val == 2 {
        GameType::Expert
    } else {
        GameType::Other
    }
}

/// The registry number of a difficulty.
pub open spec fn spec_game_type_index(g: GameType) -> u32 {
    match g {
        GameType::Begin => 0,
        GameType::Inter => 1,
        GameType::Expert => 2,
        GameType::Other => 3,
    }
}

/// Mines, height and width of a preset difficulty.
pub open spec fn spec_preset(g: GameType) -> Option<(i16, u32, u32)> {
    match g {
        GameType::Begin => Some((10i16, 9u32, 9u32)),
        GameType::Inter => Some((40i16, 16u32, 16u32)),
        GameType::Expert => Some((99i16, 16u32, 30u32)),
        GameType::Other => None,
    }
}

impl GameType {
    /// The message shown when the player achieves the fastest time.
    pub fn fastest_time_msg(self) -> (r: &'static str)
        ensures
            r@ == fastest_msg(self),
    {
        match self {
            GameType::Begin => "You have the fastest time\rfor beginner level.\rPlease enter your name.",
            GameType::Inter => "You have the fastest time\rfor intermediate level.\rPlease enter your name.",
            GameType::Expert => "You have the fastest time\rfor expert level.\rPlease enter your name.",
            GameType::Other => "",
        }
    }

    /// The registry number of the difficulty.
    pub fn index(self) -> (r: u32)
        ensures
            r == spec_game_type_index(self),
    {
        match self {
            GameType::Begin => 0,
            GameType::Inter => 1,
            GameType::Expert => 2,
            GameType::Other => 3,
        }
    }

    /// The difficulty stored under a registry number.
    pub fn from_u32(val: u32) -> (r: GameType)
        ensures
            r == spec_game_type_from(val),
    {
        if val == 0 {
            GameType::Begin
        } else if val == 1 {
            GameType::Inter
        } else if val == 2 {
            GameType::Expert
        } else {
            GameType::Other
        }
    }

    /// Mines, height and width of the preset; `None` for Custom.
    pub fn preset_data(self) -> (r: Option<(i16, u32, u32)>)
        ensures
            r == spec_preset(self),
    {
        match self {
            GameType::Begin => Some((10, 9, 9)),
            GameType::Inter => Some((40, 16, 16)),
            GameType::Expert => Some((99, 16, 30)),
            GameType::Other => None,
        }
    }
}

impl From<u32> for GameType {
    /// The difficulty stored under a registry number; unknown numbers are Custom.
    fn from(val: u32) -> (r: GameType) {
        GameType::from_u32(val)
    }
}

impl vstd::std_specs::convert::FromSpecImpl<u32> for GameType {
    open spec fn obeys_from_spec() -> bool {
        true
    }

    open spec fn from_spec(v: u32) -> GameType {
        spec_game_type_from(v)
    }
}

impl Default for GameType {
    /// Beginner level.
    fn default() -> (r: GameType)
        ensures
            r == GameType::Begin,
    {
        GameType::Begin
    }
}

/// Clamp `v` to `lo..=hi`.
pub open spec fn clamp_spec(v: u32, lo: u32, hi: u32) -> u32 {
    if v < lo {
        lo
    } else if v > hi {
        hi
    } else {
        v
    }
}

/// The most mines a board of `h` by `w` cells takes: `(h - 1) * (w - 1)`,
/// at most `MAXMINES`.
pub open spec fn mine_limit(h: u32, w: u32) -> u32 {
    if (h - 1) * (w - 1) < MAXMINES {
        ((h - 1) * (w - 1)) as u32
    } else {
        MAXMINES
    }
}

/// `v`, or `d` when the registry gave nothing.
pub open spec fn or_default(v: Option<u32>, d: u32) -> u32 {
    match v {
        Some(x) => x,
        None => d,
    }
}

fn clamp_u32(v: u32, lo: u32, hi: u32) -> (r: u32)
    requires
        lo <= hi,
    ensures
        r == clamp_spec(v, lo, hi),
{
    if v < lo {
        lo
    } else if v > hi {
        hi
    } else {
        v
    }
}

fn unwrap_or_u32(v: Option<u32>, d: u32) -> (r: u32)
    ensures
        r == or_default(v, d),
{
    match v {
        Some(x) => x,
        None => d,
    }
}

/// The values the registry holds under each key: a number where the value is
/// a DWORD, a text where it is a string, `None` where it is missing or of
/// another kind.
pub struct RawPrefs {
    /// `Difficulty`.
    pub difficulty: Option<u32>,
    /// `Mines`.
    pub mines: Option<u32>,
    /// `Height`.
    pub height: Option<u32>,
    /// `Width`.
    pub width: Option<u32>,
    /// `Xpos`.
    pub xpos: Option<u32>,
    /// `Ypos`.
    pub ypos: Option<u32>,
    /// `Sound`.
    pub sound: Option<u32>,
    /// `Mark`.
    pub mark: Option<u32>,
    /// `Color`.
    pub color: Option<u32>,
    /// `Time1`.
    pub time1: Option<u32>,
    /// `Time2`.
    pub time2: Option<u32>,
    /// `Time3`.
    pub time3: Option<u32>,
    /// `Name1`.
    pub name1: Option<String>,
    /// `Name2`.
    pub name2: Option<String>,
    /// `Name3`.
    pub name3: Option<String>,
}

/// A value to store in the registry.
pub enum RegValue {
    /// A DWORD.
    Dword(u32),
    /// A string.
    Sz(String),
}

/// The name read from the registry, or the default player name.
pub open spec fn name_or_default(v: Option<String>) -> Seq<char> {
    match v {
        Some(s) => s@,
        None => "Anonymous"@,
    }
}

/// `p` holds the preferences read from what the registry holds (`raw`):
/// missing values take their defaults (board 9 x 9, 10 mines, window at
/// (80, 80), marks on, best times 999, the default player name,
/// `default_color` for color), sizes and times are clamped to their ranges,
/// mines to `MINMINES..=mine_limit(height, width)`, sound is on only when the
/// stored value is 3 and resetting the audio succeeded (`reset_ok`).
pub open spec fn prefs_read(raw: RawPrefs, default_color: u32, reset_ok: bool, p: Pref) -> bool {
    &&& p.height == clamp_spec(or_default(raw.height, 9), MINHEIGHT, MAXHEIGHT)
    &&& p.width == clamp_spec(or_default(raw.width, 9), MINWIDTH, MAXWIDTH)
    &&& p.game_type == spec_game_type_from(or_default(raw.difficulty, 0))
    &&& p.mines == clamp_spec(
        or_default(raw.mines, 10),
        MINMINES,
        mine_limit(p.height as u32, p.width as u32)
    )
    &&& MINMINES <= p.mines <= mine_limit(p.height as u32, p.width as u32)
    &&& p.wnd_pos.x == or_default(raw.xpos, 80) as i32
    &&& p.wnd_pos.y == or_default(raw.ypos, 80) as i32
    &&& p.sound_enabled == (raw.sound == Some(3u32) && reset_ok)
    &&& p.mark_enabled == (or_default(raw.mark, 1) != 0)
    &&& p.beginner_time == clamp_spec(or_default(raw.time1, 999), 0, 999)
    &&& p.inter_time == clamp_spec(or_default(raw.time2, 999), 0, 999)
    &&& p.expert_time == clamp_spec(or_default(raw.time3, 999), 0, 999)
    &&& p.beginner_name@ == name_or_default(raw.name1)
    &&& p.inter_name@ == name_or_default(raw.name2)
    &&& p.expert_name@ == name_or_default(raw.name3)
    &&& p.color == (or_default(raw.color, default_color) != 0)
}

/// `r` holds the values that store the preferences `p` in the registry, in
/// the order in which they are written.
pub open spec fn registry_stored(p: Pref, r: Seq<(PrefKey, RegValue)>) -> bool {
    &&& r.len() == 16
    &&& r[0].0 == PrefKey::Difficulty && r[0].1 == RegValue::Dword(
        spec_game_type_index(p.game_type)
    )
    &&& r[1].0 == PrefKey::Height && r[1].1 == RegValue::Dword(p.height as u32)
    &&& r[2].0 == PrefKey::Width && r[2].1 == RegValue::Dword(p.width as u32)
    &&& r[3].0 == PrefKey::Mines && r[3].1 == RegValue::Dword(p.mines as u32)
    &&& r[4].0 == PrefKey::Mark && r[4].1 == RegValue::Dword(
        if p.mark_enabled {
            1u32
        } else {
            0u32
        }
    )
    &&& r[5].0 == PrefKey::AlreadyPlayed && r[5].1 == RegValue::Dword(1)
    &&& r[6].0 == PrefKey::Color && r[6].1 == RegValue::Dword(
        if p.color {
            1u32
        } else {
            0u32
        }
    )
    &&& r[7].0 == PrefKey::Sound && r[7].1 == RegValue::Dword(
        if p.sound_enabled {
            3u32
        } else {
            2u32
        }
    )
    &&& r[8].0 == PrefKey::Xpos && r[8].1 == RegValue::Dword(p.wnd_pos.x as u32)
    &&& r[9].0 == PrefKey::Ypos && r[9].1 == RegValue::Dword(p.wnd_pos.y as u32)
    &&& r[10].0 == PrefKey::Time1 && r[10].1 == RegValue::Dword(p.beginner_time as u32)
    &&& r[11].0 == PrefKey::Time2 && r[11].1 == RegValue::Dword(p.inter_time as u32)
    &&& r[12].0 == PrefKey::Time3 && r[12].1 == RegValue::Dword(p.expert_time as u32)
    &&& r[13].0 == PrefKey::Name1 && (r[13].1 matches RegValue::Sz(s) && s@
        == p.beginner_name@)
    &&& r[14].0 == PrefKey::Name2 && (r[14].1 matches RegValue::Sz(s) && s@
        == p.inter_name@)
    &&& r[15].0 == PrefKey::Name3 && (r[15].1 matches RegValue::Sz(s) && s@
        == p.expert_name@)
}

/// The number held by entry `i` of `r`, if it holds one.
pub open spec fn dword_at(r: Seq<(PrefKey, RegValue)>, i: int) -> Option<u32> {
    match r[i].1 {
        RegValue::Dword(v) => Some(v),
        RegValue::Sz(_) => None,
    }
}

/// The text held by entry `i` of `r`, if it holds one.
pub open spec fn sz_at(r: Seq<(PrefKey, RegValue)>, i: int) -> Option<Seq<char>> {
    match r[i].1 {
        RegValue::Sz(t) => Some(t@),
        RegValue::Dword(_) => None,
    }
}

/// `raw` holds what reading the entries `r`, laid out as `registry_stored`
/// writes them, gives back.
pub open spec fn read_back(r: Seq<(PrefKey, RegValue)>, raw: RawPrefs) -> bool {
    &&& raw.difficulty == dword_at(r, 0)
    &&& raw.height == dword_at(r, 1)
    &&& raw.width == dword_at(r, 2)
    &&& raw.mines == dword_at(r, 3)
    &&& raw.mark == dword_at(r, 4)
    &&& raw.color == dword_at(r, 6)
    &&& raw.sound == dword_at(r, 7)
    &&& raw.xpos == dword_at(r, 8)
    &&& raw.ypos == dword_at(r, 9)
    &&& raw.time1 == dword_at(r, 10)
    &&& raw.time2 == dword_at(r, 11)
    &&& raw.time3 == dword_at(r, 12)
    &&& (raw.name1 matches Some(n) && sz_at(r, 13) == Some(n@))
    &&& (raw.name2 matches Some(n) && sz_at(r, 14) == Some(n@))
    &&& (raw.name3 matches Some(n) && sz_at(r, 15) == Some(n@))
}

/// Structure containing all user preferences.
pub struct Pref {
    /// Current game difficulty.
    pub game_type: GameType,
    /// Number of mines on the board.
    pub mines: i16,
    /// Board height in cells.
    pub height: usize,
    /// Board width in cells.
    pub width: usize,
    /// Position of the main window.
    pub wnd_pos: Point,
    /// Whether sound effects are enabled.
    pub sound_enabled: bool,
    /// Whether right-click marking is enabled.
    pub mark_enabled: bool,
    /// Whether to use color assets.
    pub color: bool,
    /// Player name for Beginner level.
    pub beginner_name: String,
    /// Best time for the Beginner level.
    pub beginner_time: u16,
    /// Player name for Intermediate level.
    pub inter_name: String,
    /// Best time for the Intermediate level.
    pub inter_time: u16,
    /// Player name for Expert level.
    pub expert_name: String,
    /// Best time for the Expert level.
    pub expert_time: u16,
}

/// The best time recorded for a preset difficulty (none for Custom).
pub open spec fn best_time_of(p: Pref, g: GameType) -> Option<u16> {
    match g {
        GameType::Begin => Some(p.beginner_time),
        GameType::Inter => Some(p.inter_time),
        GameType::Expert => Some(p.expert_time),
        GameType::Other => None,
    }
}

/// The name recorded for the difficulty of `p` (empty for Custom).
pub open spec fn best_name_of(p: Pref) -> Seq<char> {
    match p.game_type {
        GameType::Begin => p.beginner_name@,
        GameType::Inter => p.inter_name@,
        GameType::Expert => p.expert_name@,
        GameType::Other => ""@,
    }
}

/// The player's name replaced the name recorded for the difficulty of `old`;
/// nothing else changed.
pub open spec fn name_stored(old: Pref, new: Pref, name: Seq<char>) -> bool {
    &&& new.game_type == old.game_type
    &&& new.mines == old.mines
    &&& new.height == old.height
    &&& new.width == old.width
    &&& new.wnd_pos == old.wnd_pos
    &&& new.sound_enabled == old.sound_enabled
    &&& new.mark_enabled == old.mark_enabled
    &&& new.color == old.color
    &&& new.beginner_time == old.beginner_time
    &&& new.inter_time == old.inter_time
    &&& new.expert_time == old.expert_time
    &&& new.beginner_name@ == if old.game_type == GameType::Begin {
        name
    } else {
        old.beginner_name@
    }
    &&& new.inter_name@ == if old.game_type == GameType::Inter {
        name
    } else {
        old.inter_name@
    }
    &&& new.expert_name@ == if old.game_type == GameType::Expert {
        name
    } else {
        old.expert_name@
    }
}

/// Preferences with every number zero, every flag off, the Beginner level,
/// empty names.
pub open spec fn default_pref(p: Pref) -> bool {
    &&& p.game_type == GameType::Begin
    &&& p.mines == 0
    &&& p.height == 0
    &&& p.width == 0
    &&& p.wnd_pos == Point { x: 0, y: 0 }
    &&& !p.sound_enabled
    &&& !p.mark_enabled
    &&& !p.color
    &&& p.beginner_name@ == Seq::<char>::empty()
    &&& p.inter_name@ == Seq::<char>::empty()
    &&& p.expert_name@ == Seq::<char>::empty()
    &&& p.beginner_time == 0
    &&& p.inter_time == 0
    &&& p.expert_time == 0
}

impl Pref {
    /// Preferences with every number zero, every flag off and empty names.
    pub fn new() -> (r: Pref)
        ensures
            default_pref(r),
    {
        Pref {
            game_type: GameType::Begin,
            mines: 0,
            height: 0,
            width: 0,
            wnd_pos: Point { x: 0, y: 0 },
            sound_enabled: false,
            mark_enabled: false,
            color: false,
            beginner_name: String::new(),
            beginner_time: 0,
            inter_name: String::new(),
            inter_time: 0,
            expert_name: String::new(),
            expert_time: 0,
        }
    }

    /// Load the preferences from what the registry holds: missing values take
    /// their defaults (board 9 x 9, 10 mines, window at (80, 80), marks on,
    /// best times 999, the default player name, `default_color` for color),
    /// sizes and times are clamped to their ranges, mines to
    /// `MINMINES..=mine_limit(height, width)`, sound is on only when the
    /// stored value is 3 and resetting the audio, which is tried only then,
    /// succeeded (`reset_ok`).
    pub fn read_preferences(&mut self, raw: RawPrefs, default_color: u32, reset_ok: bool)
        ensures
            prefs_read(raw, default_color, reset_ok, *final(self)),
    {
        self.height = clamp_u32(unwrap_or_u32(raw.height, 9), MINHEIGHT, MAXHEIGHT) as usize;
        self.width = clamp_u32(unwrap_or_u32(raw.width, 9), MINWIDTH, MAXWIDTH) as usize;
        self.game_type = GameType::from_u32(unwrap_or_u32(raw.difficulty, 0));
        let h: u32 = self.height as u32;
        let w: u32 = self.width as u32;
        assert(64 <= (h - 1) * (w - 1) <= 23 * 29) by (nonlinear_arith)
            requires
                9 <= h <= 24,
                9 <= w <= 30,
        ;
        let product: u32 = (h - 1) * (w - 1);
        let limit: u32 = if product < MAXMINES {
            product
        } else {
            MAXMINES
        };
        self.mines = clamp_u32(unwrap_or_u32(raw.mines, 10), MINMINES, limit) as i16;
        self.wnd_pos = Point {
            x: unwrap_or_u32(raw.xpos, 80) as i32,
            y: unwrap_or_u32(raw.ypos, 80) as i32,
        };
        self.sound_enabled = match raw.sound {
            Some(v) => v == 3 && reset_ok,
            None => false,
        };
        self.mark_enabled = unwrap_or_u32(raw.mark, 1) != 0;
        self.beginner_time = clamp_u32(unwrap_or_u32(raw.time1, 999), 0, 999) as u16;
        self.inter_time = clamp_u32(unwrap_or_u32(raw.time2, 999), 0, 999) as u16;
        self.expert_time = clamp_u32(unwrap_or_u32(raw.time3, 999), 0, 999) as u16;
        self.beginner_name = match raw.name1 {
            Some(s) => s,
            None => "Anonymous".to_owned(),
        };
        self.inter_name = match raw.name2 {
            Some(s) => s,
            None => "Anonymous".to_owned(),
        };
        self.expert_name = match raw.name3 {
            Some(s) => s,
            None => "Anonymous".to_owned(),
        };
        self.color = unwrap_or_u32(raw.color, default_color) != 0;
    }

    /// The values to store in the registry, in the order in which they are
    /// written.
    pub fn registry_values(&self) -> (r: Vec<(PrefKey, RegValue)>)
        ensures
            registry_stored(*self, r@),
    {
        let mut v: Vec<(PrefKey, RegValue)> = Vec::new();
        v.push((PrefKey::Difficulty, RegValue::Dword(self.game_type.index())));
        v.push((PrefKey::Height, RegValue::Dword(self.height as u32)));
        v.push((PrefKey::Width, RegValue::Dword(self.width as u32)));
        v.push((PrefKey::Mines, RegValue::Dword(self.mines as u32)));
        v.push(
            (
                PrefKey::Mark,
                RegValue::Dword(
                    if self.mark_enabled {
                        1
                    } else {
                        0
                    },
                ),
            ),
        );
        v.push((PrefKey::AlreadyPlayed, RegValue::Dword(1)));
        v.push(
            (
                PrefKey::Color,
                RegValue::Dword(
                    if self.color {
                        1
                    } else {
                        0
                    },
                ),
            ),
        );
        v.push(
            (
                PrefKey::Sound,
                RegValue::Dword(
                    if self.sound_enabled {
                        3
                    } else {
                        2
                    },
                ),
            ),
        );
        v.push((PrefKey::Xpos, RegValue::Dword(self.wnd_pos.x as u32)));
        v.push((PrefKey::Ypos, RegValue::Dword(self.wnd_pos.y as u32)));
        v.push((PrefKey::Time1, RegValue::Dword(self.beginner_time as u32)));
        v.push((PrefKey::Time2, RegValue::Dword(self.inter_time as u32)));
        v.push((PrefKey::Time3, RegValue::Dword(self.expert_time as u32)));
        v.push((PrefKey::Name1, RegValue::Sz(self.beginner_name.clone())));
        v.push((PrefKey::Name2, RegValue::Sz(self.inter_name.clone())));
        v.push((PrefKey::Name3, RegValue::Sz(self.expert_name.clone())));
        v
    }

    /// Select a difficulty from the menu: a preset sets the difficulty, the
    /// mines and the board size; Custom changes nothing.
    pub fn apply_difficulty(&mut self, game: GameType)
        ensures
            match spec_preset(game) {
                Some((m, h, w)) => {
                    &&& final(self).game_type == game
                    &&& final(self).mines == m
                    &&& final(self).height == h as usize
                    &&& final(self).width == w as usize
                },
                None => {
                    &&& final(self).game_type == old(self).game_type
                    &&& final(self).mines == old(self).mines
                    &&& final(self).height == old(self).height
                    &&& final(self).width == old(self).width
                },
            },
            final(self).wnd_pos == old(self).wnd_pos,
            final(self).sound_enabled == old(self).sound_enabled,
            final(self).mark_enabled == old(self).mark_enabled,
            final(self).color == old(self).color,
            final(self).beginner_time == old(self).beginner_time,
            final(self).inter_time == old(self).inter_time,
            final(self).expert_time == old(self).expert_time,
            final(self).beginner_name@ == old(self).beginner_name@,
            final(self).inter_name@ == old(self).inter_name@,
            final(self).expert_name@ == old(self).expert_name@,
    {
        if let Some(data) = game.preset_data() {
            self.game_type = game;
            self.mines = data.0;
            self.height = data.1 as usize;
            self.width = data.2 as usize;
        }
    }

    /// Accept the Custom dialog: height in `MINHEIGHT..=24`, width in
    /// `MINWIDTH..=30`, mines in `10..=min(999, (height - 1) * (width - 1))`,
    /// each typed value clamped into its range. `None`, with nothing changed,
    /// when a text is not a decimal number.
    pub fn apply_custom(&mut self, height_text: &str, width_text: &str, mines_text: &str) -> (r:
        bool)
        ensures
            r == (spec_parse_u32(height_text.spec_bytes()) is Some && spec_parse_u32(
                width_text.spec_bytes(),
            ) is Some && spec_parse_u32(mines_text.spec_bytes()) is Some),
            r ==> {
                let h = clamp_spec(spec_parse_u32(height_text.spec_bytes()).unwrap(), MINHEIGHT, 24);
                let w = clamp_spec(spec_parse_u32(width_text.spec_bytes()).unwrap(), MINWIDTH, 30);
                let max_mines = if (h - 1) * (w - 1) < 999 {
                    (h - 1) * (w - 1)
                } else {
                    999
                };
                &&& final(self).height == h as usize
                &&& final(self).width == w as usize
                &&& final(self).mines as int == clamp_spec(
                    spec_parse_u32(mines_text.spec_bytes()).unwrap(),
                    10,
                    max_mines as u32,
                )
                &&& final(self).game_type == GameType::Other
            },
            !r ==> final(self).height == old(self).height && final(self).width == old(self).width
                && final(self).mines == old(self).mines && final(self).game_type == old(
                self,
            ).game_type,
            final(self).wnd_pos == old(self).wnd_pos,
            final(self).sound_enabled == old(self).sound_enabled,
            final(self).mark_enabled == old(self).mark_enabled,
            final(self).color == old(self).color,
            final(self).beginner_time == old(self).beginner_time,
            final(self).inter_time == old(self).inter_time,
            final(self).expert_time == old(self).expert_time,
            final(self).beginner_name@ == old(self).beginner_name@,
            final(self).inter_name@ == old(self).inter_name@,
            final(self).expert_name@ == old(self).expert_name@,
    {
        let height = match get_dlg_int(height_text, MINHEIGHT, 24) {
            Some(v) => v,
            None => return false,
        };
        let width = match get_dlg_int(width_text, MINWIDTH, 30) {
            Some(v) => v,
            None => return false,
        };
        assert(64 <= (height - 1) * (width - 1) <= 23 * 29) by (nonlinear_arith)
            requires
                9 <= height <= 24,
                9 <= width <= 30,
        ;
        let product = (height - 1) * (width - 1);
        let max_mines = if product < 999 {
            product
        } else {
            999
        };
        let mines = match get_dlg_int(mines_text, 10, max_mines) {
            Some(v) => v,
            None => return false,
        };
        self.height = height as usize;
        self.width = width as usize;
        self.mines = mines as i16;
        self.game_type = GameType::Other;
        true
    }

    /// The name recorded for the current difficulty (empty for Custom).
    pub fn current_best_name(&self) -> (r: &str)
        ensures
            r@ == best_name_of(*self),
    {
        match self.game_type {
            GameType::Begin => self.beginner_name.as_str(),
            GameType::Inter => self.inter_name.as_str(),
            GameType::Expert => self.expert_name.as_str(),
            GameType::Other => "",
        }
    }

    /// Store the name entered after a best time for the current difficulty
    /// (nothing for Custom).
    pub fn save_high_score_name(&mut self, new_name: String)
        ensures
            name_stored(*old(self), *final(self), new_name@),
    {
        match self.game_type {
            GameType::Begin => self.beginner_name = new_name,
            GameType::Inter => self.inter_name = new_name,
            GameType::Expert => self.expert_name = new_name,
            GameType::Other => {},
        }
    }

    /// Reset the best times to 999 seconds and the names to the default
    /// player name.
    pub fn reset_best_times(&mut self)
        ensures
            final(self).beginner_time == 999,
            final(self).inter_time == 999,
            final(self).expert_time == 999,
            final(self).beginner_name@ == "Anonymous"@,
            final(self).inter_name@ == "Anonymous"@,
            final(self).expert_name@ == "Anonymous"@,
            final(self).game_type == old(self).game_type,
            final(self).mines == old(self).mines,
            final(self).height == old(self).height,
            final(self).width == old(self).width,
            final(self).wnd_pos == old(self).wnd_pos,
            final(self).sound_enabled == old(self).sound_enabled,
            final(self).mark_enabled == old(self).mark_enabled,
            final(self).color == old(self).color,
    {
        self.beginner_time = 999;
        self.inter_time = 999;
        self.expert_time = 999;
        self.beginner_name = "Anonymous".to_owned();
        self.inter_name = "Anonymous".to_owned();
        self.expert_name = "Anonymous".to_owned();
    }
}

/// The check marks of the menu: one difficulty, then color, marks and sound.
pub open spec fn spec_menu_checks(p: Pref) -> Seq<(ResourceId, bool)> {
    seq![
        (ResourceId::Begin, p.game_type == GameType::Begin),
        (ResourceId::Inter, p.game_type == GameType::Inter),
        (ResourceId::Expert, p.game_type == GameType::Expert),
        (ResourceId::Custom, p.game_type == GameType::Other),
        (ResourceId::Color, p.color),
        (ResourceId::Mark, p.mark_enabled),
        (ResourceId::Sound, p.sound_enabled),
    ]
}

impl Pref {
    /// The menu items to check or uncheck, in the order the menu is
    /// updated (see `spec_menu_checks`).
    pub fn menu_checks(&self) -> (r: Vec<(ResourceId, bool)>)
        ensures
            r@ == spec_menu_checks(*self),
    {
        let mut v: Vec<(ResourceId, bool)> = Vec::new();
        v.push((ResourceId::Begin, self.game_type == GameType::Begin));
        v.push((ResourceId::Inter, self.game_type == GameType::Inter));
        v.push((ResourceId::Expert, self.game_type == GameType::Expert));
        v.push((ResourceId::Custom, self.game_type == GameType::Other));
        v.push((ResourceId::Color, self.color));
        v.push((ResourceId::Mark, self.mark_enabled));
        v.push((ResourceId::Sound, self.sound_enabled));
        assert(v@ =~= spec_menu_checks(*self));
        v
    }
}

} // verus!

//! Sound decisions: which tune resource to play, when to stop playback, and
//! how the sound preference toggles. The playback itself is the window's.

use vstd::prelude::*;

use crate::util::ResourceId;

verus! {

/// Logical UI tunes that map to embedded wave resources.
#[derive(Clone, Copy, PartialEq, Eq, Debug, Structural)]
pub enum Sound {
    /// Short tick used for timer feedback.
    Tick,
    /// Jingle played after clearing the board.
    WinGame,
    /// Sound played after detonating a mine.
    LoseGame,
}

/// Stored sound preference value meaning "on".
pub const FSOUND_ON: u32 = 3;
/// Stored sound preference value meaning "off".
pub const FSOUND_OFF: u32 = 2;

/// Tune number of the tick in the legacy tune interface.
pub const TUNE_TICK: i32 = 1;
/// Tune number of the win jingle in the legacy tune interface.
pub const TUNE_WINGAME: i32 = 2;
/// Tune number of the loss sound in the legacy tune interface.
pub const TUNE_LOSEGAME: i32 = 3;

impl Sound {
    /// The wave resource of the tune.
    pub open spec fn spec_resource(self) -> ResourceId {
        match self {
            Sound::Tick => ResourceId::TuneTick,
            Sound::WinGame => ResourceId::TuneWon,
            Sound::LoseGame => ResourceId::TuneLost,
        }
    }

    /// The wave resource of the tune.
    pub fn resource(self) -> (r: ResourceId)
        ensures
            r == self.spec_resource(),
    {
        match self {
            Sound::Tick => ResourceId::TuneTick,
            Sound::WinGame => ResourceId::TuneWon,
            Sound::LoseGame => ResourceId::TuneLost,
        }
    }

    /// The numeric identifier of the tune's wave resource (432, 433, 434).
    pub fn resource_id(self) -> (r: u16)
        ensures
            r == self.spec_resource().spec_id(),
            r == match self {
                Sound::Tick => 432u16,
                Sound::WinGame => 433u16,
                Sound::LoseGame => 434u16,
            },
    {
        self.resource().id()
    }

    /// The sound preference after a toggle: turning sound off always
    /// succeeds; turning it on succeeds only when stopping the playback
    /// queue (done on every toggle) worked, as `reset_ok` tells.
    pub fn toggle(sound_enabled: bool, reset_ok: bool) -> (r: bool)
        ensures
            r == (!sound_enabled && reset_ok),
    {
        if sound_enabled {
            false
        } else {
            reset_ok
        }
    }
}

/// The sound preference at start-up: on when the playback queue could be
/// stopped (the machine can play audio), off otherwise.
pub fn init_tunes(stop_ok: bool) -> (r: u32)
    ensures
        r == if stop_ok {
            FSOUND_ON
        } else {
            FSOUND_OFF
        },
{
    if stop_ok {
        FSOUND_ON
    } else {
        FSOUND_OFF
    }
}

/// Whether the playback queue must be purged when the game ends: only when
/// sound is on.
pub fn stop_all_audio(sound_enabled: bool) -> (r: bool)
    ensures
        r == sound_enabled,
{
    sound_enabled
}

/// The tune to play for a legacy tune number, when sound is on: 1 is the
/// tick, 2 the win jingle, 3 the loss sound; any other number, or sound off,
/// plays nothing.
pub fn play_tune(tune: i32, sound_enabled: bool) -> (r: Option<Sound>)
    ensures
        !sound_enabled ==> r is None,
        sound_enabled ==> r == if tune == TUNE_TICK {
            Some(Sound::Tick)
        } else if tune == TUNE_WINGAME {
            Some(Sound::WinGame)
        } else if tune == TUNE_LOSEGAME {
            Some(Sound::LoseGame)
        } else {
            None
        },
{
    if !sound_enabled {
        return None;
    }
    if tune == TUNE_TICK {
        Some(Sound::Tick)
    } else if tune == TUNE_WINGAME {
        Some(Sound::WinGame)
    } else if tune == TUNE_LOSEGAME {
        Some(Sound::LoseGame)
    } else {
        None
    }
}

} // verus!

use winmine::pref::{GameType, Pref, PrefKey, RawPrefs, RegValue};
use winmine::sound::{init_tunes, play_tune, stop_all_audio, Sound};
use winmine::util::{get_dlg_int, parse_u32, rand, rnd, seed_rng, ResourceId};
use winmine::help::{best_help_ids, pref_help_ids, help_on_help_topic};
use winmine::rtns::{BlockCell, BlockInfo};

fn empty_raw() -> RawPrefs {
    RawPrefs {
        difficulty: None,
        mines: None,
        height: None,
        width: None,
        xpos: None,
        ypos: None,
        sound: None,
        mark: None,
        color: None,
        time1: None,
        time2: None,
        time3: None,
        name1: None,
        name2: None,
        name3: None,
    }
}

#[test]
fn missing_preferences_take_defaults() {
    let mut p = Pref::new();
    p.read_preferences(empty_raw(), 1, true);
    assert_eq!(p.height, 9);
    assert_eq!(p.width, 9);
    assert_eq!(p.mines, 10);
    assert_eq!(p.game_type, GameType::Begin);
    assert_eq!(p.wnd_pos.x, 80);
    assert_eq!(p.wnd_pos.y, 80);
    assert!(!p.sound_enabled);
    assert!(p.mark_enabled);
    assert!(p.color);
    assert_eq!(p.beginner_time, 999);
    assert_eq!(p.expert_name, "Anonymous");
}

#[test]
fn stored_preferences_are_clamped() {
    let mut raw = empty_raw();
    raw.height = Some(100);
    raw.width = Some(3);
    raw.mines = Some(5000);
    raw.sound = Some(3);
    raw.time2 = Some(12345);
    raw.difficulty = Some(7);
    raw.name1 = Some("Ada".to_string());
    let mut p = Pref::new();
    p.read_preferences(raw, 0, true);
    assert_eq!(p.height, 24);
    assert_eq!(p.width, 9);
    // At most (24 - 1) * (9 - 1) mines fit.
    assert_eq!(p.mines, 184);
    assert!(p.sound_enabled);
    assert_eq!(p.inter_time, 999);
    assert_eq!(p.game_type, GameType::Other);
    assert_eq!(p.beginner_name, "Ada");
    assert!(!p.color);
}

#[test]
fn stored_mines_fit_the_board() {
    let mut raw = empty_raw();
    raw.height = Some(9);
    raw.width = Some(9);
    raw.mines = Some(999);
    let mut p = Pref::new();
    p.read_preferences(raw, 0, true);
    assert_eq!(p.mines, 64);
    let mut raw = empty_raw();
    raw.mines = Some(3);
    p.read_preferences(raw, 0, true);
    assert_eq!(p.mines, 10);
}

#[test]
fn registry_values_in_order() {
    let mut p = Pref::new();
    p.read_preferences(empty_raw(), 1, true);
    let v = p.registry_values();
    assert_eq!(v.len(), 16);
    assert_eq!(v[0].0, PrefKey::Difficulty);
    assert!(matches!(v[0].1, RegValue::Dword(0)));
    assert_eq!(v[3].0, PrefKey::Mines);
    assert!(matches!(v[3].1, RegValue::Dword(10)));
    assert_eq!(v[5].0, PrefKey::AlreadyPlayed);
    match &v[v.len() - 1].1 {
        RegValue::Sz(s) => assert_eq!(s, "Anonymous"),
        RegValue::Dword(_) => panic!("a name is a string"),
    }
}

#[test]
fn key_names() {
    assert_eq!(PrefKey::Difficulty.string(), Some("Difficulty"));
    assert_eq!(PrefKey::AlreadyPlayed.string(), Some("AlreadyPlayed"));
    assert_eq!(PrefKey::Name3.string(), Some("Name3"));
}

#[test]
fn difficulty_presets() {
    let mut p = Pref::new();
    p.apply_difficulty(GameType::Expert);
    assert_eq!((p.mines, p.height, p.width), (99, 16, 30));
    p.apply_difficulty(GameType::Other);
    assert_eq!((p.mines, p.height, p.width), (99, 16, 30));
    assert_eq!(p.game_type, GameType::Expert);
    assert_eq!(GameType::Inter.preset_data(), Some((40, 16, 16)));
    assert_eq!(GameType::from_u32(2), GameType::Expert);
    assert_eq!(GameType::from(9u32), GameType::Other);
    assert_eq!(GameType::Expert.index(), 2);
}

#[test]
fn fastest_time_messages() {
    assert_eq!(
        GameType::Begin.fastest_time_msg(),
        "You have the fastest time\rfor beginner level.\rPlease enter your name."
    );
    assert_eq!(GameType::Other.fastest_time_msg(), "");
}

#[test]
fn custom_dialog_clamps() {
    let mut p = Pref::new();
    assert!(p.apply_custom("20", "25", "1000"));
    assert_eq!((p.height, p.width, p.mines), (20, 25, 456));
    assert_eq!(p.game_type, GameType::Other);
    assert!(p.apply_custom("1", "100", "1"));
    assert_eq!((p.height, p.width, p.mines), (9, 30, 10));
    assert!(!p.apply_custom("x", "10", "10"));
    assert_eq!((p.height, p.width, p.mines), (9, 30, 10));
}

#[test]
fn parsing_integers() {
    assert_eq!(parse_u32("42"), Some(42));
    assert_eq!(parse_u32("+5"), Some(5));
    assert_eq!(parse_u32("4294967295"), Some(u32::MAX));
    assert_eq!(parse_u32("4294967296"), None);
    assert_eq!(parse_u32(""), None);
    assert_eq!(parse_u32("+"), None);
    assert_eq!(parse_u32("-1"), None);
    assert_eq!(parse_u32("12a"), None);
    assert_eq!(get_dlg_int("3", 9, 24), Some(9));
    assert_eq!(get_dlg_int("30", 9, 24), Some(24));
    assert_eq!(get_dlg_int("abc", 9, 24), None);
}

#[test]
fn best_names_and_reset() {
    let mut p = Pref::new();
    p.game_type = GameType::Inter;
    p.save_high_score_name("Bob".to_string());
    assert_eq!(p.inter_name, "Bob");
    assert_eq!(p.current_best_name(), "Bob");
    p.game_type = GameType::Other;
    p.save_high_score_name("Eve".to_string());
    assert_eq!(p.current_best_name(), "");
    p.beginner_time = 5;
    p.reset_best_times();
    assert_eq!((p.beginner_time, p.inter_time, p.expert_time), (999, 999, 999));
    assert_eq!(p.inter_name, "Anonymous");
}

#[test]
fn generator_matches_the_c_library() {
    let mut r = seed_rng(1);
    assert_eq!(rand(&mut r), 41);
    assert_eq!(rand(&mut r), 18467);
    assert_eq!(rand(&mut r), 6334);
    let mut z = seed_rng(0);
    assert_eq!(rand(&mut z), 38);
    let mut q = seed_rng(1);
    assert_eq!(rnd(&mut q, 10), 1);
}

#[test]
fn resource_ids() {
    assert_eq!(ResourceId::TuneTick.id(), 432);
    assert_eq!(ResourceId::Icon.id(), 100);
    assert_eq!(ResourceId::NoResource.id(), 0);
    assert_eq!(u16::from(ResourceId::BlocksBmp), 410);
}

#[test]
fn sound_decisions() {
    assert_eq!(Sound::Tick.resource_id(), 432);
    assert_eq!(Sound::WinGame.resource_id(), 433);
    assert_eq!(Sound::LoseGame.resource_id(), 434);
    assert!(!Sound::toggle(true, true));
    assert!(Sound::toggle(false, true));
    assert!(!Sound::toggle(false, false));
    assert_eq!(init_tunes(true), 3);
    assert_eq!(init_tunes(false), 2);
    assert!(stop_all_audio(true));
    assert!(!stop_all_audio(false));
    assert_eq!(play_tune(2, true), Some(Sound::WinGame));
    assert_eq!(play_tune(1, false), None);
    assert_eq!(play_tune(9, true), None);
}

#[test]
fn help_tables() {
    let p = pref_help_ids();
    assert_eq!(p.len(), 6);
    assert_eq!(p[0], (141, 1000));
    assert_eq!(p[5], (111, 1002));
    let b = best_help_ids();
    assert_eq!(b.len(), 10);
    assert_eq!(b[0], (707, 1003));
    assert_eq!(b[9], (706, 1004));
    assert_eq!(help_on_help_topic(), "::/topics/nthelp_overview.htm");
}

#[test]
fn cells_from_sprite_indices() {
    assert_eq!(BlockCell::from(3u8), BlockCell::Three);
    assert_eq!(BlockCell::from(15u8), BlockCell::BlankUp);
    assert_eq!(BlockCell::from(16u8), BlockCell::Blank);
    assert_eq!(BlockCell::Flagged.value(), 14);
    let i = BlockInfo::from(BlockCell::GuessUp);
    assert!(!i.bomb && !i.visited);
    assert_eq!(i.block_type, BlockCell::GuessUp);
}

fn dword(v: &RegValue) -> Option<u32> {
    match v {
        RegValue::Dword(d) => Some(*d),
        RegValue::Sz(_) => None,
    }
}

fn text(v: &RegValue) -> Option<String> {
    match v {
        RegValue::Sz(s) => Some(s.clone()),
        RegValue::Dword(_) => None,
    }
}

#[test]
fn preferences_survive_the_registry() {
    let mut p = Pref::new();
    p.read_preferences(empty_raw(), 1, true);
    p.height = 16;
    p.width = 30;
    p.mines = 99;
    p.game_type = GameType::Expert;
    p.wnd_pos.x = -250;
    p.sound_enabled = true;
    p.mark_enabled = false;
    p.inter_time = 77;
    p.expert_name = "Grace".to_string();
    let v = p.registry_values();
    let raw = RawPrefs {
        difficulty: dword(&v[0].1),
        height: dword(&v[1].1),
        width: dword(&v[2].1),
        mines: dword(&v[3].1),
        mark: dword(&v[4].1),
        color: dword(&v[6].1),
        sound: dword(&v[7].1),
        xpos: dword(&v[8].1),
        ypos: dword(&v[9].1),
        time1: dword(&v[10].1),
        time2: dword(&v[11].1),
        time3: dword(&v[12].1),
        name1: text(&v[13].1),
        name2: text(&v[14].1),
        name3: text(&v[15].1),
    };
    let mut q = Pref::new();
    q.read_preferences(raw, 0, true);
    assert_eq!((q.height, q.width, q.mines), (16, 30, 99));
    assert_eq!(q.game_type, GameType::Expert);
    assert_eq!(q.wnd_pos.x, -250);
    assert_eq!(q.wnd_pos.y, p.wnd_pos.y);
    assert!(q.sound_enabled && !q.mark_enabled);
    assert_eq!(q.color, p.color);
    assert_eq!(q.inter_time, 77);
    assert_eq!(q.expert_name, "Grace");
    assert_eq!(q.beginner_name, p.beginner_name);
}

#[test]
fn sound_needs_a_working_audio_reset() {
    let mut raw = empty_raw();
    raw.sound = Some(3);
    let mut p = Pref::new();
    p.read_preferences(raw, 0, false);
    assert!(!p.sound_enabled);
    let mut raw = empty_raw();
    raw.sound = Some(3);
    p.read_preferences(raw, 0, true);
    assert!(p.sound_enabled);
    let mut raw = empty_raw();
    raw.sound = Some(2);
    p.read_preferences(raw, 0, true);
    assert!(!p.sound_enabled);
}

use steamtools::games::DirEntry;
use steamtools::melon::{installer_url, loader_step, mod_copies, mod_copies_fail, mods_dir_of, LoaderStep};
use steamtools::paths::Platform;
use std::collections::HashMap;

use steamtools::ui::{
    apply_delete_request, ensure_cfg, filter_for, hook_dll_path, icon_file, icon_uri, is_shown,
    load_lua_targets, lua_file, path_file_stem, request_removal, restored_state, saved_state,
    screen_step, setup_probe, steam_uri, validate_setup, Filter, ScreenEvent, State,
};
use steamtools::{Game, Steam};

#[test]
fn saved_screen_is_setup_or_main_menu() {
    assert_eq!(saved_state(State::Setup), State::Setup);
    assert_eq!(saved_state(State::Settings), State::MainMenu);
    assert_eq!(saved_state(State::MainMenu), State::MainMenu);
    assert_eq!(State::default(), State::Setup);
}

#[test]
fn search_text_becomes_a_filter() {
    assert_eq!(filter_for(""), Filter::Everything);
    assert_eq!(filter_for("440"), Filter::Id(440));
    assert_eq!(filter_for("Portal"), Filter::Name("Portal".to_string()));
    assert!(is_shown(&Filter::Everything, 1, "x"));
    assert!(is_shown(&Filter::Id(440), 440, "x"));
    assert!(!is_shown(&Filter::Id(440), 441, "x"));
    assert!(is_shown(&Filter::Name("team".to_string()), 1, "Team Fortress 2"));
    assert!(!is_shown(&Filter::Name("fortress".to_string()), 1, "Team Fortress 2"));
    assert!(is_shown(&Filter::Name("äPF".to_string()), 1, "ÄPFEL"));
}

#[test]
fn missing_cfg_is_filled_in() {
    let mut st = Steam::new(Some("/s".to_string()), Platform::Linux);
    ensure_cfg(&mut st, Platform::Linux);
    assert_eq!(st.cfg, "/s/config/stplug-in");
    st.cfg = "/other".to_string();
    ensure_cfg(&mut st, Platform::Linux);
    assert_eq!(st.cfg, "/other");
}

#[test]
fn links_and_paths_of_a_game() {
    assert_eq!(steam_uri(false, 440), "steam://install/440");
    assert_eq!(steam_uri(true, 440), "steam://uninstall/440");
    assert_eq!(lua_file("/s", 440, Platform::Linux), "/s/config/stplug-in/440.lua");
    assert_eq!(lua_file("C:\\Steam", 440, Platform::Windows), "C:\\Steam\\config\\stplug-in\\440.lua");
    assert_eq!(icon_file(440, Platform::Linux), "icons/440.jpg");
    assert_eq!(icon_uri(440), "file://icons/440.jpg");
    assert_eq!(setup_probe("C:\\Steam", Platform::Windows), "C:\\Steam\\steam.exe");
    assert_eq!(setup_probe("/s", Platform::Linux), "/s/steamapps");
    assert_eq!(hook_dll_path("C:\\Steam"), "C:\\Steam\\xinput1_4.dll");
}

#[test]
fn chosen_lua_files_go_under_their_own_stems() {
    assert_eq!(path_file_stem("/home/u/440.lua", Platform::Linux).as_deref(), Some("440"));
    let stems = vec!["440".to_string(), "730".to_string()];
    assert_eq!(load_lua_targets("/s", &stems, Platform::Linux), vec!["/s/config/stplug-in/440.lua", "/s/config/stplug-in/730.lua"]);
    assert!(load_lua_targets("/s", &vec![], Platform::Linux).is_empty());
}

#[test]
fn melonloader_steps() {
    let w = Platform::Windows;
    assert_eq!(loader_step(w, false, false), Some(LoaderStep::Skip));
    assert_eq!(loader_step(w, true, false), Some(LoaderStep::Setup));
    assert_eq!(loader_step(w, true, true), Some(LoaderStep::Run));
    assert_eq!(loader_step(Platform::Linux, true, true), None);
    assert_eq!(loader_step(Platform::MacOs, false, false), None);
    assert_eq!(installer_url(), "https://github.com/LavaGang/MelonLoader/releases/download/v0.7.1/MelonLoader.Installer.exe");
    assert_eq!(mods_dir_of("C:\\Games\\Portal 2"), "C:\\Games\\Portal 2\\Mods");
}

#[test]
fn mods_named_for_the_game_are_copied() {
    let entries = vec![
        DirEntry { name: "Portal 2.dll".to_string(), is_file: true },
        DirEntry { name: "Other.dll".to_string(), is_file: true },
        DirEntry { name: "Portal 2".to_string(), is_file: false },
    ];
    let path = "C:\\Games\\Portal 2";
    assert!(!mod_copies_fail(path, Platform::Windows, &entries));
    let copies = mod_copies(path, Platform::Windows, &entries);
    assert_eq!(copies.len(), 1);
    assert_eq!(copies[0].src, "mods\\Portal 2.dll");
    assert_eq!(copies[0].dest, "C:\\Games\\Portal 2\\Mods\\Portal 2.dll");
    assert!(mod_copies_fail("C:", Platform::Windows, &entries));
    assert!(!mod_copies_fail("C:", Platform::Windows, &vec![]));
}

#[test]
fn validating_the_steam_path() {
    let mut state = State::Setup;
    assert!(validate_setup(&mut state, "", true).is_none());
    assert_eq!(state, State::Setup);
    let n = validate_setup(&mut state, "/nope", false).unwrap();
    assert_eq!(state, State::Setup);
    assert_eq!(n.title, "Error");
    assert_eq!(n.text, "Steam is not installed in /nope. Please choose a path where you installed Steam.");
    let n = validate_setup(&mut state, "/s", true).unwrap();
    assert_eq!(state, State::MainMenu);
    assert_eq!(n.title, "Info");
    assert_eq!(n.text, "Path for Steamtools successfully set to /s");
}

#[test]
fn removing_a_game_drops_it_on_the_next_frame() {
    let mut request = None;
    let (lua, icon) = request_removal("/s", 440, Platform::Linux, &mut request);
    assert_eq!(lua, "/s/config/stplug-in/440.lua");
    assert_eq!(icon, "icons/440.jpg");
    assert_eq!(request, Some(440));
    let mut games: HashMap<u32, Game> = HashMap::new();
    let mut g = Game::new();
    g.appid = 440;
    games.insert(440, g.clone());
    g.appid = 730;
    games.insert(730, g);
    let mut selected = 440;
    let mut loaded = true;
    apply_delete_request(&mut games, &mut selected, &mut loaded, &mut request);
    assert_eq!(request, None);
    assert_eq!(selected, 0);
    assert!(!loaded);
    assert!(!games.contains_key(&440));
    assert!(games.contains_key(&730));
    selected = 730;
    loaded = true;
    apply_delete_request(&mut games, &mut selected, &mut loaded, &mut request);
    assert_eq!((selected, loaded, games.len()), (730, true, 1));
}

#[test]
fn screen_restored_at_start() {
    assert_eq!(restored_state(None, "0.6.3", true, Some(State::MainMenu)), (State::Setup, false));
    assert_eq!(restored_state(Some("0.6.2"), "0.6.3", true, Some(State::MainMenu)), (State::Setup, true));
    assert_eq!(restored_state(Some("0.6.2"), "0.6.3", false, Some(State::MainMenu)), (State::MainMenu, false));
    assert_eq!(restored_state(Some("0.6.3"), "0.6.3", true, Some(State::Settings)), (State::Settings, false));
    assert_eq!(restored_state(Some("0.6.3"), "0.6.3", true, None), (State::Setup, false));
}

#[test]
fn screens_change_only_by_their_buttons() {
    let ok = ScreenEvent::Validate { path_empty: false, probe_exists: true };
    let bad = ScreenEvent::Validate { path_empty: false, probe_exists: false };
    let empty = ScreenEvent::Validate { path_empty: true, probe_exists: true };
    let mut s = State::Setup;
    for e in [ScreenEvent::Gear, ScreenEvent::Back, ScreenEvent::Nothing, bad, empty] {
        screen_step(&mut s, e);
        assert_eq!(s, State::Setup);
    }
    screen_step(&mut s, ok);
    assert_eq!(s, State::MainMenu);
    for e in [ScreenEvent::Back, ScreenEvent::Nothing, ok] {
        screen_step(&mut s, e);
        assert_eq!(s, State::MainMenu);
    }
    screen_step(&mut s, ScreenEvent::Gear);
    assert_eq!(s, State::Settings);
    for e in [ScreenEvent::Gear, ScreenEvent::Nothing, ok] {
        screen_step(&mut s, e);
        assert_eq!(s, State::Settings);
    }
    screen_step(&mut s, ScreenEvent::Back);
    assert_eq!(s, State::MainMenu);
    let mut settings = State::Settings;
    assert!(validate_setup(&mut settings, "/s", true).is_some());
    assert_eq!(settings, State::Settings);
}

#[test]
fn saved_screen_comes_back_under_the_same_version() {
    for s in [State::Setup, State::MainMenu, State::Settings] {
        for dir in [false, true] {
            assert_eq!(restored_state(Some("0.6.3"), "0.6.3", dir, Some(saved_state(s))), (saved_state(s), false));
        }
    }
}

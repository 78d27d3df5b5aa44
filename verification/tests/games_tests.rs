use std::collections::HashMap;

use steamtools::games::{
    answers_lack_paths, appmanifest_id_part, fetch_plan, icon_appid, icon_downloads,
    index_manifests, manifests_readable, steam_dirs, wanted_appid, DirEntry, Fetched, ListedFile,
};
use steamtools::paths::Platform;
use steamtools::steam::steam_path_probes;
use steamtools::{detect_real_steam_path, get_games, AppData, Game, GameDetails};

const ACF: &str = "\"AppState\"\n{\n\t\"appid\"\t\t\"440\"\n\t\"name\"\t\t\"Team Fortress 2\"\n\t\"installdir\"\t\t\"Team Fortress 2\"\n}\n";

fn entry(name: &str, is_file: bool) -> DirEntry {
    DirEntry { name: name.to_string(), is_file }
}

fn manifest(name: &str, text: &str) -> ListedFile {
    ListedFile { name: name.to_string(), text: Some(text.to_string()) }
}

fn details(name: &str, image: &str) -> GameDetails {
    GameDetails {
        success: true,
        data: Some(AppData { app_type: "game".to_string(), name: name.to_string(), header_image: image.to_string() }),
    }
}

#[test]
fn debian_variant_is_chosen_when_it_has_steamapps() {
    let probes = steam_path_probes("/home/u/.steam", Platform::Linux);
    assert_eq!(probes, vec!["/home/u/.steam/debian-installation", "/home/u/.steam/debian-installation/steamapps"]);
    assert_eq!(detect_real_steam_path("/home/u/.steam", Platform::Linux, &probes), "/home/u/.steam/debian-installation");
    let only_dir = vec![probes[0].clone()];
    assert_eq!(detect_real_steam_path("/home/u/.steam", Platform::Linux, &only_dir), "/home/u/.steam");
    assert_eq!(detect_real_steam_path("/home/u/.steam", Platform::Linux, &vec![]), "/home/u/.steam");
}

#[test]
fn windows_path_is_kept_as_given() {
    let probes = steam_path_probes("C:\\Steam", Platform::Windows);
    assert_eq!(detect_real_steam_path("C:\\Steam", Platform::Windows, &probes), "C:\\Steam");
}

#[test]
fn manifest_names_give_their_id_part() {
    assert_eq!(appmanifest_id_part("appmanifest_440.acf").as_deref(), Some("440"));
    assert_eq!(appmanifest_id_part("appmanifest_.acf").as_deref(), Some(""));
    assert_eq!(appmanifest_id_part("libraryfolders.vdf"), None);
    assert_eq!(appmanifest_id_part("appmanifest_440.acf.bak"), None);
}

#[test]
fn manifests_index_installed_games_and_folders() {
    let files = vec![manifest("appmanifest_440.acf", ACF), ListedFile { name: "libraryfolders.vdf".to_string(), text: None }];
    assert!(manifests_readable("/home/u/.steam", Platform::Linux, &files));
    let ix = index_manifests("/home/u/.steam", Platform::Linux, &files);
    assert_eq!(ix.installed.get(&440).map(|s| s.as_str()), Some("appmanifest_440.acf"));
    assert_eq!(ix.paths.get(&440).map(|s| s.as_str()), Some("/home/u/.steam/steamapps/common/Team Fortress 2"));
    assert_eq!(ix.installed.len(), 1);
}

#[test]
fn name_cut_follows_the_byte_count_of_the_untrimmed_value() {
    // one tab: the cut ends one byte early, leaving an empty name
    let files = vec![manifest("appmanifest_7.acf", "\"name\"\t\"X\"\n")];
    let ix = index_manifests("/s", Platform::Linux, &files);
    assert_eq!(ix.paths.get(&7).map(|s| s.as_str()), Some("/s/steamapps/common/"));
    // three tabs: the closing quote stays in
    let files = vec![manifest("appmanifest_8.acf", "\"name\"\t\t\t\"Y\"")];
    let ix = index_manifests("/s", Platform::Linux, &files);
    assert_eq!(ix.paths.get(&8).map(|s| s.as_str()), Some("/s/steamapps/common/Y\""));
    // the last name line wins; a manifest without one installs without a folder
    let files = vec![manifest("appmanifest_9.acf", "\"name\"\t\t\"A\"\n\"name\"\t\t\"B\"\n"), manifest("appmanifest_10.acf", "\"appid\" \"10\"")];
    let ix = index_manifests("/s", Platform::Linux, &files);
    assert_eq!(ix.paths.get(&9).map(|s| s.as_str()), Some("/s/steamapps/common/B"));
    assert!(ix.installed.contains_key(&10));
    assert!(!ix.paths.contains_key(&10));
}

#[test]
fn unreadable_manifests_are_reported() {
    let bad_id = vec![manifest("appmanifest_abc.acf", ACF)];
    assert!(!manifests_readable("/s", Platform::Linux, &bad_id));
    let no_text = vec![ListedFile { name: "appmanifest_1.acf".to_string(), text: None }];
    assert!(!manifests_readable("/s", Platform::Linux, &no_text));
    let bad_cut = vec![manifest("appmanifest_2.acf", "\"name\"\"X\"")];
    assert!(!manifests_readable("/s", Platform::Linux, &bad_cut));
}

#[test]
fn fetches_are_planned_for_lua_files_without_icons() {
    let plugins = vec![entry("440.lua", true), entry("730.lua", true), entry("notes.txt", true), entry("570", false)];
    let icons = Some(vec![730u32]);
    let plan = fetch_plan(&plugins, &icons);
    assert_eq!(plan.len(), 4);
    let q = plan[0].as_ref().unwrap();
    assert_eq!(q.url, "https://store.steampowered.com/api/appdetails?appids=440");
    assert_eq!(q.key, "440");
    assert!(plan[1].is_none());
    assert!(plan[2].is_none());
    assert!(plan[3].is_none());
    assert_eq!(wanted_appid(&entry("0440.lua", true), &None), Some(440));
}

#[test]
fn get_games_records_answers_and_keeps_the_rest() {
    let files = vec![manifest("appmanifest_440.acf", ACF)];
    let ix = index_manifests("/s", Platform::Linux, &files);
    let plugins = vec![entry("440.lua", true), entry("620.lua", true), entry("730.lua", true), entry("x.lua", true)];
    let fetched = vec![
        Fetched::Answered(Some(details("Team Fortress 2", "https://img/440.jpg"))),
        Fetched::Answered(None),
        Fetched::Failed,
        Fetched::Skipped,
    ];
    let mut current = HashMap::new();
    let mut old = Game::new();
    old.appid = 730;
    old.details.name = "Counter-Strike".to_string();
    current.insert(730u32, old);
    assert!(!answers_lack_paths(&plugins, &ix, &None, &fetched));
    let games = get_games(current, &Some(plugins.clone()), &Some(ix), &None, &fetched);
    assert_eq!(games.len(), 3);
    let tf2 = &games[&440];
    assert_eq!(tf2.details.name, "Team Fortress 2");
    assert!(tf2.installed);
    assert_eq!(tf2.path, "/s/steamapps/common/Team Fortress 2");
    let portal = &games[&620];
    assert!(!portal.installed);
    assert!(portal.path.is_empty());
    assert!(portal.details.name.is_empty());
    assert_eq!(games[&730].details.name, "Counter-Strike");
    let downloads = icon_downloads(&plugins, &None, &fetched);
    assert_eq!(downloads.len(), 1);
    assert_eq!(downloads[0].url, "https://img/440.jpg");
    assert_eq!(downloads[0].dest, "icons/440.jpg");
}

#[test]
fn unreadable_folders_leave_the_games_alone() {
    let mut current = HashMap::new();
    current.insert(1u32, Game::new());
    let games = get_games(current, &None, &None, &None, &vec![]);
    assert_eq!(games.len(), 1);
    let plugins = vec![entry("440.lua", true)];
    let games = get_games(games, &Some(plugins), &None, &None, &vec![Fetched::Answered(None)]);
    assert_eq!(games.len(), 1);
}

#[test]
fn installed_game_without_folder_is_detected() {
    let files = vec![manifest("appmanifest_10.acf", "\"appid\" \"10\"")];
    let ix = index_manifests("/s", Platform::Linux, &files);
    let plugins = vec![entry("10.lua", true)];
    assert!(answers_lack_paths(&plugins, &ix, &None, &vec![Fetched::Answered(None)]));
    assert!(!answers_lack_paths(&plugins, &ix, &None, &vec![Fetched::Failed]));
}

#[test]
fn icon_names_give_back_their_app() {
    assert_eq!(icon_appid("440.jpg"), Some(440));
    assert_eq!(icon_appid("banner.jpg"), None);
}

#[test]
fn steam_folders_for_games() {
    let (plug, apps) = steam_dirs("/s", Platform::Linux);
    assert_eq!(plug, "/s/config/stplug-in");
    assert_eq!(apps, "/s/steamapps");
    let (plug, _) = steam_dirs("C:\\Steam", Platform::Windows);
    assert_eq!(plug, "C:\\Steam\\config\\stplug-in");
}

#[test]
fn last_answer_for_an_app_wins() {
    let ix = index_manifests("/s", Platform::Linux, &vec![]);
    let plugins = vec![entry("440.lua", true), entry("0440.lua", true)];
    let fetched = vec![
        Fetched::Answered(Some(details("First", "u1"))),
        Fetched::Answered(Some(details("Second", "u2"))),
    ];
    let games = get_games(HashMap::new(), &Some(plugins), &Some(ix), &None, &fetched);
    assert_eq!(games.len(), 1);
    assert_eq!(games[&440].details.name, "Second");
}

#[test]
fn saved_icon_keeps_the_game_as_it_was() {
    let ix = index_manifests("/s", Platform::Linux, &vec![]);
    let plugins = vec![entry("440.lua", true)];
    let mut current = HashMap::new();
    let mut g = Game::new();
    g.appid = 440;
    g.details.name = "Kept".to_string();
    current.insert(440u32, g);
    let fetched = vec![Fetched::Answered(Some(details("New", "u")))];
    let games = get_games(current, &Some(plugins), &Some(ix), &Some(vec![440]), &fetched);
    assert_eq!(games[&440].details.name, "Kept");
}

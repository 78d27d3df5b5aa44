use steamtools::paths::Platform;
use steamtools::{Game, Steam};

#[test]
fn game_new_is_empty() {
    let g = Game::new();
    assert_eq!(g.appid, 0);
    assert!(!g.installed);
    assert!(g.path.is_empty());
    assert!(g.details.name.is_empty());
}

#[test]
fn steam_new_defaults_per_platform() {
    let s = Steam::new(None, Platform::Windows);
    assert_eq!(s.path, "C:\\Program Files (x86)\\Steam");
    let s = Steam::new(None, Platform::Linux);
    assert_eq!(s.path, "~/.local/share/Steam");
    let s = Steam::new(Some("/opt/steam".to_string()), Platform::Linux);
    assert_eq!(s.path, "/opt/steam");
}

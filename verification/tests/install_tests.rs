use steamtools::install::{
    appid_of, detect_real_steam_path, failure_text, install_path_probes, install_sources, is_zip,
    lua_dest_of, lua_dir_of, offers_clear, offers_download, process_lua, sanitize_appid,
    status_for, status_label, ErrorKind, InstallError,
};
use steamtools::paths::Platform;
use steamtools::{InstallPopup, InstallStatus};

#[test]
fn popup_starts_closed_and_idle() {
    let p = InstallPopup::default();
    assert!(!p.active);
    assert!(p.appid.is_empty());
    assert_eq!(p.status, InstallStatus::Idle);
    assert_eq!(InstallStatus::default(), InstallStatus::Idle);
}

#[test]
fn install_path_prefers_debian_variant() {
    let probes = install_path_probes("  /home/u/.steam ", Platform::Linux);
    assert_eq!(
        probes,
        vec![
            "/home/u/.steam/debian-installation",
            "/home/u/.steam/debian-installation/steamapps",
            "/home/u/.steam",
            "/home/u/.steam/steamapps",
        ]
    );
    let r = detect_real_steam_path("  /home/u/.steam ", Platform::Linux, &probes);
    assert_eq!(r.unwrap(), "/home/u/.steam/debian-installation");
    let r = detect_real_steam_path("/home/u/.steam", Platform::Linux, &probes[2..].to_vec());
    assert_eq!(r.unwrap(), "/home/u/.steam");
}

#[test]
fn missing_steam_is_not_found() {
    let e = detect_real_steam_path(" /nowhere ", Platform::Linux, &vec![]).unwrap_err();
    assert_eq!(e.kind, ErrorKind::NotFound);
    assert_eq!(e.message, "No valid Steam installation found in /nowhere or /nowhere/debian-installation");
}

#[test]
fn lua_destination_uses_the_separator() {
    let s: Vec<char> = "C:\\Steam".chars().collect();
    let d: String = lua_dest_of(Platform::Windows, &s, 440).iter().collect();
    assert_eq!(d, "C:\\Steam\\config\\stplug-in\\440.lua");
    let s: Vec<char> = "/s".chars().collect();
    let d: String = lua_dest_of(Platform::Linux, &s, -3).iter().collect();
    assert_eq!(d, "/s/config/stplug-in/-3.lua");
}

#[test]
fn sources_are_tried_in_order() {
    let v = install_sources(440);
    let names: Vec<&str> = v.iter().map(|s| s.name.as_str()).collect();
    assert_eq!(names, vec!["ManifestHub", "Ryuu", "TwentyTwo Cloud", "Sushi"]);
    assert_eq!(v[0].url, "https://raw.githubusercontent.com/SteamAutoCracks/ManifestHub/refs/heads/440/440.lua");
    assert!(!v[0].zipped);
    assert_eq!(v[1].url, "http://167.235.229.108/440");
    assert_eq!(v[2].url, "https://api.twentytwocloud.com/download?appid=440");
    assert_eq!(v[3].url, "https://raw.githubusercontent.com/sushi-dev55-alt/sushitools-games-repo-alt/refs/heads/main/440.zip");
    assert!(v[1].zipped && v[2].zipped && v[3].zipped);
}

#[test]
fn zip_magic_is_checked() {
    assert!(is_zip(b"PK\x03\x04rest"));
    assert!(!is_zip(b"PK\x03"));
    assert!(!is_zip(b"<html>"));
}

#[test]
fn set_manifest_id_lines_are_commented_out() {
    let text = "addappid(440)\n  setManifestid(441, \"1\")\n--setManifestid(442, \"2\")\r\nsetManifestid(443)";
    assert_eq!(process_lua(text), "addappid(440)\n--  setManifestid(441, \"1\")\n--setManifestid(442, \"2\")\n--setManifestid(443)");
    assert_eq!(process_lua("a\n"), "a");
    assert_eq!(process_lua(""), "");
}

#[test]
fn processing_twice_changes_nothing_more() {
    let once = process_lua("setManifestid(1)\nx\n  setManifestid(2)");
    assert_eq!(process_lua(&once), once);
}

#[test]
fn statuses_follow_the_failure_kind() {
    assert_eq!(status_for(Ok(())), InstallStatus::Done);
    let e = |k, m: &str| Err(InstallError { kind: k, message: m.to_string() });
    assert_eq!(status_for(e(ErrorKind::AlreadyExists, "Game already exists!")), InstallStatus::AlreadyExists);
    assert_eq!(status_for(e(ErrorKind::ConnectionRefused, "Not found in any source")), InstallStatus::NotFound);
    assert_eq!(status_for(e(ErrorKind::NotFound, "No valid Steam")), InstallStatus::Error("No valid Steam".to_string()));
    assert_eq!(failure_text(&InstallStatus::AlreadyExists), "You already have this game/app!");
    assert_eq!(failure_text(&InstallStatus::NotFound), "Not found in any source\n(ManifestHub, Ryuu, TwentyTwo Cloud, Sushi)");
    assert_eq!(failure_text(&InstallStatus::Error("boom".to_string())), "boom");
    assert_eq!(failure_text(&InstallStatus::Done), "");
}

#[test]
fn appid_field_keeps_digits_and_parses() {
    assert_eq!(sanitize_appid("4a4٣0 "), "440");
    assert_eq!(sanitize_appid(&sanitize_appid("x1y2")), "12");
    assert_eq!(appid_of("440"), Some(440));
    assert_eq!(appid_of("99999999999"), None);
}

#[test]
fn status_lines_of_the_install_window() {
    assert_eq!(status_label(&InstallStatus::Idle), None);
    assert_eq!(status_label(&InstallStatus::Downloading("Ryuu".to_string())).as_deref(), Some("Trying: Ryuu..."));
    assert_eq!(status_label(&InstallStatus::Done).as_deref(), Some("✅ Installed!"));
    assert_eq!(status_label(&InstallStatus::AlreadyExists).as_deref(), Some("⚠ Already installed."));
    assert_eq!(status_label(&InstallStatus::NotFound).as_deref(), Some("❌ Not found in any source."));
    assert_eq!(status_label(&InstallStatus::Error("x".to_string())).as_deref(), Some("❌ Error: x"));
    assert!(!offers_download(&InstallStatus::Downloading("ManifestHub".to_string())));
    assert!(offers_download(&InstallStatus::Idle));
    assert!(!offers_clear(&InstallStatus::Idle));
    assert!(offers_clear(&InstallStatus::Error("x".to_string())));
}

#[test]
fn games_are_read_where_installs_write() {
    for (p, path) in [(Platform::Linux, "/home/u/.steam"), (Platform::Windows, "C:\\Steam")] {
        let (plug, _) = steamtools::games::steam_dirs(path, p);
        let s: Vec<char> = path.chars().collect();
        let dir: String = lua_dir_of(p, &s).iter().collect();
        assert_eq!(plug, dir);
    }
}

#[test]
fn remove_deletes_what_install_wrote() {
    for (p, path) in [(Platform::Linux, "/home/u/.steam"), (Platform::Windows, "D:\\Steam")] {
        let s: Vec<char> = path.chars().collect();
        let installed: String = lua_dest_of(p, &s, 440).iter().collect();
        assert_eq!(steamtools::ui::lua_file(path, 440, p), installed);
    }
}

#[test]
fn processing_twice_fails_only_on_blank_ends_and_stray_returns() {
    let crlf = process_lua("setManifestid(1)\r\nx\r\n");
    assert_eq!(crlf, "--setManifestid(1)\nx");
    assert_eq!(process_lua(&crlf), crlf);
    let blank_end = process_lua("a\n\n");
    assert_eq!(blank_end, "a\n");
    assert_eq!(process_lua(&blank_end), "a");
    let stray = process_lua("a\r\r\nb");
    assert_eq!(stray, "a\r\nb");
    assert_eq!(process_lua(&stray), "a\nb");
}

#[test]
fn download_starts_only_with_an_app_id_and_no_download_running() {
    let mut p = InstallPopup::default();
    assert_eq!(p.start_download(), None);
    assert_eq!(p.status, InstallStatus::Idle);
    p.appid = "440".to_string();
    assert_eq!(p.start_download(), Some(440));
    assert_eq!(p.status, InstallStatus::Downloading("ManifestHub".to_string()));
    assert_eq!(p.start_download(), None);
    assert_eq!(p.status, InstallStatus::Downloading("ManifestHub".to_string()));
}

#[test]
fn finished_download_sets_status_reload_and_dialog() {
    let mut p = InstallPopup::default();
    let mut loaded = true;
    let msg = p.finish_download(Ok(()), &mut loaded);
    assert_eq!((p.status == InstallStatus::Done, loaded), (true, false));
    assert_eq!(msg, "Lua file downloaded and installed!");
    let mut loaded = true;
    let msg = p.finish_download(Err(InstallError { kind: ErrorKind::AlreadyExists, message: "x".to_string() }), &mut loaded);
    assert_eq!((p.status == InstallStatus::AlreadyExists, loaded), (true, true));
    assert_eq!(msg, "You already have this game/app!");
    let msg = p.finish_download(Err(InstallError { kind: ErrorKind::ConnectionRefused, message: "x".to_string() }), &mut loaded);
    assert_eq!(p.status, InstallStatus::NotFound);
    assert_eq!(msg, "Not found in any source\n(ManifestHub, Ryuu, TwentyTwo Cloud, Sushi)");
    let msg = p.finish_download(Err(InstallError { kind: ErrorKind::Other, message: "boom".to_string() }), &mut loaded);
    assert_eq!(p.status, InstallStatus::Error("boom".to_string()));
    assert_eq!(msg, "boom");
}

#[test]
fn clear_resets_an_ended_install_only() {
    let mut p = InstallPopup::default();
    p.status = InstallStatus::NotFound;
    p.clear();
    assert_eq!(p.status, InstallStatus::Idle);
    p.status = InstallStatus::Downloading("Ryuu".to_string());
    p.clear();
    assert_eq!(p.status, InstallStatus::Downloading("Ryuu".to_string()));
}

#[test]
fn edited_app_id_keeps_its_digits() {
    let mut p = InstallPopup::default();
    p.appid = "4a4\u{0663}0 ".to_string();
    p.edit_appid();
    assert_eq!(p.appid, "440");
    p.edit_appid();
    assert_eq!(p.appid, "440");
    assert_eq!(p.status, InstallStatus::Idle);
    assert!(!p.active);
}

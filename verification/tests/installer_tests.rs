use steamtools::install::{install_path_probes, ErrorKind, InstallError};
use steamtools::installer::{InstallAction, InstallEvent, Installer};
use steamtools::paths::Platform;

fn probes_all(steam: &str) -> Vec<String> {
    install_path_probes(steam, Platform::Linux)[2..].to_vec()
}

#[test]
fn missing_steam_fails_at_once() {
    let (_, act) = Installer::start("/none", 440, Platform::Linux, &vec![]);
    match act {
        InstallAction::Finish(Err(e)) => assert_eq!(e.kind, ErrorKind::NotFound),
        _ => panic!("expected a failure"),
    }
}

#[test]
fn existing_manifest_is_not_overwritten() {
    let (mut ins, act) = Installer::start("/s", 440, Platform::Linux, &probes_all("/s"));
    let probed = match act {
        InstallAction::Probe(p) => p,
        _ => panic!("expected a probe"),
    };
    assert_eq!(probed, vec!["/s/config/stplug-in/440.lua".to_string()]);
    match ins.resume(InstallEvent::Existing(probed)) {
        InstallAction::Finish(Err(e)) => {
            assert_eq!(e.kind, ErrorKind::AlreadyExists);
            assert_eq!(e.message, "Game already exists!");
        }
        _ => panic!("expected AlreadyExists"),
    }
}

#[test]
fn manifest_hub_answer_is_written() {
    let (mut ins, _) = Installer::start("/s", 440, Platform::Linux, &probes_all("/s"));
    match ins.resume(InstallEvent::Existing(vec![])) {
        InstallAction::Fetch(u) => assert_eq!(u, "https://raw.githubusercontent.com/SteamAutoCracks/ManifestHub/refs/heads/440/440.lua"),
        _ => panic!(),
    }
    assert!(matches!(ins.resume(InstallEvent::Response(Some(200))), InstallAction::ReadBody));
    match ins.resume(InstallEvent::Body(Some(b"lua".to_vec()))) {
        InstallAction::CreateDirAll(d) => assert_eq!(d, "/s/config/stplug-in"),
        _ => panic!(),
    }
    match ins.resume(InstallEvent::Done(Ok(()))) {
        InstallAction::CreateFile(f) => assert_eq!(f, "/s/config/stplug-in/440.lua"),
        _ => panic!(),
    }
    match ins.resume(InstallEvent::Done(Ok(()))) {
        InstallAction::WriteFile(b) => assert_eq!(b, b"lua"),
        _ => panic!(),
    }
    assert!(matches!(ins.resume(InstallEvent::Done(Ok(()))), InstallAction::Finish(Ok(()))));
}

#[test]
fn zip_services_are_tried_until_one_works() {
    let (mut ins, _) = Installer::start("/s", 7, Platform::Linux, &probes_all("/s"));
    ins.resume(InstallEvent::Existing(vec![]));
    match ins.resume(InstallEvent::Response(Some(404))) {
        InstallAction::Fetch(u) => assert_eq!(u, "http://167.235.229.108/7"),
        _ => panic!(),
    }
    match ins.resume(InstallEvent::Response(None)) {
        InstallAction::Fetch(u) => assert_eq!(u, "https://api.twentytwocloud.com/download?appid=7"),
        _ => panic!(),
    }
    assert!(matches!(ins.resume(InstallEvent::Response(Some(200))), InstallAction::ReadBody));
    match ins.resume(InstallEvent::Body(Some(b"<html>".to_vec()))) {
        InstallAction::Fetch(u) => assert!(u.ends_with("/7.zip")),
        _ => panic!(),
    }
    assert!(matches!(ins.resume(InstallEvent::Response(Some(204))), InstallAction::ReadBody));
    match ins.resume(InstallEvent::Body(Some(b"PK\x03\x04zip".to_vec()))) {
        InstallAction::Extract(b, dir) => {
            assert_eq!(b, b"PK\x03\x04zip");
            assert_eq!(dir, "/s");
        }
        _ => panic!(),
    }
    let failed = InstallError { kind: ErrorKind::InvalidData, message: "bad".to_string() };
    match ins.resume(InstallEvent::Done(Err(failed))) {
        InstallAction::Finish(Err(e)) => {
            assert_eq!(e.kind, ErrorKind::ConnectionRefused);
            assert_eq!(e.message, "Not found in any source");
        }
        _ => panic!(),
    }
}

#[test]
fn write_failure_ends_the_install() {
    let (mut ins, _) = Installer::start("/s", 1, Platform::Linux, &probes_all("/s"));
    ins.resume(InstallEvent::Existing(vec![]));
    ins.resume(InstallEvent::Response(Some(200)));
    ins.resume(InstallEvent::Body(Some(vec![1])));
    let denied = InstallError { kind: ErrorKind::Other, message: "denied".to_string() };
    match ins.resume(InstallEvent::Done(Err(denied))) {
        InstallAction::Finish(Err(e)) => assert_eq!(e.message, "denied"),
        _ => panic!(),
    }
}

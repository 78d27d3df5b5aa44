use std::collections::{HashMap, HashSet};
use std::io::{Cursor, Write};

use steamtools::extract::{ExtractAction, Extractor};
use steamtools::install::{ErrorKind, InstallError};
use steamtools::paths::Platform;

fn zip_of(entries: &[(&str, &[u8])]) -> Vec<u8> {
    let mut w = zip::ZipWriter::new(Cursor::new(Vec::new()));
    for (name, data) in entries {
        w.start_file(*name, zip::write::SimpleFileOptions::default()).unwrap();
        w.write_all(data).unwrap();
    }
    w.finish().unwrap().into_inner()
}

/// A file system in memory; folders listed in `refuse` cannot be created.
#[derive(Default)]
struct Fs {
    dirs: HashSet<String>,
    files: HashMap<String, Vec<u8>>,
    refuse: HashSet<String>,
    last: Option<String>,
}

fn run(bytes: Vec<u8>, appid: i32, steam: &str, fs: &mut Fs) -> Result<(), InstallError> {
    let (mut x, mut act) = Extractor::start(bytes, appid, steam, Platform::Linux)?;
    loop {
        let answer = match act {
            ExtractAction::Finish(r) => return r,
            ExtractAction::CreateDirAll(d) => {
                if fs.refuse.contains(&d) {
                    Err(InstallError { kind: ErrorKind::Other, message: "denied".to_string() })
                } else {
                    fs.dirs.insert(d);
                    Ok(())
                }
            }
            ExtractAction::CreateFile(f) => {
                fs.files.insert(f.clone(), Vec::new());
                fs.last = Some(f);
                Ok(())
            }
            ExtractAction::WriteFile(b) => {
                let f = fs.last.clone().unwrap();
                fs.files.get_mut(&f).unwrap().extend_from_slice(&b);
                Ok(())
            }
        };
        act = x.resume(answer);
    }
}

#[test]
fn manifests_and_preferred_lua_are_installed() {
    let bytes = zip_of(&[
        ("depots/123_456.MANIFEST", b"m1"),
        ("999.lua", b"addappid(999)"),
        ("pack/440.lua", b"addappid(440)\nsetManifestid(441, \"7\")"),
        ("readme.txt", b"hi"),
    ]);
    let mut fs = Fs::default();
    run(bytes, 440, "/s", &mut fs).unwrap();
    assert!(fs.dirs.contains("/s/config/stplug-in"));
    assert!(fs.dirs.contains("/s/depotcache"));
    assert_eq!(fs.files["/s/depotcache/123_456.MANIFEST"], b"m1");
    assert_eq!(fs.files["/s/config/stplug-in/440.lua"], b"addappid(440)\n--setManifestid(441, \"7\")");
    assert_eq!(fs.files.len(), 2);
}

#[test]
fn first_numeric_lua_is_the_fallback() {
    let bytes = zip_of(&[("notes.lua", b"x"), ("12.lua", b"twelve"), ("13.lua", b"thirteen")]);
    let mut fs = Fs::default();
    run(bytes, 440, "/s", &mut fs).unwrap();
    assert_eq!(fs.files["/s/config/stplug-in/440.lua"], b"twelve");
}

#[test]
fn zip_without_numeric_lua_fails_not_found() {
    let bytes = zip_of(&[("a.manifest", b"m"), ("game.lua", b"x")]);
    let mut fs = Fs::default();
    let e = run(bytes, 440, "/s", &mut fs).unwrap_err();
    assert_eq!(e.kind, ErrorKind::NotFound);
    assert_eq!(e.message, "No numeric .lua found in ZIP");
    assert_eq!(fs.files["/s/depotcache/a.manifest"], b"m");
}

#[test]
fn depot_folder_failure_skips_manifests() {
    let bytes = zip_of(&[("a.manifest", b"m"), ("1.lua", b"one")]);
    let mut fs = Fs::default();
    fs.refuse.insert("/s/depotcache".to_string());
    run(bytes, 5, "/s", &mut fs).unwrap();
    assert!(!fs.files.contains_key("/s/depotcache/a.manifest"));
    assert_eq!(fs.files["/s/config/stplug-in/5.lua"], b"one");
}

#[test]
fn lua_folder_failure_is_passed_on() {
    let bytes = zip_of(&[("1.lua", b"one")]);
    let mut fs = Fs::default();
    fs.refuse.insert("/s/config/stplug-in".to_string());
    let e = run(bytes, 1, "/s", &mut fs).unwrap_err();
    assert_eq!(e.kind, ErrorKind::Other);
    assert_eq!(e.message, "denied");
}

#[test]
fn bytes_that_hold_no_archive_are_invalid_data() {
    let e = Extractor::start(b"PK\x03\x04 not really".to_vec(), 1, "/s", Platform::Linux).err().unwrap();
    assert_eq!(e.kind, ErrorKind::InvalidData);
}

#[test]
fn invalid_utf8_in_lua_is_replaced() {
    let bytes = zip_of(&[("3.lua", &[0x61, 0xFF, 0x62])]);
    let mut fs = Fs::default();
    run(bytes, 3, "/s", &mut fs).unwrap();
    assert_eq!(fs.files["/s/config/stplug-in/3.lua"], "a\u{FFFD}b".as_bytes());
}

fn stored_zip_with_flipped(entries: &[(&str, &[u8])], needle: &[u8]) -> Vec<u8> {
    let mut w = zip::ZipWriter::new(Cursor::new(Vec::new()));
    let opts = zip::write::SimpleFileOptions::default().compression_method(zip::CompressionMethod::Stored);
    for (name, data) in entries {
        w.start_file(*name, opts).unwrap();
        w.write_all(data).unwrap();
    }
    let mut bytes = w.finish().unwrap().into_inner();
    let at = bytes.windows(needle.len()).position(|x| x == needle).unwrap();
    bytes[at] ^= 0x01;
    bytes
}

#[test]
fn corrupt_lua_entry_fails_with_the_read_error_kind() {
    let bytes = stored_zip_with_flipped(&[("7.lua", b"payload-lua")], b"payload-lua");
    let mut fs = Fs::default();
    let e = run(bytes, 7, "/s", &mut fs).unwrap_err();
    assert_eq!(e.kind, ErrorKind::InvalidData);
    assert!(!fs.files.contains_key("/s/config/stplug-in/7.lua"));
}

#[test]
fn corrupt_depot_manifest_fails_with_the_read_error_kind() {
    let bytes = stored_zip_with_flipped(&[("a.manifest", b"payload-manifest"), ("7.lua", b"x")], b"payload-manifest");
    let mut fs = Fs::default();
    let e = run(bytes, 7, "/s", &mut fs).unwrap_err();
    assert_eq!(e.kind, ErrorKind::InvalidData);
}

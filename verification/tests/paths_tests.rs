use steamtools::paths::{file_name_of, file_stem_of, push_path, stem_of, Platform};

fn cs(s: &str) -> Vec<char> {
    s.chars().collect()
}

fn st(v: &[char]) -> String {
    v.iter().collect()
}

fn push(p: Platform, a: &str, b: &str) -> String {
    st(&push_path(p, &cs(a), &cs(b)))
}

#[test]
fn push_on_unix_is_pathbuf_push() {
    let l = Platform::Linux;
    assert_eq!(push(l, "/home/u/.steam", "steamapps"), "/home/u/.steam/steamapps");
    assert_eq!(push(l, "/home/u/.steam/", "steamapps"), "/home/u/.steam/steamapps");
    assert_eq!(push(l, "", "config"), "config");
    assert_eq!(push(l, "/a", "/etc"), "/etc");
    assert_eq!(push(l, "/a", ""), "/a/");
}

#[test]
fn push_on_windows_handles_drives_and_roots() {
    let w = Platform::Windows;
    assert_eq!(push(w, "C:\\Steam", "config"), "C:\\Steam\\config");
    assert_eq!(push(w, "C:\\Steam\\", "config"), "C:\\Steam\\config");
    assert_eq!(push(w, "C:\\Steam/", "config"), "C:\\Steam/config");
    assert_eq!(push(w, "C:", "Steam"), "C:Steam");
    assert_eq!(push(w, "C:\\Steam", "D:\\Games"), "D:\\Games");
    assert_eq!(push(w, "C:\\Steam", "\\Games"), "C:\\Games");
}

#[test]
fn file_name_takes_last_component() {
    let l = Platform::Linux;
    let f = |s: &str| file_name_of(l, &cs(s)).map(|v| st(&v));
    assert_eq!(f("a/b/c.lua").as_deref(), Some("c.lua"));
    assert_eq!(f("a/b/").as_deref(), Some("b"));
    assert_eq!(f("a/.").as_deref(), Some("a"));
    assert_eq!(f("a/.."), None);
    assert_eq!(f("/"), None);
    assert_eq!(f(""), None);
    let w = |s: &str| file_name_of(Platform::Windows, &cs(s)).map(|v| st(&v));
    assert_eq!(w("C:\\Games\\Portal 2").as_deref(), Some("Portal 2"));
    assert_eq!(w("C:"), None);
}

#[test]
fn stems_cut_the_last_extension() {
    assert_eq!(st(&stem_of(&cs("440.lua"))), "440");
    assert_eq!(st(&stem_of(&cs("a.tar.gz"))), "a.tar");
    assert_eq!(st(&stem_of(&cs(".bashrc"))), ".bashrc");
    assert_eq!(st(&stem_of(&cs("noext"))), "noext");
    assert_eq!(st(&stem_of(&cs("dot."))), "dot");
    assert_eq!(file_stem_of(Platform::Linux, &cs("/x/y/730.lua")).map(|v| st(&v)).as_deref(), Some("730"));
}

#[test]
fn file_name_of_pushed_name() {
    for (p, base) in [
        (Platform::Linux, "/s/steamapps/common"),
        (Platform::Linux, "/s/steamapps/common/"),
        (Platform::Linux, ""),
        (Platform::Windows, "C:\\Steam\\steamapps\\common"),
        (Platform::Windows, "C:"),
    ] {
        let pushed = push_path(p, &cs(base), &cs("Portal 2"));
        assert_eq!(file_name_of(p, &pushed).map(|v| st(&v)).as_deref(), Some("Portal 2"));
    }
}

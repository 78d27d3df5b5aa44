//! Installing the Lua manifest of an app: finding the Steam folder, the
//! sources tried in turn, and what the install window shows.

use vstd::prelude::*;

use crate::num::{decimal_i32, decimal_of_i32, is_digit, parse_i32, parse_i32_spec};
use crate::paths::{has_drive, is_sep, main_sep, main_sep_char, push_all, push_spec, Platform};
use crate::steam::listed;
use crate::steam::is_listed;
use crate::text::{
    chars_of, concat, has_prefix, join, join_chars, lines, lines_of, replace_all, replace_chars,
    starts_with, string_of, trim, trim_chars, trim_start, trim_start_chars, views,
};

verus! {

/// The kind of an install failure, as the install window tells them apart.
#[derive(Clone, Copy, PartialEq, Eq, Debug, Structural)]
pub enum ErrorKind {
    NotFound,
    AlreadyExists,
    ConnectionRefused,
    InvalidData,
    Other,
}

/// Why an install failed, with the message shown for it.
#[derive(Debug)]
pub struct InstallError {
    pub kind: ErrorKind,
    pub message: String,
}

/// What the install window reports.
#[derive(Debug, PartialEq)]
pub enum InstallStatus {
    Idle,
    /// The source being tried.
    Downloading(String),
    Done,
    AlreadyExists,
    NotFound,
    Error(String),
}

/// The install window: whether it is open, the app id typed in, and the status.
#[derive(Debug)]
pub struct InstallPopup {
    pub active: bool,
    pub appid: String,
    pub status: InstallStatus,
}

impl Default for InstallStatus {
    fn default() -> (r: Self)
        ensures
            r is Idle,
    {
        InstallStatus::Idle
    }
}

impl Default for InstallPopup {
    fn default() -> (r: Self)
        ensures
            !r.active,
            r.appid@ == Seq::<char>::empty(),
            r.status is Idle,
    {
        InstallPopup { active: false, appid: String::new(), status: InstallStatus::Idle }
    }
}

/// `a`, the separator, then `b`: a path written with `format!` and
/// `MAIN_SEPARATOR`.
pub open spec fn sep_join(p: Platform, a: Seq<char>, b: Seq<char>) -> Seq<char> {
    a.push(main_sep(p)) + b
}

pub fn sep_join_exec(p: Platform, a: &Vec<char>, b: &Vec<char>) -> (r: Vec<char>)
    ensures
        r@ == sep_join(p, a@, b@),
{
    let mut x = a.clone();
    x.push(main_sep_char(p));
    concat(&x, b)
}

/// The Debian package variant of the Steam folder the user gave.
pub open spec fn install_debian_variant(p: Platform, user: Seq<char>) -> Seq<char> {
    sep_join(p, trim(user), "debian-installation"@)
}

/// The Steam folder that installs go to: the Debian package variant when it
/// exists with its `steamapps`, else the trimmed folder the user gave when it
/// exists with its `steamapps`; `None` when neither does.
pub open spec fn install_steam_path(p: Platform, user: Seq<char>, existing: Seq<String>) -> Option<
    Seq<char>,
> {
    let u = trim(user);
    let deb = install_debian_variant(p, user);
    if listed(existing, deb) && listed(existing, sep_join(p, deb, "steamapps"@)) {
        Some(deb)
    } else if listed(existing, u) && listed(existing, sep_join(p, u, "steamapps"@)) {
        Some(u)
    } else {
        None
    }
}

/// The message of the failure when no Steam folder is found.
pub open spec fn no_steam_message(p: Platform, user: Seq<char>) -> Seq<char> {
    "No valid Steam installation found in "@ + trim(user) + " or "@ + install_debian_variant(
        p,
        user,
    )
}

/// The paths whose existence decides [`detect_real_steam_path`].
pub fn install_path_probes(user_provided: &str, platform: Platform) -> (r: Vec<String>)
    ensures
        r@.len() == 4,
        r@[0]@ == install_debian_variant(platform, user_provided@),
        r@[1]@ == sep_join(platform, install_debian_variant(platform, user_provided@), "steamapps"@),
        r@[2]@ == trim(user_provided@),
        r@[3]@ == sep_join(platform, trim(user_provided@), "steamapps"@),
{
    let u = trim_chars(&chars_of(user_provided));
    let deb = sep_join_exec(platform, &u, &chars_of("debian-installation"));
    let deb_apps = sep_join_exec(platform, &deb, &chars_of("steamapps"));
    let u_apps = sep_join_exec(platform, &u, &chars_of("steamapps"));
    let mut r: Vec<String> = Vec::new();
    r.push(string_of(&deb));
    r.push(string_of(&deb_apps));
    r.push(string_of(&u));
    r.push(string_of(&u_apps));
    r
}

/// The Steam folder to install into, given which probed paths exist; a
/// `NotFound` failure when there is none.
pub fn detect_real_steam_path(user_provided: &str, platform: Platform, existing: &Vec<String>) -> (r:
    Result<String, InstallError>)
    ensures
        match (r, install_steam_path(platform, user_provided@, existing@)) {
            (Ok(s), Some(t)) => s@ == t,
            (Err(e), None) => e.kind == ErrorKind::NotFound && e.message@ == no_steam_message(
                platform,
                user_provided@,
            ),
            _ => false,
        },
{
    let probes = install_path_probes(user_provided, platform);
    if is_listed(existing, &probes[0]) && is_listed(existing, &probes[1]) {
        Ok(probes[0].clone())
    } else if is_listed(existing, &probes[2]) && is_listed(existing, &probes[3]) {
        Ok(probes[2].clone())
    } else {
        let msg = concat(
            &concat(
                &concat(&chars_of("No valid Steam installation found in "), &chars_of(probes[2].as_str())),
                &chars_of(" or "),
            ),
            &chars_of(probes[0].as_str()),
        );
        Err(InstallError { kind: ErrorKind::NotFound, message: string_of(&msg) })
    }
}

/// The folder that holds the Lua manifests of the Steam folder `steam`.
pub open spec fn lua_dir(p: Platform, steam: Seq<char>) -> Seq<char> {
    sep_join(p, sep_join(p, steam, "config"@), "stplug-in"@)
}

/// The Lua manifest file of app `appid` in the Steam folder `steam`.
pub open spec fn lua_dest(p: Platform, steam: Seq<char>, appid: i32) -> Seq<char> {
    sep_join(p, lua_dir(p, steam), decimal_i32(appid) + ".lua"@)
}

/// The folder that holds depot manifests in the Steam folder `steam`.
pub open spec fn depot_dir(p: Platform, steam: Seq<char>) -> Seq<char> {
    sep_join(p, steam, "depotcache"@)
}

pub fn lua_dir_of(platform: Platform, steam: &Vec<char>) -> (r: Vec<char>)
    ensures
        r@ == lua_dir(platform, steam@),
{
    let cfg = sep_join_exec(platform, steam, &chars_of("config"));
    sep_join_exec(platform, &cfg, &chars_of("stplug-in"))
}

pub fn lua_dest_of(platform: Platform, steam: &Vec<char>, appid: i32) -> (r: Vec<char>)
    ensures
        r@ == lua_dest(platform, steam@, appid),
{
    let dir = lua_dir_of(platform, steam);
    let file = concat(&decimal_of_i32(appid), &chars_of(".lua"));
    sep_join_exec(platform, &dir, &file)
}

pub fn depot_dir_of(platform: Platform, steam: &Vec<char>) -> (r: Vec<char>)
    ensures
        r@ == depot_dir(platform, steam@),
{
    sep_join_exec(platform, steam, &chars_of("depotcache"))
}

/// ManifestHub serves the raw Lua manifest under this address.
pub const MANIFESTS_URL: &'static str =
    "https://raw.githubusercontent.com/SteamAutoCracks/ManifestHub/refs/heads";

/// Where ManifestHub serves the Lua manifest of `appid`.
pub open spec fn manifest_hub_url(appid: i32) -> Seq<char> {
    MANIFESTS_URL@ + "/"@ + decimal_i32(appid) + "/"@ + decimal_i32(appid) + ".lua"@
}

/// The services that answer with a ZIP of Lua and depot manifests: a name and
/// an address template.
pub open spec fn zip_apis() -> Seq<(Seq<char>, Seq<char>)> {
    seq![
        ("Ryuu"@, "http://167.235.229.108/{appid}"@),
        ("TwentyTwo Cloud"@, "https://api.twentytwocloud.com/download?appid={appid}"@),
        (
            "Sushi"@,
            "https://raw.githubusercontent.com/sushi-dev55-alt/sushitools-games-repo-alt/refs/heads/main/{appid}.zip"@,
        ),
    ]
}

/// Where ZIP service `i` serves the manifests of `appid`.
pub open spec fn zip_api_url(i: int, appid: i32) -> Seq<char> {
    replace_all(zip_apis()[i].1, "{appid}"@, decimal_i32(appid))
}

/// A place to get a Lua manifest from.
pub struct Source {
    pub name: String,
    pub url: String,
    /// The answer is a ZIP (else it is the Lua manifest itself).
    pub zipped: bool,
}

/// The sources tried in turn: ManifestHub, then each ZIP service.
pub open spec fn source_list(appid: i32) -> Seq<(Seq<char>, Seq<char>, bool)> {
    seq![
        ("ManifestHub"@, manifest_hub_url(appid), false),
        (zip_apis()[0].0, zip_api_url(0, appid), true),
        (zip_apis()[1].0, zip_api_url(1, appid), true),
        (zip_apis()[2].0, zip_api_url(2, appid), true),
    ]
}

pub open spec fn source_views(v: Seq<Source>) -> Seq<(Seq<char>, Seq<char>, bool)> {
    v.map_values(|s: Source| (s.name@, s.url@, s.zipped))
}

fn zip_api(i: usize) -> (r: (&'static str, &'static str))
    requires
        i < 3,
    ensures
        r.0@ == zip_apis()[i as int].0,
        r.1@ == zip_apis()[i as int].1,
{
    if i == 0 {
        ("Ryuu", "http://167.235.229.108/{appid}")
    } else if i == 1 {
        ("TwentyTwo Cloud", "https://api.twentytwocloud.com/download?appid={appid}")
    } else {
        (
            "Sushi",
            "https://raw.githubusercontent.com/sushi-dev55-alt/sushitools-games-repo-alt/refs/heads/main/{appid}.zip",
        )
    }
}

/// The sources to try for `appid`, in order.
pub fn install_sources(appid: i32) -> (r: Vec<Source>)
    ensures
        source_views(r@) == source_list(appid),
{
    let id = decimal_of_i32(appid);
    let hub = concat(
        &concat(&concat(&concat(&chars_of(MANIFESTS_URL), &chars_of("/")), &id), &chars_of("/")),
        &concat(&id, &chars_of(".lua")),
    );
    assert(hub@ =~= manifest_hub_url(appid));
    let mut r: Vec<Source> = Vec::new();
    r.push(Source { name: "ManifestHub".to_owned(), url: string_of(&hub), zipped: false });
    assert(source_views(r@) =~= source_list(appid).take(1));
    let pat = chars_of("{appid}");
    proof {
        reveal_strlit("{appid}");
    }
    for i in 0..3
        invariant
            r@.len() == i + 1,
            pat@ == "{appid}"@,
            pat@.len() > 0,
            id@ == decimal_i32(appid),
            source_views(r@) == source_list(appid).take(i + 1),
    {
        let (name, template) = zip_api(i);
        let url = replace_chars(&chars_of(template), &pat, &id);
        let ghost before = source_views(r@);
        r.push(Source { name: name.to_owned(), url: string_of(&url), zipped: true });
        assert(source_views(r@) =~= before.push((name@, url@, true)));
        assert(source_list(appid).take(i + 2) =~= source_list(appid).take(i + 1).push(
            source_list(appid)[i + 1],
        ));
    }
    assert(source_list(appid).take(4) =~= source_list(appid));
    r
}

/// The first bytes of a ZIP file.
pub open spec fn zip_magic(b: Seq<u8>) -> bool {
    b.len() >= 4 && b[0] == 0x50 && b[1] == 0x4B && b[2] == 0x03 && b[3] == 0x04
}

/// Whether `b` starts like a ZIP file (`PK\x03\x04`).
pub fn is_zip(b: &[u8]) -> (r: bool)
    ensures
        r == zip_magic(b@),
{
    b.len() >= 4 && b[0] == 0x50 && b[1] == 0x4B && b[2] == 0x03 && b[3] == 0x04
}

/// A Lua manifest line with its `setManifestid(` call commented out.
pub open spec fn comment_line(l: Seq<char>) -> Seq<char> {
    let t = trim_start(l);
    if has_prefix(t, "setManifestid("@) && !has_prefix(t, "--"@) {
        "--"@ + l
    } else {
        l
    }
}

/// A Lua manifest with every `setManifestid(` line commented out, its lines
/// joined by `\n`.
pub open spec fn processed_lua(text: Seq<char>) -> Seq<char> {
    join(lines(text).map_values(|l: Seq<char>| comment_line(l)), "\n"@)
}

/// The Lua manifest `text` with its `setManifestid(` lines commented out.
pub fn process_lua(text: &str) -> (r: String)
    ensures
        r@ == processed_lua(text@),
{
    let ls = lines_of(&chars_of(text));
    let key = chars_of("setManifestid(");
    let dashes = chars_of("--");
    let mut out: Vec<Vec<char>> = Vec::new();
    for i in 0..ls.len()
        invariant
            key@ == "setManifestid("@,
            dashes@ == "--"@,
            views(out@) == views(ls@).take(i as int).map_values(|l: Seq<char>| comment_line(l)),
    {
        let l = &ls[i];
        let t = trim_start_chars(l);
        let line = if starts_with(&t, &key) && !starts_with(&t, &dashes) {
            concat(&dashes, l)
        } else {
            l.clone()
        };
        assert(line@ == comment_line(l@));
        let ghost before = views(out@);
        out.push(line);
        assert(views(out@) =~= before.push(comment_line(ls@[i as int]@)));
        assert(views(ls@).take(i + 1).map_values(|l: Seq<char>| comment_line(l)) =~= views(
            ls@,
        ).take(i as int).map_values(|l: Seq<char>| comment_line(l)).push(
            comment_line(ls@[i as int]@),
        ));
    }
    assert(views(ls@).take(ls@.len() as int) =~= views(ls@));
    let joined = join_chars(&out, &chars_of("\n"));
    string_of(&joined)
}

/// What the install window reports after an install ended with `r`.
pub open spec fn status_after(r: Result<(), InstallError>) -> InstallStatus {
    match r {
        Ok(_) => InstallStatus::Done,
        Err(e) => match e.kind {
            ErrorKind::AlreadyExists => InstallStatus::AlreadyExists,
            ErrorKind::ConnectionRefused => InstallStatus::NotFound,
            _ => InstallStatus::Error(e.message),
        },
    }
}

/// The status to show after an install ended with `r`.
pub fn status_for(r: Result<(), InstallError>) -> (s: InstallStatus)
    ensures
        s == status_after(r),
{
    match r {
        Ok(_) => InstallStatus::Done,
        Err(e) => match e.kind {
            ErrorKind::AlreadyExists => InstallStatus::AlreadyExists,
            ErrorKind::ConnectionRefused => InstallStatus::NotFound,
            _ => InstallStatus::Error(e.message),
        },
    }
}

/// The text of the dialog shown when an install failed with status `s`.
pub open spec fn failure_message(s: InstallStatus) -> Seq<char> {
    match s {
        InstallStatus::AlreadyExists => "You already have this game/app!"@,
        InstallStatus::NotFound => "Not found in any source\n(ManifestHub, Ryuu, TwentyTwo Cloud, Sushi)"@,
        InstallStatus::Error(e) => e@,
        _ => seq![],
    }
}

pub fn failure_text(s: &InstallStatus) -> (r: String)
    ensures
        r@ == failure_message(*s),
{
    match s {
        InstallStatus::AlreadyExists => "You already have this game/app!".to_owned(),
        InstallStatus::NotFound => "Not found in any source\n(ManifestHub, Ryuu, TwentyTwo Cloud, Sushi)".to_owned(),
        InstallStatus::Error(e) => e.clone(),
        _ => String::new(),
    }
}

/// The line the install window shows under the app id for status `s`.
pub open spec fn status_line(s: InstallStatus) -> Option<Seq<char>> {
    match s {
        InstallStatus::Idle => None,
        InstallStatus::Downloading(api) => Some("Trying: "@ + api@ + "..."@),
        InstallStatus::Done => Some("\u{2705} Installed!"@),
        InstallStatus::AlreadyExists => Some("\u{26a0} Already installed."@),
        InstallStatus::NotFound => Some("\u{274c} Not found in any source."@),
        InstallStatus::Error(e) => Some("\u{274c} Error: "@ + e@),
    }
}

/// The status line of the install window, if any.
pub fn status_label(s: &InstallStatus) -> (r: Option<String>)
    ensures
        match r {
            Some(t) => status_line(*s) == Some(t@),
            None => status_line(*s) is None,
        },
{
    match s {
        InstallStatus::Idle => None,
        InstallStatus::Downloading(api) => Some(
            string_of(&concat(&concat(&chars_of("Trying: "), &chars_of(api.as_str())), &chars_of("..."))),
        ),
        InstallStatus::Done => Some("\u{2705} Installed!".to_owned()),
        InstallStatus::AlreadyExists => Some("\u{26a0} Already installed.".to_owned()),
        InstallStatus::NotFound => Some("\u{274c} Not found in any source.".to_owned()),
        InstallStatus::Error(e) => Some(string_of(&concat(&chars_of("\u{274c} Error: "), &chars_of(e.as_str())))),
    }
}

/// Whether the install window offers its download button: not while a
/// download runs.
pub fn offers_download(s: &InstallStatus) -> (r: bool)
    ensures
        r == !(*s is Downloading),
{
    match s {
        InstallStatus::Downloading(_) => false,
        _ => true,
    }
}

/// Whether the install window offers to clear its status: only once an
/// install has ended.
pub fn offers_clear(s: &InstallStatus) -> (r: bool)
    ensures
        r == !(*s is Idle || *s is Downloading),
{
    match s {
        InstallStatus::Idle => false,
        InstallStatus::Downloading(_) => false,
        _ => true,
    }
}

/// The app id field as kept: only its ASCII digits.
pub open spec fn digits_only(s: Seq<char>) -> Seq<char> {
    s.filter(|c: char| is_digit(c))
}

/// The app id field after an edit: its ASCII digits.
pub fn sanitize_appid(s: &str) -> (r: String)
    ensures
        r@ == digits_only(s@),
{
    let cs = chars_of(s);
    let mut out: Vec<char> = Vec::new();
    for i in 0..cs.len()
        invariant
            out@ == digits_only(cs@.take(i as int)),
    {
        let u = cs[i] as u32;
        assert(cs@.take(i + 1).drop_last() =~= cs@.take(i as int));
        if 0x30 <= u && u <= 0x39 {
            out.push(cs[i]);
        }
        proof {
            reveal_with_fuel(Seq::filter, 1);
        }
    }
    assert(cs@.take(cs@.len() as int) =~= cs@);
    string_of(&out)
}

/// The app id to install: the field read as an `i32` (`str::parse`).
pub fn appid_of(s: &str) -> (r: Option<i32>)
    ensures
        r == parse_i32_spec(s@),
{
    parse_i32(&chars_of(s))
}


/// The text of the dialog shown after an install that left status `s`.
pub open spec fn dialog_message(s: InstallStatus) -> Seq<char> {
    match s {
        InstallStatus::Done => "Lua file downloaded and installed!"@,
        _ => failure_message(s),
    }
}

impl InstallPopup {
    /// The Download button is pressed: nothing starts while a download runs
    /// or the app id field is empty (`None`, the window unchanged); otherwise
    /// the status becomes `Downloading("ManifestHub")` and the app id, read
    /// as an `i32`, is the one to install.
    pub fn start_download(&mut self) -> (r: Option<i32>)
        requires
            !(old(self).status is Downloading) && old(self).appid@.len() > 0 ==> parse_i32_spec(
                old(self).appid@,
            ) is Some,
        ensures
            if old(self).status is Downloading || old(self).appid@.len() == 0 {
                &&& r is None
                &&& *final(self) == *old(self)
            } else {
                &&& r == parse_i32_spec(old(self).appid@)
                &&& final(self).active == old(self).active
                &&& final(self).appid == old(self).appid
                &&& final(self).status is Downloading
                &&& final(self).status->Downloading_0@ == "ManifestHub"@
            },
    {
        if !offers_download(&self.status) || self.appid.as_str().is_empty() {
            return None;
        }
        let appid = appid_of(self.appid.as_str());
        self.status = InstallStatus::Downloading("ManifestHub".to_owned());
        proof {
            reveal_strlit("ManifestHub");
        }
        appid
    }

    /// The app id field was edited: it keeps only its ASCII digits, in
    /// order.
    pub fn edit_appid(&mut self)
        ensures
            final(self).active == old(self).active,
            final(self).status == old(self).status,
            final(self).appid@ == digits_only(old(self).appid@),
            crate::num::all_digits(final(self).appid@),
    {
        self.appid = sanitize_appid(self.appid.as_str());
        proof {
            law_sanitize_appid(old(self).appid@);
        }
    }

    /// The install ended with `r`: the status shows it (see
    /// [`status_after`]), a successful install clears `loaded` so that the
    /// games are read again, and the text of the dialog to show is returned.
    pub fn finish_download(&mut self, r: Result<(), InstallError>, loaded: &mut bool) -> (msg:
        String)
        ensures
            final(self).active == old(self).active,
            final(self).appid == old(self).appid,
            final(self).status == status_after(r),
            *final(loaded) == (if r is Ok {
                false
            } else {
                *old(loaded)
            }),
            msg@ == dialog_message(status_after(r)),
    {
        let ok = r.is_ok();
        self.status = status_for(r);
        if ok {
            *loaded = false;
            "Lua file downloaded and installed!".to_owned()
        } else {
            failure_text(&self.status)
        }
    }

    /// The Clear button is pressed: it is offered only once an install has
    /// ended, and it sets the status back to `Idle`.
    pub fn clear(&mut self)
        ensures
            final(self).active == old(self).active,
            final(self).appid == old(self).appid,
            final(self).status == (if old(self).status is Idle || old(self).status is Downloading {
                old(self).status
            } else {
                InstallStatus::Idle
            }),
    {
        if offers_clear(&self.status) {
            self.status = InstallStatus::Idle;
        }
    }
}


/// Pushing a plain name (one starting with a letter or digit) on a folder
/// path that is not empty, does not end in a separator and is no bare drive
/// puts one separator between them.
proof fn lemma_push_plain(p: Platform, base: Seq<char>, name: Seq<char>)
    requires
        base.len() > 0,
        !is_sep(p, base.last()),
        !(has_drive(p, base) && base.len() == 2),
        name.len() > 2,
        name[1] != ':',
        !is_sep(p, name[0]),
    ensures
        push_spec(p, base, name) == sep_join(p, base, name),
{
}

proof fn lemma_sep_join_plain(p: Platform, base: Seq<char>, name: Seq<char>)
    requires
        base.len() > 0,
        name.len() > 0,
        !is_sep(p, name.last()),
    ensures
        sep_join(p, base, name).len() > 2,
        !is_sep(p, sep_join(p, base, name).last()),
{
    assert(sep_join(p, base, name).last() == name.last());
}

/// The folder where reading the games looks for Lua manifests is the one
/// that installs write to, for a Steam folder path that is not empty, does
/// not end in a separator and is no bare drive.
pub proof fn law_games_read_where_installs_write(p: Platform, path: Seq<char>)
    requires
        path.len() > 0,
        !is_sep(p, path.last()),
        !(has_drive(p, path) && path.len() == 2),
    ensures
        push_spec(p, push_spec(p, path, "config"@), "stplug-in"@) == lua_dir(p, path),
{
    reveal_strlit("config");
    reveal_strlit("stplug-in");
    lemma_push_plain(p, path, "config"@);
    lemma_sep_join_plain(p, path, "config"@);
    let cfg = sep_join(p, path, "config"@);
    assert(!has_drive(p, cfg) || cfg.len() != 2);
    lemma_push_plain(p, cfg, "stplug-in"@);
}

/// The file that the remove button deletes for app `n` is the one that
/// installing app `n` wrote, for a Steam folder path that is not empty, does
/// not end in a separator and is no bare drive.
pub proof fn law_remove_finds_installed(p: Platform, path: Seq<char>, n: u32)
    requires
        path.len() > 0,
        !is_sep(p, path.last()),
        !(has_drive(p, path) && path.len() == 2),
        n <= i32::MAX,
    ensures
        push_spec(p, push_all(p, seq![], seq![path, "config"@, "stplug-in"@]), crate::num::decimal(n as nat) + ".lua"@) == lua_dest(p, path, n as i32),
{
    let cs = seq![path, "config"@, "stplug-in"@];
    assert(cs.drop_last() =~= seq![path, "config"@]);
    assert(cs.drop_last().drop_last() =~= seq![path]);
    assert(cs.drop_last().drop_last().drop_last() =~= Seq::<Seq<char>>::empty());
    reveal_with_fuel(push_all, 4);
    assert(push_spec(p, seq![], path) =~= path);
    law_games_read_where_installs_write(p, path);
    reveal_strlit("stplug-in");
    let dir = lua_dir(p, path);
    lemma_sep_join_plain(p, sep_join(p, path, "config"@), "stplug-in"@);
    let d = crate::num::decimal(n as nat);
    crate::num::lemma_decimal_digits(n as nat);
    reveal_strlit(".lua");
    let name = d + ".lua"@;
    assert(crate::num::is_digit(name[0]));
    assert(name[1] == ':' ==> false) by {
        if d.len() > 1 {
            assert(crate::num::is_digit(d[1]));
        }
    }
    lemma_push_plain(p, dir, name);
}


/// After processing, a Lua manifest line is no live `setManifestid(` call,
/// and processing it again changes nothing.
pub proof fn law_comment_line(l: Seq<char>)
    ensures
        !(has_prefix(trim_start(comment_line(l)), "setManifestid("@) && !has_prefix(
            trim_start(comment_line(l)),
            "--"@,
        )),
        comment_line(comment_line(l)) == comment_line(l),
{
    reveal_strlit("--");
    let t = trim_start(l);
    if has_prefix(t, "setManifestid("@) && !has_prefix(t, "--"@) {
        let c = "--"@ + l;
        assert(c[0] == '-');
        assert(!crate::text::is_ws(c[0]));
        assert(trim_start(c) == c);
        assert(c.take(2) =~= "--"@);
    }
}

/// Commenting a line out keeps whether it is empty, whether it holds a line
/// feed, and whether it ends in a carriage return.
proof fn lemma_comment_line_shape(l: Seq<char>)
    ensures
        comment_line(l).len() > 0 <==> l.len() > 0,
        comment_line(l).contains('\n') <==> l.contains('\n'),
        l.len() > 0 ==> comment_line(l).last() == l.last(),
{
    reveal_strlit("--");
    if comment_line(l) != l {
        let c = "--"@ + l;
        assert(l.len() > 0) by {
            reveal_strlit("setManifestid(");
            if l.len() == 0 {
                assert(trim_start(l) == l);
            }
        }
        assert(c.last() == l.last());
        if c.contains('\n') {
            let j = choose|j: int| 0 <= j < c.len() && c[j] == '\n';
            assert(j >= 2);
            assert(l[j - 2] == '\n');
        }
        if l.contains('\n') {
            let j = choose|j: int| 0 <= j < l.len() && l[j] == '\n';
            assert(c[j + 2] == '\n');
        }
    }
}

/// Processing a Lua manifest a second time changes nothing, for a text whose
/// lines, but for the last, do not end in a carriage return (a line ending
/// `\r\r\n`) and, when it has two lines or more, whose last line is not
/// empty (a text ending in a blank line).
pub proof fn law_process_lua_twice(t: Seq<char>)
    requires
        forall|i: int|
            0 <= i < lines(t).len() - 1 ==> !((#[trigger] lines(t)[i]).len() > 0 && lines(
                t,
            )[i].last() == '\r'),
        lines(t).len() >= 2 ==> lines(t).last().len() > 0,
    ensures
        processed_lua(processed_lua(t)) == processed_lua(t),
{
    let ls = lines(t);
    let ps = ls.map_values(|l: Seq<char>| comment_line(l));
    crate::text::lemma_lines_no_feed(t);
    if ls.len() == 0 || ls.last().len() == 0 {
        if ls.len() == 1 {
            assert(processed_lua(t) == ps[0]);
            assert(ps[0] == comment_line(ls[0]));
            lemma_comment_line_shape(ls[0]);
            assert(processed_lua(t) =~= seq![]);
        }
        assert(processed_lua(t) =~= seq![]);
        assert(lines(Seq::<char>::empty()) =~= Seq::<Seq<char>>::empty());
    } else {
        assert forall|i: int| 0 <= i < ps.len() implies !(#[trigger] ps[i]).contains('\n') by {
            lemma_comment_line_shape(ls[i]);
        }
        assert forall|i: int| 0 <= i < ps.len() - 1 implies !((#[trigger] ps[i]).len() > 0
            && ps[i].last() == '\r') by {
            lemma_comment_line_shape(ls[i]);
        }
        lemma_comment_line_shape(ls.last());
        crate::text::lemma_lines_of_join(ps);
        assert forall|i: int| 0 <= i < ps.len() implies #[trigger] comment_line(ps[i]) == ps[i] by {
            law_comment_line(ls[i]);
        }
        assert(ps.map_values(|l: Seq<char>| comment_line(l)) =~= ps);
    }
}

proof fn lemma_filter_keeps_all(s: Seq<char>)
    requires
        forall|i: int| 0 <= i < s.len() ==> is_digit(#[trigger] s[i]),
    ensures
        digits_only(s) == s,
    decreases s.len(),
{
    reveal_with_fuel(Seq::filter, 1);
    if s.len() > 0 {
        lemma_filter_keeps_all(s.drop_last());
        assert(s.drop_last().push(s.last()) =~= s);
    }
}

/// An app id field that holds only ASCII digits is left as it is by
/// cleaning: digits typed stay, and nothing else is changed.
pub proof fn law_digit_field_kept(s: Seq<char>)
    requires
        crate::num::all_digits(s),
    ensures
        digits_only(s) == s,
{
    lemma_filter_keeps_all(s);
}

/// The app id field keeps only ASCII digits, and cleaning it again changes
/// nothing.
pub proof fn law_sanitize_appid(s: Seq<char>)
    ensures
        crate::num::all_digits(digits_only(s)),
        digits_only(digits_only(s)) == digits_only(s),
{
    let d = digits_only(s);
    assert forall|i: int| 0 <= i < d.len() implies is_digit(#[trigger] d[i]) by {
        s.lemma_filter_pred(|c: char| is_digit(c), i);
    }
    lemma_filter_keeps_all(d);
}


/// The folder that installs go to always exists with its `steamapps` among
/// the probed paths, and is either the Debian package variant or the trimmed
/// folder the user gave; the Debian variant wins when both qualify; and when
/// neither exists with its `steamapps`, no folder is found.
pub proof fn law_install_folder_holds_steamapps(p: Platform, user: Seq<char>, existing: Seq<String>)
    ensures
        install_steam_path(p, user, existing) matches Some(t) ==> {
            &&& listed(existing, t)
            &&& listed(existing, sep_join(p, t, "steamapps"@))
            &&& (t == trim(user) || t == sep_join(p, trim(user), "debian-installation"@))
        },
        ({
            let deb = sep_join(p, trim(user), "debian-installation"@);
            listed(existing, deb) && listed(existing, sep_join(p, deb, "steamapps"@))
                ==> install_steam_path(p, user, existing) == Some(deb)
        }),
        ({
            let deb = sep_join(p, trim(user), "debian-installation"@);
            let u = trim(user);
            !(listed(existing, deb) && listed(existing, sep_join(p, deb, "steamapps"@))) && !(
            listed(existing, u) && listed(existing, sep_join(p, u, "steamapps"@)))
                ==> install_steam_path(p, user, existing) is None
        }),
{
}

} // verus!

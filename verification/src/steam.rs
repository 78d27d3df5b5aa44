//! Steam installations and the games they hold.

use vstd::prelude::*;

use crate::paths::{push_path, push_spec, Platform};
use crate::text::{chars_of, string_of};

verus! {

/// What the store reports of an app.
#[derive(Debug)]
pub struct AppData {
    pub app_type: String,
    pub name: String,
    pub header_image: String,
}

/// The store's answer for one app id.
#[derive(Debug)]
pub struct GameDetails {
    pub success: bool,
    pub data: Option<AppData>,
}

/// A game known to the tool: its app id, store details, whether Steam has it
/// installed, and the folder it is installed in.
#[derive(Debug)]
pub struct Game {
    pub appid: u32,
    pub details: AppData,
    pub installed: bool,
    pub path: String,
}

/// Where Steam lives and how the tool is set up for it; `cfg` is the folder
/// that holds the Lua manifests.
#[derive(Debug)]
pub struct Steam {
    pub path: String,
    pub mod_id: String,
    pub cfg: String,
    pub melon_loader: bool,
}

/// The text of an [`AppData`].
pub struct AppDataModel {
    pub app_type: Seq<char>,
    pub name: Seq<char>,
    pub header_image: Seq<char>,
}

/// A [`Game`] with its text fields as character sequences.
pub struct GameModel {
    pub appid: u32,
    pub details: AppDataModel,
    pub installed: bool,
    pub path: Seq<char>,
}

impl View for AppData {
    type V = AppDataModel;

    open spec fn view(&self) -> AppDataModel {
        AppDataModel {
            app_type: self.app_type@,
            name: self.name@,
            header_image: self.header_image@,
        }
    }
}

impl View for Game {
    type V = GameModel;

    open spec fn view(&self) -> GameModel {
        GameModel {
            appid: self.appid,
            details: self.details@,
            installed: self.installed,
            path: self.path@,
        }
    }
}

/// Details with every text empty.
pub open spec fn empty_app_data() -> AppDataModel {
    AppDataModel { app_type: seq![], name: seq![], header_image: seq![] }
}

impl Clone for AppData {
    fn clone(&self) -> (r: Self)
        ensures
            r == *self,
    {
        AppData {
            app_type: self.app_type.clone(),
            name: self.name.clone(),
            header_image: self.header_image.clone(),
        }
    }
}

impl Clone for Game {
    fn clone(&self) -> (r: Self)
        ensures
            r == *self,
    {
        Game {
            appid: self.appid,
            details: self.details.clone(),
            installed: self.installed,
            path: self.path.clone(),
        }
    }
}

impl Default for AppData {
    fn default() -> (r: Self)
        ensures
            r@ == empty_app_data(),
    {
        let r = AppData {
            app_type: String::new(),
            name: String::new(),
            header_image: String::new(),
        };
        assert(r@ =~= empty_app_data());
        r
    }
}

impl Default for GameDetails {
    fn default() -> (r: Self)
        ensures
            !r.success,
            r.data is None,
    {
        GameDetails { success: false, data: None }
    }
}

impl Default for Game {
    fn default() -> (r: Self)
        ensures
            r@ == (GameModel { appid: 0, details: empty_app_data(), installed: false, path: seq![] }),
    {
        let r = Game { appid: 0, details: AppData::default(), installed: false, path: String::new() };
        assert(r.path@ =~= seq![]);
        r
    }
}

impl Default for Steam {
    fn default() -> (r: Self)
        ensures
            r.path@.len() == 0,
            r.mod_id@.len() == 0,
            r.cfg@.len() == 0,
            !r.melon_loader,
    {
        Steam { path: String::new(), mod_id: String::new(), cfg: String::new(), melon_loader: false }
    }
}

impl Game {
    /// A game with app id 0, empty details, not installed, with no folder.
    pub fn new() -> (r: Self)
        ensures
            r@ == (GameModel { appid: 0, details: empty_app_data(), installed: false, path: seq![] }),
    {
        Game::default()
    }
}

/// Where Steam is installed by default on each platform.
pub open spec fn default_steam_path(p: Platform) -> Seq<char> {
    match p {
        Platform::Windows => "C:\\Program Files (x86)\\Steam"@,
        Platform::MacOs => "~/Library/Application Support/Steam"@,
        Platform::Linux => "~/.local/share/Steam"@,
        Platform::Other => seq![],
    }
}

impl Steam {
    /// Settings for the Steam installation at `path`, or at the platform's
    /// default place when no path is given.
    pub fn new(path: Option<String>, platform: Platform) -> (r: Self)
        ensures
            r.path@ == match path {
                Some(p) => p@,
                None => default_steam_path(platform),
            },
            r.mod_id@.len() == 0,
            r.cfg@.len() == 0,
            !r.melon_loader,
    {
        let mut steam = Steam::default();
        match path {
            Some(p) => {
                steam.path = p;
            },
            None => {
                match platform {
                    Platform::Windows => {
                        steam.path = "C:\\Program Files (x86)\\Steam".to_owned();
                    },
                    Platform::MacOs => {
                        steam.path = "~/Library/Application Support/Steam".to_owned();
                    },
                    Platform::Linux => {
                        steam.path = "~/.local/share/Steam".to_owned();
                    },
                    Platform::Other => {},
                }
            },
        }
        steam
    }
}

/// Some path in `existing` reads `path`.
pub open spec fn listed(existing: Seq<String>, path: Seq<char>) -> bool {
    exists|i: int| 0 <= i < existing.len() && (#[trigger] existing[i])@ == path
}

/// Whether `path` is among `existing`.
pub fn is_listed(existing: &Vec<String>, path: &String) -> (r: bool)
    ensures
        r == listed(existing@, path@),
{
    for i in 0..existing.len()
        invariant
            forall|j: int| 0 <= j < i ==> (#[trigger] existing@[j])@ != path@,
    {
        if existing[i] == *path {
            return true;
        }
    }
    false
}

/// The folder of a Debian package install of Steam under `base`.
pub open spec fn debian_variant(p: Platform, base: Seq<char>) -> Seq<char> {
    push_spec(p, base, "debian-installation"@)
}

/// The Steam folder that the tool works in: outside Windows, the Debian
/// package variant under `base` when it exists and holds `steamapps`;
/// `base` itself otherwise.
pub open spec fn real_steam_path(p: Platform, base: Seq<char>, existing: Seq<String>) -> Seq<
    char,
> {
    let deb = debian_variant(p, base);
    if p != Platform::Windows && listed(existing, deb) && listed(
        existing,
        push_spec(p, deb, "steamapps"@),
    ) {
        deb
    } else {
        base
    }
}

/// The paths whose existence decides [`detect_real_steam_path`].
pub fn steam_path_probes(base_path: &str, platform: Platform) -> (r: Vec<String>)
    ensures
        r@.len() == 2,
        r@[0]@ == debian_variant(platform, base_path@),
        r@[1]@ == push_spec(platform, debian_variant(platform, base_path@), "steamapps"@),
{
    let deb = push_path(platform, &chars_of(base_path), &chars_of("debian-installation"));
    let apps = push_path(platform, &deb, &chars_of("steamapps"));
    let mut r: Vec<String> = Vec::new();
    r.push(string_of(&deb));
    r.push(string_of(&apps));
    r
}

/// The Steam folder to work in, given which of the probed paths exist.
pub fn detect_real_steam_path(base_path: &str, platform: Platform, existing: &Vec<String>) -> (r:
    String)
    ensures
        r@ == real_steam_path(platform, base_path@, existing@),
{
    if platform == Platform::Windows {
        return base_path.to_owned();
    }
    let probes = steam_path_probes(base_path, platform);
    if is_listed(existing, &probes[0]) && is_listed(existing, &probes[1]) {
        probes[0].clone()
    } else {
        base_path.to_owned()
    }
}

} // verus!

//! The decisions of the main window: which screen is kept between runs, the
//! search filter, and the paths and links its buttons use.

use std::collections::HashMap;

use vstd::prelude::*;

use crate::num::{decimal, decimal_of, parse_u32, parse_u32_spec};
use crate::paths::{file_stem, file_stem_of, push_all, push_path, push_spec, Platform};
use crate::games::game_models;
use crate::steam::{Game, Steam};
use crate::text::{
    chars_of, concat, has_prefix, lowercase, same_chars, starts_with, string_of, to_lowercase,
};

verus! {

/// The screen the main window shows.
#[derive(Clone, Copy, PartialEq, Eq, Debug, Structural)]
pub enum State {
    Setup,
    MainMenu,
    Settings,
}

impl Default for State {
    fn default() -> (r: Self)
        ensures
            r == State::Setup,
    {
        State::Setup
    }
}

/// The screen stored when the window closes: the setup screen stays, any
/// other becomes the main menu.
pub open spec fn saved_screen(s: State) -> State {
    if s == State::Setup {
        State::Setup
    } else {
        State::MainMenu
    }
}

/// The screen stored when the window closes (see [`saved_screen`]).
pub fn saved_state(s: State) -> (r: State)
    ensures
        r == saved_screen(s),
{
    match s {
        State::Setup => State::Setup,
        _ => State::MainMenu,
    }
}

/// What happens on a frame that may change the screen.
#[derive(Clone, Copy, Debug)]
pub enum ScreenEvent {
    /// The Validate button, for a path that is empty or not, whose probe
    /// ([`setup_probe`]) exists or not.
    Validate { path_empty: bool, probe_exists: bool },
    /// The settings (gear) button.
    Gear,
    /// The Back button.
    Back,
    /// A frame without any of these.
    Nothing,
}

/// The screen after event `e` on screen `s`: the setup screen moves to the
/// main menu on Validate with a path that is not empty and whose probe
/// exists; the main menu moves to the settings on the gear button; the
/// settings move back to the main menu on Back. The buttons exist only on
/// those screens, and no other event changes the screen.
pub open spec fn screen_next(s: State, e: ScreenEvent) -> State {
    match (s, e) {
        (State::Setup, ScreenEvent::Validate { path_empty, probe_exists }) => if !path_empty
            && probe_exists {
            State::MainMenu
        } else {
            State::Setup
        },
        (State::MainMenu, ScreenEvent::Gear) => State::Settings,
        (State::Settings, ScreenEvent::Back) => State::MainMenu,
        _ => s,
    }
}

/// Changes the screen on event `e` (see [`screen_next`]).
pub fn screen_step(state: &mut State, e: ScreenEvent)
    ensures
        *final(state) == screen_next(*old(state), e),
{
    let next = match (*state, e) {
        (State::Setup, ScreenEvent::Validate { path_empty, probe_exists }) => if !path_empty
            && probe_exists {
            State::MainMenu
        } else {
            State::Setup
        },
        (State::MainMenu, ScreenEvent::Gear) => State::Settings,
        (State::Settings, ScreenEvent::Back) => State::MainMenu,
        (s, _) => s,
    };
    *state = next;
}

/// The screen after the events `es`, one per frame, from screen `s`.
pub open spec fn screen_after(s: State, es: Seq<ScreenEvent>) -> State
    decreases es.len(),
{
    if es.len() == 0 {
        s
    } else {
        screen_next(screen_after(s, es.drop_last()), es.last())
    }
}

/// Each screen change is one of three: setup to the main menu by Validate
/// with a path that is not empty and whose probe exists, the main menu to
/// the settings by the gear button, the settings to the main menu by Back.
pub proof fn law_screen_changes(s: State, e: ScreenEvent)
    ensures
        screen_next(s, e) != s ==> {
            ||| s == State::Setup && screen_next(s, e) == State::MainMenu && (e matches ScreenEvent::Validate {
                path_empty,
                probe_exists,
            } && !path_empty && probe_exists)
            ||| s == State::MainMenu && screen_next(s, e) == State::Settings && e is Gear
            ||| s == State::Settings && screen_next(s, e) == State::MainMenu && e is Back
        },
{
}

/// Once the setup screen is left, no run of frames comes back to it.
pub proof fn law_setup_not_reentered(s: State, es: Seq<ScreenEvent>)
    requires
        s != State::Setup,
    ensures
        screen_after(s, es) != State::Setup,
    decreases es.len(),
{
    if es.len() > 0 {
        law_setup_not_reentered(s, es.drop_last());
    }
}

/// From the setup screen, a run of frames leaves it only by a Validate with
/// a path that is not empty and whose probe exists.
pub proof fn law_setup_left_only_by_validation(es: Seq<ScreenEvent>)
    requires
        screen_after(State::Setup, es) != State::Setup,
    ensures
        exists|i: int|
            0 <= i < es.len() && (#[trigger] es[i] matches ScreenEvent::Validate {
                path_empty,
                probe_exists,
            } && !path_empty && probe_exists),
    decreases es.len(),
{
    let front = es.drop_last();
    if screen_after(State::Setup, front) != State::Setup {
        law_setup_left_only_by_validation(front);
        let i = choose|i: int|
            0 <= i < front.len() && (#[trigger] front[i] matches ScreenEvent::Validate {
                path_empty,
                probe_exists,
            } && !path_empty && probe_exists);
        assert(es[i] == front[i]);
    } else {
        assert(es[es.len() - 1] == es.last());
    }
}

/// The settings screen is reached only from the main menu by the gear
/// button, and left only by Back.
pub proof fn law_settings_gear_and_back(s: State, e: ScreenEvent)
    ensures
        s != State::Settings && screen_next(s, e) == State::Settings ==> s == State::MainMenu
            && e is Gear,
        s == State::Settings && screen_next(s, e) != State::Settings ==> e is Back,
{
}

/// Which games the main window lists.
#[derive(Debug, PartialEq)]
pub enum Filter {
    /// All games.
    Everything,
    /// The game with this app id.
    Id(u32),
    /// Games whose name starts with this text, case aside.
    Name(String),
}

/// The filter for the text typed in the search bar: none when it is empty, an
/// app id when it reads as one, a name otherwise.
pub fn filter_for(search: &str) -> (r: Filter)
    ensures
        match r {
            Filter::Everything => search@.len() == 0,
            Filter::Id(id) => search@.len() > 0 && parse_u32_spec(search@) == Some(id),
            Filter::Name(n) => search@.len() > 0 && parse_u32_spec(search@) is None && n@
                == search@,
        },
{
    if search.is_empty() {
        return Filter::Everything;
    }
    match parse_u32(&chars_of(search)) {
        Some(id) => Filter::Id(id),
        None => Filter::Name(search.to_owned()),
    }
}

/// The game `id` named `name` is listed under filter `f`.
pub open spec fn shown(f: Filter, id: u32, name: Seq<char>) -> bool {
    match f {
        Filter::Everything => true,
        Filter::Id(x) => x == id,
        Filter::Name(n) => has_prefix(lowercase(name), lowercase(n@)),
    }
}

/// Whether the game `id` named `name` is listed under filter `f`.
pub fn is_shown(f: &Filter, id: u32, name: &str) -> (r: bool)
    ensures
        r == shown(*f, id, name@),
{
    match f {
        Filter::Everything => true,
        Filter::Id(x) => *x == id,
        Filter::Name(n) => {
            let a = to_lowercase(name);
            let b = to_lowercase(n.as_str());
            starts_with(&chars_of(a.as_str()), &chars_of(b.as_str()))
        },
    }
}

/// The Lua manifest folder under the Steam folder `path`, as a fresh
/// `PathBuf` gets it with `path`, `config` and `stplug-in` pushed.
pub open spec fn plugin_dir(p: Platform, path: Seq<char>) -> Seq<char> {
    push_all(p, seq![], seq![path, "config"@, "stplug-in"@])
}

fn plugin_dir_of(p: Platform, path: &str) -> (r: Vec<char>)
    ensures
        r@ == plugin_dir(p, path@),
{
    let a = push_path(p, &Vec::new(), &chars_of(path));
    let b = push_path(p, &a, &chars_of("config"));
    let c = push_path(p, &b, &chars_of("stplug-in"));
    proof {
        let cs = seq![path@, "config"@, "stplug-in"@];
        assert(cs.drop_last() =~= seq![path@, "config"@]);
        assert(cs.drop_last().drop_last() =~= seq![path@]);
        assert(cs.drop_last().drop_last().drop_last() =~= Seq::<Seq<char>>::empty());
        reveal_with_fuel(push_all, 4);
    }
    c
}

/// Fills in the Lua manifest folder of settings that lack one.
pub fn ensure_cfg(st: &mut Steam, platform: Platform)
    ensures
        final(st).path == old(st).path,
        final(st).mod_id == old(st).mod_id,
        final(st).melon_loader == old(st).melon_loader,
        final(st).cfg@ == (if old(st).cfg@.len() == 0 {
            plugin_dir(platform, old(st).path@)
        } else {
            old(st).cfg@
        }),
{
    if st.cfg.as_str().is_empty() {
        st.cfg = string_of(&plugin_dir_of(platform, st.path.as_str()));
    }
}

/// The Steam link that asks Steam to install (or uninstall) app `appid`.
pub fn steam_uri(uninstall: bool, appid: u32) -> (r: String)
    ensures
        r@ == (if uninstall {
            "steam://uninstall/"@
        } else {
            "steam://install/"@
        }) + decimal(appid as nat),
{
    let head = if uninstall {
        chars_of("steam://uninstall/")
    } else {
        chars_of("steam://install/")
    };
    string_of(&concat(&head, &decimal_of(appid as u64)))
}

/// The Lua manifest file of app `appid` under the Steam folder `path`.
pub fn lua_file(path: &str, appid: u32, platform: Platform) -> (r: String)
    ensures
        r@ == push_spec(platform, plugin_dir(platform, path@), decimal(appid as nat) + ".lua"@),
{
    let dir = plugin_dir_of(platform, path);
    let name = concat(&decimal_of(appid as u64), &chars_of(".lua"));
    string_of(&push_path(platform, &dir, &name))
}

/// The saved header image of app `appid`, as a path.
pub fn icon_file(appid: u32, platform: Platform) -> (r: String)
    ensures
        r@ == push_spec(platform, "icons"@, decimal(appid as nat) + ".jpg"@),
{
    let name = concat(&decimal_of(appid as u64), &chars_of(".jpg"));
    string_of(&push_path(platform, &chars_of("icons"), &name))
}

/// The saved header image of app `appid`, as a link for the image loader.
pub fn icon_uri(appid: u32) -> (r: String)
    ensures
        r@ == "file://icons/"@ + decimal(appid as nat) + ".jpg"@,
{
    let a = concat(&chars_of("file://icons/"), &decimal_of(appid as u64));
    string_of(&concat(&a, &chars_of(".jpg")))
}

/// `Path::file_stem` of a chosen file.
pub fn path_file_stem(path: &str, platform: Platform) -> (r: Option<String>)
    ensures
        match r {
            Some(s) => file_stem(platform, path@) == Some(s@),
            None => file_stem(platform, path@) is None,
        },
{
    match file_stem_of(platform, &chars_of(path)) {
        Some(s) => Some(string_of(&s)),
        None => None,
    }
}

/// Where the chosen Lua files are copied: each file goes to the Lua manifest
/// folder, under its own stem with `.lua` appended.
pub open spec fn load_targets(p: Platform, path: Seq<char>, stems: Seq<Seq<char>>) -> Seq<
    Seq<char>,
> {
    Seq::new(stems.len(), |k: int| push_spec(p, plugin_dir(p, path), stems[k]) + ".lua"@)
}

pub open spec fn string_views(v: Seq<String>) -> Seq<Seq<char>> {
    v.map_values(|s: String| s@)
}

/// The files that the chosen Lua files are copied to (see [`load_targets`]).
pub fn load_lua_targets(path: &str, stems: &Vec<String>, platform: Platform) -> (r: Vec<String>)
    ensures
        string_views(r@) == load_targets(platform, path@, string_views(stems@)),
{
    let ghost sv = string_views(stems@);
    let dir = plugin_dir_of(platform, path);
    let lua = chars_of(".lua");
    let mut out: Vec<String> = Vec::new();
    for i in 0..stems.len()
        invariant
            sv == string_views(stems@),
            lua@ == ".lua"@,
            dir@ == plugin_dir(platform, path@),
            string_views(out@) == load_targets(platform, path@, sv).take(i as int),
    {
        let file = push_path(platform, &dir, &chars_of(stems[i].as_str()));
        let ghost before = string_views(out@);
        out.push(string_of(&concat(&file, &lua)));
        let ghost lt = load_targets(platform, path@, sv);
        assert(string_views(out@) =~= before.push(file@ + lua@));
        assert(lt[i as int] == file@ + ".lua"@);
        assert(lt.take(i + 1) =~= lt.take(i as int).push(lt[i as int]));
    }
    assert(load_targets(platform, path@, sv).take(stems@.len() as int) =~= load_targets(
        platform,
        path@,
        sv,
    ));
    out
}

/// The path whose existence shows that a folder holds Steam: `steam.exe` on
/// Windows, `steamapps` elsewhere.
pub fn setup_probe(path: &str, platform: Platform) -> (r: String)
    ensures
        r@ == push_spec(
            platform,
            path@,
            if platform == Platform::Windows {
                "steam.exe"@
            } else {
                "steamapps"@
            },
        ),
{
    let name = if platform == Platform::Windows {
        chars_of("steam.exe")
    } else {
        chars_of("steamapps")
    };
    string_of(&push_path(platform, &chars_of(path), &name))
}

/// A message dialog: its title and its text.
pub struct Notice {
    pub title: String,
    pub text: String,
}

/// The Validate button of the setup screen is pressed, `probe_exists`
/// telling whether [`setup_probe`] of the path exists. With an empty path no
/// button is offered: nothing happens (`None`). Otherwise the screen changes
/// as [`screen_next`] says (from setup to the main menu when the probe
/// exists), with a dialog that says so, and with an error dialog naming the
/// path when the probe does not exist.
pub fn validate_setup(state: &mut State, path: &str, probe_exists: bool) -> (r: Option<Notice>)
    ensures
        *final(state) == screen_next(
            *old(state),
            ScreenEvent::Validate { path_empty: path@.len() == 0, probe_exists },
        ),
        path@.len() == 0 ==> r is None,
        path@.len() > 0 ==> (r matches Some(n) && if probe_exists {
            &&& n.title@ == "Info"@
            &&& n.text@ == "Path for Steamtools successfully set to "@ + path@
        } else {
            &&& n.title@ == "Error"@
            &&& n.text@ == "Steam is not installed in "@ + path@
                + ". Please choose a path where you installed Steam."@
        }),
{
    screen_step(state, ScreenEvent::Validate { path_empty: path.is_empty(), probe_exists });
    if path.is_empty() {
        return None;
    }
    let p = chars_of(path);
    if probe_exists {
        let text = concat(&chars_of("Path for Steamtools successfully set to "), &p);
        Some(Notice { title: "Info".to_owned(), text: string_of(&text) })
    } else {
        let text = concat(
            &concat(&chars_of("Steam is not installed in "), &p),
            &chars_of(". Please choose a path where you installed Steam."),
        );
        Some(Notice { title: "Error".to_owned(), text: string_of(&text) })
    }
}

/// The Remove button is pressed for app `appid`: the files to delete (its Lua
/// manifest and its saved header image; a failed deletion is ignored), and
/// the game is marked to be dropped on the next frame.
pub fn request_removal(path: &str, appid: u32, platform: Platform, request: &mut Option<u32>) -> (r: (
    String,
    String,
))
    ensures
        r.0@ == push_spec(platform, plugin_dir(platform, path@), decimal(appid as nat) + ".lua"@),
        r.1@ == push_spec(platform, "icons"@, decimal(appid as nat) + ".jpg"@),
        *final(request) == Some(appid),
{
    *request = Some(appid);
    (lua_file(path, appid, platform), icon_file(appid, platform))
}

/// At the start of a frame, a game marked for removal is dropped: the
/// selection is cleared, the game leaves the list, the games are to be read
/// again, and the mark is taken away. Without a mark nothing changes.
pub fn apply_delete_request(
    games: &mut HashMap<u32, Game>,
    selected: &mut u32,
    loaded: &mut bool,
    request: &mut Option<u32>,
)
    ensures
        *final(request) == None::<u32>,
        match *old(request) {
            Some(id) => {
                &&& game_models(final(games)@) == game_models(old(games)@).remove(id)
                &&& *final(selected) == 0
                &&& !*final(loaded)
            },
            None => {
                &&& final(games)@ == old(games)@
                &&& *final(selected) == *old(selected)
                &&& *final(loaded) == *old(loaded)
            },
        },
{
    match request.take() {
        Some(id) => {
            *selected = 0;
            let ghost before = game_models(games@);
            games.remove(&id);
            assert(game_models(games@) =~= before.remove(id));
            *loaded = false;
        },
        None => {},
    }
}

/// The screen shown at start-up, and whether the stored data of an older
/// version is to be cleared (see [`restored_state`]).
pub open spec fn restored_screen(
    stored_version: Option<Seq<char>>,
    current: Seq<char>,
    storage_dir_exists: bool,
    stored_state: Option<State>,
) -> (State, bool) {
    match stored_version {
        None => (State::Setup, false),
        Some(v) => if v != current && storage_dir_exists {
            (State::Setup, true)
        } else {
            (
                match stored_state {
                    Some(s) => s,
                    None => State::Setup,
                },
                false,
            )
        },
    }
}

/// What is saved is what comes back: under the same version, the screen
/// stored on closing from screen `s` is the one shown at the next start (the
/// setup screen stays setup, any other is the main menu), and nothing is
/// cleared.
pub proof fn law_saved_screen_restored(s: State, version: Seq<char>, storage_dir_exists: bool)
    ensures
        restored_screen(Some(version), version, storage_dir_exists, Some(saved_screen(s))) == (
            saved_screen(s),
            false,
        ),
        saved_screen(s) == State::Setup <==> s == State::Setup,
{
}

/// The screen shown at start-up, and whether the stored data of an older
/// version is to be cleared. With no stored version, the setup screen. When
/// the stored version differs from `current` and the storage folder exists,
/// the stored data is cleared and setup is shown again. Otherwise the stored
/// screen, or setup when none is stored.
pub fn restored_state(
    stored_version: Option<&str>,
    current: &str,
    storage_dir_exists: bool,
    stored_state: Option<State>,
) -> (r: (State, bool))
    ensures
        r == restored_screen(
            match stored_version {
                Some(v) => Some(v@),
                None => None,
            },
            current@,
            storage_dir_exists,
            stored_state,
        ),
{
    match stored_version {
        None => (State::Setup, false),
        Some(v) => {
            if !same_chars(&chars_of(v), &chars_of(current)) && storage_dir_exists {
                (State::Setup, true)
            } else {
                match stored_state {
                    Some(s) => (s, false),
                    None => (State::Setup, false),
                }
            }
        },
    }
}

/// Where the unlocking library is written in the Steam folder `path`.
pub fn hook_dll_path(path: &str) -> (r: String)
    ensures
        r@ == path@ + "\\xinput1_4.dll"@,
{
    string_of(&concat(&chars_of(path), &chars_of("\\xinput1_4.dll")))
}


/// Under a name filter, a game is listed exactly when its lowercased name is
/// the lowercased filter text followed by something (maybe nothing), whatever
/// its app id; so a game whose lowercased name is shorter than the lowercased
/// filter text is never listed, and one whose lowercased name equals it is.
pub proof fn law_name_filter_is_prefix(n: String, id: u32, name: Seq<char>)
    ensures
        shown(Filter::Name(n), id, name) <==> exists|t: Seq<char>| lowercase(name) == lowercase(n@)
            + t,
        lowercase(name).len() < lowercase(n@).len() ==> !shown(Filter::Name(n), id, name),
        lowercase(name) == lowercase(n@) ==> shown(Filter::Name(n), id, name),
        forall|other: u32| shown(Filter::Name(n), other, name) == shown(Filter::Name(n), id, name),
{
    let a = lowercase(name);
    let b = lowercase(n@);
    if shown(Filter::Name(n), id, name) {
        let t = a.skip(b.len() as int);
        assert(a == b + t) by {
            assert(a =~= a.take(b.len() as int) + t);
        }
    }
    if exists|t: Seq<char>| a == b + t {
        let t = choose|t: Seq<char>| a == b + t;
        assert(a.take(b.len() as int) =~= b);
    }
    if a == b {
        assert(a.take(b.len() as int) =~= b);
    }
}

} // verus!

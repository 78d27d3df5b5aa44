//! Finding the games of a Steam installation: the app manifests Steam keeps
//! in `steamapps`, the Lua manifests in `config/stplug-in`, and the store
//! details fetched for them.

use std::collections::HashMap;

use vstd::prelude::*;

use crate::num::{parse_u32, parse_u32_spec};
use crate::paths::{push_path, push_spec, stem, stem_of, Platform};
use crate::steam::{empty_app_data, AppData, AppDataModel, Game, GameDetails, GameModel};
use crate::text::{
    byte_slice, byte_slice_of, chars_of, concat, has_prefix, has_suffix, lines, lines_of, slice,
    starts_with, ends_with, string_of, trim, trim_chars, utf8_len, utf8_len_of, views,
};

verus! {

broadcast use vstd::std_specs::hash::group_hash_axioms;

/// A file of the `steamapps` folder: its name and, for app manifests, the
/// text it holds.
#[derive(Clone, Debug)]
pub struct ListedFile {
    pub name: String,
    pub text: Option<String>,
}

/// The characters between `appmanifest_` and `.acf` when `name` has that
/// form.
pub open spec fn manifest_id_part(name: Seq<char>) -> Option<Seq<char>> {
    if has_prefix(name, "appmanifest_"@) && has_suffix(name, ".acf"@) {
        Some(name.subrange("appmanifest_"@.len() as int, name.len() - ".acf"@.len()))
    } else {
        None
    }
}

/// What follows `"name"` on a line that starts with it (after whitespace).
pub open spec fn name_value(line: Seq<char>) -> Option<Seq<char>> {
    let t = trim(line);
    if has_prefix(t, "\"name\""@) {
        Some(t.skip("\"name\""@.len() as int))
    } else {
        None
    }
}

/// The folder name cut from the value of a `"name"` line: the trimmed value
/// from its second byte up to three bytes before the end of the untrimmed
/// value; `None` where that cut panics.
pub open spec fn folder_of_value(v: Seq<char>) -> Option<Seq<char>> {
    let n = utf8_len(v);
    if n < 3 {
        None
    } else {
        byte_slice(trim(v), 1, n - 3)
    }
}

/// The folder named by the last `"name"` line among `ls`: `Some(None)` when
/// no line names one, `None` when some `"name"` line cannot be cut.
pub open spec fn manifest_folder(ls: Seq<Seq<char>>) -> Option<Option<Seq<char>>>
    decreases ls.len(),
{
    if ls.len() == 0 {
        Some(None)
    } else {
        match manifest_folder(ls.drop_last()) {
            None => None,
            Some(prev) => match name_value(ls.last()) {
                None => Some(prev),
                Some(v) => match folder_of_value(v) {
                    None => None,
                    Some(f) => Some(Some(f)),
                },
            },
        }
    }
}

/// Where Steam installs the game whose folder is named `folder`.
pub open spec fn game_dir(p: Platform, base: Seq<char>, folder: Seq<char>) -> Seq<char> {
    push_spec(p, push_spec(p, push_spec(p, base, "steamapps"@), "common"@), folder)
}

/// The app manifests read so far: for each app id the manifest file name,
/// and the install folder of the apps whose manifest names one.
pub struct IndexModel {
    pub installed: Map<u32, Seq<char>>,
    pub paths: Map<u32, Seq<char>>,
}

/// The installed apps of a Steam folder, by app id.
pub struct InstalledIndex {
    pub installed: HashMap<u32, String>,
    pub paths: HashMap<u32, String>,
}

pub open spec fn string_map(m: Map<u32, String>) -> Map<u32, Seq<char>> {
    m.map_values(|s: String| s@)
}

impl View for InstalledIndex {
    type V = IndexModel;

    open spec fn view(&self) -> IndexModel {
        IndexModel { installed: string_map(self.installed@), paths: string_map(self.paths@) }
    }
}

/// The index after reading file `f`; `None` where reading it panics (an app
/// manifest whose id is no `u32`, whose text is missing, or whose `"name"`
/// line cannot be cut).
pub open spec fn index_step(ix: IndexModel, f: ListedFile, p: Platform, base: Seq<char>) -> Option<
    IndexModel,
> {
    match manifest_id_part(f.name@) {
        None => Some(ix),
        Some(part) => match (parse_u32_spec(part), f.text) {
            (Some(id), Some(t)) => match manifest_folder(lines(t@)) {
                None => None,
                Some(folder) => Some(
                    IndexModel {
                        installed: ix.installed.insert(id, f.name@),
                        paths: match folder {
                            Some(d) => ix.paths.insert(id, game_dir(p, base, d)),
                            None => ix.paths,
                        },
                    },
                ),
            },
            _ => None,
        },
    }
}

/// The index of the files `fs`, read in order; `None` where reading panics.
pub open spec fn index_after(fs: Seq<ListedFile>, p: Platform, base: Seq<char>) -> Option<
    IndexModel,
>
    decreases fs.len(),
{
    if fs.len() == 0 {
        Some(IndexModel { installed: Map::empty(), paths: Map::empty() })
    } else {
        match index_after(fs.drop_last(), p, base) {
            None => None,
            Some(ix) => index_step(ix, fs.last(), p, base),
        }
    }
}

proof fn lemma_folder_none_stays(ls: Seq<Seq<char>>, k: int)
    requires
        0 <= k <= ls.len(),
        manifest_folder(ls.take(k)) is None,
    ensures
        manifest_folder(ls) is None,
    decreases ls.len() - k,
{
    if k < ls.len() {
        assert(ls.take(k + 1).drop_last() =~= ls.take(k));
        lemma_folder_none_stays(ls, k + 1);
    } else {
        assert(ls.take(k) =~= ls);
    }
}

proof fn lemma_index_none_stays(fs: Seq<ListedFile>, p: Platform, base: Seq<char>, k: int)
    requires
        0 <= k <= fs.len(),
        index_after(fs.take(k), p, base) is None,
    ensures
        index_after(fs, p, base) is None,
    decreases fs.len() - k,
{
    if k < fs.len() {
        assert(fs.take(k + 1).drop_last() =~= fs.take(k));
        lemma_index_none_stays(fs, p, base, k + 1);
    } else {
        assert(fs.take(k) =~= fs);
    }
}

/// The id part of an app manifest's file name (`appmanifest_<id>.acf`).
pub fn appmanifest_id_part(name: &str) -> (r: Option<String>)
    ensures
        match r {
            Some(s) => manifest_id_part(name@) == Some(s@),
            None => manifest_id_part(name@) is None,
        },
{
    let n = chars_of(name);
    let pre = chars_of("appmanifest_");
    let suf = chars_of(".acf");
    if starts_with(&n, &pre) && ends_with(&n, &suf) {
        proof {
            reveal_strlit("appmanifest_");
            reveal_strlit(".acf");
            if n@.len() < 16 {
                let k = n@.len() - 4;
                assert(n@.skip(k)[0] == '.');
                assert(n@.take(12)[k] == pre@[k]);
            }
        }
        let part = slice(&n, pre.len(), n.len() - suf.len());
        Some(string_of(&part))
    } else {
        None
    }
}

/// The folder named by a `"name"` line: `Some(None)` when `line` is no such
/// line, `None` when its value cannot be cut.
fn line_folder(line: &Vec<char>) -> (r: Option<Option<Vec<char>>>)
    ensures
        match r {
            Some(Some(f)) => name_value(line@) matches Some(v) && folder_of_value(v) == Some(f@),
            Some(None) => name_value(line@) is None,
            None => name_value(line@) matches Some(v) && folder_of_value(v) is None,
        },
{
    let t = trim_chars(line);
    let key = chars_of("\"name\"");
    if !starts_with(&t, &key) {
        return Some(None);
    }
    let v = slice(&t, key.len(), t.len());
    assert(v@ =~= t@.skip(key@.len() as int));
    let n = utf8_len_of(&v);
    if n < 3 {
        return None;
    }
    let tv = trim_chars(&v);
    match byte_slice_of(&tv, 1, n - 3) {
        Some(f) => Some(Some(f)),
        None => None,
    }
}

/// The install folder named by the manifest text `t`.
fn text_folder(t: &String) -> (r: Option<Option<Vec<char>>>)
    ensures
        r is None <==> manifest_folder(lines(t@)) is None,
        r matches Some(x) ==> manifest_folder(lines(t@)) == Some(
            match x {
                Some(f) => Some(f@),
                None => None,
            },
        ),
{
    let ls = lines_of(&chars_of(t.as_str()));
    let ghost lv = views(ls@);
    assert(lv == lines(t@));
    let mut cur: Option<Vec<char>> = None;
    for i in 0..ls.len()
        invariant
            lv == views(ls@),
            lv == lines(t@),
            manifest_folder(lv.take(i as int)) == Some(
                match cur {
                    Some(f) => Some(f@),
                    None => None,
                },
            ),
    {
        assert(lv.take(i + 1).drop_last() =~= lv.take(i as int));
        assert(lv.take(i + 1).last() == ls@[i as int]@);
        match line_folder(&ls[i]) {
            None => {
                proof {
                    assert(manifest_folder(lv.take(i + 1)) is None);
                    lemma_folder_none_stays(lv, i + 1);
                }
                return None;
            },
            Some(Some(f)) => {
                cur = Some(f);
            },
            Some(None) => {},
        }
    }
    assert(lv.take(ls@.len() as int) =~= lv);
    Some(cur)
}

fn try_index(base_path: &str, platform: Platform, files: &Vec<ListedFile>) -> (r: Option<
    InstalledIndex,
>)
    ensures
        match r {
            Some(ix) => index_after(files@, platform, base_path@) == Some(ix@),
            None => index_after(files@, platform, base_path@) is None,
        },
{
    let mut ix = InstalledIndex { installed: HashMap::new(), paths: HashMap::new() };
    assert(ix@.installed =~= Map::empty());
    assert(ix@.paths =~= Map::empty());
    let base = chars_of(base_path);
    let apps = push_path(platform, &base, &chars_of("steamapps"));
    let common = push_path(platform, &apps, &chars_of("common"));
    for i in 0..files.len()
        invariant
            index_after(files@.take(i as int), platform, base_path@) == Some(ix@),
            common@ == push_spec(platform, push_spec(platform, base_path@, "steamapps"@), "common"@),
    {
        assert(files@.take(i + 1).drop_last() =~= files@.take(i as int));
        let f = &files[i];
        match appmanifest_id_part(f.name.as_str()) {
            None => {},
            Some(part) => {
                let id = match parse_u32(&chars_of(part.as_str())) {
                    Some(id) => id,
                    None => {
                        proof {
                            lemma_index_none_stays(files@, platform, base_path@, i + 1);
                        }
                        return None;
                    },
                };
                let folder = match &f.text {
                    Some(t) => match text_folder(t) {
                        Some(folder) => folder,
                        None => {
                            proof {
                                lemma_index_none_stays(files@, platform, base_path@, i + 1);
                            }
                            return None;
                        },
                    },
                    None => {
                        proof {
                            lemma_index_none_stays(files@, platform, base_path@, i + 1);
                        }
                        return None;
                    },
                };
                let ghost old_ix = ix@;
                ix.installed.insert(id, f.name.clone());
                assert(ix@.installed =~= old_ix.installed.insert(id, f.name@));
                match folder {
                    Some(d) => {
                        let dir = push_path(platform, &common, &d);
                        ix.paths.insert(id, string_of(&dir));
                        assert(ix@.paths =~= old_ix.paths.insert(
                            id,
                            game_dir(platform, base_path@, d@),
                        ));
                    },
                    None => {},
                }
            },
        }
    }
    assert(files@.take(files@.len() as int) =~= files@);
    Some(ix)
}

/// Whether the files of `steamapps` can be read without a panic: every app
/// manifest among them has a `u32` id, its text, and `"name"` lines that cut.
pub fn manifests_readable(base_path: &str, platform: Platform, files: &Vec<ListedFile>) -> (r:
    bool)
    ensures
        r == (index_after(files@, platform, base_path@) is Some),
{
    try_index(base_path, platform, files).is_some()
}

/// The installed apps that the app manifests among `files` describe, with
/// install folders under `base_path`.
pub fn index_manifests(base_path: &str, platform: Platform, files: &Vec<ListedFile>) -> (r:
    InstalledIndex)
    requires
        index_after(files@, platform, base_path@) is Some,
    ensures
        index_after(files@, platform, base_path@) == Some(r@),
{
    match try_index(base_path, platform, files) {
        Some(ix) => ix,
        None => InstalledIndex { installed: HashMap::new(), paths: HashMap::new() },
    }
}


/// The store's details endpoint; the app id follows it.
pub const STEAM_URL: &'static str = "https://store.steampowered.com/api/appdetails?appids=";

/// The store's app list endpoint; an API key follows it.
pub const STEAM_APPLIST_URL: &'static str = "https://api.steampowered.com/IStoreService/GetAppList/v1/?key=";

/// An entry of a directory listing: its file name and whether it is a file.
#[derive(Clone, Debug)]
pub struct DirEntry {
    pub name: String,
    pub is_file: bool,
}

/// What asking the store about one Lua manifest gave.
pub enum Fetched {
    /// No request was made.
    Skipped,
    /// The answer could not be read.
    Failed,
    /// The answer, looked up under the manifest's file stem.
    Answered(Option<GameDetails>),
}

/// A request for the store details of one Lua manifest: the URL, and the key
/// under which the answer holds them.
pub struct FetchRequest {
    pub url: String,
    pub key: String,
}

/// A header image to save: where to get it and the file to write.
pub struct IconDownload {
    pub url: String,
    pub dest: String,
}

/// The app id a Lua manifest stands for: the stem of a file's name, read as
/// a number.
pub open spec fn plugin_appid(e: DirEntry) -> Option<u32> {
    if e.is_file {
        parse_u32_spec(stem(e.name@))
    } else {
        None
    }
}

/// An icon has been saved for `id` already.
pub open spec fn has_icon(icons: Option<Vec<u32>>, id: u32) -> bool {
    match icons {
        Some(v) => v@.contains(id),
        None => false,
    }
}

/// The app id whose details are asked for on entry `e`: a Lua manifest for
/// which no icon has been saved.
pub open spec fn wanted(e: DirEntry, icons: Option<Vec<u32>>) -> Option<u32> {
    match plugin_appid(e) {
        Some(id) => if has_icon(icons, id) {
            None
        } else {
            Some(id)
        },
        None => None,
    }
}

/// The details an answer carries, or empty ones.
pub open spec fn details_model(d: Option<GameDetails>) -> AppDataModel {
    match d {
        Some(gd) => match gd.data {
            Some(a) => a@,
            None => empty_app_data(),
        },
        None => empty_app_data(),
    }
}

/// The game recorded for `id` from the answer `d`: installed when Steam has
/// its app manifest, with the folder that manifest names.
pub open spec fn new_game(id: u32, d: Option<GameDetails>, ix: IndexModel) -> GameModel {
    let inst = ix.installed.contains_key(id);
    GameModel {
        appid: id,
        details: details_model(d),
        installed: inst,
        path: if inst {
            ix.paths[id]
        } else {
            seq![]
        },
    }
}

pub open spec fn game_models(m: Map<u32, Game>) -> Map<u32, GameModel> {
    m.map_values(|g: Game| g@)
}

/// The games after entry `e` of the Lua manifest folder, whose fetch gave `f`.
pub open spec fn games_step(
    m: Map<u32, GameModel>,
    e: DirEntry,
    icons: Option<Vec<u32>>,
    ix: IndexModel,
    f: Fetched,
) -> Map<u32, GameModel> {
    match (wanted(e, icons), f) {
        (Some(id), Fetched::Answered(d)) => m.insert(id, new_game(id, d, ix)),
        _ => m,
    }
}

/// The games after the entries `es` in order, `fs[i]` being the fetch for `es[i]`.
pub open spec fn games_after(
    m: Map<u32, GameModel>,
    es: Seq<DirEntry>,
    icons: Option<Vec<u32>>,
    ix: IndexModel,
    fs: Seq<Fetched>,
) -> Map<u32, GameModel>
    decreases es.len(),
{
    if es.len() == 0 {
        m
    } else {
        games_step(
            games_after(m, es.drop_last(), icons, ix, fs),
            es.last(),
            icons,
            ix,
            fs[es.len() - 1],
        )
    }
}

/// Some answered entry stands for an installed app whose manifest names no
/// folder: recording it panics.
pub open spec fn lacks_path(
    es: Seq<DirEntry>,
    icons: Option<Vec<u32>>,
    ix: IndexModel,
    fs: Seq<Fetched>,
) -> bool {
    exists|i: int|
        #![trigger es[i]]
        0 <= i < es.len() && fs[i] is Answered && match wanted(es[i], icons) {
            Some(id) => ix.installed.contains_key(id) && !ix.paths.contains_key(id),
            None => false,
        }
}

fn has_icon_exec(icons: &Option<Vec<u32>>, id: u32) -> (r: bool)
    ensures
        r == has_icon(*icons, id),
{
    match icons {
        Some(v) => {
            for i in 0..v.len()
                invariant
                    *icons == Some(*v),
                    forall|j: int| 0 <= j < i ==> v@[j] != id,
            {
                if v[i] == id {
                    assert(v@.contains(id));
                    return true;
                }
            }
            false
        },
        None => false,
    }
}

/// The app id whose details entry `e` asks for, if any.
pub fn wanted_appid(e: &DirEntry, icons: &Option<Vec<u32>>) -> (r: Option<u32>)
    ensures
        r == wanted(*e, *icons),
{
    if !e.is_file {
        return None;
    }
    let st = stem_of(&chars_of(e.name.as_str()));
    match parse_u32(&st) {
        Some(id) => if has_icon_exec(icons, id) {
            None
        } else {
            Some(id)
        },
        None => None,
    }
}

/// The store requests to make, one per entry of the Lua manifest folder.
pub fn fetch_plan(plugins: &Vec<DirEntry>, icons: &Option<Vec<u32>>) -> (r: Vec<
    Option<FetchRequest>,
>)
    ensures
        r@.len() == plugins@.len(),
        forall|i: int|
            0 <= i < plugins@.len() ==> match (#[trigger] r@[i], wanted(plugins@[i], *icons)) {
                (Some(q), Some(_)) => q.key@ == stem(plugins@[i].name@) && q.url@ == STEAM_URL@
                    + stem(plugins@[i].name@),
                (None, None) => true,
                _ => false,
            },
{
    let mut r: Vec<Option<FetchRequest>> = Vec::new();
    for i in 0..plugins.len()
        invariant
            r@.len() == i,
            forall|j: int|
                0 <= j < i ==> match (#[trigger] r@[j], wanted(plugins@[j], *icons)) {
                    (Some(q), Some(_)) => q.key@ == stem(plugins@[j].name@) && q.url@ == STEAM_URL@
                        + stem(plugins@[j].name@),
                    (None, None) => true,
                    _ => false,
                },
    {
        let e = &plugins[i];
        match wanted_appid(e, icons) {
            Some(_) => {
                let st = stem_of(&chars_of(e.name.as_str()));
                let url = concat(&chars_of(STEAM_URL), &st);
                r.push(Some(FetchRequest { url: string_of(&url), key: string_of(&st) }));
            },
            None => {
                r.push(None);
            },
        }
    }
    r
}

fn details_of(d: &Option<GameDetails>) -> (r: AppData)
    ensures
        r@ == details_model(*d),
{
    match d {
        Some(gd) => match &gd.data {
            Some(a) => a.clone(),
            None => AppData::default(),
        },
        None => AppData::default(),
    }
}

proof fn lemma_games_after_take(
    m: Map<u32, GameModel>,
    es: Seq<DirEntry>,
    icons: Option<Vec<u32>>,
    ix: IndexModel,
    fs: Seq<Fetched>,
    i: int,
)
    requires
        0 <= i < es.len(),
    ensures
        games_after(m, es.take(i + 1), icons, ix, fs) == games_step(
            games_after(m, es.take(i), icons, ix, fs),
            es[i],
            icons,
            ix,
            fs[i],
        ),
{
    assert(es.take(i + 1).drop_last() =~= es.take(i));
}

/// Whether recording the answers panics (see [`lacks_path`]).
pub fn answers_lack_paths(
    plugins: &Vec<DirEntry>,
    index: &InstalledIndex,
    icons: &Option<Vec<u32>>,
    fetched: &Vec<Fetched>,
) -> (r: bool)
    requires
        fetched@.len() == plugins@.len(),
    ensures
        r == lacks_path(plugins@, *icons, index@, fetched@),
{
    for i in 0..plugins.len()
        invariant
            fetched@.len() == plugins@.len(),
            forall|j: int|
                #![trigger plugins@[j]]
                0 <= j < i ==> !(fetched@[j] is Answered && match wanted(plugins@[j], *icons) {
                    Some(id) => index@.installed.contains_key(id) && !index@.paths.contains_key(
                        id,
                    ),
                    None => false,
                }),
    {
        match wanted_appid(&plugins[i], icons) {
            Some(id) => {
                let answered = match &fetched[i] {
                    Fetched::Answered(_) => true,
                    _ => false,
                };
                if answered && index.installed.contains_key(&id) && !index.paths.contains_key(&id) {
                    return true;
                }
            },
            None => {},
        }
    }
    false
}

/// The games after reading the Lua manifest folder: each entry that is a
/// file named by an app id, has no saved icon and got an answer from the
/// store is recorded from that answer; everything else stays. When the Lua
/// manifest folder or `steamapps` could not be read, the games stay as given.
pub fn get_games(
    current: HashMap<u32, Game>,
    plugins: &Option<Vec<DirEntry>>,
    index: &Option<InstalledIndex>,
    icons: &Option<Vec<u32>>,
    fetched: &Vec<Fetched>,
) -> (r: HashMap<u32, Game>)
    requires
        plugins matches Some(ps) ==> index is Some ==> fetched@.len() == ps@.len(),
        plugins matches Some(ps) ==> index matches Some(ix) ==> !lacks_path(
            ps@,
            *icons,
            ix@,
            fetched@,
        ),
    ensures
        match (plugins, index) {
            (Some(ps), Some(ix)) => game_models(r@) == games_after(
                game_models(current@),
                ps@,
                *icons,
                ix@,
                fetched@,
            ),
            _ => r@ == current@,
        },
{
    let (ps, ix) = match (plugins, index) {
        (Some(ps), Some(ix)) => (ps, ix),
        _ => {
            return current;
        },
    };
    let mut games = current;
    for i in 0..ps.len()
        invariant
            fetched@.len() == ps@.len(),
            !lacks_path(ps@, *icons, ix@, fetched@),
            game_models(games@) == games_after(
                game_models(current@),
                ps@.take(i as int),
                *icons,
                ix@,
                fetched@,
            ),
    {
        proof {
            lemma_games_after_take(game_models(current@), ps@, *icons, ix@, fetched@, i as int);
        }
        match wanted_appid(&ps[i], icons) {
            Some(id) => match &fetched[i] {
                Fetched::Answered(d) => {
                    let installed = ix.installed.contains_key(&id);
                    let path = if installed {
                        assert(!(fetched@[i as int] is Answered && match wanted(ps@[i as int], *icons) {
                            Some(id) => ix@.installed.contains_key(id) && !ix@.paths.contains_key(id),
                            None => false,
                        }));
                        match ix.paths.get(&id) {
                            Some(p) => p.clone(),
                            None => String::new(),
                        }
                    } else {
                        String::new()
                    };
                    let g = Game { appid: id, details: details_of(d), installed, path };
                    assert(g@ == new_game(id, *d, ix@));
                    let ghost before = game_models(games@);
                    games.insert(id, g);
                    assert(game_models(games@) =~= before.insert(id, g@));
                },
                _ => {},
            },
            None => {},
        }
    }
    assert(ps@.take(ps@.len() as int) =~= ps@);
    games
}


/// Where the header image of the app whose Lua manifest has stem `st` is kept.
pub open spec fn icon_path(st: Seq<char>) -> Seq<char> {
    "icons/"@ + st + ".jpg"@
}

/// The header images to save after reading the answers: for each answered
/// entry whose answer carries details, in order, the image URL and its file.
pub open spec fn icon_list(es: Seq<DirEntry>, icons: Option<Vec<u32>>, fs: Seq<Fetched>) -> Seq<
    (Seq<char>, Seq<char>),
>
    decreases es.len(),
{
    if es.len() == 0 {
        seq![]
    } else {
        let prev = icon_list(es.drop_last(), icons, fs);
        match (wanted(es.last(), icons), fs[es.len() - 1]) {
            (Some(_), Fetched::Answered(Some(gd))) => match gd.data {
                Some(a) => prev.push((a.header_image@, icon_path(stem(es.last().name@)))),
                None => prev,
            },
            _ => prev,
        }
    }
}

pub open spec fn download_views(v: Seq<IconDownload>) -> Seq<(Seq<char>, Seq<char>)> {
    v.map_values(|d: IconDownload| (d.url@, d.dest@))
}

/// The header images to save after reading the answers (see [`icon_list`]).
pub fn icon_downloads(
    plugins: &Vec<DirEntry>,
    icons: &Option<Vec<u32>>,
    fetched: &Vec<Fetched>,
) -> (r: Vec<IconDownload>)
    requires
        fetched@.len() == plugins@.len(),
    ensures
        download_views(r@) == icon_list(plugins@, *icons, fetched@),
{
    let mut r: Vec<IconDownload> = Vec::new();
    for i in 0..plugins.len()
        invariant
            fetched@.len() == plugins@.len(),
            download_views(r@) == icon_list(plugins@.take(i as int), *icons, fetched@),
    {
        assert(plugins@.take(i + 1).drop_last() =~= plugins@.take(i as int));
        assert(plugins@.take(i + 1).last() == plugins@[i as int]);
        let e = &plugins[i];
        match wanted_appid(e, icons) {
            Some(_) => match &fetched[i] {
                Fetched::Answered(Some(gd)) => match &gd.data {
                    Some(a) => {
                        let st = stem_of(&chars_of(e.name.as_str()));
                        let dest = concat(&concat(&chars_of("icons/"), &st), &chars_of(".jpg"));
                        let ghost before = download_views(r@);
                        r.push(IconDownload { url: a.header_image.clone(), dest: string_of(&dest) });
                        assert(download_views(r@) =~= before.push(
                            (a.header_image@, icon_path(stem(e.name@))),
                        ));
                    },
                    None => {},
                },
                _ => {},
            },
            None => {},
        }
    }
    assert(plugins@.take(plugins@.len() as int) =~= plugins@);
    r
}

/// The app id that a saved header image stands for: the stem of its file
/// name, read as a number.
pub fn icon_appid(name: &str) -> (r: Option<u32>)
    ensures
        r == parse_u32_spec(stem(name@)),
{
    parse_u32(&stem_of(&chars_of(name)))
}

/// The folders of a Steam installation that hold the Lua manifests and the
/// app manifests.
pub fn steam_dirs(real_path: &str, platform: Platform) -> (r: (String, String))
    ensures
        r.0@ == push_spec(platform, push_spec(platform, real_path@, "config"@), "stplug-in"@),
        r.1@ == push_spec(platform, real_path@, "steamapps"@),
{
    let base = chars_of(real_path);
    let cfg = push_path(platform, &base, &chars_of("config"));
    let plug = push_path(platform, &cfg, &chars_of("stplug-in"));
    let apps = push_path(platform, &base, &chars_of("steamapps"));
    (string_of(&plug), string_of(&apps))
}


/// The games that no answered entry stands for keep their record: they are
/// there after reading the Lua manifests exactly when they were before, and
/// unchanged.
pub proof fn law_get_games_keeps_unanswered(
    m: Map<u32, GameModel>,
    es: Seq<DirEntry>,
    icons: Option<Vec<u32>>,
    ix: IndexModel,
    fs: Seq<Fetched>,
    k: u32,
)
    requires
        forall|i: int|
            0 <= i < es.len() ==> !((#[trigger] fs[i]) is Answered && wanted(es[i], icons) == Some(
                k,
            )),
    ensures
        games_after(m, es, icons, ix, fs).contains_key(k) == m.contains_key(k),
        m.contains_key(k) ==> games_after(m, es, icons, ix, fs)[k] == m[k],
    decreases es.len(),
{
    if es.len() > 0 {
        let n = es.len() - 1;
        assert forall|i: int| 0 <= i < es.drop_last().len() implies !((#[trigger] fs[i]) is Answered
            && wanted(es.drop_last()[i], icons) == Some(k)) by {
            assert(es.drop_last()[i] == es[i]);
        }
        law_get_games_keeps_unanswered(m, es.drop_last(), icons, ix, fs, k);
        assert(!(fs[n] is Answered && wanted(es[n], icons) == Some(k)));
    }
}

/// The record of a game is made from the last answer for it: when entry `i`
/// is the last answered one that stands for app `k`, the games hold for `k`
/// what that answer says.
pub proof fn law_get_games_records_last_answer(
    m: Map<u32, GameModel>,
    es: Seq<DirEntry>,
    icons: Option<Vec<u32>>,
    ix: IndexModel,
    fs: Seq<Fetched>,
    k: u32,
    i: int,
)
    requires
        0 <= i < es.len(),
        fs[i] is Answered,
        wanted(es[i], icons) == Some(k),
        forall|j: int|
            i < j < es.len() ==> !((#[trigger] fs[j]) is Answered && wanted(es[j], icons) == Some(
                k,
            )),
    ensures
        games_after(m, es, icons, ix, fs).contains_key(k),
        games_after(m, es, icons, ix, fs)[k] == new_game(k, fs[i]->Answered_0, ix),
    decreases es.len(),
{
    let n = es.len() - 1;
    if i < n {
        assert forall|j: int| i < j < es.drop_last().len() implies !((#[trigger] fs[j]) is Answered
            && wanted(es.drop_last()[j], icons) == Some(k)) by {
            assert(es.drop_last()[j] == es[j]);
        }
        assert(es.drop_last()[i] == es[i]);
        law_get_games_records_last_answer(m, es.drop_last(), icons, ix, fs, k, i);
        assert(!(fs[n] is Answered && wanted(es[n], icons) == Some(k)));
    }
}

/// The Lua manifest of app `n`, named `<n>.lua`, stands for app `n`.
pub proof fn law_lua_file_names_its_app(n: u32, e: DirEntry)
    requires
        e.is_file,
        e.name@ == crate::num::decimal(n as nat) + ".lua"@,
    ensures
        plugin_appid(e) == Some(n),
{
    let d = crate::num::decimal(n as nat);
    crate::num::lemma_decimal_digits(n as nat);
    assert forall|i: int| 0 <= i < d.len() implies d[i] != '.' by {
        assert(crate::num::is_digit(d[i]));
    }
    crate::paths::lemma_stem_of_extension(d, ".lua"@);
    crate::num::law_parse_u32_of_decimal(n);
}

/// The header image saved for app `n`, named `<n>.jpg`, is known as app `n`'s
/// when the icons are listed again.
pub proof fn law_icon_names_its_app(n: u32, name: Seq<char>)
    requires
        name == crate::num::decimal(n as nat) + ".jpg"@,
    ensures
        parse_u32_spec(stem(name)) == Some(n),
{
    let d = crate::num::decimal(n as nat);
    crate::num::lemma_decimal_digits(n as nat);
    assert forall|i: int| 0 <= i < d.len() implies d[i] != '.' by {
        assert(crate::num::is_digit(d[i]));
    }
    crate::paths::lemma_stem_of_extension(d, ".jpg"@);
    crate::num::law_parse_u32_of_decimal(n);
}


/// Every game in the result either is carried over unchanged from `m` or was
/// recorded from an answer, and a recorded game carries its own key as app
/// id, is marked installed exactly when Steam has its app manifest, and then
/// has the folder that manifest names (no folder otherwise). So when every
/// game of `m` carries its key as app id, every game of the result does.
pub proof fn law_recorded_games_carry_their_id(
    m: Map<u32, GameModel>,
    es: Seq<DirEntry>,
    icons: Option<Vec<u32>>,
    ix: IndexModel,
    fs: Seq<Fetched>,
)
    ensures
        forall|k: u32| #[trigger]
            games_after(m, es, icons, ix, fs).contains_key(k) ==> {
                let g = games_after(m, es, icons, ix, fs)[k];
                ||| m.contains_key(k) && g == m[k]
                ||| {
                    &&& g.appid == k
                    &&& g.installed == ix.installed.contains_key(k)
                    &&& g.path == if g.installed {
                        ix.paths[k]
                    } else {
                        Seq::<char>::empty()
                    }
                }
            },
        (forall|k: u32| #[trigger] m.contains_key(k) ==> m[k].appid == k) ==> forall|k: u32|
            #[trigger] games_after(m, es, icons, ix, fs).contains_key(k) ==> games_after(
                m,
                es,
                icons,
                ix,
                fs,
            )[k].appid == k,
    decreases es.len(),
{
    if es.len() > 0 {
        law_recorded_games_carry_their_id(m, es.drop_last(), icons, ix, fs);
        let prev = games_after(m, es.drop_last(), icons, ix, fs);
        let cur = games_after(m, es, icons, ix, fs);
        assert(cur == games_step(prev, es.last(), icons, ix, fs[es.len() - 1]));
        assert forall|k: u32| #[trigger] cur.contains_key(k) implies {
            let g = cur[k];
            ||| m.contains_key(k) && g == m[k]
            ||| {
                &&& g.appid == k
                &&& g.installed == ix.installed.contains_key(k)
                &&& g.path == if g.installed {
                    ix.paths[k]
                } else {
                    Seq::<char>::empty()
                }
            }
        } by {
            match (wanted(es.last(), icons), fs[es.len() - 1]) {
                (Some(id), Fetched::Answered(d)) => {
                    if k != id {
                        assert(prev.contains_key(k));
                    }
                },
                _ => {
                    assert(prev.contains_key(k));
                },
            }
        }
    }
}

} // verus!

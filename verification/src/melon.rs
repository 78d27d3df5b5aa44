//! Setting up MelonLoader mods for a game: which loader step to take, and
//! which mod files go into the game's `Mods` folder.

use vstd::prelude::*;

use crate::games::DirEntry;
use crate::paths::{file_name, file_name_of, stem, stem_of, Platform};
use crate::text::{chars_of, concat, same_chars, string_of};

verus! {

/// Where the MelonLoader installer is downloaded from.
pub const MELONLOADER_URL: &'static str =
    "https://github.com/LavaGang/MelonLoader/releases/download/v0.7.1/";

/// What to do about MelonLoader itself.
#[derive(Clone, Copy, PartialEq, Eq, Debug, Structural)]
pub enum LoaderStep {
    /// Leave it alone.
    Skip,
    /// Create the `MelonLoader` folder, download the installer and run it.
    Setup,
    /// Run the installer downloaded before.
    Run,
}

/// The loader step on `platform`: `None` outside Windows, where MelonLoader
/// is not supported and the setup ends at once; otherwise none unless
/// MelonLoader is wanted, set up when its folder is missing, run when it is
/// there.
pub fn loader_step(platform: Platform, melon_loader: bool, loader_dir_exists: bool) -> (r: Option<
    LoaderStep,
>)
    ensures
        r == (if platform != Platform::Windows {
            None
        } else if !melon_loader {
            Some(LoaderStep::Skip)
        } else if loader_dir_exists {
            Some(LoaderStep::Run)
        } else {
            Some(LoaderStep::Setup)
        }),
{
    if platform != Platform::Windows {
        None
    } else if !melon_loader {
        Some(LoaderStep::Skip)
    } else if loader_dir_exists {
        Some(LoaderStep::Run)
    } else {
        Some(LoaderStep::Setup)
    }
}

/// Where the MelonLoader installer is downloaded from.
pub fn installer_url() -> (r: String)
    ensures
        r@ == MELONLOADER_URL@ + "MelonLoader.Installer.exe"@,
{
    string_of(&concat(&chars_of(MELONLOADER_URL), &chars_of("MelonLoader.Installer.exe")))
}

/// The `Mods` folder of the game folder `path`.
pub open spec fn mods_dir(path: Seq<char>) -> Seq<char> {
    path + "\\Mods"@
}

pub fn mods_dir_of(path: &str) -> (r: String)
    ensures
        r@ == mods_dir(path@),
{
    string_of(&concat(&chars_of(path), &chars_of("\\Mods")))
}

/// A mod file to copy: the file in the `mods` folder and where it goes.
pub struct ModCopy {
    pub src: String,
    pub dest: String,
}

/// The folder the mods are taken from.
pub open spec fn mods_source_dir() -> Seq<char> {
    "mods"@
}

/// The copies to make from the listing `es` of the `mods` folder, in order:
/// each file whose stem is the game folder's name is copied from `mods` into
/// the game's `Mods` folder, keeping its file name. `None` where the game folder's name is needed and it has none
/// (where the setup panics).
pub open spec fn mod_copy_list(p: Platform, path: Seq<char>, es: Seq<DirEntry>) -> Option<
    Seq<(Seq<char>, Seq<char>)>,
>
    decreases es.len(),
{
    if es.len() == 0 {
        Some(seq![])
    } else {
        match mod_copy_list(p, path, es.drop_last()) {
            None => None,
            Some(prev) => {
                let e = es.last();
                if !e.is_file {
                    Some(prev)
                } else {
                    match file_name(p, path) {
                        None => None,
                        Some(g) => if stem(e.name@) == g {
                            Some(
                                prev.push(
                                    (mods_source_dir() + "\\"@ + e.name@, mods_dir(path) + "\\"@
                                        + e.name@),
                                ),
                            )
                        } else {
                            Some(prev)
                        },
                    }
                }
            },
        }
    }
}

pub open spec fn copy_views(v: Seq<ModCopy>) -> Seq<(Seq<char>, Seq<char>)> {
    v.map_values(|c: ModCopy| (c.src@, c.dest@))
}

proof fn lemma_copies_none_stays(p: Platform, path: Seq<char>, es: Seq<DirEntry>, k: int)
    requires
        0 <= k <= es.len(),
        mod_copy_list(p, path, es.take(k)) is None,
    ensures
        mod_copy_list(p, path, es) is None,
    decreases es.len() - k,
{
    if k < es.len() {
        assert(es.take(k + 1).drop_last() =~= es.take(k));
        lemma_copies_none_stays(p, path, es, k + 1);
    } else {
        assert(es.take(k) =~= es);
    }
}

fn try_mod_copies(path: &str, platform: Platform, entries: &Vec<DirEntry>) -> (r: Option<
    Vec<ModCopy>,
>)
    ensures
        match r {
            Some(v) => mod_copy_list(platform, path@, entries@) == Some(copy_views(v@)),
            None => mod_copy_list(platform, path@, entries@) is None,
        },
{
    let game = file_name_of(platform, &chars_of(path));
    let mods = chars_of(mods_dir_of(path).as_str());
    let sep = chars_of("\\");
    let src_dir = chars_of("mods");
    let mut out: Vec<ModCopy> = Vec::new();
    for i in 0..entries.len()
        invariant
            mods@ == mods_dir(path@),
            sep@ == "\\"@,
            src_dir@ == mods_source_dir(),
            match game {
                Some(g) => file_name(platform, path@) == Some(g@),
                None => file_name(platform, path@) is None,
            },
            mod_copy_list(platform, path@, entries@.take(i as int)) == Some(copy_views(out@)),
    {
        assert(entries@.take(i + 1).drop_last() =~= entries@.take(i as int));
        assert(entries@.take(i + 1).last() == entries@[i as int]);
        let e = &entries[i];
        if e.is_file {
            match &game {
                None => {
                    proof {
                        lemma_copies_none_stays(platform, path@, entries@, i + 1);
                    }
                    return None;
                },
                Some(g) => {
                    let name = chars_of(e.name.as_str());
                    if same_chars(&stem_of(&name), g) {
                        let dest = concat(&concat(&mods, &sep), &name);
                        let src = concat(&concat(&src_dir, &sep), &name);
                        let ghost before = copy_views(out@);
                        out.push(ModCopy { src: string_of(&src), dest: string_of(&dest) });
                        assert(copy_views(out@) =~= before.push(
                            (mods_source_dir() + "\\"@ + e.name@, mods_dir(path@) + "\\"@
                                + e.name@),
                        ));
                    }
                },
            }
        }
    }
    assert(entries@.take(entries@.len() as int) =~= entries@);
    Some(out)
}

/// Whether working out the mod copies panics (see [`mod_copy_list`]).
pub fn mod_copies_fail(path: &str, platform: Platform, entries: &Vec<DirEntry>) -> (r: bool)
    ensures
        r == (mod_copy_list(platform, path@, entries@) is None),
{
    try_mod_copies(path, platform, entries).is_none()
}

/// The mod files to copy into the game folder `path`, given the listing of
/// the `mods` folder (see [`mod_copy_list`]).
pub fn mod_copies(path: &str, platform: Platform, entries: &Vec<DirEntry>) -> (r: Vec<ModCopy>)
    requires
        mod_copy_list(platform, path@, entries@) is Some,
    ensures
        mod_copy_list(platform, path@, entries@) == Some(copy_views(r@)),
{
    match try_mod_copies(path, platform, entries) {
        Some(v) => v,
        None => Vec::new(),
    }
}

} // verus!

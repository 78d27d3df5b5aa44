//! Installing from a ZIP of manifests: depot manifests go to `depotcache`,
//! the app's Lua manifest to `config/stplug-in`. The file-system work is left
//! to the caller: each step names it, and the caller answers with how it went.

use std::io::Cursor;

use vstd::prelude::*;
use vstd::utf8::encode_utf8;
use zip::ZipArchive;

use crate::archive::{
    archive_bytes, archive_len, entry_bytes, entry_count, entry_data_of, entry_name, entry_name_of,
    named_data_of, named_entry_bytes, open_archive, zip_names,
};
use crate::install::{
    depot_dir, depot_dir_of, lua_dest, lua_dest_of, lua_dir, lua_dir_of, process_lua,
    processed_lua, sep_join, sep_join_exec, ErrorKind, InstallError,
};
use crate::num::{all_digits, decimal_i32, decimal_of_i32};
use crate::paths::{file_name, file_name_of, Platform};
use crate::text::{
    chars_of, concat, ends_with, from_utf8_lossy, has_suffix, lowercase, same_chars, slice,
    string_of, to_lowercase, utf8_lossy,
};

verus! {

/// The next piece of file-system work, or the end.
pub enum ExtractAction {
    /// Create this folder and those above it; answer how it went.
    CreateDirAll(String),
    /// Create (or empty) this file; answer how it went.
    CreateFile(String),
    /// Write these bytes to the file created last; answer how it went.
    WriteFile(Vec<u8>),
    /// The extraction is over with this result.
    Finish(Result<(), InstallError>),
}

/// Where an extraction stands: which answer it waits for.
pub enum ExtractStage {
    LuaDir,
    DepotDir(usize, String),
    ManifestFile(usize),
    ManifestWrite(usize),
    LuaFile(Vec<u8>),
    LuaWrite,
    Finished,
}

/// [`ExtractStage`] with its text and bytes as sequences.
pub enum StageModel {
    LuaDir,
    DepotDir(int, Seq<char>),
    ManifestFile(int),
    ManifestWrite(int),
    LuaFile(Seq<u8>),
    LuaWrite,
    Finished,
}

/// [`ExtractAction`] with its text and bytes as sequences; a failure names
/// its kind and, where it is known, its message.
pub enum ActionModel {
    CreateDirAll(Seq<char>),
    CreateFile(Seq<char>),
    WriteFile(Seq<u8>),
    Succeed,
    Fail(ErrorKind, Option<Seq<char>>),
}

/// The action `a` is the one `m` describes.
pub open spec fn acts(a: ExtractAction, m: ActionModel) -> bool {
    match (a, m) {
        (ExtractAction::CreateDirAll(d), ActionModel::CreateDirAll(e)) => d@ == e,
        (ExtractAction::CreateFile(d), ActionModel::CreateFile(e)) => d@ == e,
        (ExtractAction::WriteFile(b), ActionModel::WriteFile(c)) => b@ == c,
        (ExtractAction::Finish(Ok(_)), ActionModel::Succeed) => true,
        (ExtractAction::Finish(Err(e)), ActionModel::Fail(k, msg)) => e.kind == k && (msg matches Some(
            t,
        ) ==> e.message@ == t),
        _ => false,
    }
}

/// An entry named so holds a depot manifest: its lowercased name ends in
/// `.manifest`.
pub open spec fn is_manifest_name(n: Seq<char>) -> bool {
    has_suffix(lowercase(n), ".manifest"@)
}

/// Where the depot manifest from the entry named `n` goes: `depotcache`, and
/// the file name of the entry (or its whole name when it has none).
pub open spec fn manifest_dest(p: Platform, steam: Seq<char>, n: Seq<char>) -> Seq<char> {
    sep_join(
        p,
        depot_dir(p, steam),
        match file_name(p, n) {
            Some(f) => f,
            None => n,
        },
    )
}

pub open spec fn lua_ext() -> Seq<char> {
    seq!['.', 'l', 'u', 'a']
}

/// `b` with every trailing `.lua` taken off (`str::trim_end_matches`).
pub open spec fn strip_lua(b: Seq<char>) -> Seq<char>
    decreases b.len(),
{
    if has_suffix(b, lua_ext()) {
        strip_lua(b.take(b.len() - 4))
    } else {
        b
    }
}

/// The file name of an entry, or nothing.
pub open spec fn base_name(p: Platform, n: Seq<char>) -> Seq<char> {
    match file_name(p, n) {
        Some(f) => f,
        None => seq![],
    }
}

/// A file name of a numeric Lua manifest: ending in `.lua` with only ASCII
/// digits before the `.lua` endings.
pub open spec fn numeric_lua(b: Seq<char>) -> bool {
    has_suffix(b, lua_ext()) && all_digits(strip_lua(b))
}

/// The file name of the Lua manifest of `appid`.
pub open spec fn preferred_lua(appid: i32) -> Seq<char> {
    decimal_i32(appid) + lua_ext()
}

/// The Lua manifest entry chosen from entry `i` on, `pick` being the choice
/// so far: the first numeric Lua manifest named for `appid`, else the first
/// numeric one; `Err` where reading a name fails.
pub open spec fn pick_lua(bytes: Seq<u8>, p: Platform, appid: i32, i: int, pick: Option<
    Seq<char>,
>) -> Result<Option<Seq<char>>, ()>
    decreases entry_count(bytes) - i,
{
    if i < 0 || i >= entry_count(bytes) {
        Ok(pick)
    } else {
        match entry_name_of(bytes, i) {
            None => Err(()),
            Some(n) => {
                let b = base_name(p, n);
                if numeric_lua(b) && b == preferred_lua(appid) {
                    Ok(Some(n))
                } else if numeric_lua(b) && pick is None {
                    pick_lua(bytes, p, appid, i + 1, Some(n))
                } else {
                    pick_lua(bytes, p, appid, i + 1, pick)
                }
            },
        }
    }
}

/// The bytes written for a Lua manifest read as `d`.
pub open spec fn lua_out(d: Seq<u8>) -> Seq<u8> {
    encode_utf8(processed_lua(utf8_lossy(d)))
}

/// The step that installs the chosen Lua manifest.
pub open spec fn lua_pass(bytes: Seq<u8>, p: Platform, steam: Seq<char>, appid: i32) -> (
    StageModel,
    ActionModel,
) {
    match pick_lua(bytes, p, appid, 0, None) {
        Err(_) => (StageModel::Finished, ActionModel::Fail(ErrorKind::InvalidData, None)),
        Ok(None) => (
            StageModel::Finished,
            ActionModel::Fail(ErrorKind::NotFound, Some("No numeric .lua found in ZIP"@)),
        ),
        Ok(Some(n)) => match named_data_of(bytes, n) {
            None => (StageModel::Finished, ActionModel::Fail(ErrorKind::NotFound, None)),
            Some(Err(k)) => (StageModel::Finished, ActionModel::Fail(k, None)),
            Some(Ok(d)) => (
                StageModel::LuaFile(lua_out(d)),
                ActionModel::CreateFile(lua_dest(p, steam, appid)),
            ),
        },
    }
}

/// Looking for depot manifests from entry `i` on: the next one asks for its
/// folder; after the last entry the Lua manifest is installed.
pub open spec fn scan_from(bytes: Seq<u8>, p: Platform, steam: Seq<char>, appid: i32, i: int) -> (
    StageModel,
    ActionModel,
)
    decreases entry_count(bytes) - i,
{
    if i < 0 || i >= entry_count(bytes) {
        lua_pass(bytes, p, steam, appid)
    } else {
        match entry_name_of(bytes, i) {
            None => (StageModel::Finished, ActionModel::Fail(ErrorKind::InvalidData, None)),
            Some(n) => if is_manifest_name(n) {
                (
                    StageModel::DepotDir(i, manifest_dest(p, steam, n)),
                    ActionModel::CreateDirAll(depot_dir(p, steam)),
                )
            } else {
                scan_from(bytes, p, steam, appid, i + 1)
            },
        }
    }
}

/// A failure that the caller reported, passed on.
pub open spec fn passed_on(e: InstallError) -> ActionModel {
    ActionModel::Fail(e.kind, Some(e.message@))
}

/// The stage and action after answer `ev` in stage `st`.
pub open spec fn extract_step(
    bytes: Seq<u8>,
    p: Platform,
    steam: Seq<char>,
    appid: i32,
    st: StageModel,
    ev: Result<(), InstallError>,
) -> (StageModel, ActionModel) {
    match st {
        StageModel::LuaDir => match ev {
            Ok(_) => scan_from(bytes, p, steam, appid, 0),
            Err(e) => (StageModel::Finished, passed_on(e)),
        },
        StageModel::DepotDir(j, dest) => match ev {
            Ok(_) => (StageModel::ManifestFile(j), ActionModel::CreateFile(dest)),
            Err(_) => scan_from(bytes, p, steam, appid, j + 1),
        },
        StageModel::ManifestFile(j) => match ev {
            Ok(_) => match entry_data_of(bytes, j) {
                None => (StageModel::Finished, ActionModel::Fail(ErrorKind::InvalidData, None)),
                Some(Err(k)) => (StageModel::Finished, ActionModel::Fail(k, None)),
                Some(Ok(d)) => (StageModel::ManifestWrite(j), ActionModel::WriteFile(d)),
            },
            Err(_) => scan_from(bytes, p, steam, appid, j + 1),
        },
        StageModel::ManifestWrite(j) => match ev {
            Ok(_) => scan_from(bytes, p, steam, appid, j + 1),
            Err(e) => (StageModel::Finished, passed_on(e)),
        },
        StageModel::LuaFile(out) => match ev {
            Ok(_) => (StageModel::LuaWrite, ActionModel::WriteFile(out)),
            Err(e) => (StageModel::Finished, passed_on(e)),
        },
        StageModel::LuaWrite => match ev {
            Ok(_) => (StageModel::Finished, ActionModel::Succeed),
            Err(e) => (StageModel::Finished, passed_on(e)),
        },
        StageModel::Finished => (StageModel::Finished, ActionModel::Fail(ErrorKind::Other, None)),
    }
}

/// The entry a stage refers to lies in the archive.
pub open spec fn stage_in_range(bytes: Seq<u8>, st: StageModel) -> bool {
    match st {
        StageModel::DepotDir(j, _) => 0 <= j < entry_count(bytes),
        StageModel::ManifestFile(j) => 0 <= j < entry_count(bytes),
        StageModel::ManifestWrite(j) => 0 <= j < entry_count(bytes),
        _ => true,
    }
}

/// A bound on the answers an extraction still waits for.
pub open spec fn measure(bytes: Seq<u8>, st: StageModel) -> int {
    let c = entry_count(bytes) as int;
    match st {
        StageModel::LuaDir => 4 * c + 10,
        StageModel::DepotDir(j, _) => 4 * (c - j) + 5,
        StageModel::ManifestFile(j) => 4 * (c - j) + 4,
        StageModel::ManifestWrite(j) => 4 * (c - j) + 3,
        StageModel::LuaFile(_) => 2,
        StageModel::LuaWrite => 1,
        StageModel::Finished => 0,
    }
}


fn strip_lua_of(b: &Vec<char>, ext: &Vec<char>) -> (r: Vec<char>)
    requires
        ext@ == lua_ext(),
    ensures
        r@ == strip_lua(b@),
{
    let mut s = b.clone();
    while ends_with(&s, ext)
        invariant
            ext@ == lua_ext(),
            strip_lua(b@) == strip_lua(s@),
        decreases s@.len(),
    {
        s = slice(&s, 0, s.len() - 4);
    }
    s
}

fn all_digits_of(s: &Vec<char>) -> (r: bool)
    ensures
        r == all_digits(s@),
{
    for i in 0..s.len()
        invariant
            forall|j: int| 0 <= j < i ==> crate::num::is_digit(#[trigger] s@[j]),
    {
        let u = s[i] as u32;
        if u < 0x30 || u > 0x39 {
            assert(!crate::num::is_digit(s@[i as int]));
            return false;
        }
    }
    true
}

pub open spec fn name_opt(x: Option<String>) -> Option<Seq<char>> {
    match x {
        Some(s) => Some(s@),
        None => None,
    }
}

/// The first entry a scan looks at: the first of all, or the one after `after`.
pub open spec fn scan_start(after: Option<usize>) -> int {
    match after {
        None => 0,
        Some(j) => j + 1,
    }
}

/// An extraction in progress: the archive, the Steam folder and app id it
/// installs for, and the answer it waits for.
pub struct Extractor {
    archive: ZipArchive<Cursor<Vec<u8>>>,
    platform: Platform,
    steam: Vec<char>,
    appid: i32,
    stage: ExtractStage,
}

impl Extractor {
    /// The bytes of the ZIP file being extracted.
    pub closed spec fn bytes(&self) -> Seq<u8> {
        archive_bytes(self.archive)
    }

    pub closed spec fn platform(&self) -> Platform {
        self.platform
    }

    /// The Steam folder installed into.
    pub closed spec fn steam(&self) -> Seq<char> {
        self.steam@
    }

    pub closed spec fn appid(&self) -> i32 {
        self.appid
    }

    /// Where the extraction stands.
    pub closed spec fn stage(&self) -> StageModel {
        match self.stage {
            ExtractStage::LuaDir => StageModel::LuaDir,
            ExtractStage::DepotDir(j, d) => StageModel::DepotDir(j as int, d@),
            ExtractStage::ManifestFile(j) => StageModel::ManifestFile(j as int),
            ExtractStage::ManifestWrite(j) => StageModel::ManifestWrite(j as int),
            ExtractStage::LuaFile(b) => StageModel::LuaFile(b@),
            ExtractStage::LuaWrite => StageModel::LuaWrite,
            ExtractStage::Finished => StageModel::Finished,
        }
    }

    /// The archive opened and the stage refers to one of its entries.
    pub closed spec fn wf(&self) -> bool {
        &&& zip_names(self.bytes()) is Some
        &&& stage_in_range(self.bytes(), self.stage())
    }

    /// Begins extracting the ZIP file `zip_bytes` for app `appid` into the
    /// Steam folder `steam_path`: the first step creates the Lua manifest
    /// folder. Fails with `InvalidData` when the bytes hold no archive.
    pub fn start(zip_bytes: Vec<u8>, appid: i32, steam_path: &str, platform: Platform) -> (r:
        Result<(Extractor, ExtractAction), InstallError>)
        ensures
            match r {
                Ok((x, a)) => {
                    &&& zip_names(zip_bytes@) is Some
                    &&& x.wf()
                    &&& x.bytes() == zip_bytes@
                    &&& x.platform() == platform
                    &&& x.steam() == steam_path@
                    &&& x.appid() == appid
                    &&& x.stage() == StageModel::LuaDir
                    &&& acts(a, ActionModel::CreateDirAll(lua_dir(platform, steam_path@)))
                },
                Err(e) => zip_names(zip_bytes@) is None && e.kind == ErrorKind::InvalidData,
            },
    {
        match open_archive(zip_bytes) {
            Err(msg) => Err(InstallError { kind: ErrorKind::InvalidData, message: msg }),
            Ok(archive) => {
                let steam = chars_of(steam_path);
                let dir = lua_dir_of(platform, &steam);
                let x = Extractor { archive, platform, steam, appid, stage: ExtractStage::LuaDir };
                Ok((x, ExtractAction::CreateDirAll(string_of(&dir))))
            },
        }
    }

    /// Whether the entry named `name` holds a depot manifest.
    fn manifest_named(name: &String) -> (r: bool)
        ensures
            r == is_manifest_name(name@),
    {
        let low = to_lowercase(name.as_str());
        ends_with(&chars_of(low.as_str()), &chars_of(".manifest"))
    }

    fn manifest_dest_of(p: Platform, steam: &Vec<char>, name: &String) -> (r: Vec<char>)
        ensures
            r@ == manifest_dest(p, steam@, name@),
    {
        let n = chars_of(name.as_str());
        let f = match file_name_of(p, &n) {
            Some(f) => f,
            None => n,
        };
        sep_join_exec(p, &depot_dir_of(p, steam), &f)
    }

    /// The Lua manifest entry to install (see [`pick_lua`]), or the text of a
    /// failure to read a name.
    fn find_lua(&mut self) -> (r: Result<Option<String>, String>)
        ensures
            final(self).bytes() == old(self).bytes(),
            final(self).platform == old(self).platform,
            final(self).steam == old(self).steam,
            final(self).appid == old(self).appid,
            final(self).stage == old(self).stage,
            match r {
                Ok(x) => pick_lua(old(self).bytes(), old(self).platform, old(self).appid, 0, None)
                    == Ok::<Option<Seq<char>>, ()>(name_opt(x)),
                Err(_) => pick_lua(old(self).bytes(), old(self).platform, old(self).appid, 0, None) is Err,
            },
    {
        let ghost b = self.bytes();
        let ext = chars_of(".lua");
        proof {
            reveal_strlit(".lua");
        }
        assert(ext@ =~= lua_ext());
        let preferred = concat(&decimal_of_i32(self.appid), &ext);
        let n = archive_len(&self.archive);
        let mut pick: Option<String> = None;
        let mut i: usize = 0;
        while i < n
            invariant
                i <= n,
                n == entry_count(b),
                ext@ == lua_ext(),
                preferred@ == preferred_lua(self.appid),
                self.bytes() == b,
                self.platform == old(self).platform,
                self.steam == old(self).steam,
                self.appid == old(self).appid,
                self.stage == old(self).stage,
                b == old(self).bytes(),
                pick_lua(b, self.platform, self.appid, 0, None) == pick_lua(
                    b,
                    self.platform,
                    self.appid,
                    i as int,
                    name_opt(pick),
                ),
            decreases n - i,
        {
            match entry_name(&mut self.archive, i) {
                Err(msg) => {
                    return Err(msg);
                },
                Ok(name) => {
                    let base = match file_name_of(self.platform, &chars_of(name.as_str())) {
                        Some(f) => f,
                        None => Vec::new(),
                    };
                    let numeric = ends_with(&base, &ext) && all_digits_of(
                        &strip_lua_of(&base, &ext),
                    );
                    if numeric && same_chars(&base, &preferred) {
                        return Ok(Some(name));
                    } else if numeric && pick.is_none() {
                        pick = Some(name);
                    }
                },
            }
            i = i + 1;
        }
        Ok(pick)
    }

    /// Installs the chosen Lua manifest: reads it and asks for its file.
    fn install_lua(&mut self) -> (a: ExtractAction)
        ensures
            final(self).bytes() == old(self).bytes(),
            final(self).platform == old(self).platform,
            final(self).steam == old(self).steam,
            final(self).appid == old(self).appid,
            final(self).stage() == lua_pass(old(self).bytes(), old(self).platform, old(self).steam@, old(self).appid).0,
            acts(a, lua_pass(old(self).bytes(), old(self).platform, old(self).steam@, old(self).appid).1),
    {
        match self.find_lua() {
            Err(msg) => {
                self.stage = ExtractStage::Finished;
                ExtractAction::Finish(Err(InstallError { kind: ErrorKind::InvalidData, message: msg }))
            },
            Ok(None) => {
                self.stage = ExtractStage::Finished;
                proof {
                    reveal_strlit("No numeric .lua found in ZIP");
                }
                ExtractAction::Finish(
                    Err(
                        InstallError {
                            kind: ErrorKind::NotFound,
                            message: "No numeric .lua found in ZIP".to_owned(),
                        },
                    ),
                )
            },
            Ok(Some(name)) => match named_entry_bytes(&mut self.archive, name.as_str()) {
                Err(Err(msg)) => {
                    self.stage = ExtractStage::Finished;
                    ExtractAction::Finish(Err(InstallError { kind: ErrorKind::NotFound, message: msg }))
                },
                Err(Ok((kind, msg))) => {
                    self.stage = ExtractStage::Finished;
                    ExtractAction::Finish(Err(InstallError { kind, message: msg }))
                },
                Ok(bytes) => {
                    let text = from_utf8_lossy(bytes.as_slice());
                    let processed = process_lua(text.as_str());
                    let out = vstd::slice::slice_to_vec(processed.as_str().as_bytes());
                    let dest = lua_dest_of(self.platform, &self.steam, self.appid);
                    self.stage = ExtractStage::LuaFile(out);
                    ExtractAction::CreateFile(string_of(&dest))
                },
            },
        }
    }

    /// Looks for depot manifests from the first entry on, or from the one
    /// after entry `after` (see [`scan_from`]).
    fn scan(&mut self, after: Option<usize>) -> (a: ExtractAction)
        requires
            after matches Some(j) ==> j < entry_count(old(self).bytes()),
        ensures
            final(self).bytes() == old(self).bytes(),
            final(self).platform == old(self).platform,
            final(self).steam == old(self).steam,
            final(self).appid == old(self).appid,
            final(self).stage() == scan_from(old(self).bytes(), old(self).platform, old(self).steam@, old(self).appid, scan_start(after)).0,
            acts(a, scan_from(old(self).bytes(), old(self).platform, old(self).steam@, old(self).appid, scan_start(after)).1),
    {
        let ghost b = self.bytes();
        let n = archive_len(&self.archive);
        let from: usize = match after {
            None => 0,
            Some(j) => j + 1,
        };
        let mut i = from;
        while i < n
            invariant
                from <= i <= n,
                from as int == scan_start(after),
                n == entry_count(b),
                self.bytes() == b,
                b == old(self).bytes(),
                self.platform == old(self).platform,
                self.steam == old(self).steam,
                self.appid == old(self).appid,
                scan_from(b, self.platform, self.steam@, self.appid, from as int) == scan_from(
                    b,
                    self.platform,
                    self.steam@,
                    self.appid,
                    i as int,
                ),
            decreases n - i,
        {
            match entry_name(&mut self.archive, i) {
                Err(msg) => {
                    self.stage = ExtractStage::Finished;
                    return ExtractAction::Finish(
                        Err(InstallError { kind: ErrorKind::InvalidData, message: msg }),
                    );
                },
                Ok(name) => {
                    if Self::manifest_named(&name) {
                        let dest = Self::manifest_dest_of(self.platform, &self.steam, &name);
                        let dir = depot_dir_of(self.platform, &self.steam);
                        self.stage = ExtractStage::DepotDir(i, string_of(&dest));
                        return ExtractAction::CreateDirAll(string_of(&dir));
                    }
                },
            }
            i = i + 1;
        }
        self.install_lua()
    }

    /// Goes on after the caller's answer `answer` to the last action (see
    /// [`extract_step`]); each answer brings the end nearer.
    pub fn resume(&mut self, answer: Result<(), InstallError>) -> (a: ExtractAction)
        requires
            old(self).wf(),
            !(old(self).stage() is Finished),
        ensures
            final(self).wf(),
            final(self).bytes() == old(self).bytes(),
            final(self).platform() == old(self).platform(),
            final(self).steam() == old(self).steam(),
            final(self).appid() == old(self).appid(),
            final(self).stage() == extract_step(
                old(self).bytes(),
                old(self).platform(),
                old(self).steam(),
                old(self).appid(),
                old(self).stage(),
                answer,
            ).0,
            acts(
                a,
                extract_step(
                    old(self).bytes(),
                    old(self).platform(),
                    old(self).steam(),
                    old(self).appid(),
                    old(self).stage(),
                    answer,
                ).1,
            ),
            0 <= measure(final(self).bytes(), final(self).stage()) < measure(
                old(self).bytes(),
                old(self).stage(),
            ),
    {
        let ghost b = self.bytes();
        proof {
            lemma_scan_bound(b, self.platform, self.steam@, self.appid, 0);
        }
        let mut stage = ExtractStage::Finished;
        std::mem::swap(&mut stage, &mut self.stage);
        match stage {
            ExtractStage::LuaDir => match answer {
                Ok(_) => self.scan(None),
                Err(e) => ExtractAction::Finish(Err(e)),
            },
            ExtractStage::DepotDir(j, dest) => match answer {
                Ok(_) => {
                    self.stage = ExtractStage::ManifestFile(j);
                    ExtractAction::CreateFile(dest)
                },
                Err(_) => {
                    proof {
                        lemma_scan_bound(b, self.platform, self.steam@, self.appid, j + 1);
                    }
                    self.scan(Some(j))
                },
            },
            ExtractStage::ManifestFile(j) => match answer {
                Ok(_) => match entry_bytes(&mut self.archive, j) {
                    Ok(data) => {
                        self.stage = ExtractStage::ManifestWrite(j);
                        ExtractAction::WriteFile(data)
                    },
                    Err(Ok((kind, msg))) => ExtractAction::Finish(
                        Err(InstallError { kind, message: msg }),
                    ),
                    Err(Err(msg)) => ExtractAction::Finish(
                        Err(InstallError { kind: ErrorKind::InvalidData, message: msg }),
                    ),
                },
                Err(_) => {
                    proof {
                        lemma_scan_bound(b, self.platform, self.steam@, self.appid, j + 1);
                    }
                    self.scan(Some(j))
                },
            },
            ExtractStage::ManifestWrite(j) => match answer {
                Ok(_) => {
                    proof {
                        lemma_scan_bound(b, self.platform, self.steam@, self.appid, j + 1);
                    }
                    self.scan(Some(j))
                },
                Err(e) => ExtractAction::Finish(Err(e)),
            },
            ExtractStage::LuaFile(out) => match answer {
                Ok(_) => {
                    self.stage = ExtractStage::LuaWrite;
                    ExtractAction::WriteFile(out)
                },
                Err(e) => ExtractAction::Finish(Err(e)),
            },
            ExtractStage::LuaWrite => match answer {
                Ok(_) => ExtractAction::Finish(Ok(())),
                Err(e) => ExtractAction::Finish(Err(e)),
            },
            ExtractStage::Finished => ExtractAction::Finish(
                Err(InstallError { kind: ErrorKind::Other, message: String::new() }),
            ),
        }
    }
}

/// Looking for depot manifests from entry `i` on leaves a stage within the
/// archive and at most `4 * (entries left) + 5` answers to wait for.
proof fn lemma_scan_bound(b: Seq<u8>, p: Platform, steam: Seq<char>, appid: i32, i: int)
    requires
        0 <= i <= entry_count(b),
    ensures
        stage_in_range(b, scan_from(b, p, steam, appid, i).0),
        0 <= measure(b, scan_from(b, p, steam, appid, i).0) <= 4 * (entry_count(b) - i) + 5,
    decreases entry_count(b) - i,
{
    if i < entry_count(b) {
        match entry_name_of(b, i) {
            Some(n) => if !is_manifest_name(n) {
                lemma_scan_bound(b, p, steam, appid, i + 1);
            },
            None => {},
        }
    }
}


/// Entry `j` holds the numeric Lua manifest named for `appid`.
pub open spec fn preferred_at(b: Seq<u8>, p: Platform, appid: i32, j: int) -> bool {
    match entry_name_of(b, j) {
        Some(m) => numeric_lua(base_name(p, m)) && base_name(p, m) == preferred_lua(appid),
        None => false,
    }
}

proof fn lemma_pick(b: Seq<u8>, p: Platform, appid: i32, i: int, pick: Option<Seq<char>>)
    requires
        0 <= i,
        pick matches Some(q) ==> numeric_lua(base_name(p, q)) && base_name(p, q) != preferred_lua(
            appid,
        ),
    ensures
        pick_lua(b, p, appid, i, pick) matches Ok(Some(n)) ==> numeric_lua(base_name(p, n)),
        (exists|j: int| i <= j < entry_count(b) && #[trigger] preferred_at(b, p, appid, j))
            ==> match pick_lua(b, p, appid, i, pick) {
            Ok(x) => x matches Some(n) && base_name(p, n) == preferred_lua(appid),
            Err(_) => true,
        },
    decreases entry_count(b) - i,
{
    if i < entry_count(b) {
        match entry_name_of(b, i) {
            None => {},
            Some(n) => {
                let bn = base_name(p, n);
                if numeric_lua(bn) && bn == preferred_lua(appid) {
                } else {
                    let next = if numeric_lua(bn) && pick is None {
                        Some(n)
                    } else {
                        pick
                    };
                    lemma_pick(b, p, appid, i + 1, next);
                    if exists|j: int| i <= j < entry_count(b) && #[trigger] preferred_at(b, p, appid, j) {
                        let j = choose|j: int|
                            i <= j < entry_count(b) && #[trigger] preferred_at(b, p, appid, j);
                        assert(j != i);
                        assert(i + 1 <= j < entry_count(b) && preferred_at(b, p, appid, j));
                    }
                }
            },
        }
    }
}

/// The Lua manifest chosen from a ZIP is a numeric one, and when the archive
/// holds `<appid>.lua` among its numeric ones, that is the one chosen (unless
/// reading the names fails first).
pub proof fn law_lua_choice(b: Seq<u8>, p: Platform, appid: i32)
    ensures
        pick_lua(b, p, appid, 0, None) matches Ok(Some(n)) ==> numeric_lua(base_name(p, n)),
        (exists|j: int| 0 <= j < entry_count(b) && #[trigger] preferred_at(b, p, appid, j))
            ==> match pick_lua(b, p, appid, 0, None) {
            Ok(x) => x matches Some(n) && base_name(p, n) == preferred_lua(appid),
            Err(_) => true,
        },
{
    lemma_pick(b, p, appid, 0, None);
}


/// Entries `from` up to `k` (not included) have names that can be read, and
/// none of them is a depot manifest.
pub open spec fn no_manifest_between(b: Seq<u8>, from: int, k: int) -> bool {
    forall|m: int|
        from <= m < k ==> (#[trigger] entry_name_of(b, m) matches Some(n) && !is_manifest_name(n))
}

/// Entry `k` is a depot manifest named `n`.
pub open spec fn manifest_at(b: Seq<u8>, k: int, n: Seq<char>) -> bool {
    0 <= k < entry_count(b) && entry_name_of(b, k) == Some(n) && is_manifest_name(n)
}

proof fn lemma_scan_reaches(b: Seq<u8>, p: Platform, steam: Seq<char>, appid: i32, i: int, k: int, n: Seq<char>)
    requires
        0 <= i <= k,
        no_manifest_between(b, i, k),
        manifest_at(b, k, n),
    ensures
        scan_from(b, p, steam, appid, i) == (
            StageModel::DepotDir(k, manifest_dest(p, steam, n)),
            ActionModel::CreateDirAll(depot_dir(p, steam)),
        ),
    decreases k - i,
{
    if i < k {
        assert(entry_name_of(b, i) matches Some(m) && !is_manifest_name(m));
        assert(no_manifest_between(b, i + 1, k));
        lemma_scan_reaches(b, p, steam, appid, i + 1, k, n);
    }
}

proof fn lemma_scan_to_lua(b: Seq<u8>, p: Platform, steam: Seq<char>, appid: i32, i: int)
    requires
        0 <= i,
        no_manifest_between(b, i, entry_count(b) as int),
    ensures
        scan_from(b, p, steam, appid, i) == lua_pass(b, p, steam, appid),
    decreases entry_count(b) - i,
{
    if i < entry_count(b) {
        assert(entry_name_of(b, i) matches Some(m) && !is_manifest_name(m));
        assert(no_manifest_between(b, i + 1, entry_count(b) as int));
        lemma_scan_to_lua(b, p, steam, appid, i + 1);
    }
}

/// Every depot manifest is extracted, in archive order. When the Lua manifest
/// folder was made (the start, `j == -1`), or when the depot manifest of
/// entry `j` was written, or its folder or file could not be made, the next
/// depot manifest `k` after `j` is handled next, all names between them being
/// readable: its folder `depotcache` is asked for, then its file
/// `depotcache/<file name>`, then its bytes are written, after which the same
/// holds with `k` in place of `j`. With no depot manifest after `j`, the Lua
/// manifest is handled next.
pub proof fn law_every_manifest_extracted(
    b: Seq<u8>,
    p: Platform,
    steam: Seq<char>,
    appid: i32,
    j: int,
    k: int,
    n: Seq<char>,
    d: Seq<u8>,
    e: InstallError,
)
    requires
        -1 <= j < k,
        no_manifest_between(b, j + 1, k),
        manifest_at(b, k, n),
        entry_data_of(b, k) == Some(Ok::<Seq<u8>, ErrorKind>(d)),
    ensures
        ({
            let after = if j == -1 {
                extract_step(b, p, steam, appid, StageModel::LuaDir, Ok(()))
            } else {
                extract_step(b, p, steam, appid, StageModel::ManifestWrite(j), Ok(()))
            };
            let dir = extract_step(b, p, steam, appid, after.0, Ok(()));
            let file = extract_step(b, p, steam, appid, dir.0, Ok(()));
            &&& after.1 == ActionModel::CreateDirAll(depot_dir(p, steam))
            &&& dir.1 == ActionModel::CreateFile(manifest_dest(p, steam, n))
            &&& file == (StageModel::ManifestWrite(k), ActionModel::WriteFile(d))
        }),
        j >= 0 ==> extract_step(b, p, steam, appid, StageModel::DepotDir(j, manifest_dest(p, steam, n)), Err(e)) == extract_step(
            b,
            p,
            steam,
            appid,
            StageModel::ManifestWrite(j),
            Ok(()),
        ),
        j >= 0 ==> extract_step(b, p, steam, appid, StageModel::ManifestFile(j), Err(e))
            == extract_step(b, p, steam, appid, StageModel::ManifestWrite(j), Ok(())),
{
    lemma_scan_reaches(b, p, steam, appid, j + 1, k, n);
}

/// After the last depot manifest is written (or at the start, `j == -1`),
/// with every later name readable, the Lua manifest is handled next.
pub proof fn law_lua_after_last_manifest(b: Seq<u8>, p: Platform, steam: Seq<char>, appid: i32, j: int)
    requires
        -1 <= j,
        no_manifest_between(b, j + 1, entry_count(b) as int),
    ensures
        j == -1 ==> extract_step(b, p, steam, appid, StageModel::LuaDir, Ok(())) == lua_pass(
            b,
            p,
            steam,
            appid,
        ),
        j >= 0 ==> extract_step(b, p, steam, appid, StageModel::ManifestWrite(j), Ok(()))
            == lua_pass(b, p, steam, appid),
{
    lemma_scan_to_lua(b, p, steam, appid, j + 1);
}

} // verus!

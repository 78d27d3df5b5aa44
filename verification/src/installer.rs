//! The install of an app's Lua manifest as a sequence of steps: ManifestHub
//! first, then each ZIP service in turn, until one of them works. The
//! network and file-system work is left to the caller: each step names it,
//! and the caller answers with how it went.

use vstd::prelude::*;

use crate::install::{
    detect_real_steam_path, install_sources, install_steam_path, is_zip, lua_dest, lua_dest_of,
    lua_dir, lua_dir_of, manifest_hub_url, no_steam_message, source_list, zip_api_url, zip_apis, zip_magic,
    ErrorKind, InstallError, Source,
};
use crate::num::decimal_i32;
use crate::paths::Platform;
use crate::steam::{is_listed, listed};
use crate::text::{chars_of, replace_all, string_of};

verus! {

/// The next piece of network or file-system work, or the end.
pub enum InstallAction {
    /// Check which of these paths exist; answer with `Existing`.
    Probe(Vec<String>),
    /// Send a GET request to this URL; answer with `Response`.
    Fetch(String),
    /// Read the body of the last response; answer with `Body`.
    ReadBody,
    /// Create this folder and those above it; answer with `Done`.
    CreateDirAll(String),
    /// Create (or empty) this file; answer with `Done`.
    CreateFile(String),
    /// Write these bytes to the file created last; answer with `Done`.
    WriteFile(Vec<u8>),
    /// Install from this ZIP into this Steam folder (see `Extractor`); answer
    /// with `Done`.
    Extract(Vec<u8>, String),
    /// The install is over with this result.
    Finish(Result<(), InstallError>),
}

/// The caller's answer to an [`InstallAction`].
pub enum InstallEvent {
    /// The probed paths that exist.
    Existing(Vec<String>),
    /// The response's status code, or `None` when no response came.
    Response(Option<u16>),
    /// The response's body, or `None` when it could not be read.
    Body(Option<Vec<u8>>),
    /// How the work went.
    Done(Result<(), InstallError>),
}

/// Where an install stands: which answer it waits for.
pub enum InstallStage {
    CheckDest,
    HubResponse,
    HubBody,
    HubDir(Vec<u8>),
    HubFile(Vec<u8>),
    HubWrite,
    ApiResponse(usize),
    ApiBody(usize),
    ApiExtract(usize),
    Finished,
}

/// [`InstallStage`] with its bytes as sequences.
pub enum StageModel {
    CheckDest,
    HubResponse,
    HubBody,
    HubDir(Seq<u8>),
    HubFile(Seq<u8>),
    HubWrite,
    ApiResponse(int),
    ApiBody(int),
    ApiExtract(int),
    Finished,
}

/// [`InstallAction`] with its text and bytes as sequences.
pub enum ActionModel {
    Probe(Seq<Seq<char>>),
    Fetch(Seq<char>),
    ReadBody,
    CreateDirAll(Seq<char>),
    CreateFile(Seq<char>),
    WriteFile(Seq<u8>),
    Extract(Seq<u8>, Seq<char>),
    Succeed,
    Fail(ErrorKind, Seq<char>),
}

pub open spec fn string_views(v: Seq<String>) -> Seq<Seq<char>> {
    v.map_values(|s: String| s@)
}

/// The action `a` is the one `m` describes.
pub open spec fn acts(a: InstallAction, m: ActionModel) -> bool {
    match (a, m) {
        (InstallAction::Probe(ps), ActionModel::Probe(qs)) => string_views(ps@) == qs,
        (InstallAction::Fetch(u), ActionModel::Fetch(v)) => u@ == v,
        (InstallAction::ReadBody, ActionModel::ReadBody) => true,
        (InstallAction::CreateDirAll(d), ActionModel::CreateDirAll(e)) => d@ == e,
        (InstallAction::CreateFile(d), ActionModel::CreateFile(e)) => d@ == e,
        (InstallAction::WriteFile(b), ActionModel::WriteFile(c)) => b@ == c,
        (InstallAction::Extract(b, s), ActionModel::Extract(c, t)) => b@ == c && s@ == t,
        (InstallAction::Finish(Ok(_)), ActionModel::Succeed) => true,
        (InstallAction::Finish(Err(e)), ActionModel::Fail(k, msg)) => e.kind == k && e.message@
            == msg,
        _ => false,
    }
}

/// A status code of success (`StatusCode::is_success`).
pub open spec fn is_success(code: u16) -> bool {
    200 <= code <= 299
}

/// The step after source `i` did not work: the next ZIP service, or the end
/// when none is left.
pub open spec fn try_api(appid: i32, i: int) -> (StageModel, ActionModel) {
    if 0 <= i < 3 {
        (StageModel::ApiResponse(i), ActionModel::Fetch(zip_api_url(i, appid)))
    } else {
        (
            StageModel::Finished,
            ActionModel::Fail(ErrorKind::ConnectionRefused, "Not found in any source"@),
        )
    }
}

/// The event `ev` answers the action taken in stage `st`.
pub open spec fn answers(st: StageModel, ev: InstallEvent) -> bool {
    match st {
        StageModel::CheckDest => ev is Existing,
        StageModel::HubResponse => ev is Response,
        StageModel::ApiResponse(_) => ev is Response,
        StageModel::HubBody => ev is Body,
        StageModel::ApiBody(_) => ev is Body,
        StageModel::Finished => false,
        _ => ev is Done,
    }
}

/// A failure that the caller reported, passed on.
pub open spec fn passed_on(e: InstallError) -> ActionModel {
    ActionModel::Fail(e.kind, e.message@)
}

/// The stage and action after answer `ev` in stage `st`, installing app
/// `appid` into the Steam folder `target`.
pub open spec fn install_step(
    p: Platform,
    target: Seq<char>,
    appid: i32,
    st: StageModel,
    ev: InstallEvent,
) -> (StageModel, ActionModel) {
    match (st, ev) {
        (StageModel::CheckDest, InstallEvent::Existing(ps)) => if listed(
            ps@,
            lua_dest(p, target, appid),
        ) {
            (StageModel::Finished, ActionModel::Fail(ErrorKind::AlreadyExists, "Game already exists!"@))
        } else {
            (StageModel::HubResponse, ActionModel::Fetch(manifest_hub_url(appid)))
        },
        (StageModel::HubResponse, InstallEvent::Response(r)) => match r {
            Some(code) => if is_success(code) {
                (StageModel::HubBody, ActionModel::ReadBody)
            } else {
                try_api(appid, 0)
            },
            None => try_api(appid, 0),
        },
        (StageModel::HubBody, InstallEvent::Body(b)) => match b {
            Some(bytes) => (StageModel::HubDir(bytes@), ActionModel::CreateDirAll(lua_dir(p, target))),
            None => try_api(appid, 0),
        },
        (StageModel::HubDir(bytes), InstallEvent::Done(d)) => match d {
            Ok(_) => (StageModel::HubFile(bytes), ActionModel::CreateFile(lua_dest(p, target, appid))),
            Err(e) => (StageModel::Finished, passed_on(e)),
        },
        (StageModel::HubFile(bytes), InstallEvent::Done(d)) => match d {
            Ok(_) => (StageModel::HubWrite, ActionModel::WriteFile(bytes)),
            Err(e) => (StageModel::Finished, passed_on(e)),
        },
        (StageModel::HubWrite, InstallEvent::Done(d)) => match d {
            Ok(_) => (StageModel::Finished, ActionModel::Succeed),
            Err(e) => (StageModel::Finished, passed_on(e)),
        },
        (StageModel::ApiResponse(i), InstallEvent::Response(r)) => match r {
            Some(code) => if is_success(code) {
                (StageModel::ApiBody(i), ActionModel::ReadBody)
            } else {
                try_api(appid, i + 1)
            },
            None => try_api(appid, i + 1),
        },
        (StageModel::ApiBody(i), InstallEvent::Body(b)) => match b {
            Some(bytes) => if zip_magic(bytes@) {
                (StageModel::ApiExtract(i), ActionModel::Extract(bytes@, target))
            } else {
                try_api(appid, i + 1)
            },
            None => try_api(appid, i + 1),
        },
        (StageModel::ApiExtract(i), InstallEvent::Done(d)) => match d {
            Ok(_) => (StageModel::Finished, ActionModel::Succeed),
            Err(_) => try_api(appid, i + 1),
        },
        _ => (StageModel::Finished, ActionModel::Fail(ErrorKind::Other, seq![])),
    }
}

/// The ZIP service a stage refers to exists.
pub open spec fn stage_in_range(st: StageModel) -> bool {
    match st {
        StageModel::ApiResponse(i) => 0 <= i < 3,
        StageModel::ApiBody(i) => 0 <= i < 3,
        StageModel::ApiExtract(i) => 0 <= i < 3,
        _ => true,
    }
}

/// A bound on the answers an install still waits for.
pub open spec fn measure(st: StageModel) -> int {
    match st {
        StageModel::CheckDest => 60,
        StageModel::HubResponse => 50,
        StageModel::HubBody => 49,
        StageModel::HubDir(_) => 48,
        StageModel::HubFile(_) => 47,
        StageModel::HubWrite => 46,
        StageModel::ApiResponse(i) => 10 * (3 - i) + 3,
        StageModel::ApiBody(i) => 10 * (3 - i) + 2,
        StageModel::ApiExtract(i) => 10 * (3 - i) + 1,
        StageModel::Finished => 0,
    }
}

proof fn lemma_sources(appid: i32, v: Seq<Source>)
    requires
        crate::install::source_views(v) == source_list(appid),
    ensures
        v.len() == 4,
        v[0].url@ == manifest_hub_url(appid),
        forall|i: int| 0 <= i < 3 ==> (#[trigger] v[i + 1]).url@ == zip_api_url(i, appid),
{
    let sl = source_list(appid);
    assert(crate::install::source_views(v).len() == v.len());
    assert(crate::install::source_views(v)[0] == sl[0]);
    assert(crate::install::source_views(v)[1] == sl[1]);
    assert(crate::install::source_views(v)[2] == sl[2]);
    assert(crate::install::source_views(v)[3] == sl[3]);
}

/// An install in progress: the app, the Steam folder it goes to, and the
/// answer it waits for.
pub struct Installer {
    platform: Platform,
    target: Vec<char>,
    appid: i32,
    sources: Vec<Source>,
    stage: InstallStage,
}

impl Installer {
    pub closed spec fn platform(&self) -> Platform {
        self.platform
    }

    /// The Steam folder installed into.
    pub closed spec fn target(&self) -> Seq<char> {
        self.target@
    }

    pub closed spec fn appid(&self) -> i32 {
        self.appid
    }

    /// Where the install stands.
    pub closed spec fn stage(&self) -> StageModel {
        match self.stage {
            InstallStage::CheckDest => StageModel::CheckDest,
            InstallStage::HubResponse => StageModel::HubResponse,
            InstallStage::HubBody => StageModel::HubBody,
            InstallStage::HubDir(b) => StageModel::HubDir(b@),
            InstallStage::HubFile(b) => StageModel::HubFile(b@),
            InstallStage::HubWrite => StageModel::HubWrite,
            InstallStage::ApiResponse(i) => StageModel::ApiResponse(i as int),
            InstallStage::ApiBody(i) => StageModel::ApiBody(i as int),
            InstallStage::ApiExtract(i) => StageModel::ApiExtract(i as int),
            InstallStage::Finished => StageModel::Finished,
        }
    }

    /// The sources are those of the app and the stage is in range.
    pub closed spec fn wf(&self) -> bool {
        &&& crate::install::source_views(self.sources@) == source_list(self.appid)
        &&& stage_in_range(self.stage())
    }

    /// Begins installing app `appid` for the Steam folder the user gave,
    /// `existing` being those of its probes (`install_path_probes`) that
    /// exist: with no Steam folder found the install fails at once;
    /// otherwise the first step checks whether the Lua manifest is there
    /// already.
    pub fn start(steam_path: &str, appid: i32, platform: Platform, existing: &Vec<String>) -> (r: (
        Installer,
        InstallAction,
    ))
        ensures
            r.0.wf(),
            r.0.platform() == platform,
            r.0.appid() == appid,
            match install_steam_path(platform, steam_path@, existing@) {
                Some(target) => {
                    &&& r.0.target() == target
                    &&& r.0.stage() == StageModel::CheckDest
                    &&& acts(r.1, ActionModel::Probe(seq![lua_dest(platform, target, appid)]))
                },
                None => {
                    &&& r.0.stage() == StageModel::Finished
                    &&& acts(
                        r.1,
                        ActionModel::Fail(
                            ErrorKind::NotFound,
                            no_steam_message(platform, steam_path@),
                        ),
                    )
                },
            },
    {
        let sources = install_sources(appid);
        match detect_real_steam_path(steam_path, platform, existing) {
            Err(e) => (
                Installer {
                    platform,
                    target: Vec::new(),
                    appid,
                    sources,
                    stage: InstallStage::Finished,
                },
                InstallAction::Finish(Err(e)),
            ),
            Ok(target) => {
                let target = chars_of(target.as_str());
                let dest = lua_dest_of(platform, &target, appid);
                let mut probes: Vec<String> = Vec::new();
                probes.push(string_of(&dest));
                assert(string_views(probes@) =~= seq![lua_dest(platform, target@, appid)]);
                (
                    Installer { platform, target, appid, sources, stage: InstallStage::CheckDest },
                    InstallAction::Probe(probes),
                )
            },
        }
    }

    /// The step after source `i` did not work (see [`try_api`]).
    fn next_api(&mut self, i: usize) -> (a: InstallAction)
        requires
            old(self).wf(),
            i <= 3,
        ensures
            final(self).wf(),
            final(self).platform == old(self).platform,
            final(self).target == old(self).target,
            final(self).appid == old(self).appid,
            final(self).sources == old(self).sources,
            final(self).stage() == try_api(old(self).appid, i as int).0,
            acts(a, try_api(old(self).appid, i as int).1),
    {
        proof {
            lemma_sources(self.appid, self.sources@);
        }
        if i < 3 {
            self.stage = InstallStage::ApiResponse(i);
            assert(self.sources@[i + 1].url@ == zip_api_url(i as int, self.appid));
            InstallAction::Fetch(self.sources[i + 1].url.clone())
        } else {
            self.stage = InstallStage::Finished;
            proof {
                reveal_strlit("Not found in any source");
            }
            InstallAction::Finish(
                Err(
                    InstallError {
                        kind: ErrorKind::ConnectionRefused,
                        message: "Not found in any source".to_owned(),
                    },
                ),
            )
        }
    }

    /// Goes on after the caller's answer `ev` to the last action (see
    /// [`install_step`]); each answer brings the end nearer.
    pub fn resume(&mut self, ev: InstallEvent) -> (a: InstallAction)
        requires
            old(self).wf(),
            answers(old(self).stage(), ev),
        ensures
            final(self).wf(),
            final(self).platform() == old(self).platform(),
            final(self).target() == old(self).target(),
            final(self).appid() == old(self).appid(),
            final(self).stage() == install_step(
                old(self).platform(),
                old(self).target(),
                old(self).appid(),
                old(self).stage(),
                ev,
            ).0,
            acts(
                a,
                install_step(
                    old(self).platform(),
                    old(self).target(),
                    old(self).appid(),
                    old(self).stage(),
                    ev,
                ).1,
            ),
            0 <= measure(final(self).stage()) < measure(old(self).stage()),
    {
        let mut stage = InstallStage::Finished;
        std::mem::swap(&mut stage, &mut self.stage);
        match (stage, ev) {
            (InstallStage::CheckDest, InstallEvent::Existing(ps)) => {
                let dest = string_of(&lua_dest_of(self.platform, &self.target, self.appid));
                if is_listed(&ps, &dest) {
                    proof {
                        reveal_strlit("Game already exists!");
                    }
                    InstallAction::Finish(
                        Err(
                            InstallError {
                                kind: ErrorKind::AlreadyExists,
                                message: "Game already exists!".to_owned(),
                            },
                        ),
                    )
                } else {
                    self.stage = InstallStage::HubResponse;
                    proof {
                        lemma_sources(self.appid, self.sources@);
                    }
                    InstallAction::Fetch(self.sources[0].url.clone())
                }
            },
            (InstallStage::HubResponse, InstallEvent::Response(r)) => match r {
                Some(code) => if 200 <= code && code <= 299 {
                    self.stage = InstallStage::HubBody;
                    InstallAction::ReadBody
                } else {
                    self.next_api(0)
                },
                None => self.next_api(0),
            },
            (InstallStage::HubBody, InstallEvent::Body(b)) => match b {
                Some(bytes) => {
                    let dir = lua_dir_of(self.platform, &self.target);
                    self.stage = InstallStage::HubDir(bytes);
                    InstallAction::CreateDirAll(string_of(&dir))
                },
                None => self.next_api(0),
            },
            (InstallStage::HubDir(bytes), InstallEvent::Done(d)) => match d {
                Ok(_) => {
                    let dest = lua_dest_of(self.platform, &self.target, self.appid);
                    self.stage = InstallStage::HubFile(bytes);
                    InstallAction::CreateFile(string_of(&dest))
                },
                Err(e) => InstallAction::Finish(Err(e)),
            },
            (InstallStage::HubFile(bytes), InstallEvent::Done(d)) => match d {
                Ok(_) => {
                    self.stage = InstallStage::HubWrite;
                    InstallAction::WriteFile(bytes)
                },
                Err(e) => InstallAction::Finish(Err(e)),
            },
            (InstallStage::HubWrite, InstallEvent::Done(d)) => match d {
                Ok(_) => InstallAction::Finish(Ok(())),
                Err(e) => InstallAction::Finish(Err(e)),
            },
            (InstallStage::ApiResponse(i), InstallEvent::Response(r)) => match r {
                Some(code) => if 200 <= code && code <= 299 {
                    self.stage = InstallStage::ApiBody(i);
                    InstallAction::ReadBody
                } else {
                    self.next_api(i + 1)
                },
                None => self.next_api(i + 1),
            },
            (InstallStage::ApiBody(i), InstallEvent::Body(b)) => match b {
                Some(bytes) => if is_zip(bytes.as_slice()) {
                    let target = string_of(&self.target);
                    self.stage = InstallStage::ApiExtract(i);
                    InstallAction::Extract(bytes, target)
                } else {
                    self.next_api(i + 1)
                },
                None => self.next_api(i + 1),
            },
            (InstallStage::ApiExtract(i), InstallEvent::Done(d)) => match d {
                Ok(_) => InstallAction::Finish(Ok(())),
                Err(_) => self.next_api(i + 1),
            },
            _ => InstallAction::Finish(
                Err(InstallError { kind: ErrorKind::Other, message: String::new() }),
            ),
        }
    }
}


/// Only answers that start like a ZIP file are handed to extraction.
pub proof fn law_extracts_only_zips(
    p: Platform,
    target: Seq<char>,
    appid: i32,
    st: StageModel,
    ev: InstallEvent,
)
    ensures
        install_step(p, target, appid, st, ev).1 matches ActionModel::Extract(bytes, dir) ==> zip_magic(
            bytes,
        ) && dir == target,
{
}

/// A Lua manifest that is there already is never written over: when the
/// check finds it, the install fails with `AlreadyExists`.
pub proof fn law_existing_manifest_kept(
    p: Platform,
    target: Seq<char>,
    appid: i32,
    ps: Vec<String>,
)
    requires
        listed(ps@, lua_dest(p, target, appid)),
    ensures
        install_step(p, target, appid, StageModel::CheckDest, InstallEvent::Existing(ps))
            == (
            StageModel::Finished,
            ActionModel::Fail(ErrorKind::AlreadyExists, "Game already exists!"@),
        ),
{
}


/// The answer `ev` to source `i`'s stage `st` says that source did not
/// work: no response or a status outside 200..=299, no body or one that is no
/// ZIP, or a failed extraction. ManifestHub is source -1, the ZIP services
/// are 0, 1 and 2.
pub open spec fn source_failed(st: StageModel, ev: InstallEvent, i: int) -> bool {
    match (st, ev) {
        (StageModel::HubResponse, InstallEvent::Response(r)) => i == -1 && (r matches Some(c)
            ==> !(200 <= c <= 299)),
        (StageModel::HubBody, InstallEvent::Body(b)) => i == -1 && b is None,
        (StageModel::ApiResponse(k), InstallEvent::Response(r)) => i == k && (r matches Some(c)
            ==> !(200 <= c <= 299)),
        (StageModel::ApiBody(k), InstallEvent::Body(b)) => i == k && (b matches Some(x) ==> !(
        x@.len() >= 4 && x@[0] == 0x50 && x@[1] == 0x4B && x@[2] == 0x03 && x@[3] == 0x04)),
        (StageModel::ApiExtract(k), InstallEvent::Done(d)) => i == k && d is Err,
        _ => false,
    }
}

/// The sources are tried in turn: when source `i` did not work, the next ZIP
/// service `i + 1` is asked, at its own address, while there is one; only
/// after the last of the three ZIP services does the install end, with
/// `ConnectionRefused` and "Not found in any source".
pub proof fn law_sources_tried_in_turn(
    p: Platform,
    target: Seq<char>,
    appid: i32,
    st: StageModel,
    ev: InstallEvent,
    i: int,
)
    requires
        -1 <= i <= 2,
        source_failed(st, ev, i),
    ensures
        i < 2 ==> install_step(p, target, appid, st, ev) == (
            StageModel::ApiResponse(i + 1),
            ActionModel::Fetch(
                replace_all(zip_apis()[i + 1].1, "{appid}"@, decimal_i32(appid)),
            ),
        ),
        i == 2 ==> install_step(p, target, appid, st, ev) == (
            StageModel::Finished,
            ActionModel::Fail(ErrorKind::ConnectionRefused, "Not found in any source"@),
        ),
{
}

/// No source but the last ends the install with a failure: ManifestHub's
/// answers and those of the first two ZIP services lead to a body to read, a
/// file to make, an extraction, the next source, or success, never to a
/// failure.
pub proof fn law_only_last_source_fails(
    p: Platform,
    target: Seq<char>,
    appid: i32,
    st: StageModel,
    ev: InstallEvent,
)
    requires
        answers(st, ev),
        match st {
            StageModel::HubResponse | StageModel::HubBody => true,
            StageModel::ApiResponse(i) | StageModel::ApiBody(i) | StageModel::ApiExtract(i) => 0
                <= i < 2,
            _ => false,
        },
    ensures
        !(install_step(p, target, appid, st, ev).1 is Fail),
{
}

} // verus!

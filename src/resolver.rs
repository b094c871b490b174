//! The resolution pipeline as a state machine.
//!
//! Each call of [`NeoCMakeExt::step`] takes the outcome of the last action
//! and answers with the next one: the caller performs it (a PATH lookup, a
//! file check, a release query, a download, a directory listing, ...) and
//! reports what came of it, until the action is `Return`.

use vstd::prelude::*;
use vstd::string::*;
use crate::install::{
    lemma_cleanup_leaves_only_kept,
    Candidate, binary_path, binary_path_in, candidate_view, candidates_of, entries_except,
    fallback_candidates, is_newest, any_present, pick_newest, release_dir, release_dir_of,
    stale_entries, versions_of, views, SERVER_NAME,
};
use crate::platform::{
    Architecture, ArchiveKind, Os, arch_label, arch_label_of, archive_kind, archive_kind_for,
    asset_for, asset_name, exe_suffix, exe_suffix_for, os_label, os_label_of,
};

verus! {

/// The GitHub repository that publishes the server's releases.
pub const REPOSITORY: &'static str = "Decodetalkers/neocmakelsp";

/// A downloadable file attached to a release.
#[derive(Debug)]
pub struct Asset {
    pub name: String,
    pub download_url: String,
}

/// The latest release, as the release source describes it.
#[derive(Debug)]
pub struct Release {
    pub version: String,
    pub assets: Vec<Asset>,
}

/// Where a resolution stands: which outcome it waits for, and what it
/// needs to remember until then.
#[derive(Debug)]
pub enum Phase {
    Idle,
    LookingUpPath,
    CheckingCachedFile,
    QueryingPlatform,
    FetchingRelease { os: Os, arch: Architecture },
    CheckingInstalled { binary_path: String, version_dir: String, url: String, kind: ArchiveKind },
    Downloading { binary_path: String, version_dir: String },
    MarkingExecutable { binary_path: String, version_dir: String },
    ListingStale { binary_path: String, version_dir: String },
    RemovingStale { binary_path: String },
    ListingInstalled { suffix: &'static str, error: String },
    CheckingCandidates { candidates: Vec<Candidate>, error: String },
}

/// The outcome of the last action, handed to the next step.
#[derive(Debug)]
pub enum Event {
    /// A new resolution begins.
    Start,
    /// What the search path held for the server's name.
    PathLookup(Option<String>),
    /// Whether the path given by `CheckFile` is an existing file.
    FileCheck(bool),
    /// The platform the host runs on.
    Platform(Os, Architecture),
    /// The latest release, or why it could not be had.
    ReleaseLookup(Result<Release, String>),
    /// The outcome of a download, of marking a file executable, or of removals.
    Completed(Result<(), String>),
    /// The names of the working directory's entries.
    Listing(Result<Vec<String>, String>),
    /// For each path given by `CheckFiles`, whether it is an existing file.
    FileChecks(Vec<bool>),
}

/// What the caller is to do next.
#[derive(Debug)]
pub enum Action {
    /// Look the named executable up on the worktree's search path.
    LookUpPath(String),
    /// Tell whether the path is an existing file.
    CheckFile(String),
    /// Tell the platform and architecture.
    QueryPlatform,
    /// Report "checking for update", then fetch the latest non-prerelease
    /// release with assets of the repository.
    CheckForUpdate(String),
    /// Report "downloading", then fetch the archive at `url` and unpack it into `dir`.
    Download { url: String, dir: String, kind: ArchiveKind },
    /// Mark the file executable.
    MakeExecutable(String),
    /// List the working directory.
    ListWorkingDir,
    /// Remove each entry of the working directory; failures are to be ignored.
    RemoveAll(Vec<String>),
    /// Tell, for each path, whether it is an existing file.
    CheckFiles(Vec<String>),
    /// The resolution is over, with this path or this error.
    Return(Result<String, String>),
}

/// The resolver: the binary resolved earlier in this process, if any, and
/// the state of the resolution under way.
pub struct NeoCMakeExt {
    pub cached_binary_path: Option<String>,
    pub phase: Phase,
}

pub open spec fn unsupported_message(os: Os, arch: Architecture) -> Seq<char> {
    "Unsupported platform-arch combination: "@ + os_label_of(os)@ + " "@ + arch_label_of(arch)@
}

pub open spec fn missing_asset_message(name: Seq<char>) -> Seq<char> {
    "no asset found matching \""@ + name + "\""@
}

pub open spec fn download_failed_message(e: Seq<char>) -> Seq<char> {
    "failed to download file: "@ + e
}

/// Names both the failed release lookup and the missing cached binary.
pub open spec fn no_cached_binary_message(e: Seq<char>) -> Seq<char> {
    "GitHub unreachable and no cached binary found: "@ + e
}

pub open spec fn out_of_order_message() -> Seq<char> {
    "resolution step out of order"@
}

pub open spec fn returns_path(a: Action, p: Seq<char>) -> bool {
    match a {
        Action::Return(Ok(s)) => s@ == p,
        _ => false,
    }
}

pub open spec fn returns_error(a: Action, m: Seq<char>) -> bool {
    match a {
        Action::Return(Err(s)) => s@ == m,
        _ => false,
    }
}

pub open spec fn cache_view(c: Option<String>) -> Option<Seq<char>> {
    match c {
        Some(s) => Some(s@),
        None => None,
    }
}

/// The index of the first asset named `name`.
pub open spec fn is_first_asset(assets: Seq<Asset>, name: Seq<char>, i: int) -> bool {
    &&& 0 <= i < assets.len()
    &&& assets[i].name@ == name
    &&& forall|j: int| 0 <= j < i ==> (#[trigger] assets[j]).name@ != name
}

pub open spec fn has_asset(assets: Seq<Asset>, name: Seq<char>) -> bool {
    exists|i: int| 0 <= i < assets.len() && (#[trigger] assets[i]).name@ == name
}

/// The first asset named `name`, if any.
pub fn find_asset(assets: &Vec<Asset>, name: &str) -> (r: Option<usize>)
    ensures
        r is None <==> !has_asset(assets@, name@),
        r is Some ==> is_first_asset(assets@, name@, r.unwrap() as int),
{
    let wanted = String::from_str(name);
    let mut i: usize = 0;
    while i < assets.len()
        invariant
            i <= assets.len(),
            wanted@ == name@,
            forall|j: int| 0 <= j < i ==> (#[trigger] assets@[j]).name@ != name@,
        decreases assets.len() - i,
    {
        if assets[i].name == wanted {
            return Some(i);
        }
        i += 1;
    }
    None
}

/// One step of a resolution: what follows the event `e` in the state `s`,
/// as the new state `t` and the action `a`.
pub open spec fn transition(s: NeoCMakeExt, e: Event, t: NeoCMakeExt, a: Action) -> bool {
    match e {
        Event::Start => {
            &&& match a {
                Action::LookUpPath(n) => n@ == SERVER_NAME@,
                _ => false,
            }
            &&& t.phase is LookingUpPath
            &&& t.cached_binary_path == s.cached_binary_path
        },
        _ => match (s.phase, e) {
            (Phase::LookingUpPath, Event::PathLookup(Some(p))) => {
                &&& a == Action::Return(Ok(p))
                &&& t.phase is Idle
                &&& t.cached_binary_path == s.cached_binary_path
            },
            (Phase::LookingUpPath, Event::PathLookup(None)) => {
                &&& match s.cached_binary_path {
                    Some(c) => a == Action::CheckFile(c) && t.phase is CheckingCachedFile,
                    None => a is QueryPlatform && t.phase is QueryingPlatform,
                }
                &&& t.cached_binary_path == s.cached_binary_path
            },
            (Phase::CheckingCachedFile, Event::FileCheck(exists)) => {
                &&& match s.cached_binary_path {
                    Some(c) if exists => a == Action::Return(Ok(c)) && t.phase is Idle,
                    _ => a is QueryPlatform && t.phase is QueryingPlatform,
                }
                &&& t.cached_binary_path == s.cached_binary_path
            },
            (Phase::QueryingPlatform, Event::Platform(os, arch)) => {
                &&& match a {
                    Action::CheckForUpdate(r) => r@ == REPOSITORY@,
                    _ => false,
                }
                &&& t.phase == Phase::FetchingRelease { os, arch }
                &&& t.cached_binary_path == s.cached_binary_path
            },
            (Phase::FetchingRelease { os, arch }, Event::ReleaseLookup(Err(err))) => {
                &&& a is ListWorkingDir
                &&& match t.phase {
                    Phase::ListingInstalled { suffix, error } => suffix == exe_suffix_for(os)
                        && error@ == err@,
                    _ => false,
                }
                &&& t.cached_binary_path == s.cached_binary_path
            },
            (Phase::FetchingRelease { os, arch }, Event::ReleaseLookup(Ok(release))) => {
                &&& match asset_for(os, arch) {
                    None => returns_error(a, unsupported_message(os, arch)) && t.phase is Idle,
                    Some(name) => if !has_asset(release.assets@, name@) {
                        returns_error(a, missing_asset_message(name@)) && t.phase is Idle
                    } else {
                        let dir = release_dir_of(release.version@);
                        let path = binary_path_in(dir, exe_suffix_for(os)@);
                        &&& match a {
                            Action::CheckFile(p) => p@ == path,
                            _ => false,
                        }
                        &&& match t.phase {
                            Phase::CheckingInstalled { binary_path, version_dir, url, kind } => {
                                &&& binary_path@ == path
                                &&& version_dir@ == dir
                                &&& kind == archive_kind_for(os)
                                &&& exists|i: int| is_first_asset(release.assets@, name@, i)
                                    && url@ == (#[trigger] release.assets@[i]).download_url@
                            },
                            _ => false,
                        }
                    },
                }
                &&& t.cached_binary_path == s.cached_binary_path
            },
            (
                Phase::CheckingInstalled { binary_path, version_dir, url, kind },
                Event::FileCheck(exists),
            ) => if exists {
                &&& returns_path(a, binary_path@)
                &&& t.phase is Idle
                &&& cache_view(t.cached_binary_path) == Some(binary_path@)
            } else {
                &&& match a {
                    Action::Download { url: u, dir, kind: k } => u@ == url@ && dir@ == version_dir@
                        && k == kind,
                    _ => false,
                }
                &&& match t.phase {
                    Phase::Downloading { binary_path: b, version_dir: d } => b@ == binary_path@
                        && d@ == version_dir@,
                    _ => false,
                }
                &&& t.cached_binary_path == s.cached_binary_path
            },
            (Phase::Downloading { binary_path, version_dir }, Event::Completed(outcome)) => {
                &&& match outcome {
                    Err(err) => returns_error(a, download_failed_message(err@)) && t.phase is Idle,
                    Ok(_) => {
                        &&& match a {
                            Action::MakeExecutable(p) => p@ == binary_path@,
                            _ => false,
                        }
                        &&& match t.phase {
                            Phase::MarkingExecutable { binary_path: b, version_dir: d } => b@
                                == binary_path@ && d@ == version_dir@,
                            _ => false,
                        }
                    },
                }
                &&& t.cached_binary_path == s.cached_binary_path
            },
            (Phase::MarkingExecutable { binary_path, version_dir }, Event::Completed(outcome)) => {
                &&& match outcome {
                    Err(err) => a == Action::Return(Err(err)) && t.phase is Idle,
                    Ok(_) => a is ListWorkingDir && match t.phase {
                        Phase::ListingStale { binary_path: b, version_dir: d } => b@
                            == binary_path@ && d@ == version_dir@,
                        _ => false,
                    },
                }
                &&& t.cached_binary_path == s.cached_binary_path
            },
            (Phase::ListingStale { binary_path, version_dir }, Event::Listing(listing)) => {
                match listing {
                    Ok(names) => {
                        &&& match a {
                            Action::RemoveAll(stale) => views(stale@) == entries_except(
                                views(names@),
                                version_dir@,
                            ),
                            _ => false,
                        }
                        &&& match t.phase {
                            Phase::RemovingStale { binary_path: b } => b@ == binary_path@,
                            _ => false,
                        }
                        &&& t.cached_binary_path == s.cached_binary_path
                    },
                    Err(_) => {
                        &&& returns_path(a, binary_path@)
                        &&& t.phase is Idle
                        &&& cache_view(t.cached_binary_path) == Some(binary_path@)
                    },
                }
            },
            (Phase::RemovingStale { binary_path }, Event::Completed(_)) => {
                &&& returns_path(a, binary_path@)
                &&& t.phase is Idle
                &&& cache_view(t.cached_binary_path) == Some(binary_path@)
            },
            (Phase::ListingInstalled { suffix, error }, Event::Listing(listing)) => {
                &&& match listing {
                    Ok(names) if candidates_of(views(names@), suffix@).len() > 0 => {
                        let cands = candidates_of(views(names@), suffix@);
                        &&& match a {
                            Action::CheckFiles(paths) => paths@.len() == cands.len() && forall|
                                i: int,
                            |
                                0 <= i < cands.len() ==> (#[trigger] paths@[i])@ == cands[i].1,
                            _ => false,
                        }
                        &&& match t.phase {
                            Phase::CheckingCandidates { candidates, error: e2 } => candidates@.map_values(
                                |c: Candidate| candidate_view(c),
                            ) == cands && e2@ == error@,
                            _ => false,
                        }
                    },
                    _ => returns_error(a, no_cached_binary_message(error@)) && t.phase is Idle,
                }
                &&& t.cached_binary_path == s.cached_binary_path
            },
            (Phase::CheckingCandidates { candidates, error }, Event::FileChecks(present)) => {
                &&& if any_present(versions_of(candidates@), present@) {
                    exists|i: int|
                        is_newest(versions_of(candidates@), present@, i) && returns_path(
                            a,
                            (#[trigger] candidates@[i]).path@,
                        )
                } else {
                    returns_error(a, no_cached_binary_message(error@))
                }
                &&& t.phase is Idle
                &&& t.cached_binary_path == s.cached_binary_path
            },
            _ => {
                &&& returns_error(a, out_of_order_message())
                &&& t.phase is Idle
                &&& t.cached_binary_path == s.cached_binary_path
            },
        },
    }
}

/// A binary found on the search path is returned at once, and the
/// resolution ends there: no cache check, release query or scan follows.
pub proof fn lemma_path_override_returns_at_once(s: NeoCMakeExt, p: String, t: NeoCMakeExt, a: Action)
    requires
        s.phase is LookingUpPath,
        transition(s, Event::PathLookup(Some(p)), t, a),
    ensures
        a == Action::Return(Ok(p)),
        t.phase is Idle,
        t.cached_binary_path == s.cached_binary_path,
{
}

/// A path resolved earlier in the process that still names a file is
/// returned as it is, with no scan and no release query.
pub proof fn lemma_cached_path_reused(s: NeoCMakeExt, t: NeoCMakeExt, a: Action)
    requires
        s.phase is CheckingCachedFile,
        s.cached_binary_path is Some,
        transition(s, Event::FileCheck(true), t, a),
    ensures
        a == Action::Return(Ok(s.cached_binary_path.unwrap())),
        t.phase is Idle,
{
}

/// When the latest release is already installed, its binary is returned
/// and remembered: nothing is downloaded and nothing is removed.
pub proof fn lemma_installed_release_not_downloaded(s: NeoCMakeExt, t: NeoCMakeExt, a: Action)
    requires
        s.phase is CheckingInstalled,
        transition(s, Event::FileCheck(true), t, a),
    ensures
        match s.phase {
            Phase::CheckingInstalled { binary_path, .. } => returns_path(a, binary_path@)
                && cache_view(t.cached_binary_path) == Some(binary_path@),
            _ => false,
        },
        t.phase is Idle,
{
}

/// When the release lookup failed with `error` and no installed binary is
/// found, the resolution fails with a message that names both.
pub proof fn lemma_no_fallback_reports_both(
    s: NeoCMakeExt,
    e: Event,
    t: NeoCMakeExt,
    a: Action,
    error: Seq<char>,
)
    requires
        transition(s, e, t, a),
        match (s.phase, e) {
            (Phase::ListingInstalled { suffix, error: err }, Event::Listing(listing)) => {
                &&& err@ == error
                &&& match listing {
                    Ok(names) => candidates_of(views(names@), suffix@).len() == 0,
                    Err(_) => true,
                }
            },
            (Phase::CheckingCandidates { candidates, error: err }, Event::FileChecks(present)) => {
                &&& err@ == error
                &&& !any_present(versions_of(candidates@), present@)
            },
            _ => false,
        },
    ensures
        returns_error(a, "GitHub unreachable and no cached binary found: "@ + error),
        t.phase is Idle,
{
}

/// After a download into `version_dir`, every other entry of the working
/// directory is scheduled for removal, and `version_dir` is kept.
pub proof fn lemma_download_removes_all_others(s: NeoCMakeExt, names: Vec<String>, t: NeoCMakeExt, a: Action)
    requires
        s.phase is ListingStale,
        transition(s, Event::Listing(Ok(names)), t, a),
    ensures
        match (s.phase, a) {
            (Phase::ListingStale { version_dir, .. }, Action::RemoveAll(stale)) => {
                &&& forall|k: int| 0 <= k < names@.len() && names@[k]@ != version_dir@
                    ==> views(stale@).contains(#[trigger] names@[k]@)
                &&& !views(stale@).contains(version_dir@)
            },
            _ => false,
        },
{
    match (s.phase, a) {
        (Phase::ListingStale { version_dir, .. }, Action::RemoveAll(stale)) => {
            lemma_cleanup_leaves_only_kept(views(names@), version_dir@);
            assert forall|k: int| 0 <= k < names@.len() && names@[k]@ != version_dir@
                implies views(stale@).contains(#[trigger] names@[k]@) by {
                assert(views(names@)[k] == names@[k]@);
            }
        },
        _ => {},
    }
}

/// Whatever came of the removals, the installed binary is returned and remembered.
pub proof fn lemma_cleanup_failures_ignored(
    s: NeoCMakeExt,
    outcome: Result<(), String>,
    t: NeoCMakeExt,
    a: Action,
)
    requires
        s.phase is RemovingStale,
        transition(s, Event::Completed(outcome), t, a),
    ensures
        match s.phase {
            Phase::RemovingStale { binary_path } => returns_path(a, binary_path@)
                && cache_view(t.cached_binary_path) == Some(binary_path@),
            _ => false,
        },
{
}

/// The arguments the server is started with: it talks over standard I/O.
pub fn server_args() -> (r: Vec<String>)
    ensures
        r@.len() == 1,
        r@[0]@ == "stdio"@,
{
    let mut r: Vec<String> = Vec::new();
    r.push(String::from_str("stdio"));
    r
}

fn unsupported_error(os: Os, arch: Architecture) -> (r: String)
    ensures
        r@ == unsupported_message(os, arch),
{
    let mut r = String::from_str("Unsupported platform-arch combination: ");
    r.append(os_label(os));
    r.append(" ");
    r.append(arch_label(arch));
    r
}

fn missing_asset_error(name: &str) -> (r: String)
    ensures
        r@ == missing_asset_message(name@),
{
    let mut r = String::from_str("no asset found matching \"");
    r.append(name);
    r.append("\"");
    r
}

fn download_failed_error(e: &str) -> (r: String)
    ensures
        r@ == download_failed_message(e@),
{
    let mut r = String::from_str("failed to download file: ");
    r.append(e);
    r
}

fn no_cached_binary_error(e: &str) -> (r: String)
    ensures
        r@ == no_cached_binary_message(e@),
{
    let mut r = String::from_str("GitHub unreachable and no cached binary found: ");
    r.append(e);
    r
}

/// The binary paths of the candidates, in order.
fn candidate_paths(cands: &Vec<Candidate>) -> (r: Vec<String>)
    ensures
        r@.len() == cands@.len(),
        forall|i: int| 0 <= i < cands@.len() ==> (#[trigger] r@[i])@ == cands@[i].path@,
{
    let mut r: Vec<String> = Vec::new();
    let mut i: usize = 0;
    while i < cands.len()
        invariant
            i <= cands.len(),
            r@.len() == i,
            forall|j: int| 0 <= j < i ==> (#[trigger] r@[j])@ == cands@[j].path@,
        decreases cands.len() - i,
    {
        r.push(cands[i].path.clone());
        i += 1;
    }
    r
}

impl NeoCMakeExt {
    /// A resolver with nothing resolved yet.
    pub fn new() -> (r: Self)
        ensures
            r.cached_binary_path is None,
            r.phase is Idle,
    {
        NeoCMakeExt { cached_binary_path: None, phase: Phase::Idle }
    }

    /// Takes the outcome of the last action and gives the next action.
    #[verifier::rlimit(50)]
    pub fn step(&mut self, event: Event) -> (a: Action)
        ensures
            transition(*old(self), event, *final(self), a),
    {
        let mut phase = Phase::Idle;
        std::mem::swap(&mut self.phase, &mut phase);
        if let Event::Start = event {
            self.phase = Phase::LookingUpPath;
            return Action::LookUpPath(String::from_str(SERVER_NAME));
        }
        match (phase, event) {
            (Phase::LookingUpPath, Event::PathLookup(found)) => match found {
                Some(p) => Action::Return(Ok(p)),
                None => match &self.cached_binary_path {
                    Some(c) => {
                        self.phase = Phase::CheckingCachedFile;
                        Action::CheckFile(c.clone())
                    },
                    None => {
                        self.phase = Phase::QueryingPlatform;
                        Action::QueryPlatform
                    },
                },
            },
            (Phase::CheckingCachedFile, Event::FileCheck(exists)) => {
                if exists {
                    if let Some(c) = &self.cached_binary_path {
                        return Action::Return(Ok(c.clone()));
                    }
                }
                self.phase = Phase::QueryingPlatform;
                Action::QueryPlatform
            },
            (Phase::QueryingPlatform, Event::Platform(os, arch)) => {
                self.phase = Phase::FetchingRelease { os, arch };
                Action::CheckForUpdate(String::from_str(REPOSITORY))
            },
            (Phase::FetchingRelease { os, arch }, Event::ReleaseLookup(outcome)) => match outcome {
                Err(error) => {
                    self.phase = Phase::ListingInstalled { suffix: exe_suffix(os), error };
                    Action::ListWorkingDir
                },
                Ok(release) => {
                    let name = match asset_name(os, arch) {
                        Some(name) => name,
                        None => {
                            return Action::Return(Err(unsupported_error(os, arch)));
                        },
                    };
                    let i = match find_asset(&release.assets, name) {
                        Some(i) => i,
                        None => {
                            return Action::Return(Err(missing_asset_error(name)));
                        },
                    };
                    let version_dir = release_dir(release.version.as_str());
                    let path = binary_path(version_dir.as_str(), exe_suffix(os));
                    let url = release.assets[i].download_url.clone();
                    assert(is_first_asset(release.assets@, name@, i as int));
                    self.phase = Phase::CheckingInstalled {
                        binary_path: path.clone(),
                        version_dir,
                        url,
                        kind: archive_kind(os),
                    };
                    Action::CheckFile(path)
                },
            },
            (
                Phase::CheckingInstalled { binary_path, version_dir, url, kind },
                Event::FileCheck(exists),
            ) => {
                if exists {
                    self.cached_binary_path = Some(binary_path.clone());
                    Action::Return(Ok(binary_path))
                } else {
                    self.phase = Phase::Downloading { binary_path, version_dir: version_dir.clone() };
                    Action::Download { url, dir: version_dir, kind }
                }
            },
            (Phase::Downloading { binary_path, version_dir }, Event::Completed(outcome)) => {
                match outcome {
                    Err(error) => Action::Return(Err(download_failed_error(error.as_str()))),
                    Ok(_) => {
                        let p = binary_path.clone();
                        self.phase = Phase::MarkingExecutable { binary_path, version_dir };
                        Action::MakeExecutable(p)
                    },
                }
            },
            (Phase::MarkingExecutable { binary_path, version_dir }, Event::Completed(outcome)) => {
                match outcome {
                    Err(error) => Action::Return(Err(error)),
                    Ok(_) => {
                        self.phase = Phase::ListingStale { binary_path, version_dir };
                        Action::ListWorkingDir
                    },
                }
            },
            (Phase::ListingStale { binary_path, version_dir }, Event::Listing(listing)) => {
                match listing {
                    Ok(names) => {
                        let stale = stale_entries(&names, version_dir.as_str());
                        self.phase = Phase::RemovingStale { binary_path };
                        Action::RemoveAll(stale)
                    },
                    Err(_) => {
                        self.cached_binary_path = Some(binary_path.clone());
                        Action::Return(Ok(binary_path))
                    },
                }
            },
            (Phase::RemovingStale { binary_path }, Event::Completed(_)) => {
                self.cached_binary_path = Some(binary_path.clone());
                Action::Return(Ok(binary_path))
            },
            (Phase::ListingInstalled { suffix, error }, Event::Listing(listing)) => {
                match listing {
                    Ok(names) => {
                        let candidates = fallback_candidates(&names, suffix);
                        if candidates.len() == 0 {
                            return Action::Return(Err(no_cached_binary_error(error.as_str())));
                        }
                        let paths = candidate_paths(&candidates);
                        proof {
                            let cs = candidates@.map_values(|c: Candidate| candidate_view(c));
                            assert forall|i: int| 0 <= i < cs.len() implies (#[trigger] paths@[i])@
                                == cs[i].1 by {
                                assert(cs[i] == candidate_view(candidates@[i]));
                            }
                        }
                        self.phase = Phase::CheckingCandidates { candidates, error };
                        Action::CheckFiles(paths)
                    },
                    Err(_) => Action::Return(Err(no_cached_binary_error(error.as_str()))),
                }
            },
            (Phase::CheckingCandidates { candidates, error }, Event::FileChecks(present)) => {
                match pick_newest(&candidates, &present) {
                    Some(i) => {
                        let p = candidates[i].path.clone();
                        assert(is_newest(versions_of(candidates@), present@, i as int));
                        Action::Return(Ok(p))
                    },
                    None => Action::Return(Err(no_cached_binary_error(error.as_str()))),
                }
            },
            _ => Action::Return(Err(String::from_str("resolution step out of order"))),
        }
    }
}

} // verus!

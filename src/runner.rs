//! The orchestrator's decisions: which step comes next for an invocation, whether a
//! cached artifact may be used, and what a finished download records.
//!
//! Each step's outside work (probing paths, network, processes) is done by the caller,
//! which hands the outcome back as the next event.
use vstd::prelude::*;
use crate::cache::{CacheEntry, CacheManager, inserted};
use crate::composer::join_path;
use crate::error::Error;
use crate::resolver::{ComposerPackage, ResolvedTool, ToolIdentifier, ToolInfo};
use crate::security::{SecurityManager, md5_hex};

verus! {

/// One invocation's request and switches.
#[derive(Debug)]
pub struct RunRequest {
    pub identifier: ToolIdentifier,
    /// Skip the project's and the user's installed binaries.
    pub no_local: bool,
    /// Remove this tool's cache entries first.
    pub clear_cache: bool,
    /// Do not serve this run from the cache.
    pub no_cache: bool,
}

/// The outcome of the last action, or the start of the run.
#[derive(Debug)]
pub enum RunEvent {
    Start,
    /// A locally installed binary, if one was found.
    LocalProbed(Option<String>),
    CacheCleared,
    /// The version that resolution reports, if it succeeded.
    VersionResolved(Option<String>),
    /// A cache entry that was found and passed verification.
    CacheChecked(Option<CacheEntry>),
    Resolved(Option<ResolvedTool>),
}

/// What to do next.
#[derive(Debug)]
pub enum RunAction {
    /// Look for the tool in the project's and the user's binary directories.
    ProbeLocal(String),
    /// Remove every cache entry of the tool.
    ClearCache(String),
    /// Resolve the identifier only to learn which version it denotes.
    ResolveVersion,
    /// Look up and verify the cache entry for this version.
    CheckCache(String),
    /// Resolve the identifier against the remote sources.
    Resolve,
    /// Run this single file (or local binary) with the interpreter.
    RunFile(String),
    /// Run this installed script with the interpreter.
    RunScript(String),
    /// Download, verify and record this artifact, then run it.
    Fetch(ToolInfo),
    /// Install this package in isolation, record it, then run its binary.
    Install(ComposerPackage),
    /// Stop with this error.
    Fail(Error),
}

/// The filesystem facts about a cache entry's backing storage.
#[derive(Debug)]
pub struct EntryFacts {
    pub path_exists: bool,
    /// For a package directory: its expected binary exists.
    pub bin_exists: bool,
    /// For a single file: its bytes, if they could be read.
    pub content: Option<Vec<u8>>,
}

pub open spec fn after_clear_ok(req: RunRequest, a: RunAction) -> bool {
    if req.no_cache {
        a is Resolve
    } else {
        match req.identifier.version {
            Some(v) => a matches RunAction::CheckCache(x) && x@ == v@,
            None => a is ResolveVersion,
        }
    }
}

pub open spec fn after_local_ok(req: RunRequest, a: RunAction) -> bool {
    if req.clear_cache {
        a matches RunAction::ClearCache(x) && x@ == req.identifier.name@
    } else {
        after_clear_ok(req, a)
    }
}

pub open spec fn after_start_ok(req: RunRequest, a: RunAction) -> bool {
    if !req.no_local {
        a matches RunAction::ProbeLocal(x) && x@ == req.identifier.name@
    } else {
        after_local_ok(req, a)
    }
}

/// The binary name recorded for a package directory, `tool` when none is.
pub open spec fn bin_or_default(e: CacheEntry) -> Seq<char> {
    match e.bin_name {
        Some(b) => b@,
        None => "tool"@,
    }
}

/// Running a verified cache entry: a directory runs its binary, a file runs itself.
pub open spec fn launch_ok(e: CacheEntry, a: RunAction) -> bool {
    if e.is_composer {
        a matches RunAction::RunScript(p) && p@ == join_path(e.file_path@, "vendor/bin"@) + seq!['/']
            + bin_or_default(e)
    } else {
        a matches RunAction::RunFile(p) && p@ == e.file_path@
    }
}

/// The precedence: local binary, then cache clearing, then the cache, then resolution.
pub open spec fn next_ok(req: RunRequest, ev: RunEvent, a: RunAction) -> bool {
    match ev {
        RunEvent::Start => after_start_ok(req, a),
        RunEvent::LocalProbed(Some(p)) => a matches RunAction::RunFile(x) && x@ == p@,
        RunEvent::LocalProbed(None) => after_local_ok(req, a),
        RunEvent::CacheCleared => after_clear_ok(req, a),
        RunEvent::VersionResolved(Some(v)) => a matches RunAction::CheckCache(x) && x@ == v@,
        RunEvent::VersionResolved(None) => a is Resolve,
        RunEvent::CacheChecked(Some(e)) => launch_ok(e, a),
        RunEvent::CacheChecked(None) => a is Resolve,
        RunEvent::Resolved(Some(ResolvedTool::Phar(t))) => a == RunAction::Fetch(t),
        RunEvent::Resolved(Some(ResolvedTool::Composer(p))) => a == RunAction::Install(p),
        RunEvent::Resolved(None) => a matches RunAction::Fail(Error::ToolNotFound(n)) && n@
            == req.identifier.name@,
    }
}

fn after_clear(req: &RunRequest) -> (a: RunAction)
    ensures
        after_clear_ok(*req, a),
{
    if req.no_cache {
        RunAction::Resolve
    } else {
        match &req.identifier.version {
            Some(v) => RunAction::CheckCache(v.clone()),
            None => RunAction::ResolveVersion,
        }
    }
}

fn after_local(req: &RunRequest) -> (a: RunAction)
    ensures
        after_local_ok(*req, a),
{
    if req.clear_cache {
        RunAction::ClearCache(req.identifier.name.clone())
    } else {
        after_clear(req)
    }
}

/// The script path of an installed package entry: `<dir>/vendor/bin/<bin>`.
pub fn installed_binary_path(e: &CacheEntry) -> (r: String)
    ensures
        r@ == join_path(e.file_path@, "vendor/bin"@) + seq!['/'] + bin_or_default(*e),
{
    let mut p = crate::composer::join_paths(e.file_path.as_str(), "vendor/bin");
    let slash = "/";
    proof {
        reveal_strlit("/");
        assert(slash@ =~= seq!['/']);
    }
    p.append(slash);
    match &e.bin_name {
        Some(b) => p.append(b.as_str()),
        None => p.append("tool"),
    }
    p
}

/// The next action of an invocation, given the outcome of the previous one.
pub fn next_action(req: &RunRequest, event: RunEvent) -> (a: RunAction)
    ensures
        next_ok(*req, event, a),
{
    match event {
        RunEvent::Start => if !req.no_local {
            RunAction::ProbeLocal(req.identifier.name.clone())
        } else {
            after_local(req)
        },
        RunEvent::LocalProbed(Some(p)) => RunAction::RunFile(p),
        RunEvent::LocalProbed(None) => after_local(req),
        RunEvent::CacheCleared => after_clear(req),
        RunEvent::VersionResolved(Some(v)) => RunAction::CheckCache(v),
        RunEvent::VersionResolved(None) => RunAction::Resolve,
        RunEvent::CacheChecked(Some(e)) => if e.is_composer {
            RunAction::RunScript(installed_binary_path(&e))
        } else {
            RunAction::RunFile(e.file_path)
        },
        RunEvent::CacheChecked(None) => RunAction::Resolve,
        RunEvent::Resolved(Some(ResolvedTool::Phar(t))) => RunAction::Fetch(t),
        RunEvent::Resolved(Some(ResolvedTool::Composer(p))) => RunAction::Install(p),
        RunEvent::Resolved(None) => RunAction::Fail(Error::ToolNotFound(req.identifier.name.clone())),
    }
}

/// The version a resolution result denotes.
pub fn resolved_version(r: &ResolvedTool) -> (v: String)
    ensures
        v@ == (match r {
            ResolvedTool::Phar(t) => t.version@,
            ResolvedTool::Composer(p) => p.version@,
        }),
{
    match r {
        ResolvedTool::Phar(t) => t.version.clone(),
        ResolvedTool::Composer(p) => p.version.clone(),
    }
}

/// The tool's arguments, with the no-prompt switch appended when asked for.
pub fn effective_args(args: &Vec<String>, no_interaction: bool) -> (r: Vec<String>)
    ensures
        r@ == (if no_interaction {
            args@.push(r@.last())
        } else {
            args@
        }),
        no_interaction ==> r@.last()@ == "--no-interaction"@,
{
    let mut r = crate::resolver::clone_all(args);
    if no_interaction {
        r.push(String::from_str("--no-interaction"));
    }
    r
}

/// The cache file of a downloaded single file: `<cache>/<name>-<version>.phar`.
pub fn phar_cache_path(cache_dir: &str, info: &ToolInfo) -> (r: String)
    ensures
        r@ == join_path(cache_dir@, info.name@ + seq!['-'] + info.version@ + ".phar"@),
{
    let mut leaf = info.name.clone();
    let dash = "-";
    proof {
        reveal_strlit("-");
        assert(dash@ =~= seq!['-']);
    }
    leaf.append(dash);
    leaf.append(info.version.as_str());
    leaf.append(".phar");
    crate::composer::join_paths(cache_dir, leaf.as_str())
}

/// Whether a cache entry may be used: its storage must exist; unless verification is
/// off, a directory must also hold its binary, and a file must have the recorded size
/// and, when one is recorded, the recorded digest.
pub open spec fn entry_check_spec(e: CacheEntry, skip: bool, f: EntryFacts) -> Result<(), ()> {
    if !f.path_exists {
        Err(())
    } else if skip {
        Ok(())
    } else if e.is_composer {
        if f.bin_exists { Ok(()) } else { Err(()) }
    } else {
        match f.content {
            None => Err(()),
            Some(c) => if c@.len() != e.size {
                Err(())
            } else {
                match e.file_hash {
                    Some(h) => if h@.len() > 0 && md5_hex(c@) != h@ { Err(()) } else { Ok(()) },
                    None => Ok(()),
                }
            },
        }
    }
}

/// Checks a cache entry against the facts about its storage.
pub fn verify_cached_tool(
    security: &SecurityManager,
    entry: &CacheEntry,
    skip_verify: bool,
    facts: &EntryFacts,
) -> (r: Result<(), Error>)
    ensures
        (r is Ok) == (entry_check_spec(*entry, skip_verify || security.skips(), *facts) is Ok),
        ({
            let checked = !(skip_verify || security.skips());
            &&& !facts.path_exists ==> (r matches Err(Error::Cache(_)))
            &&& checked && facts.path_exists && entry.is_composer && !facts.bin_exists ==> (r matches Err(
                Error::Cache(_),
            ))
            &&& checked && facts.path_exists && !entry.is_composer && facts.content is None ==> (r matches Err(
                Error::Io(_),
            ))
            &&& checked && facts.path_exists && !entry.is_composer && facts.content is Some
                && facts.content->0@.len() != entry.size ==> (r matches Err(Error::Cache(_)))
            &&& checked && facts.path_exists && !entry.is_composer && facts.content is Some
                && facts.content->0@.len() == entry.size && r is Err ==> (r matches Err(
                Error::Security(_),
            ))
        }),
{
    if !facts.path_exists {
        return Err(Error::Cache(String::from_str("Cached file or directory not found")));
    }
    if skip_verify || security.skip_verification() {
        return Ok(());
    }
    if entry.is_composer {
        if !facts.bin_exists {
            return Err(Error::Cache(String::from_str("Cached composer tool binary not found")));
        }
        return Ok(());
    }
    match &facts.content {
        None => Err(Error::Io(String::from_str("Cached file could not be read"))),
        Some(c) => {
            if c.len() as u64 != entry.size {
                return Err(Error::Cache(String::from_str("Cached file size mismatch")));
            }
            match &entry.file_hash {
                Some(h) => if h.as_str().unicode_len() > 0 {
                    security.verify_hash(c, h.as_str())
                } else {
                    Ok(())
                },
                None => Ok(()),
            }
        },
    }
}

/// Checks a downloaded artifact and records it in the cache: with verification on,
/// a declared digest must match (signatures are not checked here); the recorded digest is the content's, or empty when
/// this run skips verification.
pub fn record_download(
    cache: &mut CacheManager,
    security: &SecurityManager,
    info: &ToolInfo,
    path: &str,
    content: &Vec<u8>,
    skip_verify: bool,
    now: u64,
) -> (r: Result<(), Error>)
    requires
        old(cache).wf(),
    ensures
        final(cache).wf(),
        final(cache).dir() == old(cache).dir(),
        r is Err <==> (!(skip_verify || security.skips()) && info.hash is Some && md5_hex(content@)
            != info.hash->0@),
        r is Err ==> (r matches Err(Error::Security(_))) && final(cache)@ == old(cache)@,
        r is Ok ==> final(cache)@ == inserted(old(cache)@, final(cache)@.last()),
        r is Ok ==> {
            let e = final(cache)@.last();
            &&& e.tool_name@ == info.name@
            &&& e.version@ == info.version@
            &&& e.file_path@ == path@
            &&& e.download_url@ == info.download_url@
            &&& e.file_hash is Some
            &&& e.file_hash->0@ == (if skip_verify { Seq::<char>::empty() } else { md5_hex(content@) })
            &&& e.created_at == now && e.last_accessed == now
            &&& e.size == content@.len()
            &&& e.bin_name is None && !e.is_composer
        },
{
    if !skip_verify && !security.skip_verification() {
        match &info.hash {
            Some(h) => {
                let checked = security.verify_hash(content, h.as_str());
                if checked.is_err() {
                    return checked;
                }
            },
            None => {},
        }
    }
    let digest = if skip_verify {
        String::new()
    } else {
        security.calculate_hash(content)
    };
    cache.add_entry(
        info.name.clone(),
        info.version.clone(),
        String::from_str(path),
        info.download_url.clone(),
        Some(digest),
        content.len() as u64,
        now,
    );
    Ok(())
}

} // verus!

//! Isolated per-(package, version) installs: where they go, what manifest they get,
//! when an existing install is reused, and how override directories are named.
use vstd::prelude::*;
use crate::cache::{
    CacheEntry, CacheManager, inserted, is_install_record, key_of, key_pos, key_spec, same_but_access, touched,
};
use crate::error::Error;
use crate::resolver::{ComposerPackage, last_segment};
use crate::text::{first_pos, join_spec, replace_char_spec, split_spec, views};

verus! {

/// Paths and manifest for one isolated install.
#[derive(Debug)]
pub struct InstallPlan {
    pub install_dir: String,
    pub bin_name: String,
    /// The file whose presence shows a finished install: the binary for a tool,
    /// the autoload entrypoint for an override.
    pub entry_path: String,
    /// The single-dependency manifest written into the install directory.
    pub manifest: String,
    /// Home and cache directories of the package manager, apart from the user's own.
    pub composer_home: String,
    pub composer_cache: String,
}

pub open spec fn join_path(a: Seq<char>, b: Seq<char>) -> Seq<char> {
    a + seq!['/'] + b
}

/// The package name with `/` replaced by `-`.
pub open spec fn slug_spec(package: Seq<char>) -> Seq<char> {
    replace_char_spec(package, '/', '-')
}

/// `<cache>/<area>/<slug>-<version>`.
pub open spec fn install_dir_spec(cache: Seq<char>, area: Seq<char>, package: Seq<char>, version: Seq<char>) -> Seq<char> {
    join_path(join_path(cache, area), slug_spec(package) + seq!['-'] + version)
}

/// `{"require":{"<package>":"<version>"}}`.
pub open spec fn manifest_spec(package: Seq<char>, version: Seq<char>) -> Seq<char> {
    "{\"require\":{\""@ + package + "\":\""@ + version + "\"}}"@
}

/// The binary a tool install exposes: the first declared one, else the package's last segment.
pub open spec fn bin_choice(bins: Seq<Seq<char>>, package: Seq<char>) -> Seq<char> {
    if bins.len() > 0 {
        bins[0]
    } else {
        last_segment(package)
    }
}

/// The plan fits `package` at `version` under `cache` in `area`, exposing `entry`
/// (relative to the install directory) and the named binary.
pub open spec fn plan_spec(
    p: InstallPlan,
    cache: Seq<char>,
    area: Seq<char>,
    package: Seq<char>,
    version: Seq<char>,
    bin: Seq<char>,
    entry: Seq<char>,
) -> bool {
    &&& p.install_dir@ == install_dir_spec(cache, area, package, version)
    &&& p.bin_name@ == bin
    &&& p.entry_path@ == join_path(p.install_dir@, entry)
    &&& p.manifest@ == manifest_spec(package, version)
    &&& p.composer_home@ == join_path(cache, "composer_home"@)
    &&& p.composer_cache@ == join_path(cache, "composer_cache"@)
}

/// The package manager must run: the install directory or its binary is missing.
pub open spec fn install_needed(dir_exists: bool, bin_exists: bool) -> bool {
    !(dir_exists && bin_exists)
}

/// Installing the same package and version twice runs the package manager once: both
/// requests plan the same directory and binary, and once the first install has finished
/// (its binary was found afterwards, so it was recorded) the second finds them in place.
pub proof fn lemma_second_install_reuses(
    first: InstallPlan,
    second: InstallPlan,
    cache: Seq<char>,
    package: Seq<char>,
    version: Seq<char>,
    bin: Seq<char>,
)
    requires
        plan_spec(first, cache, "composer"@, package, version, bin, "vendor/bin/"@ + bin),
        plan_spec(second, cache, "composer"@, package, version, bin, "vendor/bin/"@ + bin),
    ensures
        second.install_dir@ == first.install_dir@,
        second.entry_path@ == first.entry_path@,
        !install_needed(true, true),
{
}

pub fn join_paths(a: &str, b: &str) -> (r: String)
    ensures
        r@ == join_path(a@, b@),
{
    let mut r = String::from_str(a);
    let sep = "/";
    proof {
        reveal_strlit("/");
    }
    r.append(sep);
    r.append(b);
    r
}

/// The package name with `/` replaced by `-`.
pub fn package_slug(package: &str) -> (r: String)
    ensures
        r@ == slug_spec(package@),
{
    let dash = "-";
    proof {
        reveal_strlit("-");
    }
    crate::text::replace_char(package, '/', dash)
}

fn install_dir(cache_dir: &str, area: &str, package: &str, version: &str) -> (r: String)
    ensures
        r@ == install_dir_spec(cache_dir@, area@, package@, version@),
{
    let base = join_paths(cache_dir, area);
    let mut leaf = package_slug(package);
    let dash = "-";
    proof {
        reveal_strlit("-");
    }
    leaf.append(dash);
    leaf.append(version);
    join_paths(base.as_str(), leaf.as_str())
}

/// The single-dependency manifest.
pub fn manifest_text(package: &str, version: &str) -> (r: String)
    ensures
        r@ == manifest_spec(package@, version@),
{
    let mut r = String::from_str("{\"require\":{\"");
    r.append(package);
    r.append("\":\"");
    r.append(version);
    r.append("\"}}");
    r
}

fn make_plan(cache_dir: &str, area: &str, package: &str, version: &str, bin: String, entry: &str) -> (r: InstallPlan)
    ensures
        plan_spec(r, cache_dir@, area@, package@, version@, bin@, entry@),
{
    let dir = install_dir(cache_dir, area, package, version);
    let entry_path = join_paths(dir.as_str(), entry);
    InstallPlan {
        install_dir: dir,
        bin_name: bin,
        entry_path,
        manifest: manifest_text(package, version),
        composer_home: join_paths(cache_dir, "composer_home"),
        composer_cache: join_paths(cache_dir, "composer_cache"),
    }
}

/// Where and how a tool package is installed: `<cache>/composer/<slug>-<version>`,
/// exposing `vendor/bin/<bin>`.
pub fn plan_tool_install(pkg: &ComposerPackage, cache_dir: &str) -> (r: InstallPlan)
    ensures
        plan_spec(
            r,
            cache_dir@,
            "composer"@,
            pkg.package@,
            pkg.version@,
            bin_choice(views(pkg.bin_names@), pkg.package@),
            "vendor/bin/"@ + bin_choice(views(pkg.bin_names@), pkg.package@),
        ),
{
    let bin = if pkg.bin_names.len() > 0 {
        proof {
            assert(views(pkg.bin_names@)[0] == pkg.bin_names@[0]@);
        }
        pkg.bin_names[0].clone()
    } else {
        crate::resolver::last_path_segment(pkg.package.as_str())
    };
    let mut entry = String::from_str("vendor/bin/");
    entry.append(bin.as_str());
    make_plan(cache_dir, "composer", pkg.package.as_str(), pkg.version.as_str(), bin, entry.as_str())
}

/// Where and how an override library is installed: `<cache>/override/<slug>-<version>`,
/// finished once `vendor/autoload.php` exists.
pub fn plan_override_install(package: &str, version: &str, cache_dir: &str) -> (r: InstallPlan)
    ensures
        plan_spec(r, cache_dir@, "override"@, package@, version@, Seq::<char>::empty(), "vendor/autoload.php"@),
{
    make_plan(cache_dir, "override", package, version, String::new(), "vendor/autoload.php")
}

/// Whether the package manager must run for a tool: not when the planned directory and
/// its binary already exist.
pub fn needs_tool_install(dir_exists: bool, bin_exists: bool) -> (r: bool)
    ensures
        r == install_needed(dir_exists, bin_exists),
{
    !(dir_exists && bin_exists)
}

/// Whether an override install must run: not when its directory and autoload entrypoint exist.
pub fn needs_override_install(dir_exists: bool, autoload_exists: bool) -> (r: bool)
    ensures
        r == !(dir_exists && autoload_exists),
{
    !(dir_exists && autoload_exists)
}

/// Completes a tool install: the binary must exist afterwards, and the directory is
/// then recorded in the cache.
pub fn finish_tool_install(
    cache: &mut CacheManager,
    pkg: &ComposerPackage,
    plan: &InstallPlan,
    bin_exists: bool,
    now: u64,
) -> (r: Result<(), Error>)
    requires
        old(cache).wf(),
    ensures
        final(cache).wf(),
        final(cache).dir() == old(cache).dir(),
        r is Ok <==> bin_exists,
        r is Err ==> (r matches Err(Error::ComposerInstallFailed(_))) && final(cache)@ == old(cache)@,
        r is Ok ==> final(cache)@ == inserted(old(cache)@, final(cache)@.last()) && is_install_record(
            final(cache)@.last(),
            pkg.package@,
            pkg.version@,
            plan.install_dir@,
            plan.bin_name@,
            now,
        ),
{
    if !bin_exists {
        let mut msg = String::from_str("vendor/bin/");
        msg.append(plan.bin_name.as_str());
        msg.append(" not found after install");
        return Err(Error::ComposerInstallFailed(msg));
    }
    cache.add_composer_entry(
        pkg.package.clone(),
        pkg.version.clone(),
        plan.install_dir.clone(),
        plan.bin_name.clone(),
        now,
    );
    Ok(())
}

/// Completes an override install: the autoload entrypoint must exist afterwards.
pub fn finish_override_install(autoload_exists: bool) -> (r: Result<(), Error>)
    ensures
        r is Ok <==> autoload_exists,
        r is Err ==> r matches Err(Error::ComposerInstallFailed(_)),
{
    if autoload_exists {
        Ok(())
    } else {
        Err(Error::ComposerInstallFailed(String::from_str("vendor/autoload.php not found after install")))
    }
}

/// The file path recorded under `composer:<version>`, if that record is a single file.
pub open spec fn composer_file(s: Seq<CacheEntry>, version: Seq<char>) -> Seq<Seq<char>> {
    match key_pos(s, key_spec("composer"@, version)) {
        Some(i) => if !s[i].is_composer {
            seq![s[i].file_path@]
        } else {
            Seq::<Seq<char>>::empty()
        },
        None => Seq::<Seq<char>>::empty(),
    }
}

proof fn lemma_key_pos_valid(s: Seq<CacheEntry>, k: Seq<char>)
    ensures
        key_pos(s, k) is Some ==> 0 <= key_pos(s, k)->0 < s.len() && key_of(s[key_pos(s, k)->0]) == k,
    decreases s.len(),
{
    if s.len() > 0 {
        lemma_key_pos_valid(s.drop_last(), k);
    }
}

proof fn lemma_key_pos_touch(s: Seq<CacheEntry>, i: int, now: u64, k: Seq<char>)
    requires
        0 <= i < s.len(),
    ensures
        key_pos(s.update(i, touched(s[i], now)), k) == key_pos(s, k),
    decreases s.len(),
{
    let t = s.update(i, touched(s[i], now));
    if i < s.len() - 1 {
        assert(t.drop_last() =~= s.drop_last().update(i, touched(s.drop_last()[i], now)));
        lemma_key_pos_touch(s.drop_last(), i, now, k);
    } else {
        assert(t.drop_last() =~= s.drop_last());
    }
}

/// Paths of cached package-manager single files, in the order they are preferred
/// (`composer:latest`, then `composer:stable`); each found record is touched.
pub fn cached_composer_paths(cache: &mut CacheManager, now: u64) -> (r: Vec<String>)
    requires
        old(cache).wf(),
    ensures
        final(cache).wf(),
        final(cache).dir() == old(cache).dir(),
        views(r@) == composer_file(old(cache)@, "latest"@) + composer_file(old(cache)@, "stable"@),
        same_but_access(old(cache)@, final(cache)@),
{
    let mut out: Vec<String> = Vec::new();
    let name = "composer";
    let ghost s0 = cache@;
    let first = cache.get_entry(name, "latest", now);
    let ghost s1 = cache@;
    proof {
        let k2 = key_spec("composer"@, "stable"@);
        if let Some(i) = key_pos(s0, key_spec("composer"@, "latest"@)) {
            lemma_key_pos_valid(s0, key_spec("composer"@, "latest"@));
            lemma_key_pos_touch(s0, i, now, k2);
            if let Some(j) = key_pos(s0, k2) {
                lemma_key_pos_valid(s0, k2);
                assert(s1[j].is_composer == s0[j].is_composer);
                assert(s1[j].file_path == s0[j].file_path);
            }
        }
    }
    if let Some(e) = first {
        if !e.is_composer {
            out.push(e.file_path);
        }
    }
    proof {
        assert(views(out@) =~= composer_file(s0, "latest"@));
    }
    let ghost o1 = views(out@);
    let second = cache.get_entry(name, "stable", now);
    if let Some(e) = second {
        if !e.is_composer {
            out.push(e.file_path);
        }
    }
    proof {
        assert(views(out@) =~= o1 + composer_file(s1, "stable"@));
        let s2 = cache@;
        lemma_key_pos_valid(s1, key_spec("composer"@, "stable"@));
        lemma_key_pos_valid(s0, key_spec("composer"@, "latest"@));
        assert(s1.len() == s0.len());
        assert(s2.len() == s1.len());
        assert forall|i: int| 0 <= i < s0.len() implies #[trigger] s2[i] == touched(s0[i], s2[i].last_accessed) by {
            assert(s1[i] == touched(s0[i], s1[i].last_accessed));
            assert(s2[i] == touched(s1[i], s2[i].last_accessed));
        }
    }
    out
}

/// `s` with its first `a` replaced by `b`.
pub open spec fn replace_first(s: Seq<char>, a: char, b: char) -> Seq<char> {
    let p = first_pos(s, a);
    if p < s.len() {
        s.update(p, b)
    } else {
        s
    }
}

/// Package and version encoded in an override directory name `<vendor>-<package>-<version>`:
/// the version is the last hyphen segment when it starts with a digit, and the first
/// hyphen of the rest stands for the `/` of the package name.
pub open spec fn decode_spec(name: Seq<char>) -> (Seq<char>, Seq<char>) {
    let parts = split_spec(name, '-');
    if parts.len() < 2 {
        (name, Seq::<char>::empty())
    } else if parts.last().len() > 0 && '0' <= parts.last()[0] && parts.last()[0] <= '9' {
        (replace_first(join_spec(parts.drop_last(), seq!['-']), '-', '/'), parts.last())
    } else {
        (replace_first(name, '-', '/'), Seq::<char>::empty())
    }
}

fn replace_first_dash(s: &str) -> (r: String)
    ensures
        r@ == replace_first(s@, '-', '/'),
{
    proof {
        crate::text::lemma_first_pos_bounds(s@, '-');
    }
    let n = s.unicode_len();
    let p = crate::text::find_char(s, '-');
    if p < n {
        let mut r = String::from_str(s.substring_char(0, p));
        let slash = "/";
        proof {
            reveal_strlit("/");
        }
        r.append(slash);
        r.append(s.substring_char(p + 1, n));
        proof {
            assert(r@ =~= s@.update(p as int, '/'));
        }
        r
    } else {
        String::from_str(s)
    }
}

/// Package and version of an override directory name.
pub fn decode_override_dir(name: &str) -> (r: (String, String))
    ensures
        (r.0@, r.1@) == decode_spec(name@),
{
    let mut parts = crate::text::split_chars(name, '-');
    if parts.len() < 2 {
        return (String::from_str(name), String::new());
    }
    let ghost all = views(parts@);
    let last = parts.pop().unwrap();
    proof {
        assert(all.last() == last@);
        assert(views(parts@) =~= all.drop_last());
    }
    let digit = {
        let m = last.as_str().unicode_len();
        if m > 0 {
            let c = last.as_str().get_char(0);
            '0' <= c && c <= '9'
        } else {
            false
        }
    };
    if digit {
        let dash = "-";
        proof {
            reveal_strlit("-");
        }
        assert(dash@ =~= seq!['-']);
        let slug = crate::text::join_strings(&parts, dash);
        (replace_first_dash(slug.as_str()), last)
    } else {
        (replace_first_dash(name), String::new())
    }
}

/// An override directory name decodes to `package` (and to `version`, when given).
pub open spec fn override_match_spec(dir: Seq<char>, package: Seq<char>, version: Option<Seq<char>>) -> bool {
    decode_spec(dir).0 == package && match version {
        Some(v) => decode_spec(dir).1 == v,
        None => true,
    }
}

/// Whether an override directory is to be removed for `package` (and `version`).
pub fn override_dir_matches(dir: &str, package: &str, version: Option<&str>) -> (r: bool)
    ensures
        r == override_match_spec(dir@, package@, crate::versions::opt_view(version)),
{
    let (p, v) = decode_override_dir(dir);
    if !crate::text::str_eq(p.as_str(), package) {
        return false;
    }
    match version {
        None => true,
        Some(want) => crate::text::str_eq(v.as_str(), want),
    }
}

/// A character as it stands inside a single-quoted PHP string.
pub open spec fn escape_char(c: char) -> Seq<char> {
    if c == '\\' {
        seq!['\\', '\\']
    } else if c == '\'' {
        seq!['\\', '\'']
    } else {
        seq![c]
    }
}

/// The text with backslashes and single quotes escaped.
pub open spec fn escape_spec(s: Seq<char>) -> Seq<char>
    decreases s.len(),
{
    if s.len() == 0 {
        s
    } else {
        escape_spec(s.drop_last()) + escape_char(s.last())
    }
}

/// The bootstrap script that loads the override install's autoload file, then the project's.
pub open spec fn bootstrap_spec(autoload: Seq<char>) -> Seq<char> {
    "<?php\n// phpx add --bootstrap: load the override vendor first, then the project vendor.\nrequire '"@
        + escape_spec(autoload) + "';\nrequire __DIR__ . '/vendor/autoload.php';\n"@
}

fn escape_php(s: &str) -> (r: String)
    ensures
        r@ == escape_spec(s@),
{
    let n = s.unicode_len();
    let mut out = String::new();
    let mut i: usize = 0;
    while i < n
        invariant
            n == s@.len(),
            i <= n,
            out@ == escape_spec(s@.take(i as int)),
        decreases n - i,
    {
        proof {
            assert(s@.take(i + 1).drop_last() =~= s@.take(i as int));
        }
        let c = s.get_char(i);
        if c == '\\' {
            let e = "\\\\";
            proof {
                reveal_strlit("\\\\");
            }
            out.append(e);
        } else if c == '\'' {
            let e = "\\'";
            proof {
                reveal_strlit("\\'");
            }
            out.append(e);
        } else {
            out.append(s.substring_char(i, i + 1));
        }
        proof {
            assert(out@ =~= escape_spec(s@.take(i + 1)));
        }
        i = i + 1;
    }
    proof {
        assert(s@.take(n as int) =~= s@);
    }
    out
}

/// The bootstrap script for the override autoload file at `autoload_path`.
pub fn override_bootstrap_text(autoload_path: &str) -> (r: String)
    ensures
        r@ == bootstrap_spec(autoload_path@),
{
    let mut r = String::from_str(
        "<?php\n// phpx add --bootstrap: load the override vendor first, then the project vendor.\nrequire '",
    );
    let escaped = escape_php(autoload_path);
    r.append(escaped.as_str());
    r.append("';\nrequire __DIR__ . '/vendor/autoload.php';\n");
    r
}

} // verus!

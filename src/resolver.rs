//! Tool identifiers and the resolution of an identifier against the remote sources.
//!
//! The network round trips happen outside; every decision about what is asked for and
//! what an answer means is made here.
use vstd::prelude::*;
use crate::error::Error;
use crate::text::{
    first_pos, has_suffix, join_spec, split_spec, strip_leading, views,
};
use crate::versions::{highest, is_range, literal_pos, as_index};

verus! {

/// A tool name with an optional version range or exact version text.
/// At most one of the two is set; neither means "latest available".
#[derive(Debug)]
pub struct ToolIdentifier {
    pub name: String,
    /// Text that parses as a version range.
    pub version_constraint: Option<String>,
    /// An exact version, `latest`, or any text that is not a range.
    pub version: Option<String>,
}

/// A single-file artifact to download.
#[derive(Debug)]
pub struct ToolInfo {
    pub name: String,
    pub version: String,
    pub download_url: String,
    pub signature_url: Option<String>,
    pub hash: Option<String>,
}

/// A library package to install in an isolated directory.
#[derive(Debug)]
pub struct ComposerPackage {
    pub package: String,
    pub version: String,
    pub bin_names: Vec<String>,
}

/// What an identifier resolves to.
#[derive(Debug)]
pub enum ResolvedTool {
    Phar(ToolInfo),
    Composer(ComposerPackage),
}

/// One published version of a registry package.
#[derive(Debug)]
pub struct PackagistVersion {
    /// The key under which the registry lists it.
    pub version: String,
    pub dist_url: String,
    /// The distribution kind: `path` for a single file, `zip` for a source archive.
    pub dist_type: String,
    pub bin: Option<Vec<String>>,
}

/// A file attached to a release.
#[derive(Debug)]
pub struct GitHubAsset {
    pub name: String,
    pub download_url: String,
}

/// A tagged release with its files.
#[derive(Debug)]
pub struct GitHubRelease {
    pub tag_name: String,
    pub assets: Vec<GitHubAsset>,
}

/// The resolver; it holds no state.
pub struct ToolResolver;

pub open spec fn opt_str_view(o: Option<String>) -> Option<Seq<char>> {
    match o {
        Some(s) => Some(s@),
        None => None,
    }
}

/// The identifier that the text `s` denotes, as name, range and version texts;
/// `None` when it holds more than one `@`.
pub open spec fn identifier_spec(s: Seq<char>) -> Option<(Seq<char>, Option<Seq<char>>, Option<Seq<char>>)> {
    let parts = split_spec(s, '@');
    if parts.len() == 1 {
        Some((parts[0], None, None))
    } else if parts.len() == 2 {
        if parts[1] == "latest"@ {
            Some((parts[0], None, Some("latest"@)))
        } else if is_range(parts[1]) {
            Some((parts[0], Some(parts[1]), None))
        } else {
            Some((parts[0], None, Some(parts[1])))
        }
    } else {
        None
    }
}

impl ToolIdentifier {
    /// The identifier as its name, range and version texts.
    pub open spec fn spec_parts(&self) -> (Seq<char>, Option<Seq<char>>, Option<Seq<char>>) {
        (self.name@, opt_str_view(self.version_constraint), opt_str_view(self.version))
    }

    /// No range is given, and the version is absent or `latest`.
    pub open spec fn wants_latest(&self) -> bool {
        self.version_constraint is None && (self.version is None || self.version->0@ == "latest"@)
    }
}

/// Text after `@` that is not a version range is kept as an exact version, never
/// refused: `name@x` denotes `name` with the literal version `x`.
pub proof fn lemma_non_range_is_literal(name: Seq<char>, x: Seq<char>)
    requires
        !name.contains('@'),
        !x.contains('@'),
        !is_range(x),
    ensures
        identifier_spec(name + seq!['@'] + x) == Some((name, None::<Seq<char>>, Some(x))),
{
    crate::text::lemma_split_no_sep(name, '@');
    let u = name + seq!['@'];
    assert(u.drop_last() =~= name);
    assert(split_spec(u, '@') =~= seq![name, Seq::<char>::empty()]);
    crate::text::lemma_split_append(u, x, '@');
    assert(Seq::<char>::empty() + x =~= x);
    assert(split_spec(u + x, '@') =~= seq![name, x]);
}

/// Which candidate version the selection policy takes: `keys` are the version texts,
/// `tags` the texts an exact version is compared with (a `v` prefix allowed if `prefixed`).
pub open spec fn select_spec(
    keys: Seq<Seq<char>>,
    tags: Seq<Seq<char>>,
    prefixed: bool,
    id: ToolIdentifier,
) -> Option<int> {
    match id.version_constraint {
        Some(c) => highest(keys, Some(c@)),
        None => match id.version {
            Some(v) => if v@ == "latest"@ {
                highest(keys, None)
            } else {
                literal_pos(tags, v@, prefixed)
            },
            None => highest(keys, None),
        },
    }
}

/// The text after the last `/` (the whole text when there is none).
pub open spec fn last_segment(s: Seq<char>) -> Seq<char> {
    split_spec(s, '/').last()
}

/// The bin names of a registry source archive: the declared ones reduced to their last
/// path segment, or the package's last path segment when none are declared.
pub open spec fn bins_spec(bin: Option<Vec<String>>, package: Seq<char>) -> Seq<Seq<char>> {
    match bin {
        Some(b) => if b@.len() > 0 {
            views(b@).map_values(|x: Seq<char>| last_segment(x))
        } else {
            seq![last_segment(package)]
        },
        None => seq![last_segment(package)],
    }
}

pub open spec fn version_keys(vs: Seq<PackagistVersion>) -> Seq<Seq<char>> {
    vs.map_values(|e: PackagistVersion| e.version@)
}

/// `t` is the single-file artifact with these texts and no signature or hash.
pub open spec fn is_phar_info(t: ToolInfo, name: Seq<char>, version: Seq<char>, url: Seq<char>) -> bool {
    t.name@ == name && t.version@ == version && t.download_url@ == url && t.signature_url is None
        && t.hash is None
}

/// What the registry stage makes of the listing of `package`.
pub open spec fn packagist_outcome(
    id: ToolIdentifier,
    package: Seq<char>,
    vs: Seq<PackagistVersion>,
    r: Option<ResolvedTool>,
) -> bool {
    let keys = version_keys(vs);
    match select_spec(keys, keys, false, id) {
        None => r is None,
        Some(i) => {
            let e = vs[i];
            if e.dist_type@ == "path"@ {
                r matches Some(ResolvedTool::Phar(t)) && is_phar_info(t, id.name@, e.version@, e.dist_url@)
            } else if e.dist_type@ == "zip"@ {
                r matches Some(ResolvedTool::Composer(p)) && p.package@ == package && p.version@
                    == e.version@ && views(p.bin_names@) == bins_spec(e.bin, package)
            } else {
                r is None
            }
        },
    }
}

/// A selected `path` distribution resolves to a single file; a selected `zip` archive that
/// declares no binaries exposes the package name's last path segment.
pub proof fn lemma_distribution_kinds(
    id: ToolIdentifier,
    package: Seq<char>,
    vs: Seq<PackagistVersion>,
    r: Option<ResolvedTool>,
    i: int,
)
    requires
        packagist_outcome(id, package, vs, r),
        select_spec(version_keys(vs), version_keys(vs), false, id) == Some(i),
    ensures
        vs[i].dist_type@ == "path"@ ==> (r matches Some(ResolvedTool::Phar(_))),
        vs[i].dist_type@ == "zip"@ && vs[i].bin is None ==> (r matches Some(ResolvedTool::Composer(p))
            && views(p.bin_names@) == seq![last_segment(package)]),
{
    reveal_strlit("path");
    reveal_strlit("zip");
    let ks = version_keys(vs);
    if id.version_constraint is Some {
        crate::versions::lemma_highest_valid(ks, Some(id.version_constraint->0@));
    } else {
        crate::versions::lemma_highest_valid(ks, None);
        if id.version is Some {
            crate::versions::lemma_literal_pos_valid(ks, id.version->0@, false);
        }
    }
    assert(0 <= i < vs.len());
    assert("path"@.len() == 4 && "zip"@.len() == 3);
    assert("path"@ != "zip"@);
}

/// The text after the last `/`.
pub fn last_path_segment(s: &str) -> (r: String)
    ensures
        r@ == last_segment(s@),
{
    let parts = crate::text::split_chars(s, '/');
    let last = parts.len() - 1;
    let r = parts[last].clone();
    proof {
        assert(views(parts@)[last as int] == r@);
    }
    r
}

/// Copies each string of a vector.
pub fn clone_all(v: &Vec<String>) -> (r: Vec<String>)
    ensures
        r@ == v@,
{
    let mut out: Vec<String> = Vec::new();
    let mut i: usize = 0;
    while i < v.len()
        invariant
            i <= v@.len(),
            out@ == v@.take(i as int),
        decreases v@.len() - i,
    {
        out.push(v[i].clone());
        proof {
            assert(out@ =~= v@.take(i + 1));
        }
        i = i + 1;
    }
    proof {
        assert(v@.take(v@.len() as int) =~= v@);
    }
    out
}

fn clone_opt(o: &Option<String>) -> (r: Option<String>)
    ensures
        r == *o,
{
    match o {
        Some(s) => Some(s.clone()),
        None => None,
    }
}

impl ToolIdentifier {
    /// A copy of the identifier.
    pub fn duplicate(&self) -> (r: ToolIdentifier)
        ensures
            r == *self,
    {
        ToolIdentifier {
            name: self.name.clone(),
            version_constraint: clone_opt(&self.version_constraint),
            version: clone_opt(&self.version),
        }
    }

    /// Whether only an unversioned "latest" alias can serve this request.
    pub fn is_latest_request(&self) -> (r: bool)
        ensures
            r == self.wants_latest(),
    {
        if self.version_constraint.is_some() {
            return false;
        }
        match &self.version {
            None => true,
            Some(v) => {
                let latest = "latest";
                crate::text::str_eq(v.as_str(), latest)
            },
        }
    }
}

impl ToolResolver {
    pub fn new() -> (r: ToolResolver) {
        ToolResolver
    }

    /// Parses `name`, `name@range`, `name@version` or `name@latest`.
    /// A second part that is not a range is kept as an exact version text.
    pub fn parse_identifier(&self, identifier: &str) -> (r: Result<ToolIdentifier, Error>)
        ensures
            identifier_spec(identifier@) is None <==> r is Err,
            r is Err ==> r matches Err(Error::InvalidToolIdentifier(_)),
            r is Ok ==> r->Ok_0.spec_parts() == identifier_spec(identifier@)->0,
    {
        let parts = crate::text::split_chars(identifier, '@');
        proof {
            assert(views(parts@).len() == parts@.len());
        }
        if parts.len() == 1 {
            let name = parts[0].clone();
            proof {
                assert(views(parts@)[0] == name@);
            }
            Ok(ToolIdentifier { name, version_constraint: None, version: None })
        } else if parts.len() == 2 {
            let name = parts[0].clone();
            let version_str = parts[1].as_str();
            proof {
                assert(views(parts@)[0] == name@);
                assert(views(parts@)[1] == version_str@);
            }
            let latest = "latest";
            if crate::text::str_eq(version_str, latest) {
                Ok(ToolIdentifier {
                    name,
                    version_constraint: None,
                    version: Some(crate::text::owned(latest)),
                })
            } else if crate::versions::parses_as_range(version_str) {
                Ok(ToolIdentifier {
                    name,
                    version_constraint: Some(crate::text::owned(version_str)),
                    version: None,
                })
            } else {
                Ok(ToolIdentifier {
                    name,
                    version_constraint: None,
                    version: Some(crate::text::owned(version_str)),
                })
            }
        } else {
            let msg = crate::text::owned("Invalid tool identifier format");
            Err(Error::InvalidToolIdentifier(msg))
        }
    }

    /// The candidate that the selection policy takes for `id`.
    pub fn select_version(
        &self,
        keys: &Vec<String>,
        tags: &Vec<String>,
        prefixed: bool,
        id: &ToolIdentifier,
    ) -> (r: Option<usize>)
        ensures
            r == as_index(select_spec(views(keys@), views(tags@), prefixed, *id)),
    {
        match &id.version_constraint {
            Some(c) => crate::versions::pick_highest(keys, Some(c.as_str())),
            None => match &id.version {
                Some(v) => {
                    let latest = "latest";
                    if crate::text::str_eq(v.as_str(), latest) {
                        crate::versions::pick_highest(keys, None)
                    } else {
                        crate::versions::pick_literal(tags, v.as_str(), prefixed)
                    }
                },
                None => crate::versions::pick_highest(keys, None),
            },
        }
    }

    /// The bin names of a source archive of `package` (see `bins_spec`).
    pub fn bin_names_for(&self, bin: &Option<Vec<String>>, package: &str) -> (r: Vec<String>)
        ensures
            views(r@) == bins_spec(*bin, package@),
    {
        let declared = match bin {
            Some(b) => b.len() > 0,
            None => false,
        };
        if declared {
            let b = bin.as_ref().unwrap();
            let mut out: Vec<String> = Vec::new();
            let mut i: usize = 0;
            while i < b.len()
                invariant
                    i <= b@.len(),
                    views(out@) == views(b@.take(i as int)).map_values(|x: Seq<char>| last_segment(x)),
                decreases b@.len() - i,
            {
                let seg = last_path_segment(b[i].as_str());
                let ghost prev = views(out@);
                out.push(seg);
                proof {
                    assert(views(out@) =~= prev.push(last_segment(b@[i as int]@)));
                    assert(views(b@.take(i + 1)) =~= views(b@.take(i as int)).push(b@[i as int]@));
                    assert(views(out@) =~= views(b@.take(i + 1)).map_values(
                        |x: Seq<char>| last_segment(x),
                    ));
                }
                i = i + 1;
            }
            proof {
                assert(b@.take(b@.len() as int) =~= b@);
            }
            out
        } else {
            let seg = last_path_segment(package);
            let out = vec![seg];
            proof {
                assert(views(out@) =~= seq![last_segment(package@)]);
            }
            out
        }
    }

    /// What the registry listing of `package` yields for `id`: a single file for a `path`
    /// distribution, a package to install for a `zip` one, nothing otherwise or when no
    /// version is selected.
    pub fn resolve_packagist_listing(
        &self,
        id: &ToolIdentifier,
        package: &str,
        versions: &Vec<PackagistVersion>,
    ) -> (r: Option<ResolvedTool>)
        ensures
            packagist_outcome(*id, package@, versions@, r),
    {
        let mut keys: Vec<String> = Vec::new();
        let mut i: usize = 0;
        while i < versions.len()
            invariant
                i <= versions@.len(),
                views(keys@) == version_keys(versions@.take(i as int)),
            decreases versions@.len() - i,
        {
            let ghost prev = views(keys@);
            keys.push(versions[i].version.clone());
            proof {
                assert(views(keys@) =~= prev.push(versions@[i as int].version@));
                assert(versions@.take(i + 1) =~= versions@.take(i as int).push(versions@[i as int]));
                assert(views(keys@) =~= version_keys(versions@.take(i + 1)));
            }
            i = i + 1;
        }
        proof {
            assert(versions@.take(versions@.len() as int) =~= versions@);
        }
        let picked = self.select_version(&keys, &keys, false, id);
        match picked {
            None => None,
            Some(idx) => {
                proof {
                    let ks = version_keys(versions@);
                    if id.version_constraint is Some {
                        crate::versions::lemma_highest_valid(ks, Some(id.version_constraint->0@));
                    } else {
                            crate::versions::lemma_highest_valid(ks, None);
                            if id.version is Some {
                                crate::versions::lemma_literal_pos_valid(ks, id.version->0@, false);
                            }
                    }
                }
                let e = &versions[idx];
                let path_kind = "path";
                let zip_kind = "zip";
                if crate::text::str_eq(e.dist_type.as_str(), path_kind) {
                    Some(
                        ResolvedTool::Phar(
                            ToolInfo {
                                name: id.name.clone(),
                                version: e.version.clone(),
                                download_url: e.dist_url.clone(),
                                signature_url: None,
                                hash: None,
                            },
                        ),
                    )
                } else if crate::text::str_eq(e.dist_type.as_str(), zip_kind) {
                    let bin_names = self.bin_names_for(&e.bin, package);
                    Some(
                        ResolvedTool::Composer(
                            ComposerPackage {
                                package: crate::text::owned(package),
                                version: e.version.clone(),
                                bin_names,
                            },
                        ),
                    )
                } else {
                    None
                }
            },
        }
    }
}


/// Upper-case form of the text (`str::to_uppercase`).
pub uninterp spec fn upper_of(s: Seq<char>) -> Seq<char>;

/// Relies on `str::to_uppercase`: the result depends on the characters alone.
#[verifier::external_body]
fn to_upper(s: &str) -> (r: String)
    ensures
        r@ == upper_of(s@),
{
    s.to_uppercase()
}

/// The segment with its first character upper-cased.
pub open spec fn title_seg(s: Seq<char>) -> Seq<char> {
    if s.len() == 0 {
        s
    } else {
        upper_of(s.take(1)) + s.skip(1)
    }
}

/// A segment of at most three bytes upper-cased whole, a longer one title-cased.
pub open spec fn acro_seg(s: Seq<char>) -> Seq<char> {
    if vstd::utf8::encode_utf8(s).len() <= 3 {
        upper_of(s)
    } else {
        title_seg(s)
    }
}

/// Each hyphen-separated segment title-cased.
pub open spec fn title_name(s: Seq<char>) -> Seq<char> {
    join_spec(split_spec(s, '-').map_values(|x: Seq<char>| title_seg(x)), seq!['-'])
}

/// Each hyphen-separated segment in its acronym form.
pub open spec fn acro_name(s: Seq<char>) -> Seq<char> {
    join_spec(split_spec(s, '-').map_values(|x: Seq<char>| acro_seg(x)), seq!['-'])
}

/// Owner and repository of a name: split at the first `/`, or the name twice.
pub open spec fn owner_repo(name: Seq<char>) -> (Seq<char>, Seq<char>) {
    let p = first_pos(name, '/');
    if p < name.len() {
        (name.take(p), name.skip(p + 1))
    } else {
        (name, name)
    }
}

/// A spelling recased part by part: owner and repository each for a scoped name, the
/// whole name (as both) otherwise.
pub open spec fn recased_pair(name: Seq<char>, acronyms: bool) -> (Seq<char>, Seq<char>) {
    let (a, b) = owner_repo(name);
    if first_pos(name, '/') < name.len() {
        if acronyms { (acro_name(a), acro_name(b)) } else { (title_name(a), title_name(b)) }
    } else {
        if acronyms { (acro_name(name), acro_name(name)) } else { (title_name(name), title_name(name)) }
    }
}

/// `s` with `x` appended unless it already holds it.
pub open spec fn push_new(s: Seq<(Seq<char>, Seq<char>)>, x: (Seq<char>, Seq<char>)) -> Seq<(Seq<char>, Seq<char>)> {
    if s.contains(x) { s } else { s.push(x) }
}

/// Owner/repository spellings to try, in order: as given, title-cased, and with short
/// segments in capitals (each part of a scoped name recased on its own); a spelling equal
/// to an earlier one is not repeated.
pub open spec fn variants_spec(name: Seq<char>) -> Seq<(Seq<char>, Seq<char>)> {
    push_new(push_new(seq![owner_repo(name)], recased_pair(name, false)), recased_pair(name, true))
}

pub open spec fn pair_views(v: Seq<(String, String)>) -> Seq<(Seq<char>, Seq<char>)> {
    v.map_values(|p: (String, String)| (p.0@, p.1@))
}

proof fn lemma_encode_len(s: Seq<char>)
    ensures
        s.len() <= vstd::utf8::encode_utf8(s).len() <= 4 * s.len(),
    decreases s.len(),
{
    if s.len() > 0 {
        lemma_encode_len(s.drop_first());
    }
}

fn title_segment(s: &str) -> (r: String)
    ensures
        r@ == title_seg(s@),
{
    let n = s.unicode_len();
    if n == 0 {
        return String::new();
    }
    let first = s.substring_char(0, 1);
    let mut r = to_upper(first);
    r.append(s.substring_char(1, n));
    proof {
        assert(first@ =~= s@.take(1));
        assert(s@.subrange(1, n as int) =~= s@.skip(1));
    }
    r
}

fn acro_segment(s: &str) -> (r: String)
    ensures
        r@ == acro_seg(s@),
{
    proof {
        lemma_encode_len(s@);
    }
    let short = if s.unicode_len() > 3 {
        false
    } else {
        s.len() <= 3
    };
    if short {
        to_upper(s)
    } else {
        title_segment(s)
    }
}

fn recase_name(name: &str, acronyms: bool) -> (r: String)
    ensures
        r@ == (if acronyms { acro_name(name@) } else { title_name(name@) }),
{
    let parts = crate::text::split_chars(name, '-');
    let ghost f = if acronyms {
        |x: Seq<char>| acro_seg(x)
    } else {
        |x: Seq<char>| title_seg(x)
    };
    let mut out: Vec<String> = Vec::new();
    let mut i: usize = 0;
    while i < parts.len()
        invariant
            i <= parts@.len(),
            f == (if acronyms {
                |x: Seq<char>| acro_seg(x)
            } else {
                |x: Seq<char>| title_seg(x)
            }),
            views(out@) == views(parts@.take(i as int)).map_values(f),
        decreases parts@.len() - i,
    {
        let seg = if acronyms {
            acro_segment(parts[i].as_str())
        } else {
            title_segment(parts[i].as_str())
        };
        let ghost prev = views(out@);
        out.push(seg);
        proof {
            assert(views(out@) =~= prev.push(f(parts@[i as int]@)));
            assert(views(parts@.take(i + 1)) =~= views(parts@.take(i as int)).push(parts@[i as int]@));
            assert(views(out@) =~= views(parts@.take(i + 1)).map_values(f));
        }
        i = i + 1;
    }
    proof {
        assert(parts@.take(parts@.len() as int) =~= parts@);
        reveal_strlit("-");
        assert(views(out@) == split_spec(name@, '-').map_values(f));
    }
    let dash = "-";
    proof {
        assert(dash@ =~= seq!['-']);
    }
    crate::text::join_strings(&out, dash)
}

fn recase_pair(name: &str, acronyms: bool) -> (r: (String, String))
    ensures
        (r.0@, r.1@) == recased_pair(name@, acronyms),
{
    let n = name.unicode_len();
    let p = crate::text::find_char(name, '/');
    if p < n {
        let a = name.substring_char(0, p);
        let b = name.substring_char(p + 1, n);
        proof {
            assert(a@ =~= name@.take(p as int));
            assert(b@ =~= name@.skip(p + 1));
        }
        (recase_name(a, acronyms), recase_name(b, acronyms))
    } else {
        let whole = recase_name(name, acronyms);
        (whole.clone(), whole)
    }
}

fn push_if_new(out: &mut Vec<(String, String)>, pair: (String, String))
    ensures
        pair_views(final(out)@) == push_new(pair_views(old(out)@), (pair.0@, pair.1@)),
{
    let seen = contains_pair(out, &pair.0, &pair.1);
    if !seen {
        let ghost prev = pair_views(out@);
        let ghost pv = (pair.0@, pair.1@);
        out.push(pair);
        proof {
            assert(pair_views(out@) =~= prev.push(pv));
        }
    }
}

fn contains_pair(out: &Vec<(String, String)>, o: &String, r: &String) -> (b: bool)
    ensures
        b == pair_views(out@).contains((o@, r@)),
{
    let mut i: usize = 0;
    while i < out.len()
        invariant
            i <= out@.len(),
            forall|j: int| 0 <= j < i ==> pair_views(out@)[j] != (o@, r@),
        decreases out@.len() - i,
    {
        if out[i].0 == *o && out[i].1 == *r {
            proof {
                assert(pair_views(out@)[i as int] == (o@, r@));
            }
            return true;
        }
        i = i + 1;
    }
    false
}

/// The asset is a single-file executable (`sig` unset) or a signature/checksum (`sig` set).
pub open spec fn asset_kind(n: Seq<char>, sig: bool) -> bool {
    if sig {
        has_suffix(n, ".asc"@) || has_suffix(n, ".sig"@)
    } else {
        has_suffix(n, ".phar"@)
    }
}

/// Index of the first asset of the kind.
pub open spec fn first_asset(assets: Seq<GitHubAsset>, sig: bool) -> Option<int>
    decreases assets.len(),
{
    if assets.len() == 0 {
        None
    } else {
        let prev = first_asset(assets.drop_last(), sig);
        if prev is Some {
            prev
        } else if asset_kind(assets.last().name@, sig) {
            Some(assets.len() - 1)
        } else {
            None
        }
    }
}

/// URL of the first signature or checksum asset.
pub open spec fn signature_spec(assets: Seq<GitHubAsset>) -> Option<Seq<char>> {
    match first_asset(assets, true) {
        Some(j) => Some(assets[j].download_url@),
        None => None,
    }
}

pub open spec fn release_keys(rs: Seq<GitHubRelease>) -> Seq<Seq<char>> {
    rs.map_values(|r: GitHubRelease| strip_leading(r.tag_name@, 'v'))
}

pub open spec fn release_tags(rs: Seq<GitHubRelease>) -> Seq<Seq<char>> {
    rs.map_values(|r: GitHubRelease| r.tag_name@)
}

/// What the release-listing stage makes of a repository's releases: the selected release's
/// first `.phar` asset, with its first signature asset; nothing if either is missing.
pub open spec fn github_outcome(id: ToolIdentifier, rs: Seq<GitHubRelease>, r: Option<ToolInfo>) -> bool {
    match select_spec(release_keys(rs), release_tags(rs), true, id) {
        None => r is None,
        Some(i) => {
            let rel = rs[i];
            match first_asset(rel.assets@, false) {
                None => r is None,
                Some(j) => r matches Some(t) && t.name@ == id.name@ && t.version@ == strip_leading(
                    rel.tag_name@,
                    'v',
                ) && t.download_url@ == rel.assets@[j].download_url@ && opt_str_view(t.signature_url)
                    == signature_spec(rel.assets@) && t.hash is None,
            }
        },
    }
}

proof fn lemma_first_asset_prefix(a: Seq<GitHubAsset>, j: int, sig: bool)
    requires
        0 <= j <= a.len(),
        first_asset(a.take(j), sig) is Some,
    ensures
        first_asset(a, sig) == first_asset(a.take(j), sig),
    decreases a.len(),
{
    if j < a.len() {
        assert(a.drop_last().take(j) =~= a.take(j));
        lemma_first_asset_prefix(a.drop_last(), j, sig);
    } else {
        assert(a.take(j) =~= a);
    }
}

proof fn lemma_first_asset_valid(a: Seq<GitHubAsset>, sig: bool)
    ensures
        first_asset(a, sig) is Some ==> 0 <= first_asset(a, sig)->0 < a.len(),
    decreases a.len(),
{
    if a.len() > 0 {
        lemma_first_asset_valid(a.drop_last(), sig);
    }
}

fn find_asset(assets: &Vec<GitHubAsset>, sig: bool) -> (r: Option<usize>)
    ensures
        r == as_index(first_asset(assets@, sig)),
        r is Some ==> r->0 as int == first_asset(assets@, sig)->0 && r->0 < assets@.len(),
{
    let mut i: usize = 0;
    while i < assets.len()
        invariant
            i <= assets@.len(),
            first_asset(assets@.take(i as int), sig) is None,
        decreases assets@.len() - i,
    {
        proof {
            assert(assets@.take(i + 1).drop_last() =~= assets@.take(i as int));
        }
        let n = assets[i].name.as_str();
        let hit = if sig {
            crate::text::ends_with(n, ".asc") || crate::text::ends_with(n, ".sig")
        } else {
            crate::text::ends_with(n, ".phar")
        };
        if hit {
            proof {
                lemma_first_asset_prefix(assets@, i + 1, sig);
                assert(first_asset(assets@.take(i + 1), sig) == Some(i as int));
            }
            return Some(i);
        }
        i = i + 1;
    }
    proof {
        assert(assets@.take(assets@.len() as int) =~= assets@);
    }
    None
}

impl ToolResolver {
    /// Owner and repository of a name: split at the first `/`, or the name twice.
    pub fn github_owner_repo(name: &str) -> (r: (String, String))
        ensures
            (r.0@, r.1@) == owner_repo(name@),
    {
        let n = name.unicode_len();
        let p = crate::text::find_char(name, '/');
        if p < n {
            let a = name.substring_char(0, p);
            let b = name.substring_char(p + 1, n);
            proof {
                assert(a@ =~= name@.take(p as int));
                assert(b@ =~= name@.skip(p + 1));
            }
            (crate::text::owned(a), crate::text::owned(b))
        } else {
            (crate::text::owned(name), crate::text::owned(name))
        }
    }

    /// Owner/repository spellings to try, to tolerate inconsistent capitalisation.
    pub fn github_owner_repo_variants(name: &str) -> (r: Vec<(String, String)>)
        ensures
            pair_views(r@) == variants_spec(name@),
    {
        let base = Self::github_owner_repo(name);
        let mut out: Vec<(String, String)> = Vec::new();
        out.push(base);
        proof {
            assert(pair_views(out@) =~= seq![owner_repo(name@)]);
        }
        push_if_new(&mut out, recase_pair(name, false));
        push_if_new(&mut out, recase_pair(name, true));
        out
    }

    /// URL of the first signature or checksum asset, if any.
    pub fn find_signature_url(&self, assets: &Vec<GitHubAsset>) -> (r: Option<String>)
        ensures
            opt_str_view(r) == signature_spec(assets@),
    {
        proof {
            lemma_first_asset_valid(assets@, true);
        }
        let found = find_asset(assets, true);
        match found {
            Some(j) => {
                assert(j as int == first_asset(assets@, true)->0);
                Some(assets[j].download_url.clone())
            },
            None => None,
        }
    }

    /// What a repository's release list yields for `id`.
    pub fn resolve_github_releases(&self, id: &ToolIdentifier, releases: &Vec<GitHubRelease>) -> (r:
        Option<ToolInfo>)
        ensures
            github_outcome(*id, releases@, r),
    {
        let mut keys: Vec<String> = Vec::new();
        let mut tags: Vec<String> = Vec::new();
        let mut i: usize = 0;
        while i < releases.len()
            invariant
                i <= releases@.len(),
                views(keys@) == release_keys(releases@.take(i as int)),
                views(tags@) == release_tags(releases@.take(i as int)),
            decreases releases@.len() - i,
        {
            let tag = releases[i].tag_name.as_str();
            let key = crate::text::trim_leading(tag, 'v');
            let ghost pk = views(keys@);
            let ghost pt = views(tags@);
            keys.push(crate::text::owned(key));
            tags.push(crate::text::owned(tag));
            proof {
                assert(views(keys@) =~= pk.push(key@));
                assert(views(tags@) =~= pt.push(tag@));
                assert(releases@.take(i + 1) =~= releases@.take(i as int).push(releases@[i as int]));
                assert(views(keys@) =~= release_keys(releases@.take(i + 1)));
                assert(views(tags@) =~= release_tags(releases@.take(i + 1)));
            }
            i = i + 1;
        }
        proof {
            assert(releases@.take(releases@.len() as int) =~= releases@);
        }
        let picked = self.select_version(&keys, &tags, true, id);
        match picked {
            None => None,
            Some(idx) => {
                proof {
                    let ks = release_keys(releases@);
                    let ts = release_tags(releases@);
                    if id.version_constraint is Some {
                        crate::versions::lemma_highest_valid(ks, Some(id.version_constraint->0@));
                    } else {
                        crate::versions::lemma_highest_valid(ks, None);
                        if id.version is Some {
                            crate::versions::lemma_literal_pos_valid(ts, id.version->0@, true);
                        }
                    }
                }
                let rel = &releases[idx];
                proof {
                    assert(idx as int == select_spec(release_keys(releases@), release_tags(releases@), true, *id)->0);
                    lemma_first_asset_valid(rel.assets@, false);
                }
                let found = find_asset(&rel.assets, false);
                match found {
                    None => None,
                    Some(j) => {
                        assert(j as int == first_asset(rel.assets@, false)->0);
                        let version = crate::text::owned(
                            crate::text::trim_leading(rel.tag_name.as_str(), 'v'),
                        );
                        Some(
                            ToolInfo {
                                name: id.name.clone(),
                                version,
                                download_url: rel.assets[j].download_url.clone(),
                                signature_url: self.find_signature_url(&rel.assets),
                                hash: None,
                            },
                        )
                    },
                }
            },
        }
    }
}


/// A source that resolution consults.
#[derive(Debug, PartialEq, Eq, Structural, Clone, Copy)]
pub enum ResolveStage {
    /// The package manager itself, from its fixed download address.
    Builtin,
    /// The package registry.
    Registry,
    /// Release listings of candidate repositories.
    Releases,
    /// Conventional "latest release" download addresses.
    DirectUrl,
}

/// The stages consulted for `id`, in order; the direct-address stage only serves a
/// request for the latest version.
pub open spec fn stages_spec(id: ToolIdentifier) -> Seq<ResolveStage> {
    if id.name@ == "composer"@ {
        seq![ResolveStage::Builtin]
    } else if id.wants_latest() {
        seq![ResolveStage::Registry, ResolveStage::Releases, ResolveStage::DirectUrl]
    } else {
        seq![ResolveStage::Registry, ResolveStage::Releases]
    }
}

/// Registry package names to try: a bare name is tried as `name/name` first.
pub open spec fn packagist_names_spec(name: Seq<char>) -> Seq<Seq<char>> {
    if first_pos(name, '/') < name.len() {
        seq![name]
    } else {
        seq![name + seq!['/'] + name, name]
    }
}

/// The three release-listing addresses for one owner/repository spelling: the
/// repository bare, with a `php-` prefix and with a `-php` suffix.
pub open spec fn release_urls_for(o: Seq<char>, r: Seq<char>) -> Seq<Seq<char>> {
    let api = "https://api.github.com/repos/"@;
    let tail = "/releases"@;
    seq![
        api + o + seq!['/'] + r + tail,
        api + o + "/php-"@ + r + tail,
        api + o + seq!['/'] + r + "-php"@ + tail,
    ]
}

pub open spec fn release_urls_spec(vs: Seq<(Seq<char>, Seq<char>)>) -> Seq<Seq<char>>
    decreases vs.len(),
{
    if vs.len() == 0 {
        Seq::<Seq<char>>::empty()
    } else {
        release_urls_spec(vs.drop_last()) + release_urls_for(vs.last().0, vs.last().1)
    }
}

/// The conventional download addresses of a latest release.
pub open spec fn direct_urls_spec(name: Seq<char>) -> Seq<Seq<char>> {
    let (o, r) = owner_repo(name);
    let base = "https://github.com/"@ + o + seq!['/'] + r + "/releases/latest/download/"@;
    seq![
        base + r + ".phar"@,
        base + o + seq!['-'] + r + ".phar"@,
        base + crate::text::replace_char_spec(name, '/', '-') + ".phar"@,
    ]
}

fn concat3(a: &str, b: &str, c: &str) -> (r: String)
    ensures
        r@ == a@ + b@ + c@,
{
    let mut r = String::from_str(a);
    r.append(b);
    r.append(c);
    r
}

impl ToolResolver {
    /// The stages to consult for `id`, in order.
    pub fn resolution_stages(&self, id: &ToolIdentifier) -> (r: Vec<ResolveStage>)
        ensures
            r@ == stages_spec(*id),
    {
        let composer = "composer";
        if crate::text::str_eq(id.name.as_str(), composer) {
            let r = vec![ResolveStage::Builtin];
            assert(r@ =~= seq![ResolveStage::Builtin]);
            r
        } else if id.is_latest_request() {
            let r = vec![ResolveStage::Registry, ResolveStage::Releases, ResolveStage::DirectUrl];
            assert(r@ =~= seq![ResolveStage::Registry, ResolveStage::Releases, ResolveStage::DirectUrl]);
            r
        } else {
            let r = vec![ResolveStage::Registry, ResolveStage::Releases];
            assert(r@ =~= seq![ResolveStage::Registry, ResolveStage::Releases]);
            r
        }
    }

    /// The package manager's own single file: fixed address, the requested version
    /// text unless it is absent or `latest`.
    pub fn resolve_builtin_composer(&self, id: &ToolIdentifier) -> (r: ToolInfo)
        ensures
            is_phar_info(
                r,
                "composer"@,
                (if id.version is Some && id.version->0@ != "latest"@ {
                    id.version->0@
                } else {
                    "latest"@
                }),
                "https://getcomposer.org/download/latest-stable/composer.phar"@,
            ),
    {
        let latest = "latest";
        let version = match &id.version {
            Some(v) => if crate::text::str_eq(v.as_str(), latest) {
                String::from_str(latest)
            } else {
                v.clone()
            },
            None => String::from_str(latest),
        };
        ToolInfo {
            name: String::from_str("composer"),
            version,
            download_url: String::from_str("https://getcomposer.org/download/latest-stable/composer.phar"),
            signature_url: None,
            hash: None,
        }
    }

    /// Registry package names to try for a tool name.
    pub fn packagist_names(&self, name: &str) -> (r: Vec<String>)
        ensures
            views(r@) == packagist_names_spec(name@),
    {
        let n = name.unicode_len();
        if crate::text::find_char(name, '/') < n {
            let r = vec![String::from_str(name)];
            proof {
                assert(views(r@) =~= packagist_names_spec(name@));
            }
            r
        } else {
            let slash = "/";
            proof {
                reveal_strlit("/");
                assert(slash@ =~= seq!['/']);
            }
            let r = vec![concat3(name, slash, name), String::from_str(name)];
            proof {
                assert(views(r@) =~= packagist_names_spec(name@));
            }
            r
        }
    }

    /// The registry metadata address of a package.
    pub fn packagist_url(&self, package: &str) -> (r: String)
        ensures
            r@ == "https://packagist.org/packages/"@ + package@ + ".json"@,
    {
        concat3("https://packagist.org/packages/", package, ".json")
    }

    /// Release-listing addresses to try, for every owner/repository spelling in turn.
    pub fn release_list_urls(&self, name: &str) -> (r: Vec<String>)
        ensures
            views(r@) == release_urls_spec(variants_spec(name@)),
    {
        let vs = Self::github_owner_repo_variants(name);
        let ghost pv = pair_views(vs@);
        let mut out: Vec<String> = Vec::new();
        let mut i: usize = 0;
        let slash = "/";
        proof {
            reveal_strlit("/");
        }
        while i < vs.len()
            invariant
                i <= vs@.len(),
                pv == pair_views(vs@),
                slash@ == seq!['/'],
                views(out@) == release_urls_spec(pv.take(i as int)),
            decreases vs@.len() - i,
        {
            let o = vs[i].0.as_str();
            let r = vs[i].1.as_str();
            let api = "https://api.github.com/repos/";
            let tail = "/releases";
            let mut u1 = concat3(api, o, slash);
            u1.append(r);
            u1.append(tail);
            let mut u2 = concat3(api, o, "/php-");
            u2.append(r);
            u2.append(tail);
            let mut u3 = concat3(api, o, slash);
            u3.append(r);
            u3.append("-php");
            u3.append(tail);
            let ghost prev = views(out@);
            out.push(u1);
            out.push(u2);
            out.push(u3);
            proof {
                assert(pv.take(i + 1).drop_last() =~= pv.take(i as int));
                assert(pv.take(i + 1).last() == (o@, r@));
                assert(views(out@) =~= prev + release_urls_for(o@, r@));
            }
            i = i + 1;
        }
        proof {
            assert(pv.take(vs@.len() as int) =~= pv);
        }
        out
    }

    /// Conventional download addresses of the latest release.
    pub fn direct_urls(&self, name: &str) -> (r: Vec<String>)
        ensures
            views(r@) == direct_urls_spec(name@),
    {
        let (o, r) = Self::github_owner_repo(name);
        let slash = "/";
        let dash = "-";
        proof {
            reveal_strlit("/");
            reveal_strlit("-");
            assert(slash@ =~= seq!['/']);
            assert(dash@ =~= seq!['-']);
        }
        let mut base = concat3("https://github.com/", o.as_str(), slash);
        base.append(r.as_str());
        base.append("/releases/latest/download/");
        let u1 = concat3(base.as_str(), r.as_str(), ".phar");
        let mut u2 = concat3(base.as_str(), o.as_str(), dash);
        u2.append(r.as_str());
        u2.append(".phar");
        let flat = crate::text::replace_char(name, '/', dash);
        let u3 = concat3(base.as_str(), flat.as_str(), ".phar");
        let out = vec![u1, u2, u3];
        proof {
            assert(views(out@) =~= direct_urls_spec(name@));
        }
        out
    }

    /// The artifact found at a direct address: version `latest`, signature at `<url>.asc`.
    pub fn direct_url_tool(&self, id: &ToolIdentifier, url: &str) -> (r: ToolInfo)
        ensures
            r.name@ == id.name@,
            r.version@ == "latest"@,
            r.download_url@ == url@,
            opt_str_view(r.signature_url) == Some(url@ + ".asc"@),
            r.hash is None,
    {
        let mut sig = String::from_str(url);
        sig.append(".asc");
        ToolInfo {
            name: id.name.clone(),
            version: String::from_str("latest"),
            download_url: String::from_str(url),
            signature_url: Some(sig),
            hash: None,
        }
    }
}

} // verus!

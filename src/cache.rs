//! The artifact cache: entries keyed by `name:version`, with TTL eviction.
//!
//! The map lives here; reading and rewriting the cache document and deleting
//! backing files happen outside, after each mutating call.
use vstd::prelude::*;
use crate::error::Error;
use crate::resolver::{ToolIdentifier, opt_str_view as opt_view};

verus! {

/// A previously fetched file or installed package directory.
#[derive(Debug)]
pub struct CacheEntry {
    pub tool_name: String,
    pub version: String,
    pub file_path: String,
    pub download_url: String,
    pub file_hash: Option<String>,
    pub created_at: u64,
    pub last_accessed: u64,
    pub size: u64,
    /// The installed binary's name for a package directory.
    pub bin_name: Option<String>,
    /// The entry is a package directory (removed recursively) rather than a single file.
    pub is_composer: bool,
}

/// The cache map, held as entries with pairwise distinct keys.
pub struct CacheManager {
    cache_dir: String,
    entries: Vec<CacheEntry>,
}

/// The key `name:version`.
pub open spec fn key_spec(name: Seq<char>, version: Seq<char>) -> Seq<char> {
    name + seq![':'] + version
}

pub open spec fn key_of(e: CacheEntry) -> Seq<char> {
    key_spec(e.tool_name@, e.version@)
}

/// No two entries share a key.
pub open spec fn unique_keys(s: Seq<CacheEntry>) -> bool {
    forall|i: int, j: int|
        0 <= i < s.len() && 0 <= j < s.len() && i != j ==> key_of(s[i]) != key_of(s[j])
}

/// The entries after storing `e`: any entry under its key is replaced by it.
pub open spec fn inserted(s: Seq<CacheEntry>, e: CacheEntry) -> Seq<CacheEntry> {
    s.filter(|x: CacheEntry| key_of(x) != key_of(e)).push(e)
}

/// The map that storing the entries one after another gives.
pub open spec fn loaded(s: Seq<CacheEntry>) -> Seq<CacheEntry>
    decreases s.len(),
{
    if s.len() == 0 {
        s
    } else {
        inserted(loaded(s.drop_last()), s.last())
    }
}

/// Position of the entry under key `k`.
pub open spec fn key_pos(s: Seq<CacheEntry>, k: Seq<char>) -> Option<int>
    decreases s.len(),
{
    if s.len() == 0 {
        None
    } else if key_of(s.last()) == k {
        Some(s.len() - 1)
    } else {
        key_pos(s.drop_last(), k)
    }
}

/// The entry as it stands after a hit at time `now`.
pub open spec fn touched(e: CacheEntry, now: u64) -> CacheEntry {
    CacheEntry { last_accessed: now, ..e }
}

/// `b` holds the entries of `a`, in order, with at most their last use changed.
pub open spec fn same_but_access(a: Seq<CacheEntry>, b: Seq<CacheEntry>) -> bool {
    a.len() == b.len() && forall|i: int| 0 <= i < a.len() ==> #[trigger] b[i] == touched(a[i], b[i].last_accessed)
}

/// The entry was last used more than `ttl` seconds before `now`.
pub open spec fn expired(e: CacheEntry, ttl: u64, now: u64) -> bool {
    now - e.last_accessed > ttl
}

/// What a removal for `name` (one version, or all of them) takes away.
pub open spec fn removal_hits(name: Seq<char>, version: Option<Seq<char>>, e: CacheEntry) -> bool {
    match version {
        Some(v) => key_of(e) == key_spec(name, v),
        None => (name + seq![':']).is_prefix_of(key_of(e)),
    }
}

/// `e` records the package directory `dir` of `name` at `version`, made at `now`.
pub open spec fn is_install_record(
    e: CacheEntry,
    name: Seq<char>,
    version: Seq<char>,
    dir: Seq<char>,
    bin: Seq<char>,
    now: u64,
) -> bool {
    e.tool_name@ == name && e.version@ == version && e.file_path@ == dir && e.download_url@.len()
        == 0 && e.file_hash is None && e.created_at == now && e.last_accessed == now && e.size == 0
        && e.is_composer && opt_view(e.bin_name) == Some(bin)
}

/// The request names a version or a range, so an entry recorded as `latest` cannot serve it.
pub open spec fn wants_specific(id: ToolIdentifier) -> bool {
    id.version_constraint is Some || (id.version is Some && id.version->0@ != "latest"@)
}

/// A removal for `name` (and `version`) selects the entry and its storage is gone:
/// `gone` holds the keys of the entries whose storage was deleted.
pub open spec fn removal_done(
    name: Seq<char>,
    version: Option<Seq<char>>,
    gone: Seq<Seq<char>>,
    e: CacheEntry,
) -> bool {
    removal_hits(name, version, e) && gone.contains(key_of(e))
}

enum Sweep {
    Key(String),
    Removal(String, Option<String>, Vec<String>),
    Expired(u64, u64),
}

spec fn sweep_hits(m: Sweep, e: CacheEntry) -> bool {
    match m {
        Sweep::Key(k) => key_of(e) == k@,
        Sweep::Removal(n, v, g) => removal_done(n@, opt_view(v), crate::text::views(g@), e),
        Sweep::Expired(ttl, now) => expired(e, ttl, now),
    }
}

fn contains_text(v: &Vec<String>, s: &String) -> (r: bool)
    ensures
        r == crate::text::views(v@).contains(s@),
{
    let mut i: usize = 0;
    while i < v.len()
        invariant
            i <= v@.len(),
            forall|j: int| 0 <= j < i ==> crate::text::views(v@)[j] != s@,
        decreases v@.len() - i,
    {
        if v[i] == *s {
            proof {
                assert(crate::text::views(v@)[i as int] == s@);
            }
            return true;
        }
        i = i + 1;
    }
    false
}

/// Whether a removal for `tool_name` (one version, or all when `version` is `None`)
/// selects the entry.
pub fn removal_applies(e: &CacheEntry, tool_name: &str, version: Option<&str>) -> (r: bool)
    ensures
        r == removal_hits(tool_name@, crate::versions::opt_view(version), *e),
{
    let ek = build_key(e.tool_name.as_str(), e.version.as_str());
    match version {
        Some(v) => ek == build_key(tool_name, v),
        None => {
            let mut p = String::from_str(tool_name);
            let colon = ":";
            proof {
                reveal_strlit(":");
                assert(colon@ =~= seq![':']);
            }
            p.append(colon);
            crate::text::starts_with(ek.as_str(), p.as_str())
        },
    }
}

fn hits(m: &Sweep, e: &CacheEntry) -> (r: bool)
    ensures
        r == sweep_hits(*m, *e),
{
    match m {
        Sweep::Key(k) => {
            let ek = build_key(e.tool_name.as_str(), e.version.as_str());
            ek == *k
        },
        Sweep::Removal(n, v, g) => {
            let selected = match v {
                Some(x) => removal_applies(e, n.as_str(), Some(x.as_str())),
                None => removal_applies(e, n.as_str(), None),
            };
            if !selected {
                return false;
            }
            let ek = build_key(e.tool_name.as_str(), e.version.as_str());
            contains_text(g, &ek)
        },
        Sweep::Expired(ttl, now) => *now > e.last_accessed && *now - e.last_accessed > *ttl,
    }
}

/// The key `name:version`.
pub fn build_key(tool_name: &str, version: &str) -> (r: String)
    ensures
        r@ == key_spec(tool_name@, version@),
{
    let mut k = String::from_str(tool_name);
    let colon = ":";
    proof {
        reveal_strlit(":");
    }
    k.append(colon);
    k.append(version);
    k
}

pub proof fn lemma_filter_unique(s: Seq<CacheEntry>, p: spec_fn(CacheEntry) -> bool)
    requires
        unique_keys(s),
    ensures
        unique_keys(s.filter(p)),
    decreases s.len(),
{
    reveal(Seq::filter);
    if s.len() > 0 {
        let rest = s.drop_last();
        assert(unique_keys(rest)) by {
            assert forall|i: int, j: int|
                0 <= i < rest.len() && 0 <= j < rest.len() && i != j implies key_of(rest[i])
                != key_of(rest[j]) by {
                assert(rest[i] == s[i] && rest[j] == s[j]);
            }
        }
        lemma_filter_unique(rest, p);
        let f = rest.filter(p);
        if p(s.last()) {
            assert forall|i: int| 0 <= i < f.len() implies key_of(f[i]) != key_of(s.last()) by {
                assert(f.contains(f[i]));
                rest.lemma_filter_contains_rev(p, f[i]);
                let t = choose|t: int| 0 <= t < rest.len() && rest[t] == f[i];
                assert(s[t] == f[i]);
            }
            let g = s.filter(p);
            assert(g == f.push(s.last()));
            assert forall|i: int, j: int|
                0 <= i < g.len() && 0 <= j < g.len() && i != j implies key_of(g[i]) != key_of(g[j]) by {
                if i < f.len() && j < f.len() {
                    assert(g[i] == f[i] && g[j] == f[j]);
                } else if i < f.len() {
                    assert(g[i] == f[i]);
                } else if j < f.len() {
                    assert(g[j] == f[j]);
                }
            }
        }
    }
}

/// Storing keeps keys distinct.
pub proof fn lemma_inserted_unique(s: Seq<CacheEntry>, e: CacheEntry)
    requires
        unique_keys(s),
    ensures
        unique_keys(inserted(s, e)),
{
    let p = |x: CacheEntry| key_of(x) != key_of(e);
    lemma_filter_unique(s, p);
    let f = s.filter(p);
    let g = inserted(s, e);
    assert forall|i: int| 0 <= i < f.len() implies key_of(f[i]) != key_of(e) by {
        s.lemma_filter_pred(p, i);
    }
    assert forall|i: int, j: int|
        0 <= i < g.len() && 0 <= j < g.len() && i != j implies key_of(g[i]) != key_of(g[j]) by {
        if i < f.len() && j < f.len() {
            assert(g[i] == f[i] && g[j] == f[j]);
        } else if i < f.len() {
            assert(g[i] == f[i]);
        } else if j < f.len() {
            assert(g[j] == f[j]);
        }
    }
}

/// Storing two entries under one key leaves exactly one entry under it: the later one.
pub proof fn lemma_same_key_overwrites(s: Seq<CacheEntry>, first: CacheEntry, second: CacheEntry)
    requires
        key_of(first) == key_of(second),
    ensures
        inserted(inserted(s, first), second).filter(|x: CacheEntry| key_of(x) == key_of(second))
            == seq![second],
{
    let k = key_of(second);
    let same = |x: CacheEntry| key_of(x) == k;
    let other = |x: CacheEntry| key_of(x) != k;
    let t = inserted(s, first);
    let f = t.filter(other);
    assert(f.filter(same) =~= Seq::<CacheEntry>::empty()) by {
        f.lemma_filter_len(same);
        if f.filter(same).len() > 0 {
            f.lemma_filter_pred(same, 0);
            assert(f.filter(same).contains(f.filter(same)[0]));
            f.lemma_filter_contains_rev(same, f.filter(same)[0]);
            let j = choose|j: int| 0 <= j < f.len() && f[j] == f.filter(same)[0];
            t.lemma_filter_pred(other, j);
        }
    }
    reveal(Seq::filter);
    assert(f.push(second).drop_last() =~= f);
    assert(f.push(second).filter(same) =~= seq![second]);
}

impl CacheEntry {
    /// A copy of the entry.
    pub fn duplicate(&self) -> (r: CacheEntry)
        ensures
            r == *self,
    {
        CacheEntry {
            tool_name: self.tool_name.clone(),
            version: self.version.clone(),
            file_path: self.file_path.clone(),
            download_url: self.download_url.clone(),
            file_hash: match &self.file_hash {
                Some(h) => Some(h.clone()),
                None => None,
            },
            created_at: self.created_at,
            last_accessed: self.last_accessed,
            size: self.size,
            bin_name: match &self.bin_name {
                Some(b) => Some(b.clone()),
                None => None,
            },
            is_composer: self.is_composer,
        }
    }
}

impl View for CacheManager {
    type V = Seq<CacheEntry>;

    closed spec fn view(&self) -> Seq<CacheEntry> {
        self.entries@
    }
}

impl CacheManager {
    /// The directory holding the cache document and artifacts.
    pub closed spec fn dir(&self) -> Seq<char> {
        self.cache_dir@
    }

    pub open spec fn wf(&self) -> bool {
        unique_keys(self@)
    }

    /// An empty cache rooted at `cache_dir`.
    pub fn new(cache_dir: String) -> (r: CacheManager)
        ensures
            r@ == Seq::<CacheEntry>::empty(),
            r.dir() == cache_dir@,
            r.wf(),
    {
        CacheManager { cache_dir, entries: Vec::new() }
    }

    /// A cache rooted at `cache_dir` holding `entries`, stored in order (a later entry
    /// replaces an earlier one under the same key).
    pub fn from_entries(cache_dir: String, entries: Vec<CacheEntry>) -> (r: CacheManager)
        ensures
            r@ == loaded(entries@),
            r.dir() == cache_dir@,
            r.wf(),
    {
        let mut m = CacheManager::new(cache_dir);
        let rest = entries;
        let ghost all = rest@;
        let mut i: usize = 0;
        let n = rest.len();
        while i < n
            invariant
                n == all.len(),
                i <= n,
                m.wf(),
                m.dir() == cache_dir@,
                m@ == loaded(all.take(i as int)),
                rest@ == all,
            decreases n - i,
        {
            proof {
                assert(all.take(i + 1).drop_last() =~= all.take(i as int));
            }
            let e = rest[i].duplicate();
            m.add_entry_inner(e);
            i = i + 1;
        }
        proof {
            assert(all.take(n as int) =~= all);
        }
        m
    }

    /// The cache directory.
    pub fn cache_dir(&self) -> (r: &String)
        ensures
            r@ == self.dir(),
    {
        &self.cache_dir
    }

    /// All entries.
    pub fn list_entries(&self) -> (r: &Vec<CacheEntry>)
        ensures
            r@ == self@,
    {
        &self.entries
    }

    fn find(&self, key: &String) -> (r: Option<usize>)
        ensures
            r == crate::versions::as_index(key_pos(self@, key@)),
            r is Some ==> r->0 < self@.len() && r->0 as int == key_pos(self@, key@)->0,
    {
        let mut i = self.entries.len();
        proof {
            assert(self.entries@.take(i as int) =~= self.entries@);
        }
        while i > 0
            invariant
                i <= self.entries@.len(),
                key_pos(self.entries@, key@) == key_pos(self.entries@.take(i as int), key@),
            decreases i,
        {
            proof {
                assert(self.entries@.take(i as int).drop_last() =~= self.entries@.take(i - 1));
            }
            let e = &self.entries[i - 1];
            let k = build_key(e.tool_name.as_str(), e.version.as_str());
            if k == *key {
                return Some(i - 1);
            }
            i = i - 1;
        }
        None
    }

    fn sweep(&mut self, m: &Sweep) -> (removed: Vec<CacheEntry>)
        requires
            old(self).wf(),
        ensures
            final(self)@ == old(self)@.filter(|x: CacheEntry| !sweep_hits(*m, x)),
            removed@ == old(self)@.filter(|x: CacheEntry| sweep_hits(*m, x)),
            final(self).wf(),
            final(self).dir() == old(self).dir(),
    {
        let ghost s = self.entries@;
        let mut kept: Vec<CacheEntry> = Vec::new();
        let mut gone: Vec<CacheEntry> = Vec::new();
        let mut i: usize = 0;
        while i < self.entries.len()
            invariant
                s == self.entries@,
                i <= s.len(),
                kept@ == s.take(i as int).filter(|x: CacheEntry| !sweep_hits(*m, x)),
                gone@ == s.take(i as int).filter(|x: CacheEntry| sweep_hits(*m, x)),
            decreases s.len() - i,
        {
            proof {
                reveal(Seq::filter);
                assert(s.take(i + 1).drop_last() =~= s.take(i as int));
            }
            let e = self.entries[i].duplicate();
            proof {
                assert(s.take(i + 1).last() == e);
            }
            if hits(m, &e) {
                gone.push(e);
            } else {
                kept.push(e);
            }
            i = i + 1;
        }
        proof {
            assert(s.take(s.len() as int) =~= s);
            lemma_filter_unique(s, |x: CacheEntry| !sweep_hits(*m, x));
        }
        self.entries = kept;
        gone
    }

    fn add_entry_inner(&mut self, entry: CacheEntry)
        requires
            old(self).wf(),
        ensures
            final(self)@ == inserted(old(self)@, entry),
            final(self).wf(),
            final(self).dir() == old(self).dir(),
    {
        let key = build_key(entry.tool_name.as_str(), entry.version.as_str());
        let m = Sweep::Key(key);
        let _ = self.sweep(&m);
        proof {
            assert((|x: CacheEntry| !sweep_hits(m, x)) =~= (|x: CacheEntry| key_of(x) != key_of(entry)));
            assert(self@ =~= old(self)@.filter(|x: CacheEntry| key_of(x) != key_of(entry)));
            lemma_inserted_unique(old(self)@, entry);
        }
        self.entries.push(entry);
    }

    /// Records a downloaded single file, replacing any entry under its key.
    pub fn add_entry(
        &mut self,
        tool_name: String,
        version: String,
        file_path: String,
        download_url: String,
        file_hash: Option<String>,
        size: u64,
        now: u64,
    )
        requires
            old(self).wf(),
        ensures
            final(self)@ == inserted(
                old(self)@,
                (CacheEntry {
                    tool_name,
                    version,
                    file_path,
                    download_url,
                    file_hash,
                    created_at: now,
                    last_accessed: now,
                    size,
                    bin_name: None,
                    is_composer: false,
                }),
            ),
            final(self).wf(),
            final(self).dir() == old(self).dir(),
    {
        let entry = CacheEntry {
            tool_name,
            version,
            file_path,
            download_url,
            file_hash,
            created_at: now,
            last_accessed: now,
            size,
            bin_name: None,
            is_composer: false,
        };
        self.add_entry_inner(entry);
    }

    /// Records an installed package directory, replacing any entry under its key.
    pub fn add_composer_entry(
        &mut self,
        tool_name: String,
        version: String,
        dir_path: String,
        bin_name: String,
        now: u64,
    )
        requires
            old(self).wf(),
        ensures
            final(self)@ == inserted(old(self)@, final(self)@.last()),
            is_install_record(final(self)@.last(), tool_name@, version@, dir_path@, bin_name@, now),
            final(self).wf(),
            final(self).dir() == old(self).dir(),
    {
        let entry = CacheEntry {
            tool_name,
            version,
            file_path: dir_path,
            download_url: String::new(),
            file_hash: None,
            created_at: now,
            last_accessed: now,
            size: 0,
            bin_name: Some(bin_name),
            is_composer: true,
        };
        self.add_entry_inner(entry);
    }

    /// Looks up `tool_name:version`; a hit has its last use set to `now`.
    pub fn get_entry(&mut self, tool_name: &str, version: &str, now: u64) -> (r: Option<CacheEntry>)
        requires
            old(self).wf(),
        ensures
            final(self).wf(),
            final(self).dir() == old(self).dir(),
            match key_pos(old(self)@, key_spec(tool_name@, version@)) {
                Some(i) => r == Some(touched(old(self)@[i], now)) && final(self)@ == old(self)@.update(
                    i,
                    touched(old(self)@[i], now),
                ),
                None => r is None && final(self)@ == old(self)@,
            },
    {
        let key = build_key(tool_name, version);
        match self.find(&key) {
            None => None,
            Some(i) => {
                assert(i as int == key_pos(self@, key@)->0);
                let mut e = self.entries[i].duplicate();
                e.last_accessed = now;
                let hit = e.duplicate();
                self.entries.set(i, e);
                proof {
                    assert forall|a: int, b: int|
                        0 <= a < self@.len() && 0 <= b < self@.len() && a != b implies key_of(
                        self@[a],
                    ) != key_of(self@[b]) by {
                        assert(key_of(self@[a]) == key_of(old(self)@[a]));
                        assert(key_of(self@[b]) == key_of(old(self)@[b]));
                    }
                }
                Some(hit)
            },
        }
    }

    /// Looks up the entry that may serve `id` at `version`; an entry recorded as `latest`
    /// never serves a request for a specific version or a range.
    pub fn lookup_for_request(
        &mut self,
        id: &ToolIdentifier,
        version: &str,
        now: u64,
    ) -> (r: Option<CacheEntry>)
        requires
            old(self).wf(),
        ensures
            final(self).wf(),
            final(self).dir() == old(self).dir(),
            wants_specific(*id) ==> (r is Some ==> r->0.version@ != "latest"@),
            match key_pos(old(self)@, key_spec(id.name@, version@)) {
                Some(i) => final(self)@ == old(self)@.update(i, touched(old(self)@[i], now)) && r == (
                if wants_specific(*id) && old(self)@[i].version@ == "latest"@ {
                    None
                } else {
                    Some(touched(old(self)@[i], now))
                }),
                None => r is None && final(self)@ == old(self)@,
            },
    {
        let found = self.get_entry(id.name.as_str(), version, now);
        match found {
            None => None,
            Some(e) => {
                let specific = !id.is_latest_request();
                let latest = "latest";
                if specific && crate::text::str_eq(e.version.as_str(), latest) {
                    None
                } else {
                    Some(e)
                }
            },
        }
    }

    /// The entries a removal for `tool_name` (one version, or all when `version` is `None`)
    /// selects; their storage is to be deleted before they are dropped.
    pub fn removal_candidates(&self, tool_name: &str, version: Option<&str>) -> (r: Vec<CacheEntry>)
        ensures
            r@ == self@.filter(
                |x: CacheEntry| removal_hits(tool_name@, crate::versions::opt_view(version), x),
            ),
    {
        let ghost s = self.entries@;
        let mut out: Vec<CacheEntry> = Vec::new();
        let mut i: usize = 0;
        while i < self.entries.len()
            invariant
                s == self.entries@,
                i <= s.len(),
                out@ == s.take(i as int).filter(
                    |x: CacheEntry| removal_hits(tool_name@, crate::versions::opt_view(version), x),
                ),
            decreases s.len() - i,
        {
            proof {
                reveal(Seq::filter);
                assert(s.take(i + 1).drop_last() =~= s.take(i as int));
            }
            let e = self.entries[i].duplicate();
            proof {
                assert(s.take(i + 1).last() == e);
            }
            if removal_applies(&e, tool_name, version) {
                out.push(e);
            }
            i = i + 1;
        }
        proof {
            assert(s.take(s.len() as int) =~= s);
        }
        out
    }

    fn any_selected(&self, tool_name: &str, version: Option<&str>) -> (r: bool)
        ensures
            r == exists|i: int|
                0 <= i < self@.len() && removal_hits(tool_name@, crate::versions::opt_view(version), #[trigger] self@[i]),
    {
        let mut i: usize = 0;
        while i < self.entries.len()
            invariant
                i <= self@.len(),
                forall|j: int| 0 <= j < i ==> !removal_hits(tool_name@, crate::versions::opt_view(version), #[trigger] self@[j]),
            decreases self@.len() - i,
        {
            if removal_applies(&self.entries[i], tool_name, version) {
                return true;
            }
            i = i + 1;
        }
        false
    }

    /// Drops the entries a removal for `tool_name` selects whose storage is gone (`deleted`
    /// holds the keys of the entries whose storage was deleted) and returns them; if a
    /// selected entry's storage could not be deleted, it stays and the removal fails.
    pub fn remove_entry(&mut self, tool_name: &str, version: Option<&str>, deleted: &Vec<String>) -> (r: Result<Vec<CacheEntry>, Error>)
        requires
            old(self).wf(),
        ensures
            final(self)@ == old(self)@.filter(
                |x: CacheEntry| !removal_done(tool_name@, crate::versions::opt_view(version), crate::text::views(deleted@), x),
            ),
            r is Ok ==> r->Ok_0@ == old(self)@.filter(
                |x: CacheEntry| removal_done(tool_name@, crate::versions::opt_view(version), crate::text::views(deleted@), x),
            ),
            r is Err <==> exists|i: int|
                0 <= i < final(self)@.len() && removal_hits(tool_name@, crate::versions::opt_view(version), #[trigger] final(self)@[i]),
            r is Err ==> (r matches Err(Error::Io(_))),
            final(self).wf(),
            final(self).dir() == old(self).dir(),
    {
        let owned_version = match version {
            Some(v) => Some(String::from_str(v)),
            None => None,
        };
        let m = Sweep::Removal(String::from_str(tool_name), owned_version, crate::resolver::clone_all(deleted));
        let removed = self.sweep(&m);
        proof {
            let v = crate::versions::opt_view(version);
            let g = crate::text::views(deleted@);
            assert((|x: CacheEntry| !sweep_hits(m, x)) =~= (|x: CacheEntry| !removal_done(tool_name@, v, g, x)));
            assert((|x: CacheEntry| sweep_hits(m, x)) =~= (|x: CacheEntry| removal_done(tool_name@, v, g, x)));
        }
        if self.any_selected(tool_name, version) {
            Err(Error::Io(String::from_str("the storage of a cache entry could not be deleted")))
        } else {
            Ok(removed)
        }
    }

    /// The TTL sweep: removes exactly the entries last used more than `ttl` seconds
    /// before `now`, keeps the others in order, and returns the removed ones.
    pub fn cleanup_old_entries(&mut self, ttl: u64, now: u64) -> (removed: Vec<CacheEntry>)
        requires
            old(self).wf(),
        ensures
            final(self)@ == old(self)@.filter(|x: CacheEntry| !expired(x, ttl, now)),
            removed@ == old(self)@.filter(|x: CacheEntry| expired(x, ttl, now)),
            final(self).wf(),
            final(self).dir() == old(self).dir(),
    {
        let m = Sweep::Expired(ttl, now);
        let removed = self.sweep(&m);
        proof {
            assert((|x: CacheEntry| !sweep_hits(m, x)) =~= (|x: CacheEntry| !expired(x, ttl, now)));
            assert((|x: CacheEntry| sweep_hits(m, x)) =~= (|x: CacheEntry| expired(x, ttl, now)));
        }
        removed
    }
}

} // verus!

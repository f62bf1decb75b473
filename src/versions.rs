//! Semantic versions and ranges, and the version-selection policy.
use vstd::prelude::*;

verus! {

/// The text parses as a semantic version (`semver::Version::parse`).
pub uninterp spec fn is_semver(s: Seq<char>) -> bool;

/// The text parses as a version range (`semver::VersionReq::parse`).
pub uninterp spec fn is_range(s: Seq<char>) -> bool;

/// The parsed range accepts the parsed version (`semver::VersionReq::matches`).
pub uninterp spec fn range_matches(req: Seq<char>, v: Seq<char>) -> bool;

/// The first parsed version is strictly above the second in semver's total order.
pub uninterp spec fn semver_above(a: Seq<char>, b: Seq<char>) -> bool;

/// Relies on `semver::Version::parse`: whether the text is a semantic version.
#[verifier::external_body]
pub(crate) fn parses_as_version(s: &str) -> (r: bool)
    ensures
        r == is_semver(s@),
{
    semver::Version::parse(s).is_ok()
}

/// Relies on `semver::VersionReq::parse`: whether the text is a version range.
#[verifier::external_body]
pub(crate) fn parses_as_range(s: &str) -> (r: bool)
    ensures
        r == is_range(s@),
{
    semver::VersionReq::parse(s).is_ok()
}

/// Relies on `semver::VersionReq::matches`, applied to the parsed range and version.
#[verifier::external_body]
pub(crate) fn range_accepts(req: &str, v: &str) -> (r: bool)
    ensures
        r == (is_range(req@) && is_semver(v@) && range_matches(req@, v@)),
{
    match (semver::VersionReq::parse(req), semver::Version::parse(v)) {
        (Ok(range), Ok(version)) => range.matches(&version),
        _ => false,
    }
}

/// Relies on the `Ord` of `semver::Version` (major, minor, patch, pre-release, build):
/// whether the first parsed version is strictly greater; an order is irreflexive.
#[verifier::external_body]
pub(crate) fn version_above(a: &str, b: &str) -> (r: bool)
    ensures
        r == (is_semver(a@) && is_semver(b@) && semver_above(a@, b@)),
        a@ == b@ ==> !r,
{
    match (semver::Version::parse(a), semver::Version::parse(b)) {
        (Ok(x), Ok(y)) => x > y,
        _ => false,
    }
}

/// A candidate counts for selection: it is a semantic version, inside the range if one is given.
pub open spec fn eligible(k: Seq<char>, req: Option<Seq<char>>) -> bool {
    is_semver(k) && match req {
        Some(r) => is_range(r) && range_matches(r, k),
        None => true,
    }
}

/// Index of the highest eligible candidate: a scan that replaces the held one only by
/// one strictly above it, so the first of equal candidates is kept.
pub open spec fn highest(keys: Seq<Seq<char>>, req: Option<Seq<char>>) -> Option<int>
    decreases keys.len(),
{
    if keys.len() == 0 {
        None
    } else {
        let prev = highest(keys.drop_last(), req);
        let k = keys.last();
        if eligible(k, req) && (prev is None || semver_above(k, keys[prev->0])) {
            Some(keys.len() - 1)
        } else {
            prev
        }
    }
}

/// Index of the first candidate equal to `v`, or equal to `v` behind a `v` prefix
/// when `prefixed` is set.
pub open spec fn literal_pos(tags: Seq<Seq<char>>, v: Seq<char>, prefixed: bool) -> Option<int>
    decreases tags.len(),
{
    if tags.len() == 0 {
        None
    } else {
        let prev = literal_pos(tags.drop_last(), v, prefixed);
        let t = tags.last();
        if prev is Some {
            prev
        } else if t == v || (prefixed && t == seq!['v'] + v) {
            Some(tags.len() - 1)
        } else {
            None
        }
    }
}

pub proof fn lemma_highest_valid(keys: Seq<Seq<char>>, req: Option<Seq<char>>)
    ensures
        highest(keys, req) is Some ==> {
            let i = highest(keys, req)->0;
            0 <= i < keys.len() && eligible(keys[i], req)
        },
        highest(keys, req) is None ==> forall|j: int| 0 <= j < keys.len() ==> !eligible(keys[j], req),
    decreases keys.len(),
{
    if keys.len() > 0 {
        lemma_highest_valid(keys.drop_last(), req);
        if highest(keys, req) is None {
            assert forall|j: int| 0 <= j < keys.len() implies !eligible(keys[j], req) by {
                if j < keys.len() - 1 {
                    assert(keys.drop_last()[j] == keys[j]);
                }
            }
        }
    }
}

pub proof fn lemma_literal_pos_valid(tags: Seq<Seq<char>>, v: Seq<char>, prefixed: bool)
    ensures
        literal_pos(tags, v, prefixed) is Some ==> {
            let i = literal_pos(tags, v, prefixed)->0;
            0 <= i < tags.len() && (tags[i] == v || (prefixed && tags[i] == seq!['v'] + v))
        },
    decreases tags.len(),
{
    if tags.len() > 0 {
        lemma_literal_pos_valid(tags.drop_last(), v, prefixed);
    }
}

proof fn lemma_literal_pos_prefix(ts: Seq<Seq<char>>, j: int, v: Seq<char>, prefixed: bool)
    requires
        0 <= j <= ts.len(),
        literal_pos(ts.take(j), v, prefixed) is Some,
    ensures
        literal_pos(ts, v, prefixed) == literal_pos(ts.take(j), v, prefixed),
    decreases ts.len(),
{
    if j < ts.len() {
        assert(ts.drop_last().take(j) =~= ts.take(j));
        lemma_literal_pos_prefix(ts.drop_last(), j, v, prefixed);
    } else {
        assert(ts.take(j) =~= ts);
    }
}

/// The view of an optional string slice.
pub open spec fn opt_view(o: Option<&str>) -> Option<Seq<char>> {
    match o {
        Some(x) => Some(x@),
        None => None,
    }
}

/// An optional position as a machine index.
pub open spec fn as_index(o: Option<int>) -> Option<usize> {
    match o {
        Some(i) => Some(i as usize),
        None => None,
    }
}

/// Index of the highest candidate that is a semantic version inside `req` (if given).
pub fn pick_highest(keys: &Vec<String>, req: Option<&str>) -> (r: Option<usize>)
    ensures
        r == as_index(highest(crate::text::views(keys@), opt_view(req))),
{
    let ghost ks = crate::text::views(keys@);
    let ghost rq = opt_view(req);
    let mut best: Option<usize> = None;
    let mut i: usize = 0;
    while i < keys.len()
        invariant
            i <= keys@.len(),
            ks == crate::text::views(keys@),
            rq == opt_view(req),
            best == as_index(highest(ks.take(i as int), rq)),
            best is Some ==> best->0 < i,
        decreases keys@.len() - i,
    {
        proof {
            assert(ks.take(i + 1).drop_last() =~= ks.take(i as int));
            lemma_highest_valid(ks.take(i as int), rq);
        }
        let k = keys[i].as_str();
        let ok = match req {
            Some(range) => range_accepts(range, k),
            None => parses_as_version(k),
        };
        if ok {
            let above = match best {
                None => true,
                Some(b) => version_above(k, keys[b].as_str()),
            };
            if above {
                best = Some(i);
            }
        }
        proof {
            if best is Some {
                assert(ks.take(i + 1)[best->0 as int] == ks[best->0 as int]);
            }
        }
        i = i + 1;
    }
    proof {
        assert(ks.take(keys@.len() as int) =~= ks);
    }
    best
}

/// Index of the first candidate equal to `v` (or to `v` behind a `v` prefix, if `prefixed`).
pub fn pick_literal(tags: &Vec<String>, v: &str, prefixed: bool) -> (r: Option<usize>)
    ensures
        r == as_index(literal_pos(crate::text::views(tags@), v@, prefixed)),
{
    let ghost ts = crate::text::views(tags@);
    let mut with_prefix = String::from_str("v");
    proof {
        reveal_strlit("v");
    }
    with_prefix.append(v);
    let mut i: usize = 0;
    while i < tags.len()
        invariant
            i <= tags@.len(),
            ts == crate::text::views(tags@),
            with_prefix@ == seq!['v'] + v@,
            literal_pos(ts.take(i as int), v@, prefixed) is None,
        decreases tags@.len() - i,
    {
        proof {
            assert(ts.take(i + 1).drop_last() =~= ts.take(i as int));
        }
        let t = tags[i].as_str();
        if crate::text::str_eq(t, v) || (prefixed && crate::text::str_eq(t, with_prefix.as_str())) {
            proof {
                assert(ts.take(i + 1).last() == t@);
                lemma_literal_pos_prefix(ts, i + 1, v@, prefixed);
            }
            return Some(i);
        }
        i = i + 1;
    }
    proof {
        assert(ts.take(tags@.len() as int) =~= ts);
    }
    None
}

} // verus!

//! The override listing: directory names decoded and ordered by package, then version.
use vstd::prelude::*;
use crate::composer::decode_spec;

verus! {

/// `a` is at most `b` in lexicographic character order (the order of `String`).
pub open spec fn text_le(a: Seq<char>, b: Seq<char>) -> bool
    decreases a.len(),
{
    if a.len() == 0 {
        true
    } else if b.len() == 0 {
        false
    } else if a[0] != b[0] {
        (a[0] as int) < (b[0] as int)
    } else {
        text_le(a.skip(1), b.skip(1))
    }
}

/// Ordered by package text, then by version text.
pub open spec fn entry_le(a: (Seq<char>, Seq<char>, Seq<char>), b: (Seq<char>, Seq<char>, Seq<char>)) -> bool {
    if a.0 == b.0 {
        text_le(a.1, b.1)
    } else {
        text_le(a.0, b.0)
    }
}

pub open spec fn sorted_entries(s: Seq<(Seq<char>, Seq<char>, Seq<char>)>) -> bool {
    forall|i: int, j: int| 0 <= i < j < s.len() ==> entry_le(s[i], s[j])
}

pub open spec fn triple_views(v: Seq<(String, String, String)>) -> Seq<(Seq<char>, Seq<char>, Seq<char>)> {
    v.map_values(|t: (String, String, String)| (t.0@, t.1@, t.2@))
}

/// Each directory (name, path) as (package, version, path).
pub open spec fn decoded(v: Seq<(String, String)>) -> Seq<(Seq<char>, Seq<char>, Seq<char>)> {
    v.map_values(|d: (String, String)| (decode_spec(d.0@).0, decode_spec(d.0@).1, d.1@))
}

proof fn lemma_text_le_total(a: Seq<char>, b: Seq<char>)
    ensures
        text_le(a, b) || text_le(b, a),
        text_le(a, b) && text_le(b, a) ==> a == b,
    decreases a.len(),
{
    if a.len() > 0 && b.len() > 0 && a[0] == b[0] {
        lemma_text_le_total(a.skip(1), b.skip(1));
        if text_le(a, b) && text_le(b, a) {
            assert(a =~= seq![a[0]] + a.skip(1));
            assert(b =~= seq![b[0]] + b.skip(1));
        }
    } else if a.len() > 0 && b.len() > 0 && a[0] != b[0] {
        assert((a[0] as int) != (b[0] as int));
    } else if a.len() == 0 && b.len() == 0 {
        assert(a =~= b);
    }
}

proof fn lemma_text_le_trans(a: Seq<char>, b: Seq<char>, c: Seq<char>)
    requires
        text_le(a, b),
        text_le(b, c),
    ensures
        text_le(a, c),
    decreases a.len(),
{
    if a.len() > 0 && b.len() > 0 && c.len() > 0 && a[0] == b[0] && b[0] == c[0] {
        lemma_text_le_trans(a.skip(1), b.skip(1), c.skip(1));
    }
}

proof fn lemma_entry_le_total(a: (Seq<char>, Seq<char>, Seq<char>), b: (Seq<char>, Seq<char>, Seq<char>))
    ensures
        entry_le(a, b) || entry_le(b, a),
{
    lemma_text_le_total(a.0, b.0);
    lemma_text_le_total(a.1, b.1);
}

proof fn lemma_entry_le_trans(
    a: (Seq<char>, Seq<char>, Seq<char>),
    b: (Seq<char>, Seq<char>, Seq<char>),
    c: (Seq<char>, Seq<char>, Seq<char>),
)
    requires
        entry_le(a, b),
        entry_le(b, c),
    ensures
        entry_le(a, c),
{
    lemma_text_le_total(a.0, b.0);
    lemma_text_le_total(b.0, c.0);
    lemma_text_le_total(a.0, c.0);
    if a.0 == b.0 && b.0 == c.0 {
        lemma_text_le_trans(a.1, b.1, c.1);
    } else if a.0 == b.0 {
    } else if b.0 == c.0 {
    } else {
        lemma_text_le_trans(a.0, b.0, c.0);
        if a.0 == c.0 {
            lemma_text_le_total(a.0, b.0);
        }
    }
}

/// Lexicographic comparison of two texts.
pub fn text_le_exec(a: &str, b: &str) -> (r: bool)
    ensures
        r == text_le(a@, b@),
{
    let n = a.unicode_len();
    let m = b.unicode_len();
    let mut i: usize = 0;
    proof {
        assert(a@.skip(0) =~= a@);
        assert(b@.skip(0) =~= b@);
    }
    while i < n && i < m
        invariant
            n == a@.len(),
            m == b@.len(),
            i <= n && i <= m,
            text_le(a@.skip(i as int), b@.skip(i as int)) == text_le(a@, b@),
        decreases n - i,
    {
        let x = a.get_char(i);
        let y = b.get_char(i);
        proof {
            assert(a@.skip(i as int)[0] == x);
            assert(b@.skip(i as int)[0] == y);
        }
        if x != y {
            return (x as u32) < (y as u32);
        }
        proof {
            assert(a@.skip(i as int).skip(1) =~= a@.skip(i + 1));
            assert(b@.skip(i as int).skip(1) =~= b@.skip(i + 1));
        }
        i = i + 1;
    }
    i == n
}

fn entry_le_exec(a: &(String, String, String), b: &(String, String, String)) -> (r: bool)
    ensures
        r == entry_le((a.0@, a.1@, a.2@), (b.0@, b.1@, b.2@)),
{
    if a.0 == b.0 {
        text_le_exec(a.1.as_str(), b.1.as_str())
    } else {
        text_le_exec(a.0.as_str(), b.0.as_str())
    }
}

/// Installed override directories, given as (directory name, path), decoded and ordered
/// by package and then version.
pub fn override_listing(dirs: &Vec<(String, String)>) -> (r: Vec<(String, String, String)>)
    ensures
        sorted_entries(triple_views(r@)),
        triple_views(r@).to_multiset() == decoded(dirs@).to_multiset(),
{
    broadcast use vstd::seq_lib::group_to_multiset_ensures;
    let mut out: Vec<(String, String, String)> = Vec::new();
    let mut i: usize = 0;
    while i < dirs.len()
        invariant
            i <= dirs@.len(),
            sorted_entries(triple_views(out@)),
            triple_views(out@).to_multiset() == decoded(dirs@.take(i as int)).to_multiset(),
        decreases dirs@.len() - i,
    {
        let (package, version) = crate::composer::decode_override_dir(dirs[i].0.as_str());
        let item = (package, version, dirs[i].1.clone());
        let ghost x = (item.0@, item.1@, item.2@);
        let ghost before = triple_views(out@);
        let mut j: usize = 0;
        while j < out.len() && entry_le_exec(&out[j], &item)
            invariant
                j <= out@.len(),
                before == triple_views(out@),
                x == (item.0@, item.1@, item.2@),
                forall|k: int| 0 <= k < j ==> entry_le(before[k], x),
            decreases out@.len() - j,
        {
            j = j + 1;
        }
        proof {
            if j < out@.len() {
                assert(!entry_le(before[j as int], x));
                lemma_entry_le_total(before[j as int], x);
            }
        }
        out.insert(j, item);
        proof {
            let after = triple_views(out@);
            assert(after =~= before.insert(j as int, x));
            assert forall|a: int, b: int| 0 <= a < b < after.len() implies entry_le(after[a], after[b]) by {
                if b < j {
                } else if b == j {
                } else if a < j {
                    assert(after[b] == before[b - 1]);
                    lemma_entry_le_total(before[j as int], x);
                    if b - 1 > j {
                        lemma_entry_le_trans(x, before[j as int], before[b - 1]);
                    }
                    lemma_entry_le_trans(after[a], x, after[b]);
                } else if a == j {
                    assert(after[b] == before[b - 1]);
                    lemma_entry_le_total(before[j as int], x);
                    if b - 1 > j {
                        lemma_entry_le_trans(x, before[j as int], before[b - 1]);
                    }
                } else {
                    assert(after[a] == before[a - 1]);
                    assert(after[b] == before[b - 1]);
                }
            }
            vstd::seq_lib::to_multiset_insert(before, j as int, x);
            assert(dirs@.take(i + 1) =~= dirs@.take(i as int).push(dirs@[i as int]));
            assert(decoded(dirs@.take(i + 1)) =~= decoded(dirs@.take(i as int)).push(x));
            vstd::seq_lib::to_multiset_build(decoded(dirs@.take(i as int)), x);
        }
        i = i + 1;
    }
    proof {
        assert(dirs@.take(dirs@.len() as int) =~= dirs@);
    }
    out
}

} // verus!

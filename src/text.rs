//! Character-level string operations with their mathematical meaning.
use vstd::prelude::*;

verus! {

/// The pieces of `s` between the occurrences of `sep` (what `str::split` yields).
pub open spec fn split_spec(s: Seq<char>, sep: char) -> Seq<Seq<char>>
    decreases s.len(),
{
    if s.len() == 0 {
        seq![Seq::<char>::empty()]
    } else {
        let prev = split_spec(s.drop_last(), sep);
        if s.last() == sep {
            prev.push(Seq::<char>::empty())
        } else {
            prev.update(prev.len() - 1, prev.last().push(s.last()))
        }
    }
}

/// The pieces joined back with `sep` between consecutive ones.
pub open spec fn join_spec(parts: Seq<Seq<char>>, sep: Seq<char>) -> Seq<char>
    decreases parts.len(),
{
    if parts.len() == 0 {
        Seq::<char>::empty()
    } else if parts.len() == 1 {
        parts[0]
    } else {
        join_spec(parts.drop_last(), sep) + sep + parts.last()
    }
}

/// Index of the first `c` in `s`, or `s.len()` when there is none.
pub open spec fn first_pos(s: Seq<char>, c: char) -> int
    decreases s.len(),
{
    if s.len() == 0 {
        0
    } else {
        let p = first_pos(s.drop_last(), c);
        if p < s.len() - 1 {
            p
        } else if s.last() == c {
            s.len() - 1
        } else {
            s.len() as int
        }
    }
}

/// `s` with every `from` replaced by `to`.
pub open spec fn replace_char_spec(s: Seq<char>, from: char, to: char) -> Seq<char> {
    s.map_values(|ch: char| if ch == from { to } else { ch })
}

/// `s` without its leading run of `c` (what `str::trim_start_matches(c)` yields).
pub open spec fn strip_leading(s: Seq<char>, c: char) -> Seq<char>
    decreases s.len(),
{
    if s.len() > 0 && s[0] == c {
        strip_leading(s.skip(1), c)
    } else {
        s
    }
}

/// `t` is a suffix of `s`.
pub open spec fn has_suffix(s: Seq<char>, t: Seq<char>) -> bool {
    t.len() <= s.len() && s.subrange(s.len() - t.len(), s.len() as int) == t
}

/// The views of a vector of strings.
pub open spec fn views(v: Seq<String>) -> Seq<Seq<char>> {
    v.map_values(|x: String| x@)
}

pub proof fn lemma_split_nonempty(s: Seq<char>, sep: char)
    ensures
        split_spec(s, sep).len() >= 1,
    decreases s.len(),
{
    if s.len() > 0 {
        lemma_split_nonempty(s.drop_last(), sep);
    }
}

pub proof fn lemma_first_pos_bounds(s: Seq<char>, c: char)
    ensures
        0 <= first_pos(s, c) <= s.len(),
        first_pos(s, c) < s.len() ==> s[first_pos(s, c)] == c,
        forall|j: int| 0 <= j < first_pos(s, c) ==> s[j] != c,
    decreases s.len(),
{
    if s.len() > 0 {
        lemma_first_pos_bounds(s.drop_last(), c);
        assert forall|j: int| 0 <= j < first_pos(s, c) implies s[j] != c by {
            if j < s.len() - 1 {
                assert(s.drop_last()[j] == s[j]);
            }
        }
    }
}

/// A text without `sep` is a single piece.
pub proof fn lemma_split_no_sep(s: Seq<char>, sep: char)
    requires
        !s.contains(sep),
    ensures
        split_spec(s, sep) == seq![s],
    decreases s.len(),
{
    if s.len() > 0 {
        assert(!s.drop_last().contains(sep)) by {
            if s.drop_last().contains(sep) {
                let i = choose|i: int| 0 <= i < s.drop_last().len() && s.drop_last()[i] == sep;
                assert(s[i] == sep);
            }
        }
        lemma_split_no_sep(s.drop_last(), sep);
        if s.last() == sep {
            assert(s[s.len() - 1] == sep);
        }
        assert(s.drop_last().push(s.last()) =~= s);
        assert(seq![s.drop_last()].update(0, s.drop_last().push(s.last())) =~= seq![s]);
    } else {
        assert(s =~= Seq::<char>::empty());
    }
}

/// Appending a text without `sep` extends the last piece.
pub proof fn lemma_split_append(u: Seq<char>, t: Seq<char>, sep: char)
    requires
        !t.contains(sep),
    ensures
        split_spec(u + t, sep) == split_spec(u, sep).update(
            split_spec(u, sep).len() - 1,
            split_spec(u, sep).last() + t,
        ),
    decreases t.len(),
{
    lemma_split_nonempty(u, sep);
    let p = split_spec(u, sep);
    if t.len() == 0 {
        assert(u + t =~= u);
        assert(p.last() + t =~= p.last());
        assert(p.update(p.len() - 1, p.last() + t) =~= p);
    } else {
        let t0 = t.drop_last();
        assert(!t0.contains(sep)) by {
            if t0.contains(sep) {
                let i = choose|i: int| 0 <= i < t0.len() && t0[i] == sep;
                assert(t[i] == sep);
            }
        }
        lemma_split_append(u, t0, sep);
        assert((u + t).drop_last() =~= u + t0);
        assert((u + t).last() == t.last());
        if t.last() == sep {
            assert(t[t.len() - 1] == sep);
        }
        let q = split_spec(u + t0, sep);
        assert(q.len() == p.len());
        assert(q.last() == p.last() + t0);
        assert((p.last() + t0).push(t.last()) =~= p.last() + t);
        assert(q.update(q.len() - 1, q.last().push(t.last())) =~= p.update(p.len() - 1, p.last() + t));
        assert(p.last() + t0 + seq![t.last()] =~= p.last() + t);
        assert(split_spec(u + t, sep) =~= p.update(p.len() - 1, p.last() + t));
    }
}

/// Copies a string.
pub fn owned(s: &str) -> (r: String)
    ensures
        r@ == s@,
{
    String::from_str(s)
}

/// Equality of two string slices.
pub fn str_eq(a: &str, b: &str) -> (r: bool)
    ensures
        r == (a@ == b@),
{
    let x = String::from_str(a);
    let y = String::from_str(b);
    x == y
}

/// Whether `s` ends with `t`.
pub fn ends_with(s: &str, t: &str) -> (r: bool)
    ensures
        r == has_suffix(s@, t@),
{
    let n = s.unicode_len();
    let m = t.unicode_len();
    if m > n {
        return false;
    }
    let tail = s.substring_char(n - m, n);
    str_eq(tail, t)
}

/// Whether `s` starts with `t`.
pub fn starts_with(s: &str, t: &str) -> (r: bool)
    ensures
        r == t@.is_prefix_of(s@),
{
    let n = s.unicode_len();
    let m = t.unicode_len();
    if m > n {
        return false;
    }
    let head = s.substring_char(0, m);
    let r = str_eq(head, t);
    assert(r == (t@ =~= s@.subrange(0, m as int)));
    r
}

/// Index of the first `c` in `s`, or the length of `s` when there is none.
pub fn find_char(s: &str, c: char) -> (r: usize)
    ensures
        r as int == first_pos(s@, c),
{
    let n = s.unicode_len();
    let mut p: usize = 0;
    let mut i: usize = 0;
    while i < n
        invariant
            n == s@.len(),
            i <= n,
            p as int == first_pos(s@.take(i as int), c),
            p <= i,
        decreases n - i,
    {
        proof {
            assert(s@.take(i + 1).drop_last() =~= s@.take(i as int));
            lemma_first_pos_bounds(s@.take(i as int), c);
        }
        if p == i && s.get_char(i) == c {
            p = i;
        } else if p == i {
            p = i + 1;
        }
        i = i + 1;
    }
    assert(s@.take(n as int) =~= s@);
    p
}

/// Splits `s` at every `sep`.
pub fn split_chars(s: &str, sep: char) -> (r: Vec<String>)
    ensures
        views(r@) == split_spec(s@, sep),
        r@.len() >= 1,
{
    let n = s.unicode_len();
    let mut parts: Vec<String> = Vec::new();
    let mut cur = String::new();
    let mut i: usize = 0;
    while i < n
        invariant
            n == s@.len(),
            i <= n,
            views(parts@).push(cur@) == split_spec(s@.take(i as int), sep),
        decreases n - i,
    {
        proof {
            assert(s@.take(i + 1).drop_last() =~= s@.take(i as int));
        }
        let ch = s.get_char(i);
        let piece = s.substring_char(i, i + 1);
        let ghost before = cur@;
        proof {
            assert(s@.take(i + 1).last() == ch);
        }
        if ch == sep {
            let done = cur;
            parts.push(done);
            cur = String::new();
            proof {
                assert(views(parts@).push(cur@) =~= split_spec(s@.take(i + 1), sep));
            }
        } else {
            cur.append(piece);
            proof {
                assert(piece@ =~= seq![ch]);
                assert(cur@ =~= before.push(ch));
                assert(views(parts@).push(cur@) =~= split_spec(s@.take(i + 1), sep));
            }
        }
        i = i + 1;
    }
    parts.push(cur);
    proof {
        assert(s@.take(n as int) =~= s@);
        assert(views(parts@) =~= split_spec(s@, sep));
    }
    parts
}

/// Joins `parts` with `sep` between consecutive ones.
pub fn join_strings(parts: &Vec<String>, sep: &str) -> (r: String)
    ensures
        r@ == join_spec(views(parts@), sep@),
{
    let mut out = String::new();
    let mut i: usize = 0;
    while i < parts.len()
        invariant
            i <= parts@.len(),
            out@ == join_spec(views(parts@.take(i as int)), sep@),
        decreases parts@.len() - i,
    {
        proof {
            assert(views(parts@.take(i + 1)).drop_last() =~= views(parts@.take(i as int)));
        }
        if i > 0 {
            out.append(sep);
        }
        out.append(parts[i].as_str());
        proof {
            if i == 0 {
                assert(out@ =~= join_spec(views(parts@.take(1)), sep@));
            }
        }
        i = i + 1;
    }
    proof {
        assert(parts@.take(parts@.len() as int) =~= parts@);
    }
    out
}

/// `s` with every `from` replaced by the one-character string `to`.
pub fn replace_char(s: &str, from: char, to: &str) -> (r: String)
    requires
        to@.len() == 1,
    ensures
        r@ == replace_char_spec(s@, from, to@[0]),
{
    let n = s.unicode_len();
    let mut out = String::new();
    let mut i: usize = 0;
    while i < n
        invariant
            n == s@.len(),
            i <= n,
            to@.len() == 1,
            out@ == replace_char_spec(s@.take(i as int), from, to@[0]),
        decreases n - i,
    {
        let ch = s.get_char(i);
        if ch == from {
            out.append(to);
        } else {
            out.append(s.substring_char(i, i + 1));
        }
        proof {
            assert(out@ =~= replace_char_spec(s@.take(i + 1), from, to@[0]));
        }
        i = i + 1;
    }
    proof {
        assert(s@.take(n as int) =~= s@);
    }
    out
}

/// `s` without its leading run of `c`.
pub fn trim_leading(s: &str, c: char) -> (r: &str)
    ensures
        r@ == strip_leading(s@, c),
{
    let n = s.unicode_len();
    let mut i: usize = 0;
    assert(s@.skip(0) =~= s@);
    while i < n && s.get_char(i) == c
        invariant
            n == s@.len(),
            i <= n,
            strip_leading(s@.skip(i as int), c) == strip_leading(s@, c),
        decreases n - i,
    {
        proof {
            assert(s@.skip(i as int).skip(1) =~= s@.skip(i + 1));
        }
        i = i + 1;
    }
    proof {
        assert(s@.skip(0) =~= s@);
    }
    let r = s.substring_char(i, n);
    proof {
        assert(r@ =~= s@.skip(i as int));
    }
    r
}

} // verus!

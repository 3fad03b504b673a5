//! Searching and replacing byte strings.
use vstd::prelude::*;

verus! {

/// `p` occurs in `s` starting at index `i`.
pub open spec fn occurs_at(s: Seq<u8>, p: Seq<u8>, i: int) -> bool {
    0 <= i && i + p.len() <= s.len() && s.subrange(i, i + p.len()) == p
}

/// `p` occurs somewhere in `s`.
pub open spec fn contains(s: Seq<u8>, p: Seq<u8>) -> bool {
    exists|i: int| occurs_at(s, p, i)
}

/// `s` begins with `p`.
pub open spec fn starts_with(s: Seq<u8>, p: Seq<u8>) -> bool {
    p.len() <= s.len() && s.subrange(0, p.len() as int) == p
}

/// Every occurrence of `from` in `s` replaced by `to`, scanning from the left
/// and never letting two replaced occurrences overlap.
pub open spec fn replace_all(s: Seq<u8>, from: Seq<u8>, to: Seq<u8>) -> Seq<u8>
    decreases s.len(),
{
    if from.len() == 0 || s.len() == 0 {
        s
    } else if starts_with(s, from) {
        to + replace_all(s.subrange(from.len() as int, s.len() as int), from, to)
    } else {
        seq![s[0]] + replace_all(s.subrange(1, s.len() as int), from, to)
    }
}

/// Whether `p` occurs in `s` at index `i`.
fn occurs_at_exec(s: &[u8], p: &[u8], i: usize) -> (r: bool)
    requires
        i + p@.len() <= s@.len(),
    ensures
        r == occurs_at(s@, p@, i as int),
{
    let n: usize = s.len();
    let mut j: usize = 0;
    while j < p.len()
        invariant
            n == s@.len(),
            i + p@.len() <= s@.len(),
            j <= p@.len(),
            forall|k: int| 0 <= k < j ==> s@[i + k] == p@[k],
        decreases p@.len() - j,
    {
        if s[i + j] != p[j] {
            assert(s@.subrange(i as int, i + p@.len())[j as int] != p@[j as int]);
            return false;
        }
        j = j + 1;
    }
    assert(s@.subrange(i as int, i + p@.len()) =~= p@);
    true
}

/// Whether `p` occurs anywhere in `s`.
pub fn contains_bytes(s: &[u8], p: &[u8]) -> (r: bool)
    ensures
        r == contains(s@, p@),
{
    if p.len() == 0 {
        assert(s@.subrange(0, 0) =~= p@);
        assert(occurs_at(s@, p@, 0));
        return true;
    }
    let mut i: usize = 0;
    while p.len() <= s.len() - i
        invariant
            p@.len() > 0,
            i <= s@.len(),
            forall|k: int| 0 <= k < i ==> !occurs_at(s@, p@, k),
        decreases s@.len() - i,
    {
        if occurs_at_exec(s, p, i) {
            return true;
        }
        i = i + 1;
    }
    false
}

/// Unfolds `replace_all` once on a sequence that does not begin with `from`.
proof fn lemma_replace_step(s: Seq<u8>, from: Seq<u8>, to: Seq<u8>)
    requires
        from.len() > 0,
        s.len() > 0,
        !starts_with(s, from),
    ensures
        replace_all(s, from, to) == seq![s[0]] + replace_all(s.subrange(1, s.len() as int), from, to),
{
}

/// A copy of `s` with every occurrence of `from` replaced by `to`.
pub fn replace_bytes(s: &[u8], from: &[u8], to: &[u8]) -> (r: Vec<u8>)
    requires
        from@.len() > 0,
    ensures
        r@ == replace_all(s@, from@, to@),
{
    let mut out: Vec<u8> = Vec::new();
    let mut i: usize = 0;
    assert(s@.subrange(0, s@.len() as int) =~= s@);
    while i < s.len()
        invariant
            from@.len() > 0,
            i <= s@.len(),
            out@ + replace_all(s@.subrange(i as int, s@.len() as int), from@, to@)
                == replace_all(s@, from@, to@),
        decreases s@.len() - i,
    {
        let rest = Ghost(s@.subrange(i as int, s@.len() as int));
        if from.len() <= s.len() - i && occurs_at_exec(s, from, i) {
            assert(rest@.subrange(0, from@.len() as int) =~= s@.subrange(i as int, i + from@.len()));
            assert(rest@.subrange(from@.len() as int, rest@.len() as int)
                =~= s@.subrange(i + from@.len(), s@.len() as int));
            let before = Ghost(out@);
            let mut j: usize = 0;
            while j < to.len()
                invariant
                    j <= to@.len(),
                    out@ == before@ + to@.subrange(0, j as int),
                decreases to@.len() - j,
            {
                out.push(to[j]);
                j = j + 1;
            }
            assert(to@.subrange(0, to@.len() as int) =~= to@);
            assert(before@ + to@ + replace_all(s@.subrange(i + from@.len(), s@.len() as int), from@, to@)
                =~= before@ + (to@ + replace_all(s@.subrange(i + from@.len(), s@.len() as int), from@, to@)));
            i = i + from.len();
        } else {
            assert(!starts_with(rest@, from@)) by {
                if starts_with(rest@, from@) {
                    assert(rest@.subrange(0, from@.len() as int) =~= s@.subrange(i as int, i + from@.len()));
                }
            }
            assert(rest@.subrange(1, rest@.len() as int) =~= s@.subrange(i + 1, s@.len() as int));
            proof {
                lemma_replace_step(rest@, from@, to@);
            }
            let before = Ghost(out@);
            out.push(s[i]);
            assert(out@ + replace_all(s@.subrange(i + 1, s@.len() as int), from@, to@)
                =~= before@ + (seq![s@[i as int]] + replace_all(s@.subrange(i + 1, s@.len() as int), from@, to@)));
            i = i + 1;
        }
    }
    assert(s@.subrange(s@.len() as int, s@.len() as int) =~= Seq::<u8>::empty());
    out
}

/// An occurrence in a suffix is an occurrence in the whole.
pub proof fn lemma_occurs_in_suffix(s: Seq<u8>, p: Seq<u8>, k: int, i: int)
    requires
        0 <= k <= s.len(),
        occurs_at(s.subrange(k, s.len() as int), p, i),
    ensures
        occurs_at(s, p, k + i),
{
    assert(s.subrange(k, s.len() as int).subrange(i, i + p.len()) =~= s.subrange(k + i, k + i + p.len()));
}

/// Where `from` occurs, the replacement occurs in the result.
pub proof fn lemma_replace_present(s: Seq<u8>, from: Seq<u8>, to: Seq<u8>)
    requires
        from.len() > 0,
        contains(s, from),
    ensures
        contains(replace_all(s, from, to), to),
    decreases s.len(),
{
    let i = choose|i: int| occurs_at(s, from, i);
    if starts_with(s, from) {
        let r = replace_all(s, from, to);
        assert(r.subrange(0, to.len() as int) =~= to);
        assert(occurs_at(r, to, 0));
    } else {
        assert(i != 0);
        let rest = s.subrange(1, s.len() as int);
        assert(rest.subrange(i - 1, i - 1 + from.len()) =~= s.subrange(i, i + from.len()));
        assert(occurs_at(rest, from, i - 1));
        lemma_replace_present(rest, from, to);
        let t = replace_all(rest, from, to);
        let j = choose|j: int| occurs_at(t, to, j);
        let r = seq![s[0]] + t;
        assert(r.subrange(1, r.len() as int) =~= t);
        lemma_occurs_in_suffix(r, to, 1, j);
    }
}

/// Replacing `from` (which begins with `q`) by `to` (which begins with `q`)
/// keeps every prefix that holds `q` at most at its end.
pub proof fn lemma_prefix_kept(s: Seq<u8>, from: Seq<u8>, to: Seq<u8>, w: Seq<u8>, q: u8)
    requires
        from.len() > 0,
        to.len() > 0,
        from[0] == q,
        to[0] == q,
        forall|k: int| 0 <= k < w.len() - 1 ==> w[k] != q,
        starts_with(replace_all(s, from, to), w),
    ensures
        starts_with(s, w),
    decreases s.len(),
{
    let r = replace_all(s, from, to);
    if w.len() > 0 {
        assert(s.len() > 0) by {
            if s.len() == 0 {
                assert(r.len() == 0);
            }
        }
        if starts_with(s, from) {
            assert(r[0] == to[0]);
            assert(w[0] == r.subrange(0, w.len() as int)[0]);
            assert(w.len() == 1);
            assert(s[0] == s.subrange(0, from.len() as int)[0]);
            assert(s.subrange(0, 1) =~= w);
        } else {
            let rest = s.subrange(1, s.len() as int);
            let t = replace_all(rest, from, to);
            let w1 = w.subrange(1, w.len() as int);
            lemma_replace_step(s, from, to);
            assert(r == seq![s[0]] + t);
            assert(r.subrange(1, w.len() as int) =~= t.subrange(0, w1.len() as int));
            assert(w1 =~= r.subrange(0, w.len() as int).subrange(1, w.len() as int));
            assert(r.subrange(0, w.len() as int).subrange(1, w.len() as int) =~= r.subrange(1, w.len() as int));
            assert(starts_with(t, w1));
            lemma_prefix_kept(rest, from, to, w1, q);
            assert(s.subrange(0, w.len() as int) =~= seq![s[0]] + rest.subrange(0, w1.len() as int));
            assert(w =~= seq![w[0]] + w1);
            assert(w[0] == r.subrange(0, w.len() as int)[0]);
        }
    } else {
        assert(s.subrange(0, 0) =~= w);
    }
}

/// Replacing `from` by `to` and then `to` by `from` gives back the original,
/// when both begin with the byte `q`, `to` holds `q` nowhere but at its ends,
/// and the original holds no `to`.
pub proof fn lemma_replace_round_trip(s: Seq<u8>, from: Seq<u8>, to: Seq<u8>, q: u8)
    requires
        from.len() > 0,
        to.len() > 0,
        from[0] == q,
        to[0] == q,
        forall|k: int| 1 <= k < to.len() - 1 ==> to[k] != q,
        !contains(s, to),
    ensures
        replace_all(replace_all(s, from, to), to, from) == s,
    decreases s.len(),
{
    if s.len() > 0 {
        if starts_with(s, from) {
            let rest = s.subrange(from.len() as int, s.len() as int);
            assert(!contains(rest, to)) by {
                if contains(rest, to) {
                    let i = choose|i: int| occurs_at(rest, to, i);
                    lemma_occurs_in_suffix(s, to, from.len() as int, i);
                }
            }
            lemma_replace_round_trip(rest, from, to, q);
            let t = replace_all(rest, from, to);
            let u = to + t;
            assert(u.subrange(0, to.len() as int) =~= to);
            assert(u.subrange(to.len() as int, u.len() as int) =~= t);
            assert(from + rest =~= s);
        } else {
            let rest = s.subrange(1, s.len() as int);
            assert(!contains(rest, to)) by {
                if contains(rest, to) {
                    let i = choose|i: int| occurs_at(rest, to, i);
                    lemma_occurs_in_suffix(s, to, 1, i);
                }
            }
            lemma_replace_round_trip(rest, from, to, q);
            let t = replace_all(rest, from, to);
            let u = seq![s[0]] + t;
            assert(!starts_with(u, to)) by {
                if starts_with(u, to) {
                    let w = to.subrange(1, to.len() as int);
                    assert(u.subrange(1, to.len() as int) =~= t.subrange(0, w.len() as int));
                    assert(w =~= u.subrange(0, to.len() as int).subrange(1, to.len() as int));
                    assert(u.subrange(0, to.len() as int).subrange(1, to.len() as int) =~= u.subrange(1, to.len() as int));
                    assert(u[0] == u.subrange(0, to.len() as int)[0]);
                    assert(starts_with(t, w));
                    lemma_prefix_kept(rest, from, to, w, q);
                    assert(s.subrange(0, to.len() as int) =~= seq![s[0]] + rest.subrange(0, w.len() as int));
                    assert(to =~= seq![to[0]] + w);
                    assert(occurs_at(s, to, 0));
                }
            }
            assert(u.subrange(1, u.len() as int) =~= t);
            assert(seq![s[0]] + rest =~= s);
        }
    }
}

} // verus!

//! Byte-level reasoning about relative paths: separators, the last path
//! segment, and the byte-wise order in which a table keeps its paths.

use vstd::prelude::*;

verus! {

/// The path separator, `/`.
pub const SLASH: u8 = 47;

/// The backslash, `\`, which lookups accept in place of `/`.
pub const BACKSLASH: u8 = 92;

/// `p` with every backslash replaced by a forward slash.
pub open spec fn normalize_separators(p: Seq<u8>) -> Seq<u8> {
    p.map_values(|b: u8| if b == BACKSLASH { SLASH } else { b })
}

/// What follows the last `/` of `p`; all of `p` when it has none.
pub open spec fn last_segment(p: Seq<u8>) -> Seq<u8>
    decreases p.len(),
{
    if p.len() == 0 {
        p
    } else if p.last() == SLASH {
        Seq::empty()
    } else {
        last_segment(p.drop_last()).push(p.last())
    }
}

/// The directory that holds the fonts, `fonts/`.
pub open spec fn font_dir() -> Seq<u8> {
    seq![102u8, 111u8, 110u8, 116u8, 115u8, SLASH]
}

/// Whether `p` lies under `fonts/`.
pub open spec fn in_font_dir(p: Seq<u8>) -> bool {
    p.len() >= font_dir().len() && p.take(font_dir().len() as int) == font_dir()
}

/// Byte-wise lexicographic order: `a` sorts strictly before `b`.
pub open spec fn lex_lt(a: Seq<u8>, b: Seq<u8>) -> bool
    decreases a.len(),
{
    if a.len() == 0 {
        b.len() > 0
    } else if b.len() == 0 {
        false
    } else if a[0] != b[0] {
        a[0] < b[0]
    } else {
        lex_lt(a.drop_first(), b.drop_first())
    }
}

/// No sequence sorts before itself.
pub proof fn lemma_lex_lt_irreflexive(a: Seq<u8>)
    ensures
        !lex_lt(a, a),
    decreases a.len(),
{
    if a.len() > 0 {
        lemma_lex_lt_irreflexive(a.drop_first());
    }
}

/// The byte-wise order is transitive.
pub proof fn lemma_lex_lt_transitive(a: Seq<u8>, b: Seq<u8>, c: Seq<u8>)
    requires
        lex_lt(a, b),
        lex_lt(b, c),
    ensures
        lex_lt(a, c),
    decreases a.len(),
{
    if a.len() > 0 && b.len() > 0 && c.len() > 0 && a[0] == b[0] && b[0] == c[0] {
        lemma_lex_lt_transitive(a.drop_first(), b.drop_first(), c.drop_first());
    }
}

/// `a` sorts before `b` when both agree up to position `k` and there `a`
/// ends first or has the smaller byte.
pub proof fn lemma_lex_lt_at(a: Seq<u8>, b: Seq<u8>, k: int)
    requires
        0 <= k <= a.len(),
        k < b.len(),
        forall|j: int| 0 <= j < k ==> a[j] == b[j],
        k == a.len() || a[k] < b[k],
    ensures
        lex_lt(a, b),
    decreases k,
{
    if k > 0 {
        assert(a[0] == b[0]);
        lemma_lex_lt_at(a.drop_first(), b.drop_first(), k - 1);
    }
}

/// Sorting each neighbour before the next sorts the whole sequence.
pub proof fn lemma_sorted_from_neighbours(s: Seq<Seq<u8>>)
    requires
        forall|i: int| 0 <= i < s.len() - 1 ==> lex_lt(#[trigger] s[i], s[i + 1]),
    ensures
        forall|i: int, j: int| 0 <= i < j < s.len() ==> lex_lt(#[trigger] s[i], #[trigger] s[j]),
    decreases s.len(),
{
    if s.len() > 1 {
        let t = s.drop_last();
        assert forall|i: int| 0 <= i < t.len() - 1 implies lex_lt(#[trigger] t[i], t[i + 1]) by {
            assert(t[i] == s[i] && t[i + 1] == s[i + 1]);
        }
        lemma_sorted_from_neighbours(t);
        assert forall|i: int, j: int| 0 <= i < j < s.len() implies lex_lt(
            #[trigger] s[i],
            #[trigger] s[j],
        ) by {
            if j < s.len() - 1 {
                assert(t[i] == s[i] && t[j] == s[j]);
            } else if i < j - 1 {
                assert(t[i] == s[i] && t[j - 1] == s[j - 1]);
                lemma_lex_lt_transitive(s[i], s[j - 1], s[j]);
            }
        }
    }
}

/// Replacing backslashes a second time changes nothing.
pub proof fn lemma_normalize_idempotent(p: Seq<u8>)
    ensures
        normalize_separators(normalize_separators(p)) == normalize_separators(p),
{
    assert(normalize_separators(normalize_separators(p)) =~= normalize_separators(p));
}

/// A path without backslashes is its own normal form.
pub proof fn lemma_normalize_without_backslash(p: Seq<u8>)
    requires
        !p.contains(BACKSLASH),
    ensures
        normalize_separators(p) == p,
{
    assert forall|i: int| 0 <= i < p.len() implies normalize_separators(p)[i] == p[i] by {
        if p[i] == BACKSLASH {
            assert(p.contains(BACKSLASH));
        }
    }
    assert(normalize_separators(p) =~= p);
}

/// A copy of `p` with every backslash replaced by a forward slash.
pub fn normalized(p: &[u8]) -> (r: Vec<u8>)
    ensures
        r@ == normalize_separators(p@),
{
    let mut r: Vec<u8> = Vec::new();
    let mut i: usize = 0;
    while i < p.len()
        invariant
            i <= p@.len(),
            r@ == normalize_separators(p@.take(i as int)),
        decreases p@.len() - i,
    {
        let b = p[i];
        if b == BACKSLASH {
            r.push(SLASH);
        } else {
            r.push(b);
        }
        assert(p@.take(i + 1) =~= p@.take(i as int).push(b));
        assert(r@ =~= normalize_separators(p@.take(i + 1)));
        i = i + 1;
    }
    assert(p@.take(i as int) =~= p@);
    r
}

/// Whether `p` holds a backslash.
pub fn has_backslash(p: &[u8]) -> (r: bool)
    ensures
        r == p@.contains(BACKSLASH),
{
    let mut i: usize = 0;
    while i < p.len()
        invariant
            i <= p@.len(),
            forall|j: int| 0 <= j < i ==> p@[j] != BACKSLASH,
        decreases p@.len() - i,
    {
        if p[i] == BACKSLASH {
            return true;
        }
        i = i + 1;
    }
    false
}

/// Whether the bytes of `p` from `start` on are exactly `q`.
pub fn equal_from(p: &[u8], start: usize, q: &[u8]) -> (r: bool)
    requires
        start <= p@.len(),
    ensures
        r == (p@.subrange(start as int, p@.len() as int) == q@),
{
    let n = p.len();
    if n - start != q.len() {
        return false;
    }
    let mut i: usize = 0;
    while i < q.len()
        invariant
            i <= q@.len(),
            start <= p@.len(),
            n == p@.len(),
            start + q@.len() == n,
            forall|j: int| 0 <= j < i ==> p@[start + j] == q@[j],
        decreases q@.len() - i,
    {
        if p[start + i] != q[i] {
            assert(p@.subrange(start as int, p@.len() as int)[i as int] != q@[i as int]);
            return false;
        }
        i = i + 1;
    }
    assert(p@.subrange(start as int, p@.len() as int) =~= q@);
    true
}

/// Where the last segment of `p` begins.
pub fn segment_start(p: &[u8]) -> (k: usize)
    ensures
        k <= p@.len(),
        last_segment(p@) == p@.subrange(k as int, p@.len() as int),
{
    let mut k: usize = p.len();
    assert(p@.take(k as int) =~= p@);
    assert(last_segment(p@) + p@.subrange(k as int, k as int) =~= last_segment(p@));
    while k > 0 && p[k - 1] != SLASH
        invariant
            k <= p@.len(),
            last_segment(p@) == last_segment(p@.take(k as int)) + p@.subrange(
                k as int,
                p@.len() as int,
            ),
        decreases k,
    {
        let ghost t = p@.take(k as int);
        assert(t.drop_last() =~= p@.take(k - 1));
        assert(p@.subrange(k - 1, p@.len() as int) =~= seq![p@[k - 1]] + p@.subrange(
            k as int,
            p@.len() as int,
        ));
        assert(last_segment(t) == last_segment(p@.take(k - 1)).push(p@[k - 1]));
        assert(last_segment(t) + p@.subrange(k as int, p@.len() as int) =~= last_segment(
            p@.take(k - 1),
        ) + p@.subrange(k - 1, p@.len() as int));
        k = k - 1;
    }
    assert(last_segment(p@.take(k as int)) =~= Seq::<u8>::empty());
    assert(last_segment(p@) =~= p@.subrange(k as int, p@.len() as int));
    k
}

/// Whether `p` lies under `fonts/`.
pub fn is_font_path(p: &[u8]) -> (r: bool)
    ensures
        r == in_font_dir(p@),
{
    // The bytes of "fonts/".
    let r = p.len() >= 6 && p[0] == 102u8 && p[1] == 111u8 && p[2] == 110u8 && p[3] == 116u8
        && p[4] == 115u8 && p[5] == SLASH;
    proof {
        if p@.len() >= 6 {
            if r {
                assert(p@.take(6) =~= font_dir());
            } else {
                let k: int = if p@[0] != 102u8 { 0 } else if p@[1] != 111u8 { 1 } else if p@[2] != 110u8 { 2 } else if p@[3] != 116u8 { 3 } else if p@[4] != 115u8 { 4 } else { 5 };
                assert(p@.take(6)[k] != font_dir()[k]);
            }
        }
    }
    r
}

/// Whether `a` sorts strictly before `b`, byte by byte.
pub fn less_than(a: &[u8], b: &[u8]) -> (r: bool)
    ensures
        r == lex_lt(a@, b@),
{
    let mut i: usize = 0;
    assert(a@.skip(0) =~= a@);
    assert(b@.skip(0) =~= b@);
    while i < a.len() && i < b.len()
        invariant
            i <= a@.len(),
            i <= b@.len(),
            lex_lt(a@, b@) == lex_lt(a@.skip(i as int), b@.skip(i as int)),
        decreases a@.len() - i,
    {
        if a[i] != b[i] {
            return a[i] < b[i];
        }
        assert(a@.skip(i as int).drop_first() =~= a@.skip(i + 1));
        assert(b@.skip(i as int).drop_first() =~= b@.skip(i + 1));
        i = i + 1;
    }
    i < b.len()
}

} // verus!

//! The order of names: strings compared character by character (for
//! UTF-8 text this is the byte order in which `String`s compare), and
//! stable sorting by name.

use vstd::prelude::*;

use crate::text::chars_of;

verus! {

/// Whether `a` comes strictly before `b`.
pub open spec fn lex_lt(a: Seq<char>, b: Seq<char>) -> bool
    decreases a.len(),
{
    if a.len() == 0 {
        b.len() > 0
    } else if b.len() == 0 {
        false
    } else if a[0] != b[0] {
        a[0] < b[0]
    } else {
        lex_lt(a.drop_first(), b.drop_first())
    }
}

/// Whether `a` comes before `b` or equals it.
pub open spec fn lex_le(a: Seq<char>, b: Seq<char>) -> bool {
    a == b || lex_lt(a, b)
}

/// Any two names compare one way or the other.
pub proof fn lemma_lex_total(a: Seq<char>, b: Seq<char>)
    ensures
        !lex_lt(a, b) ==> lex_le(b, a),
        lex_lt(a, b) ==> !lex_lt(b, a) && a != b,
    decreases a.len(),
{
    if a.len() > 0 && b.len() > 0 && a[0] == b[0] {
        lemma_lex_total(a.drop_first(), b.drop_first());
        if a.drop_first() == b.drop_first() {
            assert(a =~= seq![a[0]] + a.drop_first());
            assert(b =~= seq![b[0]] + b.drop_first());
        }
    } else if a.len() == 0 && b.len() == 0 {
        assert(a =~= b);
    }
}

/// The order is transitive.
pub proof fn lemma_lex_trans(a: Seq<char>, b: Seq<char>, c: Seq<char>)
    requires
        lex_lt(a, b),
        lex_lt(b, c),
    ensures
        lex_lt(a, c),
    decreases a.len(),
{
    if a.len() > 0 && b.len() > 0 && c.len() > 0 && a[0] == b[0] && b[0] == c[0] {
        lemma_lex_trans(a.drop_first(), b.drop_first(), c.drop_first());
    }
}

/// Whether `a` comes strictly before `b`.
pub fn str_lt(a: &str, b: &str) -> (r: bool)
    ensures
        r == lex_lt(a@, b@),
{
    let x = chars_of(a);
    let y = chars_of(b);
    let mut i: usize = 0;
    assert(a@.subrange(0, a@.len() as int) =~= a@);
    assert(b@.subrange(0, b@.len() as int) =~= b@);
    while i < x.len() && i < y.len() && x[i] == y[i]
        invariant
            x@ == a@,
            y@ == b@,
            i <= x@.len(),
            i <= y@.len(),
            lex_lt(a@, b@) == lex_lt(a@.subrange(i as int, a@.len() as int), b@.subrange(i as int, b@.len() as int)),
        decreases x@.len() - i,
    {
        let ghost sa = a@.subrange(i as int, a@.len() as int);
        let ghost sb = b@.subrange(i as int, b@.len() as int);
        assert(sa.drop_first() =~= a@.subrange(i + 1, a@.len() as int));
        assert(sb.drop_first() =~= b@.subrange(i + 1, b@.len() as int));
        i += 1;
    }
    let ghost sa = a@.subrange(i as int, a@.len() as int);
    let ghost sb = b@.subrange(i as int, b@.len() as int);
    if i == x.len() {
        i < y.len()
    } else if i == y.len() {
        false
    } else {
        assert(sa[0] == x@[i as int] && sb[0] == y@[i as int]);
        x[i] < y[i]
    }
}

/// Whether `idx` lists the positions `0..n`, each once.
pub open spec fn is_permutation(idx: Seq<int>, n: int) -> bool {
    &&& idx.len() == n
    &&& forall|i: int| 0 <= i < idx.len() ==> 0 <= #[trigger] idx[i] < n
    &&& forall|i: int, j: int| 0 <= i < j < idx.len() ==> idx[i] != idx[j]
}

/// Whether `idx` orders the positions of `names` by name, keeping equal
/// names in their order: the order a stable sort by name gives.
pub open spec fn is_stable_name_order(names: Seq<Seq<char>>, idx: Seq<int>) -> bool {
    &&& is_permutation(idx, names.len() as int)
    &&& forall|i: int, j: int| 0 <= i < j < idx.len() ==> lex_le(names[idx[i]], names[idx[j]])
    &&& forall|i: int, j: int| 0 <= i < j < idx.len() && names[idx[i]] == names[idx[j]] ==> idx[i] < idx[j]
}

/// The positions of `names` in the order of a stable sort by name.
pub fn stable_name_order(names: &Vec<String>) -> (r: Vec<usize>)
    ensures
        is_stable_name_order(names.deep_view(), r@.map_values(|k: usize| k as int)),
{
    let ghost nv = names.deep_view();
    let mut idx: Vec<usize> = Vec::new();
    let mut i: usize = 0;
    while i < names.len()
        invariant
            nv == names.deep_view(),
            i <= nv.len(),
            idx@.len() == i,
            forall|a: int| 0 <= a < idx@.len() ==> #[trigger] idx@[a] < i,
            forall|a: int, b: int| 0 <= a < b < idx@.len() ==> idx@[a] != idx@[b],
            forall|a: int, b: int| 0 <= a < b < idx@.len() ==> lex_le(nv[idx@[a] as int], nv[idx@[b] as int]),
            forall|a: int, b: int|
                0 <= a < b < idx@.len() && nv[idx@[a] as int] == nv[idx@[b] as int] ==> idx@[a] < idx@[b],
        decreases nv.len() - i,
    {
        assert(nv[i as int] == names@[i as int]@);
        let mut k: usize = 0;
        while k < idx.len() && !str_lt(names[i].as_str(), names[idx[k]].as_str())
            invariant
                nv == names.deep_view(),
                i < nv.len(),
                idx@.len() == i,
                forall|a: int| 0 <= a < idx@.len() ==> #[trigger] idx@[a] < i,
                k <= idx@.len(),
                forall|a: int| 0 <= a < k ==> !lex_lt(nv[i as int], #[trigger] nv[idx@[a] as int]),
            decreases idx@.len() - k,
        {
            assert(nv[idx@[k as int] as int] == names@[idx@[k as int] as int]@);
            k += 1;
        }
        proof {
            if k < idx@.len() {
                assert(nv[idx@[k as int] as int] == names@[idx@[k as int] as int]@);
            }
        }
        let ghost before = idx@;
        idx.insert(k, i);
        proof {
            assert(idx@ =~= before.subrange(0, k as int).push(i) + before.subrange(k as int, before.len() as int));
            assert forall|a: int| 0 <= a < idx@.len() implies #[trigger] idx@[a] < i + 1 by {
                if a < k {
                    assert(idx@[a] == before[a]);
                } else if a > k {
                    assert(idx@[a] == before[a - 1]);
                }
            }
            assert forall|a: int, b: int| 0 <= a < b < idx@.len() implies idx@[a] != idx@[b] by {
                if a < k && b < k {
                    assert(idx@[a] == before[a] && idx@[b] == before[b]);
                } else if a < k && b == k {
                    assert(idx@[a] == before[a]);
                } else if a < k {
                    assert(idx@[a] == before[a] && idx@[b] == before[b - 1]);
                } else if a == k {
                    assert(idx@[b] == before[b - 1]);
                } else {
                    assert(idx@[a] == before[a - 1] && idx@[b] == before[b - 1]);
                }
            }
            let x = nv[i as int];
            assert forall|a: int, b: int| 0 <= a < b < idx@.len() implies lex_le(
                nv[idx@[a] as int],
                nv[idx@[b] as int],
            ) by {
                if a < k && b < k {
                    assert(idx@[a] == before[a] && idx@[b] == before[b]);
                } else if a < k && b == k {
                    assert(idx@[a] == before[a]);
                    lemma_lex_total(x, nv[before[a] as int]);
                } else if a < k {
                    assert(idx@[a] == before[a] && idx@[b] == before[b - 1]);
                } else if a == k {
                    assert(idx@[b] == before[b - 1]);
                    let y = nv[before[k as int] as int];
                    let z = nv[before[b - 1] as int];
                    lemma_lex_total(x, y);
                    if b - 1 > k {
                        assert(lex_le(y, z));
                        if y != z {
                            lemma_lex_trans(x, y, z);
                        }
                    }
                    lemma_lex_total(x, z);
                } else {
                    assert(idx@[a] == before[a - 1] && idx@[b] == before[b - 1]);
                }
            }
            assert forall|a: int, b: int|
                0 <= a < b < idx@.len() && nv[idx@[a] as int] == nv[idx@[b] as int] implies idx@[a] < idx@[b] by {
                if a < k && b < k {
                    assert(idx@[a] == before[a] && idx@[b] == before[b]);
                } else if a < k && b == k {
                    assert(idx@[a] == before[a]);
                } else if a < k {
                    assert(idx@[a] == before[a] && idx@[b] == before[b - 1]);
                } else if a == k {
                    assert(idx@[b] == before[b - 1]);
                    let y = nv[before[k as int] as int];
                    let z = nv[before[b - 1] as int];
                    lemma_lex_total(x, y);
                    if b - 1 > k {
                        assert(lex_le(y, z));
                        if y != z {
                            lemma_lex_trans(x, y, z);
                        }
                    }
                    lemma_lex_total(x, z);
                    assert(false);
                } else {
                    assert(idx@[a] == before[a - 1] && idx@[b] == before[b - 1]);
                }
            }
        }
        i += 1;
    }
    proof {
        let m = idx@.map_values(|k: usize| k as int);
        assert forall|a: int| 0 <= a < m.len() implies #[trigger] m[a] == idx@[a] as int by {}
    }
    idx
}

} // verus!

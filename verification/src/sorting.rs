//! Deterministic ordering of records by their stable id.
use vstd::prelude::*;
use crate::text::{lex_le, lex_lt, str_lt, lemma_lex_irreflexive, lemma_lex_trichotomy, lemma_lex_transitive};

verus! {

/// A record with a stable text key.
pub trait Keyed: View + Sized {
    spec fn key_of(v: Self::V) -> Seq<char>;

    fn key(&self) -> (r: &str)
        ensures
            r@ == Self::key_of(self@);
}

pub open spec fn key_views<T: Keyed>(s: Seq<T>) -> Seq<T::V> {
    s.map_values(|x: T| x@)
}

/// Keys never decrease along `s`.
pub open spec fn sorted_by_key<T: Keyed>(s: Seq<T::V>) -> bool {
    forall|i: int, j: int| 0 <= i < j < s.len() ==> lex_le(T::key_of(#[trigger] s[i]), T::key_of(#[trigger] s[j]))
}

/// `s` with `x` inserted before the first element whose key is greater than its own:
/// after every element with an equal or smaller key.
pub open spec fn insert_by_key<T: Keyed>(s: Seq<T::V>, x: T::V) -> Seq<T::V>
    decreases s.len(),
{
    if s.len() == 0 {
        seq![x]
    } else if lex_lt(T::key_of(x), T::key_of(s[0])) {
        seq![x] + s
    } else {
        seq![s[0]] + insert_by_key::<T>(s.drop_first(), x)
    }
}

/// The stable sort of `s` by key: records ordered by key, records with equal keys in
/// their order in `s`.
pub open spec fn stable_sort_by_key<T: Keyed>(s: Seq<T::V>) -> Seq<T::V>
    decreases s.len(),
{
    if s.len() == 0 {
        Seq::empty()
    } else {
        insert_by_key::<T>(stable_sort_by_key::<T>(s.drop_last()), s.last())
    }
}

proof fn lemma_insert_at_first_greater<T: Keyed>(s: Seq<T::V>, x: T::V, j: int)
    requires
        0 <= j <= s.len(),
        forall|k: int| 0 <= k < j ==> !lex_lt(T::key_of(x), T::key_of(#[trigger] s[k])),
        j < s.len() ==> lex_lt(T::key_of(x), T::key_of(s[j])),
    ensures
        s.insert(j, x) == insert_by_key::<T>(s, x),
    decreases s.len(),
{
    if s.len() == 0 {
        assert(s.insert(j, x) =~= seq![x]);
    } else if j == 0 {
        assert(s.insert(0, x) =~= seq![x] + s);
    } else {
        assert(!lex_lt(T::key_of(x), T::key_of(s[0])));
        let rest = s.drop_first();
        assert forall|k: int| 0 <= k < j - 1 implies !lex_lt(T::key_of(x), T::key_of(#[trigger] rest[k])) by {
            assert(rest[k] == s[k + 1]);
        }
        lemma_insert_at_first_greater::<T>(rest, x, j - 1);
        assert(s.insert(j, x) =~= seq![s[0]] + rest.insert(j - 1, x));
    }
}

proof fn lemma_le_trans(a: Seq<char>, b: Seq<char>, c: Seq<char>)
    requires
        lex_le(a, b),
        lex_le(b, c),
    ensures
        lex_le(a, c),
{
    if a != b && b != c {
        lemma_lex_transitive(a, b, c);
    }
}

/// The records of `v` ordered by key; records with equal keys keep their order.
pub fn sort_by_key<T: Keyed>(v: Vec<T>) -> (r: Vec<T>)
    ensures
        sorted_by_key::<T>(key_views(r@)),
        key_views(r@).to_multiset() == key_views(v@).to_multiset(),
        key_views(r@) == stable_sort_by_key::<T>(key_views(v@)),
{
    broadcast use vstd::seq_lib::group_to_multiset_ensures;
    let ghost orig = v@;
    let mut input = v;
    let mut out: Vec<T> = Vec::new();
    let mut taken: usize = 0;
    let n = input.len();
    while input.len() > 0
        invariant
            taken + input.len() == n,
            n == orig.len(),
            input@ == orig.skip(taken as int),
            sorted_by_key::<T>(key_views(out@)),
            key_views(out@).to_multiset() == key_views(orig.take(taken as int)).to_multiset(),
            key_views(out@) == stable_sort_by_key::<T>(key_views(orig.take(taken as int))),
        decreases input.len(),
    {
        let x = input.remove(0);
        let mut j: usize = 0;
        while j < out.len() && !str_lt(x.key(), out[j].key())
            invariant
                j <= out.len(),
                forall|k: int| 0 <= k < j ==> lex_le(T::key_of(out@[k]@), T::key_of(x@)),
            decreases out.len() - j,
        {
            proof {
                lemma_lex_trichotomy(T::key_of(x@), T::key_of(out@[j as int]@));
            }
            j = j + 1;
        }
        let ghost old_out = out@;
        let ghost xv = x@;
        let ghost xe = x;
        proof {
            if j < out.len() {
                assert(lex_lt(T::key_of(xv), T::key_of(old_out[j as int]@)));
            }
        }
        proof {
            let ov = key_views(old_out);
            assert forall|k: int| 0 <= k < j implies !lex_lt(T::key_of(xv), T::key_of(#[trigger] ov[k])) by {
                assert(ov[k] == old_out[k]@);
                lemma_lex_trichotomy(T::key_of(ov[k]), T::key_of(xv));
                lemma_lex_irreflexive(T::key_of(xv));
            }
            lemma_insert_at_first_greater::<T>(ov, xv, j as int);
        }
        out.insert(j, x);
        proof {
            let ov = key_views(old_out);
            let nv = key_views(out@);
            assert(nv =~= ov.insert(j as int, xv));
            let pre = key_views(orig.take(taken as int));
            let post = key_views(orig.take(taken + 1));
            assert(post.drop_last() =~= pre) by {
                assert(orig.take(taken + 1).drop_last() =~= orig.take(taken as int));
            }
            assert(post.last() == xv);
            assert forall|a: int, b: int| 0 <= a < b < nv.len() implies lex_le(
                T::key_of(#[trigger] nv[a]),
                T::key_of(#[trigger] nv[b]),
            ) by {
                if b == j {
                } else if a == j {
                    assert(nv[b] == ov[b - 1]);
                    if b - 1 > j {
                        lemma_le_trans(T::key_of(ov[j as int]), T::key_of(ov[j as int]), T::key_of(ov[b - 1]));
                        lemma_le_trans(T::key_of(xv), T::key_of(ov[j as int]), T::key_of(ov[b - 1]));
                    }
                } else if b < j {
                } else if a < j {
                    assert(nv[b] == ov[b - 1]);
                    if a < b - 1 {
                    }
                } else {
                    assert(nv[a] == ov[a - 1] && nv[b] == ov[b - 1]);
                }
            }
            assert(nv.remove(j as int) =~= ov);
            assert(nv[j as int] == xv);
            nv.to_multiset_ensures();
            assert(nv.remove(j as int).to_multiset() =~= nv.to_multiset().remove(nv[j as int]));
            assert(nv.to_multiset().remove(xv) =~= ov.to_multiset());
            assert(nv.contains(xv));
            assert(orig.take(taken + 1) =~= orig.take(taken as int).push(xe));
            assert(key_views(orig.take(taken + 1)) =~= key_views(orig.take(taken as int)).push(xv));
            assert(nv.to_multiset().count(xv) > 0);
            assert(nv.to_multiset() =~= ov.to_multiset().insert(xv));
            key_views(orig.take(taken as int)).to_multiset_ensures();
            assert(key_views(orig.take(taken as int)).push(xv).to_multiset() =~= key_views(orig.take(taken as int)).to_multiset().insert(xv));
            assert(input@ =~= orig.skip(taken + 1));
        }
        taken = taken + 1;
    }
    assert(orig.take(n as int) =~= orig);
    out
}

} // verus!

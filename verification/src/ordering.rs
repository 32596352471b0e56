//! A total preorder on the crate's entities and a verified insertion sort,
//! used to give task and pipeline listings and log-file selections their
//! deterministic order.

use vstd::prelude::*;
use vstd::multiset::Multiset;
use vstd::seq_lib::group_to_multiset_ensures;

verus! {

/// Lexicographic "less than or equal" on character sequences, by code point.
pub open spec fn lex_le(a: Seq<char>, b: Seq<char>) -> bool
    decreases a.len(),
{
    if a.len() == 0 {
        true
    } else if b.len() == 0 {
        false
    } else if a[0] as u32 != b[0] as u32 {
        (a[0] as u32) < (b[0] as u32)
    } else {
        lex_le(a.skip(1), b.skip(1))
    }
}

pub proof fn lemma_lex_le_total(a: Seq<char>, b: Seq<char>)
    ensures
        lex_le(a, b) || lex_le(b, a),
    decreases a.len(),
{
    if a.len() > 0 && b.len() > 0 && a[0] as u32 == b[0] as u32 {
        lemma_lex_le_total(a.skip(1), b.skip(1));
    }
}

pub proof fn lemma_lex_le_trans(a: Seq<char>, b: Seq<char>, c: Seq<char>)
    requires
        lex_le(a, b),
        lex_le(b, c),
    ensures
        lex_le(a, c),
    decreases a.len(),
{
    if a.len() > 0 && b.len() > 0 && c.len() > 0 && a[0] as u32 == b[0] as u32 && b[0] as u32
        == c[0] as u32 {
        lemma_lex_le_trans(a.skip(1), b.skip(1), c.skip(1));
    }
}

/// Executable counterpart of [`lex_le`].
pub fn lex_le_chars(a: &Vec<char>, b: &Vec<char>) -> (r: bool)
    ensures
        r == lex_le(a@, b@),
{
    let mut i: usize = 0;
    proof {
        assert(a@.skip(0) =~= a@);
        assert(b@.skip(0) =~= b@);
    }
    while i < a.len() && i < b.len()
        invariant
            i <= a@.len(),
            i <= b@.len(),
            lex_le(a@, b@) == lex_le(a@.skip(i as int), b@.skip(i as int)),
            lex_le(b@, a@) == lex_le(b@.skip(i as int), a@.skip(i as int)),
        decreases a@.len() - i,
    {
        let ca = a[i];
        let cb = b[i];
        proof {
            assert(a@.skip(i as int)[0] == a@[i as int]);
            assert(b@.skip(i as int)[0] == b@[i as int]);
            assert(a@.skip(i as int).skip(1) =~= a@.skip(i + 1));
            assert(b@.skip(i as int).skip(1) =~= b@.skip(i + 1));
        }
        if ca as u32 != cb as u32 {
            return (ca as u32) < (cb as u32);
        }
        i += 1;
    }
    a.len() <= b.len()
}

/// A type with a total preorder, sortable by [`sort_by_key`].
pub trait SortKey: Sized {
    /// The order itself.
    spec fn le(a: &Self, b: &Self) -> bool;

    /// Any two values are comparable.
    proof fn le_total(a: &Self, b: &Self)
        ensures
            Self::le(a, b) || Self::le(b, a),
    ;

    /// The order is transitive.
    proof fn le_trans(a: &Self, b: &Self, c: &Self)
        requires
            Self::le(a, b),
            Self::le(b, c),
        ensures
            Self::le(a, c),
    ;

    /// Executable comparison agreeing with the order.
    fn le_exec(a: &Self, b: &Self) -> (r: bool)
        ensures
            r == Self::le(a, b),
    ;
}

impl SortKey for String {
    /// Plain lexicographic order on the characters.
    open spec fn le(a: &Self, b: &Self) -> bool {
        lex_le(a@, b@)
    }

    proof fn le_total(a: &Self, b: &Self) {
        lemma_lex_le_total(a@, b@);
    }

    proof fn le_trans(a: &Self, b: &Self, c: &Self) {
        lemma_lex_le_trans(a@, b@, c@);
    }

    fn le_exec(a: &Self, b: &Self) -> (r: bool) {
        lex_le_chars(&crate::strutil::chars_of(a.as_str()), &crate::strutil::chars_of(b.as_str()))
    }
}

/// Every pair of positions in the sequence respects the order.
pub open spec fn sorted_le<T: SortKey>(s: Seq<T>) -> bool {
    forall|i: int, j: int| 0 <= i < j < s.len() ==> #[trigger] T::le(&s[i], &s[j])
}

/// Inserting an element anywhere adds exactly it to the multiset.
proof fn lemma_insert_multiset<A>(s: Seq<A>, j: int, t: A)
    requires
        0 <= j <= s.len(),
    ensures
        s.insert(j, t).to_multiset() == s.to_multiset().insert(t),
{
    broadcast use group_to_multiset_ensures;

    assert(s.insert(j, t) =~= s.take(j) + seq![t] + s.skip(j));
    assert(s =~= s.take(j) + s.skip(j));
    vstd::seq_lib::lemma_multiset_commutative(s.take(j) + seq![t], s.skip(j));
    vstd::seq_lib::lemma_multiset_commutative(s.take(j), seq![t]);
    vstd::seq_lib::lemma_multiset_commutative(s.take(j), s.skip(j));
    assert(seq![t] =~= Seq::<A>::empty().push(t));
    assert(seq![t].to_multiset() =~= Multiset::<A>::empty().insert(t));
    assert(s.insert(j, t).to_multiset() =~= s.to_multiset().insert(t));
}

/// Stable insertion sort: afterwards the vector is ordered by `T::le` and
/// holds exactly the elements it held before.
pub fn sort_by_key<T: SortKey>(v: &mut Vec<T>)
    ensures
        sorted_le(final(v)@),
        final(v)@.to_multiset() == old(v)@.to_multiset(),
{
    if v.len() <= 1 {
        return ;
    }
    let mut i: usize = 1;
    while i < v.len()
        invariant
            1 <= i <= v@.len(),
            v@.len() == old(v)@.len(),
            sorted_le(v@.subrange(0, i as int)),
            v@.to_multiset() == old(v)@.to_multiset(),
        decreases v@.len() - i,
    {
        let mut j: usize = 0;
        while j < i && T::le_exec(&v[j], &v[i])
            invariant
                j <= i < v@.len(),
                forall|k: int| 0 <= k < j ==> #[trigger] T::le(&v@[k], &v@[i as int]),
            decreases i - j,
        {
            j += 1;
        }
        let ghost old_v = v@;
        let ghost prefix_sorted = sorted_le(v@.subrange(0, i as int));
        if j < i {
            let t = v.remove(i);
            let ghost mid = v@;
            v.insert(j, t);
            proof {
                broadcast use group_to_multiset_ensures;

                // the element count is unchanged by moving one element
                assert(mid.to_multiset() == old_v.to_multiset().remove(t));
                lemma_insert_multiset(mid, j as int, t);
                assert(old_v.to_multiset().contains(t));
                assert(v@.to_multiset() =~= old_v.to_multiset());
                // the order around the insertion point
                assert(!T::le(&old_v[j as int], &t));
                T::le_total(&old_v[j as int], &t);
                assert forall|k: int| j <= k < i implies T::le(&t, &old_v[k]) by {
                    if k > j {
                        assert(T::le(
                            &old_v.subrange(0, i as int)[j as int],
                            &old_v.subrange(0, i as int)[k],
                        ));
                        T::le_trans(&t, &old_v[j as int], &old_v[k]);
                    }
                }
                assert forall|k1: int, k2: int| 0 <= k1 < k2 <= i implies #[trigger] T::le(
                    &v@.subrange(0, i + 1)[k1],
                    &v@.subrange(0, i + 1)[k2],
                ) by {
                    assert(forall|k: int|
                        0 <= k < j ==> v@[k] == old_v.subrange(0, i as int)[k]);
                    assert(v@[j as int] == t);
                    assert(forall|k: int|
                        j < k <= i ==> v@[k] == mid.insert(j as int, t)[k] && v@[k] == mid[k
                            - 1] && v@[k] == old_v.subrange(0, i as int)[k - 1]);
                    if k2 < j {
                        assert(T::le(
                            &old_v.subrange(0, i as int)[k1],
                            &old_v.subrange(0, i as int)[k2],
                        ));
                    } else if k2 == j {
                        assert(T::le(&old_v[k1], &t));
                    } else if k1 < j {
                        if k1 < k2 - 1 {
                            assert(T::le(
                                &old_v.subrange(0, i as int)[k1],
                                &old_v.subrange(0, i as int)[k2 - 1],
                            ));
                        }
                    } else if k1 == j {
                        assert(T::le(&t, &old_v[k2 - 1]));
                    } else {
                        if k1 - 1 < k2 - 1 {
                            assert(T::le(
                                &old_v.subrange(0, i as int)[k1 - 1],
                                &old_v.subrange(0, i as int)[k2 - 1],
                            ));
                        }
                    }
                }
                assert(sorted_le(v@.subrange(0, i + 1)));
            }
        } else {
            proof {
                assert forall|k1: int, k2: int| 0 <= k1 < k2 <= i implies #[trigger] T::le(
                    &v@.subrange(0, i + 1)[k1],
                    &v@.subrange(0, i + 1)[k2],
                ) by {
                    if k2 < i {
                        assert(T::le(
                            &old_v.subrange(0, i as int)[k1],
                            &old_v.subrange(0, i as int)[k2],
                        ));
                    } else {
                        assert(T::le(&v@[k1], &v@[i as int]));
                    }
                }
                assert(sorted_le(v@.subrange(0, i + 1)));
            }
        }
        i += 1;
    }
    proof {
        assert(v@.subrange(0, v@.len() as int) =~= v@);
    }
}

} // verus!

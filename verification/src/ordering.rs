//! Stable sorting by a strict order, and keeping only the first few of a sorted list.

use vstd::prelude::*;

verus! {

/// `sorted` with `x` put behind every element that `x` does not come before.
pub open spec fn insert_stable<A>(sorted: Seq<A>, x: A, before: spec_fn(A, A) -> bool) -> Seq<A>
    decreases sorted.len(),
{
    if sorted.len() == 0 || !before(x, sorted.last()) {
        sorted.push(x)
    } else {
        insert_stable(sorted.drop_last(), x, before).push(sorted.last())
    }
}

/// The elements of `s` in the order `before`, equal ones in the order in which they stand in `s`.
pub open spec fn stable_sort<A>(s: Seq<A>, before: spec_fn(A, A) -> bool) -> Seq<A>
    decreases s.len(),
{
    if s.len() == 0 {
        s
    } else {
        insert_stable(stable_sort(s.drop_last(), before), s.last(), before)
    }
}

/// Whether `before` is a strict order in which "neither comes before the other" is transitive.
pub open spec fn is_order<A>(before: spec_fn(A, A) -> bool) -> bool {
    &&& forall|x: A, y: A| #[trigger] before(x, y) ==> !before(y, x)
    &&& forall|x: A, y: A, z: A|
        #[trigger] before(x, y) ==> before(x, z) || #[trigger] before(z, y)
}

/// Whether no element of `s` comes before an earlier one.
pub open spec fn is_sorted<A>(s: Seq<A>, before: spec_fn(A, A) -> bool) -> bool {
    forall|i: int, j: int| 0 <= i < j < s.len() ==> !before(#[trigger] s[j], #[trigger] s[i])
}

/// `s` up to its first `n` elements.
pub open spec fn first_of<A>(s: Seq<A>, n: nat) -> Seq<A> {
    if s.len() <= n {
        s
    } else {
        s.take(n as int)
    }
}

/// Where `x` goes in `sorted`.
pub open spec fn insert_position<A>(sorted: Seq<A>, x: A, before: spec_fn(A, A) -> bool) -> nat
    decreases sorted.len(),
{
    if sorted.len() == 0 || !before(x, sorted.last()) {
        sorted.len()
    } else {
        insert_position(sorted.drop_last(), x, before)
    }
}

/// Insertion puts `x` at its position and keeps everything else in its order; `x` comes before
/// everything behind that position and not before its neighbour in front.
pub proof fn lemma_insert_position<A>(sorted: Seq<A>, x: A, before: spec_fn(A, A) -> bool)
    ensures
        insert_position(sorted, x, before) <= sorted.len(),
        insert_stable(sorted, x, before) == sorted.insert(
            insert_position(sorted, x, before) as int,
            x,
        ),
        forall|i: int|
            insert_position(sorted, x, before) <= i < sorted.len() ==> before(
                x,
                #[trigger] sorted[i],
            ),
        insert_position(sorted, x, before) > 0 ==> !before(
            x,
            sorted[insert_position(sorted, x, before) - 1],
        ),
    decreases sorted.len(),
{
    let p = insert_position(sorted, x, before);
    if sorted.len() == 0 || !before(x, sorted.last()) {
        assert(sorted.insert(p as int, x) =~= sorted.push(x));
    } else {
        let front = sorted.drop_last();
        lemma_insert_position(front, x, before);
        assert(front.insert(p as int, x).push(sorted.last()) =~= sorted.insert(p as int, x));
        assert forall|i: int| p <= i < sorted.len() implies before(x, #[trigger] sorted[i]) by {
            if i < front.len() {
                assert(front[i] == sorted[i]);
            }
        }
    }
}

/// Insertion keeps a sorted list sorted.
proof fn lemma_insert_sorted<A>(sorted: Seq<A>, x: A, before: spec_fn(A, A) -> bool)
    requires
        is_order(before),
        is_sorted(sorted, before),
    ensures
        is_sorted(insert_stable(sorted, x, before), before),
{
    lemma_insert_position(sorted, x, before);
    let p = insert_position(sorted, x, before) as int;
    let all = sorted.insert(p, x);
    assert forall|i: int, j: int| 0 <= i < j < all.len() implies !before(
        #[trigger] all[j],
        #[trigger] all[i],
    ) by {
        if j < p {
            assert(all[i] == sorted[i] && all[j] == sorted[j]);
        } else if j == p {
            assert(all[i] == sorted[i]);
            if i < p - 1 {
                assert(!before(sorted[p - 1], sorted[i]));
                assert(!before(x, sorted[p - 1]));
                if before(x, sorted[i]) {
                    assert(before(x, sorted[p - 1]) || before(sorted[p - 1], sorted[i]));
                }
            }
        } else {
            assert(all[j] == sorted[j - 1]);
            if i == p {
                assert(before(x, sorted[j - 1]));
            } else if i < p {
                assert(all[i] == sorted[i]);
            } else {
                assert(all[i] == sorted[i - 1]);
            }
        }
    }
}

/// Sorting yields a sorted list of the same elements.
pub proof fn lemma_stable_sort_sorts<A>(s: Seq<A>, before: spec_fn(A, A) -> bool)
    requires
        is_order(before),
    ensures
        is_sorted(stable_sort(s, before), before),
        stable_sort(s, before).len() == s.len(),
        stable_sort(s, before).to_multiset() == s.to_multiset(),
    decreases s.len(),
{
    broadcast use vstd::seq_lib::group_to_multiset_ensures;

    if s.len() > 0 {
        let front = stable_sort(s.drop_last(), before);
        lemma_stable_sort_sorts(s.drop_last(), before);
        lemma_insert_sorted(front, s.last(), before);
        lemma_insert_position(front, s.last(), before);
        let p = insert_position(front, s.last(), before) as int;
        assert(s.drop_last().push(s.last()) =~= s);
        vstd::seq_lib::to_multiset_build(s.drop_last(), s.last());
        vstd::seq_lib::to_multiset_insert(front, p, s.last());
    }
}

/// Two lists with the same multiset of elements contain the same elements.
pub proof fn lemma_same_elements<A>(a: Seq<A>, b: Seq<A>, x: A)
    requires
        a.to_multiset() == b.to_multiset(),
    ensures
        a.contains(x) == b.contains(x),
{
    broadcast use vstd::seq_lib::group_to_multiset_ensures;

    vstd::seq_lib::to_multiset_contains(a, x);
    vstd::seq_lib::to_multiset_contains(b, x);
}

/// Whether `x` comes before `y`, or neither comes before the other and `x` is the smaller
/// position.
pub open spec fn strictly_first(x: int, y: int, before: spec_fn(int, int) -> bool) -> bool {
    before(x, y) || (!before(y, x) && x < y)
}

/// Sorting positions that stand in increasing order keeps equal ones in that order.
pub proof fn lemma_stable_sort_is_stable(s: Seq<int>, before: spec_fn(int, int) -> bool)
    requires
        is_order(before),
        forall|i: int, j: int| 0 <= i < j < s.len() ==> #[trigger] s[i] < #[trigger] s[j],
    ensures
        forall|i: int, j: int|
            0 <= i < j < stable_sort(s, before).len() ==> strictly_first(
                #[trigger] stable_sort(s, before)[i],
                #[trigger] stable_sort(s, before)[j],
                before,
            ),
    decreases s.len(),
{
    if s.len() > 0 {
        let rest = s.drop_last();
        let x = s.last();
        let front = stable_sort(rest, before);
        assert forall|i: int, j: int| 0 <= i < j < rest.len() implies #[trigger] rest[i]
            < #[trigger] rest[j] by {
            assert(rest[i] == s[i] && rest[j] == s[j]);
        }
        lemma_stable_sort_is_stable(rest, before);
        lemma_stable_sort_sorts(rest, before);
        lemma_insert_position(front, x, before);
        let p = insert_position(front, x, before) as int;
        let all = stable_sort(s, before);
        assert forall|i: int| 0 <= i < front.len() implies #[trigger] front[i] < x by {
            lemma_same_elements(front, rest, front[i]);
            let k = choose|k: int| 0 <= k < rest.len() && rest[k] == front[i];
            assert(s[k] < s[s.len() - 1]);
        }
        assert forall|i: int, j: int| 0 <= i < j < all.len() implies strictly_first(
            #[trigger] all[i],
            #[trigger] all[j],
            before,
        ) by {
            if j < p {
                assert(all[i] == front[i] && all[j] == front[j]);
            } else if j == p {
                assert(all[i] == front[i]);
                if before(x, front[i]) {
                    assert(i < p - 1);
                    assert(strictly_first(front[i], front[p - 1], before));
                    assert(before(x, front[p - 1]) || before(front[p - 1], front[i]));
                }
            } else {
                assert(all[j] == front[j - 1]);
                if i < p {
                    assert(all[i] == front[i]);
                } else if i > p {
                    assert(all[i] == front[i - 1]);
                }
            }
        }
    }
}

/// To keep the first `n` of a growing sorted list it is enough to insert into those kept so far.
pub proof fn lemma_insert_first<A>(sorted: Seq<A>, x: A, before: spec_fn(A, A) -> bool, n: nat)
    requires
        is_order(before),
        is_sorted(sorted, before),
    ensures
        first_of(insert_stable(sorted, x, before), n) == first_of(
            insert_stable(first_of(sorted, n), x, before),
            n,
        ),
{
    lemma_insert_position(sorted, x, before);
    let kept = first_of(sorted, n);
    lemma_insert_position(kept, x, before);
    let p = insert_position(sorted, x, before) as int;
    let q = insert_position(kept, x, before) as int;
    if sorted.len() > n {
        if p < n {
            if q > p {
                assert(kept[q - 1] == sorted[q - 1]);
            } else if q < p {
                assert(kept[p - 1] == sorted[p - 1]);
            }
        } else if q < n {
            assert(before(x, kept[n - 1]));
            assert(kept[n - 1] == sorted[n - 1]);
            if p > n {
                assert(!before(sorted[p - 1], sorted[n - 1]));
                assert(before(x, sorted[p - 1]) || before(sorted[p - 1], sorted[n - 1]));
            }
        }
        assert(first_of(sorted.insert(p, x), n) =~= first_of(kept.insert(q, x), n));
    }
}

} // verus!

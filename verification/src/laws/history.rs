//! What the solve history tells: the tags that were solved least often.

use vstd::prelude::*;

use crate::analytics;
use crate::laws::numbers;
use crate::laws::texts;
use crate::number;
use crate::problem::ProblemView;
use crate::text;

verus! {

/// How often a tag is counted is at how many places it stands.
pub proof fn law_tag_count(tags: Seq<Seq<char>>, tag: Seq<char>)
    ensures
        analytics::tag_count(tags, tag) == tags.to_multiset().count(tag),
    decreases tags.len(),
{
    broadcast use vstd::seq_lib::group_to_multiset_ensures;

    if tags.len() > 0 {
        let front = tags.drop_last();
        law_tag_count(front, tag);
        assert(front.push(tags.last()) =~= tags);
        assert(tags.to_multiset() =~= front.to_multiset().insert(tags.last()));
    } else {
        assert(tags.to_multiset().count(tag) == 0) by {
            assert(tags =~= Seq::empty());
        }
    }
}

/// Counting two rows of tags counts each; a single tag counts once, and any other not at all.
pub proof fn law_counts_add_up(a: Seq<Seq<char>>, b: Seq<Seq<char>>, t: Seq<char>, u: Seq<char>)
    ensures
        analytics::tag_count(a + b, t) == analytics::tag_count(a, t) + analytics::tag_count(b, t),
        analytics::tag_count(seq![t], t) == 1,
        u != t ==> analytics::tag_count(seq![u], t) == 0,
    decreases b.len(),
{
    assert(seq![t].drop_last() =~= Seq::<Seq<char>>::empty());
    assert(seq![u].drop_last() =~= Seq::<Seq<char>>::empty());
    assert(analytics::tag_count(Seq::<Seq<char>>::empty(), t) == 0);
    assert(seq![t].last() == t && seq![u].last() == u);
    if b.len() == 0 {
        assert(a + b =~= a);
    } else {
        law_counts_add_up(a, b.drop_last(), t, u);
        assert((a + b).drop_last() =~= a + b.drop_last());
        assert((a + b).last() == b.last());
    }
}

proof fn lemma_cleaned(a: Seq<Seq<char>>, b: Seq<Seq<char>>)
    ensures
        analytics::cleaned(a + b) == analytics::cleaned(a) + analytics::cleaned(b),
    decreases b.len(),
{
    if b.len() == 0 {
        assert(a + b =~= a);
        assert(analytics::cleaned(a) + analytics::cleaned(b) =~= analytics::cleaned(a));
    } else {
        lemma_cleaned(a, b.drop_last());
        assert((a + b).drop_last() =~= a + b.drop_last());
        assert((a + b).last() == b.last());
        assert(analytics::cleaned(a + b) =~= analytics::cleaned(a) + analytics::cleaned(b));
    }
}

/// A row tells the tags between its commas: one without a comma tells itself without the white
/// space around, or nothing where it is empty; and one with a comma tells what stands in front of
/// it and what stands behind.
pub proof fn law_row_tags(a: Seq<char>, b: Seq<char>, one: Seq<char>)
    requires
        !one.contains(','),
    ensures
        analytics::row_tags(a + seq![','] + b) == analytics::row_tags(a) + analytics::row_tags(b),
        one.len() == 0 ==> analytics::row_tags(one) == Seq::<Seq<char>>::empty(),
        one.len() > 0 ==> analytics::row_tags(one).len() == 1 && exists|i: int, j: int|
            #[trigger] texts::is_core(one, i, j) && analytics::row_tags(one)[0] == one.subrange(
                i,
                j,
            ),
{
    texts::law_pieces_of_both(a, b, ',');
    lemma_cleaned(text::pieces(a, ','), text::pieces(b, ','));
    texts::law_one_piece(one, ',');
    let p = text::pieces(one, ',');
    assert(p.drop_last() =~= Seq::<Seq<char>>::empty());
    assert(p.last() == one);
    assert(analytics::cleaned(p.drop_last()) == Seq::<Seq<char>>::empty());
    if one.len() > 0 {
        assert(analytics::row_tags(one) =~= seq![text::trim(one)]);
        texts::law_trim(one);
    }
}

/// The tags of a history are those of its rows, one row after the other.
pub proof fn law_all_tags(a: Seq<Seq<char>>, b: Seq<Seq<char>>, row: Seq<char>)
    ensures
        analytics::all_tags(Seq::empty()) == Seq::<Seq<char>>::empty(),
        analytics::all_tags(seq![row]) == analytics::row_tags(row),
        analytics::all_tags(a + b) == analytics::all_tags(a) + analytics::all_tags(b),
    decreases b.len(),
{
    let one = seq![row];
    assert(one.drop_last() =~= Seq::<Seq<char>>::empty());
    assert(analytics::all_tags(one.drop_last()) == Seq::<Seq<char>>::empty());
    assert(analytics::all_tags(one) =~= analytics::row_tags(row));
    if b.len() == 0 {
        assert(a + b =~= a);
        assert(analytics::all_tags(a) + analytics::all_tags(b) =~= analytics::all_tags(a));
    } else {
        law_all_tags(a, b.drop_last(), row);
        assert((a + b).drop_last() =~= a + b.drop_last());
        assert((a + b).last() == b.last());
        assert(analytics::all_tags(a + b) =~= analytics::all_tags(a) + analytics::all_tags(b));
    }
}

/// Whether `a` stands at fewer places than `b`, or at as many and comes first in the order of
/// texts.
pub open spec fn is_rarer(tags: Seq<Seq<char>>, a: Seq<char>, b: Seq<char>) -> bool {
    ||| tags.to_multiset().count(a) < tags.to_multiset().count(b)
    ||| {
        &&& tags.to_multiset().count(a) == tags.to_multiset().count(b)
        &&& exists|k: int| #[trigger] texts::differs_at(a, b, k)
    }
}

/// The weak tags are at most five tags of the history, the rarest first; and any other tag is left
/// out only because there are five rarer ones.
pub proof fn law_weak_tags(tags: Seq<Seq<char>>)
    ensures
        ({
            let weak = analytics::weakest(tags);
            &&& weak.len() <= 5
            &&& forall|k: int| 0 <= k < weak.len() ==> tags.contains(#[trigger] weak[k])
            &&& forall|j: int, k: int|
                0 <= j < k < weak.len() ==> is_rarer(tags, #[trigger] weak[j], #[trigger] weak[k])
            &&& forall|i: int|
                0 <= i < tags.len() && !weak.contains(#[trigger] tags[i]) ==> {
                    &&& weak.len() == 5
                    &&& forall|k: int| 0 <= k < 5 ==> is_rarer(tags, #[trigger] weak[k], tags[i])
                }
        }),
{
    let weak = analytics::weakest(tags);
    analytics::lemma_weakest_are_weakest(tags);
    assert forall|j: int, k: int| 0 <= j < k < weak.len() implies is_rarer(
        tags,
        #[trigger] weak[j],
        #[trigger] weak[k],
    ) by {
        law_tag_count(tags, weak[j]);
        law_tag_count(tags, weak[k]);
        texts::law_text_before(weak[j], weak[k]);
    }
    assert forall|i: int| 0 <= i < tags.len() && !weak.contains(#[trigger] tags[i]) implies {
        &&& weak.len() == 5
        &&& forall|k: int| 0 <= k < 5 ==> is_rarer(tags, #[trigger] weak[k], tags[i])
    } by {
        assert(tags.contains(tags[i]));
        assert forall|k: int| 0 <= k < 5 implies is_rarer(tags, #[trigger] weak[k], tags[i]) by {
            assert(analytics::is_weaker(tags, weak[k], tags[i]));
            law_tag_count(tags, weak[k]);
            law_tag_count(tags, tags[i]);
            texts::law_text_before(weak[k], tags[i]);
        }
    }
}

/// A solve is recorded under the number of its contest, or 0 where it has none, with the problem's
/// index, name and rating, its tags between commas, and the time.
pub proof fn law_recorded_solve(p: ProblemView, n: int, now: u64)
    ensures
        ({
            let row = analytics::solve_row_of(p, now);
            &&& p.contest_id == number::decimal_int(n) && i64::MIN <= n <= i64::MAX
                ==> row.contest_id == n
            &&& p.contest_id.len() == 0 ==> row.contest_id == 0
            &&& row.problem_index == p.index
            &&& p.name is Some ==> row.name == p.name->0
            &&& p.name is None ==> row.name.len() == 0
            &&& row.rating == p.rating
            &&& (forall|i: int| 0 <= i < p.tags.len() ==> !(#[trigger] p.tags[i]).contains(','))
                && p.tags.len() > 0 ==> text::pieces(row.tags, ',') == p.tags
            &&& now <= i64::MAX ==> row.timestamp == now
            &&& row.verdict == "PASS"@
        }),
{
    numbers::law_read_back(n);
    if (forall|i: int| 0 <= i < p.tags.len() ==> !(#[trigger] p.tags[i]).contains(','))
        && p.tags.len() > 0 {
        lemma_pieces_of_joined(p.tags);
    }
}

proof fn lemma_pieces_of_joined(tags: Seq<Seq<char>>)
    requires
        tags.len() > 0,
        forall|i: int| 0 <= i < tags.len() ==> !(#[trigger] tags[i]).contains(','),
    ensures
        text::pieces(text::join(tags, ","@), ',') == tags,
    decreases tags.len(),
{
    reveal_strlit(",");
    assert(","@ =~= seq![',']);
    let last = tags.last();
    assert(!tags[tags.len() - 1].contains(','));
    texts::law_one_piece(last, ',');
    if tags.len() == 1 {
        assert(tags =~= seq![last]);
    } else {
        let front = tags.drop_last();
        assert forall|i: int| 0 <= i < front.len() implies !(#[trigger] front[i]).contains(',') by {
            assert(front[i] == tags[i]);
        }
        lemma_pieces_of_joined(front);
        texts::law_pieces_of_both(text::join(front, ","@), last, ',');
        assert(front + seq![last] =~= tags);
    }
}

} // verus!

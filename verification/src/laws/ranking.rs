//! What the recommendations achieve: unsolved problems near the user's rating, those with the most
//! weak tags first, then those closest in rating.

use vstd::prelude::*;

use crate::codeforces::CfProblemView;
use crate::number;
use crate::ordering;
use crate::recommend;
use crate::recommend::RecommendationView;

verus! {

/// Whether a rating is at most 200 away from the highest that the user has solved; for a user
/// without one, whether it is from 800 to 1600.
pub open spec fn is_near(rating: int, user_max_rating: Option<i32>) -> bool {
    match user_max_rating {
        Some(r) => -200 <= rating - r <= 200,
        None => 800 <= rating <= 1600,
    }
}

/// How far a rating is from the highest that the user has solved, or from 1200.
pub open spec fn distance(rating: int, user_max_rating: Option<i32>) -> int {
    let d = rating - match user_max_rating {
        Some(r) => r as int,
        None => 1200,
    };
    if d >= 0 {
        d
    } else {
        -d
    }
}

/// The tags of a problem that are weak, in their order.
pub open spec fn weak_ones(tags: Seq<Seq<char>>, weak: Seq<Seq<char>>) -> Seq<Seq<char>> {
    tags.filter(|t: Seq<char>| weak.contains(t))
}

/// Whether a recommendation tells of a problem what there is to tell, with its weak tags and where
/// it is found.
pub open spec fn tells_of(
    rec: RecommendationView,
    p: CfProblemView,
    weak: Seq<Seq<char>>,
) -> bool {
    &&& p.contest_id == Some(rec.contest_id)
    &&& rec.index == p.index
    &&& rec.name == p.name
    &&& rec.rating == p.rating
    &&& rec.tags == p.tags
    &&& rec.matched_tags == weak_ones(p.tags, weak)
    &&& rec.url == "https://codeforces.com/contest/"@ + number::decimal(rec.contest_id as nat)
        + "/problem/"@ + p.index
}

/// Whether a problem with the first tags and rating is at least as good as one with the others:
/// more weak tags, or as many and no farther away.
pub open spec fn at_least_as_good(
    tags: Seq<Seq<char>>,
    rating: int,
    other_tags: Seq<Seq<char>>,
    other_rating: int,
    weak: Seq<Seq<char>>,
    user_max_rating: Option<i32>,
) -> bool {
    let a = weak_ones(tags, weak).len();
    let b = weak_ones(other_tags, weak).len();
    ||| a > b
    ||| a == b && distance(rating, user_max_rating) <= distance(other_rating, user_max_rating)
}

proof fn lemma_matched(tags: Seq<Seq<char>>, weak: Seq<Seq<char>>)
    ensures
        recommend::matched(tags, weak) == weak_ones(tags, weak),
    decreases tags.len(),
{
    reveal(Seq::filter);
    if tags.len() > 0 {
        lemma_matched(tags.drop_last(), weak);
    }
    assert(recommend::matched(tags, weak) =~= weak_ones(tags, weak));
}

/// No recommended problem is among the solved ones, whatever else is known of the user.
pub proof fn law_solved_are_left_out(
    problems: Seq<CfProblemView>,
    solved: Set<(u32, Seq<char>)>,
    weak: Seq<Seq<char>>,
    user_max_rating: Option<i32>,
)
    ensures
        ({
            let recs = recommend::recommended(problems, Some(solved), weak, user_max_rating);
            forall|k: int|
                0 <= k < recs.len() ==> !solved.contains(
                    ((#[trigger] recs[k]).contest_id, recs[k].index),
                )
        }),
{
    let recs = recommend::recommended(problems, Some(solved), weak, user_max_rating);
    let order = recommend::ranking(problems, Some(solved), weak, user_max_rating);
    recommend::lemma_ranking_is_eligible(problems, Some(solved), weak, user_max_rating);
    assert forall|k: int| 0 <= k < recs.len() implies !solved.contains(
        ((#[trigger] recs[k]).contest_id, recs[k].index),
    ) by {
        let p = problems[order[k]];
        assert(recommend::eligible(p, Some(solved), user_max_rating));
    }
}

/// At most five problems are recommended; each is one of the problem set, told of as it is there,
/// with a rating near the user's. None stands for the same entry twice. They come best first, and
/// of equally good ones the earlier in the problem set comes first.
pub proof fn law_recommended(
    problems: Seq<CfProblemView>,
    solved: Option<Set<(u32, Seq<char>)>>,
    weak: Seq<Seq<char>>,
    user_max_rating: Option<i32>,
) -> (order: Seq<int>)
    ensures
        ({
            let recs = recommend::recommended(problems, solved, weak, user_max_rating);
            &&& recs.len() <= 5
            &&& order.len() == recs.len()
            &&& order.no_duplicates()
            &&& forall|k: int| #![trigger recs[k]] #![trigger order[k]]
                0 <= k < recs.len() ==> {
                    &&& 0 <= order[k] < problems.len()
                    &&& tells_of(recs[k], problems[order[k]], weak)
                    &&& recs[k].rating matches Some(rating)
                    &&& is_near(rating as int, user_max_rating)
                }
            &&& forall|j: int, k: int|
                0 <= j < k < recs.len() ==> at_least_as_good(
                    (#[trigger] recs[j]).tags,
                    recs[j].rating->0 as int,
                    (#[trigger] recs[k]).tags,
                    recs[k].rating->0 as int,
                    weak,
                    user_max_rating,
                )
            &&& forall|j: int, k: int| #![trigger recs[j], recs[k]]
                0 <= j < k < recs.len() && at_least_as_good(
                    recs[k].tags,
                    recs[k].rating->0 as int,
                    recs[j].tags,
                    recs[j].rating->0 as int,
                    weak,
                    user_max_rating,
                ) ==> order[j] < order[k]
        }),
{
    let recs = recommend::recommended(problems, solved, weak, user_max_rating);
    let order = recommend::ranking(problems, solved, weak, user_max_rating);
    recommend::lemma_ranking_is_eligible(problems, solved, weak, user_max_rating);
    recommend::lemma_ranking_is_best(problems, solved, weak, user_max_rating);
    let before = recommend::rank_order(problems, weak, user_max_rating);
    assert forall|k: int| #![trigger recs[k]] #![trigger order[k]] 0 <= k < recs.len() implies {
        &&& 0 <= order[k] < problems.len()
        &&& tells_of(recs[k], problems[order[k]], weak)
        &&& recs[k].rating matches Some(rating)
        &&& is_near(rating as int, user_max_rating)
    } by {
        lemma_matched(problems[order[k]].tags, weak);
    }
    assert forall|j: int, k: int| #![trigger recs[j], recs[k]] 0 <= j < k < recs.len() implies {
        &&& order[j] != order[k]
        &&& at_least_as_good(
            recs[j].tags,
            recs[j].rating->0 as int,
            recs[k].tags,
            recs[k].rating->0 as int,
            weak,
            user_max_rating,
        )
        &&& at_least_as_good(
            recs[k].tags,
            recs[k].rating->0 as int,
            recs[j].tags,
            recs[j].rating->0 as int,
            weak,
            user_max_rating,
        ) ==> order[j] < order[k]
    } by {
        let p = problems[order[j]];
        let q = problems[order[k]];
        lemma_matched(p.tags, weak);
        lemma_matched(q.tags, weak);
        assert(ordering::strictly_first(order[j], order[k], before));
        assert(before(order[j], order[k]) == recommend::ranks_before(p, q, weak, user_max_rating));
        assert(before(order[k], order[j]) == recommend::ranks_before(q, p, weak, user_max_rating));
    }
    assert(order.no_duplicates()) by {
        assert forall|j: int, k: int| 0 <= j < k < order.len() implies order[j] != order[k] by {
            let x = recs[j];
            let y = recs[k];
        }
    }
    order
}

/// An unsolved problem of a contest with a rating near the user's is recommended, or five are
/// recommended that are at least as good.
pub proof fn law_nothing_better_is_left_out(
    problems: Seq<CfProblemView>,
    solved: Option<Set<(u32, Seq<char>)>>,
    weak: Seq<Seq<char>>,
    user_max_rating: Option<i32>,
    i: int,
)
    requires
        0 <= i < problems.len(),
        problems[i].contest_id is Some,
        solved matches Some(set) ==> !set.contains((problems[i].contest_id->0, problems[i].index)),
        problems[i].rating is Some,
        is_near(problems[i].rating->0 as int, user_max_rating),
    ensures
        ({
            let recs = recommend::recommended(problems, solved, weak, user_max_rating);
            ||| exists|k: int| 0 <= k < recs.len() && tells_of(#[trigger] recs[k], problems[i], weak)
            ||| {
                &&& recs.len() == 5
                &&& forall|k: int|
                    0 <= k < recs.len() ==> at_least_as_good(
                        (#[trigger] recs[k]).tags,
                        recs[k].rating->0 as int,
                        problems[i].tags,
                        problems[i].rating->0 as int,
                        weak,
                        user_max_rating,
                    )
            }
        }),
{
    let recs = recommend::recommended(problems, solved, weak, user_max_rating);
    let order = recommend::ranking(problems, solved, weak, user_max_rating);
    recommend::lemma_ranking_is_eligible(problems, solved, weak, user_max_rating);
    recommend::lemma_ranking_is_best(problems, solved, weak, user_max_rating);
    let before = recommend::rank_order(problems, weak, user_max_rating);
    let p = problems[i];
    lemma_matched(p.tags, weak);
    assert(recommend::eligible(p, solved, user_max_rating));
    if order.contains(i) {
        let k = choose|k: int| 0 <= k < order.len() && order[k] == i;
        assert(tells_of(recs[k], p, weak));
    } else {
        assert forall|k: int| 0 <= k < recs.len() implies at_least_as_good(
            (#[trigger] recs[k]).tags,
            recs[k].rating->0 as int,
            p.tags,
            p.rating->0 as int,
            weak,
            user_max_rating,
        ) by {
            let q = problems[order[k]];
            lemma_matched(q.tags, weak);
            assert(ordering::strictly_first(order[k], i, before));
            assert(before(order[k], i) == recommend::ranks_before(q, p, weak, user_max_rating));
            assert(before(i, order[k]) == recommend::ranks_before(p, q, weak, user_max_rating));
        }
    }
}

} // verus!

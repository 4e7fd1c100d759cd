//! Which problems to solve next: unsolved ones of a suitable rating, those with weak tags first.

use vstd::prelude::*;

use crate::codeforces;
use crate::codeforces::{list_has, CfProblem, CfProblemView, SolvedSet};
use crate::number;
use crate::number::push_decimal;
use crate::ordering;
use crate::text;

verus! {

/// How far a recommended problem may be from the user's rating.
pub const RATING_DELTA: i32 = 200;

/// How many problems are recommended.
pub const REC_COUNT: usize = 5;

/// A problem that the user may want to solve next.
#[derive(Debug, Clone)]
pub struct Recommendation {
    pub contest_id: u32,
    pub index: String,
    pub name: String,
    pub rating: Option<i32>,
    pub tags: Vec<String>,
    pub url: String,
    pub matched_tags: Vec<String>,
}

#[verifier::ext_equal]
pub struct RecommendationView {
    pub contest_id: u32,
    pub index: Seq<char>,
    pub name: Seq<char>,
    pub rating: Option<i32>,
    pub tags: Seq<Seq<char>>,
    pub url: Seq<char>,
    pub matched_tags: Seq<Seq<char>>,
}

impl View for Recommendation {
    type V = RecommendationView;

    open spec fn view(&self) -> RecommendationView {
        RecommendationView {
            contest_id: self.contest_id,
            index: self.index@,
            name: self.name@,
            rating: self.rating,
            tags: text::texts(self.tags@),
            url: self.url@,
            matched_tags: text::texts(self.matched_tags@),
        }
    }
}

/// The recommendations of a list.
pub open spec fn recs_view(list: Seq<Recommendation>) -> Seq<RecommendationView> {
    Seq::new(list.len(), |i: int| list[i]@)
}

/// Whether the band around a rating can be told in 32 bits.
pub open spec fn band_fits(user_max_rating: Option<i32>) -> bool {
    user_max_rating matches Some(r) ==> i32::MIN + RATING_DELTA <= r <= i32::MAX - RATING_DELTA
}

/// The ratings that suit a user: those near the highest rating that they have solved, and a
/// gentle range for a user without a rating.
pub open spec fn in_band(rating: int, user_max_rating: Option<i32>) -> bool {
    match user_max_rating {
        Some(r) => r - RATING_DELTA <= rating <= r + RATING_DELTA,
        None => 800 <= rating <= 1600,
    }
}

/// The rating that a recommended problem is meant to be close to.
pub open spec fn target_rating(user_max_rating: Option<i32>) -> int {
    match user_max_rating {
        Some(r) => r as int,
        None => 1200,
    }
}

/// Whether a problem may be recommended: it belongs to a contest, it is not solved, and its
/// rating suits the user.
pub open spec fn eligible(
    p: CfProblemView,
    solved: Option<Set<(u32, Seq<char>)>>,
    user_max_rating: Option<i32>,
) -> bool {
    &&& p.contest_id matches Some(contest_id)
    &&& solved matches Some(set) ==> !set.contains((contest_id, p.index))
    &&& p.rating matches Some(rating)
    &&& in_band(rating as int, user_max_rating)
}

/// The tags of `tags` that are weak, in their order.
pub open spec fn matched(tags: Seq<Seq<char>>, weak: Seq<Seq<char>>) -> Seq<Seq<char>>
    decreases tags.len(),
{
    if tags.len() == 0 {
        Seq::empty()
    } else {
        let front = matched(tags.drop_last(), weak);
        if weak.contains(tags.last()) {
            front.push(tags.last())
        } else {
            front
        }
    }
}

/// How far the problem is from the rating aimed at.
pub open spec fn rating_penalty(p: CfProblemView, user_max_rating: Option<i32>) -> int {
    match p.rating {
        Some(rating) => {
            let d = rating - target_rating(user_max_rating);
            if d < 0 {
                -d
            } else {
                d
            }
        },
        None => 0,
    }
}

/// Whether `p` is the better recommendation: more weak tags, or as many and a closer rating.
pub open spec fn ranks_before(
    p: CfProblemView,
    q: CfProblemView,
    weak: Seq<Seq<char>>,
    user_max_rating: Option<i32>,
) -> bool {
    let a = matched(p.tags, weak).len();
    let b = matched(q.tags, weak).len();
    ||| a > b
    ||| a == b && rating_penalty(p, user_max_rating) < rating_penalty(q, user_max_rating)
}

/// [`ranks_before`] on positions in a problem set.
pub open spec fn rank_order(
    problems: Seq<CfProblemView>,
    weak: Seq<Seq<char>>,
    user_max_rating: Option<i32>,
) -> spec_fn(int, int) -> bool {
    |i: int, j: int| ranks_before(problems[i], problems[j], weak, user_max_rating)
}

/// The positions of the problems that may be recommended.
pub open spec fn candidates(
    problems: Seq<CfProblemView>,
    solved: Option<Set<(u32, Seq<char>)>>,
    user_max_rating: Option<i32>,
) -> Seq<int>
    decreases problems.len(),
{
    if problems.len() == 0 {
        Seq::empty()
    } else {
        let front = candidates(problems.drop_last(), solved, user_max_rating);
        if eligible(problems.last(), solved, user_max_rating) {
            front.push(problems.len() - 1)
        } else {
            front
        }
    }
}

/// The positions of the recommended problems, best first; among equally good ones the earlier in
/// the problem set comes first.
pub open spec fn ranking(
    problems: Seq<CfProblemView>,
    solved: Option<Set<(u32, Seq<char>)>>,
    weak: Seq<Seq<char>>,
    user_max_rating: Option<i32>,
) -> Seq<int> {
    ordering::first_of(
        ordering::stable_sort(
            candidates(problems, solved, user_max_rating),
            rank_order(problems, weak, user_max_rating),
        ),
        REC_COUNT as nat,
    )
}

/// Where a problem is found.
pub open spec fn problem_url(contest_id: u32, index: Seq<char>) -> Seq<char> {
    "https://codeforces.com/contest/"@ + number::decimal(contest_id as nat) + "/problem/"@ + index
}

/// The recommendation of a problem that belongs to a contest.
pub open spec fn recommendation_of(p: CfProblemView, weak: Seq<Seq<char>>) -> RecommendationView {
    RecommendationView {
        contest_id: p.contest_id->0,
        index: p.index,
        name: p.name,
        rating: p.rating,
        tags: p.tags,
        url: problem_url(p.contest_id->0, p.index),
        matched_tags: matched(p.tags, weak),
    }
}

/// The recommended problems.
pub open spec fn recommended(
    problems: Seq<CfProblemView>,
    solved: Option<Set<(u32, Seq<char>)>>,
    weak: Seq<Seq<char>>,
    user_max_rating: Option<i32>,
) -> Seq<RecommendationView> {
    let order = ranking(problems, solved, weak, user_max_rating);
    Seq::new(order.len(), |i: int| recommendation_of(problems[order[i]], weak))
}

/// The solved problems of a filter, if there is one.
pub open spec fn solved_view(solved: Option<&SolvedSet>) -> Option<Set<(u32, Seq<char>)>> {
    match solved {
        Some(set) => Some(set@),
        None => None,
    }
}

/// The tags of `tags` that are weak.
fn matched_tags(tags: &Vec<String>, weak: &[String]) -> (r: Vec<String>)
    ensures
        text::texts(r@) == matched(text::texts(tags@), text::texts(weak@)),
{
    let ghost all = text::texts(tags@);
    let mut r: Vec<String> = Vec::new();
    let mut i: usize = 0;
    proof {
        assert(text::texts(r@) =~= matched(all.take(0), text::texts(weak@)));
    }
    while i < tags.len()
        invariant
            i <= tags.len(),
            all == text::texts(tags@),
            text::texts(r@) == matched(all.take(i as int), text::texts(weak@)),
        decreases tags.len() - i,
    {
        let ghost before = text::texts(r@);
        proof {
            assert(all.take(i + 1).drop_last() =~= all.take(i as int));
            assert(all.take(i + 1).last() == tags@[i as int]@);
        }
        if list_has(weak, &tags[i]) {
            r.push(tags[i].clone());
            proof {
                assert(text::texts(r@) =~= before.push(tags@[i as int]@));
            }
        }
        i += 1;
    }
    proof {
        assert(all.take(tags.len() as int) =~= all);
    }
    r
}

/// A copy of a list of strings.
pub fn copy_texts(list: &Vec<String>) -> (r: Vec<String>)
    ensures
        text::texts(r@) == text::texts(list@),
{
    let mut r: Vec<String> = Vec::new();
    let mut i: usize = 0;
    while i < list.len()
        invariant
            i <= list.len(),
            r@.len() == i,
            forall|k: int| 0 <= k < i ==> (#[trigger] r@[k])@ == list@[k]@,
        decreases list.len() - i,
    {
        r.push(list[i].clone());
        i += 1;
    }
    proof {
        assert(text::texts(r@) =~= text::texts(list@));
    }
    r
}

/// The recommendation of a problem of contest `contest_id`.
fn recommend(p: &CfProblem, contest_id: u32, weak: &[String]) -> (r: Recommendation)
    requires
        p.contest_id == Some(contest_id),
    ensures
        r@ == recommendation_of(p@, text::texts(weak@)),
{
    let mut url = "https://codeforces.com/contest/".to_string();
    push_decimal(&mut url, contest_id as u64);
    url.append("/problem/");
    url.append(p.index.as_str());
    Recommendation {
        contest_id,
        index: p.index.clone(),
        name: p.name.clone(),
        rating: p.rating,
        tags: copy_texts(&p.tags),
        url,
        matched_tags: matched_tags(&p.tags, weak),
    }
}

/// A problem among those ranked so far.
struct Ranked {
    score: usize,
    penalty: i32,
    position: usize,
}

/// The positions of the ranked problems.
spec fn positions(list: Seq<Ranked>) -> Seq<int> {
    Seq::new(list.len(), |i: int| list[i].position as int)
}

/// Whether the keys of the ranked problems are those of their positions.
spec fn keys_agree(
    list: Seq<Ranked>,
    problems: Seq<CfProblemView>,
    weak: Seq<Seq<char>>,
    user_max_rating: Option<i32>,
) -> bool {
    forall|i: int|
        0 <= i < list.len() ==> {
            let p = problems[(#[trigger] list[i]).position as int];
            &&& list[i].position < problems.len()
            &&& list[i].score == matched(p.tags, weak).len()
            &&& list[i].penalty == rating_penalty(p, user_max_rating)
        }
}

proof fn lemma_rank_order(
    problems: Seq<CfProblemView>,
    weak: Seq<Seq<char>>,
    user_max_rating: Option<i32>,
)
    ensures
        ordering::is_order(rank_order(problems, weak, user_max_rating)),
{
}

/// The candidates are the positions of the eligible problems, in increasing order.
pub proof fn lemma_candidates(
    problems: Seq<CfProblemView>,
    solved: Option<Set<(u32, Seq<char>)>>,
    user_max_rating: Option<i32>,
)
    ensures
        forall|k: int|
            0 <= k < candidates(problems, solved, user_max_rating).len() ==> {
                let i = #[trigger] candidates(problems, solved, user_max_rating)[k];
                &&& 0 <= i < problems.len()
                &&& eligible(problems[i], solved, user_max_rating)
            },
        forall|j: int, k: int|
            0 <= j < k < candidates(problems, solved, user_max_rating).len()
                ==> #[trigger] candidates(problems, solved, user_max_rating)[j]
                < #[trigger] candidates(problems, solved, user_max_rating)[k],
        forall|i: int|
            0 <= i < problems.len() && eligible(#[trigger] problems[i], solved, user_max_rating)
                ==> candidates(problems, solved, user_max_rating).contains(i),
    decreases problems.len(),
{
    if problems.len() > 0 {
        let front = problems.drop_last();
        lemma_candidates(front, solved, user_max_rating);
        let few = candidates(front, solved, user_max_rating);
        let all = candidates(problems, solved, user_max_rating);
        assert forall|k: int| 0 <= k < all.len() implies {
            let i = #[trigger] all[k];
            &&& 0 <= i < problems.len()
            &&& eligible(problems[i], solved, user_max_rating)
        } by {
            if k < few.len() {
                assert(all[k] == few[k]);
                assert(front[few[k]] == problems[few[k]]);
            }
        }
        assert forall|j: int, k: int| 0 <= j < k < all.len() implies #[trigger] all[j]
            < #[trigger] all[k] by {
            assert(all[j] == few[j]);
            if k < few.len() {
                assert(all[k] == few[k]);
            }
        }
        assert forall|i: int|
            0 <= i < problems.len() && eligible(
                #[trigger] problems[i],
                solved,
                user_max_rating,
            ) implies all.contains(i) by {
            if i < front.len() {
                assert(front[i] == problems[i]);
                let k = choose|k: int| 0 <= k < few.len() && few[k] == i;
                assert(all[k] == i);
            } else {
                assert(all[all.len() - 1] == i);
            }
        }
    }
}

/// Every recommended problem is eligible: it belongs to a contest, is not solved, and suits the
/// user's rating. There are at most five.
pub proof fn lemma_ranking_is_eligible(
    problems: Seq<CfProblemView>,
    solved: Option<Set<(u32, Seq<char>)>>,
    weak: Seq<Seq<char>>,
    user_max_rating: Option<i32>,
)
    ensures
        ranking(problems, solved, weak, user_max_rating).len() <= REC_COUNT,
        forall|k: int|
            0 <= k < ranking(problems, solved, weak, user_max_rating).len() ==> {
                let i = #[trigger] ranking(problems, solved, weak, user_max_rating)[k];
                &&& 0 <= i < problems.len()
                &&& eligible(problems[i], solved, user_max_rating)
            },
{
    let c = candidates(problems, solved, user_max_rating);
    let order = rank_order(problems, weak, user_max_rating);
    let sorted = ordering::stable_sort(c, order);
    let chosen = ranking(problems, solved, weak, user_max_rating);
    lemma_candidates(problems, solved, user_max_rating);
    lemma_rank_order(problems, weak, user_max_rating);
    ordering::lemma_stable_sort_sorts(c, order);
    assert forall|k: int| 0 <= k < chosen.len() implies {
        let i = #[trigger] chosen[k];
        &&& 0 <= i < problems.len()
        &&& eligible(problems[i], solved, user_max_rating)
    } by {
        assert(chosen[k] == sorted[k]);
        ordering::lemma_same_elements(sorted, c, sorted[k]);
        let j = choose|j: int| 0 <= j < c.len() && c[j] == sorted[k];
        assert(c[j] == chosen[k]);
    }
}

/// The recommended problems come in order, none twice; and any other eligible problem is left
/// out only because five that are at least as good were found: better ones, or equally good ones
/// that stand earlier in the problem set.
pub proof fn lemma_ranking_is_best(
    problems: Seq<CfProblemView>,
    solved: Option<Set<(u32, Seq<char>)>>,
    weak: Seq<Seq<char>>,
    user_max_rating: Option<i32>,
)
    ensures
        forall|j: int, k: int|
            0 <= j < k < ranking(problems, solved, weak, user_max_rating).len()
                ==> ordering::strictly_first(
                #[trigger] ranking(problems, solved, weak, user_max_rating)[j],
                #[trigger] ranking(problems, solved, weak, user_max_rating)[k],
                rank_order(problems, weak, user_max_rating),
            ),
        forall|i: int|
            0 <= i < problems.len() && eligible(#[trigger] problems[i], solved, user_max_rating)
                && !ranking(problems, solved, weak, user_max_rating).contains(i) ==> {
                &&& ranking(problems, solved, weak, user_max_rating).len() == REC_COUNT
                &&& forall|k: int|
                    0 <= k < REC_COUNT ==> ordering::strictly_first(
                        #[trigger] ranking(problems, solved, weak, user_max_rating)[k],
                        i,
                        rank_order(problems, weak, user_max_rating),
                    )
            },
{
    let c = candidates(problems, solved, user_max_rating);
    let order = rank_order(problems, weak, user_max_rating);
    let sorted = ordering::stable_sort(c, order);
    let chosen = ranking(problems, solved, weak, user_max_rating);
    lemma_candidates(problems, solved, user_max_rating);
    lemma_rank_order(problems, weak, user_max_rating);
    ordering::lemma_stable_sort_sorts(c, order);
    ordering::lemma_stable_sort_is_stable(c, order);
    assert forall|j: int, k: int| 0 <= j < k < chosen.len() implies ordering::strictly_first(
        #[trigger] chosen[j],
        #[trigger] chosen[k],
        order,
    ) by {
        assert(chosen[j] == sorted[j] && chosen[k] == sorted[k]);
    }
    assert forall|i: int|
        0 <= i < problems.len() && eligible(#[trigger] problems[i], solved, user_max_rating)
            && !chosen.contains(i) implies {
        &&& chosen.len() == REC_COUNT
        &&& forall|k: int|
            0 <= k < REC_COUNT ==> ordering::strictly_first(#[trigger] chosen[k], i, order)
    } by {
        assert(c.contains(i));
        ordering::lemma_same_elements(sorted, c, i);
        let m = choose|m: int| 0 <= m < sorted.len() && sorted[m] == i;
        if m < chosen.len() {
            assert(chosen[m] == i);
        }
        assert forall|k: int| 0 <= k < REC_COUNT implies ordering::strictly_first(
            #[trigger] chosen[k],
            i,
            order,
        ) by {
            assert(chosen[k] == sorted[k]);
            assert(ordering::strictly_first(sorted[k], sorted[m], order));
        }
    }
}

/// Puts `x` into a ranked list, behind everything that it does not rank before, and keeps the
/// first few.
fn insert_ranked(
    best: &mut Vec<Ranked>,
    x: Ranked,
    Ghost(problems): Ghost<Seq<CfProblemView>>,
    Ghost(weak): Ghost<Seq<Seq<char>>>,
    Ghost(user_max_rating): Ghost<Option<i32>>,
)
    requires
        keys_agree(old(best)@.push(x), problems, weak, user_max_rating),
    ensures
        keys_agree(final(best)@, problems, weak, user_max_rating),
        positions(final(best)@) == ordering::first_of(
            ordering::insert_stable(
                positions(old(best)@),
                x.position as int,
                rank_order(problems, weak, user_max_rating),
            ),
            REC_COUNT as nat,
        ),
{
    let ghost order = rank_order(problems, weak, user_max_rating);
    let ghost had = best@;
    let ghost all = positions(had);
    let ghost xp = x.position as int;
    let mut p: usize = best.len();
    proof {
        assert(had.push(x)[had.len() as int] == x);
        assert forall|i: int| 0 <= i < had.len() implies had.push(x)[i] == #[trigger] had[i] by {}
        assert(keys_agree(had, problems, weak, user_max_rating)) by {
            assert forall|i: int| 0 <= i < had.len() implies {
                let q = problems[(#[trigger] had[i]).position as int];
                &&& had[i].position < problems.len()
                &&& had[i].score == matched(q.tags, weak).len()
                &&& had[i].penalty == rating_penalty(q, user_max_rating)
            } by {
                assert(had.push(x)[i] == had[i]);
            }
        }
        assert(all.take(p as int) =~= all);
    }
    while p > 0 && (x.score > best[p - 1].score || (x.score == best[p - 1].score && x.penalty
        < best[p - 1].penalty))
        invariant
            p <= best.len(),
            best@ == had,
            all == positions(had),
            xp == x.position,
            order == rank_order(problems, weak, user_max_rating),
            keys_agree(had, problems, weak, user_max_rating),
            x.score == matched(problems[xp].tags, weak).len(),
            x.penalty == rating_penalty(problems[xp], user_max_rating),
            ordering::insert_position(all, xp, order) == ordering::insert_position(
                all.take(p as int),
                xp,
                order,
            ),
        decreases p,
    {
        proof {
            assert(all.take(p as int).last() == had[p - 1].position);
            assert(order(xp, all.take(p as int).last()));
            assert(all.take(p as int).drop_last() =~= all.take(p - 1));
        }
        p -= 1;
    }
    proof {
        if p > 0 {
            assert(all.take(p as int).last() == had[p - 1].position);
            assert(!order(xp, all.take(p as int).last()));
        }
        assert(ordering::insert_position(all, xp, order) == p);
        ordering::lemma_insert_position(all, xp, order);
    }
    best.insert(p, x);
    let ghost grown = best@;
    proof {
        assert(positions(grown) =~= all.insert(p as int, xp));
        assert(keys_agree(grown, problems, weak, user_max_rating)) by {
            assert forall|i: int| 0 <= i < grown.len() implies {
                let q = problems[(#[trigger] grown[i]).position as int];
                &&& grown[i].position < problems.len()
                &&& grown[i].score == matched(q.tags, weak).len()
                &&& grown[i].penalty == rating_penalty(q, user_max_rating)
            } by {
                if i < p {
                    assert(grown[i] == had[i]);
                } else if i > p {
                    assert(grown[i] == had[i - 1]);
                }
            }
        }
    }
    if best.len() > REC_COUNT {
        best.truncate(REC_COUNT);
        proof {
            assert(best@ =~= grown.take(REC_COUNT as int));
            assert(positions(best@) =~= positions(grown).take(REC_COUNT as int));
            assert forall|i: int| 0 <= i < best@.len() implies #[trigger] best@[i] == grown[i] by {}
        }
    }
}

/// The recommended problems: at most five that are not solved and suit the user's rating, best
/// first.
pub fn rank_recommendations(
    problemset: &[CfProblem],
    solved: Option<&SolvedSet>,
    weak_tags: &[String],
    user_max_rating: Option<i32>,
) -> (r: Vec<Recommendation>)
    requires
        band_fits(user_max_rating),
    ensures
        recs_view(r@) == recommended(
            codeforces::problems_view(problemset@),
            solved_view(solved),
            text::texts(weak_tags@),
            user_max_rating,
        ),
{
    let ghost problems = codeforces::problems_view(problemset@);
    let ghost filter = solved_view(solved);
    let ghost weak = text::texts(weak_tags@);
    let ghost order = rank_order(problems, weak, user_max_rating);
    let (lo, hi): (i32, i32) = match user_max_rating {
        Some(r) => (r - RATING_DELTA, r + RATING_DELTA),
        None => (800, 1600),
    };
    let target: i32 = match user_max_rating {
        Some(r) => r,
        None => 1200,
    };
    let mut best: Vec<Ranked> = Vec::new();
    let mut i: usize = 0;
    proof {
        assert(positions(best@) =~= Seq::empty());
        lemma_rank_order(problems, weak, user_max_rating);
    }
    while i < problemset.len()
        invariant
            i <= problemset.len(),
            problems == codeforces::problems_view(problemset@),
            filter == solved_view(solved),
            weak == text::texts(weak_tags@),
            order == rank_order(problems, weak, user_max_rating),
            ordering::is_order(order),
            band_fits(user_max_rating),
            target == target_rating(user_max_rating),
            forall|x: int| (lo <= x <= hi) == #[trigger] in_band(x, user_max_rating),
            target - 400 <= lo <= hi <= target + 400,
            keys_agree(best@, problems, weak, user_max_rating),
            positions(best@) == ordering::first_of(
                ordering::stable_sort(
                    candidates(problems.take(i as int), filter, user_max_rating),
                    order,
                ),
                REC_COUNT as nat,
            ),
        decreases problemset.len() - i,
    {
        let p = &problemset[i];
        let ghost so_far = candidates(problems.take(i as int), filter, user_max_rating);
        proof {
            assert(problems.take(i + 1).drop_last() =~= problems.take(i as int));
            assert(problems.take(i + 1).last() == p@);
        }
        if let Some(contest_id) = p.contest_id {
            let done = match solved {
                Some(set) => set.contains(contest_id, &p.index),
                None => false,
            };
            if !done {
                if let Some(rating) = p.rating {
                    if lo <= rating && rating <= hi {
                        proof {
                            assert(in_band(rating as int, user_max_rating));
                            assert(eligible(p@, filter, user_max_rating));
                        }
                        let tags = matched_tags(&p.tags, weak_tags);
                        let d: i32 = rating - target;
                        let penalty: i32 = if d < 0 {
                            -d
                        } else {
                            d
                        };
                        let x = Ranked { score: tags.len(), penalty, position: i };
                        proof {
                            assert(text::texts(tags@).len() == tags@.len());
                            assert(problems[i as int] == p@);
                            assert forall|k: int| 0 <= k < best@.len() implies best@.push(x)[k]
                                == #[trigger] best@[k] by {}
                            let sorted = ordering::stable_sort(so_far, order);
                            ordering::lemma_stable_sort_sorts(so_far, order);
                            ordering::lemma_insert_first(
                                sorted,
                                i as int,
                                order,
                                REC_COUNT as nat,
                            );
                            assert(so_far.push(i as int).drop_last() =~= so_far);
                        }
                        insert_ranked(
                            &mut best,
                            x,
                            Ghost(problems),
                            Ghost(weak),
                            Ghost(user_max_rating),
                        );
                    } else {
                        proof {
                            assert(!in_band(rating as int, user_max_rating));
                        }
                    }
                }
            }
        }
        i += 1;
    }
    proof {
        assert(problems.take(problemset.len() as int) =~= problems);
    }
    let ghost chosen = ranking(problems, filter, weak, user_max_rating);
    proof {
        lemma_ranking_is_eligible(problems, filter, weak, user_max_rating);
    }
    let mut r: Vec<Recommendation> = Vec::new();
    let mut k: usize = 0;
    while k < best.len()
        invariant
            k <= best.len(),
            problems == codeforces::problems_view(problemset@),
            weak == text::texts(weak_tags@),
            keys_agree(best@, problems, weak, user_max_rating),
            positions(best@) == chosen,
            forall|j: int|
                0 <= j < chosen.len() ==> 0 <= #[trigger] chosen[j] < problems.len()
                    && eligible(problems[chosen[j]], filter, user_max_rating),
            r@.len() == k,
            forall|j: int|
                0 <= j < k ==> (#[trigger] r@[j])@ == recommendation_of(problems[chosen[j]], weak),
        decreases best.len() - k,
    {
        let position: usize = best[k].position;
        proof {
            assert(chosen[k as int] == position);
        }
        let p = &problemset[position];
        if let Some(contest_id) = p.contest_id {
            r.push(recommend(p, contest_id, weak_tags));
        }
        k += 1;
    }
    proof {
        assert(chosen.len() == best@.len());
        assert(recs_view(r@) =~= recommended(problems, filter, weak, user_max_rating));
    }
    r
}

} // verus!

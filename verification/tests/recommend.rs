use rune::codeforces::{CfProblem, ProblemsetCache, SolvedSet};
use rune::fetch::{RecAction, RecReply, RecRun};
use rune::recommend::{rank_recommendations, Recommendation};

fn mk_problem(cid: u32, idx: &str, rating: i32, tags: &[&str]) -> CfProblem {
    CfProblem {
        contest_id: Some(cid),
        index: idx.to_string(),
        name: format!("{cid}{idx}"),
        rating: Some(rating),
        tags: tags.iter().map(|s| s.to_string()).collect(),
    }
}

#[test]
fn rank_filters_by_rating_band_and_solved() {
    let problems = vec![
        mk_problem(1, "A", 800, &["greedy"]),  // below band
        mk_problem(2, "A", 1500, &["dp"]),     // in band, weak tag dp
        mk_problem(3, "A", 1500, &["greedy"]), // in band, no weak match
        mk_problem(4, "A", 1500, &["dp"]),     // already solved
        mk_problem(5, "A", 2200, &["dp"]),     // above band
    ];
    let mut solved = SolvedSet::new();
    solved.insert((4u32, "A".to_string()));
    let weak = vec!["dp".to_string()];
    let recs = rank_recommendations(&problems, Some(&solved), &weak, Some(1500));

    // 1500 dp ranks #1 (matched weak tag); 1500 greedy ranks #2 (same proximity, no match).
    // 800/2200 filtered out, contest 4 filtered as solved.
    assert_eq!(recs.len(), 2);
    assert_eq!(recs[0].contest_id, 2);
    assert_eq!(recs[0].matched_tags, vec!["dp".to_string()]);
    assert_eq!(recs[1].contest_id, 3);
    assert!(recs[1].matched_tags.is_empty());
}

#[test]
fn rank_prefers_closer_rating_when_weak_score_ties() {
    let problems = vec![
        mk_problem(1, "A", 1700, &["dp"]),
        mk_problem(2, "A", 1500, &["dp"]),
        mk_problem(3, "A", 1600, &["dp"]),
    ];
    let weak = vec!["dp".to_string()];
    let recs = rank_recommendations(&problems, None, &weak, Some(1500));
    // All three match the same weak tag; tie broken by |rating - 1500|.
    assert_eq!(recs[0].contest_id, 2); // |1500-1500|=0
    assert_eq!(recs[1].contest_id, 3); // |1600-1500|=100
    assert_eq!(recs[2].contest_id, 1); // |1700-1500|=200
}

#[test]
fn rank_falls_back_to_default_band_with_no_history() {
    let problems = vec![
        mk_problem(1, "A", 1000, &["greedy"]),
        mk_problem(2, "A", 2000, &["greedy"]), // outside 800-1600 default
    ];
    let recs = rank_recommendations(&problems, None, &[], None);
    assert_eq!(recs.len(), 1);
    assert_eq!(recs[0].contest_id, 1);
}

fn contests(recs: &[Recommendation]) -> Vec<u32> {
    recs.iter().map(|r| r.contest_id).collect()
}

#[test]
fn ranking_keeps_the_order_of_equals_and_stops_at_five() {
    let problems: Vec<CfProblem> = (1..=7).map(|i| mk_problem(i, "B", 1200, &[])).collect();
    let recs = rank_recommendations(&problems, None, &[], None);
    assert_eq!(contests(&recs), vec![1, 2, 3, 4, 5]);
}

#[test]
fn weak_tags_come_before_near_ratings() {
    let weak = vec!["dp".to_string(), "graphs".to_string()];
    let problems = vec![
        mk_problem(1, "A", 1500, &[]),
        mk_problem(2, "A", 1700, &["graphs", "x", "dp"]),
        mk_problem(3, "A", 1300, &["dp"]),
        mk_problem(4, "A", 1301, &["dp"]),
    ];
    let recs = rank_recommendations(&problems, None, &weak, Some(1500));
    assert_eq!(contests(&recs), vec![2, 4, 3, 1]);
    assert_eq!(recs[0].matched_tags, vec!["graphs".to_string(), "dp".to_string()]);
    assert_eq!(recs[0].tags.len(), 3);
    assert_eq!(recs[0].name, "2A");
    assert_eq!(recs[0].rating, Some(1700));
    assert_eq!(recs[0].url, "https://codeforces.com/contest/2/problem/A");
}

#[test]
fn the_band_has_sharp_edges() {
    let problems: Vec<CfProblem> =
        [799, 800, 1600, 1601].iter().map(|r| mk_problem(*r as u32, "A", *r, &[])).collect();
    let recs = rank_recommendations(&problems, None, &[], None);
    assert_eq!(contests(&recs), vec![800, 1600]);
    let recs = rank_recommendations(&problems, None, &[], Some(1000));
    assert_eq!(contests(&recs), vec![800]);
}

#[test]
fn problems_without_contest_or_rating_are_left_out() {
    let mut no_contest = mk_problem(1, "A", 1200, &[]);
    no_contest.contest_id = None;
    let mut no_rating = mk_problem(2, "A", 1200, &[]);
    no_rating.rating = None;
    let recs = rank_recommendations(&[no_contest, no_rating], None, &[], None);
    assert!(recs.is_empty());
}

#[test]
fn a_problem_is_solved_by_contest_and_index() {
    let mut solved = SolvedSet::new();
    solved.insert((4, "A".to_string()));
    solved.insert((4, "A".to_string()));
    assert!(solved.contains(4, &"A".to_string()));
    assert!(!solved.contains(4, &"B".to_string()));
    assert!(!solved.contains(5, &"A".to_string()));
}

fn finished(action: RecAction) -> Result<Vec<u32>, String> {
    match action {
        RecAction::Finish(result) => result.map(|recs| contests(&recs)),
        other => panic!("not finished: {other:?}"),
    }
}

#[test]
fn a_refresh_fetches_and_saves() {
    let mut run = RecRun::start(true, None);
    let next = run.advance(RecReply::Analytics(Ok((vec!["dp".to_string()], None))), 100);
    assert!(!next.save_cache);
    assert!(matches!(next.action, RecAction::FetchProblemset));
    let problems = vec![mk_problem(1, "A", 1200, &[]), mk_problem(2, "A", 900, &["dp"])];
    let next = run.advance(RecReply::Problemset(Ok(problems)), 100);
    assert!(next.save_cache);
    let cache = run.cache(100);
    assert_eq!(cache.fetched_at, 100);
    assert_eq!(cache.problems.len(), 2);
    assert_eq!(cache.problems[1].name, "2A");
    assert_eq!(finished(next.action), Ok(vec![2, 1]));
}

fn cached(fetched_at: u64) -> Option<ProblemsetCache> {
    Some(ProblemsetCache { fetched_at, problems: vec![mk_problem(7, "A", 1200, &[])] })
}

#[test]
fn a_fresh_cache_spares_the_request() {
    let mut run = RecRun::start(false, Some("tourist".to_string()));
    let next = run.advance(RecReply::Analytics(Ok((vec![], Some(1200)))), 90000);
    assert!(matches!(next.action, RecAction::LoadCache));
    let next = run.advance(RecReply::Cache(cached(3601)), 90000);
    assert!(!next.save_cache);
    match next.action {
        RecAction::FetchSolved(handle) => assert_eq!(handle, "tourist"),
        other => panic!("{other:?}"),
    }
    let mut solved = SolvedSet::new();
    solved.insert((7, "A".to_string()));
    let next = run.advance(RecReply::Solved(Ok(solved)), 90000);
    assert_eq!(finished(next.action), Ok(vec![]));
}

#[test]
fn a_stale_or_missing_cache_is_fetched_anew() {
    for cache in [cached(3600), None] {
        let mut run = RecRun::start(false, None);
        run.advance(RecReply::Analytics(Ok((vec![], None))), 90000);
        let next = run.advance(RecReply::Cache(cache), 90000);
        assert!(matches!(next.action, RecAction::FetchProblemset));
    }
}

#[test]
fn unknown_solves_filter_nothing() {
    let mut run = RecRun::start(false, Some("x".to_string()));
    run.advance(RecReply::Analytics(Ok((vec![], None))), 5);
    run.advance(RecReply::Cache(cached(5)), 5);
    let next = run.advance(RecReply::Solved(Err("network: down".to_string())), 5);
    assert_eq!(finished(next.action), Ok(vec![7]));
}

#[test]
fn analytics_and_problemset_failures_end_the_run() {
    let mut run = RecRun::start(true, None);
    let next = run.advance(RecReply::Analytics(Err("locked".to_string())), 5);
    assert_eq!(finished(next.action), Err("analytics: locked".to_string()));
    let mut run = RecRun::start(true, None);
    run.advance(RecReply::Analytics(Ok((vec![], None))), 5);
    let next = run.advance(RecReply::Problemset(Err("CF API: busy".to_string())), 5);
    assert!(!next.save_cache);
    assert_eq!(finished(next.action), Err("CF API: busy".to_string()));
}

#[test]
fn a_failed_request_is_reported_whatever_the_rating() {
    for rating in [i32::MAX, i32::MIN, i32::MAX - 199] {
        let mut run = RecRun::start(true, None);
        let analytics = RecReply::Analytics(Ok((vec![], Some(rating))));
        assert!(run.can_advance(&analytics, 5));
        run.advance(analytics, 5);
        let failed = RecReply::Problemset(Err("network: down".to_string()));
        assert!(run.can_advance(&failed, 5));
        let next = run.advance(failed, 5);
        assert!(!next.save_cache);
        assert_eq!(finished(next.action), Err("network: down".to_string()));
    }
}

#[test]
fn only_the_ranking_needs_the_band() {
    let at = |rating: i32, handle: Option<&str>| {
        let mut run = RecRun::start(false, handle.map(|h| h.to_string()));
        run.advance(RecReply::Analytics(Ok((vec![], Some(rating)))), 90000);
        run
    };
    let far = at(i32::MAX, None);
    assert!(!far.can_advance(&RecReply::Cache(cached(90000)), 90000));
    assert!(far.can_advance(&RecReply::Cache(cached(3600)), 90000));
    assert!(far.can_advance(&RecReply::Cache(None), 90000));
    assert!(!far.can_advance(&RecReply::Problemset(Ok(vec![])), 90000));
    assert!(!far.can_advance(&RecReply::Solved(Err(String::new())), 90000));
    let named = at(i32::MAX, Some("me"));
    assert!(named.can_advance(&RecReply::Cache(cached(90000)), 90000));
    assert!(named.can_advance(&RecReply::Problemset(Ok(vec![])), 90000));
    assert!(!named.can_advance(&RecReply::Solved(Ok(SolvedSet::new())), 90000));
    let near = at(i32::MAX - 200, None);
    assert!(near.can_advance(&RecReply::Problemset(Ok(vec![])), 90000));
    assert!(near.can_advance(&RecReply::Solved(Ok(SolvedSet::new())), 90000));
}

//! What the events of a session do to its state, told for each part of the state: when it changes,
//! and to what.

use vstd::prelude::*;

use crate::app;
use crate::app::{
    AppState, AppView, EffectView, EventView, Flow, KeyCode, RecsView, Selection,
};
use crate::judge::VerdictView;

verus! {

/// Whether the key of a character was pressed.
pub open spec fn pressed(e: EventView, c: char) -> bool {
    e matches EventView::Key(key) && key.code == KeyCode::Char(c)
}

/// Whether a key to move down was pressed.
pub open spec fn pressed_down(e: EventView) -> bool {
    pressed(e, 'j') || (e matches EventView::Key(key) && key.code == KeyCode::Down)
}

/// Whether a key to move up was pressed.
pub open spec fn pressed_up(e: EventView) -> bool {
    pressed(e, 'k') || (e matches EventView::Key(key) && key.code == KeyCode::Up)
}

/// Whether the escape key was pressed.
pub open spec fn pressed_escape(e: EventView) -> bool {
    e matches EventView::Key(key) && key.code == KeyCode::Esc
}

/// Whether the problem is put aside: by a reset, or since the current push has succeeded.
pub open spec fn puts_aside(a: AppView, e: EventView) -> bool {
    pressed(e, 'r') || (e matches EventView::Pushed { run } && run == a.run)
}

/// Whether a test run begins: it is asked for, and there is a problem that is not in use.
pub open spec fn begins_test(a: AppView, e: EventView) -> bool {
    &&& e is StartTesting
    &&& a.problem is Some
    &&& a.state == AppState::Loaded || a.state == AppState::Review
}

/// Whether a push begins: it is asked for, and there is a problem whose verdicts are shown and
/// whose solution compiles.
pub open spec fn begins_push(a: AppView, e: EventView) -> bool {
    &&& e is StartPush
    &&& a.problem is Some
    &&& a.state == AppState::Review
    &&& a.build_error is None
}

/// Whether the current run has compiled.
pub open spec fn has_compiled(a: AppView, e: EventView) -> bool {
    e matches EventView::Compiled { run } && run == a.run
}

/// Whether the current run does not compile.
pub open spec fn does_not_compile(a: AppView, e: EventView) -> bool {
    e matches EventView::CompileFailed { run, stderr } && run == a.run
}

/// Whether the current push has failed.
pub open spec fn push_failed(a: AppView, e: EventView) -> bool {
    e matches EventView::PushFailed { run, stderr } && run == a.run
}

/// Whether a verdict of the current run has come.
pub open spec fn is_verdict(a: AppView, e: EventView) -> bool {
    e matches EventView::TestResult { run, index, verdict } && run == a.run
}

/// Whether each sample has its verdict, and there is one.
pub open spec fn is_complete(results: Seq<Option<VerdictView>>) -> bool {
    results.len() > 0 && forall|i: int| 0 <= i < results.len() ==> (#[trigger] results[i]) is Some
}

/// Whether each sample has passed, and there is one.
pub open spec fn is_full_pass(results: Seq<Option<VerdictView>>) -> bool {
    results.len() > 0 && forall|i: int|
        0 <= i < results.len() ==> (#[trigger] results[i]) is Some && results[i]->0 is Pass
}

/// The verdict on a sample stands at that sample, and every other stands as it was; a verdict on a
/// sample that is not there changes none.
pub proof fn law_verdicts_have_their_place(
    a: AppView,
    index: usize,
    verdict: VerdictView,
    now: u64,
)
    requires
        a.run <= u64::MAX,
        a.run >= 0,
    ensures
        ({
            let e = EventView::TestResult { run: a.run as u64, index, verdict };
            let b = app::step(a, e, now).app;
            &&& b.results.len() == a.results.len()
            &&& index < a.results.len() ==> b.results[index as int] == Some(verdict)
            &&& forall|k: int|
                0 <= k < a.results.len() && k != index ==> #[trigger] b.results[k] == a.results[k]
        }),
{
}

/// The verdicts: none once the problem is put aside or another is loaded; one missing for each
/// sample when a test run begins; and else as they were but for one that comes.
pub proof fn law_results(a: AppView, e: EventView, now: u64)
    ensures
        ({
            let b = app::step(a, e, now).app;
            &&& puts_aside(a, e) || e is ProblemLoaded ==> b.results.len() == 0
            &&& begins_test(a, e) ==> {
                &&& b.results.len() == a.problem->0.test_cases.len()
                &&& forall|i: int| 0 <= i < b.results.len() ==> (#[trigger] b.results[i]) is None
            }
            &&& !puts_aside(a, e) && !(e is ProblemLoaded) && !begins_test(a, e) && !is_verdict(
                a,
                e,
            ) ==> b.results == a.results
            &&& e matches EventView::TestResult { run, index, verdict } ==> {
                &&& b.results.len() == a.results.len()
                &&& run == a.run && index < a.results.len() ==> b.results[index as int] == Some(
                    verdict,
                )
                &&& forall|k: int|
                    0 <= k < a.results.len() && k != index ==> #[trigger] b.results[k]
                        == a.results[k]
            }
        }),
{
}

/// The problem: the one that was loaded last, until it is put aside.
pub proof fn law_problem(a: AppView, e: EventView, now: u64)
    ensures
        ({
            let b = app::step(a, e, now).app;
            &&& e matches EventView::ProblemLoaded(p) ==> b.problem == Some(p)
            &&& puts_aside(a, e) ==> b.problem is None
            &&& !(e is ProblemLoaded) && !puts_aside(a, e) ==> b.problem == a.problem
        }),
{
}

/// The compiler's complaint: that of the current run, until another begins or the problem changes.
pub proof fn law_build_error(a: AppView, e: EventView, now: u64)
    ensures
        ({
            let b = app::step(a, e, now).app;
            let ended = puts_aside(a, e) || e is ProblemLoaded || begins_test(a, e);
            &&& does_not_compile(a, e) ==> b.build_error == Some(e->CompileFailed_stderr)
            &&& ended ==> b.build_error is None
            &&& !ended && !does_not_compile(a, e) ==> b.build_error == a.build_error
        }),
{
}

/// The complaint about a push: that of the current one, until something else begins or the problem
/// changes.
pub proof fn law_push_error(a: AppView, e: EventView, now: u64)
    ensures
        ({
            let b = app::step(a, e, now).app;
            let ended = puts_aside(a, e) || e is ProblemLoaded || begins_test(a, e) || begins_push(
                a,
                e,
            );
            &&& push_failed(a, e) ==> b.push_error == Some(e->PushFailed_stderr)
            &&& ended ==> b.push_error is None
            &&& !ended && !push_failed(a, e) ==> b.push_error == a.push_error
        }),
{
}

/// The run: it gets the next number exactly when the problem is reset or another is loaded, and when
/// a test run or a push begins.
pub proof fn law_run(a: AppView, e: EventView, now: u64)
    ensures
        app::step(a, e, now).app.run == if pressed(e, 'r') || e is ProblemLoaded || begins_test(
            a,
            e,
        ) || begins_push(a, e) {
            a.run + 1
        } else {
            a.run
        },
{
}

/// What is shown or done: each event leads to the state that it is for, from the states in which it
/// means something, and from no other.
pub proof fn law_state(a: AppView, e: EventView, now: u64)
    ensures
        ({
            let b = app::step(a, e, now).app;
            let enters = pressed(e, 'd') && a.state == AppState::Review && a.results.len() > 0;
            let leaves = (pressed(e, 'd') || pressed_escape(e)) && a.state == AppState::FullDiff;
            let completes = is_verdict(a, e) && is_complete(b.results);
            &&& puts_aside(a, e) ==> b.state == AppState::Idle
            &&& e is ProblemLoaded ==> b.state == AppState::Loaded
            &&& begins_test(a, e) ==> b.state == AppState::Compiling
            &&& has_compiled(a, e) ==> b.state == AppState::Testing
            &&& does_not_compile(a, e) || completes || push_failed(a, e) || leaves ==> b.state
                == AppState::Review
            &&& begins_push(a, e) ==> b.state == AppState::GitSyncing
            &&& enters ==> b.state == AppState::FullDiff
            &&& !puts_aside(a, e) && !(e is ProblemLoaded) && !begins_test(a, e) && !has_compiled(
                a,
                e,
            ) && !does_not_compile(a, e) && !completes && !push_failed(a, e) && !leaves
                && !begins_push(a, e) && !enters ==> b.state == a.state
        }),
{
}

/// The recorded problems: one is added exactly when the verdicts have become a full pass of a
/// problem that is not among them, and that is when it is to be recorded.
pub proof fn law_recorded(a: AppView, e: EventView, now: u64)
    ensures
        ({
            let o = app::step(a, e, now);
            let key = (a.problem->0.contest_id, a.problem->0.index);
            let solved = is_verdict(a, e) && is_full_pass(o.app.results) && a.problem is Some
                && !a.recorded.contains(key);
            &&& solved ==> o.app.recorded == a.recorded.insert(key)
            &&& !solved ==> o.app.recorded == a.recorded
            &&& o.effect is RecordSolve <==> solved
        }),
{
    let o = app::step(a, e, now);
    if is_verdict(a, e) {
        let r = o.app.results;
        assert(app::all_finished(r) && app::all_passed(r) <==> is_full_pass(r)) by {
            if is_full_pass(r) {
                assert forall|i: int| 0 <= i < r.len() implies (#[trigger] r[i]) is Some by {}
            }
        }
    }
}

/// The user: no event changes what is known of them.
pub proof fn law_user(a: AppView, e: EventView, now: u64)
    ensures
        app::step(a, e, now).app.weak_tags == a.weak_tags,
        app::step(a, e, now).app.user_max_rating == a.user_max_rating,
        app::step(a, e, now).app.cf_handle == a.cf_handle,
{
}

/// The recommendations: under way once they are asked for on the dashboard, and then what came of
/// it.
pub proof fn law_recs(a: AppView, e: EventView, now: u64)
    ensures
        ({
            let b = app::step(a, e, now).app;
            let asked = e is StartFetchRecs && a.state == AppState::Idle;
            &&& asked ==> b.recs is Loading
            &&& e matches EventView::Recommended(recs) ==> b.recs == RecsView::Loaded(recs)
            &&& e matches EventView::RecommendFailed(m) ==> b.recs == RecsView::Error(m)
            &&& !asked && !(e is Recommended) && !(e is RecommendFailed) ==> b.recs == a.recs
        }),
{
}

/// Where the cursor of a list of `len` items is after a key: one further down or up, but within the
/// list, and on the first item where it was nowhere; an empty list leaves it.
pub open spec fn moved(s: Selection, len: nat, down: bool) -> Option<usize> {
    if len == 0 {
        s.selected
    } else {
        match s.selected {
            None => Some(0),
            Some(i) => if down {
                Some(
                    if i + 1 < len {
                        (i + 1) as usize
                    } else {
                        (len - 1) as usize
                    },
                )
            } else {
                Some(
                    if i > 0 {
                        (i - 1) as usize
                    } else {
                        0
                    },
                )
            },
        }
    }
}

/// The cursor of the recommendations: on the first once they have come, or nowhere where there are
/// none; it moves with the keys while the dashboard shows them, and not otherwise.
pub proof fn law_recs_cursor(a: AppView, e: EventView, now: u64)
    ensures
        ({
            let b = app::step(a, e, now).app;
            let moves = (pressed_down(e) || pressed_up(e)) && a.state == AppState::Idle
                && a.recs is Loaded;
            &&& e matches EventView::Recommended(recs) ==> b.recs_selected.selected
                == if recs.len() > 0 {
                Some(0usize)
            } else {
                None
            }
            &&& moves ==> b.recs_selected.selected == moved(
                a.recs_selected,
                a.recs->Loaded_0.len(),
                pressed_down(e),
            ) && b.recs_selected.offset == a.recs_selected.offset
            &&& e matches EventView::Recommended(recs) ==> b.recs_selected.offset == if recs.len()
                > 0 {
                a.recs_selected.offset
            } else {
                0
            }
            &&& !moves && !(e is Recommended) ==> b.recs_selected == a.recs_selected
        }),
{
}

/// The cursor of the samples: on the first once a test run begins, nowhere once the problem
/// changes; it moves with the keys while the samples are shown, and not otherwise.
pub proof fn law_results_cursor(a: AppView, e: EventView, now: u64)
    ensures
        ({
            let b = app::step(a, e, now).app;
            let moves = (pressed_down(e) || pressed_up(e)) && (a.state == AppState::Review
                || a.state == AppState::Testing);
            let gone = puts_aside(a, e) || e is ProblemLoaded;
            &&& begins_test(a, e) ==> b.results_selected.selected == Some(0usize)
            &&& begins_test(a, e) || moves ==> b.results_selected.offset
                == a.results_selected.offset
            &&& gone ==> b.results_selected == (Selection { selected: None, offset: 0 })
            &&& moves ==> b.results_selected.selected == moved(
                a.results_selected,
                a.results.len(),
                pressed_down(e),
            )
            &&& !moves && !gone && !begins_test(a, e) ==> b.results_selected == a.results_selected
        }),
{
}

/// The spinner: one picture further with each tick while something is under way, and not otherwise.
pub proof fn law_spinner(a: AppView, e: EventView, now: u64)
    ensures
        ({
            let b = app::step(a, e, now).app;
            let busy = a.state == AppState::Compiling || a.state == AppState::Testing || a.state
                == AppState::GitSyncing || a.recs is Loading;
            &&& e is Tick && busy && a.spinner < usize::MAX ==> b.spinner == a.spinner + 1
            &&& e is Tick && busy && a.spinner == usize::MAX ==> b.spinner == 0
            &&& !(e is Tick && busy) ==> b.spinner == a.spinner
        }),
{
}

/// The timer: started when a problem is loaded, stopped when it is put aside.
pub proof fn law_timer(a: AppView, e: EventView, now: u64)
    ensures
        ({
            let b = app::step(a, e, now).app;
            &&& e is ProblemLoaded ==> b.started_at == Some(now)
            &&& puts_aside(a, e) ==> b.started_at is None
            &&& !(e is ProblemLoaded) && !puts_aside(a, e) ==> b.started_at == a.started_at
        }),
{
}

/// The offset of the full view: at the beginning when it is entered or left, one line further with
/// each key while it is shown, and not otherwise.
pub proof fn law_scrolling(a: AppView, e: EventView, now: u64)
    ensures
        ({
            let b = app::step(a, e, now).app;
            let shown = a.state == AppState::FullDiff;
            let begins = puts_aside(a, e) || (pressed(e, 'd') && a.state == AppState::Review
                && a.results.len() > 0) || ((pressed(e, 'd') || pressed_escape(e)) && shown);
            &&& begins ==> b.diff_offset == 0
            &&& shown && pressed_down(e) && a.diff_offset < u16::MAX ==> b.diff_offset
                == a.diff_offset + 1
            &&& shown && pressed_down(e) && a.diff_offset == u16::MAX ==> b.diff_offset
                == u16::MAX
            &&& shown && pressed_up(e) && a.diff_offset > 0 ==> b.diff_offset == a.diff_offset - 1
            &&& shown && pressed_up(e) && a.diff_offset == 0 ==> b.diff_offset == 0
            &&& !begins && !(shown && (pressed_down(e) || pressed_up(e))) ==> b.diff_offset
                == a.diff_offset
        }),
{
}

/// The screen: drawn anew after every event, but for late results, ticks of what is not on screen,
/// and a request for recommendations outside of the dashboard.
pub proof fn law_flow(a: AppView, e: EventView, now: u64)
    ensures
        ({
            let f = app::step(a, e, now).flow;
            let quits = pressed(e, 'q') || (e matches EventView::Key(key) && key.code
                == KeyCode::Char('c') && key.ctrl);
            let late = match app::run_of(e) {
                Some(run) => run != a.run,
                None => false,
            };
            let busy = a.state == AppState::Compiling || a.state == AppState::Testing || a.state
                == AppState::GitSyncing || a.recs is Loading;
            let hidden = e is TimerTick && (a.started_at is None || a.state
                == AppState::FullDiff);
            let skips = late || (e is Tick && !busy) || hidden || (e is StartFetchRecs && a.state
                != AppState::Idle);
            &&& f == Flow::Quit <==> quits
            &&& f == Flow::Skip <==> skips
            &&& f == Flow::Redraw <==> !quits && !skips
        }),
{
}

/// What is done outside of the state: the keys ask for what they are for where it can be done, what
/// was asked for begins with the number of the new run, and nothing else is done.
pub proof fn law_effects(a: AppView, e: EventView, now: u64)
    ensures
        ({
            let o = app::step(a, e, now);
            let idle = a.state == AppState::Idle;
            let ready = a.state == AppState::Loaded || a.state == AppState::Review;
            let opens = pressed(e, 'o') && idle && a.recs is Loaded
                && a.recs_selected.selected is Some && a.recs_selected.selected->0
                < a.recs->Loaded_0.len();
            let fetches = e is StartFetchRecs && idle && !(a.recs is Loading);
            &&& o.effect is RequestTesting <==> pressed(e, 't') && ready
            &&& o.effect is RequestPush <==> pressed(e, 'p') && a.state == AppState::Review
            &&& o.effect is RequestRecs <==> pressed(e, 'f') && idle
            &&& o.effect matches EffectView::RequestRecs { force_refresh } ==> force_refresh
            &&& o.effect is OpenUrl <==> opens
            &&& o.effect matches EffectView::OpenUrl(url) ==> url
                == a.recs->Loaded_0[a.recs_selected.selected->0 as int].url
            &&& o.effect is RunTests <==> begins_test(a, e)
            &&& o.effect matches EffectView::RunTests { run } ==> run == a.run + 1
            &&& o.effect is Push <==> begins_push(a, e)
            &&& o.effect matches EffectView::Push { run } ==> run == a.run + 1
            &&& o.effect is FetchRecs <==> fetches
            &&& o.effect matches EffectView::FetchRecs { force_refresh } ==> force_refresh
                == e->StartFetchRecs_force_refresh
        }),
{
}

/// At the start there is nothing but the handle of the user.
pub proof fn law_start(cf_handle: Option<Seq<char>>)
    ensures
        ({
            let a = app::initial(cf_handle);
            &&& a.state == AppState::Idle && a.problem is None && a.results.len() == 0
            &&& a.build_error is None && a.push_error is None && a.started_at is None
            &&& a.recorded == Set::<(Seq<char>, Seq<char>)>::empty()
            &&& a.weak_tags.len() == 0 && a.user_max_rating is None && a.recs is Idle
            &&& a.recs_selected.selected is None && a.results_selected.selected is None
            &&& a.cf_handle == cf_handle
            &&& a.run == 0 && a.spinner == 0 && a.diff_offset == 0
        }),
{
}

} // verus!

//! The state of the program and how each event changes it.

use vstd::prelude::*;

use crate::judge::{Verdict, VerdictView};
use crate::problem::{Problem, ProblemView};
use crate::recommend;
use crate::recommend::{Recommendation, RecommendationView};
use crate::text;

verus! {

/// What the program is showing or doing.
#[derive(Debug, Clone, Copy, PartialEq, Eq, Structural)]
pub enum AppState {
    Idle,
    Loaded,
    Compiling,
    Testing,
    Review,
    GitSyncing,
    FullDiff,
}

/// The recommendations, as far as they have come.
#[derive(Debug)]
pub enum RecsState {
    Idle,
    Loading,
    Loaded(Vec<Recommendation>),
    Error(String),
}

#[verifier::ext_equal]
pub enum RecsView {
    Idle,
    Loading,
    Loaded(Seq<RecommendationView>),
    Error(Seq<char>),
}

impl View for RecsState {
    type V = RecsView;

    open spec fn view(&self) -> RecsView {
        match *self {
            RecsState::Idle => RecsView::Idle,
            RecsState::Loading => RecsView::Loading,
            RecsState::Loaded(recs) => RecsView::Loaded(recommend::recs_view(recs@)),
            RecsState::Error(message) => RecsView::Error(message@),
        }
    }
}

/// The cursor of a list: the selected item, and the first item on screen.
#[derive(Debug, Clone, Copy, PartialEq, Eq, Structural)]
pub struct Selection {
    pub selected: Option<usize>,
    pub offset: usize,
}

/// A cursor that selects nothing.
pub open spec fn no_selection() -> Selection {
    Selection { selected: None, offset: 0 }
}

impl Selection {
    /// The cursor after selecting `index`; with nothing selected the list shows its beginning.
    pub open spec fn selecting(self, index: Option<usize>) -> Selection {
        Selection {
            selected: index,
            offset: if index is None {
                0
            } else {
                self.offset
            },
        }
    }

    /// The cursor one item further down a list of `len` items: on the first item where none was
    /// selected, and never behind the last.
    pub open spec fn moved_down(self, len: nat) -> Selection {
        if len == 0 {
            self
        } else {
            self.selecting(
                Some(
                    match self.selected {
                        Some(i) => if i + 1 < len {
                            (i + 1) as usize
                        } else {
                            (len - 1) as usize
                        },
                        None => 0,
                    },
                ),
            )
        }
    }

    /// The cursor one item further up a list of `len` items: on the first item where none was
    /// selected or it was the first.
    pub open spec fn moved_up(self, len: nat) -> Selection {
        if len == 0 {
            self
        } else {
            self.selecting(
                Some(
                    match self.selected {
                        Some(i) => if i > 0 {
                            (i - 1) as usize
                        } else {
                            0
                        },
                        None => 0,
                    },
                ),
            )
        }
    }

    /// A cursor that selects nothing.
    pub fn none() -> (r: Selection)
        ensures
            r == no_selection(),
    {
        Selection { selected: None, offset: 0 }
    }

    /// Selects `index`.
    pub fn select(&mut self, index: Option<usize>)
        ensures
            *final(self) == old(self).selecting(index),
    {
        self.selected = index;
        if index.is_none() {
            self.offset = 0;
        }
    }

    /// Moves down a list of `len` items.
    pub fn move_down(&mut self, len: usize)
        ensures
            *final(self) == old(self).moved_down(len as nat),
    {
        if len > 0 {
            let next: usize = match self.selected {
                Some(i) => if i < len - 1 {
                    i + 1
                } else {
                    len - 1
                },
                None => 0,
            };
            self.select(Some(next));
        }
    }

    /// Moves up a list of `len` items.
    pub fn move_up(&mut self, len: usize)
        ensures
            *final(self) == old(self).moved_up(len as nat),
    {
        if len > 0 {
            let next: usize = match self.selected {
                Some(i) => i.saturating_sub(1),
                None => 0,
            };
            self.select(Some(next));
        }
    }
}

/// The problems recorded as solved in this session, as pairs of contest and index.
#[derive(Debug)]
pub struct RecordedSet {
    pairs: Vec<(String, String)>,
}

impl View for RecordedSet {
    type V = Set<(Seq<char>, Seq<char>)>;

    closed spec fn view(&self) -> Set<(Seq<char>, Seq<char>)> {
        Set::new(
            |key: (Seq<char>, Seq<char>)|
                exists|i: int|
                    0 <= i < self.pairs@.len() && (#[trigger] self.pairs@[i]).0@ == key.0
                        && self.pairs@[i].1@ == key.1,
        )
    }
}

impl RecordedSet {
    /// Nothing recorded yet.
    pub fn new() -> (r: RecordedSet)
        ensures
            r@ == Set::<(Seq<char>, Seq<char>)>::empty(),
    {
        let r = RecordedSet { pairs: Vec::new() };
        proof {
            assert(r@ =~= Set::<(Seq<char>, Seq<char>)>::empty());
        }
        r
    }

    /// Whether a problem is recorded.
    pub fn contains(&self, contest_id: &String, index: &String) -> (r: bool)
        ensures
            r == self@.contains((contest_id@, index@)),
    {
        let mut i: usize = 0;
        while i < self.pairs.len()
            invariant
                i <= self.pairs.len(),
                forall|k: int|
                    0 <= k < i ==> !((#[trigger] self.pairs@[k]).0@ == contest_id@
                        && self.pairs@[k].1@ == index@),
            decreases self.pairs.len() - i,
        {
            if self.pairs[i].0 == *contest_id && self.pairs[i].1 == *index {
                return true;
            }
            i += 1;
        }
        false
    }

    /// Adds a problem.
    pub fn insert(&mut self, contest_id: String, index: String)
        ensures
            final(self)@ == old(self)@.insert((contest_id@, index@)),
    {
        let ghost before = self.pairs@;
        let ghost key = (contest_id@, index@);
        self.pairs.push((contest_id, index));
        proof {
            let after = self.pairs@;
            assert forall|k: (Seq<char>, Seq<char>)| #[trigger] self@.contains(k) == old(
                self,
            )@.insert(key).contains(k) by {
                if self@.contains(k) {
                    let i = choose|i: int|
                        0 <= i < after.len() && (#[trigger] after[i]).0@ == k.0 && after[i].1@
                            == k.1;
                    if i < before.len() {
                        assert(before[i] == after[i]);
                    }
                }
                if old(self)@.contains(k) {
                    let i = choose|i: int|
                        0 <= i < before.len() && (#[trigger] before[i]).0@ == k.0 && before[i].1@
                            == k.1;
                    assert(after[i] == before[i]);
                }
                assert(after[before.len() as int].0@ == key.0);
            }
            assert(self@ =~= old(self)@.insert(key));
        }
    }
}

/// The whole state of the program.
#[derive(Debug)]
pub struct App {
    pub state: AppState,
    pub problem: Option<Problem>,
    /// One slot per sample of the current run; `None` while it has not finished.
    pub results: Vec<Option<Verdict>>,
    /// Set where compiling failed; shown in place of the verdicts.
    pub build_error: Option<String>,
    /// The last step of git that failed.
    pub push_error: Option<String>,
    /// The problems recorded in this session, so that a second run does not record them again.
    pub recorded: RecordedSet,
    pub weak_tags: Vec<String>,
    pub user_max_rating: Option<i32>,
    pub recs: RecsState,
    pub recs_selected: Selection,
    pub results_selected: Selection,
    pub cf_handle: Option<String>,
    /// The number of the current run. Events of a run carry its number; those of an earlier run
    /// are dropped.
    pub run: u64,
    pub spinner: usize,
    /// When the problem was loaded, in nanoseconds of a monotonic clock.
    pub started_at: Option<u64>,
    /// The first line on screen in the full view of a sample.
    pub diff_offset: u16,
}

#[verifier::ext_equal]
pub struct AppView {
    pub state: AppState,
    pub problem: Option<ProblemView>,
    pub results: Seq<Option<VerdictView>>,
    pub build_error: Option<Seq<char>>,
    pub push_error: Option<Seq<char>>,
    pub recorded: Set<(Seq<char>, Seq<char>)>,
    pub weak_tags: Seq<Seq<char>>,
    pub user_max_rating: Option<i32>,
    pub recs: RecsView,
    pub recs_selected: Selection,
    pub results_selected: Selection,
    pub cf_handle: Option<Seq<char>>,
    pub run: int,
    pub spinner: usize,
    pub started_at: Option<u64>,
    pub diff_offset: u16,
}

/// The verdict in a slot.
pub open spec fn slot_view(slot: Option<Verdict>) -> Option<VerdictView> {
    match slot {
        Some(verdict) => Some(verdict@),
        None => None,
    }
}

/// The verdicts of a run.
pub open spec fn results_view(results: Seq<Option<Verdict>>) -> Seq<Option<VerdictView>> {
    Seq::new(results.len(), |i: int| slot_view(results[i]))
}

/// The loaded problem.
pub open spec fn problem_view(problem: Option<Problem>) -> Option<ProblemView> {
    match problem {
        Some(p) => Some(p@),
        None => None,
    }
}

impl View for App {
    type V = AppView;

    open spec fn view(&self) -> AppView {
        AppView {
            state: self.state,
            problem: problem_view(self.problem),
            results: results_view(self.results@),
            build_error: text::opt_text(self.build_error),
            push_error: text::opt_text(self.push_error),
            recorded: self.recorded@,
            weak_tags: text::texts(self.weak_tags@),
            user_max_rating: self.user_max_rating,
            recs: self.recs@,
            recs_selected: self.recs_selected,
            results_selected: self.results_selected,
            cf_handle: text::opt_text(self.cf_handle),
            run: self.run as int,
            spinner: self.spinner,
            started_at: self.started_at,
            diff_offset: self.diff_offset,
        }
    }
}

/// The state in which the program starts.
pub open spec fn initial(cf_handle: Option<Seq<char>>) -> AppView {
    AppView {
        state: AppState::Idle,
        problem: None,
        results: Seq::empty(),
        build_error: None,
        push_error: None,
        recorded: Set::empty(),
        weak_tags: Seq::empty(),
        user_max_rating: None,
        recs: RecsView::Idle,
        recs_selected: no_selection(),
        results_selected: no_selection(),
        cf_handle,
        run: 0,
        spinner: 0,
        started_at: None,
        diff_offset: 0,
    }
}

impl AppView {
    /// What holds of every state: the verdicts of a run are those of the loaded problem's
    /// samples, one each, and a cursor selects an item that its list has.
    pub open spec fn wf(self) -> bool {
        &&& self.results.len() > 0 ==> {
            &&& self.problem matches Some(p)
            &&& self.results.len() == p.test_cases.len()
        }
        &&& self.results.len() > 0 ==> {
            self.results_selected.selected matches Some(i) ==> i < self.results.len()
        }
        &&& self.recs matches RecsView::Loaded(recs) ==> {
            self.recs_selected.selected matches Some(i) ==> i < recs.len()
        }
    }
}

/// A key.
#[derive(Debug, Clone, Copy, PartialEq, Eq, Structural)]
pub enum KeyCode {
    Char(char),
    Up,
    Down,
    Esc,
    Other,
}

/// A key that was pressed, and whether the control key was held.
#[derive(Debug, Clone, Copy, PartialEq, Eq, Structural)]
pub struct Key {
    pub code: KeyCode,
    pub ctrl: bool,
}

/// What the program reacts to.
#[derive(Debug)]
pub enum AppEvent {
    Key(Key),
    ProblemLoaded(Problem),
    StartTesting,
    CompileResult { run: u64, result: Result<(), String> },
    TestResult { run: u64, index: usize, verdict: Verdict },
    StartPush,
    PushResult { run: u64, result: Result<String, String> },
    StartFetchRecs { force_refresh: bool },
    RecommendationsReady(Result<Vec<Recommendation>, String>),
    Tick,
    TimerTick,
    Resize,
}

#[verifier::ext_equal]
pub enum EventView {
    Key(Key),
    ProblemLoaded(ProblemView),
    StartTesting,
    Compiled { run: u64 },
    CompileFailed { run: u64, stderr: Seq<char> },
    TestResult { run: u64, index: usize, verdict: VerdictView },
    StartPush,
    Pushed { run: u64 },
    PushFailed { run: u64, stderr: Seq<char> },
    StartFetchRecs { force_refresh: bool },
    Recommended(Seq<RecommendationView>),
    RecommendFailed(Seq<char>),
    Tick,
    TimerTick,
    Resize,
}

impl View for AppEvent {
    type V = EventView;

    open spec fn view(&self) -> EventView {
        match *self {
            AppEvent::Key(key) => EventView::Key(key),
            AppEvent::ProblemLoaded(problem) => EventView::ProblemLoaded(problem@),
            AppEvent::StartTesting => EventView::StartTesting,
            AppEvent::CompileResult { run, result } => match result {
                Ok(_) => EventView::Compiled { run },
                Err(stderr) => EventView::CompileFailed { run, stderr: stderr@ },
            },
            AppEvent::TestResult { run, index, verdict } => EventView::TestResult {
                run,
                index,
                verdict: verdict@,
            },
            AppEvent::StartPush => EventView::StartPush,
            AppEvent::PushResult { run, result } => match result {
                Ok(_) => EventView::Pushed { run },
                Err(stderr) => EventView::PushFailed { run, stderr: stderr@ },
            },
            AppEvent::StartFetchRecs { force_refresh } => EventView::StartFetchRecs {
                force_refresh,
            },
            AppEvent::RecommendationsReady(result) => match result {
                Ok(recs) => EventView::Recommended(recommend::recs_view(recs@)),
                Err(message) => EventView::RecommendFailed(message@),
            },
            AppEvent::Tick => EventView::Tick,
            AppEvent::TimerTick => EventView::TimerTick,
            AppEvent::Resize => EventView::Resize,
        }
    }
}

/// What happens after an event.
#[derive(Debug, Clone, Copy, PartialEq, Eq, Structural)]
pub enum Flow {
    /// The program ends.
    Quit,
    /// Nothing that is on screen has changed.
    Skip,
    Redraw,
}

/// What is to be done outside of the state.
#[derive(Debug)]
pub enum Effect {
    Nothing,
    /// Post [`AppEvent::StartTesting`].
    RequestTesting,
    /// Post [`AppEvent::StartPush`].
    RequestPush,
    /// Post [`AppEvent::StartFetchRecs`].
    RequestRecs { force_refresh: bool },
    /// Open a page in the browser.
    OpenUrl(String),
    /// Compile and test the loaded problem.
    RunTests { run: u64 },
    /// Record the loaded problem as solved, and renew the analytics.
    RecordSolve,
    /// Fetch recommendations.
    FetchRecs { force_refresh: bool },
    /// Commit and push the loaded problem.
    Push { run: u64 },
}

#[verifier::ext_equal]
pub enum EffectView {
    Nothing,
    RequestTesting,
    RequestPush,
    RequestRecs { force_refresh: bool },
    OpenUrl(Seq<char>),
    RunTests { run: int },
    RecordSolve,
    FetchRecs { force_refresh: bool },
    Push { run: int },
}

impl View for Effect {
    type V = EffectView;

    open spec fn view(&self) -> EffectView {
        match *self {
            Effect::Nothing => EffectView::Nothing,
            Effect::RequestTesting => EffectView::RequestTesting,
            Effect::RequestPush => EffectView::RequestPush,
            Effect::RequestRecs { force_refresh } => EffectView::RequestRecs { force_refresh },
            Effect::OpenUrl(url) => EffectView::OpenUrl(url@),
            Effect::RunTests { run } => EffectView::RunTests { run: run as int },
            Effect::RecordSolve => EffectView::RecordSolve,
            Effect::FetchRecs { force_refresh } => EffectView::FetchRecs { force_refresh },
            Effect::Push { run } => EffectView::Push { run: run as int },
        }
    }
}

/// The state after an event, what happens next, and what is to be done.
#[verifier::ext_equal]
pub struct Outcome {
    pub app: AppView,
    pub flow: Flow,
    pub effect: EffectView,
}

pub open spec fn redraw(app: AppView) -> Outcome {
    Outcome { app, flow: Flow::Redraw, effect: EffectView::Nothing }
}

pub open spec fn redraw_with(app: AppView, effect: EffectView) -> Outcome {
    Outcome { app, flow: Flow::Redraw, effect }
}

pub open spec fn skip(app: AppView) -> Outcome {
    Outcome { app, flow: Flow::Skip, effect: EffectView::Nothing }
}

/// The state without a problem: the dashboard.
pub open spec fn cleared(a: AppView) -> AppView {
    AppView {
        problem: None,
        results: Seq::empty(),
        results_selected: no_selection(),
        build_error: None,
        push_error: None,
        state: AppState::Idle,
        started_at: None,
        diff_offset: 0,
        ..a
    }
}

/// Whether a key means down.
pub open spec fn is_down(code: KeyCode) -> bool {
    code == KeyCode::Down || code == KeyCode::Char('j')
}

/// Whether a key means up.
pub open spec fn is_up(code: KeyCode) -> bool {
    code == KeyCode::Up || code == KeyCode::Char('k')
}

/// What moving down does: it scrolls the full view, or moves the cursor of the list on screen.
pub open spec fn on_down(a: AppView) -> AppView {
    match a.state {
        AppState::FullDiff => AppView {
            diff_offset: if a.diff_offset < u16::MAX {
                (a.diff_offset + 1) as u16
            } else {
                a.diff_offset
            },
            ..a
        },
        AppState::Idle => match a.recs {
            RecsView::Loaded(recs) => AppView {
                recs_selected: a.recs_selected.moved_down(recs.len()),
                ..a
            },
            _ => a,
        },
        AppState::Review | AppState::Testing => AppView {
            results_selected: a.results_selected.moved_down(a.results.len()),
            ..a
        },
        _ => a,
    }
}

/// What moving up does: it scrolls the full view, or moves the cursor of the list on screen.
pub open spec fn on_up(a: AppView) -> AppView {
    match a.state {
        AppState::FullDiff => AppView {
            diff_offset: if a.diff_offset > 0 {
                (a.diff_offset - 1) as u16
            } else {
                0
            },
            ..a
        },
        AppState::Idle => match a.recs {
            RecsView::Loaded(recs) => AppView {
                recs_selected: a.recs_selected.moved_up(recs.len()),
                ..a
            },
            _ => a,
        },
        AppState::Review | AppState::Testing => AppView {
            results_selected: a.results_selected.moved_up(a.results.len()),
            ..a
        },
        _ => a,
    }
}

/// The page of the selected recommendation, if there is one.
pub open spec fn selected_url(a: AppView) -> Option<Seq<char>> {
    match (a.recs, a.recs_selected.selected) {
        (RecsView::Loaded(recs), Some(i)) => if i < recs.len() {
            Some(recs[i as int].url)
        } else {
            None
        },
        _ => None,
    }
}

/// What a key does.
pub open spec fn on_key(a: AppView, key: Key) -> Outcome {
    let code = key.code;
    if code == KeyCode::Char('q') || (code == KeyCode::Char('c') && key.ctrl) {
        Outcome { app: a, flow: Flow::Quit, effect: EffectView::Nothing }
    } else if code == KeyCode::Char('r') {
        redraw(AppView { run: a.run + 1, ..cleared(a) })
    } else if code == KeyCode::Char('t') && (a.state == AppState::Loaded || a.state
        == AppState::Review) {
        redraw_with(a, EffectView::RequestTesting)
    } else if code == KeyCode::Char('p') && a.state == AppState::Review {
        redraw_with(a, EffectView::RequestPush)
    } else if code == KeyCode::Char('d') && a.state == AppState::Review {
        if a.results.len() > 0 {
            redraw(AppView { diff_offset: 0, state: AppState::FullDiff, ..a })
        } else {
            redraw(a)
        }
    } else if (code == KeyCode::Char('d') || code == KeyCode::Esc) && a.state
        == AppState::FullDiff {
        redraw(AppView { diff_offset: 0, state: AppState::Review, ..a })
    } else if code == KeyCode::Char('f') && a.state == AppState::Idle {
        redraw_with(a, EffectView::RequestRecs { force_refresh: true })
    } else if code == KeyCode::Char('o') && a.state == AppState::Idle {
        match selected_url(a) {
            Some(url) => redraw_with(a, EffectView::OpenUrl(url)),
            None => redraw(a),
        }
    } else if is_down(code) {
        redraw(on_down(a))
    } else if is_up(code) {
        redraw(on_up(a))
    } else {
        redraw(a)
    }
}

/// The verdicts after that of sample `index` has come.
pub open spec fn with_verdict(
    results: Seq<Option<VerdictView>>,
    index: int,
    verdict: VerdictView,
) -> Seq<Option<VerdictView>> {
    if 0 <= index < results.len() {
        results.update(index, Some(verdict))
    } else {
        results
    }
}

/// Whether there are verdicts and none is missing.
pub open spec fn all_finished(results: Seq<Option<VerdictView>>) -> bool {
    results.len() > 0 && forall|i: int| 0 <= i < results.len() ==> (#[trigger] results[i]) is Some
}

/// Whether every sample has passed.
pub open spec fn all_passed(results: Seq<Option<VerdictView>>) -> bool {
    forall|i: int|
        0 <= i < results.len() ==> (#[trigger] results[i]) is Some && results[i]->0 is Pass
}

/// What the verdict on a sample does. With the last one the run is over; where all samples have
/// passed, the problem is recorded unless it was in this session.
pub open spec fn on_verdict(a: AppView, index: int, verdict: VerdictView) -> Outcome {
    let results = with_verdict(a.results, index, verdict);
    let b = AppView { results, ..a };
    if all_finished(results) {
        let c = AppView { state: AppState::Review, ..b };
        match a.problem {
            Some(p) => {
                let key = (p.contest_id, p.index);
                if all_passed(results) && !a.recorded.contains(key) {
                    redraw_with(
                        AppView { recorded: a.recorded.insert(key), ..c },
                        EffectView::RecordSolve,
                    )
                } else {
                    redraw(c)
                }
            },
            None => redraw(c),
        }
    } else {
        redraw(b)
    }
}

/// Whether an event is the result of a run that is no longer the current one.
pub open spec fn is_stale(a: AppView, e: EventView) -> bool {
    match e {
        EventView::Compiled { run } => run != a.run,
        EventView::CompileFailed { run, stderr } => run != a.run,
        EventView::TestResult { run, index, verdict } => run != a.run,
        EventView::Pushed { run } => run != a.run,
        EventView::PushFailed { run, stderr } => run != a.run,
        _ => false,
    }
}

/// Whether the spinner turns: something is under way that it stands for.
pub open spec fn is_spinning(a: AppView) -> bool {
    ||| a.state == AppState::Compiling
    ||| a.state == AppState::Testing
    ||| a.state == AppState::GitSyncing
    ||| a.recs is Loading
}

/// What an event does at the time `now`.
pub open spec fn step(a: AppView, e: EventView, now: u64) -> Outcome {
    if is_stale(a, e) {
        skip(a)
    } else {
        match e {
            EventView::Key(key) => on_key(a, key),
            EventView::ProblemLoaded(problem) => redraw(
                AppView {
                    run: a.run + 1,
                    problem: Some(problem),
                    results: Seq::empty(),
                    results_selected: no_selection(),
                    build_error: None,
                    push_error: None,
                    state: AppState::Loaded,
                    started_at: Some(now),
                    ..a
                },
            ),
            EventView::StartTesting => match a.problem {
                Some(p) => if a.state == AppState::Loaded || a.state == AppState::Review {
                    redraw_with(
                        AppView {
                            run: a.run + 1,
                            results: Seq::new(p.test_cases.len(), |i: int| None),
                            results_selected: a.results_selected.selecting(Some(0)),
                            build_error: None,
                            push_error: None,
                            state: AppState::Compiling,
                            ..a
                        },
                        EffectView::RunTests { run: a.run + 1 },
                    )
                } else {
                    redraw(a)
                },
                None => redraw(a),
            },
            EventView::Compiled { run } => redraw(AppView { state: AppState::Testing, ..a }),
            EventView::CompileFailed { run, stderr } => redraw(
                AppView { build_error: Some(stderr), state: AppState::Review, ..a },
            ),
            EventView::TestResult { run, index, verdict } => on_verdict(a, index as int, verdict),
            EventView::StartFetchRecs { force_refresh } => if a.state != AppState::Idle {
                skip(a)
            } else if a.recs is Loading {
                redraw(a)
            } else {
                redraw_with(
                    AppView { recs: RecsView::Loading, ..a },
                    EffectView::FetchRecs { force_refresh },
                )
            },
            EventView::Recommended(recs) => redraw(
                AppView {
                    recs_selected: a.recs_selected.selecting(
                        if recs.len() == 0 {
                            None
                        } else {
                            Some(0)
                        },
                    ),
                    recs: RecsView::Loaded(recs),
                    ..a
                },
            ),
            EventView::RecommendFailed(message) => redraw(
                AppView { recs: RecsView::Error(message), ..a },
            ),
            EventView::StartPush => if a.state == AppState::Review && a.build_error is None
                && a.problem is Some {
                redraw_with(
                    AppView {
                        run: a.run + 1,
                        push_error: None,
                        state: AppState::GitSyncing,
                        ..a
                    },
                    EffectView::Push { run: a.run + 1 },
                )
            } else {
                redraw(a)
            },
            EventView::Pushed { run } => redraw(cleared(a)),
            EventView::PushFailed { run, stderr } => redraw(
                AppView { push_error: Some(stderr), state: AppState::Review, ..a },
            ),
            EventView::Tick => if is_spinning(a) {
                redraw(
                    AppView {
                        spinner: if a.spinner < usize::MAX {
                            (a.spinner + 1) as usize
                        } else {
                            0
                        },
                        ..a
                    },
                )
            } else {
                skip(a)
            },
            EventView::TimerTick => if a.started_at is None || a.state == AppState::FullDiff {
                skip(a)
            } else {
                redraw(a)
            },
            EventView::Resize => redraw(a),
        }
    }
}

/// Whether an event gives the current run a new number.
pub open spec fn begins_run(a: AppView, e: EventView) -> bool {
    step(a, e, 0).app.run != a.run
}

/// What an event brought about.
#[derive(Debug)]
pub struct Step {
    pub flow: Flow,
    pub effect: Effect,
}

impl Step {
    /// Whether this is what `o` says is to happen.
    pub open spec fn is_of(self, o: Outcome) -> bool {
        self.flow == o.flow && self.effect@ == o.effect
    }
}

fn redraw_now() -> (r: Step)
    ensures
        r.flow == Flow::Redraw,
        r.effect@ == EffectView::Nothing,
{
    Step { flow: Flow::Redraw, effect: Effect::Nothing }
}

fn skip_now() -> (r: Step)
    ensures
        r.flow == Flow::Skip,
        r.effect@ == EffectView::Nothing,
{
    Step { flow: Flow::Skip, effect: Effect::Nothing }
}

impl App {
    /// The program at its start.
    pub fn new(cf_handle: Option<String>) -> (r: App)
        ensures
            r@ == initial(text::opt_text(cf_handle)),
            r@.wf(),
    {
        let r = App {
            state: AppState::Idle,
            problem: None,
            results: Vec::new(),
            build_error: None,
            push_error: None,
            recorded: RecordedSet::new(),
            weak_tags: Vec::new(),
            user_max_rating: None,
            recs: RecsState::Idle,
            recs_selected: Selection::none(),
            results_selected: Selection::none(),
            cf_handle,
            run: 0,
            spinner: 0,
            started_at: None,
            diff_offset: 0,
        };
        proof {
            assert(r@ =~= initial(text::opt_text(cf_handle)));
        }
        r
    }

    /// Takes over what the solve history shows.
    pub fn set_analytics(&mut self, weak_tags: Vec<String>, user_max_rating: Option<i32>)
        ensures
            final(self)@ == (AppView {
                weak_tags: text::texts(weak_tags@),
                user_max_rating,
                ..old(self)@
            }),
            old(self)@.wf() ==> final(self)@.wf(),
    {
        self.weak_tags = weak_tags;
        self.user_max_rating = user_max_rating;
    }

    /// Forgets the problem and shows the dashboard.
    fn clear(&mut self)
        ensures
            final(self)@ == cleared(old(self)@),
            final(self).run == old(self).run,
    {
        self.problem = None;
        self.results.clear();
        self.results_selected = Selection::none();
        self.build_error = None;
        self.push_error = None;
        self.state = AppState::Idle;
        self.started_at = None;
        self.diff_offset = 0;
        proof {
            assert(self@ =~= cleared(old(self)@));
        }
    }

    fn handle_down(&mut self)
        ensures
            final(self)@ == on_down(old(self)@),
    {
        match self.state {
            AppState::FullDiff => {
                self.diff_offset = self.diff_offset.saturating_add(1);
            },
            AppState::Idle => {
                if let RecsState::Loaded(recs) = &self.recs {
                    let len: usize = recs.len();
                    self.recs_selected.move_down(len);
                }
            },
            AppState::Review | AppState::Testing => {
                let len: usize = self.results.len();
                self.results_selected.move_down(len);
            },
            _ => {},
        }
    }

    fn handle_up(&mut self)
        ensures
            final(self)@ == on_up(old(self)@),
    {
        match self.state {
            AppState::FullDiff => {
                self.diff_offset = self.diff_offset.saturating_sub(1);
            },
            AppState::Idle => {
                if let RecsState::Loaded(recs) = &self.recs {
                    let len: usize = recs.len();
                    self.recs_selected.move_up(len);
                }
            },
            AppState::Review | AppState::Testing => {
                let len: usize = self.results.len();
                self.results_selected.move_up(len);
            },
            _ => {},
        }
    }

    /// Whether an event begins a new run.
    pub fn starts_new_run(&self, event: &AppEvent) -> (r: bool)
        ensures
            r == begins_run(self@, event@),
    {
        let can_test = match self.state {
            AppState::Loaded | AppState::Review => true,
            _ => false,
        };
        match event {
            AppEvent::Key(key) => key.code == KeyCode::Char('r'),
            AppEvent::ProblemLoaded(_) => true,
            AppEvent::StartTesting => can_test && self.problem.is_some(),
            AppEvent::StartPush => self.state == AppState::Review && self.build_error.is_none()
                && self.problem.is_some(),
            _ => false,
        }
    }

    fn handle_key(&mut self, key: Key) -> (r: Step)
        requires
            begins_run(old(self)@, EventView::Key(key)) ==> old(self).run < u64::MAX,
        ensures
            r.is_of(on_key(old(self)@, key)),
            final(self)@ == on_key(old(self)@, key).app,
    {
        let code = key.code;
        if code == KeyCode::Char('q') || (code == KeyCode::Char('c') && key.ctrl) {
            return Step { flow: Flow::Quit, effect: Effect::Nothing };
        }
        if code == KeyCode::Char('r') {
            self.clear();
            self.run = self.run + 1;
            return redraw_now();
        }
        if code == KeyCode::Char('t') && (self.state == AppState::Loaded || self.state
            == AppState::Review) {
            return Step { flow: Flow::Redraw, effect: Effect::RequestTesting };
        }
        if code == KeyCode::Char('p') && self.state == AppState::Review {
            return Step { flow: Flow::Redraw, effect: Effect::RequestPush };
        }
        if code == KeyCode::Char('d') && self.state == AppState::Review {
            if self.results.len() > 0 {
                self.diff_offset = 0;
                self.state = AppState::FullDiff;
            }
            return redraw_now();
        }
        if (code == KeyCode::Char('d') || code == KeyCode::Esc) && self.state
            == AppState::FullDiff {
            self.diff_offset = 0;
            self.state = AppState::Review;
            return redraw_now();
        }
        if code == KeyCode::Char('f') && self.state == AppState::Idle {
            return Step { flow: Flow::Redraw, effect: Effect::RequestRecs { force_refresh: true } };
        }
        if code == KeyCode::Char('o') && self.state == AppState::Idle {
            if let RecsState::Loaded(recs) = &self.recs {
                if let Some(i) = self.recs_selected.selected {
                    if i < recs.len() {
                        let url = recs[i].url.clone();
                        return Step { flow: Flow::Redraw, effect: Effect::OpenUrl(url) };
                    }
                }
            }
            return redraw_now();
        }
        if code == KeyCode::Down || code == KeyCode::Char('j') {
            self.handle_down();
            return redraw_now();
        }
        if code == KeyCode::Up || code == KeyCode::Char('k') {
            self.handle_up();
            return redraw_now();
        }
        redraw_now()
    }

    fn handle_problem(&mut self, problem: Problem, now: u64) -> (r: Step)
        requires
            old(self).run < u64::MAX,
        ensures
            r.is_of(step(old(self)@, EventView::ProblemLoaded(problem@), now)),
            final(self)@ == step(old(self)@, EventView::ProblemLoaded(problem@), now).app,
    {
        self.run = self.run + 1;
        self.problem = Some(problem);
        self.results.clear();
        self.results_selected = Selection::none();
        self.build_error = None;
        self.push_error = None;
        self.state = AppState::Loaded;
        self.started_at = Some(now);
        proof {
            assert(self@ =~= step(old(self)@, EventView::ProblemLoaded(problem@), now).app);
        }
        redraw_now()
    }

    fn handle_start_testing(&mut self, now: u64) -> (r: Step)
        requires
            begins_run(old(self)@, EventView::StartTesting) ==> old(self).run < u64::MAX,
        ensures
            r.is_of(step(old(self)@, EventView::StartTesting, now)),
            final(self)@ == step(old(self)@, EventView::StartTesting, now).app,
    {
        let can_test = match self.state {
            AppState::Loaded | AppState::Review => true,
            _ => false,
        };
        if !can_test {
            return redraw_now();
        }
        let count: usize = match &self.problem {
            Some(problem) => problem.test_cases.len(),
            None => {
                return redraw_now();
            },
        };
        self.run = self.run + 1;
        let mut results: Vec<Option<Verdict>> = Vec::new();
        let mut i: usize = 0;
        while i < count
            invariant
                i <= count,
                results@.len() == i,
                forall|k: int| 0 <= k < i ==> (#[trigger] results@[k]) is None,
            decreases count - i,
        {
            results.push(None);
            i += 1;
        }
        self.results = results;
        self.results_selected.select(Some(0));
        self.build_error = None;
        self.push_error = None;
        self.state = AppState::Compiling;
        proof {
            assert(self@ =~= step(old(self)@, EventView::StartTesting, now).app);
        }
        Step { flow: Flow::Redraw, effect: Effect::RunTests { run: self.run } }
    }

    /// Whether there are verdicts and none is missing, and whether every sample has passed.
    fn tally(&self) -> (r: (bool, bool))
        ensures
            r.0 == all_finished(self@.results),
            r.1 == all_passed(self@.results),
    {
        let ghost all = self@.results;
        let mut finished = self.results.len() > 0;
        let mut passed = true;
        let mut i: usize = 0;
        while i < self.results.len()
            invariant
                i <= self.results.len(),
                all == results_view(self.results@),
                finished == (all.len() > 0 && forall|k: int|
                    0 <= k < i ==> (#[trigger] all[k]) is Some),
                passed == (forall|k: int|
                    0 <= k < i ==> (#[trigger] all[k]) is Some && all[k]->0 is Pass),
            decreases self.results.len() - i,
        {
            proof {
                assert(all[i as int] == slot_view(self.results@[i as int]));
            }
            match &self.results[i] {
                None => {
                    finished = false;
                    passed = false;
                },
                Some(Verdict::Pass { ms: _ }) => {},
                Some(_) => {
                    passed = false;
                },
            }
            i += 1;
        }
        (finished, passed)
    }

    fn handle_verdict(&mut self, index: usize, verdict: Verdict) -> (r: Step)
        ensures
            r.is_of(on_verdict(old(self)@, index as int, verdict@)),
            final(self)@ == on_verdict(old(self)@, index as int, verdict@).app,
    {
        let ghost all = with_verdict(self@.results, index as int, verdict@);
        if index < self.results.len() {
            self.results.set(index, Some(verdict));
        }
        proof {
            assert(results_view(self.results@) =~= all);
        }
        let (finished, passed) = self.tally();
        if finished {
            self.state = AppState::Review;
            if passed {
                if let Some(problem) = &self.problem {
                    if !self.recorded.contains(&problem.contest_id, &problem.index) {
                        let contest_id = problem.contest_id.clone();
                        let index = problem.index.clone();
                        self.recorded.insert(contest_id, index);
                        return Step { flow: Flow::Redraw, effect: Effect::RecordSolve };
                    }
                }
            }
        }
        redraw_now()
    }

    fn handle_recommendations(
        &mut self,
        result: Result<Vec<Recommendation>, String>,
        now: u64,
    ) -> (r: Step)
        ensures
            r.is_of(step(old(self)@, AppEvent::RecommendationsReady(result)@, now)),
            final(self)@ == step(old(self)@, AppEvent::RecommendationsReady(result)@, now).app,
    {
        match result {
            Ok(recs) => {
                let first: Option<usize> = if recs.len() == 0 {
                    None
                } else {
                    Some(0)
                };
                self.recs_selected.select(first);
                self.recs = RecsState::Loaded(recs);
            },
            Err(message) => {
                self.recs = RecsState::Error(message);
            },
        }
        redraw_now()
    }

    /// Takes an event that came at `now`, in nanoseconds of a monotonic clock.
    pub fn handle(&mut self, event: AppEvent, now: u64) -> (r: Step)
        requires
            begins_run(old(self)@, event@) ==> old(self).run < u64::MAX,
        ensures
            r.is_of(step(old(self)@, event@, now)),
            final(self)@ == step(old(self)@, event@, now).app,
            old(self)@.wf() ==> final(self)@.wf(),
            event matches AppEvent::TestResult { run, index, verdict } ==> {
                &&& final(self).results@.len() == old(self).results@.len()
                &&& run == old(self).run && index < old(self).results@.len() ==> slot_view(
                    final(self).results@[index as int],
                ) == Some(verdict@)
                &&& forall|k: int|
                    0 <= k < old(self).results@.len() && (k != index || run != old(self).run)
                        ==> slot_view(#[trigger] final(self).results@[k]) == slot_view(
                        old(self).results@[k],
                    )
            },
    {
        proof {
            if self@.wf() {
                lemma_step_keeps_wf(self@, event@, now);
            }
        }
        match event {
            AppEvent::Key(key) => self.handle_key(key),
            AppEvent::ProblemLoaded(problem) => self.handle_problem(problem, now),
            AppEvent::StartTesting => self.handle_start_testing(now),
            AppEvent::CompileResult { run, result } => {
                if run != self.run {
                    return skip_now();
                }
                match result {
                    Ok(_) => {
                        self.state = AppState::Testing;
                    },
                    Err(stderr) => {
                        self.build_error = Some(stderr);
                        self.state = AppState::Review;
                    },
                }
                redraw_now()
            },
            AppEvent::TestResult { run, index, verdict } => {
                if run != self.run {
                    return skip_now();
                }
                let ghost given = verdict@;
                let r = self.handle_verdict(index, verdict);
                proof {
                    let had = old(self).results@;
                    let has = self.results@;
                    let after = with_verdict(results_view(had), index as int, given);
                    assert(results_view(has) == after);
                    assert(results_view(has).len() == has.len());
                    assert forall|k: int| 0 <= k < had.len() implies slot_view(#[trigger] has[k])
                        == after[k] by {
                        assert(results_view(has)[k] == slot_view(has[k]));
                    }
                }
                r
            },
            AppEvent::StartFetchRecs { force_refresh } => {
                if self.state != AppState::Idle {
                    return skip_now();
                }
                if let RecsState::Loading = &self.recs {
                    return redraw_now();
                }
                self.recs = RecsState::Loading;
                Step { flow: Flow::Redraw, effect: Effect::FetchRecs { force_refresh } }
            },
            AppEvent::RecommendationsReady(result) => self.handle_recommendations(result, now),
            AppEvent::StartPush => {
                if self.state == AppState::Review && self.build_error.is_none()
                    && self.problem.is_some() {
                    self.run = self.run + 1;
                    self.push_error = None;
                    self.state = AppState::GitSyncing;
                    return Step { flow: Flow::Redraw, effect: Effect::Push { run: self.run } };
                }
                redraw_now()
            },
            AppEvent::PushResult { run, result } => {
                if run != self.run {
                    return skip_now();
                }
                match result {
                    Ok(_) => {
                        self.clear();
                    },
                    Err(stderr) => {
                        self.push_error = Some(stderr);
                        self.state = AppState::Review;
                    },
                }
                redraw_now()
            },
            AppEvent::Tick => {
                let busy = match self.state {
                    AppState::Compiling | AppState::Testing | AppState::GitSyncing => true,
                    _ => false,
                };
                let loading = match &self.recs {
                    RecsState::Loading => true,
                    _ => false,
                };
                if busy || loading {
                    self.spinner = if self.spinner < usize::MAX {
                        self.spinner + 1
                    } else {
                        0
                    };
                    redraw_now()
                } else {
                    skip_now()
                }
            },
            AppEvent::TimerTick => {
                if self.started_at.is_none() || self.state == AppState::FullDiff {
                    skip_now()
                } else {
                    redraw_now()
                }
            },
            AppEvent::Resize => redraw_now(),
        }
    }
}

/// Every event keeps what holds of every state.
pub proof fn lemma_step_keeps_wf(a: AppView, e: EventView, now: u64)
    requires
        a.wf(),
    ensures
        step(a, e, now).app.wf(),
{
}

/// The result of a run that is no longer the current one changes nothing and draws nothing.
pub proof fn lemma_stale_results_are_dropped(a: AppView, e: EventView, now: u64)
    requires
        is_stale(a, e),
    ensures
        step(a, e, now) == skip(a),
{
}

/// The state after a row of events, each with the time at which it came.
pub open spec fn after_events(a: AppView, events: Seq<(EventView, u64)>) -> AppView
    decreases events.len(),
{
    if events.len() == 0 {
        a
    } else {
        step(after_events(a, events.drop_last()), events.last().0, events.last().1).app
    }
}

/// What holds of every state holds after any events.
pub proof fn lemma_wf_after_events(a: AppView, events: Seq<(EventView, u64)>)
    requires
        a.wf(),
    ensures
        after_events(a, events).wf(),
    decreases events.len(),
{
    if events.len() > 0 {
        lemma_wf_after_events(a, events.drop_last());
    }
}

/// The run that an event is the result of, if it is one.
pub open spec fn run_of(e: EventView) -> Option<u64> {
    match e {
        EventView::Compiled { run } => Some(run),
        EventView::CompileFailed { run, stderr } => Some(run),
        EventView::TestResult { run, index, verdict } => Some(run),
        EventView::Pushed { run } => Some(run),
        EventView::PushFailed { run, stderr } => Some(run),
        _ => None,
    }
}

/// The number of the current run never goes back.
pub proof fn lemma_run_never_decreases(a: AppView, events: Seq<(EventView, u64)>)
    ensures
        after_events(a, events).run >= a.run,
    decreases events.len(),
{
    if events.len() > 0 {
        lemma_run_never_decreases(a, events.drop_last());
    }
}

/// Once a run has been superseded, by a reset, another problem, another test run or a push, its
/// results are dropped for good, whatever else happens before they come.
pub proof fn lemma_superseded_runs_stay_dropped(
    a: AppView,
    superseding: EventView,
    at: u64,
    events: Seq<(EventView, u64)>,
    late: EventView,
    now: u64,
)
    requires
        begins_run(a, superseding),
        run_of(late) matches Some(run) && run <= a.run,
    ensures
        step(after_events(step(a, superseding, at).app, events), late, now) == skip(
            after_events(step(a, superseding, at).app, events),
        ),
{
    lemma_run_never_decreases(step(a, superseding, at).app, events);
}

/// What is to be done at position `k` of a row of events.
pub open spec fn effect_at(a: AppView, events: Seq<(EventView, u64)>, k: int) -> EffectView {
    step(after_events(a, events.take(k)), events[k].0, events[k].1).effect
}

/// The contest and index of the problem that is loaded at position `k` of a row of events.
pub open spec fn loaded_at(a: AppView, events: Seq<(EventView, u64)>, k: int) -> Option<
    (Seq<char>, Seq<char>),
> {
    match after_events(a, events.take(k)).problem {
        Some(p) => Some((p.contest_id, p.index)),
        None => None,
    }
}

proof fn lemma_recorded_grows(
    a: AppView,
    events: Seq<(EventView, u64)>,
    i: int,
    n: int,
    key: (Seq<char>, Seq<char>),
)
    requires
        0 <= i <= n <= events.len(),
        after_events(a, events.take(i)).recorded.contains(key),
    ensures
        after_events(a, events.take(n)).recorded.contains(key),
    decreases n,
{
    if n > i {
        lemma_recorded_grows(a, events, i, n - 1, key);
        assert(events.take(n).drop_last() =~= events.take(n - 1));
        assert(events.take(n).last() == events[n - 1]);
    }
}

/// A problem is recorded at most once in a session, however often its samples pass.
pub proof fn lemma_recorded_once(
    a: AppView,
    events: Seq<(EventView, u64)>,
    i: int,
    j: int,
)
    requires
        0 <= i < j < events.len(),
        effect_at(a, events, i) is RecordSolve,
        effect_at(a, events, j) is RecordSolve,
    ensures
        loaded_at(a, events, i) is Some,
        loaded_at(a, events, j) is Some,
        loaded_at(a, events, i) != loaded_at(a, events, j),
{
    let b = after_events(a, events.take(i));
    let p = b.problem->0;
    let key = (p.contest_id, p.index);
    assert(events.take(i + 1).drop_last() =~= events.take(i));
    assert(events.take(i + 1).last() == events[i]);
    assert(after_events(a, events.take(i + 1)).recorded.contains(key));
    lemma_recorded_grows(a, events, i + 1, j, key);
}

/// A problem is recorded only when the last missing verdict comes and every sample has passed.
pub proof fn lemma_recorded_only_when_passed(a: AppView, e: EventView, now: u64)
    requires
        step(a, e, now).effect is RecordSolve,
    ensures
        all_finished(step(a, e, now).app.results),
        all_passed(step(a, e, now).app.results),
        step(a, e, now).app.state == AppState::Review,
{
}

/// The keys to quit work in every state, and nothing else ends the program.
pub proof fn lemma_quit_keys(a: AppView, e: EventView, now: u64)
    ensures
        step(a, e, now).flow == Flow::Quit <==> {
            &&& e matches EventView::Key(key)
            &&& key.code == KeyCode::Char('q') || (key.code == KeyCode::Char('c') && key.ctrl)
        },
{
}

/// Leaving the full view of a sample leads back to where it was entered.
pub proof fn lemma_full_view_is_left_as_entered(a: AppView, now: u64, later: u64)
    requires
        a.state == AppState::Review,
        a.results.len() > 0,
    ensures
        ({
            let enter = EventView::Key(Key { code: KeyCode::Char('d'), ctrl: false });
            let leave = EventView::Key(Key { code: KeyCode::Esc, ctrl: false });
            let inside = step(a, enter, now).app;
            &&& inside.state == AppState::FullDiff
            &&& step(inside, leave, later).app == AppView { diff_offset: 0, ..a }
        }),
{
}

/// Moving up undoes moving down, except at the end of a list.
pub proof fn lemma_up_undoes_down(s: Selection, len: nat)
    requires
        s.selected matches Some(i) && i + 1 < len,
        len <= usize::MAX,
    ensures
        s.moved_down(len).moved_up(len) == s,
{
}

/// A solution that does not compile cannot be pushed.
pub proof fn lemma_no_push_without_compiling(a: AppView, now: u64)
    requires
        a.build_error is Some,
    ensures
        step(a, EventView::StartPush, now) == redraw(a),
{
}

/// Whether the dashboard is on screen exactly while no problem is loaded, and the timer runs
/// exactly while one is.
pub open spec fn dashboard_without_problem(a: AppView) -> bool {
    &&& a.state == AppState::Idle <==> a.problem is None
    &&& a.started_at is Some <==> a.problem is Some
}

/// At the start the dashboard is on screen, without a problem and a timer, and every event keeps
/// it so that they go together; only a result of the current run may not come while there is no
/// problem that it could be a result for.
pub proof fn lemma_dashboard_without_problem(
    cf_handle: Option<Seq<char>>,
    a: AppView,
    e: EventView,
    now: u64,
)
    requires
        dashboard_without_problem(a),
        a.problem is None && run_of(e) is Some ==> is_stale(a, e),
    ensures
        dashboard_without_problem(initial(cf_handle)),
        dashboard_without_problem(step(a, e, now).app),
{
}

/// Loading a problem starts the timer at the time of the event, and no other event moves it but
/// to stop it.
pub proof fn lemma_timer_starts_with_problem(a: AppView, e: EventView, now: u64)
    ensures
        e is ProblemLoaded ==> step(a, e, now).app.started_at == Some(now),
        e !is ProblemLoaded ==> step(a, e, now).app.started_at == a.started_at || step(
            a,
            e,
            now,
        ).app.started_at is None,
{
}

} // verus!

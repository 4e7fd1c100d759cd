//! Problems as the ingestion daemon leaves them on disk: where they are, what they hold, and when
//! a change to a file is worth another look.

use vstd::prelude::*;

use std::collections::HashMap;
use std::path::PathBuf;

use crate::text;

verus! {

broadcast use vstd::std_specs::hash::group_hash_axioms;

/// `std::path::PathBuf`, carried through unread.
#[verifier::external_type_specification]
#[verifier::external_body]
pub struct ExPathBuf(PathBuf);

/// The time limit of a problem that states none, in milliseconds.
pub const DEFAULT_TIME_LIMIT_MS: u64 = 2000;

/// How long repeated changes to a file count as one, in nanoseconds.
pub const DEBOUNCE_NS: u64 = 500000000;

/// A sample: what goes in, and what must come out.
#[derive(Debug, Clone)]
pub struct TestCase {
    pub id: String,
    pub input: String,
    pub expected_output: String,
}

#[verifier::ext_equal]
pub struct TestCaseView {
    pub id: Seq<char>,
    pub input: Seq<char>,
    pub expected_output: Seq<char>,
}

impl View for TestCase {
    type V = TestCaseView;

    open spec fn view(&self) -> TestCaseView {
        TestCaseView {
            id: self.id@,
            input: self.input@,
            expected_output: self.expected_output@,
        }
    }
}

/// The samples of a list.
pub open spec fn cases_view(list: Seq<TestCase>) -> Seq<TestCaseView> {
    Seq::new(list.len(), |i: int| list[i]@)
}

/// The contents of a `test_cases.json`: the whole payload of the daemon, or the samples alone.
#[derive(Debug)]
pub enum TestCasesFile {
    Payload {
        name: Option<String>,
        rating: Option<i32>,
        time_limit_ms: Option<u64>,
        tags: Vec<String>,
        test_cases: Vec<TestCase>,
    },
    Bare(Vec<TestCase>),
}

/// A problem.
#[derive(Debug)]
pub struct Problem {
    pub contest_id: String,
    pub index: String,
    pub name: Option<String>,
    pub rating: Option<i32>,
    pub tags: Vec<String>,
    pub dir: PathBuf,
    pub time_limit_ms: u64,
    pub test_cases: Vec<TestCase>,
}

#[verifier::ext_equal]
pub struct ProblemView {
    pub contest_id: Seq<char>,
    pub index: Seq<char>,
    pub name: Option<Seq<char>>,
    pub rating: Option<i32>,
    pub tags: Seq<Seq<char>>,
    pub dir: PathBuf,
    pub time_limit_ms: u64,
    pub test_cases: Seq<TestCaseView>,
}

impl View for Problem {
    type V = ProblemView;

    open spec fn view(&self) -> ProblemView {
        ProblemView {
            contest_id: self.contest_id@,
            index: self.index@,
            name: text::opt_text(self.name),
            rating: self.rating,
            tags: text::texts(self.tags@),
            dir: self.dir,
            time_limit_ms: self.time_limit_ms,
            test_cases: cases_view(self.test_cases@),
        }
    }
}

/// A step on the way up from a path: the path that it leads to, and the name of that path's last
/// component, if it has one.
#[derive(Debug)]
pub struct Ancestor {
    pub path: PathBuf,
    pub name: Option<String>,
}

/// The names on the way to a `test_cases.json`, as far as the path has them: the directory that
/// the file is in, the name of that directory, and the name of the one above it.
#[derive(Debug)]
pub struct PathParts {
    pub dir: Option<PathBuf>,
    pub index: Option<String>,
    pub contest_id: Option<String>,
}

/// The path `n` steps up, if the way up is that long. The first step is the path itself.
pub open spec fn path_up(ancestors: Seq<Ancestor>, n: nat) -> Option<PathBuf> {
    if n < ancestors.len() {
        Some(ancestors[n as int].path)
    } else {
        None
    }
}

/// The name of the path `n` steps up, if there is one.
pub open spec fn name_up(ancestors: Seq<Ancestor>, n: nat) -> Option<String> {
    if n < ancestors.len() {
        ancestors[n as int].name
    } else {
        None
    }
}

/// What the way up from a `test_cases.json` tells: the file is in the directory of the problem,
/// which is named after the index and is in one that is named after the contest.
pub open spec fn parts_along(ancestors: Seq<Ancestor>) -> PathParts {
    PathParts {
        dir: path_up(ancestors, 1),
        index: name_up(ancestors, 1),
        contest_id: name_up(ancestors, 2),
    }
}

/// Takes from the way up from a `test_cases.json`, the file itself first, what it tells of the
/// problem.
pub fn parts_of(ancestors: Vec<Ancestor>) -> (r: PathParts)
    ensures
        r == parts_along(ancestors@),
{
    let mut rest = ancestors;
    let contest_id = if rest.len() > 2 {
        rest.swap_remove(2).name
    } else {
        None
    };
    if rest.len() > 1 {
        let step = rest.swap_remove(1);
        PathParts { dir: Some(step.path), index: step.name, contest_id }
    } else {
        PathParts { dir: None, index: None, contest_id }
    }
}

/// Where a problem is, and which one it is.
#[derive(Debug)]
pub struct Location {
    pub dir: PathBuf,
    pub index: String,
    pub contest_id: String,
}

/// What is wrong with a path that does not lead to a problem.
pub open spec fn path_error(parts: PathParts) -> Option<Seq<char>> {
    if parts.dir is None {
        Some("test_cases.json has no parent directory"@)
    } else if parts.index is None {
        Some("missing index directory name"@)
    } else if parts.contest_id is None {
        Some("missing contest directory name"@)
    } else {
        None
    }
}

/// Tells from the way up from a `test_cases.json`, the file itself first, which problem it belongs
/// to.
pub fn locate(ancestors: Vec<Ancestor>) -> (r: Result<Location, String>)
    ensures
        match r {
            Ok(found) => parts_along(ancestors@) == (PathParts {
                dir: Some(found.dir),
                index: Some(found.index),
                contest_id: Some(found.contest_id),
            }),
            Err(message) => path_error(parts_along(ancestors@)) == Some(message@),
        },
{
    let parts = parts_of(ancestors);
    match parts.dir {
        None => Err("test_cases.json has no parent directory".to_string()),
        Some(dir) => match parts.index {
            None => Err("missing index directory name".to_string()),
            Some(index) => match parts.contest_id {
                None => Err("missing contest directory name".to_string()),
                Some(contest_id) => Ok(Location { dir, index, contest_id }),
            },
        },
    }
}

/// The time limit that counts: the one stated, unless it is missing or zero.
pub open spec fn effective_limit(stated: Option<u64>) -> u64 {
    match stated {
        Some(ms) => if ms > 0 {
            ms
        } else {
            DEFAULT_TIME_LIMIT_MS
        },
        None => DEFAULT_TIME_LIMIT_MS,
    }
}

/// The problem that a file at some place describes.
pub open spec fn described(place: Location, file: TestCasesFile) -> ProblemView {
    match file {
        TestCasesFile::Payload { name, rating, time_limit_ms, tags, test_cases } => ProblemView {
            contest_id: place.contest_id@,
            index: place.index@,
            name: text::opt_text(name),
            rating,
            tags: text::texts(tags@),
            dir: place.dir,
            time_limit_ms: effective_limit(time_limit_ms),
            test_cases: cases_view(test_cases@),
        },
        TestCasesFile::Bare(test_cases) => ProblemView {
            contest_id: place.contest_id@,
            index: place.index@,
            name: None,
            rating: None,
            tags: Seq::empty(),
            dir: place.dir,
            time_limit_ms: DEFAULT_TIME_LIMIT_MS,
            test_cases: cases_view(test_cases@),
        },
    }
}

/// Makes a problem of a file and the place where it was found.
pub fn build_problem(place: Location, file: TestCasesFile) -> (r: Problem)
    ensures
        r@ == described(place, file),
        r.time_limit_ms > 0,
{
    match file {
        TestCasesFile::Payload { name, rating, time_limit_ms, tags, test_cases } => {
            let limit: u64 = match time_limit_ms {
                Some(ms) => if ms > 0 {
                    ms
                } else {
                    DEFAULT_TIME_LIMIT_MS
                },
                None => DEFAULT_TIME_LIMIT_MS,
            };
            Problem {
                contest_id: place.contest_id,
                index: place.index,
                name,
                rating,
                tags,
                dir: place.dir,
                time_limit_ms: limit,
                test_cases,
            }
        },
        TestCasesFile::Bare(test_cases) => {
            let r = Problem {
                contest_id: place.contest_id,
                index: place.index,
                name: None,
                rating: None,
                tags: Vec::new(),
                dir: place.dir,
                time_limit_ms: DEFAULT_TIME_LIMIT_MS,
                test_cases,
            };
            proof {
                assert(r@.tags =~= Seq::empty());
            }
            r
        },
    }
}

/// Whether `i` is the first of the latest times.
pub open spec fn is_latest(times: Seq<i128>, i: int) -> bool {
    &&& 0 <= i < times.len()
    &&& forall|k: int| 0 <= k < times.len() ==> #[trigger] times[k] <= times[i]
    &&& forall|k: int| 0 <= k < i ==> #[trigger] times[k] < times[i]
}

/// The first of the latest of some times; `None` if there are none.
pub fn latest_index(times: &Vec<i128>) -> (r: Option<usize>)
    ensures
        match r {
            Some(i) => is_latest(times@, i as int),
            None => times@.len() == 0,
        },
{
    if times.len() == 0 {
        return None;
    }
    let mut best: usize = 0;
    let mut i: usize = 1;
    while i < times.len()
        invariant
            1 <= i <= times.len(),
            best < i,
            forall|k: int| 0 <= k < i ==> #[trigger] times@[k] <= times@[best as int],
            forall|k: int| 0 <= k < best ==> #[trigger] times@[k] < times@[best as int],
        decreases times.len() - i,
    {
        if times[i] > times[best] {
            best = i;
        }
        i += 1;
    }
    Some(best)
}

/// What happened to a file.
#[derive(Debug, Clone, Copy, PartialEq, Eq, Structural)]
pub enum FileChange {
    Create,
    Modify,
    Other,
}

/// Whether a change may mean a new or renewed problem: a `test_cases.json` came or changed.
pub fn concerns_problem(change: FileChange, file_name: Option<&str>) -> (r: bool)
    ensures
        r == (change != FileChange::Other && match file_name {
            Some(name) => name@ == "test_cases.json"@,
            None => false,
        }),
{
    match file_name {
        Some(name) => change != FileChange::Other && name.to_string()
            == "test_cases.json".to_string(),
        None => false,
    }
}

/// Tells the first of a burst of changes to a file from the rest of the burst.
pub struct Debouncer {
    last_seen: HashMap<u64, u64>,
}

impl View for Debouncer {
    type V = Map<u64, u64>;

    closed spec fn view(&self) -> Map<u64, u64> {
        self.last_seen@
    }
}

/// Whether a change at `now` counts, given when the files' changes last counted.
pub open spec fn accepts(seen: Map<u64, u64>, file: u64, now: u64) -> bool {
    !(seen.contains_key(file) && now - seen[file] < DEBOUNCE_NS)
}

impl Debouncer {
    /// No change seen yet.
    pub fn new() -> (r: Debouncer)
        ensures
            r@ == Map::<u64, u64>::empty(),
    {
        Debouncer { last_seen: HashMap::new() }
    }

    /// Whether a change of `file` at `now` counts. One that does starts a new window; one that
    /// does not leaves the window as it is.
    pub fn accept(&mut self, file: u64, now: u64) -> (r: bool)
        ensures
            r == accepts(old(self)@, file, now),
            final(self)@ == (if r {
                old(self)@.insert(file, now)
            } else {
                old(self)@
            }),
    {
        let recent = match self.last_seen.get(&file) {
            Some(t) => now.saturating_sub(*t) < DEBOUNCE_NS,
            None => false,
        };
        if recent {
            return false;
        }
        let _ = self.last_seen.insert(file, now);
        true
    }
}

/// When the files' changes last counted, after a row of changes.
pub open spec fn seen_after(seen: Map<u64, u64>, changes: Seq<(u64, u64)>) -> Map<u64, u64>
    decreases changes.len(),
{
    if changes.len() == 0 {
        seen
    } else {
        let before = seen_after(seen, changes.drop_last());
        let (file, now) = changes.last();
        if accepts(before, file, now) {
            before.insert(file, now)
        } else {
            before
        }
    }
}

/// Whether the change at position `k` of a row of changes counts.
pub open spec fn counts(seen: Map<u64, u64>, changes: Seq<(u64, u64)>, k: int) -> bool {
    accepts(seen_after(seen, changes.take(k)), changes[k].0, changes[k].1)
}

proof fn lemma_last_seen_grows(
    seen: Map<u64, u64>,
    changes: Seq<(u64, u64)>,
    i: int,
    n: int,
)
    requires
        0 <= i < n <= changes.len(),
        counts(seen, changes, i),
    ensures
        seen_after(seen, changes.take(n)).contains_key(changes[i].0),
        seen_after(seen, changes.take(n))[changes[i].0] >= changes[i].1,
    decreases n,
{
    assert(changes.take(n).drop_last() =~= changes.take(n - 1));
    assert(changes.take(n).last() == changes[n - 1]);
    if n > i + 1 {
        lemma_last_seen_grows(seen, changes, i, n - 1);
    }
}

/// Of any two changes of one file that count, the later one comes at least one window after the
/// earlier one.
pub proof fn lemma_counted_changes_are_apart(
    seen: Map<u64, u64>,
    changes: Seq<(u64, u64)>,
    i: int,
    j: int,
)
    requires
        0 <= i < j < changes.len(),
        changes[i].0 == changes[j].0,
        counts(seen, changes, i),
        counts(seen, changes, j),
    ensures
        changes[j].1 >= changes[i].1 + DEBOUNCE_NS,
{
    lemma_last_seen_grows(seen, changes, i, j);
}

} // verus!

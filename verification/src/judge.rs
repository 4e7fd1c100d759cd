//! Compiling a solution, running it on the samples, and judging what it does.

use vstd::prelude::*;

use crate::output;
use crate::output::outputs_match;
use crate::problem::{TestCase, TestCaseView};
use crate::process;
use crate::process::{decode_lossy, CommandReply};

verus! {

/// The verdict on one sample.
#[derive(Debug, Clone, PartialEq)]
pub enum Verdict {
    Pass { ms: u64 },
    Fail { got: String, ms: u64 },
    Tle,
    Rte { stderr: String, code: Option<i32> },
}

#[verifier::ext_equal]
pub enum VerdictView {
    Pass { ms: u64 },
    Fail { got: Seq<char>, ms: u64 },
    Tle,
    Rte { stderr: Seq<char>, code: Option<i32> },
}

impl View for Verdict {
    type V = VerdictView;

    open spec fn view(&self) -> VerdictView {
        match *self {
            Verdict::Pass { ms } => VerdictView::Pass { ms },
            Verdict::Fail { got, ms } => VerdictView::Fail { got: got@, ms },
            Verdict::Tle => VerdictView::Tle,
            Verdict::Rte { stderr, code } => VerdictView::Rte { stderr: stderr@, code },
        }
    }
}

/// What came of running the solution on a sample.
#[derive(Debug)]
pub enum RunOutcome {
    /// The program could not be started.
    NotStarted(String),
    /// The time limit passed before the program ended.
    TimedOut,
    /// Waiting for the program failed.
    WaitFailed(String),
    Exited { success: bool, code: Option<i32>, stdout: Vec<u8>, stderr: Vec<u8>, ms: u64 },
}

/// The verdict on a program that ended by itself, given what it printed.
pub open spec fn exit_verdict(
    expected: Seq<char>,
    success: bool,
    code: Option<i32>,
    got: Seq<char>,
    stderr: Seq<char>,
    ms: u64,
) -> VerdictView {
    if !success {
        VerdictView::Rte { stderr, code }
    } else if output::normalized(expected) == output::normalized(got) {
        VerdictView::Pass { ms }
    } else {
        VerdictView::Fail { got, ms }
    }
}

/// The verdict on a run.
pub open spec fn run_verdict(tc: TestCaseView, outcome: RunOutcome) -> VerdictView {
    match outcome {
        RunOutcome::NotStarted(e) => VerdictView::Rte {
            stderr: "failed to start solution: "@ + e@,
            code: None,
        },
        RunOutcome::TimedOut => VerdictView::Tle,
        RunOutcome::WaitFailed(e) => VerdictView::Rte {
            stderr: "failed waiting on solution: "@ + e@,
            code: None,
        },
        RunOutcome::Exited { success, code, stdout, stderr, ms } => exit_verdict(
            tc.expected_output,
            success,
            code,
            process::lossy_text(stdout@),
            process::lossy_text(stderr@),
            ms,
        ),
    }
}

/// The verdict on a program that ended by itself, given what it printed.
pub fn judge_exit(
    expected: &str,
    success: bool,
    code: Option<i32>,
    got: String,
    stderr: String,
    ms: u64,
) -> (r: Verdict)
    ensures
        r@ == exit_verdict(expected@, success, code, got@, stderr@, ms),
{
    if !success {
        Verdict::Rte { stderr, code }
    } else if outputs_match(expected, got.as_str()) {
        Verdict::Pass { ms }
    } else {
        Verdict::Fail { got, ms }
    }
}

/// The verdict on a run of the solution on `tc`.
pub fn judge(tc: &TestCase, outcome: RunOutcome) -> (r: Verdict)
    ensures
        r@ == run_verdict(tc@, outcome),
{
    match outcome {
        RunOutcome::NotStarted(e) => {
            let mut stderr = "failed to start solution: ".to_string();
            stderr.append(e.as_str());
            Verdict::Rte { stderr, code: None }
        },
        RunOutcome::TimedOut => Verdict::Tle,
        RunOutcome::WaitFailed(e) => {
            let mut stderr = "failed waiting on solution: ".to_string();
            stderr.append(e.as_str());
            Verdict::Rte { stderr, code: None }
        },
        RunOutcome::Exited { success, code, stdout, stderr, ms } => judge_exit(
            tc.expected_output.as_str(),
            success,
            code,
            decode_lossy(&stdout),
            decode_lossy(&stderr),
            ms,
        ),
    }
}

/// A program that ends well within the limit passes if its output matches, and fails with its
/// output otherwise; a run never passes in any other way.
pub proof fn lemma_pass_means_match(tc: TestCaseView, outcome: RunOutcome)
    ensures
        run_verdict(tc, outcome) is Pass <==> {
            &&& outcome matches RunOutcome::Exited { success, code, stdout, stderr, ms }
            &&& success
            &&& output::normalized(tc.expected_output) == output::normalized(
                process::lossy_text(stdout@),
            )
        },
        run_verdict(tc, outcome) is Tle <==> outcome is TimedOut,
{
}

/// How the compiler is called to make the program `bin_name`.
pub open spec fn compiler_args(bin_name: Seq<char>) -> Seq<Seq<char>> {
    seq!["-std=c++17"@, "-O2"@, "-Wall"@, "-o"@, bin_name, "solution.cpp"@]
}

/// How the compiler is called to make the program `bin_name`.
pub fn compile_args(bin_name: &str) -> (r: Vec<String>)
    ensures
        crate::text::texts(r@) == compiler_args(bin_name@),
{
    let mut r: Vec<String> = Vec::new();
    r.push("-std=c++17".to_string());
    r.push("-O2".to_string());
    r.push("-Wall".to_string());
    r.push("-o".to_string());
    r.push(bin_name.to_string());
    r.push("solution.cpp".to_string());
    proof {
        assert(crate::text::texts(r@) =~= compiler_args(bin_name@));
    }
    r
}

/// What is wrong with a compilation, if anything.
pub open spec fn compile_error_of(reply: CommandReply) -> Option<Seq<char>> {
    match reply {
        CommandReply::NotLaunched(e) => Some("failed to launch g++: "@ + e@),
        CommandReply::Finished { success, stdout, stderr } => if success {
            None
        } else {
            Some(process::lossy_text(stderr@))
        },
    }
}

/// The result of a compilation: the compiler's complaint where it failed.
pub fn compile_result(reply: CommandReply) -> (r: Result<(), String>)
    ensures
        match r {
            Ok(_) => compile_error_of(reply) is None,
            Err(message) => compile_error_of(reply) == Some(message@),
        },
{
    match reply {
        CommandReply::NotLaunched(e) => {
            let mut message = "failed to launch g++: ".to_string();
            message.append(e.as_str());
            Err(message)
        },
        CommandReply::Finished { success, stdout: _, stderr } => if success {
            Ok(())
        } else {
            Err(decode_lossy(&stderr))
        },
    }
}

/// What a test run does next.
#[derive(Debug, Clone, Copy, PartialEq, Eq, Structural)]
pub enum RunStep {
    Compile,
    Test(usize),
    Stop,
}

/// The step after `step` of a run over `tests` samples. `compiled` tells how compiling went.
pub open spec fn following_step(step: RunStep, compiled: bool, tests: usize) -> RunStep {
    match step {
        RunStep::Compile => if compiled && tests > 0 {
            RunStep::Test(0)
        } else {
            RunStep::Stop
        },
        RunStep::Test(i) => if i + 1 < tests {
            RunStep::Test((i + 1) as usize)
        } else {
            RunStep::Stop
        },
        RunStep::Stop => RunStep::Stop,
    }
}

/// The step after `step`: compile first, then each sample in turn, and nothing more once
/// compiling has failed.
pub fn next_step(step: RunStep, compiled: bool, tests: usize) -> (r: RunStep)
    ensures
        r == following_step(step, compiled, tests),
{
    match step {
        RunStep::Compile => if compiled && tests > 0 {
            RunStep::Test(0)
        } else {
            RunStep::Stop
        },
        RunStep::Test(i) => if tests > 0 && i < tests - 1 {
            RunStep::Test(i + 1)
        } else {
            RunStep::Stop
        },
        RunStep::Stop => RunStep::Stop,
    }
}

/// The step of a run after `n` steps.
pub open spec fn step_after(n: nat, compiled: bool, tests: usize) -> RunStep
    decreases n,
{
    if n == 0 {
        RunStep::Compile
    } else {
        following_step(step_after((n - 1) as nat, compiled, tests), compiled, tests)
    }
}

/// A run compiles once, then goes through the samples one by one in their order, then stops; it
/// stops at once where compiling fails.
pub proof fn lemma_run_visits_samples_in_order(n: nat, compiled: bool, tests: usize)
    ensures
        n > 0 && compiled && n <= tests ==> step_after(n, compiled, tests) == RunStep::Test(
            (n - 1) as usize,
        ),
        n > 0 && (!compiled || n > tests) ==> step_after(n, compiled, tests) == RunStep::Stop,
    decreases n,
{
    if n > 0 {
        lemma_run_visits_samples_in_order((n - 1) as nat, compiled, tests);
    }
}

} // verus!

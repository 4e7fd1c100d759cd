//! Committing and pushing the workspace.

use vstd::prelude::*;

use std::path::PathBuf;

use crate::number;
use crate::number::decimal_i32_text;
use crate::problem;
use crate::problem::{Ancestor, Problem, ProblemView};
use crate::process;
use crate::process::{decode_lossy, CommandReply};
use crate::text;
use crate::text::{contains_text, join_texts, trim_text};

verus! {

/// The steps of a push, in their order.
#[derive(Debug, Clone, Copy, PartialEq, Eq, Structural)]
pub enum GitStep {
    Add,
    Commit,
    Push,
}

/// What a push does after a step.
#[derive(Debug)]
pub enum PushNext {
    Run(GitStep),
    Done(Result<String, String>),
}

#[verifier::ext_equal]
pub enum PushNextView {
    Run(GitStep),
    Pushed(Seq<char>),
    Failed(Seq<char>),
}

impl View for PushNext {
    type V = PushNextView;

    open spec fn view(&self) -> PushNextView {
        match *self {
            PushNext::Run(step) => PushNextView::Run(step),
            PushNext::Done(Ok(message)) => PushNextView::Pushed(message@),
            PushNext::Done(Err(message)) => PushNextView::Failed(message@),
        }
    }
}

/// The directory to push from, given the way up from the directory of the problem, that directory
/// first: the one that the contest's directory is in.
pub fn push_root(ancestors: Vec<Ancestor>) -> (r: Result<PathBuf, String>)
    ensures
        match r {
            Ok(dir) => problem::path_up(ancestors@, 2) == Some(dir),
            Err(message) => problem::path_up(ancestors@, 2) is None && message@
                == "could not determine workspace root"@,
        },
{
    let mut rest = ancestors;
    if rest.len() > 2 {
        Ok(rest.swap_remove(2).path)
    } else {
        Err("could not determine workspace root".to_string())
    }
}

/// A problem is pushed from the directory right above the one that names its contest: with the way
/// up from its `test_cases.json`, from which the problem was told, the way up from its directory
/// is the rest.
pub proof fn lemma_pushed_from_above_contest(ancestors: Seq<Ancestor>)
    requires
        ancestors.len() > 0,
    ensures
        problem::path_up(ancestors.skip(1), 0) == problem::parts_along(ancestors).dir,
        problem::name_up(ancestors.skip(1), 1) == problem::parts_along(ancestors).contest_id,
        problem::path_up(ancestors.skip(1), 2) == problem::path_up(ancestors, 3),
{
}

/// The subject of the commit for a problem.
pub open spec fn commit_subject(p: ProblemView) -> Seq<char> {
    "solve: CF "@ + p.contest_id + p.index + " ("@ + match p.rating {
        Some(rating) => number::decimal_int(rating as int),
        None => "unrated"@,
    } + ")"@ + match p.name {
        Some(name) => " — "@ + name,
        None => Seq::empty(),
    }
}

/// The subject of the commit for a problem.
pub fn commit_message(problem: &Problem) -> (r: String)
    ensures
        r@ == commit_subject(problem@),
{
    let mut r = "solve: CF ".to_string();
    r.append(problem.contest_id.as_str());
    r.append(problem.index.as_str());
    r.append(" (");
    match problem.rating {
        Some(rating) => {
            let shown = decimal_i32_text(rating);
            r.append(shown.as_str());
        },
        None => {
            r.append("unrated");
        },
    }
    r.append(")");
    let ghost so_far = r@;
    match &problem.name {
        Some(name) => {
            r.append(" — ");
            r.append(name.as_str());
            proof {
                assert(r@ =~= so_far + (" — "@ + name@));
            }
        },
        None => {
            proof {
                assert(r@ =~= so_far + Seq::<char>::empty());
            }
        },
    }
    r
}

/// The arguments of git for a step.
pub open spec fn step_args(step: GitStep, commit_msg: Seq<char>) -> Seq<Seq<char>> {
    match step {
        GitStep::Add => seq!["add"@, "."@],
        GitStep::Commit => seq!["commit"@, "-m"@, commit_msg],
        GitStep::Push => seq!["push"@, "origin"@, "main"@],
    }
}

/// The arguments of git for a step.
pub fn git_args(step: GitStep, commit_msg: &str) -> (r: Vec<String>)
    ensures
        text::texts(r@) == step_args(step, commit_msg@),
{
    let mut r: Vec<String> = Vec::new();
    match step {
        GitStep::Add => {
            r.push("add".to_string());
            r.push(".".to_string());
        },
        GitStep::Commit => {
            r.push("commit".to_string());
            r.push("-m".to_string());
            r.push(commit_msg.to_string());
        },
        GitStep::Push => {
            r.push("push".to_string());
            r.push("origin".to_string());
            r.push("main".to_string());
        },
    }
    proof {
        assert(text::texts(r@) =~= step_args(step, commit_msg@));
    }
    r
}

/// Whether the output of a failed commit says that there was nothing to commit.
pub open spec fn nothing_to_commit(printed: Seq<char>) -> bool {
    ||| text::has_text(printed, "nothing to commit"@)
    ||| text::has_text(printed, "no changes added"@)
    ||| text::has_text(printed, "nothing added to commit"@)
}

/// What both streams of a program printed, the errors last.
pub open spec fn printed(stdout: Seq<char>, stderr: Seq<char>) -> Seq<char> {
    stdout + "\n"@ + stderr
}

/// What follows a step that ran to its end: the next step where it succeeded, or where a commit
/// had nothing to commit; otherwise the failure, with what git printed.
pub open spec fn after_run(
    step: GitStep,
    success: bool,
    stdout: Seq<char>,
    stderr: Seq<char>,
) -> PushNextView {
    let all = printed(stdout, stderr);
    match step {
        GitStep::Add => if success {
            PushNextView::Run(GitStep::Commit)
        } else {
            PushNextView::Failed("git add failed:\n"@ + text::trim(all))
        },
        GitStep::Commit => if success || nothing_to_commit(all) {
            PushNextView::Run(GitStep::Push)
        } else {
            PushNextView::Failed("git commit failed:\n"@ + text::trim(all))
        },
        GitStep::Push => if success {
            PushNextView::Pushed("Pushed to origin/main."@)
        } else {
            PushNextView::Failed("git push failed:\n"@ + text::trim(all))
        },
    }
}

/// What follows a step, given what came of it.
pub open spec fn after_step(
    step: GitStep,
    commit_msg: Seq<char>,
    reply: CommandReply,
) -> PushNextView {
    match reply {
        CommandReply::NotLaunched(e) => PushNextView::Failed(
            "failed to spawn `git "@ + text::join(step_args(step, commit_msg), " "@) + "`: "@ + e@,
        ),
        CommandReply::Finished { success, stdout, stderr } => after_run(
            step,
            success,
            process::lossy_text(stdout@),
            process::lossy_text(stderr@),
        ),
    }
}

fn failure(head: &str, all: &str) -> (r: PushNext)
    ensures
        r@ == PushNextView::Failed(head@ + text::trim(all@)),
{
    let mut message = head.to_string();
    let tail = trim_text(all);
    message.append(tail.as_str());
    PushNext::Done(Err(message))
}

/// What follows a step that ran to its end and printed the given texts.
pub fn push_after_run(step: GitStep, success: bool, stdout: &str, stderr: &str) -> (r: PushNext)
    ensures
        r@ == after_run(step, success, stdout@, stderr@),
{
    let mut all = stdout.to_string();
    all.append("\n");
    all.append(stderr);
    match step {
        GitStep::Add => if success {
            PushNext::Run(GitStep::Commit)
        } else {
            failure("git add failed:\n", all.as_str())
        },
        GitStep::Commit => if success || contains_text(all.as_str(), "nothing to commit")
            || contains_text(all.as_str(), "no changes added") || contains_text(
            all.as_str(),
            "nothing added to commit",
        ) {
            PushNext::Run(GitStep::Push)
        } else {
            failure("git commit failed:\n", all.as_str())
        },
        GitStep::Push => if success {
            PushNext::Done(Ok("Pushed to origin/main.".to_string()))
        } else {
            failure("git push failed:\n", all.as_str())
        },
    }
}

/// What follows a step, given what came of it.
pub fn push_next(step: GitStep, commit_msg: &str, reply: CommandReply) -> (r: PushNext)
    ensures
        r@ == after_step(step, commit_msg@, reply),
{
    match reply {
        CommandReply::NotLaunched(e) => {
            let args = git_args(step, commit_msg);
            let joined = join_texts(&args, " ");
            let mut message = "failed to spawn `git ".to_string();
            message.append(joined.as_str());
            message.append("`: ");
            message.append(e.as_str());
            PushNext::Done(Err(message))
        },
        CommandReply::Finished { success, stdout, stderr } => {
            let out = decode_lossy(&stdout);
            let err = decode_lossy(&stderr);
            push_after_run(step, success, out.as_str(), err.as_str())
        },
    }
}

/// The workspace is pushed exactly after a commit that succeeded or had nothing to commit, a commit
/// is made exactly after everything was staged, and a push is reported exactly where git succeeded
/// at it.
pub proof fn lemma_push_follows_commit(step: GitStep, commit_msg: Seq<char>, reply: CommandReply)
    ensures
        after_step(step, commit_msg, reply) == PushNextView::Run(GitStep::Push) <==> {
            &&& step == GitStep::Commit
            &&& reply matches CommandReply::Finished { success, stdout, stderr }
            &&& success || nothing_to_commit(
                printed(process::lossy_text(stdout@), process::lossy_text(stderr@)),
            )
        },
        after_step(step, commit_msg, reply) == PushNextView::Run(GitStep::Commit) <==> {
            &&& step == GitStep::Add
            &&& reply matches CommandReply::Finished { success, stdout, stderr }
            &&& success
        },
        after_step(step, commit_msg, reply) != PushNextView::Run(GitStep::Add),
        after_step(step, commit_msg, reply) is Pushed <==> {
            &&& step == GitStep::Push
            &&& reply matches CommandReply::Finished { success, stdout, stderr }
            &&& success
        },
{
}

} // verus!

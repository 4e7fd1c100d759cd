//! What a push achieves: everything is staged, committed and pushed, one step after the other.

use vstd::prelude::*;

use crate::git;
use crate::git::{GitStep, PushNextView};
use crate::laws::texts;
use crate::number;
use crate::problem::ProblemView;
use crate::process::CommandReply;
use crate::process;
use crate::text;

verus! {

/// Whether `whole` holds `part` somewhere.
pub open spec fn holds(whole: Seq<char>, part: Seq<char>) -> bool {
    exists|a: Seq<char>, b: Seq<char>| #[trigger] (a + part + b) == whole
}

/// Whether a failed commit had nothing to commit, going by what git printed.
pub open spec fn says_nothing_to_commit(stdout: Seq<char>, stderr: Seq<char>) -> bool {
    let all = stdout + "\n"@ + stderr;
    holds(all, "nothing to commit"@) || holds(all, "no changes added"@) || holds(
        all,
        "nothing added to commit"@,
    )
}

/// A step that git ended with success is always followed by the next, whatever was printed: the
/// commit follows staging, the push follows the commit, and the push ends it well.
pub proof fn law_success_goes_on(stdout: Seq<char>, stderr: Seq<char>)
    ensures
        git::after_run(GitStep::Add, true, stdout, stderr) == PushNextView::Run(GitStep::Commit),
        git::after_run(GitStep::Commit, true, stdout, stderr) == PushNextView::Run(GitStep::Push),
        git::after_run(GitStep::Push, true, stdout, stderr) == PushNextView::Pushed(
            "Pushed to origin/main."@,
        ),
{
}

/// A step that failed ends the push with what git printed, without the white space around; only a
/// commit that had nothing to commit is followed by the push all the same.
pub proof fn law_failure_ends_it(stdout: Seq<char>, stderr: Seq<char>)
    ensures
        ({
            let all = stdout + "\n"@ + stderr;
            &&& says_nothing_to_commit(stdout, stderr) ==> git::after_run(
                GitStep::Commit,
                false,
                stdout,
                stderr,
            ) == PushNextView::Run(GitStep::Push)
            &&& exists|i: int, j: int|
                {
                    &&& #[trigger] texts::is_core(all, i, j)
                    &&& git::after_run(GitStep::Add, false, stdout, stderr)
                        == PushNextView::Failed("git add failed:\n"@ + all.subrange(i, j))
                    &&& git::after_run(GitStep::Push, false, stdout, stderr)
                        == PushNextView::Failed("git push failed:\n"@ + all.subrange(i, j))
                    &&& !says_nothing_to_commit(stdout, stderr) ==> git::after_run(
                        GitStep::Commit,
                        false,
                        stdout,
                        stderr,
                    ) == PushNextView::Failed("git commit failed:\n"@ + all.subrange(i, j))
                }
        }),
{
    let all = stdout + "\n"@ + stderr;
    texts::law_trim(all);
    texts::law_has_text(all, "nothing to commit"@);
    texts::law_has_text(all, "no changes added"@);
    texts::law_has_text(all, "nothing added to commit"@);
    assert(git::nothing_to_commit(all) == says_nothing_to_commit(stdout, stderr));
    let (i, j) = choose|i: int, j: int|
        #[trigger] texts::is_core(all, i, j) && text::trim(all) == all.subrange(i, j);
    assert(texts::is_core(all, i, j));
}

/// What follows a step depends on what came of it: a program that could not be launched ends the
/// push, and otherwise it is as for what it printed.
pub proof fn law_replies(step: GitStep, commit_msg: Seq<char>, reply: CommandReply)
    ensures
        reply matches CommandReply::Finished { success, stdout, stderr } ==> git::after_step(
            step,
            commit_msg,
            reply,
        ) == git::after_run(
            step,
            success,
            process::lossy_text(stdout@),
            process::lossy_text(stderr@),
        ),
        reply matches CommandReply::NotLaunched(e) ==> {
            let r = git::after_step(step, commit_msg, reply);
            let words = match step {
                GitStep::Add => "add ."@,
                GitStep::Commit => "commit -m "@ + commit_msg,
                GitStep::Push => "push origin main"@,
            };
            r == PushNextView::Failed("failed to spawn `git "@ + words + "`: "@ + e@)
        },
        git::after_step(step, commit_msg, reply) == PushNextView::Run(GitStep::Push) <==> {
            &&& step == GitStep::Commit
            &&& reply matches CommandReply::Finished { success, stdout, stderr }
            &&& success || says_nothing_to_commit(
                process::lossy_text(stdout@),
                process::lossy_text(stderr@),
            )
        },
        git::after_step(step, commit_msg, reply) == PushNextView::Run(GitStep::Commit) <==> {
            &&& step == GitStep::Add
            &&& reply matches CommandReply::Finished { success, stdout, stderr }
            &&& success
        },
        git::after_step(step, commit_msg, reply) is Pushed <==> {
            &&& step == GitStep::Push
            &&& reply matches CommandReply::Finished { success, stdout, stderr }
            &&& success
        },
{
    if let CommandReply::Finished { success, stdout, stderr } = reply {
        let out = process::lossy_text(stdout@);
        let err = process::lossy_text(stderr@);
        law_success_goes_on(out, err);
        law_failure_ends_it(out, err);
    }
    reveal_strlit(" ");
    reveal_strlit("add");
    reveal_strlit(".");
    reveal_strlit("add .");
    reveal_strlit("commit");
    reveal_strlit("-m");
    reveal_strlit("commit -m ");
    reveal_strlit("push");
    reveal_strlit("origin");
    reveal_strlit("main");
    reveal_strlit("push origin main");
    lemma_joined_two("add"@, "."@);
    lemma_joined_three("commit"@, "-m"@, commit_msg);
    lemma_joined_three("push"@, "origin"@, "main"@);
    assert("add"@ + " "@ + "."@ =~= "add ."@);
    assert("commit"@ + " "@ + "-m"@ + " "@ + commit_msg =~= "commit -m "@ + commit_msg);
    assert("push"@ + " "@ + "origin"@ + " "@ + "main"@ =~= "push origin main"@);
}

proof fn lemma_joined_two(a: Seq<char>, b: Seq<char>)
    ensures
        text::join(seq![a, b], " "@) == a + " "@ + b,
{
    texts::law_join(seq![a], seq![b], a, " "@);
    texts::law_join(seq![a], seq![b], b, " "@);
    assert(seq![a] + seq![b] =~= seq![a, b]);
}

proof fn lemma_joined_three(a: Seq<char>, b: Seq<char>, c: Seq<char>)
    ensures
        text::join(seq![a, b, c], " "@) == a + " "@ + b + " "@ + c,
{
    lemma_joined_two(a, b);
    texts::law_join(seq![a, b], seq![c], c, " "@);
    assert(seq![a, b] + seq![c] =~= seq![a, b, c]);
}

/// Git is asked to stage everything, to commit with the message and nothing else, and to push to
/// the main branch of the origin.
pub proof fn law_git_arguments(commit_msg: Seq<char>)
    ensures
        git::step_args(GitStep::Add, commit_msg) == seq!["add"@, "."@],
        git::step_args(GitStep::Commit, commit_msg) == seq!["commit"@, "-m"@, commit_msg],
        git::step_args(GitStep::Push, commit_msg) == seq!["push"@, "origin"@, "main"@],
{
}

/// The subject of a commit names the problem, its rating and its name, as far as it has them.
pub proof fn law_commit_subject(p: ProblemView)
    ensures
        ({
            let head = "solve: CF "@ + p.contest_id + p.index + " ("@;
            let rating = match p.rating {
                Some(r) => number::decimal_int(r as int),
                None => "unrated"@,
            };
            &&& p.name is None ==> git::commit_subject(p) == head + rating + ")"@
            &&& p.name matches Some(name) ==> git::commit_subject(p) == head + rating + ")"@
                + (" — "@ + name)
        }),
{
    if p.name is None {
        let head = "solve: CF "@ + p.contest_id + p.index + " ("@;
        let rating = match p.rating {
            Some(r) => number::decimal_int(r as int),
            None => "unrated"@,
        };
        assert(git::commit_subject(p) =~= head + rating + ")"@);
    }
}

} // verus!

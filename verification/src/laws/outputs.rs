//! What comparing outputs achieves: only white space at the end of lines and blank lines at the
//! end are irrelevant.

use vstd::prelude::*;

use crate::judge;
use crate::judge::{RunOutcome, VerdictView};
use crate::labels;
use crate::laws::texts;
use crate::output;
use crate::problem::TestCaseView;
use crate::process;
use crate::text;

verus! {

/// Whether `r` is `line` without the white space at its end.
pub open spec fn is_stripped(r: Seq<char>, line: Seq<char>) -> bool {
    &&& r.len() <= line.len()
    &&& r == line.take(r.len() as int)
    &&& forall|i: int| r.len() <= i < line.len() ==> text::is_white_space(#[trigger] line[i])
    &&& r.len() > 0 ==> !text::is_white_space(r.last())
}

/// Normalized output has the lines of the output in their order, each without the white space at
/// its end; only blank lines at the end are missing, and the last line that is left is not blank.
pub proof fn law_normalized(s: Seq<char>)
    ensures
        ({
            let lines = text::text_lines(s);
            let n = output::normalized(s);
            &&& n.len() <= lines.len()
            &&& forall|i: int| 0 <= i < n.len() ==> is_stripped(#[trigger] n[i], lines[i])
            &&& forall|i: int|
                n.len() <= i < lines.len() ==> text::all_white_space(#[trigger] lines[i])
            &&& n.len() > 0 ==> n.last().len() > 0
        }),
{
    let lines = text::text_lines(s);
    let trimmed = output::trimmed_lines(lines);
    let n = output::normalized(s);
    lemma_kept(trimmed);
    assert forall|i: int| 0 <= i < n.len() implies is_stripped(#[trigger] n[i], lines[i]) by {
        texts::law_trim_end(lines[i]);
        assert(n[i] == trimmed.take(n.len() as int)[i]);
    }
    assert forall|i: int| n.len() <= i < lines.len() implies text::all_white_space(
        #[trigger] lines[i],
    ) by {
        texts::law_trim_end(lines[i]);
        assert(trimmed[i].len() == 0);
    }
}

proof fn lemma_kept(list: Seq<Seq<char>>)
    ensures
        ({
            let kept = output::drop_trailing_empty(list);
            &&& kept.len() <= list.len()
            &&& kept == list.take(kept.len() as int)
            &&& forall|i: int| kept.len() <= i < list.len() ==> (#[trigger] list[i]).len() == 0
            &&& kept.len() > 0 ==> kept.last().len() > 0
        }),
    decreases list.len(),
{
    if list.len() > 0 && list.last().len() == 0 {
        let front = list.drop_last();
        lemma_kept(front);
        let n = output::drop_trailing_empty(list).len() as int;
        assert(front.take(n) =~= list.take(n));
        assert forall|i: int| n <= i < list.len() implies (#[trigger] list[i]).len() == 0 by {
            if i < front.len() {
                assert(front[i] == list[i]);
            }
        }
    } else {
        assert(list.take(list.len() as int) =~= list);
    }
}

/// Two outputs of one line each, without white space at the end, match only if they are equal.
pub proof fn law_one_line_outputs(a: Seq<char>, b: Seq<char>)
    requires
        !a.contains('\n'),
        !b.contains('\n'),
        a.len() > 0 ==> !text::is_white_space(a.last()),
        b.len() > 0 ==> !text::is_white_space(b.last()),
    ensures
        output::normalized(a) == output::normalized(b) <==> a == b,
        a.len() > 0 ==> output::normalized(a) == seq![a],
{
    lemma_one_line(a);
    lemma_one_line(b);
    if a.len() > 0 && b.len() > 0 && output::normalized(a) == output::normalized(b) {
        assert(output::normalized(a)[0] == a);
        assert(output::normalized(b)[0] == b);
    }
    if a.len() == 0 && b.len() == 0 {
        assert(a =~= b);
    }
}

proof fn lemma_one_line(a: Seq<char>)
    requires
        !a.contains('\n'),
        a.len() > 0 ==> !text::is_white_space(a.last()),
    ensures
        output::normalized(a) == if a.len() > 0 {
            seq![a]
        } else {
            Seq::empty()
        },
{
    texts::law_lines(a, Seq::empty());
    law_normalized(a);
    let n = output::normalized(a);
    if a.len() > 0 {
        let lines = text::text_lines(a);
        assert(lines[0] == a);
        if n.len() == 0 {
            assert(text::all_white_space(lines[0]));
            assert(text::is_white_space(a[a.len() - 1]));
        }
        assert(is_stripped(n[0], lines[0]));
        if n[0].len() < a.len() {
            assert(text::is_white_space(a[a.len() - 1]));
        }
        assert(n[0] =~= a);
        assert(n =~= seq![a]);
    } else {
        assert(a =~= Seq::<char>::empty());
        assert(n =~= Seq::empty());
    }
}

/// Two outputs match exactly if they have the same lines up to white space at the end of each, and
/// the longer one only blank lines more.
pub proof fn law_matching_outputs(a: Seq<char>, b: Seq<char>)
    ensures
        output::normalized(a) == output::normalized(b) <==> forall|i: int|
            0 <= i ==> #[trigger] same_line(a, b, i),
{
    let x = output::normalized(a);
    let y = output::normalized(b);
    law_normalized(a);
    law_normalized(b);
    if x == y {
        assert forall|i: int| 0 <= i implies #[trigger] same_line(a, b, i) by {
            lemma_line_or_blank(a, i);
            lemma_line_or_blank(b, i);
        }
    }
    if forall|i: int| 0 <= i ==> #[trigger] same_line(a, b, i) {
        assert forall|i: int| 0 <= i < x.len() && i < y.len() implies x[i] == y[i] by {
            assert(same_line(a, b, i));
            lemma_line_or_blank(a, i);
            lemma_line_or_blank(b, i);
        }
        if x.len() < y.len() {
            let i = y.len() - 1;
            assert(same_line(a, b, i));
            lemma_line_or_blank(a, i);
            lemma_line_or_blank(b, i);
        }
        if y.len() < x.len() {
            let i = x.len() - 1;
            assert(same_line(a, b, i));
            lemma_line_or_blank(a, i);
            lemma_line_or_blank(b, i);
        }
        assert(x =~= y);
    }
}

/// Line `i` of a text, empty behind the last.
pub open spec fn line_or_blank(s: Seq<char>, i: int) -> Seq<char> {
    if 0 <= i < text::text_lines(s).len() {
        text::text_lines(s)[i]
    } else {
        Seq::empty()
    }
}

/// Whether two texts have the same line `i` up to white space at its end: they agree as far as the
/// shorter one goes, and the other has only white space more.
pub open spec fn same_line(a: Seq<char>, b: Seq<char>, i: int) -> bool {
    let x = line_or_blank(a, i);
    let y = line_or_blank(b, i);
    exists|r: Seq<char>| #[trigger] is_stripped(r, x) && is_stripped(r, y)
}

proof fn lemma_line_or_blank(s: Seq<char>, i: int)
    requires
        0 <= i,
    ensures
        ({
            let n = output::normalized(s);
            let r = if i < n.len() {
                n[i]
            } else {
                Seq::empty()
            };
            &&& is_stripped(r, line_or_blank(s, i))
            &&& forall|t: Seq<char>| #[trigger] is_stripped(t, line_or_blank(s, i)) ==> t == r
        }),
{
    law_normalized(s);
    let n = output::normalized(s);
    let line = line_or_blank(s, i);
    let r = if i < n.len() {
        n[i]
    } else {
        Seq::empty()
    };
    if i >= n.len() {
        if i < text::text_lines(s).len() {
            assert(text::all_white_space(text::text_lines(s)[i]));
        }
        assert(line.take(0) =~= Seq::<char>::empty());
    }
    assert(is_stripped(r, line));
    assert forall|t: Seq<char>| #[trigger] is_stripped(t, line) implies t == r by {
        if t.len() > r.len() {
            assert(t.last() == line[t.len() - 1]);
        }
        if r.len() > t.len() {
            assert(r.last() == line[r.len() - 1]);
        }
    }
}

/// The verdict on a program that ended: a failing exit is a runtime error with what it printed
/// about it, whatever its output; otherwise it passes exactly if its output matches, and fails with
/// that output where not.
pub proof fn law_verdict(tc: TestCaseView, outcome: RunOutcome)
    ensures
        outcome matches RunOutcome::Exited { success, code, stdout, stderr, ms } ==> {
            let v = judge::run_verdict(tc, outcome);
            let out = process::lossy_text(stdout@);
            &&& !success ==> v == (VerdictView::Rte { stderr: process::lossy_text(stderr@), code })
            &&& success && (forall|i: int| 0 <= i ==> #[trigger] same_line(
                tc.expected_output,
                out,
                i,
            )) ==> v == (VerdictView::Pass { ms })
            &&& success && !(forall|i: int| 0 <= i ==> #[trigger] same_line(
                tc.expected_output,
                out,
                i,
            )) ==> v == (VerdictView::Fail { got: out, ms })
        },
        outcome is TimedOut ==> judge::run_verdict(tc, outcome) is Tle,
        outcome matches RunOutcome::NotStarted(e) ==> judge::run_verdict(tc, outcome) == (
        VerdictView::Rte { stderr: "failed to start solution: "@ + e@, code: None }),
        outcome matches RunOutcome::WaitFailed(e) ==> judge::run_verdict(tc, outcome) == (
        VerdictView::Rte { stderr: "failed waiting on solution: "@ + e@, code: None }),
{
    if let RunOutcome::Exited { success, code, stdout, stderr, ms } = outcome {
        law_matching_outputs(tc.expected_output, process::lossy_text(stdout@));
    }
}

/// A compilation succeeds exactly if the compiler ended with success, whatever it printed; where it
/// failed, what is told is what it printed as errors.
pub proof fn law_compilation(stdout: Vec<u8>, stderr: Vec<u8>, e: String)
    ensures
        judge::compile_error_of(
            process::CommandReply::Finished { success: true, stdout, stderr },
        ) is None,
        judge::compile_error_of(process::CommandReply::Finished { success: false, stdout, stderr })
            == Some(process::lossy_text(stderr@)),
        judge::compile_error_of(process::CommandReply::NotLaunched(e)) == Some(
            "failed to launch g++: "@ + e@,
        ),
{
}

/// A label has no hyphen left: each has become a blank, and every other character behind the first
/// stands where it stood.
pub proof fn law_label(id: Seq<char>, initial: Seq<char>)
    requires
        id.len() > 0,
    ensures
        ({
            let r = labels::labeled(id, initial);
            let n = initial.len() as int;
            &&& r.len() == n + id.len() - 1
            &&& r.take(n) == initial
            &&& forall|i: int|
                1 <= i < id.len() ==> #[trigger] id[i] != '-' ==> r[n + i - 1] == id[i]
            &&& forall|i: int|
                1 <= i < id.len() ==> #[trigger] id[i] == '-' ==> r[n + i - 1] == ' '
        }),
        id[0] != '-' ==> labels::pretty(id) == labels::labeled(id, labels::uppercase(id[0])),
        id[0] == '-' ==> labels::pretty(id) == labels::labeled(id, labels::uppercase(' ')),
        labels::pretty(Seq::empty()) == Seq::<char>::empty(),
{
    assert(labels::labeled(id, initial).take(initial.len() as int) =~= initial);
}

} // verus!

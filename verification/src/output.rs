//! Program output as a judge reads it: trailing white space and trailing blank lines are
//! irrelevant, everything else counts.

use vstd::prelude::*;

use crate::text;
use crate::text::{lines_of, trim_end_text};

verus! {

/// The lines of `list` up to the last one that is not empty.
pub open spec fn drop_trailing_empty(list: Seq<Seq<char>>) -> Seq<Seq<char>>
    decreases list.len(),
{
    if list.len() > 0 && list.last().len() == 0 {
        drop_trailing_empty(list.drop_last())
    } else {
        list
    }
}

/// Each line of `list` without its trailing white space.
pub open spec fn trimmed_lines(list: Seq<Seq<char>>) -> Seq<Seq<char>> {
    Seq::new(list.len(), |i: int| text::trim_end(list[i]))
}

/// The lines of `s` without trailing white space, up to the last one that is not blank.
pub open spec fn normalized(s: Seq<char>) -> Seq<Seq<char>> {
    drop_trailing_empty(trimmed_lines(text::text_lines(s)))
}

/// The lines of `s` without trailing white space, up to the last one that is not blank.
pub fn normalize_output(s: &str) -> (r: Vec<String>)
    ensures
        text::texts(r@) == normalized(s@),
{
    let lines = lines_of(s);
    let ghost all = trimmed_lines(text::text_lines(s@));
    let mut r: Vec<String> = Vec::new();
    let mut i: usize = 0;
    while i < lines.len()
        invariant
            i <= lines.len(),
            text::texts(lines@) == text::text_lines(s@),
            r@.len() == i,
            forall|k: int|
                0 <= k < i ==> (#[trigger] r@[k])@ == text::trim_end(
                    text::text_lines(s@)[k],
                ),
        decreases lines.len() - i,
    {
        let line = trim_end_text(lines[i].as_str());
        proof {
            assert(text::texts(lines@)[i as int] == lines@[i as int]@);
        }
        r.push(line);
        i += 1;
    }
    proof {
        assert(text::texts(lines@).len() == lines@.len());
        assert(text::texts(r@) =~= all);
    }
    while r.len() > 0 && r[r.len() - 1].as_str().is_empty()
        invariant
            drop_trailing_empty(text::texts(r@)) == drop_trailing_empty(all),
        decreases r.len(),
    {
        let ghost before = r@;
        let _ = r.pop();
        proof {
            assert(text::texts(before).last() == before.last()@);
            assert(text::texts(r@) =~= text::texts(before).drop_last());
        }
    }
    proof {
        if r@.len() > 0 {
            assert(text::texts(r@).last() == r@.last()@);
        }
    }
    r
}

/// Whether two outputs are the same to a judge.
pub fn outputs_match(expected: &str, got: &str) -> (r: bool)
    ensures
        r == (normalized(expected@) == normalized(got@)),
{
    let a = normalize_output(expected);
    let b = normalize_output(got);
    let ghost x = normalized(expected@);
    let ghost y = normalized(got@);
    proof {
        assert(x.len() == a@.len());
        assert(y.len() == b@.len());
    }
    if a.len() != b.len() {
        return false;
    }
    let mut i: usize = 0;
    while i < a.len()
        invariant
            i <= a.len(),
            a.len() == b.len(),
            x == normalized(expected@),
            y == normalized(got@),
            text::texts(a@) == x,
            text::texts(b@) == y,
            forall|k: int| 0 <= k < i ==> #[trigger] x[k] == y[k],
        decreases a.len() - i,
    {
        proof {
            assert(x[i as int] == a@[i as int]@);
            assert(y[i as int] == b@[i as int]@);
        }
        if a[i] != b[i] {
            return false;
        }
        i += 1;
    }
    proof {
        assert(x =~= y);
    }
    true
}

/// The text whose lines are `list`, each ended by a newline.
pub open spec fn unlines(list: Seq<Seq<char>>) -> Seq<char>
    decreases list.len(),
{
    if list.len() == 0 {
        Seq::empty()
    } else {
        unlines(list.drop_last()) + list.last().push('\n')
    }
}

/// Whether `list` can stand as normalized output: no line holds a newline or ends in white
/// space, and the last line is not empty.
pub open spec fn is_canonical(list: Seq<Seq<char>>) -> bool {
    &&& forall|i: int| 0 <= i < list.len() ==> !(#[trigger] list[i]).contains('\n')
    &&& forall|i: int|
        0 <= i < list.len() ==> (#[trigger] list[i]).len() > 0 ==> !text::is_white_space(
            list[i].last(),
        )
    &&& list.len() > 0 ==> list.last().len() > 0
}

/// Normalization may look at the newline-separated pieces in place of the lines.
proof fn lemma_normalized_pieces(s: Seq<char>)
    ensures
        normalized(s) == drop_trailing_empty(trimmed_lines(text::pieces(s, '\n'))),
{
    let parts = text::pieces(s, '\n');
    text::lemma_pieces_nonempty(s, '\n');
    let lines = text::text_lines(s);
    assert forall|i: int| 0 <= i < parts.len() - 1 implies text::trim_end(
        text::strip_carriage_return(#[trigger] parts[i]),
    ) == text::trim_end(parts[i]) by {}
    if parts.last().len() == 0 {
        assert(trimmed_lines(parts).last() =~= Seq::<char>::empty());
        assert(trimmed_lines(parts).drop_last() =~= trimmed_lines(lines));
    } else {
        assert(trimmed_lines(parts) =~= trimmed_lines(lines));
    }
}

/// A white space character at the end of a text does not change its normalized lines.
proof fn lemma_white_space_at_end(s: Seq<char>, c: char)
    requires
        text::is_white_space(c),
    ensures
        normalized(s.push(c)) == normalized(s),
{
    lemma_normalized_pieces(s);
    lemma_normalized_pieces(s.push(c));
    text::lemma_pieces_nonempty(s, '\n');
    assert(s.push(c).drop_last() =~= s);
    let before = text::pieces(s, '\n');
    let after = text::pieces(s.push(c), '\n');
    if c == '\n' {
        assert(trimmed_lines(after).last() =~= Seq::<char>::empty());
        assert(trimmed_lines(after).drop_last() =~= trimmed_lines(before));
    } else {
        assert(before.last().push(c).drop_last() =~= before.last());
        assert(trimmed_lines(after) =~= trimmed_lines(before));
    }
}

/// White space at the end of an output, blank lines included, is irrelevant.
pub proof fn lemma_trailing_white_space_is_irrelevant(s: Seq<char>, blank: Seq<char>)
    requires
        text::all_white_space(blank),
    ensures
        normalized(s + blank) == normalized(s),
    decreases blank.len(),
{
    if blank.len() == 0 {
        assert(s + blank =~= s);
    } else {
        let rest = blank.drop_last();
        assert forall|i: int| 0 <= i < rest.len() implies text::is_white_space(
            #[trigger] rest[i],
        ) by {
            assert(rest[i] == blank[i]);
        }
        lemma_trailing_white_space_is_irrelevant(s, rest);
        lemma_white_space_at_end(s + rest, blank.last());
        assert((s + rest).push(blank.last()) =~= s + blank);
    }
}

/// White space characters behind a text do not change what is left of it after trimming.
proof fn lemma_trim_end_absorbs(s: Seq<char>, blank: Seq<char>)
    requires
        text::all_white_space(blank),
    ensures
        text::trim_end(s + blank) == text::trim_end(s),
    decreases blank.len(),
{
    if blank.len() == 0 {
        assert(s + blank =~= s);
    } else {
        let rest = blank.drop_last();
        assert forall|i: int| 0 <= i < rest.len() implies text::is_white_space(
            #[trigger] rest[i],
        ) by {
            assert(rest[i] == blank[i]);
        }
        lemma_trim_end_absorbs(s, rest);
        assert((s + blank).drop_last() =~= s + rest);
        assert((s + blank).last() == blank.last());
        assert(text::is_white_space(blank[blank.len() - 1]));
    }
}

/// White space at the end of a line is irrelevant.
pub proof fn lemma_white_space_at_line_end_is_irrelevant(
    head: Seq<char>,
    blank: Seq<char>,
    tail: Seq<char>,
)
    requires
        text::all_white_space(blank),
        !blank.contains('\n'),
    ensures
        normalized(head + blank + seq!['\n'] + tail) == normalized(head + seq!['\n'] + tail),
{
    let with = head + blank;
    lemma_normalized_pieces(with + seq!['\n'] + tail);
    lemma_normalized_pieces(head + seq!['\n'] + tail);
    text::lemma_pieces_concat(with, tail, '\n');
    text::lemma_pieces_concat(head, tail, '\n');
    text::lemma_pieces_extend(head, blank, '\n');
    text::lemma_pieces_nonempty(head, '\n');
    let p = text::pieces(head, '\n');
    lemma_trim_end_absorbs(p.last(), blank);
    let t = text::pieces(tail, '\n');
    assert(with.push('\n') + tail =~= with + seq!['\n'] + tail);
    assert(head.push('\n') + tail =~= head + seq!['\n'] + tail);
    assert(trimmed_lines(text::pieces(with, '\n') + t) =~= trimmed_lines(p + t));
}

/// What trimming leaves does not end in white space, so trimming it again changes nothing.
proof fn lemma_trim_end_idempotent(s: Seq<char>)
    ensures
        text::trim_end(text::trim_end(s)) == text::trim_end(s),
        text::trim_end(s).len() > 0 ==> !text::is_white_space(text::trim_end(s).last()),
        forall|c: char| text::trim_end(s).contains(c) ==> s.contains(c),
    decreases s.len(),
{
    if s.len() > 0 && text::is_white_space(s.last()) {
        lemma_trim_end_idempotent(s.drop_last());
        assert forall|c: char| text::trim_end(s).contains(c) implies s.contains(c) by {
            assert(text::trim_end(s.drop_last()).contains(c));
            assert(s.drop_last().contains(c));
            let k = choose|k: int| 0 <= k < s.drop_last().len() && s.drop_last()[k] == c;
            assert(s[k] == c);
        }
    }
}

/// What is left after dropping trailing empty lines is a beginning of the list that does not end
/// in an empty line.
proof fn lemma_drop_trailing_empty(list: Seq<Seq<char>>)
    ensures
        drop_trailing_empty(list).len() <= list.len(),
        drop_trailing_empty(list) == list.take(drop_trailing_empty(list).len() as int),
        drop_trailing_empty(list).len() > 0 ==> drop_trailing_empty(list).last().len() > 0,
    decreases list.len(),
{
    if list.len() > 0 && list.last().len() == 0 {
        lemma_drop_trailing_empty(list.drop_last());
        let n = drop_trailing_empty(list).len() as int;
        assert(list.drop_last().take(n) =~= list.take(n));
    } else {
        assert(list.take(list.len() as int) =~= list);
    }
}

/// Normalized output is canonical.
pub proof fn lemma_normalized_is_canonical(s: Seq<char>)
    ensures
        is_canonical(normalized(s)),
{
    lemma_normalized_pieces(s);
    let parts = text::pieces(s, '\n');
    let trimmed = trimmed_lines(parts);
    lemma_drop_trailing_empty(trimmed);
    let n = normalized(s);
    text::lemma_pieces_hold_no_separator(s, '\n');
    assert forall|i: int| 0 <= i < n.len() implies !(#[trigger] n[i]).contains('\n') by {
        assert(n[i] == trimmed[i]);
        lemma_trim_end_idempotent(parts[i]);
    }
    assert forall|i: int| 0 <= i < n.len() && (#[trigger] n[i]).len() > 0 implies
        !text::is_white_space(n[i].last()) by {
        assert(n[i] == trimmed[i]);
        lemma_trim_end_idempotent(parts[i]);
    }
}

/// The pieces of a text made of lines are these lines, and an empty piece behind the last
/// newline.
proof fn lemma_pieces_of_unlines(list: Seq<Seq<char>>)
    requires
        forall|i: int| 0 <= i < list.len() ==> !(#[trigger] list[i]).contains('\n'),
    ensures
        text::pieces(unlines(list), '\n') == list.push(Seq::<char>::empty()),
    decreases list.len(),
{
    if list.len() == 0 {
        assert(text::pieces(unlines(list), '\n') =~= list.push(Seq::<char>::empty()));
    } else {
        let front = list.drop_last();
        assert forall|i: int| 0 <= i < front.len() implies !(#[trigger] front[i]).contains('\n') by {
            assert(front[i] == list[i]);
        }
        lemma_pieces_of_unlines(front);
        assert(!list[list.len() - 1].contains('\n'));
        text::lemma_pieces_extend(unlines(front), list.last(), '\n');
        let body = unlines(front) + list.last();
        assert(unlines(list) =~= body.push('\n'));
        assert(body.push('\n').drop_last() =~= body);
        let p = text::pieces(unlines(front), '\n');
        assert(p.drop_last() =~= front);
        assert(p.last() + list.last() =~= list.last());
        assert(text::pieces(body, '\n') =~= list);
    }
}

/// A canonical list of lines is the normalized form of its own text: what is not trailing white
/// space is kept as it is.
pub proof fn lemma_canonical_is_kept(list: Seq<Seq<char>>)
    requires
        is_canonical(list),
    ensures
        normalized(unlines(list)) == list,
{
    lemma_normalized_pieces(unlines(list));
    lemma_pieces_of_unlines(list);
    let trimmed = trimmed_lines(list.push(Seq::<char>::empty()));
    assert forall|i: int| 0 <= i < list.len() implies trimmed[i] == #[trigger] list[i] by {
        assert(text::trim_end(list[i]) == list[i]);
    }
    assert(trimmed.last() =~= Seq::<char>::empty());
    assert(trimmed.drop_last() =~= list);
}

/// Normalizing a second time changes nothing.
pub proof fn lemma_normalization_is_idempotent(s: Seq<char>)
    ensures
        normalized(unlines(normalized(s))) == normalized(s),
{
    lemma_normalized_is_canonical(s);
    lemma_canonical_is_kept(normalized(s));
}

/// Two outputs that differ in anything but trailing white space do not match.
pub proof fn lemma_real_differences_count(a: Seq<Seq<char>>, b: Seq<Seq<char>>)
    requires
        is_canonical(a),
        is_canonical(b),
        a != b,
    ensures
        normalized(unlines(a)) != normalized(unlines(b)),
{
    lemma_canonical_is_kept(a);
    lemma_canonical_is_kept(b);
}

} // verus!

//! What trimming, splitting, joining, searching and comparing texts achieve.

use vstd::prelude::*;

use crate::text;

verus! {

/// Trimming the end of a text leaves a beginning of it, behind which there is only white space,
/// and which does not end in white space itself.
pub proof fn law_trim_end(s: Seq<char>)
    ensures
        ({
            let t = text::trim_end(s);
            &&& t.len() <= s.len()
            &&& t == s.take(t.len() as int)
            &&& forall|i: int|
                t.len() <= i < s.len() ==> text::is_white_space(#[trigger] s[i])
            &&& t.len() > 0 ==> !text::is_white_space(s[t.len() - 1])
        }),
    decreases s.len(),
{
    let t = text::trim_end(s);
    if s.len() > 0 && text::is_white_space(s.last()) {
        let front = s.drop_last();
        law_trim_end(front);
        assert(front.take(t.len() as int) =~= s.take(t.len() as int));
        assert forall|i: int| t.len() <= i < s.len() implies text::is_white_space(
            #[trigger] s[i],
        ) by {
            if i < front.len() {
                assert(front[i] == s[i]);
            }
        }
        if t.len() > 0 {
            assert(front[t.len() - 1] == s[t.len() - 1]);
        }
    } else {
        assert(s.take(s.len() as int) =~= s);
    }
}

/// Trimming the beginning of a text leaves an end of it, in front of which there is only white
/// space, and which does not begin with white space itself.
pub proof fn law_trim_start(s: Seq<char>)
    ensures
        ({
            let t = text::trim_start(s);
            let k = s.len() - t.len();
            &&& 0 <= k
            &&& t == s.skip(k)
            &&& forall|i: int| 0 <= i < k ==> text::is_white_space(#[trigger] s[i])
            &&& t.len() > 0 ==> !text::is_white_space(s[k])
        }),
    decreases s.len(),
{
    let t = text::trim_start(s);
    if s.len() > 0 && text::is_white_space(s[0]) {
        let rest = s.skip(1);
        law_trim_start(rest);
        let k = s.len() - t.len();
        assert(rest.skip(k - 1) =~= s.skip(k));
        assert forall|i: int| 0 <= i < k implies text::is_white_space(#[trigger] s[i]) by {
            if i > 0 {
                assert(rest[i - 1] == s[i]);
            }
        }
        if t.len() > 0 {
            assert(rest[k - 1] == s[k]);
        }
    } else {
        assert(s.skip(0) =~= s);
    }
}

/// Whether `s` from `i` up to `j` is all of it but the white space at its ends.
pub open spec fn is_core(s: Seq<char>, i: int, j: int) -> bool {
    &&& 0 <= i <= j <= s.len()
    &&& forall|k: int| 0 <= k < i ==> text::is_white_space(#[trigger] s[k])
    &&& forall|k: int| j <= k < s.len() ==> text::is_white_space(#[trigger] s[k])
    &&& i < j ==> !text::is_white_space(s[i]) && !text::is_white_space(s[j - 1])
}

/// Trimming a text leaves all of it but the white space at its ends.
pub proof fn law_trim(s: Seq<char>)
    ensures
        exists|i: int, j: int|
            #[trigger] is_core(s, i, j) && text::trim(s) == s.subrange(i, j),
        text::trim(s).len() == 0 <==> text::all_white_space(s),
{
    let front = text::trim_start(s);
    law_trim_start(s);
    law_trim_end(front);
    let i = s.len() - front.len();
    let t = text::trim(s);
    let j = i + t.len();
    assert(t =~= s.subrange(i, j));
    assert forall|k: int| j <= k < s.len() implies text::is_white_space(#[trigger] s[k]) by {
        assert(front[k - i] == s[k]);
    }
    if i < j {
        assert(front[0] == s[i]);
        assert(front[t.len() - 1] == s[j - 1]);
    }
    assert(is_core(s, i, j));
    if t.len() == 0 {
        assert forall|k: int| 0 <= k < s.len() implies text::is_white_space(#[trigger] s[k]) by {
            if k >= i {
                assert(j <= k);
            }
        }
    } else {
        assert(!text::is_white_space(s[i]));
    }
}

/// A text without the separator is one piece. Together with what holds of the pieces of two texts
/// with a separator between them, this tells the pieces of every text.
pub proof fn law_one_piece(s: Seq<char>, sep: char)
    requires
        !s.contains(sep),
    ensures
        text::pieces(s, sep) == seq![s],
{
    let none = Seq::<char>::empty();
    text::lemma_pieces_extend(none, s, sep);
    assert(none + s =~= s);
    let p = text::pieces(none, sep);
    assert(p =~= seq![none]);
    assert(p.drop_last().push(p.last() + s) =~= seq![s]);
}

/// The pieces of two texts with a separator between them are those of the first, followed by those
/// of the second.
pub proof fn law_pieces_of_both(a: Seq<char>, b: Seq<char>, sep: char)
    ensures
        text::pieces(a + seq![sep] + b, sep) == text::pieces(a, sep) + text::pieces(b, sep),
{
    text::lemma_pieces_concat(a, b, sep);
    assert(a.push(sep) + b =~= a + seq![sep] + b);
}

/// Joining no texts gives none, joining one gives that one, and joining two rows of texts gives
/// what each gives, with the separator between.
pub proof fn law_join(a: Seq<Seq<char>>, b: Seq<Seq<char>>, one: Seq<char>, sep: Seq<char>)
    ensures
        text::join(Seq::empty(), sep) == Seq::<char>::empty(),
        text::join(seq![one], sep) == one,
        a.len() > 0 && b.len() > 0 ==> text::join(a + b, sep) == text::join(a, sep) + sep
            + text::join(b, sep),
    decreases b.len(),
{
    if a.len() > 0 && b.len() > 0 {
        let all = a + b;
        let front = b.drop_last();
        assert(all.drop_last() =~= a + front);
        assert(all.last() == b.last());
        if b.len() == 1 {
            assert(a + front =~= a);
            assert(text::join(b, sep) == b[0]);
        } else {
            law_join(a, front, one, sep);
            assert(text::join(all, sep) =~= text::join(a, sep) + sep + text::join(b, sep));
        }
    }
}

/// Joining the pieces of a text with their separator gives the text back.
pub proof fn law_joined_pieces(s: Seq<char>, sep: char)
    ensures
        text::join(text::pieces(s, sep), seq![sep]) == s,
    decreases s.len(),
{
    let gap = seq![sep];
    if s.len() == 0 {
        assert(text::join(text::pieces(s, sep), gap) =~= s);
    } else {
        let front = s.drop_last();
        law_joined_pieces(front, sep);
        text::lemma_pieces_nonempty(front, sep);
        let before = text::pieces(front, sep);
        let after = text::pieces(s, sep);
        assert(front.push(s.last()) =~= s);
        if s.last() == sep {
            assert(after.drop_last() =~= before);
            assert(text::join(after, gap) =~= s);
        } else {
            assert(after.drop_last() =~= before.drop_last());
            assert(after.last() == before.last().push(s.last()));
            assert(text::join(after, gap) =~= s);
        }
    }
}

/// A line feed ends a line, with a carriage return in front of it or not, and neither belongs to
/// the line; the rest of the text begins the next line. An unended last line is a line where it is
/// not empty. This tells the lines of every text.
pub proof fn law_lines(line: Seq<char>, rest: Seq<char>)
    requires
        !line.contains('\n'),
    ensures
        text::text_lines(Seq::empty()) == Seq::<Seq<char>>::empty(),
        line.len() > 0 ==> text::text_lines(line) == seq![line],
        line.len() == 0 || line.last() != '\r' ==> text::text_lines(line + seq!['\n'] + rest)
            == seq![line] + text::text_lines(rest),
        text::text_lines(line + seq!['\r', '\n'] + rest) == seq![line] + text::text_lines(rest),
{
    let none = Seq::<char>::empty();
    let p = text::pieces(none, '\n');
    assert(p =~= seq![none]);
    assert(text::text_lines(none) =~= Seq::<Seq<char>>::empty());
    law_one_piece(line, '\n');
    if line.len() > 0 {
        assert(text::pieces(line, '\n').last() == line);
        assert(text::text_lines(line) =~= seq![line]);
    }
    text::lemma_pieces_nonempty(rest, '\n');
    law_pieces_of_both(line, rest, '\n');
    let q = text::pieces(rest, '\n');
    let all = text::pieces(line + seq!['\n'] + rest, '\n');
    assert(all =~= seq![line] + q);
    if line.len() == 0 || line.last() != '\r' {
        assert(text::text_lines(line + seq!['\n'] + rest) =~= seq![line] + text::text_lines(rest));
    }
    let ended = line.push('\r');
    assert(!ended.contains('\n')) by {
        if ended.contains('\n') {
            let k = choose|k: int| 0 <= k < ended.len() && ended[k] == '\n';
            assert(line[k] == '\n');
        }
    }
    law_one_piece(ended, '\n');
    law_pieces_of_both(ended, rest, '\n');
    assert(ended + seq!['\n'] + rest =~= line + seq!['\r', '\n'] + rest);
    let more = text::pieces(ended + seq!['\n'] + rest, '\n');
    assert(more =~= seq![ended] + q);
    assert(ended.drop_last() =~= line);
    assert(text::text_lines(ended + seq!['\n'] + rest) =~= seq![line] + text::text_lines(rest));
}

/// A text holds another exactly if it is that one with something in front and behind.
pub proof fn law_has_text(s: Seq<char>, pat: Seq<char>)
    ensures
        text::has_text(s, pat) <==> exists|a: Seq<char>, b: Seq<char>| #[trigger] (a + pat + b)
            == s,
{
    if text::has_text(s, pat) {
        let i = choose|i: int|
            0 <= i && i + pat.len() <= s.len() && #[trigger] s.subrange(i, i + pat.len()) == pat;
        let a = s.take(i);
        let b = s.skip(i + pat.len());
        assert(a + pat + b =~= s) by {
            assert forall|k: int| 0 <= k < s.len() implies (a + pat + b)[k] == #[trigger] s[k] by {
                if i <= k < i + pat.len() {
                    assert(s.subrange(i, i + pat.len())[k - i] == s[k]);
                }
            }
        }
    }
    if exists|a: Seq<char>, b: Seq<char>| #[trigger] (a + pat + b) == s {
        let (a, b) = choose|a: Seq<char>, b: Seq<char>| #[trigger] (a + pat + b) == s;
        let i = a.len() as int;
        assert(s.subrange(i, i + pat.len()) =~= pat);
    }
}

/// Whether `a` and `b` agree up to `k`, where `a` ends, or has the character with the smaller code
/// point.
pub open spec fn differs_at(a: Seq<char>, b: Seq<char>, k: int) -> bool {
    &&& 0 <= k <= a.len()
    &&& k < b.len()
    &&& a.take(k) == b.take(k)
    &&& k < a.len() ==> (a[k] as u32) < (b[k] as u32)
}

/// Text comes first at the first place where two texts differ: where it ends, or has the character
/// with the smaller code point.
pub proof fn law_text_before(a: Seq<char>, b: Seq<char>)
    ensures
        text::text_before(a, b) <==> exists|k: int| #[trigger] differs_at(a, b, k),
    decreases a.len(),
{
    if a.len() == 0 {
        if b.len() > 0 {
            assert(a.take(0) =~= b.take(0));
            assert(differs_at(a, b, 0));
        }
    } else if b.len() > 0 {
        let x = a.skip(1);
        let y = b.skip(1);
        law_text_before(x, y);
        if (a[0] as u32) < (b[0] as u32) {
            assert(a.take(0) =~= b.take(0));
            assert(differs_at(a, b, 0));
        }
        if a[0] == b[0] && text::text_before(x, y) {
            let k = choose|k: int| #[trigger] differs_at(x, y, k);
            assert forall|i: int| 0 <= i < k + 1 implies #[trigger] a[i] == b[i] by {
                if i > 0 {
                    assert(x.take(k)[i - 1] == a[i]);
                    assert(y.take(k)[i - 1] == b[i]);
                }
            }
            assert(a.take(k + 1) =~= b.take(k + 1));
            assert(differs_at(a, b, k + 1));
        }
        if exists|k: int| #[trigger] differs_at(a, b, k) {
            let k = choose|k: int| #[trigger] differs_at(a, b, k);
            if k > 0 {
                assert(a.take(k)[0] == a[0]);
                assert(b.take(k)[0] == b[0]);
                assert forall|i: int| 0 <= i < k - 1 implies #[trigger] x[i] == y[i] by {
                    assert(a.take(k)[i + 1] == x[i]);
                    assert(b.take(k)[i + 1] == y[i]);
                }
                assert(x.take(k - 1) =~= y.take(k - 1));
                assert(differs_at(x, y, k - 1));
            }
        }
    }
}

} // verus!

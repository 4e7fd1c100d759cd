//! Text primitives: white space, trimming, splitting, joining and truncation.
//!
//! Every function works on the characters of a string; a string's view is the
//! sequence of its `char`s.

use vstd::prelude::*;

verus! {

/// `String::push` appends the given `char` to the end of the string.
pub assume_specification[ String::push ](s: &mut String, c: char)
    ensures
        final(s)@ == old(s)@.push(c),
;

/// The characters with the Unicode `White_Space` property.
pub open spec fn is_white_space(c: char) -> bool {
    let u = c as u32;
    ||| 0x09 <= u <= 0x0d
    ||| u == 0x20
    ||| u == 0x85
    ||| u == 0xa0
    ||| u == 0x1680
    ||| 0x2000 <= u <= 0x200a
    ||| u == 0x2028
    ||| u == 0x2029
    ||| u == 0x202f
    ||| u == 0x205f
    ||| u == 0x3000
}

/// Whether every character of `s` is white space.
pub open spec fn all_white_space(s: Seq<char>) -> bool {
    forall|i: int| 0 <= i < s.len() ==> is_white_space(#[trigger] s[i])
}

/// `s` without its trailing white space.
pub open spec fn trim_end(s: Seq<char>) -> Seq<char>
    decreases s.len(),
{
    if s.len() > 0 && is_white_space(s.last()) {
        trim_end(s.drop_last())
    } else {
        s
    }
}

/// `s` without its leading white space.
pub open spec fn trim_start(s: Seq<char>) -> Seq<char>
    decreases s.len(),
{
    if s.len() > 0 && is_white_space(s[0]) {
        trim_start(s.skip(1))
    } else {
        s
    }
}

/// `s` without its leading and trailing white space.
pub open spec fn trim(s: Seq<char>) -> Seq<char> {
    trim_end(trim_start(s))
}

/// The pieces of `s` between occurrences of `sep`: always at least one piece, and one more than
/// there are separators.
pub open spec fn pieces(s: Seq<char>, sep: char) -> Seq<Seq<char>>
    decreases s.len(),
{
    if s.len() == 0 {
        seq![Seq::<char>::empty()]
    } else {
        let before = pieces(s.drop_last(), sep);
        if s.last() == sep {
            before.push(Seq::<char>::empty())
        } else {
            before.drop_last().push(before.last().push(s.last()))
        }
    }
}

/// `s` without a carriage return at its end.
pub open spec fn strip_carriage_return(s: Seq<char>) -> Seq<char> {
    if s.len() > 0 && s.last() == '\r' {
        s.drop_last()
    } else {
        s
    }
}

/// The lines of `s`. A line ends in a newline, or in a carriage return followed by a newline,
/// neither of which belongs to the line; the ending of the last line is optional.
pub open spec fn text_lines(s: Seq<char>) -> Seq<Seq<char>> {
    let parts = pieces(s, '\n');
    let ended = Seq::new((parts.len() - 1) as nat, |i: int| strip_carriage_return(parts[i]));
    if parts.last().len() == 0 {
        ended
    } else {
        ended.push(parts.last())
    }
}

/// The elements of `list` with `sep` between each two of them.
pub open spec fn join(list: Seq<Seq<char>>, sep: Seq<char>) -> Seq<char>
    decreases list.len(),
{
    if list.len() == 0 {
        Seq::empty()
    } else if list.len() == 1 {
        list[0]
    } else {
        join(list.drop_last(), sep) + sep + list.last()
    }
}

/// The texts of a list of strings.
pub open spec fn texts(list: Seq<String>) -> Seq<Seq<char>> {
    Seq::new(list.len(), |i: int| list[i]@)
}

/// The text of an optional string.
pub open spec fn opt_text(s: Option<String>) -> Option<Seq<char>> {
    match s {
        Some(s) => Some(s@),
        None => None,
    }
}

/// `s` where it fits `max` characters; otherwise as much of its beginning as leaves room for a
/// `...` marker, and the marker.
pub open spec fn truncated(s: Seq<char>, max: nat) -> Seq<char> {
    if s.len() <= max {
        s
    } else {
        s.take(if max >= 3 { max - 3 } else { 0 }) + "..."@
    }
}

pub fn is_white_space_char(c: char) -> (r: bool)
    ensures
        r == is_white_space(c),
{
    let u: u32 = c as u32;
    (0x09 <= u && u <= 0x0d) || u == 0x20 || u == 0x85 || u == 0xa0 || u == 0x1680 || (0x2000 <= u
        && u <= 0x200a) || u == 0x2028 || u == 0x2029 || u == 0x202f || u == 0x205f || u == 0x3000
}

/// The characters of `s`.
pub fn chars_of(s: &str) -> (r: Vec<char>)
    ensures
        r@ == s@,
{
    let mut r: Vec<char> = Vec::new();
    for c in iter: s.chars()
        invariant
            iter.seq() == s@,
            r@ == s@.take(iter.index() as int),
    {
        r.push(c);
    }
    r
}

/// The string made of `chars[from..to]`.
pub fn string_of(chars: &Vec<char>, from: usize, to: usize) -> (r: String)
    requires
        from <= to <= chars.len(),
    ensures
        r@ == chars@.subrange(from as int, to as int),
{
    let mut r = String::new();
    let mut i: usize = from;
    while i < to
        invariant
            from <= i <= to <= chars.len(),
            r@ == chars@.subrange(from as int, i as int),
        decreases to - i,
    {
        r.push(chars[i]);
        i += 1;
        proof {
            assert(chars@.subrange(from as int, i as int) =~= chars@.subrange(
                from as int,
                i - 1,
            ).push(chars@[i - 1]));
        }
    }
    r
}

/// How many of the leading characters of `chars` stay when trailing white space goes.
fn trimmed_len(chars: &Vec<char>) -> (n: usize)
    ensures
        n <= chars.len(),
        trim_end(chars@) == chars@.take(n as int),
{
    let mut n: usize = chars.len();
    proof {
        assert(chars@.take(n as int) =~= chars@);
    }
    while n > 0 && is_white_space_char(chars[n - 1])
        invariant
            n <= chars.len(),
            trim_end(chars@) == trim_end(chars@.take(n as int)),
        decreases n,
    {
        n -= 1;
        proof {
            assert(chars@.take(n + 1).drop_last() =~= chars@.take(n as int));
        }
    }
    n
}

/// `s` without its trailing white space.
pub fn trim_end_text(s: &str) -> (r: String)
    ensures
        r@ == trim_end(s@),
{
    let chars = chars_of(s);
    let n: usize = trimmed_len(&chars);
    string_of(&chars, 0, n)
}

/// `s` without its leading and trailing white space.
pub fn trim_text(s: &str) -> (r: String)
    ensures
        r@ == trim(s@),
{
    let chars = chars_of(s);
    let mut from: usize = 0;
    proof {
        assert(chars@.skip(0) =~= chars@);
    }
    while from < chars.len() && is_white_space_char(chars[from])
        invariant
            from <= chars.len(),
            trim_start(s@) == trim_start(chars@.skip(from as int)),
        decreases chars.len() - from,
    {
        from += 1;
        proof {
            assert(chars@.skip(from - 1).skip(1) =~= chars@.skip(from as int));
        }
    }
    let rest = string_of(&chars, from, chars.len());
    proof {
        assert(rest@ =~= chars@.skip(from as int));
    }
    trim_end_text(rest.as_str())
}

/// The pieces of `s` between occurrences of `sep`.
pub fn split_text(s: &str, sep: char) -> (r: Vec<String>)
    ensures
        texts(r@) == pieces(s@, sep),
{
    let mut done: Vec<String> = Vec::new();
    let mut piece = String::new();
    proof {
        assert(s@.take(0) =~= Seq::<char>::empty());
        assert(texts(done@).push(piece@) =~= pieces(s@.take(0), sep));
    }
    for c in iter: s.chars()
        invariant
            iter.seq() == s@,
            texts(done@).push(piece@) == pieces(s@.take(iter.index() as int), sep),
    {
        let ghost i: int = iter.index() as int;
        let ghost before = texts(done@).push(piece@);
        proof {
            assert(s@.take(i + 1).drop_last() =~= s@.take(i));
            assert(s@.take(i + 1).last() == c);
            assert(before.drop_last() =~= texts(done@));
            assert(before.last() == piece@);
        }
        if c == sep {
            done.push(piece);
            piece = String::new();
            proof {
                assert(texts(done@) =~= before);
            }
        } else {
            piece.push(c);
        }
    }
    proof {
        assert(s@.take(s@.len() as int) =~= s@);
    }
    let ghost all = texts(done@).push(piece@);
    done.push(piece);
    proof {
        assert(texts(done@) =~= all);
    }
    done
}

/// There is always at least one piece.
pub proof fn lemma_pieces_nonempty(s: Seq<char>, sep: char)
    ensures
        pieces(s, sep).len() >= 1,
    decreases s.len(),
{
    if s.len() > 0 {
        lemma_pieces_nonempty(s.drop_last(), sep);
    }
}

/// The pieces of two texts with a separator between them are the pieces of each.
pub proof fn lemma_pieces_concat(a: Seq<char>, b: Seq<char>, sep: char)
    ensures
        pieces(a.push(sep) + b, sep) == pieces(a, sep) + pieces(b, sep),
    decreases b.len(),
{
    lemma_pieces_nonempty(a, sep);
    lemma_pieces_nonempty(b, sep);
    let all = a.push(sep) + b;
    if b.len() == 0 {
        assert(all.drop_last() =~= a);
        assert(pieces(all, sep) =~= pieces(a, sep) + pieces(b, sep));
    } else {
        lemma_pieces_concat(a, b.drop_last(), sep);
        lemma_pieces_nonempty(b.drop_last(), sep);
        assert(all.drop_last() =~= a.push(sep) + b.drop_last());
        assert(pieces(all, sep) =~= pieces(a, sep) + pieces(b, sep));
    }
}

/// Text without a separator only lengthens the last piece.
pub proof fn lemma_pieces_extend(s: Seq<char>, more: Seq<char>, sep: char)
    requires
        !more.contains(sep),
    ensures
        pieces(s + more, sep) == pieces(s, sep).drop_last().push(pieces(s, sep).last() + more),
    decreases more.len(),
{
    lemma_pieces_nonempty(s, sep);
    let p = pieces(s, sep);
    if more.len() == 0 {
        assert(s + more =~= s);
        assert(p.last() + more =~= p.last());
        assert(p.drop_last().push(p.last()) =~= p);
    } else {
        let rest = more.drop_last();
        assert forall|c: char| rest.contains(c) implies more.contains(c) by {
            let k = choose|k: int| 0 <= k < rest.len() && rest[k] == c;
            assert(more[k] == c);
        }
        lemma_pieces_extend(s, rest, sep);
        assert((s + more).drop_last() =~= s + rest);
        assert(more[more.len() - 1] == more.last());
        assert((p.last() + rest).push(more.last()) =~= p.last() + more);
        assert(p.drop_last().push(p.last() + rest).drop_last() =~= p.drop_last());
    }
}

/// No piece holds the separator.
pub proof fn lemma_pieces_hold_no_separator(s: Seq<char>, sep: char)
    ensures
        forall|i: int| 0 <= i < pieces(s, sep).len() ==> !(#[trigger] pieces(s, sep)[i]).contains(sep),
    decreases s.len(),
{
    if s.len() > 0 {
        let before = pieces(s.drop_last(), sep);
        lemma_pieces_hold_no_separator(s.drop_last(), sep);
        lemma_pieces_nonempty(s.drop_last(), sep);
        let after = pieces(s, sep);
        assert forall|i: int| 0 <= i < after.len() implies !(#[trigger] after[i]).contains(sep) by {
            if i < before.len() - 1 || s.last() == sep {
                if i < before.len() {
                    assert(after[i] == before[i]);
                }
            } else {
                assert(!before[before.len() - 1].contains(sep));
                if after[i].contains(sep) {
                    let k = choose|k: int| 0 <= k < after[i].len() && after[i][k] == sep;
                    assert(before.last()[k] == sep);
                }
            }
        }
    }
}

/// The lines of `s`.
pub fn lines_of(s: &str) -> (r: Vec<String>)
    ensures
        texts(r@) == text_lines(s@),
{
    let parts = split_text(s, '\n');
    let ghost all = pieces(s@, '\n');
    proof {
        lemma_pieces_nonempty(s@, '\n');
    }
    let last: usize = parts.len() - 1;
    let mut r: Vec<String> = Vec::new();
    let mut i: usize = 0;
    while i < last
        invariant
            last + 1 == parts.len(),
            texts(parts@) == all,
            i <= last,
            r@.len() == i,
            forall|k: int| 0 <= k < i ==> (#[trigger] r@[k])@ == strip_carriage_return(all[k]),
        decreases last - i,
    {
        let chars = chars_of(parts[i].as_str());
        proof {
            assert(all[i as int] == texts(parts@)[i as int]);
        }
        let mut n: usize = chars.len();
        if n > 0 && chars[n - 1] == '\r' {
            n -= 1;
        }
        let line = string_of(&chars, 0, n);
        proof {
            assert(line@ =~= strip_carriage_return(all[i as int]));
        }
        r.push(line);
        i += 1;
    }
    let ghost ended = Seq::new((all.len() - 1) as nat, |k: int| strip_carriage_return(all[k]));
    proof {
        assert(texts(r@) =~= ended);
        assert(all.last() == texts(parts@)[last as int]);
    }
    if parts[last].as_str().is_empty() {
        r
    } else {
        r.push(parts[last].clone());
        proof {
            assert(texts(r@) =~= ended.push(all.last()));
        }
        r
    }
}

/// How many lines `s` has.
pub fn line_count(s: &str) -> (n: usize)
    ensures
        n == text_lines(s@).len(),
{
    let lines = lines_of(s);
    proof {
        assert(texts(lines@).len() == lines@.len());
    }
    lines.len()
}

/// The strings of `list` with `sep` between each two of them.
pub fn join_texts(list: &Vec<String>, sep: &str) -> (r: String)
    ensures
        r@ == join(texts(list@), sep@),
{
    let ghost all = texts(list@);
    let mut r = String::new();
    let mut i: usize = 0;
    proof {
        assert(all.take(0) =~= Seq::empty());
    }
    while i < list.len()
        invariant
            i <= list.len(),
            all == texts(list@),
            r@ == join(all.take(i as int), sep@),
        decreases list.len() - i,
    {
        proof {
            let next = all.take(i + 1);
            assert(next.drop_last() =~= all.take(i as int));
            assert(next.last() == list@[i as int]@);
        }
        if i > 0 {
            r.append(sep);
        }
        r.append(list[i].as_str());
        i += 1;
        proof {
            assert(r@ =~= join(all.take(i as int), sep@));
        }
    }
    proof {
        assert(all.take(list.len() as int) =~= all);
    }
    r
}

/// Cuts `s` to at most `max` characters, never inside a character, with a `...` marker.
pub fn truncate(s: &str, max: usize) -> (r: String)
    ensures
        r@ == truncated(s@, max as nat),
{
    let chars = chars_of(s);
    if chars.len() <= max {
        string_of(&chars, 0, chars.len())
    } else {
        let keep: usize = max.saturating_sub(3);
        let mut cut = string_of(&chars, 0, keep);
        cut.append("...");
        cut
    }
}

/// Whether `pat` occurs in `s`.
pub open spec fn has_text(s: Seq<char>, pat: Seq<char>) -> bool {
    exists|i: int| 0 <= i && i + pat.len() <= s.len() && #[trigger] s.subrange(i, i + pat.len()) == pat
}

/// Whether `pat` occurs in `s`.
pub fn contains_text(s: &str, pat: &str) -> (r: bool)
    ensures
        r == has_text(s@, pat@),
{
    let text = chars_of(s);
    let goal = chars_of(pat);
    if goal.len() > text.len() {
        return false;
    }
    let stop: usize = text.len() - goal.len();
    let mut i: usize = 0;
    loop
        invariant
            text@ == s@,
            goal@ == pat@,
            stop + goal.len() == text.len(),
            i <= stop,
            forall|k: int| 0 <= k < i ==> #[trigger] s@.subrange(k, k + pat@.len()) != pat@,
        decreases stop - i,
    {
        let mut j: usize = 0;
        while j < goal.len() && text[i + j] == goal[j]
            invariant
                text@ == s@,
                goal@ == pat@,
                stop + goal.len() == text.len(),
                i <= stop,
                j <= goal.len(),
                forall|k: int| 0 <= k < j ==> #[trigger] pat@[k] == s@[i + k],
            decreases goal.len() - j,
        {
            j += 1;
        }
        if j == goal.len() {
            proof {
                assert(s@.subrange(i as int, i + pat@.len()) =~= pat@);
            }
            return true;
        }
        proof {
            assert(s@.subrange(i as int, i + pat@.len())[j as int] != pat@[j as int]);
        }
        if i == stop {
            return false;
        }
        i += 1;
    }
}

/// The order of texts: by the first character in which they differ, a prefix coming first.
pub open spec fn text_before(a: Seq<char>, b: Seq<char>) -> bool
    decreases a.len(),
{
    if b.len() == 0 {
        false
    } else if a.len() == 0 {
        true
    } else if a[0] != b[0] {
        (a[0] as u32) < (b[0] as u32)
    } else {
        text_before(a.skip(1), b.skip(1))
    }
}

/// Whether `a` comes strictly before `b`.
pub fn comes_before(a: &str, b: &str) -> (r: bool)
    ensures
        r == text_before(a@, b@),
{
    let x = chars_of(a);
    let y = chars_of(b);
    let mut i: usize = 0;
    proof {
        assert(x@.skip(0) =~= x@);
        assert(y@.skip(0) =~= y@);
    }
    while i < x.len() && i < y.len() && x[i] == y[i]
        invariant
            i <= x.len(),
            i <= y.len(),
            text_before(a@, b@) == text_before(x@.skip(i as int), y@.skip(i as int)),
        decreases x.len() - i,
    {
        proof {
            assert(x@.skip(i as int).skip(1) =~= x@.skip(i + 1));
            assert(y@.skip(i as int).skip(1) =~= y@.skip(i + 1));
        }
        i += 1;
    }
    if i >= y.len() {
        false
    } else if i >= x.len() {
        true
    } else {
        (x[i] as u32) < (y[i] as u32)
    }
}

/// A cut text fits where the marker alone does; it begins as the text does and ends with the
/// marker; and what fits is not cut, so cutting again changes nothing.
pub proof fn lemma_truncated_fits(s: Seq<char>, max: nat)
    ensures
        s.len() <= max ==> truncated(s, max) == s,
        s.len() > max >= 3 ==> {
            &&& truncated(s, max).len() == max
            &&& truncated(s, max).take(max - 3) == s.take(max - 3)
            &&& truncated(s, max).skip(max - 3) == "..."@
        },
        s.len() > max && max < 3 ==> truncated(s, max) == "..."@,
        truncated(truncated(s, max), max) == truncated(s, max),
{
    reveal_strlit("...");
    if s.len() > max {
        if max >= 3 {
            assert(truncated(s, max).take(max - 3) =~= s.take(max - 3));
            assert(truncated(s, max).skip(max - 3) =~= "..."@);
        } else {
            assert(truncated(s, max) =~= "..."@);
            assert(truncated("..."@, max) =~= "..."@);
        }
    }
}

} // verus!

//! Labels made from identifiers.

use vstd::prelude::*;

use crate::text::{chars_of, string_of};

verus! {

/// What `char::to_uppercase` yields for `c`: its uppercase mapping in Unicode.
pub uninterp spec fn uppercase(c: char) -> Seq<char>;

/// Whether `c` is an ASCII character.
pub open spec fn is_ascii_char(c: char) -> bool {
    (c as u32) < 128
}

/// The uppercase form of an ASCII character.
pub open spec fn ascii_uppercase(c: char) -> char {
    if 'a' as u32 <= c as u32 <= 'z' as u32 {
        (c as u32 - 32) as char
    } else {
        c
    }
}

/// Calls `char::to_uppercase` and collects what it yields. The result is the Unicode uppercase
/// mapping of `c`, which for an ASCII character is that letter of the other case, or the
/// character itself where it is no lowercase letter.
#[verifier::external_body]
fn uppercase_of(c: char) -> (r: String)
    ensures
        r@ == uppercase(c),
        is_ascii_char(c) ==> r@ == seq![ascii_uppercase(c)],
{
    c.to_uppercase().collect()
}

/// `id` with blanks in place of its hyphens.
pub open spec fn spaced(id: Seq<char>) -> Seq<char> {
    Seq::new(
        id.len(),
        |i: int|
            if id[i] == '-' {
                ' '
            } else {
                id[i]
            },
    )
}

/// `id` with blanks in place of its hyphens and `initial` in place of its first character.
pub open spec fn labeled(id: Seq<char>, initial: Seq<char>) -> Seq<char> {
    if id.len() == 0 {
        id
    } else {
        initial + spaced(id).skip(1)
    }
}

/// The label of `id`: blanks for hyphens, and the first character in upper case.
pub open spec fn pretty(id: Seq<char>) -> Seq<char> {
    labeled(id, uppercase(spaced(id)[0]))
}

/// `id` with blanks in place of its hyphens and `initial` in place of its first character.
pub fn label_with(id: &str, initial: &str) -> (r: String)
    ensures
        r@ == labeled(id@, initial@),
{
    let chars = chars_of(id);
    let mut r = String::new();
    if chars.len() == 0 {
        proof {
            assert(r@ =~= id@);
        }
        return r;
    }
    r.append(initial);
    let mut i: usize = 1;
    proof {
        assert(r@ =~= initial@ + spaced(id@).subrange(1, 1));
    }
    while i < chars.len()
        invariant
            chars@ == id@,
            1 <= i <= chars.len(),
            r@ == initial@ + spaced(id@).subrange(1, i as int),
        decreases chars.len() - i,
    {
        if chars[i] == '-' {
            r.push(' ');
        } else {
            r.push(chars[i]);
        }
        i += 1;
        proof {
            assert(r@ =~= initial@ + spaced(id@).subrange(1, i as int));
        }
    }
    proof {
        assert(r@ =~= labeled(id@, initial@));
    }
    r
}

/// The label of an identifier: `sample-1` becomes `Sample 1`.
pub fn pretty_id(id: &str) -> (r: String)
    ensures
        r@ == pretty(id@),
        id@.len() > 0 && is_ascii_char(id@[0]) ==> r@ == labeled(
            id@,
            seq![ascii_uppercase(spaced(id@)[0])],
        ),
{
    let chars = chars_of(id);
    if chars.len() == 0 {
        return string_of(&chars, 0, 0);
    }
    let first = if chars[0] == '-' {
        ' '
    } else {
        chars[0]
    };
    let initial = uppercase_of(first);
    label_with(id, initial.as_str())
}

} // verus!

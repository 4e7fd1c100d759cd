//! What writing, padding and reading numbers achieve.

use vstd::prelude::*;

use vstd::arithmetic::power::pow;

use crate::number;

verus! {

/// Whether `s` is written with the ten digits alone, and not empty.
pub open spec fn all_digits(s: Seq<char>) -> bool {
    s.len() > 0 && forall|i: int| 0 <= i < s.len() ==> '0' as u32 <= (#[trigger] s[i]) as u32
        <= '9' as u32
}

/// One digit denotes its distance from `0`, and a row of digits behind another adds to it the
/// number that it denotes itself, the other shifted by as many places.
pub proof fn law_digits_value(a: Seq<char>, b: Seq<char>, c: char)
    requires
        all_digits(seq![c]),
    ensures
        number::digits_value(Seq::empty()) == 0,
        number::digits_value(seq![c]) == c as u32 - '0' as u32,
        number::digits_value(a + b) == number::digits_value(a) * pow(10, b.len())
            + number::digits_value(b),
    decreases b.len(),
{
    let one = seq![c];
    assert('0' as u32 <= one[0] as u32);
    assert(one.drop_last() =~= Seq::<char>::empty());
    assert(number::digits_value(one.drop_last()) == 0);
    if b.len() == 0 {
        assert(a + b =~= a);
        vstd::arithmetic::power::lemma_pow0(10);
    } else {
        let front = b.drop_last();
        law_digits_value(a, front, c);
        assert((a + b).drop_last() =~= a + front);
        let x = number::digits_value(a) as int;
        let y = number::digits_value(front) as int;
        let p = pow(10, front.len()) as int;
        reveal(pow);
        assert(pow(10, b.len()) == 10 * p);
        assert((x * p + y) * 10 == x * (10 * p) + y * 10) by (nonlinear_arith);
    }
}

/// A number in decimal notation is a row of digits that denotes it, without zeros in front.
pub proof fn law_decimal(n: nat)
    ensures
        all_digits(number::decimal(n)),
        number::digits_value(number::decimal(n)) == n,
        number::decimal(n).len() > 1 ==> number::decimal(n)[0] != '0',
    decreases n,
{
    let s = number::decimal(n);
    if n < 10 {
        assert(s.drop_last() =~= Seq::<char>::empty());
        assert(number::digits_value(s.drop_last()) == 0);
    } else {
        let front = number::decimal(n / 10);
        law_decimal(n / 10);
        assert(s.drop_last() =~= front);
        assert forall|i: int| 0 <= i < s.len() implies '0' as u32 <= (#[trigger] s[i]) as u32
            <= '9' as u32 by {
            if i < front.len() {
                assert(s[i] == front[i]);
            }
        }
        assert(s[0] == front[0]);
        if front.len() == 1 {
            assert(front.drop_last() =~= Seq::<char>::empty());
            assert(number::digits_value(front.drop_last()) == 0);
            assert(front[0] != '0');
        }
    }
}

/// A negative number is written with a minus sign and the number without it; any other number
/// without a sign.
pub proof fn law_decimal_int(n: int)
    ensures
        n >= 0 ==> {
            &&& all_digits(number::decimal_int(n))
            &&& number::digits_value(number::decimal_int(n)) == n
        },
        n < 0 ==> {
            &&& number::decimal_int(n).len() > 0
            &&& number::decimal_int(n)[0] == '-'
            &&& all_digits(number::decimal_int(n).skip(1))
            &&& number::digits_value(number::decimal_int(n).skip(1)) == -n
        },
        number::decimal_int(n) == if n < 0 {
            seq!['-'] + number::decimal_int(-n)
        } else {
            number::decimal_int(n)
        },
{
    if n >= 0 {
        law_decimal(n as nat);
    } else {
        law_decimal((-n) as nat);
        assert(number::decimal_int(n).skip(1) =~= number::decimal((-n) as nat));
    }
}

/// Reading a written number gives it back, where it fits 64 bits.
pub proof fn law_read_back(n: int)
    ensures
        i64::MIN <= n <= i64::MAX ==> number::parsed_i64(number::decimal_int(n)) == Some(n),
        !(i64::MIN <= n <= i64::MAX) ==> number::parsed_i64(number::decimal_int(n)) is None,
{
    law_decimal_int(n);
    let s = number::decimal_int(n);
    if n >= 0 {
        assert('0' as u32 <= s[0] as u32);
        assert(number::is_digits(s));
    } else {
        assert(number::is_digits(s.skip(1)));
    }
}

/// What is read is a row of digits with at most one sign in front, and the number that it denotes;
/// nothing else is read, and no number that does not fit 64 bits.
pub proof fn law_read(digits: Seq<char>, s: Seq<char>)
    requires
        all_digits(digits),
    ensures
        ({
            let v = number::digits_value(digits) as int;
            &&& number::parsed_i64(digits) == if v <= i64::MAX {
                Some(v)
            } else {
                None
            }
            &&& number::parsed_i64(seq!['+'] + digits) == if v <= i64::MAX {
                Some(v)
            } else {
                None
            }
            &&& number::parsed_i64(seq!['-'] + digits) == if -v >= i64::MIN {
                Some(-v)
            } else {
                None
            }
        }),
        number::parsed_i64(s) is Some ==> {
            ||| all_digits(s)
            ||| s.len() > 0 && (s[0] == '+' || s[0] == '-') && all_digits(s.skip(1))
        },
{
    assert('0' as u32 <= digits[0] as u32);
    assert(number::is_digits(digits));
    assert((seq!['+'] + digits).skip(1) =~= digits);
    assert((seq!['-'] + digits).skip(1) =~= digits);
}

/// What is padded in front has the width asked for, or its own where that is larger; it ends in
/// what was padded, and has only the filling in front.
pub proof fn law_pad_front(s: Seq<char>, fill: char, width: nat)
    ensures
        ({
            let r = number::pad_front(s, fill, width);
            let k = r.len() - s.len();
            &&& r.len() == if s.len() >= width {
                s.len()
            } else {
                width
            }
            &&& r.skip(k) == s
            &&& forall|i: int| 0 <= i < k ==> #[trigger] r[i] == fill
        }),
{
    let r = number::pad_front(s, fill, width);
    assert(r.skip(r.len() - s.len()) =~= s);
}

/// What is padded behind has the width asked for, or its own where that is larger; it begins with
/// what was padded, and has only blanks behind.
pub proof fn law_pad_back(s: Seq<char>, width: nat)
    ensures
        ({
            let r = number::pad_back(s, width);
            &&& r.len() == if s.len() >= width {
                s.len()
            } else {
                width
            }
            &&& r.take(s.len() as int) == s
            &&& forall|i: int| s.len() <= i < r.len() ==> #[trigger] r[i] == ' '
        }),
{
    let r = number::pad_back(s, width);
    assert(r.take(s.len() as int) =~= s);
}

} // verus!

//! Decimal notation for unsigned integers.
//!
//! `decimal` says which characters denote a number; `decimal_string` writes
//! them out; `lemma_decimal_is_canonical` shows the notation is the usual one:
//! digits only, no padding, and read back it gives the number it came from.

use vstd::prelude::*;
use vstd::string::StringExecFns;

verus! {

/// The character that denotes the digit `d`, for `d` below ten.
pub open spec fn digit_char(d: nat) -> char {
    if d == 0 {
        '0'
    } else if d == 1 {
        '1'
    } else if d == 2 {
        '2'
    } else if d == 3 {
        '3'
    } else if d == 4 {
        '4'
    } else if d == 5 {
        '5'
    } else if d == 6 {
        '6'
    } else if d == 7 {
        '7'
    } else if d == 8 {
        '8'
    } else {
        '9'
    }
}

/// Whether `c` is one of the ten digit characters.
pub open spec fn is_digit(c: char) -> bool {
    '0' <= c <= '9'
}

/// The digit that `c` denotes; zero for a character that is no digit.
pub open spec fn digit_value(c: char) -> nat {
    if is_digit(c) {
        (c as int - '0' as int) as nat
    } else {
        0
    }
}

/// The decimal notation of `n`: most significant digit first, a single `0`
/// for zero.
pub open spec fn decimal(n: nat) -> Seq<char>
    decreases n,
{
    if n < 10 {
        seq![digit_char(n)]
    } else {
        decimal(n / 10).push(digit_char(n % 10))
    }
}

/// The number that a digit string denotes, read most significant digit first.
pub open spec fn decimal_value(s: Seq<char>) -> nat
    decreases s.len(),
{
    if s.len() == 0 {
        0
    } else {
        decimal_value(s.drop_last()) * 10 + digit_value(s.last())
    }
}

/// The notation of any number is a non-empty run of digits, starts with `0`
/// only for zero itself, and denotes the number it was made from. Two
/// different numbers therefore never share a notation.
pub proof fn lemma_decimal_is_canonical(n: nat)
    ensures
        decimal(n).len() >= 1,
        forall|i: int| 0 <= i < decimal(n).len() ==> is_digit(#[trigger] decimal(n)[i]),
        decimal(n)[0] == '0' <==> n == 0,
        decimal_value(decimal(n)) == n,
    decreases n,
{
    if n < 10 {
        assert(decimal(n) =~= seq![digit_char(n)]);
        assert(is_digit(digit_char(n)));
        assert(decimal(n).drop_last() =~= Seq::<char>::empty());
        assert(decimal_value(decimal(n)) == n) by {
            reveal_with_fuel(decimal_value, 2);
        }
    } else {
        let head = decimal(n / 10);
        let last = digit_char(n % 10);
        lemma_decimal_is_canonical(n / 10);
        assert(decimal(n) == head.push(last));
        assert(is_digit(last));
        assert forall|i: int| 0 <= i < decimal(n).len() implies is_digit(
            #[trigger] decimal(n)[i],
        ) by {
            if i < head.len() {
                assert(decimal(n)[i] == head[i]);
            }
        }
        assert(decimal(n)[0] == head[0]);
        assert(head.push(last).drop_last() =~= head);
        assert(digit_value(last) == n % 10);
    }
}

/// The one-character text of the digit `d`.
fn digit_str(d: u64) -> (s: &'static str)
    requires
        d < 10,
    ensures
        s@ == seq![digit_char(d as nat)],
{
    proof {
        reveal_strlit("0");
        reveal_strlit("1");
        reveal_strlit("2");
        reveal_strlit("3");
        reveal_strlit("4");
        reveal_strlit("5");
        reveal_strlit("6");
        reveal_strlit("7");
        reveal_strlit("8");
        reveal_strlit("9");
    }
    let s: &'static str = if d == 0 {
        "0"
    } else if d == 1 {
        "1"
    } else if d == 2 {
        "2"
    } else if d == 3 {
        "3"
    } else if d == 4 {
        "4"
    } else if d == 5 {
        "5"
    } else if d == 6 {
        "6"
    } else if d == 7 {
        "7"
    } else if d == 8 {
        "8"
    } else {
        "9"
    };
    assert(s@ =~= seq![digit_char(d as nat)]);
    s
}

/// Appends the decimal notation of `n` to `out`.
pub fn push_decimal(out: &mut String, n: u64)
    ensures
        final(out)@ == old(out)@ + decimal(n as nat),
    decreases n,
{
    if n >= 10 {
        push_decimal(out, n / 10);
    }
    let digit = digit_str(n % 10);
    out.append(digit);
    proof {
        let last = digit_char((n % 10) as nat);
        if n >= 10 {
            assert(old(out)@ + decimal((n / 10) as nat) + seq![last] =~= old(out)@ + decimal(
                (n / 10) as nat,
            ).push(last));
        }
    }
}

/// The decimal notation of `n` as an owned string.
pub fn decimal_string(n: u64) -> (s: String)
    ensures
        s@ == decimal(n as nat),
{
    let mut s = String::new();
    push_decimal(&mut s, n);
    assert(s@ =~= decimal(n as nat));
    s
}

} // verus!

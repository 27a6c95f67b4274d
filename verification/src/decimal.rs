//! Decimal rendering of session counters.
use vstd::prelude::*;

verus! {

broadcast use vstd::string::group_string_axioms;

/// The ASCII character of a decimal digit.
pub open spec fn digit_char(d: nat) -> char {
    (48 + d) as char
}

/// The decimal representation of `n`, most significant digit first, without
/// leading zeros (zero is written as a single `0`).
pub open spec fn decimal(n: nat) -> Seq<char>
    decreases n,
{
    if n < 10 {
        seq![digit_char(n)]
    } else {
        decimal(n / 10).push(digit_char(n % 10))
    }
}

/// Whether `c` is one of the characters `0`..`9`.
pub open spec fn is_digit(c: char) -> bool {
    '0' <= c <= '9'
}

/// Every character of `decimal(n)` is a digit, the representation is never
/// empty, and it has a leading zero only for `n == 0`.
pub proof fn lemma_decimal_shape(n: nat)
    ensures
        decimal(n).len() >= 1,
        forall|i: int| 0 <= i < decimal(n).len() ==> #[trigger] is_digit(decimal(n)[i]),
        (decimal(n)[0] == '0') <==> n == 0,
        (decimal(n).len() == 1) <==> n < 10,
    decreases n,
{
    if n >= 10 {
        lemma_decimal_shape(n / 10);
        let d = decimal(n / 10);
        assert(decimal(n) == d.push(digit_char(n % 10)));
        assert forall|i: int| 0 <= i < decimal(n).len() implies #[trigger] is_digit(decimal(n)[i]) by {
            if i < d.len() {
                assert(decimal(n)[i] == d[i]);
            }
        }
        assert(decimal(n)[0] == d[0]);
    }
}

/// Distinct numbers have distinct decimal representations.
pub proof fn lemma_decimal_injective(a: nat, b: nat)
    ensures
        decimal(a) == decimal(b) ==> a == b,
    decreases a,
{
    if decimal(a) == decimal(b) {
        lemma_decimal_shape(a);
        lemma_decimal_shape(b);
        if a < 10 {
            assert(b < 10);
            assert(decimal(a)[0] == digit_char(a));
            assert(decimal(b)[0] == digit_char(b));
        } else {
            assert(b >= 10);
            let da = decimal(a);
            let db = decimal(b);
            assert(da.last() == digit_char(a % 10));
            assert(db.last() == digit_char(b % 10));
            assert(da.drop_last() == decimal(a / 10));
            assert(db.drop_last() == decimal(b / 10));
            lemma_decimal_injective(a / 10, b / 10);
        }
    }
}

fn digit_str(d: u128) -> (s: &'static str)
    requires
        d < 10,
    ensures
        s@ == seq![digit_char(d as nat)],
{
    proof {
        reveal_strlit("0");
        reveal_strlit("1");
        reveal_strlit("2");
        reveal_strlit("3");
        reveal_strlit("4");
        reveal_strlit("5");
        reveal_strlit("6");
        reveal_strlit("7");
        reveal_strlit("8");
        reveal_strlit("9");
    }
    if d == 0 {
        "0"
    } else if d == 1 {
        "1"
    } else if d == 2 {
        "2"
    } else if d == 3 {
        "3"
    } else if d == 4 {
        "4"
    } else if d == 5 {
        "5"
    } else if d == 6 {
        "6"
    } else if d == 7 {
        "7"
    } else if d == 8 {
        "8"
    } else {
        "9"
    }
}

/// Writes `n` in decimal, as `u128::to_string` does.
pub fn decimal_string(n: u128) -> (s: String)
    ensures
        s@ == decimal(n as nat),
    decreases n,
{
    if n < 10 {
        digit_str(n).to_string()
    } else {
        let mut s = decimal_string(n / 10);
        s.append(digit_str(n % 10));
        s
    }
}

} // verus!

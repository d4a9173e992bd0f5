//! Decimal notation of integers.

use vstd::prelude::*;
use crate::text::push_char;

verus! {

/// The ten decimal digits, in order of value.
pub open spec fn digit_chars() -> Seq<char> {
    seq!['0', '1', '2', '3', '4', '5', '6', '7', '8', '9']
}

/// The decimal notation of `n`, without leading zeros.
pub open spec fn decimal(n: nat) -> Seq<char>
    decreases n,
{
    if n < 10 {
        seq![digit_chars()[n as int]]
    } else {
        decimal(n / 10).push(digit_chars()[(n % 10) as int])
    }
}

/// The decimal notation of `v`, with a leading minus sign when negative.
pub open spec fn signed_decimal(v: int) -> Seq<char> {
    if v < 0 {
        seq!['-'] + decimal((-v) as nat)
    } else {
        decimal(v as nat)
    }
}

/// The value of the digit `c`.
pub open spec fn digit_value(c: char) -> int {
    c as int - '0' as int
}

/// The number that a string of decimal digits denotes.
pub open spec fn decimal_value(s: Seq<char>) -> int
    decreases s.len(),
{
    if s.len() == 0 {
        0
    } else {
        decimal_value(s.drop_last()) * 10 + digit_value(s.last())
    }
}

/// `s` is a non-empty string of decimal digits.
pub open spec fn is_digit_string(s: Seq<char>) -> bool {
    &&& s.len() > 0
    &&& forall|i: int| 0 <= i < s.len() ==> '0' <= #[trigger] s[i] <= '9'
}

/// Each digit character has the value of its position.
pub proof fn lemma_digit_values()
    ensures
        forall|k: int| 0 <= k < 10 ==> digit_value(#[trigger] digit_chars()[k]) == k
            && '0' <= digit_chars()[k] <= '9',
{
    assert forall|k: int| 0 <= k < 10 implies digit_value(#[trigger] digit_chars()[k]) == k
        && '0' <= digit_chars()[k] <= '9' by {
        if k == 0 {} else if k == 1 {} else if k == 2 {} else if k == 3 {} else if k == 4 {}
        else if k == 5 {} else if k == 6 {} else if k == 7 {} else if k == 8 {} else {}
    }
}

/// Decimal notation can be read back: `decimal(n)` is a non-empty string of
/// digits whose value is `n`.
pub proof fn lemma_decimal_value(n: nat)
    ensures
        is_digit_string(decimal(n)),
        decimal_value(decimal(n)) == n,
    decreases n,
{
    lemma_digit_values();
    if n >= 10 {
        lemma_decimal_value(n / 10);
        let d = decimal(n);
        let q = (n / 10) as nat;
        let r = (n % 10) as int;
        assert(d.drop_last() == decimal(q));
        assert(d.last() == digit_chars()[r]);
        assert(digit_value(d.last()) == r);
        assert(decimal_value(d) == decimal_value(decimal(q)) * 10 + r);
        assert(decimal_value(decimal(q)) == q);
        assert(n == q * 10 + r);
    } else {
        let d = decimal(n);
        assert(d.drop_last() =~= Seq::<char>::empty());
        assert(d.last() == digit_chars()[n as int]);
        assert(decimal_value(d) == decimal_value(d.drop_last()) * 10 + digit_value(d.last()));
    }
}

/// Signed decimal notation can be read back: for a negative `v` it is a minus
/// sign followed by a non-empty string of digits whose value is `-v`; for any
/// other `v` (zero included) a non-empty string of digits whose value is `v`.
pub proof fn lemma_signed_decimal_value(v: int)
    ensures
        signed_decimal(v).len() > 0,
        v < 0 ==> {
            &&& signed_decimal(v)[0] == '-'
            &&& is_digit_string(signed_decimal(v).drop_first())
            &&& decimal_value(signed_decimal(v).drop_first()) == -v
        },
        v >= 0 ==> {
            &&& is_digit_string(signed_decimal(v))
            &&& decimal_value(signed_decimal(v)) == v
        },
{
    if v < 0 {
        lemma_decimal_value((-v) as nat);
        assert(signed_decimal(v).drop_first() =~= decimal((-v) as nat));
    } else {
        lemma_decimal_value(v as nat);
    }
}

/// Appends the decimal notation of `n` to `s`.
pub fn push_decimal(s: &mut String, n: u128)
    ensures
        final(s)@ == old(s)@ + decimal(n as nat),
    decreases n,
{
    let digits = ['0', '1', '2', '3', '4', '5', '6', '7', '8', '9'];
    assert(digits@ == digit_chars());
    if n >= 10 {
        push_decimal(s, n / 10);
        push_char(s, digits[(n % 10) as usize]);
        assert(old(s)@ + decimal(n as nat) =~= old(s)@ + decimal((n / 10) as nat) + seq![
            digits@[(n % 10) as int],
        ]);
    } else {
        push_char(s, digits[n as usize]);
        assert(old(s)@ + decimal(n as nat) =~= old(s)@.push(digits@[n as int]));
    }
}

/// Appends the decimal notation of `v`, signed, to `s`.
pub fn push_signed_decimal(s: &mut String, v: i64)
    ensures
        final(s)@ == old(s)@ + signed_decimal(v as int),
{
    if v < 0 {
        push_char(s, '-');
        let magnitude: u128 = (0i128 - v as i128) as u128;
        push_decimal(s, magnitude);
        assert(old(s)@ + signed_decimal(v as int) =~= old(s)@.push('-') + decimal(magnitude as nat));
    } else {
        push_decimal(s, v as u128);
    }
}

/// The decimal notation of `n`.
pub fn format_decimal(n: u128) -> (r: String)
    ensures
        r@ == decimal(n as nat),
{
    let mut s = String::new();
    push_decimal(&mut s, n);
    assert(Seq::<char>::empty() + decimal(n as nat) =~= decimal(n as nat));
    s
}

} // verus!

//! Decimal text of numbers, as `Display` writes it and as names carry it.

use vstd::prelude::*;

verus! {

/// The decimal text of `n`.
pub open spec fn decimal_text(n: nat) -> Seq<char>
    decreases n,
{
    if n < 10 {
        seq![(48 + n) as char]
    } else {
        decimal_text(n / 10).push((48 + n % 10) as char)
    }
}

/// The decimal text of `n`, as `u64::to_string` writes it.
pub(crate) fn u64_text(n: u64) -> (s: String)
    ensures
        s@ == decimal_text(n as nat),
{
    u128_text(n as u128)
}

/// Value of a sequence of decimal digit characters.
pub open spec fn char_digits_value(s: Seq<char>) -> nat
    decreases s.len(),
{
    if s.len() == 0 {
        0
    } else {
        char_digits_value(s.drop_last()) * 10 + (s.last() as int - 48) as nat
    }
}

pub proof fn lemma_char_digits_push(s: Seq<char>, c: char)
    ensures
        char_digits_value(s.push(c)) == char_digits_value(s) * 10 + (c as int - 48) as nat,
{
    assert(s.push(c).drop_last() =~= s);
}

/// The decimal text of `n`, as `u128::to_string` writes it.
pub(crate) fn u128_text(n: u128) -> (s: String)
    ensures
        s@ == decimal_text(n as nat),
    decreases n,
{
    let digits = "0123456789";
    proof {
        reveal_strlit("0123456789");
    }
    let d = (n % 10) as usize;
    let last = digits.substring_char(d, d + 1);
    assert(last@ =~= seq![(48 + d) as char]) by {
        assert(digits@[d as int] == (48 + d) as char);
    }
    if n < 10 {
        String::from_str(last)
    } else {
        let mut text = u128_text(n / 10);
        text.append(last);
        text
    }
}

/// Decimal text reads back as the number it was written from, and consists
/// of at least one ASCII digit.
pub proof fn lemma_decimal_text(n: nat)
    ensures
        decimal_text(n).len() > 0,
        forall|i: int| 0 <= i < decimal_text(n).len() ==> '0' <= #[trigger] decimal_text(n)[i] <= '9',
        char_digits_value(decimal_text(n)) == n,
    decreases n,
{
    if n < 10 {
        let c = (48 + n) as char;
        assert(seq![c].drop_last() =~= Seq::<char>::empty());
        assert(char_digits_value(Seq::<char>::empty()) == 0);
    } else {
        lemma_decimal_text(n / 10);
        let s = decimal_text(n / 10);
        let c = (48 + n % 10) as char;
        lemma_char_digits_push(s, c);
        assert(n == (n / 10) * 10 + n % 10);
        assert forall|i: int| 0 <= i < s.push(c).len() implies '0' <= #[trigger] s.push(c)[i]
            <= '9' by {
            if i < s.len() {
                assert(s.push(c)[i] == s[i]);
            }
        }
    }
}

} // verus!

//! Decimal numbers.

use vstd::prelude::*;

verus! {

/// The decimal digit of `n`.
pub open spec fn digit_char(n: int) -> char {
    ((0x30 + n) as u32) as char
}

/// `n` in decimal, without leading zeros.
pub open spec fn decimal_of(n: int) -> Seq<char>
    decreases n,
{
    if n < 10 {
        seq![digit_char(n)]
    } else {
        decimal_of(n / 10).push(digit_char(n % 10))
    }
}

/// A decimal digit.
pub open spec fn is_digit(c: char) -> bool {
    '0' <= c && c <= '9'
}

/// The value of a decimal digit.
pub open spec fn digit_value(c: char) -> int {
    c as int - 0x30
}

/// The value of decimal digits; none where the text is empty or holds anything else.
pub open spec fn value_of(s: Seq<char>) -> Option<int>
    decreases s.len(),
{
    if s.len() == 0 || !is_digit(s.last()) {
        None
    } else if s.len() == 1 {
        Some(digit_value(s[0]))
    } else {
        match value_of(s.drop_last()) {
            Some(v) => Some(v * 10 + digit_value(s.last())),
            None => None,
        }
    }
}

fn digit(n: u8) -> (r: char)
    requires
        n < 10,
    ensures
        r == digit_char(n as int),
{
    (0x30 + n) as char
}

/// `n` in decimal.
pub fn decimal(n: u64) -> (r: Vec<char>)
    ensures
        r@ == decimal_of(n as int),
    decreases n,
{
    if n < 10 {
        let one: Vec<char> = vec![digit(n as u8)];
        assert(one@ =~= decimal_of(n as int));
        one
    } else {
        let mut all = decimal(n / 10);
        all.push(digit((n % 10) as u8));
        all
    }
}

/// `n` in decimal with two digits; of a larger number the last two.
pub open spec fn two_digits_of(n: int) -> Seq<char> {
    seq![digit_char(n / 10 % 10), digit_char(n % 10)]
}

/// `n` in decimal with two digits.
pub fn two_digits(n: u64) -> (r: Vec<char>)
    ensures
        r@ == two_digits_of(n as int),
{
    let all: Vec<char> = vec![digit((n / 10 % 10) as u8), digit((n % 10) as u8)];
    assert(all@ =~= two_digits_of(n as int));
    all
}

pub proof fn lemma_value_is_natural(s: Seq<char>)
    ensures
        value_of(s) matches Some(v) ==> v >= 0,
    decreases s.len(),
{
    if s.len() > 1 {
        lemma_value_is_natural(s.drop_last());
    }
}

/// The value of decimal digits, if it fits in 64 bits.
pub fn parse_decimal(s: &[char]) -> (r: Option<u64>)
    ensures
        match r {
            Some(v) => value_of(s@) == Some(v as int),
            None => match value_of(s@) {
                Some(v) => v > u64::MAX,
                None => true,
            },
        },
{
    if s.len() == 0 {
        return None;
    }
    let mut v: u64 = 0;
    let mut too_large = false;
    let mut i: usize = 0;
    while i < s.len()
        invariant
            i <= s@.len(),
            s@.len() > 0,
            i == 0 ==> v == 0 && !too_large,
            i > 0 ==> value_of(s@.take(i as int)) is Some,
            i > 0 && !too_large ==> value_of(s@.take(i as int)) == Some(v as int),
            too_large ==> value_of(s@.take(i as int))->0 > u64::MAX,
        decreases s@.len() - i,
    {
        let c = s[i];
        let ghost next = s@.take(i + 1);
        assert(next.drop_last() =~= s@.take(i as int));
        if !('0' <= c && c <= '9') {
            proof {
                lemma_no_value(s@, i as int);
            }
            return None;
        }
        let d: u64 = (c as u8 - 0x30) as u64;
        proof {
            lemma_value_is_natural(s@.take(i as int));
        }
        if too_large || v > (u64::MAX - d) / 10 {
            too_large = true;
        } else {
            v = v * 10 + d;
        }
        i = i + 1;
    }
    assert(s@.take(i as int) =~= s@);
    if too_large {
        None
    } else {
        Some(v)
    }
}

/// What holds anything but digits has no value.
proof fn lemma_no_value(s: Seq<char>, i: int)
    requires
        0 <= i < s.len(),
        !is_digit(s[i]),
    ensures
        value_of(s) is None,
    decreases s.len(),
{
    if i < s.len() - 1 {
        lemma_no_value(s.drop_last(), i);
    }
}

/// `pos + delta`, wrapped around into `0..n`.
pub fn wrapped_sum(pos: u64, delta: i64, n: u64) -> (r: u64)
    requires
        n > 0,
    ensures
        r == (pos + delta) % n as int,
        r < n,
{
    let sum: i128 = pos as i128 + delta as i128;
    if sum >= 0 {
        (sum as u128 % n as u128) as u64
    } else {
        let below: u128 = (-sum) as u128;
        let k: u64 = (below % n as u128) as u64;
        proof {
            let q = below as int / n as int;
            vstd::arithmetic::div_mod::lemma_fundamental_div_mod(below as int, n as int);
            assert(below == n * q + k);
            if k == 0 {
                assert(sum == (-q) * n + 0) by (nonlinear_arith)
                    requires
                        sum == -(n * q),
                ;
                vstd::arithmetic::div_mod::lemma_fundamental_div_mod_converse_mod(
                    sum as int,
                    n as int,
                    -q,
                    0,
                );
            } else {
                assert(sum == (-q - 1) * n + (n - k)) by (nonlinear_arith)
                    requires
                        sum == -(n * q + k),
                ;
                vstd::arithmetic::div_mod::lemma_fundamental_div_mod_converse_mod(
                    sum as int,
                    n as int,
                    -q - 1,
                    n - k,
                );
            }
        }
        if k == 0 {
            0
        } else {
            n - k
        }
    }
}

/// Reading the decimal form of a number gives the number.
pub proof fn law_decimal_is_read_back(n: int)
    requires
        0 <= n,
    ensures
        value_of(decimal_of(n)) == Some(n),
        forall|i: int| 0 <= i < decimal_of(n).len() ==> is_digit(#[trigger] decimal_of(n)[i]),
        decimal_of(n).len() > 0,
    decreases n,
{
    if n >= 10 {
        law_decimal_is_read_back(n / 10);
        assert(decimal_of(n).drop_last() =~= decimal_of(n / 10));
    }
}

/// Reading two digits gives the number that they show.
pub proof fn law_two_digits_are_read_back(n: int)
    requires
        0 <= n < 100,
    ensures
        value_of(two_digits_of(n)) == Some(n),
{
    let s = two_digits_of(n);
    assert(s.drop_last() =~= seq![digit_char(n / 10 % 10)]);
    assert(value_of(s.drop_last()) == Some(n / 10));
}

/// The decimal form has no leading zero, but for the number 0 itself.
pub proof fn law_decimal_has_no_leading_zero(n: int)
    requires
        0 < n,
    ensures
        decimal_of(n)[0] != '0',
    decreases n,
{
    if n >= 10 {
        law_decimal_has_no_leading_zero(n / 10);
        law_decimal_is_read_back(n / 10);
        assert(decimal_of(n)[0] == decimal_of(n / 10)[0]);
    }
}

/// Each digit counts ten times as much as the one behind it, and digits count from 0 to 9.
pub proof fn law_digits_count_tenfold(s: Seq<char>, v: int, k: int)
    requires
        value_of(s) == Some(v),
        0 <= k < 10,
    ensures
        value_of(seq![digit_char(k)]) == Some(k),
        value_of(s.push(digit_char(k))) == Some(10 * v + k),
        digit_char(0) == '0',
        digit_char(9) == '9',
        digit_char(k) as int == '0' as int + k,
{
    assert(s.push(digit_char(k)).drop_last() =~= s);
}

/// Text with anything but digits in it has no value, and neither has empty text.
pub proof fn law_only_digits_have_a_value(s: Seq<char>)
    ensures
        value_of(s) is Some <==> s.len() > 0 && forall|i: int|
            0 <= i < s.len() ==> '0' <= #[trigger] s[i] <= '9',
    decreases s.len(),
{
    if s.len() > 0 {
        let d = s.drop_last();
        law_only_digits_have_a_value(d);
        if value_of(s) is Some {
            assert forall|i: int| 0 <= i < s.len() implies '0' <= #[trigger] s[i] <= '9' by {
                if i < s.len() - 1 {
                    assert(s[i] == d[i]);
                }
            }
        } else if s.len() > 1 {
            if forall|i: int| 0 <= i < s.len() ==> '0' <= #[trigger] s[i] <= '9' {
                assert(is_digit(s[s.len() - 1]));
                assert(value_of(d) is None);
                let i = choose|i: int| 0 <= i < d.len() && !('0' <= #[trigger] d[i] <= '9');
                assert(s[i] == d[i]);
            }
        } else {
            assert(!is_digit(s[0]));
        }
    }
}

} // verus!

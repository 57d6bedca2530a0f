//! Decimal numerals: rendering unsigned integers and parsing them back the
//! way `str::parse` does for unsigned integer types.

use vstd::prelude::*;

verus! {

/// The character of a decimal digit `d < 10`.
pub open spec fn digit_char(d: nat) -> char {
    (48 + d) as char
}

/// The decimal numeral of `n`, without sign or leading zeros.
pub open spec fn decimal_spec(n: nat) -> Seq<char>
    decreases n,
{
    if n < 10 {
        seq![digit_char(n)]
    } else {
        decimal_spec(n / 10).push(digit_char(n % 10))
    }
}

/// Decimal digits, as `usize::to_string` writes them.
pub fn usize_to_decimal(n: usize) -> (s: String)
    ensures
        s@ == decimal_spec(n as nat),
    decreases n,
{
    if n < 10 {
        let mut s = String::new();
        let d: u8 = n as u8;
        crate::text::push_char(&mut s, (48u8 + d) as char);
        s
    } else {
        let mut s = usize_to_decimal(n / 10);
        let d: u8 = (n % 10) as u8;
        crate::text::push_char(&mut s, (48u8 + d) as char);
        s
    }
}

/// A character in `'0'..='9'`.
pub open spec fn is_digit_char(c: char) -> bool {
    48 <= (c as u32) <= 57
}

/// Every character of `s` is a decimal digit.
pub open spec fn all_digits(s: Seq<char>) -> bool {
    forall|i: int| 0 <= i < s.len() ==> is_digit_char(#[trigger] s[i])
}

/// The value of a string of decimal digits.
pub open spec fn digits_value(s: Seq<char>) -> nat
    decreases s.len(),
{
    if s.len() == 0 {
        0
    } else {
        digits_value(s.drop_last()) * 10 + ((s.last() as u32) - 48) as nat
    }
}

/// The digits of a numeral, after one optional leading `+`.
pub open spec fn unsigned_digits(s: Seq<char>) -> Seq<char> {
    if s.len() > 0 && s[0] == '+' {
        s.drop_first()
    } else {
        s
    }
}

/// What `str::parse` gives for an unsigned integer type whose largest value is
/// `max`: an optional `+`, then at least one decimal digit and nothing else,
/// with a value that fits.
pub open spec fn parse_unsigned_spec(s: Seq<char>, max: nat) -> Option<nat> {
    let d = unsigned_digits(s);
    if d.len() > 0 && all_digits(d) && digits_value(d) <= max {
        Some(digits_value(d))
    } else {
        None
    }
}

/// A digit string is worth at least any of its prefixes.
pub proof fn lemma_digits_value_prefix(s: Seq<char>, i: int)
    requires
        0 <= i <= s.len(),
    ensures
        digits_value(s.take(i)) <= digits_value(s),
    decreases s.len(),
{
    if i < s.len() {
        assert(s.drop_last().take(i) =~= s.take(i));
        lemma_digits_value_prefix(s.drop_last(), i);
    } else {
        assert(s.take(i) =~= s);
    }
}

/// Parses an unsigned decimal numeral no larger than `max`.
pub fn parse_decimal(v: &Vec<char>, max: u64) -> (r: Option<u64>)
    ensures
        r matches Some(x) ==> parse_unsigned_spec(v@, max as nat) == Some(x as nat),
        r is None ==> parse_unsigned_spec(v@, max as nat) is None,
{
    let start: usize = if v.len() > 0 && v[0] == '+' { 1 } else { 0 };
    let ghost d = unsigned_digits(v@);
    assert(d =~= v@.subrange(start as int, v.len() as int));
    if start >= v.len() {
        return None;
    }
    let mut acc: u64 = 0;
    let mut i: usize = start;
    while i < v.len()
        invariant
            start <= i <= v.len(),
            start < v.len(),
            d == unsigned_digits(v@),
            d =~= v@.subrange(start as int, v.len() as int),
            all_digits(d.take(i - start)),
            acc as nat == digits_value(d.take(i - start)),
            acc <= max,
        decreases v.len() - i,
    {
        let c = v[i];
        let code: u32 = c as u32;
        if code < 48 || code > 57 {
            assert(d[i - start] == c);
            return None;
        }
        let dv: u64 = (code - 48) as u64;
        assert(d.take(i + 1 - start).drop_last() =~= d.take(i - start));
        assert(d.take(i + 1 - start).last() == c);
        if dv > max || acc > (max - dv) / 10 {
            proof {
                let q = (max - dv) / 10;
                if dv <= max {
                    assert(acc * 10 + dv > max) by (nonlinear_arith)
                        requires acc > q, q == (max - dv) / 10, dv <= max;
                }
                assert(digits_value(d.take(i + 1 - start)) > max);
                if all_digits(d) {
                    lemma_digits_value_prefix(d, i + 1 - start);
                }
            }
            return None;
        }
        assert(acc * 10 + dv <= max) by (nonlinear_arith)
            requires acc <= (max - dv) / 10, dv <= max;
        acc = acc * 10 + dv;
        assert(all_digits(d.take(i + 1 - start)));
        i += 1;
    }
    assert(d.take(v.len() - start) =~= d);
    Some(acc)
}

} // verus!

verus! {

proof fn lemma_decimal_digits(n: nat)
    ensures
        decimal_spec(n).len() > 0,
        all_digits(decimal_spec(n)),
        digits_value(decimal_spec(n)) == n,
    decreases n,
{
    assert((digit_char(n % 10) as u32) == 48 + n % 10);
    if n < 10 {
        let s = decimal_spec(n);
        assert(s =~= seq![digit_char(n)]);
        assert(s.drop_last() =~= Seq::<char>::empty());
        assert(digits_value(s.drop_last()) == 0);
        assert((s.last() as u32) == 48 + n);
        assert(digits_value(s) == n);
        assert(is_digit_char(s[0]));
    } else {
        lemma_decimal_digits(n / 10);
        let h = decimal_spec(n / 10);
        let s = h.push(digit_char(n % 10));
        assert(s.drop_last() =~= h);
        assert(digits_value(s) == digits_value(h) * 10 + n % 10);
        assert((n / 10) * 10 + n % 10 == n);
        assert forall|i: int| 0 <= i < s.len() implies is_digit_char(#[trigger] s[i]) by {
            if i < h.len() {
                assert(s[i] == h[i]);
            }
        }
    }
}

/// Parsing a rendered number gives the number back, for every type whose
/// largest value it does not exceed.
pub proof fn lemma_decimal_round_trip(n: nat, max: nat)
    requires
        n <= max,
    ensures
        parse_unsigned_spec(decimal_spec(n), max) == Some(n),
{
    lemma_decimal_digits(n);
    assert(is_digit_char(decimal_spec(n)[0]));
}

} // verus!

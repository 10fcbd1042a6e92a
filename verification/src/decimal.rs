//! ASCII decimal rendering and parsing of unsigned integers.
use vstd::prelude::*;

verus! {

/// The ASCII code of the decimal digit `d` (`0 <= d < 10`).
pub open spec fn digit_char(d: nat) -> u8 {
    (48 + d) as u8
}

/// `b` is an ASCII decimal digit.
pub open spec fn is_digit(b: u8) -> bool {
    48 <= b <= 57
}

/// The shortest decimal rendering of `n`, most significant digit first.
pub open spec fn digits(n: nat) -> Seq<u8>
    decreases n,
{
    if n < 10 {
        seq![digit_char(n)]
    } else {
        digits(n / 10).push(digit_char(n % 10))
    }
}

/// The rendering of `n` with at least two digits (a leading zero below ten).
pub open spec fn digits_02(n: nat) -> Seq<u8> {
    if n < 10 {
        seq![48u8].add(digits(n))
    } else {
        digits(n)
    }
}

/// The rendering of the integer `n`, with a leading `-` when it is negative.
pub open spec fn signed_digits(n: int) -> Seq<u8> {
    if n < 0 {
        seq![45u8].add(digits((-n) as nat))
    } else {
        digits(n as nat)
    }
}

/// The value of a sequence of decimal digits, most significant first.
pub open spec fn digits_value(s: Seq<u8>) -> nat
    decreases s.len(),
{
    if s.len() == 0 {
        0
    } else {
        digits_value(s.drop_last()) * 10 + (s.last() - 48) as nat
    }
}

pub open spec fn all_digits(s: Seq<u8>) -> bool {
    forall|i: int| 0 <= i < s.len() ==> is_digit(#[trigger] s[i])
}

/// What `str::parse::<u64>` gives for the bytes `s`: an optional `+`, then at
/// least one decimal digit and nothing else, with a value that fits in `u64`.
pub open spec fn spec_parse_u64(s: Seq<u8>) -> Option<u64> {
    let d = if s.len() > 0 && s[0] == 43u8 { s.drop_first() } else { s };
    if d.len() > 0 && all_digits(d) && digits_value(d) <= u64::MAX {
        Some(digits_value(d) as u64)
    } else {
        None
    }
}

pub proof fn lemma_digits_shape(n: nat)
    ensures
        digits(n).len() >= 1,
        all_digits(digits(n)),
        digits_value(digits(n)) == n,
        n < 10 ==> digits(n).len() == 1,
        10 <= n < 100 ==> digits(n).len() == 2,
        100 <= n < 1000 ==> digits(n).len() == 3,
        1000 <= n < 10000 ==> digits(n).len() == 4,
        10000 <= n < 100000 ==> digits(n).len() == 5,
    decreases n,
{
    if n < 10 {
        assert(digits(n).drop_last() =~= Seq::<u8>::empty());
        assert(digit_char(n) - 48 == n);
        assert(digits_value(Seq::<u8>::empty()) == 0);
        assert(digits_value(digits(n)) == digits_value(digits(n).drop_last()) * 10 + (digits(n).last() - 48) as nat);
    } else {
        lemma_digits_shape(n / 10);
        let s = digits(n);
        assert(s.drop_last() =~= digits(n / 10));
        assert(s.last() == digit_char(n % 10));
        assert(digit_char(n % 10) - 48 == n % 10);
        assert(digits_value(s) == digits_value(digits(n / 10)) * 10 + (n % 10));
        assert(n == (n / 10) * 10 + n % 10);
        assert forall|i: int| 0 <= i < s.len() implies is_digit(#[trigger] s[i]) by {
            if i < s.len() - 1 {
                assert(s[i] == digits(n / 10)[i]);
            }
        }
    }
}

/// Renderings are ASCII.
pub proof fn lemma_digits_ascii(n: nat)
    ensures
        crate::text::is_ascii_text(digits(n)),
        crate::text::is_ascii_text(digits_02(n)),
        crate::text::is_ascii_text(signed_digits(n as int)),
        crate::text::is_ascii_text(signed_digits(-(n as int))),
{
    lemma_digits_shape(n);
    let d = digits(n);
    assert forall|i: int| 0 <= i < d.len() implies #[trigger] d[i] < 128 by {
        assert(is_digit(d[i]));
    }
    crate::text::lemma_ascii_concat(seq![48u8], d);
    crate::text::lemma_ascii_concat(seq![45u8], d);
    assert(seq![48u8][0] < 128);
    assert(seq![45u8][0] < 128);
    if n > 0 {
        assert(signed_digits(-(n as int)) == seq![45u8] + digits(n));
    }
}

/// `10` to the power `k`.
pub open spec fn pow10(k: nat) -> nat
    decreases k,
{
    if k == 0 {
        1
    } else {
        10 * pow10((k - 1) as nat)
    }
}

/// A number below `10^k` has at most `k` digits.
pub proof fn lemma_digits_len_bound(n: nat, k: nat)
    requires
        n < pow10(k),
        k >= 1,
    ensures
        digits(n).len() <= k,
    decreases k,
{
    if n >= 10 {
        assert(k >= 2) by {
            if k == 1 {
                assert(pow10(0) == 1);
            }
        }
        assert(n / 10 < pow10((k - 1) as nat));
        lemma_digits_len_bound(n / 10, (k - 1) as nat);
        assert(digits(n).len() == digits(n / 10).len() + 1);
    }
}

/// Appends the decimal rendering of `n` to `out`.
pub fn push_decimal(out: &mut Vec<u8>, n: u64)
    ensures
        final(out)@ == old(out)@ + digits(n as nat),
    decreases n,
{
    if n >= 10 {
        push_decimal(out, n / 10);
    }
    let d: u8 = (n % 10) as u8;
    out.push(48u8 + d);
    proof {
        if n < 10 {
            assert(digits(n as nat) =~= seq![digit_char(n as nat)]);
        }
    }
}

/// Appends `n` rendered with at least two digits, as `{:02}` does.
pub fn push_decimal_02(out: &mut Vec<u8>, n: u64)
    ensures
        final(out)@ == old(out)@ + digits_02(n as nat),
{
    if n < 10 {
        out.push(48u8);
    }
    push_decimal(out, n);
    proof {
        if n < 10 {
            assert(final(out)@ =~= old(out)@ + digits_02(n as nat));
        }
    }
}

/// Appends the rendering of a signed integer, as `{}` does.
pub fn push_signed(out: &mut Vec<u8>, n: i64)
    ensures
        final(out)@ == old(out)@ + signed_digits(n as int),
{
    if n < 0 {
        out.push(45u8);
        let m: u64 = if n == i64::MIN { 9223372036854775808u64 } else { (-n) as u64 };
        push_decimal(out, m);
        proof {
            assert(final(out)@ =~= old(out)@ + signed_digits(n as int));
        }
    } else {
        push_decimal(out, n as u64);
    }
}

proof fn lemma_digits_value_step(s: Seq<u8>, i: int)
    requires
        0 <= i < s.len(),
    ensures
        digits_value(s.take(i + 1)) == digits_value(s.take(i)) * 10 + (s[i] - 48) as nat,
{
    assert(s.take(i + 1).drop_last() =~= s.take(i));
}

proof fn lemma_digits_value_prefix(s: Seq<u8>, i: int)
    requires
        0 <= i <= s.len(),
        all_digits(s),
    ensures
        digits_value(s.take(i)) <= digits_value(s),
    decreases s.len() - i,
{
    if i < s.len() {
        lemma_digits_value_step(s, i);
        lemma_digits_value_prefix(s, i + 1);
    } else {
        assert(s.take(i) =~= s);
    }
}

/// Parses `s` as `str::parse::<u64>` does: `None` where that fails.
pub fn parse_u64(s: &[u8]) -> (r: Option<u64>)
    ensures
        r == spec_parse_u64(s@),
{
    let len = s.len();
    let start: usize = if len > 0 && s[0] == 43u8 { 1 } else { 0 };
    let ghost d = if s@.len() > 0 && s@[0] == 43u8 { s@.drop_first() } else { s@ };
    assert(d =~= s@.subrange(start as int, len as int));
    if start == len {
        return None;
    }
    let mut acc: u64 = 0;
    let mut i: usize = start;
    while i < len
        invariant
            start <= i <= len,
            len == s@.len(),
            d =~= s@.subrange(start as int, len as int),
            d == (if s@.len() > 0 && s@[0] == 43u8 { s@.drop_first() } else { s@ }),
            start < len,
            forall|j: int| 0 <= j < i - start ==> is_digit(#[trigger] d[j]),
            acc as nat == digits_value(d.take(i - start)),
        decreases len - i,
    {
        let b = s[i];
        if b < 48u8 || b > 57u8 {
            assert(d[i - start] == s@[i as int]);
            assert(!is_digit(d[i - start]));
            return None;
        }
        let v: u64 = (b - 48u8) as u64;
        proof {
            lemma_digits_value_step(d, i - start);
        }
        if acc > (u64::MAX - v) / 10 {
            proof {
                assert(digits_value(d.take(i - start + 1)) > u64::MAX) by (nonlinear_arith)
                    requires
                        acc > (u64::MAX - v) / 10,
                        digits_value(d.take(i - start + 1)) == acc * 10 + v,
                ;
                if all_digits(d) {
                    lemma_digits_value_prefix(d, i - start + 1);
                }
            }
            return None;
        }
        acc = acc * 10 + v;
        i = i + 1;
    }
    assert(d.take(len - start) =~= d);
    Some(acc)
}

/// Rendering a number and parsing it back gives the number.
pub proof fn lemma_parse_decimal_roundtrip(n: u64)
    ensures
        spec_parse_u64(digits(n as nat)) == Some(n),
{
    lemma_digits_shape(n as nat);
    assert(is_digit(digits(n as nat)[0]));
}

} // verus!

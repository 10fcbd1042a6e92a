//! Text for the 8-digit seven-segment displays: numbers padded with spaces to
//! exactly eight characters, and the decimal-point mask.
use crate::decimal::{digits, lemma_digits_ascii, lemma_digits_shape, push_decimal};
use crate::text::{append, char_bytes, is_ascii_text, lemma_ascii_char, DisplayText, FixedText};
use vstd::prelude::*;

verus! {

/// `n` copies of the byte `c`.
pub open spec fn repeat(c: u8, n: nat) -> Seq<u8> {
    Seq::new(n, |i: int| c)
}

/// `n` copies of the bytes `b`.
pub open spec fn repeat_seq(b: Seq<u8>, n: nat) -> Seq<u8>
    decreases n,
{
    if n == 0 {
        Seq::empty()
    } else {
        repeat_seq(b, (n - 1) as nat) + b
    }
}

/// The UTF-8 bytes of `n` copies of `c`.
pub open spec fn repeat_char(c: char, n: nat) -> Seq<u8> {
    repeat_seq(char_bytes(c), n)
}

/// Copies of an ASCII character are copies of its byte.
pub proof fn lemma_repeat_ascii(b: u8, n: nat)
    requires
        b < 128,
    ensures
        repeat_char(b as char, n) == repeat(b, n),
        repeat_char(b as char, n).len() == n,
    decreases n,
{
    lemma_ascii_char(b);
    if n > 0 {
        lemma_repeat_ascii(b, (n - 1) as nat);
    }
    assert(repeat_char(b as char, n) =~= repeat(b, n));
}

/// Append character `c`, `num` times to `s`.
///
/// The text must have the capacity for `num` more of `c`'s UTF-8 bytes.
pub fn pad<T: FixedText>(s: &mut T, c: char, num: usize)
    requires
        old(s).text().len() + num * char_bytes(c).len() <= T::capacity_spec(),
    ensures
        final(s).text() == old(s).text() + repeat_char(c, num as nat),
{
    let ghost w = char_bytes(c).len();
    let mut i: usize = 0;
    while i < num
        invariant
            i <= num,
            w == char_bytes(c).len(),
            old(s).text().len() + num * w <= T::capacity_spec(),
            s.text() == old(s).text() + repeat_char(c, i as nat),
            s.text().len() == old(s).text().len() + i * w,
        decreases num - i,
    {
        assert((i + 1) * w <= num * w) by (nonlinear_arith)
            requires
                i < num,
        ;
        assert((i + 1) * w == i * w + w) by (nonlinear_arith);
        let ok = s.push_char(c);
        assert(ok);
        i = i + 1;
        assert(s.text() =~= old(s).text() + repeat_char(c, i as nat));
    }
}

/// Append the ASCII byte `b`, `num` times to `s`.
fn pad_ascii<T: FixedText>(s: &mut T, b: u8, num: usize)
    requires
        b < 128,
        old(s).text().len() + num <= T::capacity_spec(),
    ensures
        final(s).text() == old(s).text() + repeat(b, num as nat),
{
    proof {
        lemma_ascii_char(b);
        lemma_repeat_ascii(b, num as nat);
        let w = char_bytes(b as char).len();
        assert(w == 1);
        assert(num * w == num) by (nonlinear_arith)
            requires
                w == 1,
        ;
        assert(old(s).text().len() + num * char_bytes(b as char).len() <= T::capacity_spec());
    }
    pad(s, b as char, num);
    assert(s.text() == old(s).text() + repeat(b, num as nat));
}

/// The eight characters of a display text, as the display driver takes them.
pub fn display_digits(text: &DisplayText) -> (out: [u8; 8])
    requires
        text.text().len() == 8,
    ensures
        out@ == text.text(),
{
    let bytes = text.to_vec();
    let mut out = [32u8; 8];
    let mut i: usize = 0;
    while i < 8
        invariant
            i <= 8,
            bytes@.len() == 8,
            forall|k: int| 0 <= k < i ==> out@[k] == bytes@[k],
        decreases 8 - i,
    {
        out[i] = bytes[i];
        i = i + 1;
    }
    assert(out@ =~= bytes@);
    out
}

/// The padded text of `u`: `after` spaces, the number, then spaces up to
/// eight characters.
pub open spec fn pad_u8_text(u: u8, after: nat) -> Seq<u8> {
    let d = digits(u as nat);
    repeat(32u8, after) + d + repeat(32u8, (8 - after - d.len()) as nat)
}

/// `fmt_pad_u8` can render `u` after `after` spaces: `u` is at most 100 and
/// at most six spaces go before it, with room for its digits.
pub open spec fn pad_u8_fits(u: u8, after: Option<usize>) -> bool {
    &&& u <= 100
    &&& match after {
        Some(a) => a <= 6 && a + digits(u as nat).len() <= 8,
        None => true,
    }
}

/// `u` after `after` spaces (none when `None`), padded with spaces to the
/// display's eight characters.
pub fn fmt_pad_u8(u: u8, after: Option<usize>) -> (s: DisplayText)
    requires
        pad_u8_fits(u, after),
    ensures
        s.text() == pad_u8_text(
            u,
            match after {
                Some(a) => a as nat,
                None => 0,
            },
        ),
        s.text().len() == 8,
{
    let ghost a: nat = match after {
        Some(a) => a as nat,
        None => 0,
    };
    proof {
        lemma_digits_shape(u as nat);
        lemma_digits_ascii(u as nat);
    }
    let mut s = DisplayText::empty();
    let spaces: usize = match after {
        Some(a) => a,
        None => 0,
    };
    if let Some(after) = after {
        // theoretically could have been 100.0 with len=5
        pad_ascii(&mut s, 32u8, after);
    }
    assert(s.text() =~= repeat(32u8, a));
    // max +len of 3
    let mut number: Vec<u8> = Vec::new();
    push_decimal(&mut number, u as u64);
    assert(number@ =~= digits(u as nat));
    append(&mut s, number.as_slice());
    let len = spaces + number.len();
    assert(s.text().len() == len);
    if len < 8 {
        pad_ascii(&mut s, 32u8, 8 - len);
    }
    assert(s.text() =~= pad_u8_text(u, a));
    s
}

/// The decimal-point mask that lights the dot of a number of `len`
/// characters with one decimal, written from the left: the dot follows the
/// character at index `len - 2`.
pub open spec fn dots_for_len(len: nat) -> u8 {
    (1u8 << ((10 - len) as u8)) as u8
}

/// A reading already rendered with one decimal, padded with spaces to eight
/// characters, and the mask that lights its decimal point.
pub fn layout_reading(text: &[u8]) -> (r: (DisplayText, u8))
    requires
        3 <= text.len() <= 8,
        is_ascii_text(text@),
    ensures
        r.0.text() == text@ + repeat(32u8, (8 - text@.len()) as nat),
        r.0.text().len() == 8,
        r.1 == dots_for_len(text@.len()),
{
    let len_before = text.len();
    let mut s = DisplayText::empty();
    append(&mut s, text);
    // len_before should be <= 5 and must be <=8
    pad_ascii(&mut s, 32u8, 8 - len_before);
    // there must be 1 decimal point. including the dot, minus 2
    // 3 <= len_before <= 8, (min of 0.0, max defined by capacity)
    // if in=100.0, len=5: dist = len - 3 = 2, 7 - dist = 5, 0b0010_0000
    let shift: u8 = (7 - (len_before - 3)) as u8;
    let dots: u8 = 1u8 << shift;
    (s, dots)
}

/// The display text of a temperature of `t` whole degrees, as `{:.1}` renders
/// it: its digits and `.0`.
pub open spec fn temp_text(t: u8) -> Seq<u8> {
    digits(t as nat) + seq![46u8, 48u8]
}

/// The temperature `t` (whole degrees, at most 100) with one decimal, padded
/// to eight characters; the dot mask for the display; and the length of the
/// number before padding.
pub fn fmt_temp(t: u8) -> (r: (DisplayText, u8, usize))
    requires
        t <= 100,
    ensures
        r.2 == temp_text(t).len(),
        3 <= r.2 <= 5,
        r.0.text() == temp_text(t) + repeat(32u8, (8 - r.2) as nat),
        r.0.text().len() == 8,
        r.1 == dots_for_len(r.2 as nat),
{
    proof {
        lemma_digits_shape(t as nat);
        lemma_digits_ascii(t as nat);
    }
    let mut s: Vec<u8> = Vec::new();
    push_decimal(&mut s, t as u64);
    s.push(46u8);
    s.push(48u8);
    assert(s@ =~= temp_text(t));
    proof {
        crate::text::lemma_ascii_concat(digits(t as nat), seq![46u8, 48u8]);
    }
    let len = s.len();
    let (text, dots) = layout_reading(s.as_slice());
    (text, dots, len)
}

} // verus!

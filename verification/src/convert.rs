//! Conversion of the sensors' raw signals, and assembly of multi-byte values.
use byteorder::ByteOrder;
use vstd::prelude::*;

verus! {

/// Relative humidity (in %) for the raw humidity signal `data`:
/// `119 * data / 65535`, rounded down.
pub fn signal_to_rh(data: u16) -> (rh: u16)
    ensures
        rh == 119 * (data as int) / 65535,
        rh <= 119,
{
    let wide: u32 = 119u32 * (data as u32);
    let q: u32 = wide / 65535u32;
    assert(q <= 119) by (nonlinear_arith)
        requires
            wide <= 119 * 65535,
            q == wide / 65535,
    ;
    q as u16
}

/// Temperature (in degrees Celsius) for the raw temperature signal `data`:
/// `130 * (data / 65535)`, the quotient rounded down first, so 130 at full
/// scale and 0 below it.
pub fn signal_to_temp(data: u16) -> (t: i32)
    ensures
        t == 130 * ((data as int) / 65535),
        t == (if data == 65535 { 130int } else { 0 }),
{
    130i32 * ((data as i32) / 65535i32)
}

/// A stronger signal never gives a lower relative humidity.
pub proof fn lemma_signal_to_rh_monotone(a: u16, b: u16)
    requires
        a <= b,
    ensures
        119 * (a as int) / 65535 <= 119 * (b as int) / 65535,
{
    vstd::arithmetic::div_mod::lemma_div_is_ordered(119 * (a as int), 119 * (b as int), 65535);
}

/// A stronger signal never gives a lower temperature.
pub proof fn lemma_signal_to_temp_monotone(a: u16, b: u16)
    requires
        a <= b,
    ensures
        130 * ((a as int) / 65535) <= 130 * ((b as int) / 65535),
{
    vstd::arithmetic::div_mod::lemma_div_is_ordered(a as int, b as int, 65535);
}

/// The layout `concat_bytes` builds: `combined_len` bytes, `second` starting at
/// the middle (`combined_len / 2`), `first` at the start where `second` does
/// not cover it, zero elsewhere.
pub open spec fn spec_concat_bytes(first: Seq<u8>, second: Seq<u8>, combined_len: nat) -> Seq<u8> {
    let half = (combined_len / 2) as int;
    Seq::new(
        combined_len,
        |i: int|
            if half <= i < half + second.len() {
                second[i - half]
            } else if i < first.len() {
                first[i]
            } else {
                0u8
            },
    )
}

/// Builds `combined_len` bytes holding `first` at the start and `second` from
/// the middle on.
pub fn concat_bytes(first: &[u8], second: &[u8], combined_len: usize) -> (combined: Vec<u8>)
    requires
        first.len() + second.len() <= combined_len,
        combined_len / 2 + second.len() <= combined_len,
    ensures
        combined@ == spec_concat_bytes(first@, second@, combined_len as nat),
{
    let mut combined: Vec<u8> = Vec::new();
    let mut i: usize = 0;
    while i < combined_len
        invariant
            i <= combined_len,
            combined@.len() == i,
            forall|j: int| 0 <= j < i ==> combined@[j] == 0u8,
        decreases combined_len - i,
    {
        combined.push(0u8);
        i = i + 1;
    }
    let mut i: usize = 0;
    while i < first.len()
        invariant
            i <= first.len(),
            first.len() <= combined_len,
            combined@.len() == combined_len,
            forall|j: int| 0 <= j < i ==> combined@[j] == first@[j],
            forall|j: int| i <= j < combined_len ==> combined@[j] == 0u8,
        decreases first.len() - i,
    {
        combined.set(i, first[i]);
        i = i + 1;
    }
    let half = combined_len / 2;
    let mut i: usize = 0;
    while i < second.len()
        invariant
            i <= second.len(),
            half == combined_len / 2,
            half + second.len() <= combined_len,
            first.len() <= combined_len,
            combined@.len() == combined_len,
            forall|j: int| half <= j < half + i ==> combined@[j] == second@[j - half],
            forall|j: int|
                0 <= j < combined_len && !(half <= j < half + i) ==> combined@[j] == (if j
                    < first.len() {
                    first@[j]
                } else {
                    0u8
                }),
        decreases second.len() - i,
    {
        combined.set(half + i, second[i]);
        i = i + 1;
    }
    assert(combined@ =~= spec_concat_bytes(first@, second@, combined_len as nat));
    combined
}

/// The unsigned 16-bit value of two bytes, most significant first.
pub open spec fn be_u16(hi: u8, lo: u8) -> u16 {
    (hi as int * 256 + lo as int) as u16
}

/// Calls `<byteorder::BigEndian as byteorder::ByteOrder>::read_u16`, which
/// panics when `buf` is shorter than 2 bytes and otherwise reads its first two
/// bytes, most significant first.
#[verifier::external_body]
pub(crate) fn read_u16_be(buf: &[u8]) -> (v: u16)
    requires
        buf.len() >= 2,
    ensures
        v == be_u16(buf@[0], buf@[1]),
{
    byteorder::BigEndian::read_u16(buf)
}

/// Calls `<byteorder::LittleEndian as byteorder::ByteOrder>::read_u16`, which
/// panics when `buf` is shorter than 2 bytes and otherwise reads its first two
/// bytes, least significant first.
#[verifier::external_body]
pub(crate) fn read_u16_le(buf: &[u8]) -> (v: u16)
    requires
        buf.len() >= 2,
    ensures
        v == be_u16(buf@[1], buf@[0]),
{
    byteorder::LittleEndian::read_u16(buf)
}

} // verus!

//! The checksums the sensors and the persisted record use, and the check of a
//! sensor's checksummed data words.
use vstd::prelude::*;
use vstd::slice::slice_subrange;

verus! {

/// One step of the MSB-first CRC-8 register with polynomial `0x31`.
pub open spec fn crc8_step(c: u8) -> u8 {
    if c & 0x80u8 == 0 {
        (c << 1u8) as u8
    } else {
        ((c << 1u8) ^ 0x31u8) as u8
    }
}

/// The CRC-8 register after feeding it the byte `b`.
pub open spec fn crc8_feed(c: u8, b: u8) -> u8 {
    let x = c ^ b;
    crc8_step(crc8_step(crc8_step(crc8_step(crc8_step(crc8_step(crc8_step(crc8_step(x))))))))
}

/// The Sensirion CRC-8 of `data`: width 8, polynomial `0x31`, initial value
/// `0xFF`, no reflection, no final xor (the catalogue's CRC-8/NRSC-5).
pub open spec fn crc8_of(data: Seq<u8>) -> u8
    decreases data.len(),
{
    if data.len() == 0 {
        0xFFu8
    } else {
        crc8_feed(crc8_of(data.drop_last()), data.last())
    }
}

/// One step of the MSB-first CRC-32 register with polynomial `0x04C11DB7`.
pub open spec fn crc32_step(c: u32) -> u32 {
    if c & 0x8000_0000u32 == 0 {
        (c << 1u32) as u32
    } else {
        ((c << 1u32) ^ 0x04C1_1DB7u32) as u32
    }
}

/// The CRC-32 register after feeding it the byte `b`.
pub open spec fn crc32_feed(c: u32, b: u8) -> u32 {
    let x = c ^ ((b as u32) << 24u32);
    crc32_step(crc32_step(crc32_step(crc32_step(crc32_step(crc32_step(crc32_step(crc32_step(x))))))))
}

/// The CRC-32 register after feeding it all of `data`, starting from zero.
pub open spec fn crc32_register(data: Seq<u8>) -> u32
    decreases data.len(),
{
    if data.len() == 0 {
        0u32
    } else {
        crc32_feed(crc32_register(data.drop_last()), data.last())
    }
}

/// CRC-32/CKSUM of `data`: width 32, polynomial `0x04C11DB7`, initial value 0,
/// no reflection, final xor `0xFFFFFFFF`.
pub open spec fn crc32_cksum_of(data: Seq<u8>) -> u32 {
    crc32_register(data) ^ 0xFFFF_FFFFu32
}

/// Calls `crc::Crc::<u8>::checksum` with the crate's `CRC_8_NRSC_5`
/// algorithm, whose parameters (width 8, polynomial 0x31, init 0xFF, no
/// reflection, xorout 0) are those of the Sensirion sensors; the contract
/// claims the result is the CRC that these parameters define.
#[verifier::external_body]
pub(crate) fn crc8_sensirion(data: &[u8]) -> (sum: u8)
    ensures
        sum == crc8_of(data@),
{
    crc::Crc::<u8>::new(&crc::CRC_8_NRSC_5).checksum(data)
}

/// Calls `crc::Crc::<u32>::checksum` with the crate's `CRC_32_CKSUM`
/// algorithm; the contract claims the result is the CRC that its parameters
/// (width 32, polynomial 0x04C11DB7, init 0, no reflection, xorout
/// 0xFFFFFFFF) define.
#[verifier::external_body]
pub(crate) fn crc32_cksum(data: &[u8]) -> (sum: u32)
    ensures
        sum == crc32_cksum_of(data@),
{
    crc::Crc::<u32>::new(&crc::CRC_32_CKSUM).checksum(data)
}

/// A checksum that did not match: which item, the checksum computed here, and
/// the one the sensor sent.
#[derive(Clone, Copy, Debug, PartialEq, Eq)]
pub struct ChecksumMismatch {
    pub item: &'static str,
    pub ours: u8,
    pub theirs: u8,
}

/// A value decoded from a sensor frame, with the checksum mismatches found
/// on the way, in the order of the words they belong to.
#[derive(Debug, PartialEq, Eq)]
pub struct Decoded<T> {
    pub value: T,
    pub mismatches: Vec<ChecksumMismatch>,
}

/// What checking `data` against the sensor's checksum `sum` reports.
pub open spec fn spec_sum_check(data: Seq<u8>, sum: u8, item: &'static str) -> Option<
    ChecksumMismatch,
> {
    if crc8_of(data) == sum {
        None
    } else {
        Some(ChecksumMismatch { item, ours: crc8_of(data), theirs: sum })
    }
}

/// Checks `data` against the checksum `sum` the sensor sent with it.
/// `None` when they match, else the mismatch to report.
pub fn sum_check(data: &[u8], sum: u8, item: &'static str) -> (r: Option<ChecksumMismatch>)
    ensures
        r == spec_sum_check(data@, sum, item),
{
    let ours = crc8_sensirion(data);
    if ours == sum {
        None
    } else {
        Some(ChecksumMismatch { item, ours, theirs: sum })
    }
}

/// The report for the checksummed word at `at` of a sensor frame: two data
/// bytes followed by their CRC-8.
pub open spec fn word_report(frame: Seq<u8>, at: int, item: &'static str) -> Seq<
    ChecksumMismatch,
> {
    match spec_sum_check(frame.subrange(at, at + 2), frame[at + 2], item) {
        Some(m) => seq![m],
        None => Seq::empty(),
    }
}

/// A word sent with its own checksum is accepted, and one sent with any
/// other checksum is reported with both values.
pub proof fn lemma_word_accepted_iff_own_crc(hi: u8, lo: u8, sum: u8, item: &'static str)
    ensures
        word_report(seq![hi, lo, sum], 0, item).len() == 0 <==> sum == crc8_of(seq![hi, lo]),
        sum != crc8_of(seq![hi, lo]) ==> word_report(seq![hi, lo, sum], 0, item) == seq![
            ChecksumMismatch { item, ours: crc8_of(seq![hi, lo]), theirs: sum },
        ],
{
    assert(seq![hi, lo, sum].subrange(0, 2) =~= seq![hi, lo]);
}

/// Checks the word at `at` of `frame` and appends its mismatch, if any, to
/// `report`.
pub fn check_word(report: &mut Vec<ChecksumMismatch>, frame: &[u8], at: usize, item: &'static str)
    requires
        at + 3 <= frame.len(),
    ensures
        final(report)@ == old(report)@ + word_report(frame@, at as int, item),
{
    let word = slice_subrange(frame, at, at + 2);
    match sum_check(word, frame[at + 2], item) {
        Some(m) => {
            report.push(m);
            assert(final(report)@ =~= old(report)@ + word_report(frame@, at as int, item));
        },
        None => {
            assert(final(report)@ =~= old(report)@ + word_report(frame@, at as int, item));
        },
    }
}

} // verus!

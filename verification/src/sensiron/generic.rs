//! What the `SHT4x`, `STS4x` and `SEN5x` sensors share: their bus address,
//! the encoding of commands, the measurement precisions and the serial
//! number response.
use crate::checksum::{check_word, word_report, Decoded};
use crate::convert::{be_u16, concat_bytes};
use vstd::prelude::*;
use vstd::slice::slice_subrange;

verus! {

/// A Sensirion sensor, known by its bus address.
#[derive(Clone, Copy, Debug, PartialEq, Eq)]
pub struct Sensor {
    addr: u8,
}

impl View for Sensor {
    type V = u8;

    closed spec fn view(&self) -> u8 {
        self.addr
    }
}

impl Sensor {
    /// Create a new sensor instance.
    pub fn new(addr: u8) -> (s: Self)
        ensures
            s@ == addr,
    {
        Self { addr }
    }

    /// The sensor's bus address.
    pub fn addr(&self) -> (a: u8)
        ensures
            a == self@,
    {
        self.addr
    }
}

/// The two bytes written on the bus for the command `cmd`, most significant
/// first.
pub fn command_bytes(cmd: u16) -> (b: [u8; 2])
    ensures
        b@ == seq![(cmd / 256) as u8, (cmd % 256) as u8],
        be_u16(b@[0], b@[1]) == cmd,
{
    let hi: u8 = (cmd / 256) as u8;
    let lo: u8 = (cmd % 256) as u8;
    let b = [hi, lo];
    assert(b@ =~= seq![(cmd / 256) as u8, (cmd % 256) as u8]);
    b
}

/// Soft reset (sht4x and sts4x): acknowledged, answers no data.
pub const SOFT_RESET: u8 = 0x94;

/// Measurement precision.
#[derive(Clone, Copy, Debug, PartialEq, Eq)]
pub enum Precision {
    High,
    Medium,
    Low,
}

/// The declaration of `embassy_time::Duration`, a span of time.
#[verifier::external_type_specification]
#[verifier::external_body]
pub struct ExDuration(embassy_time::Duration);

/// What `embassy_time::Duration::from_micros` gives for `micros`.
pub uninterp spec fn micros_duration(micros: u64) -> embassy_time::Duration;

/// Calls `embassy_time::Duration::from_micros`; its result is named by
/// `micros_duration`. The bound keeps the tick multiplication inside `u64`
/// whatever tick rate the crate is built with.
#[verifier::external_body]
fn duration_from_micros(micros: u64) -> (d: embassy_time::Duration)
    requires
        micros <= 1_000_000,
    ensures
        d == micros_duration(micros),
{
    embassy_time::Duration::from_micros(micros)
}

impl Precision {
    pub open spec fn cmd_spec(self) -> u8 {
        match self {
            Precision::High => 0xFD,
            Precision::Medium => 0xF6,
            Precision::Low => 0xE0,
        }
    }

    /// The corresponding i2c command.
    pub fn cmd(&self) -> (c: u8)
        ensures
            c == self.cmd_spec(),
    {
        // datasheet section 4.4
        match self {
            Precision::High => 0xFD,
            Precision::Medium => 0xF6,
            Precision::Low => 0xE0,
        }
    }

    pub open spec fn timing_micros_spec(self) -> u64 {
        match self {
            Precision::High => 8300,
            Precision::Medium => 4500,
            Precision::Low => 1600,
        }
    }

    /// The max time, in microseconds, a measurement takes at this precision.
    pub fn timing_micros(&self) -> (us: u64)
        ensures
            us == self.timing_micros_spec(),
    {
        // datasheet section 3.1
        match self {
            Precision::High => 8300,
            Precision::Medium => 4500,
            Precision::Low => 1600,
        }
    }

    /// The max time it takes for a measurement at the corresponding precision.
    pub fn timing(&self) -> (d: embassy_time::Duration)
        ensures
            d == micros_duration(self.timing_micros_spec()),
    {
        duration_from_micros(self.timing_micros())
    }
}

/// The unsigned 32-bit value of four bytes, most significant first.
pub open spec fn be_u32(b0: u8, b1: u8, b2: u8, b3: u8) -> u32 {
    (b0 as int * 16777216 + b1 as int * 65536 + b2 as int * 256 + b3 as int) as u32
}

/// The serial number in the 6-byte answer of the serial number command: two
/// checksummed words, the first one the most significant.
pub open spec fn serial_num_value(data: Seq<u8>) -> u32 {
    be_u32(data[0], data[1], data[3], data[4])
}

/// Decodes the answer of the serial number command (sht4x and sts4x).
pub fn parse_serial_num(data: &[u8]) -> (r: Decoded<u32>)
    requires
        data.len() == 6,
    ensures
        r.value == serial_num_value(data@),
        r.mismatches@ == word_report(data@, 0, "serial") + word_report(data@, 3, "serial1"),
{
    let mut mismatches: Vec<crate::checksum::ChecksumMismatch> = Vec::new();
    check_word(&mut mismatches, data, 0, "serial");
    check_word(&mut mismatches, data, 3, "serial1");
    proof {
        assert(mismatches@ =~= word_report(data@, 0, "serial") + word_report(data@, 3, "serial1"));
    }
    let serial = slice_subrange(data, 0, 2);
    let serial1 = slice_subrange(data, 3, 5);
    let combined = concat_bytes(serial, serial1, 4);
    let value: u32 = (combined[0] as u32) * 16777216 + (combined[1] as u32) * 65536
        + (combined[2] as u32) * 256 + (combined[3] as u32);
    Decoded { value, mismatches }
}

} // verus!

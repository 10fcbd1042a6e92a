//! The `STS4x` temperature sensor.
use crate::checksum::{check_word, word_report, ChecksumMismatch, Decoded};
use crate::convert::{be_u16, read_u16_be, signal_to_temp};
use crate::sensiron::generic::Sensor;
use vstd::prelude::*;

verus! {

/// the `STS4x` temperature sensor
#[derive(Clone, Copy, Debug, PartialEq, Eq)]
pub struct Sts4x(Sensor);

/// Read serial number command.
pub const READ_SERIAL_NUMBER: u8 = 0x89;

impl Sts4x {
    pub fn new(addr: u8) -> (s: Self)
        ensures
            s.sensor()@ == addr,
    {
        Self(Sensor::new(addr))
    }

    pub closed spec fn sensor(self) -> Sensor {
        self.0
    }

    /// The generic sensor behind this one.
    pub fn generic(&self) -> (s: Sensor)
        ensures
            s == self.sensor(),
    {
        self.0
    }
}

/// The temperature, in degrees Celsius, of the 3-byte measurement answer.
pub open spec fn measured_temp(data: Seq<u8>) -> int {
    130 * ((be_u16(data[0], data[1]) as int) / 65535)
}

/// Decodes the answer of a measure command: the temperature in degrees
/// Celsius (datasheet section 4.4), big-endian signal then its checksum.
pub fn parse_measurement(data: &[u8]) -> (r: Decoded<i32>)
    requires
        data.len() == 3,
    ensures
        r.value == measured_temp(data@),
        r.mismatches@ == word_report(data@, 0, "temperature"),
{
    let mut mismatches: Vec<ChecksumMismatch> = Vec::new();
    check_word(&mut mismatches, data, 0, "temperature");
    assert(mismatches@ =~= word_report(data@, 0, "temperature"));
    let signal = read_u16_be(data);
    Decoded { value: signal_to_temp(signal), mismatches }
}

} // verus!

//! The `SHT4x` temperature-and-humidity sensor.
use crate::checksum::{check_word, word_report, ChecksumMismatch, Decoded};
use crate::convert::{be_u16, read_u16_le, signal_to_rh, signal_to_temp};
use crate::sensiron::generic::Sensor;
use vstd::prelude::*;
use vstd::slice::slice_subrange;

verus! {

/// A measurement of the `SHT4x`.
#[derive(Clone, Copy, Debug, PartialEq, Eq)]
pub struct Measurement {
    /// in %, at most 100.
    pub relative_humidity: u16,
    /// in degrees celsius.
    pub temperature: u16,
}

/// the `SHT4x` temperature-and-humidty sensor
#[derive(Clone, Copy, Debug, PartialEq, Eq)]
pub struct Sht4x(Sensor);

/// Read serial number command.
pub const READ_SERIAL_NUMBER: u8 = 0x89;

impl Sht4x {
    pub fn new(addr: u8) -> (s: Self)
        ensures
            s.sensor()@ == addr,
    {
        Self(Sensor::new(addr))
    }

    pub closed spec fn sensor(self) -> Sensor {
        self.0
    }

    /// The generic sensor behind this one.
    pub fn generic(&self) -> (s: Sensor)
        ensures
            s == self.sensor(),
    {
        self.0
    }
}

/// A relative humidity as a percent: the conversion of the signal, at most
/// 100.
pub open spec fn humidity_percent(signal: u16) -> u16 {
    let rh = 119 * (signal as int) / 65535;
    (if rh > 100 {
        100
    } else {
        rh
    }) as u16
}

/// The measurement in a 6-byte answer: temperature word then humidity word,
/// each read least significant byte first.
pub open spec fn measurement_of(data: Seq<u8>) -> Measurement {
    Measurement {
        relative_humidity: humidity_percent(be_u16(data[4], data[3])),
        temperature: (130 * ((be_u16(data[1], data[0]) as int) / 65535)) as u16,
    }
}

/// Decodes the answer of a measure command (datasheet section 4.5): the
/// relative humidity as a % and the temperature in degrees celsius.
pub fn parse_measurement(data: &[u8]) -> (r: Decoded<Measurement>)
    requires
        data.len() == 6,
    ensures
        r.value == measurement_of(data@),
        r.value.relative_humidity <= 100,
        r.value.temperature <= 130,
        r.mismatches@ == word_report(data@, 0, "temperature") + word_report(
            data@,
            3,
            "humidity",
        ),
{
    let mut mismatches: Vec<ChecksumMismatch> = Vec::new();
    check_word(&mut mismatches, data, 0, "temperature");
    check_word(&mut mismatches, data, 3, "humidity");
    assert(mismatches@ =~= word_report(data@, 0, "temperature") + word_report(
        data@,
        3,
        "humidity",
    ));
    let temp = read_u16_le(data);
    let humidity = read_u16_le(slice_subrange(data, 3, 5));
    let temp_c = signal_to_temp(temp);
    let rh = signal_to_rh(humidity);
    // relative humidity is a percent
    let rh: u16 = if rh > 100 {
        100
    } else {
        rh
    };
    Decoded {
        value: Measurement { relative_humidity: rh, temperature: temp_c as u16 },
        mismatches,
    }
}

} // verus!

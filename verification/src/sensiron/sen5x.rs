//! The `SEN5x` particulate matter sensor. It talks big-endian.
use crate::checksum::{check_word, word_report, ChecksumMismatch, Decoded};
use crate::convert::{be_u16, read_u16_be};
use crate::sensiron::generic::Sensor;
use vstd::prelude::*;
use vstd::slice::slice_subrange;

verus! {

pub const ADDR: u8 = 0x69;

/// Start measurement; takes 50 ms (datasheet 6.1).
pub const START_MEASUREMENT: u16 = 0x0021;

/// Read the measured values; answer ready after 20 ms (datasheet 6.1).
pub const READ_MEASURED_VALUES: u16 = 0x03C4;

/// Stop measurement, back to idle; takes 200 ms (datasheet 6.1.3).
pub const STOP_MEASUREMENT: u16 = 0x0104;

/// Read the data-ready flag; answer ready after 20 ms (datasheet 6.1).
pub const READ_DATA_READY: u16 = 0x0202;

/// Read the serial number; answer ready after 20 ms (datasheet 6.1.15).
pub const READ_SERIAL_NUMBER: u16 = 0xD033;

/// Reset the sensor; takes 100 ms (datasheet 6.1).
pub const DEVICE_RESET: u16 = 0xD304;

/// the `SEN5x` particulate matter sensor
#[derive(Clone, Copy, Debug, PartialEq, Eq)]
pub struct Sen5x(Sensor);

impl Sen5x {
    pub fn new(addr: u8) -> (s: Self)
        ensures
            s.sensor()@ == addr,
    {
        Self(Sensor::new(addr))
    }

    pub closed spec fn sensor(self) -> Sensor {
        self.0
    }

    /// The generic sensor behind this one.
    pub fn generic(&self) -> (s: Sensor)
        ensures
            s == self.sensor(),
    {
        self.0
    }
}

/// The measured values of the `SEN5x` that are kept.
#[derive(Clone, Copy, Debug, PartialEq, Eq)]
pub struct Measurement {
    pub pm10: u16,
    pub pm2_5: u16,
    pub voc: u16,
    pub nox: u16,
}

/// The values in the 24-byte answer of the read-measured-values command:
/// eight checksummed words, of which pm2.5 (word 1), pm10 (word 3), voc
/// (word 6) and nox (word 7) are kept.
pub open spec fn measurement_of(data: Seq<u8>) -> Measurement {
    Measurement {
        pm10: be_u16(data[9], data[10]),
        pm2_5: be_u16(data[3], data[4]),
        voc: be_u16(data[18], data[19]),
        nox: be_u16(data[21], data[22]),
    }
}

pub open spec fn measurement_report(data: Seq<u8>) -> Seq<ChecksumMismatch> {
    word_report(data, 3, "pm2.5") + word_report(data, 9, "pm10") + word_report(data, 18, "voc")
        + word_report(data, 21, "nox")
}

/// Decodes the answer of the read-measured-values command (pm1.0 and pm4.0
/// are not kept).
pub fn parse_measurement(data: &[u8]) -> (r: Decoded<Measurement>)
    requires
        data.len() == 24,
    ensures
        r.value == measurement_of(data@),
        r.mismatches@ == measurement_report(data@),
{
    let mut mismatches: Vec<ChecksumMismatch> = Vec::new();
    check_word(&mut mismatches, data, 3, "pm2.5");
    check_word(&mut mismatches, data, 9, "pm10");
    check_word(&mut mismatches, data, 18, "voc");
    check_word(&mut mismatches, data, 21, "nox");
    assert(mismatches@ =~= measurement_report(data@));
    let value = Measurement {
        pm10: read_u16_be(slice_subrange(data, 9, 11)),
        pm2_5: read_u16_be(slice_subrange(data, 3, 5)),
        voc: read_u16_be(slice_subrange(data, 18, 20)),
        nox: read_u16_be(slice_subrange(data, 21, 23)),
    };
    Decoded { value, mismatches }
}

/// Decodes the answer of the read-data-ready command: one unused byte, the
/// flag byte, and their checksum. Ready when the flag is 1.
pub fn parse_data_ready(data: &[u8]) -> (r: Decoded<bool>)
    requires
        data.len() == 3,
    ensures
        r.value == (data@[1] == 1),
        r.mismatches@ == word_report(data@, 0, "data ready flag"),
{
    let mut mismatches: Vec<ChecksumMismatch> = Vec::new();
    check_word(&mut mismatches, data, 0, "data ready flag");
    assert(mismatches@ =~= word_report(data@, 0, "data ready flag"));
    Decoded { value: data[1] == 1, mismatches }
}

/// The reports of the first `n` words of the serial number answer.
pub open spec fn serial_report(data: Seq<u8>, n: nat) -> Seq<ChecksumMismatch>
    decreases n,
{
    if n == 0 {
        Seq::empty()
    } else {
        serial_report(data, (n - 1) as nat) + word_report(data, 3 * (n - 1), "ascii")
    }
}

/// The ascii serial number in the 48-byte answer: the two data bytes of each
/// of its sixteen words.
pub open spec fn serial_of(data: Seq<u8>) -> Seq<u8> {
    Seq::new(32, |k: int| data[3 * (k / 2) + k % 2])
}

/// Decodes the answer of the read-serial-number command: the serial number as
/// an ascii buffer.
pub fn parse_serial_num(data: &[u8]) -> (r: Decoded<[u8; 32]>)
    requires
        data.len() == 48,
    ensures
        r.value@ == serial_of(data@),
        r.mismatches@ == serial_report(data@, 16),
{
    let mut serial = [0u8; 32];
    let mut mismatches: Vec<ChecksumMismatch> = Vec::new();
    let mut i: usize = 0;
    while i < 16
        invariant
            i <= 16,
            data.len() == 48,
            mismatches@ == serial_report(data@, i as nat),
            forall|k: int| 0 <= k < 2 * i ==> serial@[k] == #[trigger] serial_of(data@)[k],
        decreases 16 - i,
    {
        // move in 3 byte chunks; for every 3 bytes, we get 2 ascii bytes
        check_word(&mut mismatches, data, i * 3, "ascii");
        serial[i * 2] = data[i * 3];
        serial[i * 2 + 1] = data[i * 3 + 1];
        proof {
            assert(serial_of(data@)[2 * i] == data@[3 * i]);
            assert(serial_of(data@)[2 * i + 1] == data@[3 * i + 1]);
        }
        i = i + 1;
    }
    assert(serial@ =~= serial_of(data@));
    Decoded { value: serial, mismatches }
}

/// Where a measurement of the `SEN5x` stands.
#[derive(Clone, Copy, Debug, PartialEq, Eq)]
pub enum CyclePhase {
    /// Nothing sent yet.
    Idle,
    /// The start command is on its way.
    Starting,
    /// Asked whether data is ready.
    Polling,
    /// Waiting a second before asking again.
    Waiting,
    /// Asked for the measured values.
    Reading,
    /// The stop command is on its way.
    Stopping,
    /// Finished: the measurement is decoded, or a bus error ended it.
    Done,
}

/// What the bus driver does next for the measurement.
#[derive(Debug, PartialEq, Eq)]
pub enum CycleAction {
    /// Write the command, then wait `wait_ms` before the next step.
    Command { cmd: u16, wait_ms: u64 },
    /// Write the command, wait `wait_ms`, then read `len` bytes.
    Query { cmd: u16, wait_ms: u64, len: usize },
    /// Wait `ms` before the next step.
    Wait { ms: u64 },
    /// The measured values, with the checksum mismatches of the whole cycle.
    Finished(Decoded<Measurement>),
    /// A bus error ended the measurement.
    Failed,
}

/// What the bus driver reports after carrying out the last action.
#[derive(Debug, PartialEq, Eq)]
pub enum CycleEvent {
    /// The command was written (and the wait is over).
    Done,
    /// The bytes read back.
    Answer(Vec<u8>),
    /// The bus failed.
    BusError,
}

/// A measurement of the `SEN5x`: start measuring, ask every second whether
/// data is ready, read the values, then stop measuring to save power.
pub struct MeasureCycle {
    pub phase: CyclePhase,
    /// The measured values, once read.
    pub values: Option<Vec<u8>>,
    /// Checksum mismatches found so far; handed over with the measured values,
    /// kept when the measurement fails.
    pub mismatches: Vec<ChecksumMismatch>,
}

/// The events the cycle expects in `phase`.
pub open spec fn expects(phase: CyclePhase, event: CycleEvent) -> bool {
    match phase {
        CyclePhase::Polling => match event {
            CycleEvent::Answer(d) => d@.len() == 3,
            CycleEvent::BusError => true,
            _ => false,
        },
        CyclePhase::Reading => match event {
            CycleEvent::Answer(d) => d@.len() == 24,
            CycleEvent::BusError => true,
            _ => false,
        },
        CyclePhase::Starting | CyclePhase::Waiting | CyclePhase::Stopping => !(event is Answer),
        _ => false,
    }
}

/// The action that asks whether data is ready.
pub open spec fn poll_action() -> CycleAction {
    CycleAction::Query { cmd: READ_DATA_READY, wait_ms: 20, len: 3 }
}

impl MeasureCycle {
    pub fn new() -> (c: Self)
        ensures
            c.phase == CyclePhase::Idle,
            c.values is None,
            c.mismatches@.len() == 0,
    {
        MeasureCycle { phase: CyclePhase::Idle, values: None, mismatches: Vec::new() }
    }

    /// Starts the measurement: the start command takes 50 ms (datasheet 6.1).
    pub fn start(&mut self) -> (action: CycleAction)
        requires
            old(self).phase == CyclePhase::Idle,
        ensures
            final(self).phase == CyclePhase::Starting,
            final(self).values == old(self).values,
            final(self).mismatches@ == old(self).mismatches@,
            action == (CycleAction::Command { cmd: START_MEASUREMENT, wait_ms: 50 }),
    {
        self.phase = CyclePhase::Starting;
        CycleAction::Command { cmd: START_MEASUREMENT, wait_ms: 50 }
    }

    /// Takes the outcome of the last action and decides the next one. A bus
    /// error while polling counts as "not ready"; anywhere else it ends the
    /// measurement.
    pub fn step(&mut self, event: CycleEvent) -> (action: CycleAction)
        requires
            expects(old(self).phase, event),
        ensures
            action == CycleAction::Failed ==> final(self).mismatches@ == old(self).mismatches@,
            old(self).phase == CyclePhase::Starting ==> match event {
                CycleEvent::Done => final(self).phase == CyclePhase::Polling && action
                    == poll_action() && final(self).mismatches@ == old(self).mismatches@,
                _ => final(self).phase == CyclePhase::Done && action == CycleAction::Failed,
            },
            old(self).phase == CyclePhase::Polling ==> match event {
                CycleEvent::Answer(d) => {
                    &&& final(self).mismatches@ == old(self).mismatches@ + word_report(
                        d@,
                        0,
                        "data ready flag",
                    )
                    &&& if d@[1] == 1 {
                        final(self).phase == CyclePhase::Reading && action == (CycleAction::Query {
                            cmd: READ_MEASURED_VALUES,
                            wait_ms: 20,
                            len: 24,
                        })
                    } else {
                        final(self).phase == CyclePhase::Waiting && action == (CycleAction::Wait {
                            ms: 1000,
                        })
                    }
                },
                _ => final(self).phase == CyclePhase::Waiting && action == (CycleAction::Wait {
                    ms: 1000,
                }) && final(self).mismatches@ == old(self).mismatches@,
            },
            old(self).phase == CyclePhase::Waiting ==> final(self).phase == CyclePhase::Polling
                && action == poll_action() && final(self).mismatches@ == old(self).mismatches@,
            old(self).phase == CyclePhase::Reading ==> match event {
                CycleEvent::Answer(d) => final(self).phase == CyclePhase::Stopping && action == (
                CycleAction::Command { cmd: STOP_MEASUREMENT, wait_ms: 200 }) && final(self).values
                    == Some(d) && final(self).mismatches@ == old(self).mismatches@,
                _ => final(self).phase == CyclePhase::Done && action == CycleAction::Failed,
            },
            old(self).phase == CyclePhase::Stopping ==> final(self).phase == CyclePhase::Done
                && match event {
                CycleEvent::Done => match old(self).values {
                    Some(v) => if v@.len() == 24 {
                        match action {
                            CycleAction::Finished(r) => r.value == measurement_of(v@)
                                && r.mismatches@ == old(self).mismatches@ + measurement_report(v@),
                            _ => false,
                        }
                    } else {
                        action == CycleAction::Failed
                    },
                    None => action == CycleAction::Failed,
                },
                _ => action == CycleAction::Failed,
            },
    {
        match self.phase {
            CyclePhase::Starting => {
                match event {
                    CycleEvent::Done => {
                        self.phase = CyclePhase::Polling;
                        CycleAction::Query { cmd: READ_DATA_READY, wait_ms: 20, len: 3 }
                    },
                    _ => {
                        self.phase = CyclePhase::Done;
                        CycleAction::Failed
                    },
                }
            },
            CyclePhase::Polling => {
                match event {
                    CycleEvent::Answer(d) => {
                        let ready = parse_data_ready(d.as_slice());
                        let mut found = ready.mismatches;
                        self.mismatches.append(&mut found);
                        if ready.value {
                            self.phase = CyclePhase::Reading;
                            CycleAction::Query { cmd: READ_MEASURED_VALUES, wait_ms: 20, len: 24 }
                        } else {
                            self.phase = CyclePhase::Waiting;
                            CycleAction::Wait { ms: 1000 }
                        }
                    },
                    _ => {
                        self.phase = CyclePhase::Waiting;
                        CycleAction::Wait { ms: 1000 }
                    },
                }
            },
            CyclePhase::Waiting => {
                self.phase = CyclePhase::Polling;
                CycleAction::Query { cmd: READ_DATA_READY, wait_ms: 20, len: 3 }
            },
            CyclePhase::Reading => {
                match event {
                    CycleEvent::Answer(d) => {
                        self.values = Some(d);
                        self.phase = CyclePhase::Stopping;
                        CycleAction::Command { cmd: STOP_MEASUREMENT, wait_ms: 200 }
                    },
                    _ => {
                        self.phase = CyclePhase::Done;
                        CycleAction::Failed
                    },
                }
            },
            CyclePhase::Stopping => {
                self.phase = CyclePhase::Done;
                match event {
                    CycleEvent::Done => {
                        let values = self.values.take();
                        match values {
                            Some(v) => {
                                if v.len() == 24 {
                                    let decoded = parse_measurement(v.as_slice());
                                    let mut all: Vec<ChecksumMismatch> = Vec::new();
                                    core::mem::swap(&mut all, &mut self.mismatches);
                                    let mut found = decoded.mismatches;
                                    all.append(&mut found);
                                    CycleAction::Finished(
                                        Decoded { value: decoded.value, mismatches: all },
                                    )
                                } else {
                                    CycleAction::Failed
                                }
                            },
                            None => CycleAction::Failed,
                        }
                    },
                    _ => CycleAction::Failed,
                }
            },
            _ => CycleAction::Failed,
        }
    }
}

} // verus!

use dpia::checksum::{sum_check, ChecksumMismatch};

fn crc8_sensirion(data: &[u8]) -> u8 {
    match sum_check(data, 0, "probe") {
        None => 0,
        Some(m) => m.ours,
    }
}
use dpia::sensiron::generic::{command_bytes, parse_serial_num, Precision, Sensor, SOFT_RESET};
use dpia::sensiron::sen5x::{
    self, CycleAction, CycleEvent, CyclePhase, MeasureCycle, Sen5x, READ_DATA_READY,
    READ_MEASURED_VALUES, START_MEASUREMENT, STOP_MEASUREMENT,
};
use dpia::sensiron::{sht4x, sts4x};

fn word(hi: u8, lo: u8) -> [u8; 3] {
    [hi, lo, crc8_sensirion(&[hi, lo])]
}

fn frame(words: &[(u8, u8)]) -> Vec<u8> {
    words.iter().flat_map(|&(h, l)| word(h, l)).collect()
}

#[test]
fn sensor_keeps_address() {
    assert_eq!(Sensor::new(0x44).addr(), 0x44);
    assert_eq!(Sen5x::new(sen5x::ADDR).generic().addr(), 0x69);
    assert_eq!(sts4x::Sts4x::new(0x46).generic().addr(), 0x46);
    assert_eq!(sht4x::Sht4x::new(0x44).generic().addr(), 0x44);
}

#[test]
fn commands_go_out_big_endian() {
    assert_eq!(command_bytes(0x03C4), [0x03, 0xC4]);
    assert_eq!(command_bytes(u16::from(Precision::High.cmd())), [0x00, 0xFD]);
    assert_eq!(command_bytes(u16::from(SOFT_RESET)), [0x00, 0x94]);
}

#[test]
fn precision_commands_and_timings() {
    assert_eq!(Precision::High.cmd(), 0xFD);
    assert_eq!(Precision::Medium.cmd(), 0xF6);
    assert_eq!(Precision::Low.cmd(), 0xE0);
    assert_eq!(Precision::High.timing_micros(), 8300);
    assert_eq!(Precision::Medium.timing(), embassy_time::Duration::from_micros(4500));
    assert_eq!(Precision::Low.timing().as_micros(), 1600);
}

#[test]
fn serial_number_of_two_words() {
    let data = frame(&[(0x12, 0x34), (0x56, 0x78)]);
    let r = parse_serial_num(&data);
    assert_eq!(r.value, 0x1234_5678);
    assert!(r.mismatches.is_empty());
}

#[test]
fn serial_number_reports_bad_word() {
    let mut data = frame(&[(0x12, 0x34), (0x56, 0x78)]);
    data[5] ^= 0xFF;
    let r = parse_serial_num(&data);
    assert_eq!(r.value, 0x1234_5678);
    let ours = crc8_sensirion(&[0x56, 0x78]);
    assert_eq!(r.mismatches, vec![ChecksumMismatch { item: "serial1", ours, theirs: ours ^ 0xFF }]);
}

#[test]
fn sts4x_temperature() {
    let r = sts4x::parse_measurement(&[0xBE, 0xEF, 0x92]);
    assert_eq!(r.value, 0);
    let full = word(0xFF, 0xFF);
    assert_eq!(sts4x::parse_measurement(&full).value, 130);
    assert!(r.mismatches.is_empty());
}

#[test]
fn sht4x_reads_little_endian_words() {
    let data = frame(&[(0xFF, 0xFF), (0xEF, 0xBE)]);
    let r = sht4x::parse_measurement(&data);
    assert_eq!(r.value, sht4x::Measurement { relative_humidity: 88, temperature: 130 });
    assert!(r.mismatches.is_empty());
}

#[test]
fn sht4x_humidity_is_at_most_a_hundred_percent() {
    let data = frame(&[(0x00, 0x00), (0xFF, 0xFF)]);
    let r = sht4x::parse_measurement(&data);
    assert_eq!(r.value, sht4x::Measurement { relative_humidity: 100, temperature: 0 });
    // 0xD947 would convert to 101; 0xD720 converts to exactly 100
    let above = frame(&[(0, 0), (0x47, 0xD9)]);
    assert_eq!(sht4x::parse_measurement(&above).value.relative_humidity, 100);
    let at = frame(&[(0, 0), (0x20, 0xD7)]);
    assert_eq!(sht4x::parse_measurement(&at).value.relative_humidity, 100);
    let below = frame(&[(0, 0), (0x1F, 0xD7)]);
    assert_eq!(sht4x::parse_measurement(&below).value.relative_humidity, 99);
}

#[test]
fn sht4x_reports_both_words() {
    let mut data = frame(&[(0x00, 0x00), (0x00, 0x00)]);
    data[2] = 0;
    data[5] = 1;
    let r = sht4x::parse_measurement(&data);
    let ours = crc8_sensirion(&[0, 0]);
    assert_eq!(
        r.mismatches,
        vec![
            ChecksumMismatch { item: "temperature", ours, theirs: 0 },
            ChecksumMismatch { item: "humidity", ours, theirs: 1 },
        ]
    );
}

fn sen5x_values() -> Vec<u8> {
    frame(&[(0, 1), (0, 25), (0, 3), (0x01, 0x2C), (0, 5), (0, 6), (0, 100), (0x02, 0x00)])
}

#[test]
fn sen5x_measurement() {
    let r = sen5x::parse_measurement(&sen5x_values());
    assert_eq!(r.value, sen5x::Measurement { pm10: 300, pm2_5: 25, voc: 100, nox: 512 });
    assert!(r.mismatches.is_empty());
}

#[test]
fn sen5x_data_ready() {
    assert!(sen5x::parse_data_ready(&word(0, 1)).value);
    assert!(!sen5x::parse_data_ready(&word(0, 0)).value);
    let bad = sen5x::parse_data_ready(&[0, 1, 0]);
    assert!(bad.value);
    assert_eq!(bad.mismatches.len(), 1);
    assert_eq!(bad.mismatches[0].item, "data ready flag");
}

#[test]
fn sen5x_serial_is_ascii_pairs() {
    let text = b"SEN55-ABCDEFGHIJKLMNOPQRSTUVWXYZ";
    let pairs: Vec<(u8, u8)> = text.chunks(2).map(|c| (c[0], c[1])).collect();
    let data = frame(&pairs);
    assert_eq!(data.len(), 48);
    let r = sen5x::parse_serial_num(&data);
    assert_eq!(&r.value, text);
    assert!(r.mismatches.is_empty());
}

#[test]
fn sen5x_cycle_polls_until_ready() {
    let mut cycle = MeasureCycle::new();
    assert_eq!(cycle.start(), CycleAction::Command { cmd: START_MEASUREMENT, wait_ms: 50 });
    let poll = CycleAction::Query { cmd: READ_DATA_READY, wait_ms: 20, len: 3 };
    assert_eq!(cycle.step(CycleEvent::Done), poll);
    assert_eq!(cycle.step(CycleEvent::Answer(word(0, 0).to_vec())), CycleAction::Wait { ms: 1000 });
    assert_eq!(cycle.step(CycleEvent::Done), poll);
    assert_eq!(cycle.step(CycleEvent::BusError), CycleAction::Wait { ms: 1000 });
    assert_eq!(cycle.step(CycleEvent::Done), poll);
    assert_eq!(
        cycle.step(CycleEvent::Answer(word(0, 1).to_vec())),
        CycleAction::Query { cmd: READ_MEASURED_VALUES, wait_ms: 20, len: 24 }
    );
    assert_eq!(
        cycle.step(CycleEvent::Answer(sen5x_values())),
        CycleAction::Command { cmd: STOP_MEASUREMENT, wait_ms: 200 }
    );
    match cycle.step(CycleEvent::Done) {
        CycleAction::Finished(r) => {
            assert_eq!(r.value, sen5x::Measurement { pm10: 300, pm2_5: 25, voc: 100, nox: 512 });
            assert!(r.mismatches.is_empty());
        }
        other => panic!("unexpected {other:?}"),
    }
    assert_eq!(cycle.phase, CyclePhase::Done);
}

#[test]
fn sen5x_cycle_fails_on_bus_error_when_reading() {
    let mut cycle = MeasureCycle::new();
    cycle.start();
    cycle.step(CycleEvent::Done);
    cycle.step(CycleEvent::Answer(word(0, 1).to_vec()));
    assert_eq!(cycle.step(CycleEvent::BusError), CycleAction::Failed);
    assert_eq!(cycle.phase, CyclePhase::Done);
}

use dpia::data::{
    collect, data_to_query, next_collector_step, show_data, CollectorStep, DisplayWrite, SensorData,
    COLLECT_PERIOD_SECS,
};
use dpia::data::CollectorStep as C;
use dpia::sensiron::{sen5x, sht4x};
use dpia::text::FixedText;

fn query(d: &SensorData) -> Vec<u8> {
    data_to_query(d).expect("fits").to_vec()
}

fn full() -> SensorData {
    SensorData {
        air_temp: Some(21),
        ground_temp: Some(-3),
        humidity: Some(45),
        nox: Some(1),
        voc: Some(100),
        pm10: Some(12),
        pm2_5: Some(8),
    }
}

#[test]
fn query_with_every_reading() {
    let q = query(&full());
    assert_eq!(
        String::from_utf8(q).unwrap(),
        "https://dpia.trevrosa.dev/data?humidity=45&air_temp=21.00&ground_temp=-3.00&nox=1&voc=100&pm10=12&pm25=8"
    );
}

#[test]
fn query_without_readings() {
    let q = query(&SensorData::default());
    assert_eq!(q, b"https://dpia.trevrosa.dev/data?");
    let only_pm = SensorData { pm2_5: Some(65535), ..SensorData::default() };
    assert_eq!(query(&only_pm), b"https://dpia.trevrosa.dev/data?pm25=65535");
}

#[test]
fn query_fits_with_largest_readings() {
    let big = SensorData {
        air_temp: Some(130),
        ground_temp: Some(130),
        humidity: Some(255),
        nox: Some(65535),
        voc: Some(65535),
        pm10: Some(65535),
        pm2_5: Some(65535),
    };
    assert_eq!(query(&big).len(), 120);
}

#[test]
fn collect_takes_what_succeeded() {
    let sht = sht4x::Measurement { relative_humidity: 45, temperature: 21 };
    let air = sen5x::Measurement { pm10: 12, pm2_5: 8, voc: 100, nox: 1 };
    let d = collect(Some(sht), Some(-3), Some(air));
    assert_eq!(d, full());
    let none = collect(None, None, None);
    assert_eq!(none, SensorData::default());
}

#[test]
fn write_from_copies_everything() {
    let mut d = SensorData::default();
    d.write_from(&full());
    assert_eq!(d, full());
}

#[test]
fn show_temperature_then_humidity() {
    let w = show_data(&full());
    assert_eq!(
        w,
        vec![
            DisplayWrite { display: 0, text: *b"21.0    ", dots: 0b0100_0000 },
            DisplayWrite { display: 0, text: *b"    45  ", dots: 0 },
        ]
    );
}

#[test]
fn show_humidity_alone_after_three_spaces() {
    let d = SensorData { humidity: Some(100), ..SensorData::default() };
    assert_eq!(show_data(&d), vec![DisplayWrite { display: 0, text: *b"   100  ", dots: 0 }]);
    assert!(show_data(&SensorData::default()).is_empty());
}

#[test]
fn query_too_long_is_refused() {
    let huge = SensorData {
        air_temp: Some(i32::MIN),
        ground_temp: Some(i32::MIN),
        humidity: Some(255),
        nox: Some(65535),
        voc: Some(65535),
        pm10: Some(65535),
        pm2_5: Some(65535),
    };
    assert!(data_to_query(&huge).is_none());
}

fn round(has_displays: bool) -> Vec<CollectorStep> {
    let mut last = None;
    let mut steps = Vec::new();
    for _ in 0..11 {
        let step = next_collector_step(last, has_displays);
        steps.push(step);
        last = Some(step);
    }
    steps
}

#[test]
fn collector_rounds_with_displays() {
    assert_eq!(
        round(true),
        vec![C::Collect, C::Store, C::Submit, C::Show, C::Wait(30), C::Collect, C::Store, C::Submit, C::Show, C::Wait(30), C::Collect]
    );
    assert_eq!(COLLECT_PERIOD_SECS, 30);
}

#[test]
fn collector_rounds_without_displays() {
    assert_eq!(
        round(false),
        vec![C::Collect, C::Store, C::Submit, C::Wait(30), C::Collect, C::Store, C::Submit, C::Wait(30), C::Collect, C::Store, C::Submit]
    );
}

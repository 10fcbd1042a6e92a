//! The set of readings taken together: how they are gathered from the
//! sensors' measurements, shown on the displays and uploaded.
use crate::decimal::{
    digits, lemma_digits_ascii, lemma_digits_shape, push_decimal, push_signed, signed_digits,
};
use crate::text::{is_ascii_text, lemma_ascii_concat, lemma_str_ascii, text_of, FixedText, QueryText};
use crate::display::{
    display_digits, dots_for_len, fmt_pad_u8, fmt_temp, pad_u8_text, repeat, temp_text,
};
use crate::sensiron::{sen5x, sht4x};
use vstd::prelude::*;
use vstd::string::StringSliceAdditionalSpecFns;

verus! {

/// One round of readings. Temperatures are in whole degrees Celsius, as the
/// conversion of the sensors' signals gives them.
#[derive(Clone, Copy, Debug, PartialEq, Eq)]
pub struct SensorData {
    pub air_temp: Option<i32>,
    pub ground_temp: Option<i32>,
    pub humidity: Option<u8>,
    pub nox: Option<u16>,
    pub voc: Option<u16>,
    pub pm10: Option<u16>,
    pub pm2_5: Option<u16>,
}

impl Default for SensorData {
    /// No readings.
    fn default() -> (d: Self)
        ensures
            d == (SensorData {
                air_temp: None,
                ground_temp: None,
                humidity: None,
                nox: None,
                voc: None,
                pm10: None,
                pm2_5: None,
            }),
    {
        SensorData {
            air_temp: None,
            ground_temp: None,
            humidity: None,
            nox: None,
            voc: None,
            pm10: None,
            pm2_5: None,
        }
    }
}

impl SensorData {
    /// Overwrites every reading of `self` with those of `src`.
    pub fn write_from(&mut self, src: &Self)
        ensures
            *final(self) == *src,
    {
        self.air_temp = src.air_temp;
        self.ground_temp = src.ground_temp;
        self.humidity = src.humidity;
        self.nox = src.nox;
        self.voc = src.voc;
        self.pm10 = src.pm10;
        self.pm2_5 = src.pm2_5;
    }
}

/// The readings gathered from the measurements that succeeded.
pub open spec fn collect_spec(
    sht: Option<sht4x::Measurement>,
    ground_temp: Option<i32>,
    air: Option<sen5x::Measurement>,
) -> SensorData {
    SensorData {
        humidity: match sht {
            Some(m) => Some(m.relative_humidity as u8),
            None => None,
        },
        air_temp: match sht {
            Some(m) => Some(m.temperature as i32),
            None => None,
        },
        ground_temp,
        nox: match air {
            Some(m) => Some(m.nox),
            None => None,
        },
        voc: match air {
            Some(m) => Some(m.voc),
            None => None,
        },
        pm10: match air {
            Some(m) => Some(m.pm10),
            None => None,
        },
        pm2_5: match air {
            Some(m) => Some(m.pm2_5),
            None => None,
        },
    }
}

/// Each reading comes from its own sensor alone: the air-quality readings
/// are those of the `SEN5x` measurement whenever it succeeded, whatever the
/// other sensors gave; humidity and air temperature are those of the `SHT4x`;
/// the ground temperature is the `STS4x` one. A failed measurement leaves
/// only its own readings empty.
pub proof fn lemma_readings_follow_their_sensor(
    sht: Option<sht4x::Measurement>,
    ground_temp: Option<i32>,
    air: Option<sen5x::Measurement>,
    other_sht: Option<sht4x::Measurement>,
    other_ground_temp: Option<i32>,
    other_air: Option<sen5x::Measurement>,
)
    ensures
        ({
            let data = collect_spec(sht, ground_temp, air);
            &&& air matches Some(m) ==> data.nox == Some(m.nox) && data.voc == Some(m.voc)
                && data.pm10 == Some(m.pm10) && data.pm2_5 == Some(m.pm2_5)
            &&& air is None ==> data.nox is None && data.voc is None && data.pm10 is None
                && data.pm2_5 is None
            &&& sht matches Some(m) ==> data.humidity == Some(m.relative_humidity as u8)
                && data.air_temp == Some(m.temperature as i32)
            &&& sht is None ==> data.humidity is None && data.air_temp is None
            &&& data.ground_temp == ground_temp
        }),
        ({
            let a = collect_spec(sht, ground_temp, air);
            let b = collect_spec(other_sht, other_ground_temp, air);
            a.nox == b.nox && a.voc == b.voc && a.pm10 == b.pm10 && a.pm2_5 == b.pm2_5
        }),
        ({
            let a = collect_spec(sht, ground_temp, air);
            let b = collect_spec(sht, other_ground_temp, other_air);
            a.humidity == b.humidity && a.air_temp == b.air_temp
        }),
{
}

/// Gathers the readings of the `SHT4x` (humidity and air temperature), the
/// `STS4x` (ground temperature) and the `SEN5x` (air quality); a sensor
/// whose measurement failed leaves its readings empty.
pub fn collect(
    sht: Option<sht4x::Measurement>,
    ground_temp: Option<i32>,
    air: Option<sen5x::Measurement>,
) -> (data: SensorData)
    requires
        sht matches Some(m) ==> m.relative_humidity <= u8::MAX,
    ensures
        data == collect_spec(sht, ground_temp, air),
        air matches Some(m) ==> data.nox == Some(m.nox) && data.voc == Some(m.voc) && data.pm10
            == Some(m.pm10) && data.pm2_5 == Some(m.pm2_5),
        air is None ==> data.nox is None && data.voc is None && data.pm10 is None && data.pm2_5 is None,
        sht matches Some(m) ==> data.humidity == Some(m.relative_humidity as u8) && data.air_temp
            == Some(m.temperature as i32),
        sht is None ==> data.humidity is None && data.air_temp is None,
        data.ground_temp == ground_temp,
{
    proof {
        lemma_readings_follow_their_sensor(sht, ground_temp, air, sht, ground_temp, air);
    }
    let (humidity, air_temp) = match sht {
        Some(m) => (Some(m.relative_humidity as u8), Some(m.temperature as i32)),
        None => (None, None),
    };
    let (nox, voc, pm10, pm2_5) = match air {
        Some(m) => (Some(m.nox), Some(m.voc), Some(m.pm10), Some(m.pm2_5)),
        None => (None, None, None, None),
    };
    SensorData { air_temp, ground_temp, humidity, nox, voc, pm10, pm2_5 }
}

/// One text written to a display: its index, the eight characters and the
/// decimal-point mask.
#[derive(Clone, Copy, Debug, PartialEq, Eq)]
pub struct DisplayWrite {
    pub display: u8,
    pub text: [u8; 8],
    pub dots: u8,
}

/// `show_data` can render `data`: a temperature between 0 and 100 degrees and
/// a humidity of at most 100 %.
pub open spec fn showable(data: SensorData) -> bool {
    &&& data.air_temp matches Some(t) ==> 0 <= t <= 100
    &&& data.humidity matches Some(h) ==> h <= 100
}

/// Where the humidity starts on the display: after the temperature when there
/// is one, else after three characters.
pub open spec fn humidity_offset(data: SensorData) -> nat {
    match data.air_temp {
        Some(t) => temp_text(t as u8).len(),
        None => 3,
    }
}

/// The humidity starts right where the rendered temperature ends: after the
/// temperature's digits and its `.0` (bytes 46, 48), which take the first characters of the
/// temperature's write (the rest being spaces); after three characters when
/// there is no temperature.
pub proof fn lemma_humidity_after_temperature(data: SensorData)
    requires
        showable(data),
    ensures
        humidity_offset(data) == match data.air_temp {
            Some(t) => digits(t as nat).len() + 2,
            None => 3,
        },
        data.air_temp matches Some(t) ==> {
            &&& temp_text(t as u8) == digits(t as nat) + seq![46u8, 48u8]
            &&& temp_text(t as u8).len() == humidity_offset(data)
        },
{
    if let Some(t) = data.air_temp {
        assert((t as u8) as nat == t as nat);
    }
}

/// The writes that show `data` on the displays, in order: the air temperature
/// (if any) with its decimal point, then the humidity (if any) placed after it.
pub fn show_data(data: &SensorData) -> (writes: Vec<DisplayWrite>)
    requires
        showable(*data),
    ensures
        writes@.len() == (if data.air_temp is Some { 1int } else { 0 }) + (if data.humidity is Some {
            1int
        } else {
            0
        }),
        data.air_temp matches Some(t) ==> {
            &&& writes@[0].display == 0
            &&& writes@[0].text@ == temp_text(t as u8) + repeat(
                32u8,
                (8 - temp_text(t as u8).len()) as nat,
            )
            &&& writes@[0].dots == dots_for_len(temp_text(t as u8).len())
        },
        data.humidity matches Some(h) ==> {
            let last = writes@.last();
            &&& last.display == 0
            &&& last.text@ == pad_u8_text(h, humidity_offset(*data))
            &&& last.dots == 0
        },
        data.humidity matches Some(h) ==> {
            let start: nat = match data.air_temp {
                Some(t) => digits(t as nat).len() + 2,
                None => 3,
            };
            writes@.last().text@ == repeat(32u8, start) + digits(h as nat) + repeat(
                32u8,
                (8 - start - digits(h as nat).len()) as nat,
            )
        },
{
    proof {
        lemma_humidity_after_temperature(*data);
    }
    let mut writes: Vec<DisplayWrite> = Vec::new();
    let len = if let Some(air_temp) = data.air_temp {
        let (text, dots, len) = fmt_temp(air_temp as u8);
        writes.push(DisplayWrite { display: 0, text: display_digits(&text), dots });
        len
    } else {
        3
    };
    if let Some(humidity) = data.humidity {
        proof {
            lemma_digits_shape(humidity as nat);
        }
        let text = fmt_pad_u8(humidity, Some(len));
        writes.push(DisplayWrite { display: 0, text: display_digits(&text), dots: 0 });
    }
    writes
}

/// Appends the bytes of `s`.
fn push_str(out: &mut Vec<u8>, s: &str)
    ensures
        final(out)@ == old(out)@ + s.spec_bytes(),
{
    let bytes = s.as_bytes();
    let mut i: usize = 0;
    while i < bytes.len()
        invariant
            i <= bytes@.len(),
            bytes@ == s.spec_bytes(),
            out@ == old(out)@ + bytes@.take(i as int),
        decreases bytes@.len() - i,
    {
        out.push(bytes[i]);
        assert(bytes@.take(i + 1) =~= bytes@.take(i as int).push(bytes@[i as int]));
        i = i + 1;
    }
    assert(bytes@.take(bytes@.len() as int) =~= bytes@);
}

/// `key` followed by `value`, when there is a value.
pub open spec fn field(key: &str, value: Option<Seq<u8>>) -> Seq<u8> {
    match value {
        Some(v) => key.spec_bytes() + v,
        None => Seq::empty(),
    }
}

/// `key`, the number and `tail`, when there is a number.
pub open spec fn unsigned_field(key: &str, value: Option<u16>, tail: &str) -> Seq<u8> {
    field(
        key,
        match value {
            Some(v) => Some(digits(v as nat) + tail.spec_bytes()),
            None => None,
        },
    )
}

/// A present number is written out whatever it is, zero included: `key`, its
/// decimal digits, then `tail`; an absent one writes nothing.
pub proof fn lemma_unsigned_field_written(key: &str, value: Option<u16>, tail: &str)
    ensures
        value matches Some(v) ==> unsigned_field(key, value, tail) == key.spec_bytes() + digits(
            v as nat,
        ) + tail.spec_bytes(),
        value is None ==> unsigned_field(key, value, tail) == Seq::<u8>::empty(),
{
    if let Some(v) = value {
        assert(unsigned_field(key, value, tail) =~= key.spec_bytes() + digits(v as nat)
            + tail.spec_bytes());
    }
}

/// `key` and the temperature with two decimals and `&`, when there is one.
pub open spec fn temp_field(key: &str, value: Option<i32>) -> Seq<u8> {
    field(
        key,
        match value {
            Some(t) => Some(signed_digits(t as int) + ".00&".spec_bytes()),
            None => None,
        },
    )
}

/// The upload URL for `data`: the readings it has, as query parameters, the
/// temperatures with two decimals.
pub open spec fn query_text(data: SensorData) -> Seq<u8> {
    "https://dpia.trevrosa.dev/data?".spec_bytes()
        + unsigned_field("humidity=", match data.humidity { Some(h) => Some(h as u16), None => None }, "&")
        + temp_field("air_temp=", data.air_temp)
        + temp_field("ground_temp=", data.ground_temp)
        + unsigned_field("nox=", data.nox, "&")
        + unsigned_field("voc=", data.voc, "&")
        + unsigned_field("pm10=", data.pm10, "&")
        + unsigned_field("pm25=", data.pm2_5, "")
}

fn push_unsigned_field(out: &mut Vec<u8>, key: &str, value: Option<u16>, tail: &str)
    ensures
        final(out)@ == old(out)@ + unsigned_field(key, value, tail),
{
    if let Some(v) = value {
        push_str(out, key);
        push_decimal(out, v as u64);
        push_str(out, tail);
        assert(final(out)@ =~= old(out)@ + unsigned_field(key, value, tail));
    } else {
        assert(final(out)@ =~= old(out)@ + unsigned_field(key, value, tail));
    }
}

fn push_temp_field(out: &mut Vec<u8>, key: &str, value: Option<i32>)
    ensures
        final(out)@ == old(out)@ + temp_field(key, value),
{
    if let Some(t) = value {
        push_str(out, key);
        push_signed(out, t as i64);
        push_str(out, ".00&");
        assert(final(out)@ =~= old(out)@ + temp_field(key, value));
    } else {
        assert(final(out)@ =~= old(out)@ + temp_field(key, value));
    }
}

proof fn lemma_unsigned_field_len(key: &str, value: Option<u16>, tail: &str)
    ensures
        unsigned_field(key, value, tail).len() <= key.spec_bytes().len() + 5 + tail.spec_bytes().len(),
{
    if let Some(v) = value {
        lemma_digits_shape(v as nat);
    }
}

proof fn lemma_temp_field_len(key: &str, value: Option<i32>)
    requires
        value matches Some(t) ==> -99 <= t <= 999,
    ensures
        temp_field(key, value).len() <= key.spec_bytes().len() + 3 + ".00&".spec_bytes().len(),
{
    if let Some(t) = value {
        if t < 0 {
            lemma_digits_shape((-t) as nat);
        } else {
            lemma_digits_shape(t as nat);
        }
    }
}

/// The literals of the upload URL: each is ASCII, with one byte per
/// character.
proof fn lemma_query_literals()
    ensures
        vstd::string::is_ascii("https://dpia.trevrosa.dev/data?") && "https://dpia.trevrosa.dev/data?".spec_bytes().len() == 31,
        vstd::string::is_ascii("humidity=") && "humidity=".spec_bytes().len() == 9,
        vstd::string::is_ascii("air_temp=") && "air_temp=".spec_bytes().len() == 9,
        vstd::string::is_ascii("ground_temp=") && "ground_temp=".spec_bytes().len() == 12,
        vstd::string::is_ascii("nox=") && "nox=".spec_bytes().len() == 4,
        vstd::string::is_ascii("voc=") && "voc=".spec_bytes().len() == 4,
        vstd::string::is_ascii("pm10=") && "pm10=".spec_bytes().len() == 5,
        vstd::string::is_ascii("pm25=") && "pm25=".spec_bytes().len() == 5,
        vstd::string::is_ascii("&") && "&".spec_bytes().len() == 1,
        vstd::string::is_ascii("") && "".spec_bytes().len() == 0,
        vstd::string::is_ascii(".00&") && ".00&".spec_bytes().len() == 4,
{
    broadcast use vstd::string::is_ascii_spec_bytes;

    reveal_strlit("https://dpia.trevrosa.dev/data?");
    reveal_strlit("humidity=");
    reveal_strlit("air_temp=");
    reveal_strlit("ground_temp=");
    reveal_strlit("nox=");
    reveal_strlit("voc=");
    reveal_strlit("pm10=");
    reveal_strlit("pm25=");
    reveal_strlit("&");
    reveal_strlit("");
    reveal_strlit(".00&");
    assert(vstd::string::is_ascii("https://dpia.trevrosa.dev/data?"));
    assert(vstd::string::is_ascii("humidity="));
    assert(vstd::string::is_ascii("air_temp="));
    assert(vstd::string::is_ascii("ground_temp="));
    assert(vstd::string::is_ascii("nox="));
    assert(vstd::string::is_ascii("voc="));
    assert(vstd::string::is_ascii("pm10="));
    assert(vstd::string::is_ascii("pm25="));
    assert(vstd::string::is_ascii("&"));
    assert(vstd::string::is_ascii(""));
    assert(vstd::string::is_ascii(".00&"));
}

/// The upload URL fits in 128 bytes (it takes at most 120) when each
/// temperature takes at most three characters, as those the sensors measure
/// do.
pub proof fn lemma_query_fits(data: SensorData)
    requires
        data.air_temp matches Some(t) ==> -99 <= t <= 999,
        data.ground_temp matches Some(t) ==> -99 <= t <= 999,
    ensures
        query_text(data).len() <= 120,
{
    lemma_query_literals();
    if let Some(hv) = data.humidity {
        lemma_digits_shape(hv as nat);
    }
    lemma_temp_field_len("air_temp=", data.air_temp);
    lemma_temp_field_len("ground_temp=", data.ground_temp);
    lemma_unsigned_field_len("nox=", data.nox, "&");
    lemma_unsigned_field_len("voc=", data.voc, "&");
    lemma_unsigned_field_len("pm10=", data.pm10, "&");
    lemma_unsigned_field_len("pm25=", data.pm2_5, "");
}

/// `part` appears somewhere in `text`.
pub open spec fn occurs_in(part: Seq<u8>, text: Seq<u8>) -> bool {
    exists|i: int|
        0 <= i && i + part.len() <= text.len() && #[trigger] text.subrange(i, i + part.len())
            == part
}

proof fn lemma_occurs_last(pre: Seq<u8>, part: Seq<u8>)
    ensures
        occurs_in(part, pre + part),
{
    assert((pre + part).subrange(pre.len() as int, (pre.len() + part.len()) as int) =~= part);
}

proof fn lemma_occurs_append(part: Seq<u8>, text: Seq<u8>, more: Seq<u8>)
    requires
        occurs_in(part, text),
    ensures
        occurs_in(part, text + more),
{
    let i = choose|i: int|
        0 <= i && i + part.len() <= text.len() && #[trigger] text.subrange(i, i + part.len())
            == part;
    assert((text + more).subrange(i, i + part.len()) =~= text.subrange(i, i + part.len()));
}

/// Every reading present in `data` is in its upload URL as its key, the
/// decimal digits of its value (a temperature with `.00`) and the separator
/// after it, whatever the value, zero included; the last one, `pm25`, ends
/// the URL.
pub proof fn lemma_query_carries_each_reading(data: SensorData)
    ensures
        ({
            let q = query_text(data);
            &&& data.humidity matches Some(h) ==> occurs_in(
                "humidity=".spec_bytes() + digits(h as nat) + "&".spec_bytes(),
                q,
            )
            &&& data.air_temp matches Some(t) ==> occurs_in(
                "air_temp=".spec_bytes() + signed_digits(t as int) + ".00&".spec_bytes(),
                q,
            )
            &&& data.ground_temp matches Some(t) ==> occurs_in(
                "ground_temp=".spec_bytes() + signed_digits(t as int) + ".00&".spec_bytes(),
                q,
            )
            &&& data.nox matches Some(v) ==> occurs_in(
                "nox=".spec_bytes() + digits(v as nat) + "&".spec_bytes(),
                q,
            )
            &&& data.voc matches Some(v) ==> occurs_in(
                "voc=".spec_bytes() + digits(v as nat) + "&".spec_bytes(),
                q,
            )
            &&& data.pm10 matches Some(v) ==> occurs_in(
                "pm10=".spec_bytes() + digits(v as nat) + "&".spec_bytes(),
                q,
            )
            &&& data.pm2_5 matches Some(v) ==> ("pm25=".spec_bytes() + digits(v as nat)).is_suffix_of(q)
        }),
{
    let h = match data.humidity {
        Some(h) => Some(h as u16),
        None => None,
    };
    let url = "https://dpia.trevrosa.dev/data?".spec_bytes();
    let f1 = unsigned_field("humidity=", h, "&");
    let f2 = temp_field("air_temp=", data.air_temp);
    let f3 = temp_field("ground_temp=", data.ground_temp);
    let f4 = unsigned_field("nox=", data.nox, "&");
    let f5 = unsigned_field("voc=", data.voc, "&");
    let f6 = unsigned_field("pm10=", data.pm10, "&");
    let f7 = unsigned_field("pm25=", data.pm2_5, "");
    let q = query_text(data);
    assert(q == url + f1 + f2 + f3 + f4 + f5 + f6 + f7);
    if let Some(hv) = data.humidity {
        let part = "humidity=".spec_bytes() + digits(hv as nat) + "&".spec_bytes();
        assert(occurs_in(part, q)) by {
            assert(f1 =~= part);
            lemma_occurs_last(url, part);
            lemma_occurs_append(part, url + f1, f2);
            lemma_occurs_append(part, url + f1 + f2, f3);
            lemma_occurs_append(part, url + f1 + f2 + f3, f4);
            lemma_occurs_append(part, url + f1 + f2 + f3 + f4, f5);
            lemma_occurs_append(part, url + f1 + f2 + f3 + f4 + f5, f6);
            lemma_occurs_append(part, url + f1 + f2 + f3 + f4 + f5 + f6, f7);
        }
    }
    if let Some(t) = data.air_temp {
        let part = "air_temp=".spec_bytes() + signed_digits(t as int) + ".00&".spec_bytes();
        assert(occurs_in(part, q)) by {
            assert(f2 =~= part);
            lemma_occurs_last(url + f1, part);
            lemma_occurs_append(part, url + f1 + f2, f3);
            lemma_occurs_append(part, url + f1 + f2 + f3, f4);
            lemma_occurs_append(part, url + f1 + f2 + f3 + f4, f5);
            lemma_occurs_append(part, url + f1 + f2 + f3 + f4 + f5, f6);
            lemma_occurs_append(part, url + f1 + f2 + f3 + f4 + f5 + f6, f7);
        }
    }
    if let Some(t) = data.ground_temp {
        let part = "ground_temp=".spec_bytes() + signed_digits(t as int) + ".00&".spec_bytes();
        assert(occurs_in(part, q)) by {
            assert(f3 =~= part);
            lemma_occurs_last(url + f1 + f2, part);
            lemma_occurs_append(part, url + f1 + f2 + f3, f4);
            lemma_occurs_append(part, url + f1 + f2 + f3 + f4, f5);
            lemma_occurs_append(part, url + f1 + f2 + f3 + f4 + f5, f6);
            lemma_occurs_append(part, url + f1 + f2 + f3 + f4 + f5 + f6, f7);
        }
    }
    if let Some(v) = data.nox {
        let part = "nox=".spec_bytes() + digits(v as nat) + "&".spec_bytes();
        assert(occurs_in(part, q)) by {
            assert(f4 =~= part);
            lemma_occurs_last(url + f1 + f2 + f3, part);
            lemma_occurs_append(part, url + f1 + f2 + f3 + f4, f5);
            lemma_occurs_append(part, url + f1 + f2 + f3 + f4 + f5, f6);
            lemma_occurs_append(part, url + f1 + f2 + f3 + f4 + f5 + f6, f7);
        }
    }
    if let Some(v) = data.voc {
        let part = "voc=".spec_bytes() + digits(v as nat) + "&".spec_bytes();
        assert(occurs_in(part, q)) by {
            assert(f5 =~= part);
            lemma_occurs_last(url + f1 + f2 + f3 + f4, part);
            lemma_occurs_append(part, url + f1 + f2 + f3 + f4 + f5, f6);
            lemma_occurs_append(part, url + f1 + f2 + f3 + f4 + f5 + f6, f7);
        }
    }
    if let Some(v) = data.pm10 {
        let part = "pm10=".spec_bytes() + digits(v as nat) + "&".spec_bytes();
        assert(occurs_in(part, q)) by {
            assert(f6 =~= part);
            lemma_occurs_last(url + f1 + f2 + f3 + f4 + f5, part);
            lemma_occurs_append(part, url + f1 + f2 + f3 + f4 + f5 + f6, f7);
        }
    }
    if let Some(v) = data.pm2_5 {
        let part = "pm25=".spec_bytes() + digits(v as nat);
        assert(part.is_suffix_of(q)) by {
            lemma_query_literals();
            assert(f7 =~= part);
            let pre = url + f1 + f2 + f3 + f4 + f5 + f6;
            assert(q.subrange(q.len() - part.len(), q.len() as int) =~= part);
        }
    }
}

proof fn lemma_unsigned_field_ascii(key: &str, value: Option<u16>, tail: &str)
    requires
        vstd::string::is_ascii(key),
        vstd::string::is_ascii(tail),
    ensures
        is_ascii_text(unsigned_field(key, value, tail)),
{
    lemma_str_ascii(key);
    lemma_str_ascii(tail);
    if let Some(v) = value {
        lemma_digits_ascii(v as nat);
        lemma_ascii_concat(digits(v as nat), tail.spec_bytes());
        lemma_ascii_concat(key.spec_bytes(), digits(v as nat) + tail.spec_bytes());
    } else {
        assert(unsigned_field(key, value, tail) =~= Seq::<u8>::empty());
    }
}

proof fn lemma_temp_field_ascii(key: &str, value: Option<i32>)
    requires
        vstd::string::is_ascii(key),
        vstd::string::is_ascii(".00&"),
    ensures
        is_ascii_text(temp_field(key, value)),
{
    lemma_str_ascii(key);
    lemma_str_ascii(".00&");
    if let Some(t) = value {
        if t < 0 {
            lemma_digits_ascii((-t) as nat);
            assert(signed_digits(t as int) == signed_digits(-((-t) as nat as int)));
        } else {
            lemma_digits_ascii(t as nat);
        }
        lemma_ascii_concat(signed_digits(t as int), ".00&".spec_bytes());
        lemma_ascii_concat(key.spec_bytes(), signed_digits(t as int) + ".00&".spec_bytes());
    } else {
        assert(temp_field(key, value) =~= Seq::<u8>::empty());
    }
}

/// The upload URL is ASCII.
proof fn lemma_query_ascii(data: SensorData)
    ensures
        is_ascii_text(query_text(data)),
{
    lemma_query_literals();
    let h = match data.humidity {
        Some(h) => Some(h as u16),
        None => None,
    };
    let url = "https://dpia.trevrosa.dev/data?".spec_bytes();
    let f1 = unsigned_field("humidity=", h, "&");
    let f2 = temp_field("air_temp=", data.air_temp);
    let f3 = temp_field("ground_temp=", data.ground_temp);
    let f4 = unsigned_field("nox=", data.nox, "&");
    let f5 = unsigned_field("voc=", data.voc, "&");
    let f6 = unsigned_field("pm10=", data.pm10, "&");
    let f7 = unsigned_field("pm25=", data.pm2_5, "");
    lemma_str_ascii("https://dpia.trevrosa.dev/data?");
    lemma_unsigned_field_ascii("humidity=", h, "&");
    lemma_temp_field_ascii("air_temp=", data.air_temp);
    lemma_temp_field_ascii("ground_temp=", data.ground_temp);
    lemma_unsigned_field_ascii("nox=", data.nox, "&");
    lemma_unsigned_field_ascii("voc=", data.voc, "&");
    lemma_unsigned_field_ascii("pm10=", data.pm10, "&");
    lemma_unsigned_field_ascii("pm25=", data.pm2_5, "");
    broadcast use crate::text::lemma_ascii_concat_auto;

    assert(is_ascii_text(url + f1 + f2 + f3 + f4 + f5 + f6 + f7));
}

/// The URL the readings are posted to; `None` when it does not fit in 128
/// characters.
pub fn data_to_query(data: &SensorData) -> (query: Option<QueryText>)
    ensures
        query is None <==> query_text(*data).len() > 128,
        query matches Some(q) ==> q.text() == query_text(*data),
{
    let mut query: Vec<u8> = Vec::new();
    push_str(&mut query, "https://dpia.trevrosa.dev/data?");
    let humidity: Option<u16> = match data.humidity {
        Some(h) => Some(h as u16),
        None => None,
    };
    push_unsigned_field(&mut query, "humidity=", humidity, "&");
    push_temp_field(&mut query, "air_temp=", data.air_temp);
    push_temp_field(&mut query, "ground_temp=", data.ground_temp);
    push_unsigned_field(&mut query, "nox=", data.nox, "&");
    push_unsigned_field(&mut query, "voc=", data.voc, "&");
    push_unsigned_field(&mut query, "pm10=", data.pm10, "&");
    push_unsigned_field(&mut query, "pm25=", data.pm2_5, "");
    assert(query@ =~= query_text(*data));
    proof {
        lemma_query_ascii(*data);
    }
    text_of::<QueryText>(query.as_slice())
}

/// Seconds between two rounds of the data collector.
pub const COLLECT_PERIOD_SECS: u64 = 30;

/// One step of the data collector's round.
#[derive(Clone, Copy, Debug, PartialEq, Eq)]
pub enum CollectorStep {
    /// Read every sensor.
    Collect,
    /// Put the readings where the Bluetooth server reads them.
    Store,
    /// Upload the readings; a failure is logged and the round goes on.
    Submit,
    /// Show the readings on the displays.
    Show,
    /// Wait this many seconds before the next round.
    Wait(u64),
}

/// The step after `last` (`None` before the first): a round collects, stores,
/// submits, shows where there are displays, then waits out the period.
pub open spec fn next_collector_step_spec(last: Option<CollectorStep>, has_displays: bool) -> CollectorStep {
    match last {
        None => CollectorStep::Collect,
        Some(CollectorStep::Collect) => CollectorStep::Store,
        Some(CollectorStep::Store) => CollectorStep::Submit,
        Some(CollectorStep::Submit) => if has_displays {
            CollectorStep::Show
        } else {
            CollectorStep::Wait(COLLECT_PERIOD_SECS)
        },
        Some(CollectorStep::Show) => CollectorStep::Wait(COLLECT_PERIOD_SECS),
        Some(CollectorStep::Wait(_)) => CollectorStep::Collect,
    }
}

/// The data collector's next step after `last` (`None` before the first).
pub fn next_collector_step(last: Option<CollectorStep>, has_displays: bool) -> (next: CollectorStep)
    ensures
        next == next_collector_step_spec(last, has_displays),
{
    match last {
        None => CollectorStep::Collect,
        Some(CollectorStep::Collect) => CollectorStep::Store,
        Some(CollectorStep::Store) => CollectorStep::Submit,
        Some(CollectorStep::Submit) => if has_displays {
            CollectorStep::Show
        } else {
            CollectorStep::Wait(COLLECT_PERIOD_SECS)
        },
        Some(CollectorStep::Show) => CollectorStep::Wait(COLLECT_PERIOD_SECS),
        Some(CollectorStep::Wait(_)) => CollectorStep::Collect,
    }
}

/// The steps taken from `last` on, `n` of them.
pub open spec fn collector_steps(last: Option<CollectorStep>, has_displays: bool, n: nat) -> Seq<CollectorStep>
    decreases n,
{
    if n == 0 {
        Seq::empty()
    } else {
        let next = next_collector_step_spec(last, has_displays);
        seq![next] + collector_steps(Some(next), has_displays, (n - 1) as nat)
    }
}

/// The collector starts at once with a round, and every round, the first
/// included, reads the sensors, stores and uploads the readings, shows them
/// where there are displays, then waits 30 seconds before the next round.
pub proof fn lemma_collector_round(has_displays: bool, last: Option<CollectorStep>)
    requires
        last is None || last matches Some(CollectorStep::Wait(_)),
    ensures
        has_displays ==> collector_steps(last, has_displays, 5) == seq![
            CollectorStep::Collect,
            CollectorStep::Store,
            CollectorStep::Submit,
            CollectorStep::Show,
            CollectorStep::Wait(COLLECT_PERIOD_SECS),
        ],
        !has_displays ==> collector_steps(last, has_displays, 4) == seq![
            CollectorStep::Collect,
            CollectorStep::Store,
            CollectorStep::Submit,
            CollectorStep::Wait(COLLECT_PERIOD_SECS),
        ],
{
    reveal_with_fuel(collector_steps, 6);
}

} // verus!

use battery_logic::data::codec::{self, FORMAT_VERSION};
use battery_logic::data::history::{self, HEADER_SIZE, HISTORY_CAPACITY, SAMPLE_SIZE};
use battery_logic::{Duration, F32};

fn f(x: f32) -> F32 {
    F32::from_bits(x.to_bits())
}

fn v(x: F32) -> f32 {
    f32::from_bits(x.to_bits())
}

#[derive(Clone, Copy, Debug)]
struct Sample {
    time_s: u32,
    voltage: f32,
    battery_current: f32,
    ps_current: f32,
    power_online: f32,
}

impl Sample {
    fn bits(self) -> battery_logic::Sample {
        battery_logic::Sample {
            time_s: self.time_s,
            voltage: f(self.voltage),
            battery_current: f(self.battery_current),
            ps_current: f(self.ps_current),
            power_online: f(self.power_online),
        }
    }

    fn of(s: &battery_logic::Sample) -> Self {
        Self {
            time_s: s.time_s,
            voltage: v(s.voltage),
            battery_current: v(s.battery_current),
            ps_current: v(s.ps_current),
            power_online: v(s.power_online),
        }
    }
}

#[derive(Clone, Copy, Debug)]
struct Ina228Reading {
    voltage: f32,
    current: f32,
    power: f32,
}

impl Ina228Reading {
    fn bits(self) -> battery_logic::Ina228Reading {
        battery_logic::Ina228Reading {
            voltage: f(self.voltage),
            current: f(self.current),
            power: f(self.power),
        }
    }
}

#[derive(Clone, Copy, Debug)]
struct PsReading {
    voltage: f32,
    current: f32,
    power: f32,
}

impl PsReading {
    fn bits(self) -> battery_logic::PsReading {
        battery_logic::PsReading {
            voltage: f(self.voltage),
            current: f(self.current),
            power: f(self.power),
            v_set: f(0.0),
            i_set: f(0.0),
        }
    }
}

struct History(history::History);

impl History {
    fn new() -> Self {
        Self(history::History::new())
    }

    fn interval(&self) -> u32 {
        self.0.interval()
    }

    fn samples(&self) -> Vec<Sample> {
        self.0.samples().iter().map(Sample::of).collect()
    }

    fn commit(&mut self, s: Sample) {
        self.0.commit(s.bits());
    }
}

fn serialize(history: &History) -> Vec<u8> {
    codec::serialize(&history.0)
}

fn deserialize(bytes: &[u8]) -> Option<History> {
    codec::deserialize(bytes).map(History)
}

fn header_blob(version: u32, interval: u32, count: u32, total_len: usize) -> Vec<u8> {
    let mut out = vec![0u8; total_len];
    out[0..4].copy_from_slice(&version.to_le_bytes());
    out[4..8].copy_from_slice(&interval.to_le_bytes());
    out[8..12].copy_from_slice(&count.to_le_bytes());
    out
}

fn filled_history(n: u32, start_t: u32) -> History {
    let mut h = History::new();
    for i in 0..n {
        h.commit(Sample {
            time_s: start_t + i,
            voltage: 13.0,
            battery_current: 1.0,
            ps_current: 2.0,
            power_online: 1.0,
        });
    }
    h
}

#[test]
fn codec_write_read_roundtrip_empty() {
    let h = History::new();
    let blob = serialize(&h);
    assert_eq!(blob.len(), HEADER_SIZE);
    assert!(deserialize(&blob).is_none());
}

#[test]
fn codec_write_read_roundtrip() {
    let h = filled_history(10, 1000);
    let blob = serialize(&h);
    assert_eq!(blob.len(), HEADER_SIZE + 10 * SAMPLE_SIZE);

    let h2 = deserialize(&blob).expect("roundtrip");
    assert_eq!(h2.samples().len(), 10);
    assert_eq!(h2.interval(), 1);
    assert_eq!(h2.samples()[0].time_s, 1000);
    assert_eq!(h2.samples()[9].time_s, 1009);
}

#[test]
fn codec_read_rejects_truncated() {
    assert!(deserialize(&[0u8; 10]).is_none());
}

#[test]
fn codec_read_rejects_zero_interval() {
    let blob = header_blob(FORMAT_VERSION, 0, 0, HEADER_SIZE);
    assert!(deserialize(&blob).is_none());
}

#[test]
fn codec_read_rejects_wrong_version() {
    let blob = header_blob(99, 1, 0, HEADER_SIZE);
    assert!(deserialize(&blob).is_none());
}

#[test]
fn codec_read_rejects_count_without_enough_data() {
    let blob = header_blob(FORMAT_VERSION, 1, HISTORY_CAPACITY as u32 + 1, HEADER_SIZE);
    assert!(deserialize(&blob).is_none());
}

#[test]
fn codec_read_rejects_truncated_samples() {
    let blob = header_blob(FORMAT_VERSION, 1, 10, HEADER_SIZE + 5 * SAMPLE_SIZE);
    assert!(deserialize(&blob).is_none());
}

#[test]
fn codec_read_single_sample() {
    let mut blob = header_blob(FORMAT_VERSION, 1, 1, HEADER_SIZE + SAMPLE_SIZE);
    blob[12..16].copy_from_slice(&1000u32.to_le_bytes());
    blob[16..20].copy_from_slice(&13.0f32.to_le_bytes());
    blob[20..24].copy_from_slice(&1.0f32.to_le_bytes());
    blob[24..28].copy_from_slice(&2.0f32.to_le_bytes());
    blob[28..32].copy_from_slice(&1.0f32.to_le_bytes());

    let h = deserialize(&blob).expect("roundtrip");
    assert_eq!(h.samples().len(), 1);
    assert_eq!(h.samples()[0].time_s, 1000);
    assert!((h.samples()[0].voltage - 13.0).abs() < 0.001);
}

#[test]
fn codec_load_from_bytes_resets_running_accumulator() {
    let mut h = History::new();
    for i in 0..(HISTORY_CAPACITY as u32 + 1) {
        h.commit(Sample {
            time_s: i,
            voltage: 13.0,
            battery_current: 1.0,
            ps_current: 2.0,
            power_online: 1.0,
        });
    }
    assert_eq!(h.interval(), 2);
    let blob = {
        let stored = deserialize(&serialize(&h)).expect("roundtrip");
        let mut buf = vec![0u8; history::SERIALIZED_MAX_BYTES];
        let n = history::serialize_into(&stored.0, &mut buf);
        buf.truncate(n);
        buf
    };

    let mut sd = battery_logic::SensorData::new();
    assert!(sd.load_from_bytes(&blob));
    assert_eq!(sd.interval(), 2);

    let base_len = sd.history().len();
    sd.update_battery(Ina228Reading { voltage: 13.0, current: 1.0, power: 0.0 }.bits());
    sd.update_ps(PsReading { voltage: 13.0, current: 2.0, power: 0.0 }.bits());
    sd.tick(Some(5000), Duration::from_secs(1));
    assert_eq!(
        sd.history().len(),
        base_len,
        "first post-load tick should accumulate, not push"
    );

    sd.update_battery(Ina228Reading { voltage: 13.0, current: 3.0, power: 0.0 }.bits());
    sd.update_ps(PsReading { voltage: 13.0, current: 4.0, power: 0.0 }.bits());
    sd.tick(Some(5001), Duration::from_secs(1));
    assert_eq!(sd.history().len(), base_len + 1);
    assert!((v(sd.history().last().unwrap().battery_current) - 2.0).abs() < 0.01);
}

#[test]
fn the_two_stored_forms_refuse_each_other() {
    let h = filled_history(4, 10);
    let mut buf = vec![0u8; 128];
    let n = history::serialize_into(&h.0, &mut buf);
    assert!(deserialize(&buf[..n]).is_none());
    let mut other = history::History::new();
    assert!(!history::deserialize(&serialize(&h), &mut other));
}

#[test]
fn values_survive_the_round_trip() {
    let mut h = History::new();
    h.commit(Sample {
        time_s: 9,
        voltage: 13.37,
        battery_current: -0.125,
        ps_current: f32::MIN_POSITIVE,
        power_online: 0.5,
    });
    let back = deserialize(&serialize(&h)).expect("roundtrip").samples()[0];
    assert_eq!(back.time_s, 9);
    assert_eq!(back.voltage, 13.37);
    assert_eq!(back.battery_current, -0.125);
    assert_eq!(back.ps_current, f32::MIN_POSITIVE);
    assert_eq!(back.power_online, 0.5);
}

use battery_logic::data::history::{
    self, FORMAT_VERSION, HEADER_SIZE, HISTORY_CAPACITY, SAMPLE_SIZE, SERIALIZED_MAX_BYTES,
};
use battery_logic::{Duration, F32};

fn f(x: f32) -> F32 {
    F32::from_bits(x.to_bits())
}

fn v(x: F32) -> f32 {
    f32::from_bits(x.to_bits())
}

#[derive(Clone, Copy, Debug)]
struct Sample {
    time_s: u32,
    voltage: f32,
    battery_current: f32,
    ps_current: f32,
    power_online: f32,
}

impl Sample {
    fn bits(self) -> battery_logic::Sample {
        battery_logic::Sample {
            time_s: self.time_s,
            voltage: f(self.voltage),
            battery_current: f(self.battery_current),
            ps_current: f(self.ps_current),
            power_online: f(self.power_online),
        }
    }

    fn of(s: &battery_logic::Sample) -> Self {
        Self {
            time_s: s.time_s,
            voltage: v(s.voltage),
            battery_current: v(s.battery_current),
            ps_current: v(s.ps_current),
            power_online: v(s.power_online),
        }
    }
}

#[derive(Clone, Copy, Debug)]
struct Ina228Reading {
    voltage: f32,
    current: f32,
    power: f32,
}

impl Ina228Reading {
    fn bits(self) -> battery_logic::Ina228Reading {
        battery_logic::Ina228Reading {
            voltage: f(self.voltage),
            current: f(self.current),
            power: f(self.power),
        }
    }
}

#[derive(Clone, Copy, Debug)]
struct PsReading {
    voltage: f32,
    current: f32,
    power: f32,
}

impl PsReading {
    fn bits(self) -> battery_logic::PsReading {
        battery_logic::PsReading {
            voltage: f(self.voltage),
            current: f(self.current),
            power: f(self.power),
            v_set: f(0.0),
            i_set: f(0.0),
        }
    }
}

fn blob_of(version: u32, interval: u32, samples: &[Sample]) -> Vec<u8> {
    let mut out = Vec::new();
    out.extend_from_slice(&version.to_le_bytes());
    out.extend_from_slice(&interval.to_le_bytes());
    out.extend_from_slice(&(samples.len() as u32).to_le_bytes());
    for s in samples {
        out.extend_from_slice(&s.time_s.to_le_bytes());
        for x in [s.voltage, s.battery_current, s.ps_current, s.power_online] {
            out.extend_from_slice(&x.to_le_bytes());
        }
    }
    out
}

const MAX_INTERVAL: u32 = 4;

/// A history whose store can also be filled directly, by way of its stored form.
struct History {
    inner: history::History,
    interval: u32,
}

impl History {
    fn new() -> Self {
        Self { inner: history::History::with_max_interval(MAX_INTERVAL), interval: 1 }
    }

    fn interval(&self) -> u32 {
        if self.inner.samples().is_empty() {
            self.interval
        } else {
            self.inner.interval()
        }
    }

    fn samples(&self) -> Vec<Sample> {
        self.inner.samples().iter().map(Sample::of).collect()
    }

    fn commit(&mut self, s: Sample) {
        self.inner.commit(s.bits());
    }

    fn compact_if_needed(&mut self) {
        self.inner.compact_if_needed();
    }

    fn push_direct(&mut self, s: Sample) {
        let mut all = self.samples();
        all.push(s);
        let blob = blob_of(history::FORMAT_VERSION, self.interval(), &all);
        assert!(history::deserialize(&blob, &mut self.inner));
    }
}

fn serialize_into(history: &History, out: &mut [u8]) -> usize {
    history::serialize_into(&history.inner, out)
}

fn deserialize(bytes: &[u8], history: &mut History) -> bool {
    history::deserialize(bytes, &mut history.inner)
}

const CAP: usize = HISTORY_CAPACITY;

const HALF: usize = CAP / 2;

fn fill(h: &mut History, n: u32, start_t: u32) -> u32 {
    for i in 0..n {
        h.commit(Sample {
            time_s: start_t + i,
            voltage: 13.0,
            battery_current: 1.0,
            ps_current: 2.0,
            power_online: 1.0,
        });
    }
    start_t + n
}

fn push_direct(h: &mut History, n: usize, start_t: u32) {
    for i in 0..n {
        h.push_direct(Sample {
                    time_s: start_t + i as u32,
                    voltage: 13.0,
                    battery_current: 1.0,
                    ps_current: 2.0,
                    power_online: 1.0,
                });
    }
}

fn serialize_to_vec(history: &History) -> Vec<u8> {
    let mut buf = vec![0u8; SERIALIZED_MAX_BYTES];
    let n = serialize_into(history, &mut buf);
    buf.truncate(n);
    buf
}

fn header_blob(version: u32, interval: u32, count: u32, total_len: usize) -> Vec<u8> {
    let mut out = vec![0u8; total_len];
    out[0..4].copy_from_slice(&version.to_le_bytes());
    out[4..8].copy_from_slice(&interval.to_le_bytes());
    out[8..12].copy_from_slice(&count.to_le_bytes());
    out
}

fn filled_history(n: u32, start_t: u32) -> History {
    let mut h = History::new();
    for i in 0..n {
        h.commit(Sample {
            time_s: start_t + i,
            voltage: 13.0,
            battery_current: 1.0,
            ps_current: 2.0,
            power_online: 1.0,
        });
    }
    h
}

fn fresh() -> History {
    History::new()
}

#[test]
fn history_no_compaction_below_capacity() {
    let mut h = History::new();
    fill(&mut h, CAP as u32 - 1, 0);
    assert_eq!(h.samples().len(), CAP - 1);
    assert_eq!(h.interval(), 1);
}

#[test]
fn history_compaction_at_capacity() {
    let mut h = History::new();
    fill(&mut h, CAP as u32 + 1, 0);
    assert_eq!(h.samples().len(), HALF + 1);
    assert_eq!(h.interval(), 2);
}

#[test]
fn history_compaction_averages_all_fields_and_uses_later_timestamp() {
    let mut h = History::new();
    for i in 0..(CAP as u32 + 1) {
        let t = i * 10;
        let (v, c1, c2) = if i % 2 == 0 {
            (12.0, 1.0, 2.0)
        } else {
            (14.0, 3.0, 4.0)
        };
        h.commit(Sample {
            time_s: t,
            voltage: v,
            battery_current: c1,
            ps_current: c2,
            power_online: 1.0,
        });
    }
    assert_eq!(h.samples().len(), HALF + 1);
    assert_eq!(h.interval(), 2);

    for s in &h.samples()[..HALF] {
        assert_eq!(s.voltage, 13.0);
        assert_eq!(s.battery_current, 2.0);
        assert_eq!(s.ps_current, 3.0);
    }
    assert_eq!(h.samples()[0].time_s, 10);
    assert_eq!(h.samples()[1].time_s, 30);
    assert_eq!(h.samples()[HALF - 1].time_s, (CAP as u32 - 1) * 10);
}

#[test]
fn history_after_compaction_samples_at_new_interval() {
    let mut h = History::new();
    let t = fill(&mut h, CAP as u32 + 1, 0);
    assert_eq!(h.interval(), 2);

    h.commit(Sample {
        time_s: t,
        voltage: 13.0,
        battery_current: 5.0,
        ps_current: 0.0,
        power_online: 1.0,
    });
    assert_eq!(h.samples().len(), HALF + 1);

    h.commit(Sample {
        time_s: t + 1,
        voltage: 13.0,
        battery_current: 7.0,
        ps_current: 0.0,
        power_online: 1.0,
    });
    assert_eq!(h.samples().len(), HALF + 2);
    let last = *h.samples().last().unwrap();
    assert!((last.battery_current - 6.0).abs() < 0.01);
    assert_eq!(last.time_s, t + 1);
}

#[test]
fn history_interval_doubles_each_compaction() {
    let mut h = History::new();
    assert_eq!(h.interval(), 1);
    fill(&mut h, 820, 0);
    assert_eq!(h.interval(), MAX_INTERVAL);
}

#[test]
fn history_long_run_stays_bounded_and_chronological() {
    let mut h = History::new();
    fill(&mut h, 10000, 0);
    assert!(h.samples().len() <= CAP);
    assert!(h.samples().len() >= HALF);
    for i in 1..h.samples().len() {
        assert!(
            h.samples()[i].time_s >= h.samples()[i - 1].time_s,
            "not chronological at {}: {} < {}",
            i,
            h.samples()[i].time_s,
            h.samples()[i - 1].time_s
        );
    }
}

#[test]
fn history_at_max_interval_drops_oldest_via_commit() {
    let mut h = History::new();
    h.interval = MAX_INTERVAL;
    push_direct(&mut h, CAP, 0);
    let oldest_before = h.samples()[0].time_s;

    let base_t = 100_000;
    for i in 0..MAX_INTERVAL {
        h.commit(Sample {
            time_s: base_t + i,
            voltage: 13.0,
            battery_current: 5.0,
            ps_current: 3.0,
            power_online: 1.0,
        });
    }

    assert_eq!(h.samples().len(), CAP);
    assert_eq!(h.interval(), MAX_INTERVAL);
    assert!(h.samples()[0].time_s > oldest_before);
    assert!((h.samples().last().unwrap().battery_current - 5.0).abs() < 0.01);
}

#[test]
fn history_transition_from_compaction_to_dropping() {
    let mut h = History::new();
    h.interval = MAX_INTERVAL / 2;
    push_direct(&mut h, CAP, 0);

    h.compact_if_needed();
    assert_eq!(h.samples().len(), HALF);
    assert_eq!(h.interval(), MAX_INTERVAL);

    let first_after_compact = h.samples()[0].time_s;
    push_direct(&mut h, HALF, CAP as u32);

    h.compact_if_needed();

    assert_eq!(h.samples().len(), CAP - 1);
    assert_eq!(h.interval(), MAX_INTERVAL);
    assert!(h.samples()[0].time_s > first_after_compact);
}

#[test]
fn history_write_read_roundtrip_empty() {
    let h = History::new();
    let blob = serialize_to_vec(&h);
    assert_eq!(blob.len(), HEADER_SIZE);
    let mut out = fresh();
    assert!(!deserialize(&blob, &mut out));
}

#[test]
fn history_write_read_roundtrip() {
    let h = filled_history(10, 1000);
    let blob = serialize_to_vec(&h);
    assert_eq!(blob.len(), HEADER_SIZE + 10 * SAMPLE_SIZE);

    let mut h2 = fresh();
    assert!(deserialize(&blob, &mut h2));
    assert_eq!(h2.samples().len(), 10);
    assert_eq!(h2.interval(), 1);
    assert_eq!(h2.samples()[0].time_s, 1000);
    assert_eq!(h2.samples()[9].time_s, 1009);
}

#[test]
fn history_read_rejects_truncated() {
    let mut out = fresh();
    assert!(!deserialize(&[0u8; 10], &mut out));
}

#[test]
fn history_read_rejects_zero_interval() {
    let blob = header_blob(FORMAT_VERSION, 0, 0, HEADER_SIZE);
    let mut out = fresh();
    assert!(!deserialize(&blob, &mut out));
}

#[test]
fn history_read_rejects_wrong_version() {
    let blob = header_blob(99, 1, 0, HEADER_SIZE);
    let mut out = fresh();
    assert!(!deserialize(&blob, &mut out));
}

#[test]
fn history_read_rejects_count_without_enough_data() {
    let blob = header_blob(FORMAT_VERSION, 1, HISTORY_CAPACITY as u32 + 1, HEADER_SIZE);
    let mut out = fresh();
    assert!(!deserialize(&blob, &mut out));
}

#[test]
fn history_read_rejects_truncated_samples() {
    let blob = header_blob(FORMAT_VERSION, 1, 10, HEADER_SIZE + 5 * SAMPLE_SIZE);
    let mut out = fresh();
    assert!(!deserialize(&blob, &mut out));
}

#[test]
fn history_read_single_sample() {
    let mut blob = header_blob(FORMAT_VERSION, 1, 1, HEADER_SIZE + SAMPLE_SIZE);
    blob[12..16].copy_from_slice(&1000u32.to_le_bytes());
    blob[16..20].copy_from_slice(&13.0f32.to_le_bytes());
    blob[20..24].copy_from_slice(&1.0f32.to_le_bytes());
    blob[24..28].copy_from_slice(&2.0f32.to_le_bytes());
    blob[28..32].copy_from_slice(&1.0f32.to_le_bytes());

    let mut h = fresh();
    assert!(deserialize(&blob, &mut h));
    assert_eq!(h.samples().len(), 1);
    assert_eq!(h.samples()[0].time_s, 1000);
    assert!((h.samples()[0].voltage - 13.0).abs() < 0.001);
}

#[test]
fn history_load_from_bytes_resets_running_accumulator() {
    let mut h = History::new();
    for i in 0..(HISTORY_CAPACITY as u32 + 1) {
        h.commit(Sample {
            time_s: i,
            voltage: 13.0,
            battery_current: 1.0,
            ps_current: 2.0,
            power_online: 1.0,
        });
    }
    assert_eq!(h.interval(), 2);
    let blob = serialize_to_vec(&h);

    let mut sd = battery_logic::SensorData::new();
    assert!(sd.load_from_bytes(&blob));
    assert_eq!(sd.interval(), 2);

    let base_len = sd.history().len();
    sd.update_battery(Ina228Reading { voltage: 13.0, current: 1.0, power: 0.0 }.bits());
    sd.update_ps(PsReading { voltage: 13.0, current: 2.0, power: 0.0 }.bits());
    sd.tick(Some(5000), Duration::from_secs(1));
    assert_eq!(
        sd.history().len(),
        base_len,
        "first post-load tick should accumulate, not push"
    );

    sd.update_battery(Ina228Reading { voltage: 13.0, current: 3.0, power: 0.0 }.bits());
    sd.update_ps(PsReading { voltage: 13.0, current: 4.0, power: 0.0 }.bits());
    sd.tick(Some(5001), Duration::from_secs(1));
    assert_eq!(sd.history().len(), base_len + 1);
    assert!((v(sd.history().last().unwrap().battery_current) - 2.0).abs() < 0.01);
}

#[test]
fn tests_no_compaction_below_capacity() {
    let mut h = History::new();
    fill(&mut h, CAP as u32 - 1, 0);
    assert_eq!(h.samples().len(), CAP - 1);
    assert_eq!(h.interval(), 1);
}

#[test]
fn tests_compaction_at_capacity() {
    let mut h = History::new();
    fill(&mut h, CAP as u32 + 1, 0);
    assert_eq!(h.samples().len(), HALF + 1);
    assert_eq!(h.interval(), 2);
}

#[test]
fn tests_compaction_averages_all_fields_and_uses_later_timestamp() {
    let mut h = History::new();
    for i in 0..(CAP as u32 + 1) {
        let t = i * 10;
        let (v, c1, c2) = if i % 2 == 0 {
            (12.0, 1.0, 2.0)
        } else {
            (14.0, 3.0, 4.0)
        };
        h.commit(Sample {
            time_s: t,
            voltage: v,
            battery_current: c1,
            ps_current: c2,
            power_online: 1.0,
        });
    }
    assert_eq!(h.samples().len(), HALF + 1);
    assert_eq!(h.interval(), 2);

    for s in &h.samples()[..HALF] {
        assert_eq!(s.voltage, 13.0);
        assert_eq!(s.battery_current, 2.0);
        assert_eq!(s.ps_current, 3.0);
    }
    assert_eq!(h.samples()[0].time_s, 10);
    assert_eq!(h.samples()[1].time_s, 30);
    assert_eq!(h.samples()[HALF - 1].time_s, (CAP as u32 - 1) * 10);
}

#[test]
fn tests_after_compaction_samples_at_new_interval() {
    let mut h = History::new();
    let t = fill(&mut h, CAP as u32 + 1, 0);
    assert_eq!(h.interval(), 2);

    h.commit(Sample {
        time_s: t,
        voltage: 13.0,
        battery_current: 5.0,
        ps_current: 0.0,
        power_online: 1.0,
    });
    assert_eq!(h.samples().len(), HALF + 1);

    h.commit(Sample {
        time_s: t + 1,
        voltage: 13.0,
        battery_current: 7.0,
        ps_current: 0.0,
        power_online: 1.0,
    });
    assert_eq!(h.samples().len(), HALF + 2);
    let last = *h.samples().last().unwrap();
    assert!(
        (last.battery_current - 6.0).abs() < 0.01,
        "battery_current {}, expected 6.0",
        last.battery_current
    );
    assert_eq!(last.time_s, t + 1);
}

#[test]
fn tests_interval_doubles_each_compaction() {
    let mut h = History::new();
    assert_eq!(h.interval(), 1);
    fill(&mut h, 820, 0);
    assert_eq!(h.interval(), MAX_INTERVAL);
}

#[test]
fn tests_long_run_stays_bounded_and_chronological() {
    let mut h = History::new();
    fill(&mut h, 10000, 0);
    assert!(h.samples().len() <= CAP);
    assert!(h.samples().len() >= HALF);
    for i in 1..h.samples().len() {
        assert!(
            h.samples()[i].time_s >= h.samples()[i - 1].time_s,
            "not chronological at {}: {} < {}",
            i,
            h.samples()[i].time_s,
            h.samples()[i - 1].time_s
        );
    }
}

#[test]
fn tests_at_max_interval_drops_oldest_via_commit() {
    let mut h = History::new();
    h.interval = MAX_INTERVAL;
    push_direct(&mut h, CAP, 0);
    let oldest_before = h.samples()[0].time_s;

    let base_t = 100_000;
    for i in 0..MAX_INTERVAL {
        h.commit(Sample {
            time_s: base_t + i,
            voltage: 13.0,
            battery_current: 5.0,
            ps_current: 3.0,
            power_online: 1.0,
        });
    }

    assert_eq!(h.samples().len(), CAP);
    assert_eq!(h.interval(), MAX_INTERVAL);
    assert!(h.samples()[0].time_s > oldest_before);
    let last_current = h.samples().last().unwrap().battery_current;
    assert!(
        (last_current - 5.0).abs() < 0.01,
        "battery_current {last_current}, expected 5.0"
    );
}

#[test]
fn tests_transition_from_compaction_to_dropping() {
    let mut h = History::new();
    h.interval = MAX_INTERVAL / 2;
    push_direct(&mut h, CAP, 0);

    h.compact_if_needed();
    assert_eq!(h.samples().len(), HALF);
    assert_eq!(h.interval(), MAX_INTERVAL);

    let first_after_compact = h.samples()[0].time_s;
    push_direct(&mut h, HALF, CAP as u32);

    h.compact_if_needed();

    assert_eq!(h.samples().len(), CAP - 1);
    assert_eq!(h.interval(), MAX_INTERVAL);
    assert!(h.samples()[0].time_s > first_after_compact);
}

#[test]
fn more_samples_than_fit_come_back_as_the_newest() {
    let all: Vec<Sample> = (0..300u32)
        .map(|i| Sample {
            time_s: i,
            voltage: i as f32,
            battery_current: -1.5,
            ps_current: 0.25,
            power_online: 1.0,
        })
        .collect();
    let mut h = fresh();
    assert!(deserialize(&blob_of(FORMAT_VERSION, 3, &all), &mut h));
    assert_eq!(h.samples().len(), CAP);
    assert_eq!(h.samples()[0].time_s, 96);
    assert_eq!(h.samples()[CAP - 1].voltage, 299.0);
    assert_eq!(h.samples()[5].battery_current, -1.5);
    assert_eq!(h.interval(), 3);
}

#[test]
fn refused_bytes_leave_the_history_alone() {
    let mut h = filled_history(3, 7);
    assert!(!deserialize(&[1, 2, 3], &mut h));
    assert_eq!(h.samples().len(), 3);
    assert_eq!(h.samples()[0].time_s, 7);
}

#[test]
fn stored_form_is_little_endian() {
    let mut h = History::new();
    h.commit(Sample {
        time_s: 0x0102_0304,
        voltage: 13.0,
        battery_current: -1.0,
        ps_current: 0.5,
        power_online: 1.0,
    });
    let blob = serialize_to_vec(&h);
    assert_eq!(
        blob,
        vec![
            7, 0, 0, 0, 1, 0, 0, 0, 1, 0, 0, 0, 4, 3, 2, 1, 0, 0, 0x50, 0x41, 0, 0, 0x80, 0xbf, 0,
            0, 0, 0x3f, 0, 0, 0x80, 0x3f
        ]
    );
}

#[test]
fn serializing_leaves_the_rest_of_the_buffer() {
    let h = filled_history(1, 5);
    let mut buf = [9u8; 40];
    assert_eq!(serialize_into(&h, &mut buf), 32);
    assert_eq!(&buf[32..], &[9u8; 8]);
}

#[test]
fn usual_cap_is_reached_and_kept() {
    let mut h = history::History::new();
    assert_eq!(h.interval(), 1);
    for i in 0..40_000u32 {
        h.commit(
            Sample {
                time_s: i,
                voltage: 13.0,
                battery_current: 1.0,
                ps_current: 2.0,
                power_online: 1.0,
            }
            .bits(),
        );
    }
    assert_eq!(h.interval(), 64);
    assert_eq!(h.samples().len(), CAP);
    assert_eq!(h.last_time(), Some(h.samples()[CAP - 1].time_s));
}

#[test]
fn averages_are_computed_as_the_hardware_would() {
    let xs = [0.1f32, 0.2, 0.7, 1.3, 2.9, -4.4, 8.8, 0.03];
    let mut acc = history::SampleAccum::default();
    let mut sum = 0.0f32;
    for x in xs {
        acc.add(
            &Sample {
                time_s: 0,
                voltage: x,
                battery_current: -x,
                ps_current: x * 3.0,
                power_online: 1.0,
            }
            .bits(),
        );
        sum += x;
    }
    let mean = Sample::of(&acc.average(8, 77));
    assert_eq!(mean.time_s, 77);
    assert_eq!(mean.voltage.to_bits(), (sum / 8.0).to_bits());
    assert_eq!(mean.battery_current.to_bits(), (-sum / 8.0).to_bits());
    assert_eq!(mean.power_online, 1.0);
}
